# t5s3_epaper_ui

The user interface of the T5 S3 Paper Pro, an e-paper device with a touch
panel, Wi-Fi, a LoRa radio and a GPS receiver. What the interface decides and
computes is a library that Verus verifies; the hardware is around it.

- `src/` is the library. Every function states what it returns or changes, and
  the functions named `law_*` state what holds across them.
  - `text`, `ascii`, `lines`, `wrap`, `date`, `geo`: texts and numbers.
  - `layout`, `scene`, `keyboard`, `text_field`: the panel, pictures as lists of
    shapes, and typing.
  - `settings`: the settings, their bytes in flash and their migrations.
  - `http`, `exchange`, `tls`, `wifi`: requests and the wireless task's sessions.
  - `mesh`, `chatlog`: the radio mesh and the log of its messages.
  - `pages`: what each page looks like and what a touch of it is on.
  - `ui`: the state of the pages between two passes of the main loop, and
    `ui::device`, which holds them all.
- `tests/` runs the library.
- `app/` is the firmware: the drivers behind the trait `Board`, painting, floating
  point, JSON, sockets, and the loop that hands events to the library.
