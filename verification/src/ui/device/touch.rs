//! What touches of the pages do. `back` says that a touch is on the back button.
use vstd::prelude::*;
use vstd::string::*;

use super::{reloaded, Device, Shelf};
use crate::keyboard::{key_under, keys_of, Key};
use crate::layout::inside;
use crate::pages::environment::EnvironmentView;
use crate::pages::gps::{download_button_hit, fullscreen_button_hit};
use crate::pages::lora::{
    recv_clear_hit, recv_scroll_down_hit, recv_scroll_up_hit, tab_at, tab_hit, Tab,
};
use crate::pages::notes::delete_hit;
use crate::pages::settings::{menu_at, menu_hit, reader, system, wifi, MenuHit};
use crate::pages::weather::WeatherView;
use crate::settings::{saved_password, Settings};
use crate::state::Remote;
use crate::text::own;
use crate::text_field::TextField;
use crate::ui::fetch::touch_fetched;
use crate::ui::files_page::{shelf_down, shelf_up, FilesView};
use crate::ui::lora_page::{scrolled_down, scrolled_up, LoraView};
use crate::ui::map_page::MapPage;
use crate::ui::music_page::{MusicPage, MusicStatus, Repaint};
use crate::ui::nav::{brighten, dim, Nav, Screen, Ticker};
use crate::ui::notes_page::{
    list_touched, opens_editor, spot_at, EditorTouch, ListRepaint, ListSpot, NotesView,
};
use crate::ui::pending::{used_ssid, MusicCommand};
use crate::ui::settings_page::{self, system_changed, system_repaint, SettingsRepaint};
use crate::ui::wifi_page::{
    key_does, key_typed, layer_after, network_tapped, Keys, PasswordKey, WifiPageView,
};

verus! {

/// Whether the device stops.
#[derive(Clone, Copy, Debug, PartialEq, Eq, Structural)]
pub enum Rest {
    Awake,
    /// It sleeps deeply, and wakes on the same screen.
    Sleep,
    /// It is switched off.
    PowerOff,
}

/// What a touch of the Wi-Fi page paints anew.
#[derive(Clone, Copy, Debug, PartialEq, Eq, Structural)]
pub enum WifiTouch {
    Nothing,
    /// The page.
    Page,
    /// The keyboard in its new layer.
    Layer,
    /// The passphrase.
    Typed,
}

/// What a touch of the LoRa page comes to.
#[derive(Clone, Copy, Debug, PartialEq, Eq, Structural)]
pub enum LoraTouch {
    Nothing,
    /// The page is painted anew.
    Page,
    /// The log is painted anew.
    Log,
    /// The log was deleted: it is deleted on the card too, and painted anew.
    Deleted,
    /// The touch is for the keyboard.
    Type,
}

impl Device {
    /// A touch of a page that has a back button alone.
    pub fn touch_plain(&mut self, back: bool)
        ensures
            *final(self) == if back {
                Device { nav: Nav { screen: Screen::Home, needs_redraw: true }, ..*old(self) }
            } else {
                *old(self)
            },
    {
        if back {
            self.nav.go(Screen::Home);
        }
    }

    /// A touch of the page of the front light. Says whether the light is set
    /// and its level painted.
    pub fn touch_light(&mut self, back: bool, minus: bool, plus: bool, step: u8) -> (r: bool)
        ensures
            r == (!back && (minus || plus)),
            *final(self) == if back {
                Device { nav: Nav { screen: Screen::Home, needs_redraw: true }, ..*old(self) }
            } else if minus {
                Device {
                    brightness: if old(self).brightness >= step {
                        (old(self).brightness - step) as u8
                    } else {
                        0
                    },
                    ..*old(self)
                }
            } else if plus {
                Device {
                    brightness: if old(self).brightness + step <= 100 {
                        (old(self).brightness + step) as u8
                    } else {
                        100
                    },
                    ..*old(self)
                }
            } else {
                *old(self)
            },
    {
        if back {
            self.nav.go(Screen::Home);
            false
        } else if minus {
            self.brightness = dim(self.brightness, step);
            true
        } else if plus {
            self.brightness = brighten(self.brightness, step);
            true
        } else {
            false
        }
    }

    /// A touch of the page of the sleep: says whether the device stops.
    pub fn touch_sleep(&mut self, back: bool, sleep: bool, power_off: bool) -> (r: Rest)
        ensures
            *final(self) == if back {
                Device { nav: Nav { screen: Screen::Home, needs_redraw: true }, ..*old(self) }
            } else {
                *old(self)
            },
            r == if back {
                Rest::Awake
            } else if sleep {
                Rest::Sleep
            } else if power_off {
                Rest::PowerOff
            } else {
                Rest::Awake
            },
    {
        if back {
            self.nav.go(Screen::Home);
            Rest::Awake
        } else if sleep {
            Rest::Sleep
        } else if power_off {
            Rest::PowerOff
        } else {
            Rest::Awake
        }
    }

    /// A touch of a picture: any leads back to the listing.
    pub fn touch_image(&mut self)
        ensures
            *final(self) == (Device {
                nav: Nav { screen: Screen::Files, needs_redraw: true },
                ..*old(self)
            }),
    {
        self.nav.go(Screen::Files);
    }

    /// A touch of the shelf, which shows `rows` books: `book` is the number of
    /// the one that was touched. A book is read, and the reader leads back to
    /// the shelf.
    pub fn touch_shelf(
        &mut self,
        back: bool,
        up: bool,
        down: bool,
        book: Option<usize>,
        rows: usize,
    )
        ensures
            ({
                let o = *old(self);
                let f = *final(self);
                if back {
                    f == (Device { nav: Nav { screen: Screen::Home, needs_redraw: true }, ..o })
                } else {
                    match o.shelf.view {
                        Shelf::Ready(books) => if up {
                            f == if o.shelf_scroll >= rows {
                                Device {
                                    shelf_scroll: (o.shelf_scroll - rows) as usize,
                                    nav: Nav { needs_redraw: true, ..o.nav },
                                    ..o
                                }
                            } else {
                                o
                            }
                        } else if down {
                            f == if o.shelf_scroll + rows < books@.len() {
                                Device {
                                    shelf_scroll: (o.shelf_scroll + rows) as usize,
                                    nav: Nav { needs_redraw: true, ..o.nav },
                                    ..o
                                }
                            } else {
                                o
                            }
                        } else if book is Some && book->0 < books@.len() {
                            &&& f.files@ == (FilesView {
                                reader_path: books@[book->0 as int]@,
                                reader_dirty: true,
                                reader_return: Screen::Library,
                                ..o.files@
                            })
                            &&& f == (Device {
                                files: f.files,
                                nav: Nav { screen: Screen::Reader, ..o.nav },
                                ..o
                            })
                        } else {
                            f == o
                        },
                        _ => f == o,
                    }
                }
            }),
    {
        if back {
            self.nav.go(Screen::Home);
            return ;
        }
        match &self.shelf.view {
            Shelf::Ready(books) => {
                if up {
                    if shelf_up(&mut self.shelf_scroll, rows) {
                        self.nav.needs_redraw = true;
                    }
                } else if down {
                    if shelf_down(&mut self.shelf_scroll, rows, books.len()) {
                        self.nav.needs_redraw = true;
                    }
                } else {
                    match book {
                        Some(i) => {
                            if i < books.len() {
                                let path: String = own(books[i].as_str());
                                self.files.open_book(path, Screen::Library, &mut self.nav);
                            }
                        },
                        None => {},
                    }
                }
            },
            _ => {},
        }
    }

    /// The reader is left by its back button: it leads back to where the book
    /// was opened, and the shelf is loaded anew for how far it was read.
    pub fn leave_reader(&mut self)
        ensures
            *final(self) == (Device {
                nav: Nav { screen: old(self).files.reader_return, needs_redraw: true },
                shelf: Remote {
                    view: old(self).shelf.view,
                    dirty: old(self).shelf.dirty || old(self).files.reader_return
                        == Screen::Library,
                },
                ..*old(self)
            }),
    {
        if self.files.leave_reader(&mut self.nav) {
            self.shelf.invalidate();
        }
    }

    /// A touch of the menu of the settings.
    pub fn touch_menu(&mut self, sx: i32, sy: i32, back: bool)
        ensures
            ({
                let hit = menu_at(sx as int, sy as int, back);
                &&& final(self).nav == match hit {
                    Some(MenuHit::Back) => Nav { screen: Screen::Home, needs_redraw: true },
                    Some(MenuHit::System) => Nav {
                        screen: Screen::SettingsSystem,
                        needs_redraw: true,
                    },
                    Some(MenuHit::Reader) => Nav {
                        screen: Screen::SettingsReader,
                        needs_redraw: true,
                    },
                    Some(MenuHit::Wifi) => Nav {
                        screen: Screen::SettingsWifi,
                        needs_redraw: true,
                    },
                    None => old(self).nav,
                }
                &&& final(self).wifi@ == if hit == Some(MenuHit::Wifi) {
                    WifiPageView {
                        pw_mode: false,
                        status: if old(self).wifi@.networks.len() == 0 {
                            "tap Scan to find networks"@
                        } else {
                            old(self).wifi@.status
                        },
                        ..old(self).wifi@
                    }
                } else {
                    old(self).wifi@
                }
                &&& *final(self) == (Device {
                    nav: final(self).nav,
                    wifi: final(self).wifi,
                    ..*old(self)
                })
            }),
    {
        if settings_page::touch_menu(menu_hit(sx, sy, back), &mut self.nav) {
            self.wifi.open();
        }
    }

    /// A touch of the system page.
    pub fn touch_system(&mut self, sx: i32, sy: i32, back: bool) -> (r: SettingsRepaint)
        requires
            i8::MIN < old(self).settings.tz_offset_hours < i8::MAX,
        ensures
            match system::hit_at(sx as int, sy as int, back) {
                None => r == SettingsRepaint::Nothing && *final(self) == *old(self),
                Some(system::Hit::Back) => r == SettingsRepaint::Nothing && *final(self) == (
                Device {
                    nav: Nav { screen: Screen::Settings, needs_redraw: true },
                    ..*old(self)
                }),
                Some(hit) => r == system_repaint(hit) && *final(self) == (Device {
                    settings: system_changed(old(self).settings, hit),
                    settings_dirty: true,
                    ..*old(self)
                }),
            },
    {
        settings_page::touch_system(
            system::hit_test(sx, sy, back),
            &mut self.settings,
            &mut self.settings_dirty,
            &mut self.nav,
        )
    }

    /// A touch of the page of the reader's settings.
    pub fn touch_reader(&mut self, sx: i32, sy: i32, back: bool) -> (r: SettingsRepaint)
        ensures
            match reader::hit_at(sx as int, sy as int, back) {
                None => r == SettingsRepaint::Nothing && *final(self) == *old(self),
                Some(reader::Hit::Back) => r == SettingsRepaint::Nothing && *final(self) == (
                Device {
                    nav: Nav { screen: Screen::Settings, needs_redraw: true },
                    ..*old(self)
                }),
                Some(reader::Hit::CycleFontSize) => r == SettingsRepaint::FontSize && *final(self)
                    == (Device {
                    settings: Settings {
                        reader_font_size: old(self).settings.reader_font_size.following(),
                        ..old(self).settings
                    },
                    settings_dirty: true,
                    ..*old(self)
                }),
                Some(reader::Hit::CycleFontFamily) => r == SettingsRepaint::FontFamily && *final(self)
                    == (Device {
                    settings: Settings {
                        reader_font_family: old(self).settings.reader_font_family.following(),
                        ..old(self).settings
                    },
                    settings_dirty: true,
                    ..*old(self)
                }),
                Some(reader::Hit::CycleSpacing) => r == SettingsRepaint::Spacing && *final(self)
                    == (Device {
                    settings: Settings {
                        reader_line_spacing: old(self).settings.reader_line_spacing.following(),
                        ..old(self).settings
                    },
                    settings_dirty: true,
                    ..*old(self)
                }),
            },
    {
        settings_page::touch_reader(
            reader::hit_test(sx, sy, back),
            &mut self.settings,
            &mut self.settings_dirty,
            &mut self.nav,
        )
    }

    /// A touch of the Wi-Fi page: of the keyboard while a passphrase is typed,
    /// else of the list of networks.
    pub fn touch_wifi(&mut self, sx: i32, sy: i32, back: bool) -> (r: WifiTouch)
        requires
            old(self).well_formed(),
        ensures
            final(self).well_formed(),
            ({
                let o = *old(self);
                let f = *final(self);
                let p = o.wifi@;
                let key = key_under(
                    keys_of(o.keys.symbols, o.keys.shift),
                    sx as int,
                    sy as int,
                );
                let hit = wifi::hit_at(sx as int, sy as int, p.networks.len() as int, back);
                &&& f == (Device {
                    wifi: f.wifi,
                    keys: f.keys,
                    nav: f.nav,
                    cache: f.cache,
                    ..o
                })
                &&& if p.pw_mode && back {
                    &&& r == WifiTouch::Page
                    &&& f.wifi@ == (WifiPageView {
                        pw_mode: false,
                        status: "join cancelled"@,
                        ..p
                    })
                    &&& f.keys == o.keys
                    &&& f.nav == (Nav { needs_redraw: true, ..o.nav })
                } else if p.pw_mode && key is Some {
                    &&& r == match key_does(key->0) {
                        PasswordKey::Layer => WifiTouch::Layer,
                        PasswordKey::Typed => WifiTouch::Typed,
                        PasswordKey::Join => WifiTouch::Page,
                    }
                    &&& f.wifi@ == key_typed(p, key->0)
                    &&& f.keys == layer_after(o.keys, key->0)
                    &&& f.nav == (Nav {
                        needs_redraw: o.nav.needs_redraw || key->0 == Key::Enter,
                        ..o.nav
                    })
                } else if !p.pw_mode && hit is Some {
                    &&& r == WifiTouch::Page
                    &&& f.nav == (Nav {
                        screen: if hit == Some(wifi::Hit::Back) {
                            Screen::Settings
                        } else {
                            o.nav.screen
                        },
                        needs_redraw: true,
                    })
                    &&& f.wifi@ == match hit->0 {
                        wifi::Hit::Back => p,
                        wifi::Hit::Scan => WifiPageView {
                            status: "scanning..."@,
                            scan_dirty: true,
                            ..p
                        },
                        wifi::Hit::Sync => if used_ssid(o.settings@).len() == 0 {
                            p.saying("no saved network - join one first"@)
                        } else {
                            WifiPageView {
                                status: "checking internet..."@,
                                sync_dirty: true,
                                ..p
                            }
                        },
                        wifi::Hit::Network(i) => network_tapped(
                            p,
                            o.settings@,
                            p.networks[i as int],
                        ),
                    }
                    &&& f.keys == match hit->0 {
                        wifi::Hit::Network(i) => if saved_password(
                            o.settings@.table(),
                            p.networks[i as int].ssid,
                        ) is None && p.networks[i as int].secured {
                            Keys { symbols: false, shift: false }
                        } else {
                            o.keys
                        },
                        _ => o.keys,
                    }
                } else {
                    &&& r == WifiTouch::Nothing
                    &&& f == (Device { cache: f.cache, ..o })
                }
            }),
    {
        if self.wifi.pw_mode {
            if back {
                self.wifi.cancel_password();
                self.nav.needs_redraw = true;
                return WifiTouch::Page;
            }
            match self.cache.hit(sx, sy, self.keys.symbols, self.keys.shift) {
                Some(key) => match self.wifi.password_key(key, &mut self.keys) {
                    PasswordKey::Layer => WifiTouch::Layer,
                    PasswordKey::Typed => WifiTouch::Typed,
                    PasswordKey::Join => {
                        self.nav.needs_redraw = true;
                        WifiTouch::Page
                    },
                },
                None => WifiTouch::Nothing,
            }
        } else {
            match wifi::status_hit(sx, sy, self.wifi.networks.len(), back) {
                Some(wifi::Hit::Back) => {
                    self.nav.go(Screen::Settings);
                    WifiTouch::Page
                },
                Some(wifi::Hit::Scan) => {
                    self.wifi.tap_scan();
                    self.nav.needs_redraw = true;
                    WifiTouch::Page
                },
                Some(wifi::Hit::Sync) => {
                    self.wifi.tap_sync(&self.settings);
                    self.nav.needs_redraw = true;
                    WifiTouch::Page
                },
                Some(wifi::Hit::Network(i)) => {
                    let _there: bool = self.wifi.tap_network(i, &self.settings, &mut self.keys);
                    self.nav.needs_redraw = true;
                    WifiTouch::Page
                },
                None => WifiTouch::Nothing,
            }
        }
    }

    /// A touch of the music page: a button commands the player and leaves the
    /// page up, and a touch elsewhere loads it anew.
    pub fn touch_music(&mut self, back: bool, button: Option<MusicCommand>) -> (r: Repaint)
        ensures
            r == if !back && button is Some {
                Repaint::StatusLine
            } else {
                Repaint::Nothing
            },
            *final(self) == if back {
                Device { nav: Nav { screen: Screen::Home, needs_redraw: true }, ..*old(self) }
            } else {
                match button {
                    Some(command) => Device {
                        music: MusicPage {
                            remote: Remote { view: old(self).music.remote.view, dirty: true },
                            command: Some(command),
                            inline: true,
                            anchor: None,
                            status: Some(MusicStatus::Contacting),
                            status_ticks: Ticker { count: 0 },
                            ..old(self).music
                        },
                        ..*old(self)
                    },
                    None => Device {
                        music: reloaded(old(self).music),
                        nav: Nav { needs_redraw: true, ..old(self).nav },
                        ..*old(self)
                    },
                }
            },
    {
        if back {
            self.nav.go(Screen::Home);
            return Repaint::Nothing;
        }
        match button {
            Some(command) => {
                self.music.press(command);
                Repaint::StatusLine
            },
            None => {
                self.music.reload();
                self.nav.needs_redraw = true;
                Repaint::Nothing
            },
        }
    }

    /// A touch of the environment page: anywhere but on the back button the
    /// readings are fetched anew.
    pub fn touch_environment(&mut self, back: bool)
        ensures
            *final(self) == if back {
                Device { nav: Nav { screen: Screen::Home, needs_redraw: true }, ..*old(self) }
            } else {
                Device {
                    environment: Remote { view: EnvironmentView::Loading, dirty: true },
                    nav: Nav { needs_redraw: true, ..old(self).nav },
                    ..*old(self)
                }
            },
    {
        if touch_fetched(&mut self.nav, back) {
            self.environment.refresh(EnvironmentView::Loading);
        }
    }

    /// A touch of the weather page: anywhere but on the back button the
    /// forecast is fetched anew.
    pub fn touch_weather(&mut self, back: bool)
        ensures
            *final(self) == if back {
                Device { nav: Nav { screen: Screen::Home, needs_redraw: true }, ..*old(self) }
            } else {
                Device {
                    weather: Remote { view: WeatherView::Loading, dirty: true },
                    nav: Nav { needs_redraw: true, ..old(self).nav },
                    ..*old(self)
                }
            },
    {
        if touch_fetched(&mut self.nav, back) {
            self.weather.refresh(WeatherView::Loading);
        }
    }

    /// A touch of the GPS page: an area is saved, the map fills the screen, or
    /// it is looked for anew.
    pub fn touch_gps(&mut self, sx: i32, sy: i32, back: bool)
        ensures
            *final(self) == if back {
                Device { nav: Nav { screen: Screen::Home, needs_redraw: true }, ..*old(self) }
            } else if inside(sx as int, sy as int, 350, 510, 150, 40) {
                Device { map: MapPage { download: true, ..old(self).map }, ..*old(self) }
            } else if inside(sx as int, sy as int, 40, 510, 150, 40) {
                Device {
                    map: MapPage { zoom: 0, ..old(self).map },
                    nav: Nav { screen: Screen::MapFull, needs_redraw: true },
                    ..*old(self)
                }
            } else {
                Device {
                    map: MapPage {
                        remote: Remote { view: old(self).map.remote.view, dirty: true },
                        ..old(self).map
                    },
                    ..*old(self)
                }
            },
            old(self).well_formed() ==> final(self).well_formed(),
    {
        self.map.touch(
            &mut self.nav,
            back,
            download_button_hit(sx, sy),
            fullscreen_button_hit(sx, sy),
        );
    }

    /// A touch of the list of notes.
    pub fn touch_notes(&mut self, sx: i32, sy: i32, back: bool) -> (r: ListRepaint)
        ensures
            old(self).well_formed() ==> final(self).well_formed(),
            ({
                let o = *old(self);
                let f = *final(self);
                let n = o.notes@;
                let spot = spot_at(
                    sx as int,
                    sy as int,
                    n.entries.len() as int,
                    n.scroll,
                    back,
                );
                &&& f == (Device { notes: f.notes, nav: f.nav, editor: f.editor, ..o })
                &&& f.notes@ == list_touched(n, spot)
                &&& f.editor == if opens_editor(n, spot) {
                    TextField { symbols: false, shift: false, ..o.editor }
                } else {
                    o.editor
                }
                &&& f.nav == (Nav {
                    screen: if spot == ListSpot::Back {
                        Screen::Home
                    } else if opens_editor(n, spot) {
                        Screen::NoteEdit
                    } else {
                        o.nav.screen
                    },
                    needs_redraw: o.nav.needs_redraw || spot == ListSpot::Back || (spot
                        == ListSpot::New && opens_editor(n, spot)),
                })
                &&& r == if spot == ListSpot::New && !opens_editor(n, spot) {
                    ListRepaint::Footer
                } else if f.notes@.scroll != n.scroll {
                    ListRepaint::List
                } else {
                    ListRepaint::Nothing
                }
            }),
    {
        let spot: ListSpot = self.notes.spot(sx, sy, back);
        let mut keys: Keys = Keys { symbols: self.editor.symbols, shift: self.editor.shift };
        let repaint: ListRepaint = self.notes.touch_list(spot, &mut self.nav, &mut keys);
        self.editor.symbols = keys.symbols;
        self.editor.shift = keys.shift;
        repaint
    }

    /// A touch of the editor of a note.
    pub fn touch_editor(&mut self, sx: i32, sy: i32, back: bool) -> (r: EditorTouch)
        ensures
            old(self).well_formed() ==> final(self).well_formed(),
            ({
                let o = *old(self);
                let f = *final(self);
                let delete = sx >= 410 && 55 <= sy < 96;
                let leaves = r == EditorTouch::SaveAndLeave || r == EditorTouch::DeleteAndLeave;
                &&& r == if back {
                    EditorTouch::SaveAndLeave
                } else if delete {
                    if o.notes@.delete_armed {
                        EditorTouch::DeleteAndLeave
                    } else {
                        EditorTouch::Arm
                    }
                } else {
                    EditorTouch::Type { disarmed: o.notes@.delete_armed }
                }
                &&& f == (Device { notes: f.notes, nav: f.nav, ..o })
                &&& f.notes@ == (NotesView {
                    dirty: o.notes@.dirty || leaves,
                    delete_armed: if leaves {
                        o.notes@.delete_armed
                    } else {
                        r == EditorTouch::Arm
                    },
                    ..o.notes@
                })
                &&& f.nav == (Nav {
                    screen: if leaves {
                        Screen::Notes
                    } else {
                        o.nav.screen
                    },
                    ..o.nav
                })
            }),
    {
        self.notes.touch_editor(&mut self.nav, back, delete_hit(sx, sy))
    }

    /// A touch of the LoRa page: of a tab, of the buttons beside the log, or of
    /// the keyboard. Deleting the log takes two touches in a row.
    pub fn touch_lora(&mut self, sx: i32, sy: i32, back: bool) -> (r: LoraTouch)
        requires
            old(self).well_formed(),
        ensures
            final(self).well_formed(),
            ({
                let o = *old(self);
                let f = *final(self);
                let p = o.lora@;
                let tab = tab_at(sx as int, sy as int);
                let beside = p.tab == Tab::Recv;
                let up = inside(sx as int, sy as int, 470, 140, 60, 100);
                let down = inside(sx as int, sy as int, 470, 840, 60, 100);
                let clear = inside(sx as int, sy as int, 470, 560, 60, 60);
                &&& f == (Device { lora: f.lora, nav: f.nav, ..o })
                &&& f.nav == if back {
                    Nav { screen: Screen::Home, needs_redraw: true }
                } else if tab is Some {
                    Nav { needs_redraw: true, ..o.nav }
                } else {
                    o.nav
                }
                &&& f.lora@ == if back {
                    p
                } else if tab is Some {
                    LoraView { tab: tab->0, clear_armed: false, ..p }
                } else if beside && up {
                    scrolled_up(p)
                } else if beside && down {
                    scrolled_down(p)
                } else if beside && clear {
                    if p.clear_armed {
                        LoraView {
                            received: seq![],
                            keys: seq![],
                            scroll: 0,
                            clear_armed: false,
                            ..p
                        }
                    } else {
                        LoraView { clear_armed: true, ..p }
                    }
                } else if beside {
                    LoraView { clear_armed: false, ..p }
                } else {
                    p
                }
                &&& r == if back || tab is Some {
                    LoraTouch::Page
                } else if beside && (up || down) {
                    LoraTouch::Log
                } else if beside && clear {
                    if p.clear_armed {
                        LoraTouch::Deleted
                    } else {
                        LoraTouch::Log
                    }
                } else if beside {
                    if p.clear_armed {
                        LoraTouch::Log
                    } else {
                        LoraTouch::Nothing
                    }
                } else if p.tab == Tab::Send {
                    LoraTouch::Type
                } else {
                    LoraTouch::Nothing
                }
            }),
    {
        if back {
            self.nav.go(Screen::Home);
            return LoraTouch::Page;
        }
        match tab_hit(sx, sy) {
            Some(tab) => {
                self.lora.tab = tab;
                let _asked: bool = self.lora.disarm();
                self.nav.needs_redraw = true;
                return LoraTouch::Page;
            },
            None => {},
        }
        match self.lora.tab {
            Tab::Info => LoraTouch::Nothing,
            Tab::Send => LoraTouch::Type,
            Tab::Recv => {
                if recv_scroll_up_hit(sx, sy) {
                    self.lora.scroll_up();
                    LoraTouch::Log
                } else if recv_scroll_down_hit(sx, sy) {
                    self.lora.scroll_down();
                    LoraTouch::Log
                } else if recv_clear_hit(sx, sy) {
                    if self.lora.tap_clear() {
                        LoraTouch::Deleted
                    } else {
                        LoraTouch::Log
                    }
                } else if self.lora.disarm() {
                    LoraTouch::Log
                } else {
                    LoraTouch::Nothing
                }
            },
        }
    }
}

} // verus!
