//! The user interface between its pages: which screen is up, what a press or a
//! touch does, what is asked of the wireless task and what its answers change.

pub mod clock;
pub mod device;
pub mod fetch;
pub mod files_page;
pub mod lora_page;
pub mod map_page;
pub mod music_page;
pub mod nav;
pub mod notes_page;
pub mod notices;
pub mod pending;
pub mod power;
pub mod settings_page;
pub mod wifi_page;
