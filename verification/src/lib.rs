//! The logic of a touch-screen e-paper handheld.

pub mod ascii;
pub mod bounded;
pub mod chatlog;
pub mod date;
pub mod exchange;
pub mod geo;
pub mod http;
pub mod io48;
pub mod keyboard;
pub mod layout;
pub mod lines;
pub mod mesh;
pub mod pages;
pub mod scene;
pub mod service;
pub mod settings;
pub mod state;
pub mod text;
pub mod text_field;
pub mod tls;
pub mod ui;
pub mod wifi;
pub mod wrap;
