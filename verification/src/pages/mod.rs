//! The pages: what they show, and where they are touched.

pub mod environment;
pub mod gps;
pub mod info;
pub mod lora;
pub mod music;
pub mod notes;
pub mod settings;
pub mod weather;
