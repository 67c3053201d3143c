//! Verified core logic of the Rust EPUB reader desktop application.
pub mod selection;
pub mod text;
pub mod boss_key;
pub mod review;
pub mod review_panel;
pub mod tts;
pub mod files;
pub mod settings;
pub mod update;
pub mod digest;
pub mod csc;
pub mod contribute;
pub mod oauth;
pub mod reading;
pub mod cover;
pub mod fonts;
pub mod highlights;
pub mod lookup;
