pub mod autostart;
pub mod clipboard;
pub mod clipboard_native;
pub mod config;
pub mod float_bits;
pub mod geometry_text;
pub mod history;
pub mod keyboard;
pub mod overlay;
pub mod samples;
pub mod session;
pub mod text;
pub mod transcription;
