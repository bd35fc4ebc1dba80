pub mod text;
pub mod progress;
pub mod journal;
pub mod progress_compat;
pub mod editor;
pub mod service;
pub mod server;
