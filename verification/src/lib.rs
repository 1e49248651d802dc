//! A terminal typing trainer's engine: the session that compares what is typed
//! with what was asked for, the keys that drive it, the page and cursor it
//! shows, the counts it is scored with, and the texts it is started on.

pub mod app;
pub mod character;
pub mod clock;
pub mod config;
pub mod laws;
pub mod scan;
pub mod state;
pub mod text;
