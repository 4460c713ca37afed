pub mod action;
pub mod config;
pub mod connection;
pub mod handler;
pub mod key;
pub mod lifecycle;
pub mod path_watcher;
pub mod queue;
pub mod sync_watcher;
pub mod target;
pub mod text;
pub mod tui;
