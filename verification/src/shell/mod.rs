//! The desktop shell: what the window, the tray and the hot keys decide.
//!
//! The shell itself (windows, menus, events) lies outside; it asks here what to do.

pub mod cli;
pub mod commands;
pub mod frame;
pub mod poller;
pub mod settings;
pub mod window;
