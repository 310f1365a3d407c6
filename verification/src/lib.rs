//! The library of Model Assistant: what the application decides and computes.
pub mod config;
pub mod config_laws;
pub mod console;
pub mod console_laws;
pub mod console_view;
pub mod encoding;
pub mod ipc;
pub mod keeper;
pub mod keeper_laws;
pub mod launch;
pub mod manager;
pub mod mount_laws;
pub mod mounts;
pub mod names;
pub mod namespaces;
pub mod paths;
pub mod report;
pub mod screen;
pub mod screen_laws;
pub mod startup;
pub mod surface;
pub mod surface_laws;
pub mod terminal_laws;
pub mod text;
pub mod text_order;
pub mod unix_path;
pub mod window;
pub mod window_laws;
