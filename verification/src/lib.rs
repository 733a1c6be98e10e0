//! Verified core of a desktop launcher for a web-based automation backend.
pub mod alas_tasks;
pub mod backend;
pub mod child_process;
pub mod control_api;
pub mod deploy_config;
pub mod json;
pub mod menu_model;
pub mod notify;
pub mod page;
pub mod patch;
pub mod platform;
pub mod pywebio;
pub mod setup;
pub mod shell_menu;
pub mod shell_settings;
pub mod stale_cleanup;
pub mod text;
pub mod tray;
pub mod update;
