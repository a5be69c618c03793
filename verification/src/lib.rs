pub mod alerts;
pub mod clients;
pub mod commands;
pub mod config;
pub mod events_file;
pub mod ids;
pub mod laws;
pub mod metrics;
pub mod monitor;
pub mod panel_session;
pub mod panel_setup;
pub mod panel_url;
pub mod registry;
pub mod secrets;
pub mod ssh;
pub mod ssh_args;
pub mod ssl;
pub mod terminal;
pub mod text;
pub mod three_x_ui;
pub mod tray;
