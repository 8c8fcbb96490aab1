//! Verified core of the MuZap tools: configuration parsing, `hosts` block
//! editing, argument splitting, test analytics and the decisions the
//! command-line programs make around them.
pub mod error;
pub mod ini;
pub mod text;
pub mod fmt;
pub mod ini_laws;
pub mod params;
pub mod paths;
pub mod process;
pub mod config_files;
pub mod app;
pub mod hosts;
pub mod hosts_laws;
pub mod tester;
pub mod muzap;
pub mod updater;
pub mod updater_laws;
pub mod winws_service;
