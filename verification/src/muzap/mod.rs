//! The decisions of the `muzap` control program: settings, strategy choice,
//! the IP list mode, the service's files, and the checks and updates it runs.
pub mod settings;
pub mod strategies;
pub mod ipset;
pub mod service;
pub mod tools;
pub mod updates;
pub mod diagnostics;
pub mod fixes;
pub mod menu;
