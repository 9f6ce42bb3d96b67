//! Automatic desktop integration for self-contained executable bundles.
//!
//! The library holds the verified core: bundle signature detection, icon
//! selection, desktop-entry parsing and rewriting, the persisted integration
//! store with its derived path index, the filesystem event normalizer, and
//! the coordinator's debounce and dispatch decisions. File, process and
//! notification I/O lives outside the library and hands it plain values.

pub mod appimage;
pub mod config;
pub mod daemon;
pub mod desktop;
pub mod kv;
pub mod notifications;
pub mod paths;
pub mod state;
pub mod text;
pub mod watcher;

pub use config::Config;
pub use daemon::Daemon;
pub use state::State;
