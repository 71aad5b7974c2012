pub mod text;
pub mod outside;
pub mod error;
pub mod config;
pub mod network;
pub mod models;
pub mod schedule;
pub mod stats;
pub mod quality;
pub mod internet;
pub mod capture_models;
pub mod overlay;
pub mod mac_overlay;
pub mod win_overlay;
pub mod annotation;
pub mod capture;
pub mod snapshot;
pub mod watcher;
pub mod probe;
pub mod session;
