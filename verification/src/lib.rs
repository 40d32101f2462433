//! Verified core of a local-first Bluetooth battery monitor: protocol parsing,
//! component resolution, freshness, device registry, classification, settings
//! validation and presentation summaries.

pub mod timestamp;
pub mod text;
pub mod entries;
pub mod battery;
pub mod device;
pub mod airpods;
pub mod accessory;
pub mod provider;
pub mod providers;
pub mod resolver;
pub mod freshness;
pub mod registry;
pub mod processor;
pub mod classification;
pub mod store;
pub mod companies;
pub mod engine;
pub mod settings;
pub mod diagnostics;
pub mod windows;
pub mod desktop;
pub mod tray_icon;
pub mod tray;
pub mod bluez;
pub mod dbus;
pub mod platform;
pub mod export;
pub mod replay;
pub mod state;
pub mod cli;
pub mod accessory_link;

pub use timestamp::{Duration, Timestamp};
pub use battery::{
    BatteryComponent, BatteryPercentage, ChargingState, ComponentType, DataConfidence, DataSource,
    InvalidBatteryPercentage,
};
