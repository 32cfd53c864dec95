//! Request bodies, cached device state and response payloads.
//!
//! - [`wifi`], [`csi`] and [`commands`] turn request bodies into the firmware's CLI
//!   commands;
//! - [`device`] holds the cached configuration and the identity of a device.
pub mod commands;
pub mod csi;
pub mod device;
pub mod wifi;

pub use commands::{
    CollectionModeConfig, CsiDeliveryConfig, IoTasksConfig, OutputMode, OutputModeConfig,
    ProtocolConfig, RateConfig, StartConfig, TrafficConfig,
};
pub use csi::CsiConfig;
pub use device::{
    default_wifi_channel, ApiResponse, CollectionSection, CollectionStatusResponse,
    CsiConfigSection, DeviceConfig, DeviceInfo, WifiSection,
};
pub use wifi::WifiConfig;
