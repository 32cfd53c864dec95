//! Control core of a server that bridges ESP32 boards to HTTP and WebSocket clients.
//!
//! The boards run the `esp-csi-cli-rs` firmware and send channel state information (CSI)
//! over a serial port. This crate holds what such a server decides, with its behaviour
//! stated in contracts and proved:
//!
//! - [`models`]: request bodies, the CLI commands they turn into, and the cached
//!   configuration;
//! - [`serial`]: one device's serial connection, from the modem lines to the frames;
//! - [`state`]: the attached devices;
//! - [`supervisor`]: which ports belong to boards, and which devices come and go;
//! - [`server`]: the HTTP routes;
//! - [`profile`]: capabilities that an embedder adds.
//!
//! [`text`], [`bytes`], [`str_map`], [`flags`] and [`cli`] are the vocabulary of the
//! contracts.
//!
//! The crate performs no I/O: ports, channels, timers and sockets belong to the caller,
//! which carries out the decisions and hands the outcomes back in.
pub mod bytes;
pub mod cli;
pub mod flags;
pub mod models;
pub mod profile;
pub mod serial;
pub mod server;
pub mod state;
pub mod str_map;
pub mod supervisor;
pub mod text;

pub use profile::{CsiProfile, StandardCsiProfile};
pub use server::ServerConfig;
pub use state::{AppState, DeviceAttachSpec, DeviceHandle, DeviceRegistry};
pub use supervisor::{detect_esp_ports, probe_port, PortInfo, SupervisorConfig};
