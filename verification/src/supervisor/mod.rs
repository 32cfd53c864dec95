//! USB port discovery and the hotplug supervisor.
//!
//! - [`ports`] picks the ports that look like an ESP32 board, and names their devices;
//! - [`hotplug`] decides what a scan means for the attached devices.
pub mod hotplug;
pub mod ports;

pub use hotplug::{RecoveryCarryOver, Sighting, Supervisor, SupervisorConfig};
pub use ports::{
    detect_esp_ports, device_id, probe_port, sanitize_id, scan_ports, PortCandidate, PortInfo,
    SerialPort, UsbIdentity, ESPRESSIF_NATIVE_USB_VID,
};
