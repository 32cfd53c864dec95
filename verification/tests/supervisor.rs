//! Port discovery and the hotplug supervisor.
use csi_webserver_core::state::DeviceRegistry;
use csi_webserver_core::supervisor::hotplug::{candidate_spec, RecoveryCarryOver};
use csi_webserver_core::supervisor::{
    detect_esp_ports, device_id, probe_port, sanitize_id, scan_ports, PortCandidate, SerialPort,
    Sighting, Supervisor, SupervisorConfig, UsbIdentity, ESPRESSIF_NATIVE_USB_VID,
};
use csi_webserver_core::StandardCsiProfile;
use std::sync::atomic::Ordering;
use std::sync::Arc;
use std::time::Duration;

#[test]
fn sanitize_id_replaces_slashes() {
    assert_eq!(sanitize_id("/dev/ttyUSB0"), "-dev-ttyUSB0");
    assert_eq!(sanitize_id("D0:CF:13:E2:90:E8"), "D0-CF-13-E2-90-E8");
}

#[test]
fn device_id_prefers_mac_over_path() {
    let id = device_id("/dev/ttyACM0", Some("AA:BB:CC:DD:EE:FF"), &[]);
    assert_eq!(id, "AA-BB-CC-DD-EE-FF");
}

#[test]
fn device_id_honours_alias_by_mac() {
    let aliases = vec![("lab1".into(), "AA:BB:CC:DD:EE:FF".into())];
    let id = device_id("/dev/ttyACM0", Some("AA:BB:CC:DD:EE:FF"), &aliases);
    assert_eq!(id, "lab1");
}

fn usb_port(name: &str, vid: u16, serial: Option<&str>) -> SerialPort {
    SerialPort {
        port_name: name.to_string(),
        usb: Some(UsbIdentity { vid, serial_number: serial.map(str::to_string) }),
    }
}

fn plain_port(name: &str) -> SerialPort {
    SerialPort { port_name: name.to_string(), usb: None }
}

#[test]
fn sanitizing_keeps_what_fits() {
    assert_eq!(sanitize_id("aZ09_-"), "aZ09_-");
    assert_eq!(sanitize_id("é b"), "--b");
    assert_eq!(sanitize_id(&sanitize_id("a/b:c")), sanitize_id("a/b:c"));
    assert_eq!(sanitize_id(""), "");
}

#[test]
fn device_id_falls_back_to_the_last_path_part() {
    assert_eq!(device_id("/dev/ttyUSB0", None, &[]), "ttyUSB0");
    assert_eq!(device_id("COM3", None, &[]), "COM3");
    assert_eq!(device_id("/dev/", None, &[]), "");
}

#[test]
fn device_id_takes_the_first_alias() {
    let aliases = vec![
        ("one".to_string(), "/dev/ttyUSB1".to_string()),
        ("two".to_string(), "/dev/ttyUSB0".to_string()),
        ("three".to_string(), "AA:BB".to_string()),
    ];
    assert_eq!(device_id("/dev/ttyUSB0", Some("AA:BB"), &aliases), "two");
    assert_eq!(device_id("/dev/ttyUSB9", Some("AA:BB"), &aliases), "three");
    // The id follows the board to another port.
    assert_eq!(
        device_id("/dev/ttyACM1", Some("CC:DD"), &aliases),
        device_id("/dev/ttyACM2", Some("CC:DD"), &aliases)
    );
}

#[test]
fn ports_are_probed_by_path() {
    let ports = vec![
        plain_port("/dev/ttyS0"),
        usb_port("/dev/ttyACM0", ESPRESSIF_NATIVE_USB_VID, Some("AA:BB")),
        usb_port("/dev/ttyUSB0", 0x10C4, None),
    ];
    let info = probe_port("/dev/ttyACM0", &ports).expect("not found");
    assert_eq!(info.port_path, "/dev/ttyACM0");
    assert!(info.native_usb);
    assert_eq!(info.mac.as_deref(), Some("AA:BB"));
    let info = probe_port("/dev/ttyUSB0", &ports).expect("not found");
    assert!(!info.native_usb);
    assert_eq!(info.mac, None);
    assert!(!probe_port("/dev/ttyS0", &ports).expect("not found").native_usb);
    assert!(probe_port("/dev/ttyS1", &ports).is_none());
}

#[test]
fn boards_are_detected_by_name_or_vendor() {
    let ports = vec![
        usb_port("/dev/ttyUSB1", 0x0001, None),
        plain_port("/dev/ttyUSB7"),
        usb_port("/dev/ttyACM0", 0x0001, None),
        usb_port("COM4", 0x1A86, None),
        usb_port("COM5", 0x0001, None),
        usb_port("/dev/cu.usbserial-1", 0x0001, None),
        usb_port("/dev/cu.usbmodem1", 0x0001, None),
    ];
    assert_eq!(
        detect_esp_ports(None, &ports),
        vec!["/dev/cu.usbmodem1", "/dev/cu.usbserial-1", "/dev/ttyACM0", "/dev/ttyUSB1", "COM4"]
    );
}

#[test]
fn only_usb_port_is_used_where_none_looks_like_a_board() {
    let one = vec![plain_port("/dev/ttyS0"), usb_port("COM5", 0x0001, None)];
    assert_eq!(detect_esp_ports(None, &one), vec!["COM5"]);
    let two = vec![usb_port("COM6", 0x0001, None), usb_port("COM5", 0x0001, None)];
    assert!(detect_esp_ports(None, &two).is_empty());
    assert!(detect_esp_ports(None, &Vec::new()).is_empty());
}

#[test]
fn override_replaces_detection() {
    let ports = vec![usb_port("/dev/ttyUSB0", 0x10C4, None)];
    assert_eq!(detect_esp_ports(Some("/dev/pts/3".to_string()), &ports), vec!["/dev/pts/3"]);
}

#[test]
fn scan_names_candidates_and_adds_aliased_ports() {
    let ports = vec![
        usb_port("/dev/ttyACM0", ESPRESSIF_NATIVE_USB_VID, Some("AA:BB")),
        usb_port("/dev/ttyUSB0", 0x10C4, None),
        plain_port("/dev/ttyS0"),
    ];
    let aliases = vec![
        ("uart".to_string(), "/dev/ttyS0".to_string()),
        ("bridge".to_string(), "/dev/ttyUSB0".to_string()),
        ("gone".to_string(), "/dev/ttyS9".to_string()),
        ("again".to_string(), "/dev/ttyS0".to_string()),
    ];
    let found = detect_esp_ports(None, &ports);
    let scan = scan_ports(&found, &ports, &aliases);
    let summary: Vec<(&str, &str, bool, Option<&str>)> = scan
        .iter()
        .map(|c| (c.id.as_str(), c.path.as_str(), c.native_usb, c.mac.as_deref()))
        .collect();
    assert_eq!(
        summary,
        vec![
            ("AA-BB", "/dev/ttyACM0", true, Some("AA:BB")),
            ("bridge", "/dev/ttyUSB0", false, None),
            ("uart", "/dev/ttyS0", false, None),
        ]
    );
}

// ─── Hotplug ──────────────────────────────────────────────────────────────

/// The runtime of a device is the fault that it started with.
type Registry = DeviceRegistry<Option<String>, StandardCsiProfile>;

fn candidate(id: &str, path: &str) -> PortCandidate {
    PortCandidate {
        id: id.to_string(),
        path: path.to_string(),
        native_usb: true,
        mac: Some("AA:BB".to_string()),
    }
}

/// One whole scan.
fn scan(supervisor: &mut Supervisor, registry: &mut Registry, candidates: &Vec<PortCandidate>) {
    for c in candidates {
        match supervisor.sight(registry, c) {
            Sighting::New => {
                let spec = supervisor.adopt(c);
                registry.attach(spec, |_| None);
            }
            Sighting::Moved(dev) => {
                let carry = RecoveryCarryOver::from_handle(&dev, Some("fault".to_string()));
                let spec = supervisor.follow(&dev, c, carry);
                assert!(dev.shutdown.is_cancelled());
                registry.attach(spec, |spec| spec.fault.clone());
            }
            Sighting::Known => {}
        }
    }
    supervisor.sweep(registry, candidates);
}

#[test]
fn device_is_detached_after_three_absences() {
    let mut supervisor = Supervisor::new(115_200);
    let mut registry: Registry = DeviceRegistry::with_profile(Arc::new(StandardCsiProfile));
    let here = vec![candidate("a", "/dev/ttyACM0")];
    let nowhere: Vec<PortCandidate> = Vec::new();

    scan(&mut supervisor, &mut registry, &here);
    let dev = registry.get("a").expect("not attached");
    assert_eq!(dev.baud_rate, 115_200);
    assert_eq!(dev.port_path, "/dev/ttyACM0");

    scan(&mut supervisor, &mut registry, &nowhere);
    scan(&mut supervisor, &mut registry, &nowhere);
    assert!(registry.get("a").is_some());
    // A sighting starts the count over.
    scan(&mut supervisor, &mut registry, &here);
    scan(&mut supervisor, &mut registry, &nowhere);
    scan(&mut supervisor, &mut registry, &nowhere);
    assert!(registry.get("a").is_some());
    assert!(!dev.shutdown.is_cancelled());
    scan(&mut supervisor, &mut registry, &nowhere);
    assert!(registry.get("a").is_none());
    assert!(dev.shutdown.is_cancelled());
    // It comes back as a new device.
    scan(&mut supervisor, &mut registry, &here);
    assert!(registry.get("a").is_some());
}

#[test]
fn absences_are_counted_per_device() {
    let mut supervisor = Supervisor::new(9600);
    let mut registry: Registry = DeviceRegistry::with_profile(Arc::new(StandardCsiProfile));
    let both = vec![candidate("a", "/dev/ttyACM0"), candidate("b", "/dev/ttyACM1")];
    let only_b = vec![candidate("b", "/dev/ttyACM1")];
    scan(&mut supervisor, &mut registry, &both);
    scan(&mut supervisor, &mut registry, &only_b);
    scan(&mut supervisor, &mut registry, &only_b);
    scan(&mut supervisor, &mut registry, &only_b);
    assert!(registry.get("a").is_none());
    assert!(registry.get("b").is_some());
}

#[test]
fn moved_device_is_followed_with_its_recovery_state() {
    let mut supervisor = Supervisor::new(115_200);
    let mut registry: Registry = DeviceRegistry::with_profile(Arc::new(StandardCsiProfile));
    scan(&mut supervisor, &mut registry, &vec![candidate("a", "/dev/ttyACM0")]);
    let old = registry.get("a").expect("not attached");
    old.recovery_cycles.store(2, Ordering::SeqCst);
    scan(&mut supervisor, &mut registry, &vec![candidate("a", "/dev/ttyACM5")]);
    let new = registry.get("a").expect("lost");
    assert_eq!(new.port_path, "/dev/ttyACM5");
    assert_eq!(new.recovery_cycles.load(Ordering::SeqCst), 2);
    assert_eq!(new.runtime.as_deref(), Some("fault"));
    assert!(!new.firmware_verified.load(Ordering::SeqCst));
    assert!(old.shutdown.is_cancelled());
    assert!(!new.shutdown.is_cancelled());
}

#[test]
fn candidate_specs_carry_everything_over() {
    let c = candidate("a", "/dev/ttyACM0");
    let carry = RecoveryCarryOver { recovery_cycles: 4, fault: Some("f".to_string()) };
    let spec = candidate_spec(&c, 9600, carry);
    assert_eq!(spec.id, "a");
    assert_eq!(spec.port_path, "/dev/ttyACM0");
    assert_eq!(spec.baud_rate, 9600);
    assert!(spec.native_usb);
    assert_eq!(spec.mac.as_deref(), Some("AA:BB"));
    assert_eq!(spec.recovery_cycles, 4);
    assert_eq!(spec.fault.as_deref(), Some("f"));
    let none = RecoveryCarryOver::default();
    assert_eq!(none.recovery_cycles, 0);
    assert_eq!(none.fault, None);
}

#[test]
fn supervisor_configuration() {
    let config = SupervisorConfig {
        baud_rate: 115_200,
        scan_interval: Duration::from_secs(2),
        aliases: vec![],
    };
    assert_eq!(config.scan_interval, Duration::from_secs(2));
    assert_eq!(config.baud_rate, 115_200);
    assert!(config.aliases.is_empty());
}
