//! The device registry, the shared state and the routes.
use csi_webserver_core::server::{
    device_prefix, devices_path, root_answer, root_path, Endpoint, Method,
};
use csi_webserver_core::serial::ConnectionExit;
use csi_webserver_core::state::firmware_gate;
use csi_webserver_core::str_map::StrMap;
use csi_webserver_core::{
    AppState, CsiProfile, DeviceAttachSpec, DeviceRegistry, ServerConfig, StandardCsiProfile,
};
use std::sync::atomic::Ordering;
use std::sync::Arc;

fn spec(id: &str) -> DeviceAttachSpec {
    DeviceAttachSpec {
        id: id.to_string(),
        port_path: format!("/dev/{id}"),
        ..Default::default()
    }
}

#[test]
fn attach_spec_defaults() {
    let spec = DeviceAttachSpec::default();
    assert_eq!(spec.id, "");
    assert_eq!(spec.port_path, "");
    assert_eq!(spec.baud_rate, 115_200);
    assert!(!spec.native_usb);
    assert_eq!(spec.mac, None);
    assert_eq!(spec.recovery_cycles, 0);
    assert_eq!(spec.fault, None);
}

#[test]
fn attached_devices_are_found_until_detached() {
    let mut state: AppState<(), StandardCsiProfile> = AppState::new();
    let dev = state.devices.attach(
        DeviceAttachSpec {
            native_usb: true,
            mac: Some("AA:BB".to_string()),
            recovery_cycles: 2,
            ..spec("b")
        },
        |_| (),
    );
    assert_eq!(dev.id, "b");
    assert_eq!(dev.port_path, "/dev/b");
    assert_eq!(dev.mac.as_deref(), Some("AA:BB"));
    assert!(dev.native_usb);
    assert_eq!(dev.recovery_cycles.load(Ordering::SeqCst), 2);
    assert!(!dev.serial_connected.load(Ordering::SeqCst));
    assert!(!dev.collection_running.load(Ordering::SeqCst));
    assert!(!dev.firmware_verified.load(Ordering::SeqCst));
    assert!(!dev.shutdown.is_cancelled());

    let found = state.devices.get("b").expect("not found");
    assert!(Arc::ptr_eq(&found, &dev));
    assert!(state.devices.get("c").is_none());

    let gone = state.devices.detach("b").expect("not attached");
    assert!(Arc::ptr_eq(&gone, &dev));
    assert!(dev.shutdown.is_cancelled());
    assert!(state.devices.get("b").is_none());
    assert!(state.devices.detach("b").is_none());
}

#[test]
fn lost_port_is_opened_again_and_no_other() {
    let mut registry: DeviceRegistry<(), StandardCsiProfile> = DeviceRegistry::default();
    let dev = registry.attach(spec("a"), |_| ());
    assert_eq!(dev.port_after(ConnectionExit::Disconnected), Some("/dev/a"));
    assert_eq!(dev.port_after(ConnectionExit::CommandChannelClosed), None);
    assert_eq!(dev.port_after(ConnectionExit::Shutdown), None);
}

#[test]
fn removing_does_not_cancel() {
    let mut registry: DeviceRegistry<(), StandardCsiProfile> = DeviceRegistry::default();
    registry.attach(spec("a"), |_| ());
    let dev = registry.remove("a").expect("not attached");
    assert!(!dev.shutdown.is_cancelled());
    assert!(registry.insert(dev.clone()).is_none());
    let again = registry.insert(dev.clone()).expect("not replaced");
    assert!(Arc::ptr_eq(&again, &dev));
}

#[test]
fn snapshot_is_sorted_by_id() {
    let mut registry: DeviceRegistry<(), StandardCsiProfile> = DeviceRegistry::default();
    for id in ["c", "a", "b", "B", "a"] {
        registry.attach(spec(id), |_| ());
    }
    let ids: Vec<String> = registry.snapshot().iter().map(|d| d.id.clone()).collect();
    assert_eq!(ids, vec!["B", "a", "b", "c"]);
}

#[test]
fn commands_need_verified_firmware() {
    let mut registry: DeviceRegistry<(), StandardCsiProfile> = DeviceRegistry::default();
    let dev = registry.attach(spec("a"), |_| ());
    let (status, body) = dev.require_firmware().expect("not refused");
    assert_eq!(status, 412);
    assert!(!body.success);
    assert_eq!(
        body.message,
        "Firmware not verified as esp-csi-cli-rs. Call GET .../info to verify, \
         or POST .../control/reset to power-cycle and re-check."
    );
    dev.firmware_verified.store(true, Ordering::SeqCst);
    assert!(dev.require_firmware().is_none());
    assert!(firmware_gate(true).is_none());
    assert_eq!(firmware_gate(false).expect("not refused").0, 412);
}

struct Extended;

impl CsiProfile for Extended {
    fn extra_protocols(&self) -> &'static [&'static str] {
        &["ax"]
    }

    fn label_format(&self, cur_bb_format: u32) -> Option<&'static str> {
        if cur_bb_format == 7 {
            Some("he")
        } else {
            None
        }
    }
}

#[test]
fn devices_inherit_the_profile() {
    let profile: Arc<dyn CsiProfile> = Arc::new(Extended);
    let mut state: AppState<(), dyn CsiProfile> = AppState::with_profile(profile);
    assert_eq!(state.profile().extra_protocols(), ["ax"]);
    let dev = state.devices.attach(spec("a"), |_| ());
    assert_eq!(dev.profile.extra_protocols(), ["ax"]);
    assert_eq!(dev.profile.label_format(7), Some("he"));
    assert_eq!(state.devices.profile().label_format(8), None);
}

#[test]
fn standard_profile_adds_nothing() {
    let profile = StandardCsiProfile;
    assert!(profile.extra_protocols().is_empty());
    assert!(profile.extra_wifi_modes().is_empty());
    assert!(profile.resolve_preset("default").is_none());
    assert!(profile.preset_cli("default").is_none());
    assert!(profile.label_format(0).is_none());
    let state: AppState<(), StandardCsiProfile> = AppState::default();
    assert!(state.profile().extra_protocols().is_empty());
}

// ─── The map ──────────────────────────────────────────────────────────────

#[test]
fn str_map_stores_and_lists() {
    let mut map: StrMap<u32> = StrMap::new();
    assert_eq!(map.len(), 0);
    assert_eq!(map.insert("b".to_string(), 2), None);
    assert_eq!(map.insert("a".to_string(), 1), None);
    assert_eq!(map.insert("b".to_string(), 3), Some(2));
    assert_eq!(map.len(), 2);
    assert_eq!(map.key(0), "a");
    assert_eq!(*map.value(1), 3);
    assert_eq!(map.get("b"), Some(&3));
    assert_eq!(map.get("c"), None);
    let copy = map.clone();
    assert_eq!(map.remove("a"), Some(1));
    assert_eq!(map.remove("a"), None);
    assert_eq!(copy.get("a"), Some(&1));
}

// ─── Routes ───────────────────────────────────────────────────────────────

#[test]
fn routes_of_a_device() {
    let table: Vec<(Method, &str)> =
        Endpoint::all().iter().map(|e| (e.method(), e.path())).collect();
    assert_eq!(
        table,
        vec![
            (Method::Get, "/config"),
            (Method::Post, "/config/reset"),
            (Method::Post, "/config/wifi"),
            (Method::Post, "/config/traffic"),
            (Method::Post, "/config/csi"),
            (Method::Post, "/config/csi-output"),
            (Method::Post, "/config/collection-mode"),
            (Method::Post, "/config/output-mode"),
            (Method::Post, "/config/rate"),
            (Method::Post, "/config/protocol"),
            (Method::Post, "/config/io-tasks"),
            (Method::Post, "/config/csi-delivery"),
            (Method::Post, "/control/start"),
            (Method::Post, "/control/stop"),
            (Method::Get, "/control/status"),
            (Method::Post, "/control/reset"),
            (Method::Post, "/control/stats"),
            (Method::Get, "/info"),
            (Method::Get, "/ws"),
        ]
    );
    assert_eq!(root_path(), "/");
    assert_eq!(root_answer(), "CSI Server Active");
    assert_eq!(devices_path(), "/api/devices");
    assert_eq!(device_prefix(), "/api/devices/{id}");
    assert_eq!(ServerConfig { bind: "0.0.0.0:3000".to_string() }.bind, "0.0.0.0:3000");
}
