//! Request bodies and their CLI commands.
use csi_webserver_core::flags::FlagValue;
use csi_webserver_core::models::{
    CsiConfig, CsiDeliveryConfig, ProtocolConfig, TrafficConfig, WifiConfig,
};
use csi_webserver_core::str_map::StrMap;
use csi_webserver_core::{CsiProfile, StandardCsiProfile};

/// The flag value of a JSON text.
fn json(text: &str) -> FlagValue {
    FlagValue::from_json(text).expect("not JSON")
}

#[test]
fn traffic_emits_frequency_only_when_unsolicited_omitted() {
    let cmd = TrafficConfig {
        frequency_hz: 100,
        unsolicited: None,
    }
    .to_cli_command();
    assert_eq!(cmd, "set-traffic --frequency-hz=100");
}

#[test]
fn traffic_emits_unsolicited_flag() {
    let on = TrafficConfig {
        frequency_hz: 1000,
        unsolicited: Some(true),
    }
    .to_cli_command();
    assert_eq!(on, "set-traffic --frequency-hz=1000 --unsolicited=on");
    let off = TrafficConfig {
        frequency_hz: 1000,
        unsolicited: Some(false),
    }
    .to_cli_command();
    assert_eq!(off, "set-traffic --frequency-hz=1000 --unsolicited=off");
}

fn wifi(mode: &str, peer_mac: Option<&str>, ht40: Option<&str>) -> WifiConfig {
    WifiConfig {
        mode: mode.to_string(),
        sta_ssid: None,
        sta_password: None,
        ap_ssid: None,
        ap_password: None,
        ap_dhcp: None,
        ap_leases: None,
        ap_burst: None,
        channel: None,
        peer_mac: peer_mac.map(str::to_string),
        ht40: ht40.map(str::to_string),
        extra: StrMap::new(),
    }
}

#[test]
fn wifi_emits_peer_mac_and_ht40() {
    let cmd = wifi("esp-now-central", Some("AA:BB:CC:DD:EE:FF"), Some("above"))
        .to_cli_command(None, &StandardCsiProfile)
        .unwrap();
    assert_eq!(
        cmd,
        "set-wifi --mode=esp-now-central --set-channel=1 --peer-mac=AA:BB:CC:DD:EE:FF --ht40=above"
    );
}

#[test]
fn wifi_empty_peer_mac_clears_to_auto() {
    let cmd = wifi("esp-now-peripheral", Some(""), None)
        .to_cli_command(None, &StandardCsiProfile)
        .unwrap();
    assert_eq!(cmd, "set-wifi --mode=esp-now-peripheral --set-channel=1 --peer-mac=");
}

#[test]
fn wifi_extra_forwards_hop_params_verbatim() {
    // Channel-hopping flags (--hop-list / --hop-channel / --hop-burst /
    // --hop-follow-ms) are HE20-node keys the open core does not name; they
    // ride through `extra` and must re-emit unquoted — the CSV hop list in
    // particular must survive as `1,5,9,13`, not `"1,5,9,13"`.
    let mut cfg = wifi("esp-now-central", None, None);
    cfg.extra
        .insert("hop-list".to_string(), json("\"1,5,9,13\""));
    cfg.extra
        .insert("hop-follow-ms".to_string(), json("75"));
    let cmd = cfg.to_cli_command(None, &StandardCsiProfile).unwrap();
    assert!(cmd.contains("--hop-list=1,5,9,13"), "{cmd}");
    assert!(cmd.contains("--hop-follow-ms=75"), "{cmd}");
}

#[test]
fn wifi_rejects_malformed_peer_mac() {
    assert!(wifi("esp-now-central", Some("not-a-mac"), None)
        .to_cli_command(None, &StandardCsiProfile)
        .is_err());
}

#[test]
fn wifi_rejects_bad_ht40() {
    assert!(wifi("esp-now-central", None, Some("sideways"))
        .to_cli_command(None, &StandardCsiProfile)
        .is_err());
}

#[test]
fn wifi_station_forwards_explicit_channel_hint() {
    // An explicit channel in station mode is forwarded as a pre-association
    // band-selection hint.
    let cmd = WifiConfig {
        mode: "station".to_string(),
        sta_ssid: Some("MyNetwork".to_string()),
        sta_password: None,
        ap_ssid: None,
        ap_password: None,
        ap_dhcp: None,
        ap_leases: None,
        ap_burst: None,
        channel: Some(6),
        peer_mac: None,
        ht40: None,
        extra: StrMap::new(),
    }
    .to_cli_command(None, &StandardCsiProfile)
    .unwrap();
    assert_eq!(
        cmd,
        "set-wifi --mode=station --sta-ssid='MyNetwork' --set-channel=6"
    );
}

#[test]
fn wifi_station_omits_channel_when_unset() {
    // Without an explicit channel, station mode sends no `--set-channel`
    // (and never falls back to the chip default) — the firmware derives the
    // channel from the associated AP.
    let cmd = WifiConfig {
        mode: "station".to_string(),
        sta_ssid: Some("MyNetwork".to_string()),
        sta_password: None,
        ap_ssid: None,
        ap_password: None,
        ap_dhcp: None,
        ap_leases: None,
        ap_burst: None,
        channel: None,
        peer_mac: None,
        ht40: None,
        extra: StrMap::new(),
    }
    .to_cli_command(Some("esp32c5"), &StandardCsiProfile)
    .unwrap();
    assert_eq!(cmd, "set-wifi --mode=station --sta-ssid='MyNetwork'");
}

#[test]
fn wifi_ap_c5_defaults_channel_149() {
    let cmd = WifiConfig {
        mode: "wifi-ap".to_string(),
        sta_ssid: None,
        sta_password: None,
        ap_ssid: Some("esp-csi-ap".to_string()),
        ap_password: None,
        ap_dhcp: None,
        ap_leases: None,
        ap_burst: None,
        channel: None,
        peer_mac: None,
        ht40: None,
        extra: StrMap::new(),
    }
    .to_cli_command(Some("esp32c5"), &StandardCsiProfile)
    .unwrap();
    assert_eq!(
        cmd,
        "set-wifi --mode=wifi-ap --ap-ssid='esp-csi-ap' --set-channel=149"
    );
}

#[test]
fn wifi_ap_emits_ap_fields() {
    let cmd = WifiConfig {
        mode: "wifi-ap".to_string(),
        sta_ssid: None,
        sta_password: None,
        ap_ssid: Some("esp-csi-ap".to_string()),
        ap_password: Some(String::new()),
        ap_dhcp: Some(true),
        ap_leases: None,
        ap_burst: None,
        channel: Some(6),
        peer_mac: None,
        ht40: None,
        extra: StrMap::new(),
    }
    .to_cli_command(None, &StandardCsiProfile)
    .unwrap();
    assert_eq!(
        cmd,
        "set-wifi --mode=wifi-ap --ap-ssid='esp-csi-ap' --ap-password='' --ap-dhcp=on --set-channel=6"
    );
}

#[test]
fn wifi_ap_emits_leases_and_burst() {
    let cmd = WifiConfig {
        mode: "wifi-ap".to_string(),
        sta_ssid: None,
        sta_password: None,
        ap_ssid: Some("esp-csi-ap".to_string()),
        ap_password: None,
        ap_dhcp: Some(true),
        ap_leases: Some(4),
        ap_burst: Some(true),
        channel: Some(6),
        peer_mac: None,
        ht40: None,
        extra: StrMap::new(),
    }
    .to_cli_command(None, &StandardCsiProfile)
    .unwrap();
    assert_eq!(
        cmd,
        "set-wifi --mode=wifi-ap --ap-ssid='esp-csi-ap' --ap-dhcp=on --ap-leases=4 --ap-burst=on --set-channel=6"
    );
}

#[test]
fn wifi_ap_burst_off_emits_off() {
    let mut cfg = wifi("wifi-ap", None, None);
    cfg.ap_burst = Some(false);
    let cmd = cfg.to_cli_command(None, &StandardCsiProfile).unwrap();
    assert_eq!(cmd, "set-wifi --mode=wifi-ap --ap-burst=off --set-channel=1");
}

#[test]
fn wifi_ap_rejects_out_of_range_leases() {
    for bad in [0u8, 9] {
        let mut cfg = wifi("wifi-ap", None, None);
        cfg.ap_leases = Some(bad);
        assert!(cfg.to_cli_command(None, &StandardCsiProfile).is_err());
    }
}

#[test]
fn wifi_fast_collector_emits_peer_mac_and_ht40() {
    let cmd = wifi("esp-now-fast-collector", Some("aa:bb:cc:dd:ee:ff"), Some("below"))
        .to_cli_command(None, &StandardCsiProfile)
        .unwrap();
    assert_eq!(
        cmd,
        "set-wifi --mode=esp-now-fast-collector --set-channel=1 --peer-mac=aa:bb:cc:dd:ee:ff --ht40=below"
    );
}

#[test]
fn wifi_rejects_unknown_mode() {
    assert!(wifi("mesh", None, None).to_cli_command(None, &StandardCsiProfile).is_err());
}

/// A profile that names an extra wifi mode, standing in for an out-of-tree
/// capability crate. The open core must accept the mode and re-emit any
/// unknown `extra` params generically, without naming either itself.
struct ExtraModeProfile;
impl CsiProfile for ExtraModeProfile {
    fn extra_wifi_modes(&self) -> &'static [&'static str] {
        &["custom-mode"]
    }
}

#[test]
fn wifi_accepts_profile_mode_and_emits_extra_params() {
    let mut cfg = wifi("custom-mode", None, None);
    cfg.extra
        .insert("inject-period-ms".to_string(), json("20"));
    let cmd = cfg.to_cli_command(None, &ExtraModeProfile).unwrap();
    assert_eq!(
        cmd,
        "set-wifi --mode=custom-mode --set-channel=1 --inject-period-ms=20"
    );
    // The standard (no-op) profile does not name the mode, so it is rejected.
    assert!(wifi("custom-mode", None, None)
        .to_cli_command(None, &StandardCsiProfile)
        .is_err());
}

/// A `CsiConfig` with every named flag unset and an empty `extra` map.
fn csi_cfg() -> CsiConfig {
    CsiConfig {
        lltf: None,
        htltf: None,
        stbc_htltf: None,
        ltf_merge: None,
        csi: None,
        csi_legacy: None,
        csi_ht20: None,
        csi_ht40: None,
        dump_ack: None,
        csi_force_lltf: None,
        csi_vht: None,
        val_scale_cfg: None,
        extra: StrMap::new(),
    }
}

#[test]
fn csi_emits_on_off_toggles() {
    let mut cfg = csi_cfg();
    cfg.lltf = Some(false);
    cfg.csi = Some(true);
    cfg.csi_legacy = Some(false);
    cfg.dump_ack = Some(false);
    let cmd = cfg.to_cli_command(&StandardCsiProfile).unwrap();
    assert_eq!(cmd, "set-csi --lltf=off --csi=on --csi-legacy=off --dump-ack=off");
}

#[test]
fn csi_emits_default_preset() {
    let mut cfg = csi_cfg();
    cfg.extra
        .insert("preset".to_string(), json("\"default\""));
    let cmd = cfg.to_cli_command(&StandardCsiProfile).unwrap();
    assert_eq!(cmd, "set-csi --preset=default");
}

#[test]
fn csi_emits_extra_flags_generically() {
    // Unknown acquisition flags round-trip through the flattened `extra`
    // map, formatted with the same on/off + numeric conventions.
    let mut cfg = csi_cfg();
    cfg.csi = Some(true);
    cfg.extra
        .insert("csi-su".to_string(), json("1"));
    cfg.extra
        .insert("csi-beamformed".to_string(), json("true"));
    let cmd = cfg.to_cli_command(&StandardCsiProfile).unwrap();
    assert_eq!(
        cmd,
        "set-csi --csi=on --csi-beamformed=on --csi-su=1"
    );
}

#[test]
fn csi_rejects_unknown_preset() {
    let mut cfg = csi_cfg();
    cfg.extra
        .insert("preset".to_string(), json("\"turbo\""));
    assert!(cfg.to_cli_command(&StandardCsiProfile).is_err());
}

#[test]
fn csi_delivery_accepts_raw() {
    let cmd = CsiDeliveryConfig {
        mode: Some("raw".to_string()),
        logging: None,
    }
    .to_cli_command()
    .unwrap();
    assert_eq!(cmd, "set-csi-delivery --mode=raw");
}

#[test]
fn csi_delivery_rejects_unknown_mode() {
    assert!(CsiDeliveryConfig {
        mode: Some("bogus".to_string()),
        logging: None,
    }
    .to_cli_command()
    .is_err());
}

#[test]
fn protocol_emits_lowercased_command() {
    let cmd = ProtocolConfig {
        protocol: "AC".to_string(),
    }
    .to_cli_command(&StandardCsiProfile)
    .unwrap();
    assert_eq!(cmd, "set-protocol --protocol=ac");
}

#[test]
fn protocol_accepts_all_valid_values() {
    for p in ["b", "g", "n", "lr", "a", "ac"] {
        assert!(ProtocolConfig {
            protocol: p.to_string(),
        }
        .to_cli_command(&StandardCsiProfile)
        .is_ok());
    }
}

#[test]
fn protocol_rejects_unknown_value() {
    assert!(ProtocolConfig {
        protocol: "wifi7".to_string(),
    }
    .to_cli_command(&StandardCsiProfile)
    .is_err());
}
