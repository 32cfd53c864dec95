//! Edge cases of the request bodies, and the cached configuration.
use csi_webserver_core::flags::{push_extra, push_extras, push_flag, push_on_off, FlagValue};
use csi_webserver_core::models::csi::{apply_bool_cache, apply_u32_cache};
use csi_webserver_core::models::wifi::{quote_cli_arg, validate_peer_mac};
use csi_webserver_core::models::{
    default_wifi_channel, CollectionModeConfig, CollectionStatusResponse, CsiConfig,
    CsiConfigSection, CsiDeliveryConfig, DeviceConfig, IoTasksConfig, OutputMode,
    OutputModeConfig, ProtocolConfig, RateConfig, StartConfig, TrafficConfig, WifiConfig,
};
use csi_webserver_core::str_map::StrMap;
use csi_webserver_core::{CsiProfile, StandardCsiProfile};
use std::sync::atomic::AtomicBool;

fn plain_wifi(mode: &str) -> WifiConfig {
    WifiConfig {
        mode: mode.to_string(),
        sta_ssid: None,
        sta_password: None,
        ap_ssid: None,
        ap_password: None,
        ap_dhcp: None,
        ap_leases: None,
        ap_burst: None,
        channel: None,
        peer_mac: None,
        ht40: None,
        extra: StrMap::new(),
    }
}

fn plain_csi() -> CsiConfig {
    CsiConfig {
        lltf: None,
        htltf: None,
        stbc_htltf: None,
        ltf_merge: None,
        csi: None,
        csi_legacy: None,
        csi_ht20: None,
        csi_ht40: None,
        dump_ack: None,
        csi_force_lltf: None,
        csi_vht: None,
        val_scale_cfg: None,
        extra: StrMap::new(),
    }
}

fn from_json(text: &str) -> FlagValue {
    FlagValue::from_json(text).expect("not JSON")
}

/// The text of one unnamed flag with the given JSON value.
fn emitted(json: &str) -> String {
    let mut cmd = "x".to_string();
    push_extra(&mut cmd, "k", &from_json(json));
    cmd
}

// ─── Flags ────────────────────────────────────────────────────────────────

#[test]
fn json_values_render_as_flags() {
    assert_eq!(emitted("true"), "x --k=on");
    assert_eq!(emitted(" false "), "x --k=off");
    assert_eq!(emitted("75"), "x --k=75");
    assert_eq!(emitted("-1.50"), "x --k=-1.5");
    assert_eq!(emitted("null"), "x --k=null");
    assert_eq!(emitted("\"true\""), "x --k=true");
    assert_eq!(emitted("\"a\\\"b\\u0041\""), "x --k=a\"bA");
    assert_eq!(emitted("[ 1, \"two\" ]"), "x --k=[1,\"two\"]");
    assert_eq!(emitted("{ \"a\" : 1 }"), "x --k={\"a\":1}");
}

#[test]
fn json_objects_render_as_objects_whatever_their_keys() {
    let json = "{ \"$serde_json::private::RawValue\" : \"1\" }";
    assert_eq!(emitted(json), "x --k={\"$serde_json::private::RawValue\":\"1\"}");
    let json = "{ \"$serde_json::private::Number\" : \"1\" }";
    assert_eq!(emitted(json), "x --k={\"$serde_json::private::Number\":\"1\"}");
}

#[test]
fn json_nested_too_deep_is_refused() {
    let nested = |n: usize| format!("{}{}", "[".repeat(n), "]".repeat(n));
    assert!(FlagValue::from_json(&nested(100)).is_some());
    assert!(FlagValue::from_json(&nested(200)).is_none());
    assert!(FlagValue::from_json(&nested(1_000_000)).is_none());
}

#[test]
fn text_that_is_not_json_is_no_flag() {
    assert!(FlagValue::from_json("").is_none());
    assert!(FlagValue::from_json("on").is_none());
    assert!(FlagValue::from_json("1 2").is_none());
    assert!(FlagValue::from_json("\"open").is_none());
}

#[test]
fn classification_of_json_values() {
    assert!(matches!(FlagValue::classify("true".to_string(), None), FlagValue::Bool(true)));
    assert!(matches!(FlagValue::classify("false".to_string(), None), FlagValue::Bool(false)));
    match FlagValue::classify("\"a\"".to_string(), Some("a".to_string())) {
        FlagValue::Text(s) => assert_eq!(s, "a"),
        other => panic!("{other:?}"),
    }
    match FlagValue::classify("7".to_string(), None) {
        FlagValue::Json(s) => assert_eq!(s, "7"),
        other => panic!("{other:?}"),
    }
}

#[test]
fn only_strings_are_read_as_strings() {
    assert_eq!(from_json("\"a\"").as_str(), Some("a"));
    assert_eq!(from_json("1").as_str(), None);
    assert_eq!(from_json("true").as_str(), None);
}

#[test]
fn flags_are_appended() {
    let mut cmd = "c".to_string();
    push_flag(&mut cmd, "a", "b");
    push_on_off(&mut cmd, "on", Some(true));
    push_on_off(&mut cmd, "none", None);
    push_on_off(&mut cmd, "off", Some(false));
    assert_eq!(cmd, "c --a=b --on=on --off=off");
}

#[test]
fn extras_come_in_key_order_however_they_were_stored() {
    let mut forwards: StrMap<FlagValue> = StrMap::new();
    let mut backwards: StrMap<FlagValue> = StrMap::new();
    let keys = ["a", "ab", "b", "B", "é"];
    for k in keys.iter() {
        forwards.insert(k.to_string(), from_json("1"));
    }
    for k in keys.iter().rev() {
        backwards.insert(k.to_string(), from_json("1"));
    }
    let mut one = String::new();
    let mut two = String::new();
    push_extras(&mut one, &forwards);
    push_extras(&mut two, &backwards);
    assert_eq!(one, two);
    assert_eq!(one, " --B=1 --a=1 --ab=1 --b=1 --é=1");
}

// ─── Wi-Fi ────────────────────────────────────────────────────────────────

#[test]
fn quoting_picks_the_quote_that_does_not_occur() {
    assert_eq!(quote_cli_arg("plain").unwrap(), "'plain'");
    assert_eq!(quote_cli_arg("").unwrap(), "''");
    assert_eq!(quote_cli_arg("it's").unwrap(), "\"it's\"");
    assert_eq!(quote_cli_arg("say \"hi\"").unwrap(), "'say \"hi\"'");
    assert_eq!(
        quote_cli_arg("a'b\"c").unwrap_err(),
        "value cannot contain both single and double quote characters"
    );
    assert_eq!(quote_cli_arg("a\nb").unwrap_err(), "value cannot contain newline characters");
    assert_eq!(quote_cli_arg("a\rb").unwrap_err(), "value cannot contain newline characters");
}

#[test]
fn peer_macs_are_validated() {
    assert!(validate_peer_mac("").is_ok());
    assert!(validate_peer_mac("aa:BB:0c:dd:9e:ff").is_ok());
    assert!(validate_peer_mac("aa-BB-0c-dd-9e-ff").is_ok());
    assert_eq!(
        validate_peer_mac("aabbccddeeff").unwrap_err(),
        "peer_mac must use ':' or '-' separators (aa:bb:cc:dd:ee:ff)"
    );
    for bad in ["aa:bb:cc:dd:ee", "aa:bb:cc:dd:ee:ff:00", "aa:bb:cc:dd:ee:f", "aa:bb:cc:dd:ee:fg", "aa:bb-cc:dd:ee:ff", ":"] {
        assert_eq!(
            validate_peer_mac(bad).unwrap_err(),
            format!("Invalid peer_mac '{bad}' (use aa:bb:cc:dd:ee:ff)")
        );
    }
}

#[test]
fn wifi_errors_name_the_field() {
    let profile = StandardCsiProfile;
    let long = "x".repeat(33);

    let mut cfg = plain_wifi("station");
    cfg.sta_ssid = Some(long.clone());
    assert_eq!(
        cfg.to_cli_command(None, &profile).unwrap_err(),
        "sta_ssid is 33 bytes; firmware limit is 32 bytes"
    );

    let mut cfg = plain_wifi("station");
    cfg.sta_password = Some(long.clone());
    assert_eq!(
        cfg.to_cli_command(None, &profile).unwrap_err(),
        "sta_password is 33 bytes; firmware limit is 32 bytes"
    );

    let mut cfg = plain_wifi("wifi-ap");
    cfg.ap_ssid = Some(long.clone());
    assert_eq!(
        cfg.to_cli_command(None, &profile).unwrap_err(),
        "ap_ssid is 33 bytes; firmware limit is 32 bytes"
    );

    let mut cfg = plain_wifi("wifi-ap");
    cfg.ap_password = Some(long.clone());
    assert_eq!(
        cfg.to_cli_command(None, &profile).unwrap_err(),
        "ap_password is 33 bytes; firmware limit is 32 bytes"
    );

    let mut cfg = plain_wifi("wifi-ap");
    cfg.ap_leases = Some(9);
    assert_eq!(
        cfg.to_cli_command(None, &profile).unwrap_err(),
        "ap_leases is 9; firmware accepts 1-8"
    );

    let mut cfg = plain_wifi("esp-now-central");
    cfg.ht40 = Some("sideways".to_string());
    assert_eq!(
        cfg.to_cli_command(None, &profile).unwrap_err(),
        "Invalid ht40 'sideways' (use above, below, none, or off)"
    );

    assert_eq!(
        plain_wifi("mesh").to_cli_command(None, &profile).unwrap_err(),
        "Unknown wifi mode 'mesh'; expected one of: station, sniffer, wifi-ap, esp-now-central, \
         esp-now-peripheral, esp-now-fast-collector, esp-now-fast-source"
    );
}

#[test]
fn wifi_limit_counts_bytes() {
    // Sixteen two-byte characters fit, seventeen do not.
    let mut cfg = plain_wifi("station");
    cfg.sta_ssid = Some("é".repeat(16));
    assert!(cfg.to_cli_command(None, &StandardCsiProfile).is_ok());
    cfg.sta_ssid = Some("é".repeat(17));
    assert_eq!(
        cfg.to_cli_command(None, &StandardCsiProfile).unwrap_err(),
        "sta_ssid is 34 bytes; firmware limit is 32 bytes"
    );
}

#[test]
fn wifi_reports_the_first_fault_in_field_order() {
    let mut cfg = plain_wifi("wifi-ap");
    cfg.ap_ssid = Some("a\nb".to_string());
    cfg.ap_leases = Some(0);
    cfg.peer_mac = Some("x".to_string());
    assert_eq!(
        cfg.to_cli_command(None, &StandardCsiProfile).unwrap_err(),
        "value cannot contain newline characters"
    );
    cfg.ap_ssid = None;
    assert_eq!(
        cfg.to_cli_command(None, &StandardCsiProfile).unwrap_err(),
        "ap_leases is 0; firmware accepts 1-8"
    );
}

#[test]
fn accepted_commands_are_one_line() {
    let mut cfg = plain_wifi("station");
    cfg.sta_ssid = Some("it's a net".to_string());
    cfg.sta_password = Some("tab\tand \u{85} next line".to_string());
    cfg.peer_mac = Some("aa:bb:cc:dd:ee:ff".to_string());
    let cmd = cfg.to_cli_command(None, &StandardCsiProfile).unwrap();
    assert!(!cmd.contains('\n') && !cmd.contains('\r'), "{cmd}");
    cfg.peer_mac = Some("aa:bb:cc:dd:ee:f\n".to_string());
    assert!(cfg.to_cli_command(None, &StandardCsiProfile).is_err());
    // A rate is sent as it is.
    let rate = RateConfig { rate: "1m\n".to_string() };
    assert_eq!(rate.to_cli_command(), "set-rate --rate=1m\n");
}

struct OneMode;

impl CsiProfile for OneMode {
    fn extra_wifi_modes(&self) -> &'static [&'static str] {
        &["custom-mode"]
    }

    fn extra_protocols(&self) -> &'static [&'static str] {
        &["ax"]
    }

    fn preset_cli(&self, name: &str) -> Option<String> {
        if name == "turbo" {
            Some("set-csi --turbo=on".to_string())
        } else {
            None
        }
    }

    fn resolve_preset(&self, name: &str) -> Option<CsiConfigSection> {
        if name == "turbo" {
            let mut section = CsiConfigSection::default();
            section.shift = Some(9);
            Some(section)
        } else {
            None
        }
    }
}

#[test]
fn wifi_error_lists_profile_modes() {
    let message = plain_wifi("mesh").to_cli_command(None, &OneMode).unwrap_err();
    assert!(message.ends_with("esp-now-fast-source, custom-mode"), "{message}");
}

#[test]
fn wifi_profile_through_a_trait_object() {
    let profile: &dyn CsiProfile = &OneMode;
    assert_eq!(
        plain_wifi("custom-mode").to_cli_command(Some("esp32c6"), profile).unwrap(),
        "set-wifi --mode=custom-mode --set-channel=6"
    );
}

#[test]
fn channel_by_chip() {
    assert_eq!(default_wifi_channel(None), 1);
    assert_eq!(default_wifi_channel(Some("esp32")), 1);
    assert_eq!(default_wifi_channel(Some("esp32c5")), 149);
    assert_eq!(default_wifi_channel(Some("esp32c6")), 6);
    assert_eq!(default_wifi_channel(Some(" \tESP32C5\u{a0}\n")), 149);
    assert_eq!(default_wifi_channel(Some("")), 1);
}

// ─── CSI ──────────────────────────────────────────────────────────────────

#[test]
fn csi_emits_every_flag_in_order() {
    let mut cfg = plain_csi();
    cfg.lltf = Some(true);
    cfg.htltf = Some(false);
    cfg.stbc_htltf = Some(true);
    cfg.ltf_merge = Some(false);
    cfg.csi = Some(true);
    cfg.csi_legacy = Some(false);
    cfg.csi_ht20 = Some(true);
    cfg.csi_ht40 = Some(false);
    cfg.dump_ack = Some(true);
    cfg.csi_force_lltf = Some(false);
    cfg.csi_vht = Some(true);
    cfg.val_scale_cfg = Some(4_294_967_295);
    assert_eq!(
        cfg.to_cli_command(&StandardCsiProfile).unwrap(),
        "set-csi --lltf=on --htltf=off --stbc-htltf=on --ltf-merge=off --csi=on --csi-legacy=off \
         --csi-ht20=on --csi-ht40=off --dump-ack=on --csi-force-lltf=off --csi-vht=on \
         --val-scale-cfg=4294967295"
    );
    assert_eq!(plain_csi().to_cli_command(&StandardCsiProfile).unwrap(), "set-csi");
}

#[test]
fn csi_preset_replaces_other_flags() {
    let mut cfg = plain_csi();
    cfg.lltf = Some(true);
    cfg.extra.insert("other".to_string(), from_json("1"));
    cfg.extra.insert("preset".to_string(), from_json("\"default\""));
    assert_eq!(cfg.to_cli_command(&StandardCsiProfile).unwrap(), "set-csi --preset=default");
    cfg.extra.insert("preset".to_string(), from_json("\"turbo\""));
    assert_eq!(cfg.to_cli_command(&OneMode).unwrap(), "set-csi --turbo=on");
    assert_eq!(
        cfg.to_cli_command(&StandardCsiProfile).unwrap_err(),
        "unknown preset 'turbo'; expected default"
    );
    cfg.extra.insert("preset".to_string(), from_json("1"));
    assert_eq!(cfg.to_cli_command(&OneMode).unwrap_err(), "preset must be a string");
}

#[test]
fn csi_command_with_a_resolved_preset() {
    let mut cfg = plain_csi();
    cfg.extra.insert("preset".to_string(), from_json("\"turbo\""));
    assert_eq!(cfg.cli_command_with_preset(Some("line".to_string())).unwrap(), "line");
    assert!(cfg.cli_command_with_preset(None).is_err());
}

#[test]
fn csi_cache_keeps_what_is_omitted() {
    let mut section = DeviceConfig::firmware_defaults().csi_config;
    let mut cfg = plain_csi();
    cfg.lltf = Some(false);
    cfg.csi = Some(false);
    cfg.val_scale_cfg = Some(3);
    cfg.extra.insert("csi-su".to_string(), from_json("1"));
    cfg.apply_to_cache(&mut section, &StandardCsiProfile);
    assert_eq!(section.lltf_enabled, Some(false));
    assert_eq!(section.htltf_enabled, Some(true));
    assert_eq!(section.acquire_csi, Some(0));
    assert_eq!(section.acquire_csi_legacy, Some(1));
    assert_eq!(section.val_scale_cfg, Some(3));
    assert_eq!(section.shift, Some(0));
    assert_eq!(section.extra.len(), 1);
    match section.extra.get("csi-su") {
        Some(FlagValue::Json(v)) => assert_eq!(v, "1"),
        other => panic!("{other:?}"),
    }
    // A second time changes nothing.
    cfg.apply_to_cache(&mut section, &StandardCsiProfile);
    assert_eq!(section.extra.len(), 1);
    assert_eq!(section.lltf_enabled, Some(false));
}

#[test]
fn csi_cache_takes_presets() {
    let mut cfg = plain_csi();
    cfg.lltf = Some(false);
    cfg.extra.insert("preset".to_string(), from_json("\"turbo\""));

    let mut section = CsiConfigSection::default();
    cfg.apply_to_cache(&mut section, &OneMode);
    assert_eq!(section.shift, Some(9));
    assert_eq!(section.lltf_enabled, None);

    // Unknown to the profile: the firmware defaults.
    cfg.apply_to_cache(&mut section, &StandardCsiProfile);
    assert_eq!(section.shift, Some(0));
    assert_eq!(section.lltf_enabled, Some(true));
    assert_eq!(section.extra.len(), 0);

    // Not a string: the flags apply, and the preset itself is not cached.
    cfg.extra.insert("preset".to_string(), from_json("1"));
    cfg.apply_to_cache(&mut section, &OneMode);
    assert_eq!(section.lltf_enabled, Some(false));
    assert!(section.extra.get("preset").is_none());
}

#[test]
fn cache_slots_are_overwritten_only_by_values() {
    let mut switch = Some(true);
    apply_bool_cache(&mut switch, None);
    assert_eq!(switch, Some(true));
    apply_bool_cache(&mut switch, Some(false));
    assert_eq!(switch, Some(false));
    let mut number = None;
    apply_u32_cache(&mut number, None);
    assert_eq!(number, None);
    apply_u32_cache(&mut number, Some(true));
    assert_eq!(number, Some(1));
    apply_u32_cache(&mut number, Some(false));
    assert_eq!(number, Some(0));
}

#[test]
fn firmware_defaults_by_chip() {
    let cfg = DeviceConfig::firmware_defaults_for_chip(Some("esp32c5"));
    assert_eq!(cfg.wifi.mode.as_deref(), Some("sniffer"));
    assert_eq!(cfg.wifi.channel, Some(149));
    assert_eq!(cfg.wifi.sta_ssid.as_deref(), Some(""));
    assert_eq!(cfg.wifi.ap_ssid.as_deref(), Some("esp-csi-ap"));
    assert_eq!(cfg.wifi.ap_password, None);
    assert_eq!(cfg.wifi.ap_dhcp, Some(true));
    assert_eq!(cfg.wifi.ap_leases, Some(4));
    assert_eq!(cfg.wifi.ap_burst, Some(false));
    assert_eq!(cfg.wifi.peer_mac.as_deref(), Some("auto"));
    assert_eq!(cfg.wifi.ht40.as_deref(), Some("none"));
    assert_eq!(cfg.collection.mode.as_deref(), Some("collector"));
    assert_eq!(cfg.collection.traffic_hz, Some(100));
    assert_eq!(cfg.collection.unsolicited, Some(false));
    assert_eq!(cfg.collection.phy_rate.as_deref(), Some("mcs0-lgi"));
    assert_eq!(cfg.collection.protocol.as_deref(), Some("lr"));
    assert_eq!(cfg.collection.io_tx_enabled, Some(true));
    assert_eq!(cfg.collection.io_rx_enabled, Some(true));
    assert_eq!(cfg.csi_config.channel_filter_enabled, Some(false));
    assert_eq!(cfg.csi_config.manual_scale, Some(false));
    assert_eq!(cfg.csi_config.val_scale_cfg, Some(2));
    assert_eq!(cfg.csi_config.acquire_csi_vht, Some(true));
    assert_eq!(cfg.csi_delivery_mode, None);
    assert_eq!(cfg.csi_logging_enabled, None);
    assert_eq!(DeviceConfig::firmware_defaults().wifi.channel, Some(1));
}

#[test]
fn unset_configuration_is_empty() {
    let cfg = DeviceConfig::default();
    assert_eq!(cfg.wifi.mode, None);
    assert_eq!(cfg.collection.traffic_hz, None);
    assert_eq!(cfg.csi_config.acquire_csi, None);
    assert_eq!(cfg.csi_config.extra.len(), 0);
}

// ─── The rest ─────────────────────────────────────────────────────────────

#[test]
fn collection_modes() {
    for mode in ["collector", "listener"] {
        let cfg = CollectionModeConfig { mode: mode.to_string() };
        assert_eq!(cfg.to_cli_command().unwrap(), format!("set-collection-mode --mode={mode}"));
    }
    let cfg = CollectionModeConfig { mode: "Collector".to_string() };
    assert_eq!(
        cfg.to_cli_command().unwrap_err(),
        "Unknown collection mode 'Collector'; expected collector or listener"
    );
}

#[test]
fn start_commands() {
    assert_eq!(StartConfig { duration: None }.to_cli_command(), "start");
    assert_eq!(StartConfig { duration: Some(0) }.to_cli_command(), "start --duration=0");
    assert_eq!(
        StartConfig { duration: Some(u64::MAX) }.to_cli_command(),
        "start --duration=18446744073709551615"
    );
}

#[test]
fn traffic_frequencies() {
    let cfg = TrafficConfig { frequency_hz: 0, unsolicited: None };
    assert_eq!(cfg.to_cli_command(), "set-traffic --frequency-hz=0");
}

#[test]
fn rate_is_sent_as_it_is() {
    let cfg = RateConfig { rate: "mcs0-lgi".to_string() };
    assert_eq!(cfg.to_cli_command(), "set-rate --rate=mcs0-lgi");
}

#[test]
fn protocol_errors_and_profile_values() {
    let cfg = ProtocolConfig { protocol: "WiFi7".to_string() };
    assert_eq!(
        cfg.to_cli_command(&StandardCsiProfile).unwrap_err(),
        "unknown protocol 'WiFi7'; expected one of: b, g, n, lr, a, ac"
    );
    assert_eq!(
        cfg.to_cli_command(&OneMode).unwrap_err(),
        "unknown protocol 'WiFi7'; expected one of: b, g, n, lr, a, ac, ax"
    );
    let cfg = ProtocolConfig { protocol: "AX".to_string() };
    assert_eq!(cfg.to_cli_command(&OneMode).unwrap(), "set-protocol --protocol=ax");
    assert!(cfg.to_cli_command(&StandardCsiProfile).is_err());
}

struct Shouting;

impl CsiProfile for Shouting {
    fn extra_protocols(&self) -> &'static [&'static str] {
        &["BE"]
    }
}

#[test]
fn protocols_are_accepted_as_the_profile_writes_them() {
    for protocol in ["BE", "be", "Be"] {
        let cfg = ProtocolConfig { protocol: protocol.to_string() };
        assert_eq!(cfg.to_cli_command(&Shouting).unwrap(), "set-protocol --protocol=be");
        assert!(cfg.to_cli_command(&StandardCsiProfile).is_err());
    }
    let cfg = ProtocolConfig { protocol: "bf".to_string() };
    assert_eq!(
        cfg.to_cli_command(&Shouting).unwrap_err(),
        "unknown protocol 'bf'; expected one of: b, g, n, lr, a, ac, BE"
    );
}

#[test]
fn io_tasks_need_a_direction() {
    assert_eq!(
        IoTasksConfig { tx: None, rx: None }.to_cli_command().unwrap_err(),
        "at least one of tx or rx must be provided"
    );
    assert_eq!(
        IoTasksConfig { tx: Some(true), rx: Some(false) }.to_cli_command().unwrap(),
        "set-io-tasks --tx=on --rx=off"
    );
    assert_eq!(
        IoTasksConfig { tx: None, rx: Some(true) }.to_cli_command().unwrap(),
        "set-io-tasks --rx=on"
    );
}

#[test]
fn csi_delivery_needs_a_field() {
    assert_eq!(
        CsiDeliveryConfig { mode: None, logging: None }.to_cli_command().unwrap_err(),
        "at least one of mode or logging must be provided"
    );
    assert_eq!(
        CsiDeliveryConfig { mode: None, logging: Some(false) }.to_cli_command().unwrap(),
        "set-csi-delivery --logging=off"
    );
    assert_eq!(
        CsiDeliveryConfig { mode: Some("async".to_string()), logging: Some(true) }
            .to_cli_command()
            .unwrap(),
        "set-csi-delivery --mode=async --logging=on"
    );
    assert_eq!(
        CsiDeliveryConfig { mode: Some("Raw".to_string()), logging: None }
            .to_cli_command()
            .unwrap_err(),
        "Unknown csi-delivery mode 'Raw'; expected off, callback, async, or raw"
    );
}

#[test]
fn output_mode_defaults_to_stream() {
    assert_eq!(OutputMode::default(), OutputMode::Stream);
    assert_eq!(OutputModeConfig { mode: "dump".to_string() }.mode, "dump");
}

#[test]
fn collection_status_mirrors_the_flags() {
    let status = CollectionStatusResponse::from_state(
        &AtomicBool::new(true),
        &AtomicBool::new(false),
        "/dev/ttyUSB0".to_string(),
    );
    assert!(status.serial_connected);
    assert!(!status.collection_running);
    assert_eq!(status.port_path, "/dev/ttyUSB0");
    let status = CollectionStatusResponse::from_flags(false, true, "p".to_string());
    assert!(!status.serial_connected);
    assert!(status.collection_running);
}
