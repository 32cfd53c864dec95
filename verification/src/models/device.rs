//! The cached view of a device: configuration, identity and status.
use crate::flags::FlagValue;
use crate::str_map::StrMap;
use crate::text;
use std::sync::atomic::{AtomicBool, Ordering};
use vstd::prelude::*;
use vstd::string::*;

verus! {

/// Cached view of the device-side configuration, structured like the firmware's
/// `show-config` output. Each field is filled when the matching request succeeds,
/// and all of them are reset to the firmware defaults by a configuration reset.
///
/// The station password is not part of it: a password is never read back.
#[derive(Debug, Clone)]
pub struct DeviceConfig {
    pub wifi: WifiSection,
    pub collection: CollectionSection,
    pub csi_config: CsiConfigSection,
    pub csi_delivery_mode: Option<String>,
    pub csi_logging_enabled: Option<bool>,
}

/// `[WiFi]` section in `show-config`.
#[derive(Debug, Clone)]
pub struct WifiSection {
    /// `node_mode`.
    pub mode: Option<String>,
    /// `channel`.
    pub channel: Option<u8>,
    /// `sta_ssid`: UTF-8, at most 32 bytes.
    pub sta_ssid: Option<String>,
    /// `ap_ssid`: softAP SSID for `wifi-ap` mode.
    pub ap_ssid: Option<String>,
    /// `ap_password`: not cached.
    pub ap_password: Option<String>,
    /// `serve_dhcp`: built-in DHCP server in `wifi-ap` mode.
    pub ap_dhcp: Option<bool>,
    /// `ap_lease_count`: DHCP lease pool size in `wifi-ap` mode.
    pub ap_leases: Option<u8>,
    /// `ap_sync_burst`: synchronized burst flood in `wifi-ap` mode.
    pub ap_burst: Option<bool>,
    /// `peer_mac`: explicit ESP-NOW source-MAC filter, or `auto`.
    pub peer_mac: Option<String>,
    /// `ht40_secondary`: forced ESP-NOW TX secondary channel.
    pub ht40: Option<String>,
}

/// `[Collection]` section in `show-config`.
#[derive(Debug, Clone)]
pub struct CollectionSection {
    /// `collection_mode`: `collector` or `listener`.
    pub mode: Option<String>,
    /// `trigger_freq` in Hz; `0` disables traffic generation.
    pub traffic_hz: Option<u64>,
    /// `flood_unsolicited`.
    pub unsolicited: Option<bool>,
    /// `phy_rate`.
    pub phy_rate: Option<String>,
    /// `protocol`: Wi-Fi PHY protocol applied at the start of each run.
    pub protocol: Option<String>,
    /// `io_tasks.tx_enabled`.
    pub io_tx_enabled: Option<bool>,
    /// `io_tasks.rx_enabled`.
    pub io_rx_enabled: Option<bool>,
}

/// `[CSI Config]` section in `show-config`. The classic (ESP32 / C3 / S3) and the
/// extended (ESP32-C5 / C6) fields are merged, so the shape is the same for every
/// chip.
#[derive(Debug, Clone)]
pub struct CsiConfigSection {
    /// `lltf_en`.
    pub lltf_enabled: Option<bool>,
    /// `htltf_en`.
    pub htltf_enabled: Option<bool>,
    /// `stbc_htltf2_en`.
    pub stbc_htltf_enabled: Option<bool>,
    /// `ltf_merge_en`.
    pub ltf_merge_enabled: Option<bool>,
    /// `channel_filter_en`: read-only.
    pub channel_filter_enabled: Option<bool>,
    /// `manu_scale`: read-only.
    pub manual_scale: Option<bool>,
    /// `shift`: read-only.
    pub shift: Option<u8>,
    /// `dump_ack_en`.
    pub dump_ack_enabled: Option<bool>,
    /// `enable` (acquire CSI overall).
    pub acquire_csi: Option<u32>,
    /// `acquire_csi_legacy`: L-LTF / 11g.
    pub acquire_csi_legacy: Option<u32>,
    /// `acquire_csi_ht20`.
    pub acquire_csi_ht20: Option<u32>,
    /// `acquire_csi_ht40`.
    pub acquire_csi_ht40: Option<u32>,
    /// `val_scale_cfg`.
    pub val_scale_cfg: Option<u32>,
    /// Force L-LTF acquisition (ESP32-C5 only).
    pub acquire_csi_force_lltf: Option<bool>,
    /// VHT-LTF for VHT20 PPDUs (ESP32-C5 only).
    pub acquire_csi_vht: Option<bool>,
    /// Acquisition flags that the core does not name.
    pub extra: StrMap<FlagValue>,
}

/// The text that an optional string holds is `s`.
pub open spec fn holds(field: Option<String>, s: Seq<char>) -> bool {
    field is Some && field->0@ == s
}

impl WifiSection {
    /// No field is filled.
    pub open spec fn is_unset(&self) -> bool {
        &&& self.mode is None
        &&& self.channel is None
        &&& self.sta_ssid is None
        &&& self.ap_ssid is None
        &&& self.ap_password is None
        &&& self.ap_dhcp is None
        &&& self.ap_leases is None
        &&& self.ap_burst is None
        &&& self.peer_mac is None
        &&& self.ht40 is None
    }

    /// The section a freshly reset device with Wi-Fi channel `channel` holds.
    pub open spec fn is_firmware_default(&self, channel: u8) -> bool {
        &&& holds(self.mode, "sniffer"@)
        &&& self.channel == Some(channel)
        &&& holds(self.sta_ssid, Seq::empty())
        &&& holds(self.ap_ssid, "esp-csi-ap"@)
        &&& self.ap_password is None
        &&& self.ap_dhcp == Some(true)
        &&& self.ap_leases == Some(4u8)
        &&& self.ap_burst == Some(false)
        &&& holds(self.peer_mac, "auto"@)
        &&& holds(self.ht40, "none"@)
    }
}

impl Default for WifiSection {
    fn default() -> (r: Self)
        ensures
            r.is_unset(),
    {
        WifiSection {
            mode: None,
            channel: None,
            sta_ssid: None,
            ap_ssid: None,
            ap_password: None,
            ap_dhcp: None,
            ap_leases: None,
            ap_burst: None,
            peer_mac: None,
            ht40: None,
        }
    }
}

impl CollectionSection {
    /// No field is filled.
    pub open spec fn is_unset(&self) -> bool {
        &&& self.mode is None
        &&& self.traffic_hz is None
        &&& self.unsolicited is None
        &&& self.phy_rate is None
        &&& self.protocol is None
        &&& self.io_tx_enabled is None
        &&& self.io_rx_enabled is None
    }

    /// The section a freshly reset device holds.
    pub open spec fn is_firmware_default(&self) -> bool {
        &&& holds(self.mode, "collector"@)
        &&& self.traffic_hz == Some(100u64)
        &&& self.unsolicited == Some(false)
        &&& holds(self.phy_rate, "mcs0-lgi"@)
        &&& holds(self.protocol, "lr"@)
        &&& self.io_tx_enabled == Some(true)
        &&& self.io_rx_enabled == Some(true)
    }
}

impl Default for CollectionSection {
    fn default() -> (r: Self)
        ensures
            r.is_unset(),
    {
        CollectionSection {
            mode: None,
            traffic_hz: None,
            unsolicited: None,
            phy_rate: None,
            protocol: None,
            io_tx_enabled: None,
            io_rx_enabled: None,
        }
    }
}

impl CsiConfigSection {
    /// The invariant: the unnamed flags are in order.
    pub open spec fn wf(&self) -> bool {
        self.extra.wf()
    }

    /// No field is filled.
    pub open spec fn is_unset(&self) -> bool {
        &&& self.lltf_enabled is None
        &&& self.htltf_enabled is None
        &&& self.stbc_htltf_enabled is None
        &&& self.ltf_merge_enabled is None
        &&& self.channel_filter_enabled is None
        &&& self.manual_scale is None
        &&& self.shift is None
        &&& self.dump_ack_enabled is None
        &&& self.acquire_csi is None
        &&& self.acquire_csi_legacy is None
        &&& self.acquire_csi_ht20 is None
        &&& self.acquire_csi_ht40 is None
        &&& self.val_scale_cfg is None
        &&& self.acquire_csi_force_lltf is None
        &&& self.acquire_csi_vht is None
        &&& self.wf()
        &&& self.extra@ == Map::<Seq<char>, FlagValue>::empty()
    }

    /// The section a freshly reset device holds: the classic and the extended
    /// defaults together.
    pub open spec fn is_firmware_default(&self) -> bool {
        &&& self.lltf_enabled == Some(true)
        &&& self.htltf_enabled == Some(true)
        &&& self.stbc_htltf_enabled == Some(true)
        &&& self.ltf_merge_enabled == Some(true)
        &&& self.channel_filter_enabled == Some(false)
        &&& self.manual_scale == Some(false)
        &&& self.shift == Some(0u8)
        &&& self.dump_ack_enabled == Some(true)
        &&& self.acquire_csi == Some(1u32)
        &&& self.acquire_csi_legacy == Some(1u32)
        &&& self.acquire_csi_ht20 == Some(1u32)
        &&& self.acquire_csi_ht40 == Some(1u32)
        &&& self.val_scale_cfg == Some(2u32)
        &&& self.acquire_csi_force_lltf == Some(true)
        &&& self.acquire_csi_vht == Some(true)
        &&& self.wf()
        &&& self.extra@ == Map::<Seq<char>, FlagValue>::empty()
    }
}

impl Default for CsiConfigSection {
    fn default() -> (r: Self)
        ensures
            r.is_unset(),
    {
        CsiConfigSection {
            lltf_enabled: None,
            htltf_enabled: None,
            stbc_htltf_enabled: None,
            ltf_merge_enabled: None,
            channel_filter_enabled: None,
            manual_scale: None,
            shift: None,
            dump_ack_enabled: None,
            acquire_csi: None,
            acquire_csi_legacy: None,
            acquire_csi_ht20: None,
            acquire_csi_ht40: None,
            val_scale_cfg: None,
            acquire_csi_force_lltf: None,
            acquire_csi_vht: None,
            extra: StrMap::new(),
        }
    }
}

impl Default for DeviceConfig {
    fn default() -> (r: Self)
        ensures
            r.wifi.is_unset(),
            r.collection.is_unset(),
            r.csi_config.is_unset(),
            r.csi_delivery_mode is None,
            r.csi_logging_enabled is None,
    {
        DeviceConfig {
            wifi: WifiSection::default(),
            collection: CollectionSection::default(),
            csi_config: CsiConfigSection::default(),
            csi_delivery_mode: None,
            csi_logging_enabled: None,
        }
    }
}

impl DeviceConfig {
    /// The configuration a freshly reset device with Wi-Fi channel `channel` holds.
    pub open spec fn is_firmware_default(&self, channel: u8) -> bool {
        &&& self.wifi.is_firmware_default(channel)
        &&& self.collection.is_firmware_default()
        &&& self.csi_config.is_firmware_default()
        &&& self.csi_delivery_mode is None
        &&& self.csi_logging_enabled is None
    }

    /// What the device holds after a configuration reset, before any `set-*`
    /// command is sent again.
    pub fn firmware_defaults() -> (r: Self)
        ensures
            r.is_firmware_default(1),
    {
        Self::firmware_defaults_for_chip(None)
    }

    /// Like [`DeviceConfig::firmware_defaults`], with the Wi-Fi channel of the chip.
    pub fn firmware_defaults_for_chip(chip: Option<&str>) -> (r: Self)
        ensures
            r.is_firmware_default(default_channel(chip_name(chip))),
    {
        DeviceConfig {
            wifi: WifiSection {
                mode: Some("sniffer".to_string()),
                channel: Some(default_wifi_channel(chip)),
                sta_ssid: Some(String::new()),
                ap_ssid: Some("esp-csi-ap".to_string()),
                ap_password: None,
                ap_dhcp: Some(true),
                ap_leases: Some(4),
                ap_burst: Some(false),
                peer_mac: Some("auto".to_string()),
                ht40: Some("none".to_string()),
            },
            collection: CollectionSection {
                mode: Some("collector".to_string()),
                traffic_hz: Some(100),
                unsolicited: Some(false),
                phy_rate: Some("mcs0-lgi".to_string()),
                protocol: Some("lr".to_string()),
                io_tx_enabled: Some(true),
                io_rx_enabled: Some(true),
            },
            csi_config: CsiConfigSection {
                lltf_enabled: Some(true),
                htltf_enabled: Some(true),
                stbc_htltf_enabled: Some(true),
                ltf_merge_enabled: Some(true),
                channel_filter_enabled: Some(false),
                manual_scale: Some(false),
                shift: Some(0),
                dump_ack_enabled: Some(true),
                acquire_csi: Some(1),
                acquire_csi_legacy: Some(1),
                acquire_csi_ht20: Some(1),
                acquire_csi_ht40: Some(1),
                val_scale_cfg: Some(2),
                acquire_csi_force_lltf: Some(true),
                acquire_csi_vht: Some(true),
                extra: StrMap::new(),
            },
            csi_delivery_mode: None,
            csi_logging_enabled: None,
        }
    }
}

/// The text of an optional chip name.
pub open spec fn chip_name(chip: Option<&str>) -> Option<Seq<char>> {
    match chip {
        Some(c) => Some(c@),
        None => None,
    }
}

/// The Wi-Fi channel of a chip, whose name may be in any case and have white
/// space around it.
pub open spec fn default_channel(chip: Option<Seq<char>>) -> u8 {
    match chip {
        Some(c) => {
            let name = text::lower(text::trim(c));
            if name == "esp32c5"@ {
                149
            } else if name == "esp32c6"@ {
                6
            } else {
                1
            }
        },
        None => 1,
    }
}

/// Default Wi-Fi channel for a chip.
pub fn default_wifi_channel(chip: Option<&str>) -> (r: u8)
    ensures
        r == default_channel(chip_name(chip)),
{
    match chip {
        Some(c) => {
            let chars = text::trimmed(&text::chars_of(c));
            let trimmed = text::string_of(&chars, 0, chars.len());
            assert(trimmed@ =~= text::trim(c@));
            let name = text::to_lower(trimmed.as_str());
            if text::str_eq(name.as_str(), "esp32c5") {
                149
            } else if text::str_eq(name.as_str(), "esp32c6") {
                6
            } else {
                1
            }
        },
        None => 1,
    }
}

/// Outcome of a request, as it is reported to the client.
#[derive(Debug)]
pub struct ApiResponse {
    pub success: bool,
    pub message: String,
}

/// Parsed result of the firmware's `info` command.
///
/// The magic line `ESP-CSI-CLI/<version>` is what proves that the firmware is the
/// one this crate talks to.
#[derive(Debug)]
pub struct DeviceInfo {
    /// The version from the `ESP-CSI-CLI/<version>` magic line.
    pub banner_version: String,
    /// `name=` line.
    pub name: Option<String>,
    /// `version=` line.
    pub version: Option<String>,
    /// `chip=` line.
    pub chip: Option<String>,
    /// `mac=` line: the factory base MAC.
    pub mac: Option<String>,
    /// `protocol=` line: the wire-format version.
    pub protocol: Option<u32>,
    /// `features=` list.
    pub features: Vec<String>,
}

/// The mathematical form of a [`DeviceInfo`].
#[verifier::ext_equal]
pub struct DeviceInfoView {
    pub banner_version: Seq<char>,
    pub name: Option<Seq<char>>,
    pub version: Option<Seq<char>>,
    pub chip: Option<Seq<char>>,
    pub mac: Option<Seq<char>>,
    pub protocol: Option<u32>,
    pub features: Seq<Seq<char>>,
}

impl View for DeviceInfo {
    type V = DeviceInfoView;

    open spec fn view(&self) -> DeviceInfoView {
        DeviceInfoView {
            banner_version: self.banner_version@,
            name: text::opt(self.name),
            version: text::opt(self.version),
            chip: text::opt(self.chip),
            mac: text::opt(self.mac),
            protocol: self.protocol,
            features: text::strings(self.features@),
        }
    }
}

impl Clone for DeviceInfo {
    fn clone(&self) -> (r: Self)
        ensures
            r@ == self@,
    {
        let mut features: Vec<String> = Vec::new();
        let mut i: usize = 0;
        while i < self.features.len()
            invariant
                i <= self.features@.len(),
                features@ == self.features@.take(i as int),
            decreases self.features@.len() - i,
        {
            assert(self.features@.take(i + 1) =~= self.features@.take(i as int).push(
                self.features@[i as int],
            ));
            features.push(self.features[i].clone());
            i += 1;
        }
        assert(features@ =~= self.features@);
        DeviceInfo {
            banner_version: self.banner_version.clone(),
            name: self.name.clone(),
            version: self.version.clone(),
            chip: self.chip.clone(),
            mac: self.mac.clone(),
            protocol: self.protocol,
            features,
        }
    }
}

/// Runtime status of one device.
#[derive(Debug)]
pub struct CollectionStatusResponse {
    pub serial_connected: bool,
    pub collection_running: bool,
    pub port_path: String,
}

impl CollectionStatusResponse {
    /// The status that the two shared flags and the port path make up. What the
    /// flags hold at the moment of reading is up to the tasks that share them.
    pub fn from_state(
        serial_connected: &AtomicBool,
        collection_running: &AtomicBool,
        port_path: String,
    ) -> (r: Self)
        ensures
            exists|connected: bool, running: bool|
                call_ensures(AtomicBool::load, (serial_connected, Ordering::SeqCst), connected)
                    && call_ensures(AtomicBool::load, (collection_running, Ordering::SeqCst), running)
                    && #[trigger] r.reports(connected, running, port_path@),
    {
        let connected = serial_connected.load(Ordering::SeqCst);
        let running = collection_running.load(Ordering::SeqCst);
        let r = Self::from_flags(connected, running, port_path);
        assert(r.reports(connected, running, port_path@));
        r
    }

    /// The response says exactly this.
    pub open spec fn reports(&self, connected: bool, running: bool, port_path: Seq<char>) -> bool {
        &&& self.serial_connected == connected
        &&& self.collection_running == running
        &&& self.port_path@ == port_path
    }

    /// The status made of the values of the two flags.
    pub fn from_flags(connected: bool, running: bool, port_path: String) -> (r: Self)
        ensures
            r.reports(connected, running, port_path@),
    {
        CollectionStatusResponse {
            serial_connected: connected,
            collection_running: running,
            port_path,
        }
    }
}

// ─── Laws ─────────────────────────────────────────────────────────────────

/// The channel of a chip does not depend on the case in which its name is written, nor
/// on white space around it.
pub proof fn law_chip_name_is_normalised(chip: Seq<char>, c: char)
    ensures
        default_channel(Some(text::lower(chip))) == default_channel(Some(chip)),
        text::is_blank(c) ==> default_channel(Some(seq![c] + chip)) == default_channel(Some(chip)),
        text::is_blank(c) ==> default_channel(Some(chip.push(c))) == default_channel(Some(chip)),
{
    text::lemma_trim_lower(chip);
    text::lemma_lower_idempotent(text::trim(chip));
    if text::is_blank(c) {
        text::lemma_trim_blank(chip, c);
    }
}

/// No password is ever part of the cached defaults.
pub proof fn law_defaults_hold_no_password(cfg: DeviceConfig, channel: u8)
    requires
        cfg.is_firmware_default(channel),
    ensures
        cfg.wifi.ap_password is None,
{
}

/// The channel of a chip: 149 for the ESP32-C5, 6 for the ESP32-C6, 1 for every other and
/// where the chip is not known.
pub proof fn law_channel_of_a_chip(chip: Option<&str>, r: u8)
    requires
        call_ensures(default_wifi_channel, (chip,), r),
    ensures
        chip is None ==> r == 1,
        chip is Some && text::lower(text::trim(chip->0@)) == "esp32c5"@ ==> r == 149,
        chip is Some && text::lower(text::trim(chip->0@)) == "esp32c6"@ ==> r == 6,
        chip is Some && text::lower(text::trim(chip->0@)) != "esp32c5"@ && text::lower(
            text::trim(chip->0@),
        ) != "esp32c6"@ ==> r == 1,
{
    reveal_strlit("esp32c5");
    reveal_strlit("esp32c6");
    assert("esp32c5"@[6] != "esp32c6"@[6]);
}

/// What a device holds after a reset, value by value: of all chips alike but for the channel.
pub proof fn law_firmware_defaults(
    chip: Option<&str>,
    channel: u8,
    r: DeviceConfig,
    unnamed: DeviceConfig,
)
    requires
        call_ensures(default_wifi_channel, (chip,), channel),
        call_ensures(DeviceConfig::firmware_defaults_for_chip, (chip,), r),
        call_ensures(DeviceConfig::firmware_defaults, (), unnamed),
    ensures
        r.wifi.channel == Some(channel),
        unnamed.wifi.channel == Some(1u8),
        resets_to(r),
        resets_to(unnamed),
{
}

/// The values after a reset, but for the channel.
pub open spec fn resets_to(r: DeviceConfig) -> bool {
    &&& r.wifi.mode is Some && r.wifi.mode->0@ == "sniffer"@
    &&& r.wifi.sta_ssid is Some && r.wifi.sta_ssid->0@.len() == 0
    &&& r.wifi.ap_ssid is Some && r.wifi.ap_ssid->0@ == "esp-csi-ap"@
    &&& r.wifi.ap_password is None
    &&& r.wifi.ap_dhcp == Some(true)
    &&& r.wifi.ap_leases == Some(4u8)
    &&& r.wifi.ap_burst == Some(false)
    &&& r.wifi.peer_mac is Some && r.wifi.peer_mac->0@ == "auto"@
    &&& r.wifi.ht40 is Some && r.wifi.ht40->0@ == "none"@
    &&& r.collection.mode is Some && r.collection.mode->0@ == "collector"@
    &&& r.collection.traffic_hz == Some(100u64)
    &&& r.collection.unsolicited == Some(false)
    &&& r.collection.phy_rate is Some && r.collection.phy_rate->0@ == "mcs0-lgi"@
    &&& r.collection.protocol is Some && r.collection.protocol->0@ == "lr"@
    &&& r.collection.io_tx_enabled == Some(true)
    &&& r.collection.io_rx_enabled == Some(true)
    &&& acquires_everything(r.csi_config)
    &&& r.csi_delivery_mode is None
    &&& r.csi_logging_enabled is None
}

/// Every acquisition flag of both families is on, with the standard scaling, and no other is
/// set.
pub open spec fn acquires_everything(c: CsiConfigSection) -> bool {
    &&& c.lltf_enabled == Some(true) && c.htltf_enabled == Some(true)
    &&& c.stbc_htltf_enabled == Some(true) && c.ltf_merge_enabled == Some(true)
    &&& c.channel_filter_enabled == Some(false) && c.manual_scale == Some(false)
    &&& c.shift == Some(0u8) && c.dump_ack_enabled == Some(true)
    &&& c.acquire_csi == Some(1u32) && c.acquire_csi_legacy == Some(1u32)
    &&& c.acquire_csi_ht20 == Some(1u32) && c.acquire_csi_ht40 == Some(1u32)
    &&& c.val_scale_cfg == Some(2u32)
    &&& c.acquire_csi_force_lltf == Some(true) && c.acquire_csi_vht == Some(true)
    &&& forall|key: Seq<char>| !c.extra@.dom().contains(key)
}

/// An unset configuration says nothing about any field.
pub proof fn law_unset_is_empty(
    wifi: WifiSection,
    collection: CollectionSection,
    csi: CsiConfigSection,
    key: Seq<char>,
)
    requires
        call_ensures(WifiSection::default, (), wifi),
        call_ensures(CollectionSection::default, (), collection),
        call_ensures(CsiConfigSection::default, (), csi),
    ensures
        wifi.mode is None && wifi.channel is None && wifi.sta_ssid is None && wifi.ap_ssid is None
            && wifi.ap_password is None && wifi.ap_dhcp is None && wifi.ap_leases is None
            && wifi.ap_burst is None && wifi.peer_mac is None && wifi.ht40 is None,
        collection.mode is None && collection.traffic_hz is None && collection.unsolicited is None
            && collection.phy_rate is None && collection.protocol is None
            && collection.io_tx_enabled is None && collection.io_rx_enabled is None,
        csi.lltf_enabled is None && csi.htltf_enabled is None && csi.stbc_htltf_enabled is None
            && csi.ltf_merge_enabled is None && csi.channel_filter_enabled is None
            && csi.manual_scale is None && csi.shift is None && csi.dump_ack_enabled is None,
        csi.acquire_csi is None && csi.acquire_csi_legacy is None && csi.acquire_csi_ht20 is None
            && csi.acquire_csi_ht40 is None && csi.val_scale_cfg is None
            && csi.acquire_csi_force_lltf is None && csi.acquire_csi_vht is None,
        !csi.extra@.dom().contains(key),
{
}

/// A status response repeats the two flags and the path, each in its own field.
pub proof fn law_status_is_reported(
    connected: bool,
    running: bool,
    port_path: String,
    r: CollectionStatusResponse,
)
    requires
        call_ensures(CollectionStatusResponse::from_flags, (connected, running, port_path), r),
    ensures
        r.serial_connected == connected,
        r.collection_running == running,
        r.port_path@ == port_path@,
{
}

/// The response of a device is read off its own flags, each into its own field.
pub proof fn law_status_is_read_off_the_flags(
    connected: &AtomicBool,
    running: &AtomicBool,
    port_path: String,
    r: CollectionStatusResponse,
)
    requires
        call_ensures(CollectionStatusResponse::from_state, (connected, running, port_path), r),
    ensures
        call_ensures(AtomicBool::load, (connected, Ordering::SeqCst), r.serial_connected),
        call_ensures(AtomicBool::load, (running, Ordering::SeqCst), r.collection_running),
        r.port_path@ == port_path@,
{
}

} // verus!
