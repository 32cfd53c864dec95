//! `set-wifi`: operational mode, credentials, channel and ESP-NOW peer.
use crate::cli;
use crate::flags;
use crate::flags::{push_extras, push_flag, push_on_off, FlagValue};
use crate::models::device;
use crate::models::device::default_wifi_channel;
use crate::profile::CsiProfile;
use crate::str_map::StrMap;
use crate::text;
use vstd::prelude::*;
use vstd::string::*;

verus! {

// ─── Quoting ──────────────────────────────────────────────────────────────

/// A free-form argument in quotes: single quotes where they do not occur in it,
/// else double quotes where those do not. An argument with a line break, or with
/// both quotes, cannot be sent.
pub open spec fn quoted(s: Seq<char>) -> Result<Seq<char>, Seq<char>> {
    if s.contains('\n') || s.contains('\r') {
        Err("value cannot contain newline characters"@)
    } else if !s.contains('\'') {
        Ok(seq!['\''] + s + seq!['\''])
    } else if !s.contains('"') {
        Ok(seq!['"'] + s + seq!['"'])
    } else {
        Err("value cannot contain both single and double quote characters"@)
    }
}

/// Quote a free-form string argument for the firmware's CLI.
///
/// The CLI accepts both `'…'` and `"…"`; the opening quote is matched by the same
/// quote and the other one is taken literally.
pub fn quote_cli_arg(s: &str) -> (r: Result<String, String>)
    ensures
        text::outcome(r) == quoted(s@),
{
    if text::contains_char(s, '\n') || text::contains_char(s, '\r') {
        return Err("value cannot contain newline characters".to_string());
    }
    let quote = if !text::contains_char(s, '\'') {
        '\''
    } else if !text::contains_char(s, '"') {
        '"'
    } else {
        return Err("value cannot contain both single and double quote characters".to_string());
    };
    let mut out = String::new();
    out.push(quote);
    out.append(s);
    out.push(quote);
    assert(out@ =~= seq![quote] + s@ + seq![quote]);
    Ok(out)
}

// ─── Peer MAC ─────────────────────────────────────────────────────────────

/// A hexadecimal digit.
pub open spec fn is_hex(c: char) -> bool {
    ||| '0' <= c <= '9'
    ||| 'a' <= c <= 'f'
    ||| 'A' <= c <= 'F'
}

/// Two hexadecimal digits.
pub open spec fn is_octet(s: Seq<char>) -> bool {
    s.len() == 2 && is_hex(s[0]) && is_hex(s[1])
}

/// The separator of a MAC address: `:` where there is one, else `-`.
pub open spec fn mac_separator(mac: Seq<char>) -> char {
    if mac.contains(':') {
        ':'
    } else {
        '-'
    }
}

/// Six octets between separators.
pub open spec fn is_mac(mac: Seq<char>) -> bool {
    let octets = text::split(mac, mac_separator(mac));
    octets.len() == 6 && forall|i: int| 0 <= i < 6 ==> is_octet(#[trigger] octets[i])
}

/// Why a peer MAC is rejected, if it is. The empty text is accepted: it clears
/// the filter.
pub open spec fn peer_mac_error(mac: Seq<char>) -> Option<Seq<char>> {
    if mac.len() == 0 {
        None
    } else if !mac.contains(':') && !mac.contains('-') {
        Some("peer_mac must use ':' or '-' separators (aa:bb:cc:dd:ee:ff)"@)
    } else if !is_mac(mac) {
        Some("Invalid peer_mac '"@ + mac + "' (use aa:bb:cc:dd:ee:ff)"@)
    } else {
        None
    }
}

fn hex(c: char) -> (r: bool)
    ensures
        r == is_hex(c),
{
    ('0' <= c && c <= '9') || ('a' <= c && c <= 'f') || ('A' <= c && c <= 'F')
}

/// Validate an ESP-NOW peer MAC: six hex octets separated by `:` or `-`, in any
/// case. An empty string is valid and means "back to automatic pairing".
pub fn validate_peer_mac(mac: &str) -> (r: Result<(), String>)
    ensures
        match r {
            Ok(()) => peer_mac_error(mac@) is None,
            Err(e) => peer_mac_error(mac@) == Some(e@),
        },
{
    if mac.is_empty() {
        return Ok(());
    }
    let sep = if text::contains_char(mac, ':') {
        ':'
    } else if text::contains_char(mac, '-') {
        '-'
    } else {
        return Err("peer_mac must use ':' or '-' separators (aa:bb:cc:dd:ee:ff)".to_string());
    };
    let octets = text::split_chars(&text::chars_of(mac), sep);
    let ghost pieces = text::split(mac@, sep);
    let mut valid = octets.len() == 6;
    let mut i: usize = 0;
    while i < octets.len()
        invariant
            i <= octets@.len(),
            pieces == text::texts(octets@),
            valid == (pieces.len() == 6 && forall|j: int|
                0 <= j < i ==> is_octet(#[trigger] pieces[j])),
        decreases octets@.len() - i,
    {
        let octet = &octets[i];
        assert(pieces[i as int] == octet@);
        if octet.len() != 2 || !hex(octet[0]) || !hex(octet[1]) {
            valid = false;
        }
        i += 1;
    }
    if !valid {
        let mut message = "Invalid peer_mac '".to_string();
        message.append(mac);
        message.append("' (use aa:bb:cc:dd:ee:ff)");
        return Err(message);
    }
    Ok(())
}

// ─── The request body ─────────────────────────────────────────────────────

/// Body of a Wi-Fi configuration request.
#[derive(Debug)]
pub struct WifiConfig {
    /// One of the modes of [`core_modes`], or one that the profile adds.
    pub mode: String,
    pub sta_ssid: Option<String>,
    pub sta_password: Option<String>,
    /// SoftAP SSID for `wifi-ap` mode.
    pub ap_ssid: Option<String>,
    /// SoftAP password for `wifi-ap` mode; empty means an open network.
    pub ap_password: Option<String>,
    /// Enable the built-in DHCP server in `wifi-ap` mode.
    pub ap_dhcp: Option<bool>,
    /// DHCP lease pool size in `wifi-ap` mode.
    pub ap_leases: Option<u8>,
    /// Synchronized burst flood in `wifi-ap` mode.
    pub ap_burst: Option<bool>,
    pub channel: Option<u8>,
    /// ESP-NOW peer source MAC. An empty string clears the filter.
    pub peer_mac: Option<String>,
    /// Forced ESP-NOW TX HT40 secondary channel.
    pub ht40: Option<String>,
    /// Parameters that the core does not name, re-emitted as `--{key}={value}`.
    pub extra: StrMap<FlagValue>,
}

/// The modes that the core names.
pub open spec fn core_modes() -> Seq<Seq<char>> {
    seq![
        "station"@,
        "sniffer"@,
        "wifi-ap"@,
        "esp-now-central"@,
        "esp-now-peripheral"@,
        "esp-now-fast-collector"@,
        "esp-now-fast-source"@,
    ]
}

/// The modes that the core names.
pub fn wifi_modes() -> (r: Vec<&'static str>)
    ensures
        text::names(r@) == core_modes(),
{
    let mut r: Vec<&'static str> = Vec::new();
    r.push("station");
    r.push("sniffer");
    r.push("wifi-ap");
    r.push("esp-now-central");
    r.push("esp-now-peripheral");
    r.push("esp-now-fast-collector");
    r.push("esp-now-fast-source");
    assert(text::names(r@) =~= core_modes());
    r
}

/// The length of a text in bytes.
pub open spec fn byte_len(s: Seq<char>) -> nat {
    vstd::utf8::encode_utf8(s).len()
}

/// Why a credential is rejected, if it is: it may be 32 bytes long, and must be
/// quotable.
pub open spec fn credential_error(field: Seq<char>, value: Option<String>) -> Option<Seq<char>> {
    match value {
        None => None,
        Some(v) => if byte_len(v@) > 32 {
            Some(
                field + " is "@ + text::decimal(byte_len(v@))
                    + " bytes; firmware limit is 32 bytes"@,
            )
        } else {
            match quoted(v@) {
                Ok(_) => None,
                Err(e) => Some(e),
            }
        },
    }
}

/// The flag of a credential; nothing where it is not given.
pub open spec fn credential_flag(name: Seq<char>, value: Option<String>) -> Seq<char> {
    match value {
        None => Seq::empty(),
        Some(v) => match quoted(v@) {
            Ok(q) => flags::flag(name, q),
            Err(_) => Seq::empty(),
        },
    }
}

/// The values of the HT40 secondary channel.
pub open spec fn is_ht40(s: Seq<char>) -> bool {
    s == "above"@ || s == "below"@ || s == "none"@ || s == "off"@
}

impl WifiConfig {
    /// The channel that the command sets, if it sets one: the one asked for, else
    /// the chip's own in every mode but `station`.
    pub open spec fn sent_channel(&self, chip: Option<Seq<char>>) -> Option<u8> {
        match self.channel {
            Some(c) => Some(c),
            None => if self.mode@ != "station"@ {
                Some(device::default_channel(chip))
            } else {
                None
            },
        }
    }

    /// Why the request is rejected, if it is: the first field, in this order, that
    /// the firmware would not take.
    pub open spec fn rejection(&self, extra_modes: Seq<Seq<char>>) -> Option<Seq<char>> {
        if !core_modes().contains(self.mode@) && !extra_modes.contains(self.mode@) {
            Some(
                "Unknown wifi mode '"@ + self.mode@ + "'; expected one of: "@ + text::join(
                    core_modes() + extra_modes,
                    ", "@,
                ),
            )
        } else if credential_error("sta_ssid"@, self.sta_ssid) is Some {
            credential_error("sta_ssid"@, self.sta_ssid)
        } else if credential_error("sta_password"@, self.sta_password) is Some {
            credential_error("sta_password"@, self.sta_password)
        } else if credential_error("ap_ssid"@, self.ap_ssid) is Some {
            credential_error("ap_ssid"@, self.ap_ssid)
        } else if credential_error("ap_password"@, self.ap_password) is Some {
            credential_error("ap_password"@, self.ap_password)
        } else if self.ap_leases is Some && !(1 <= self.ap_leases->0 <= 8) {
            Some(
                "ap_leases is "@ + text::decimal(self.ap_leases->0 as nat)
                    + "; firmware accepts 1-8"@,
            )
        } else if self.peer_mac is Some && peer_mac_error(self.peer_mac->0@) is Some {
            peer_mac_error(self.peer_mac->0@)
        } else if self.ht40 is Some && !is_ht40(self.ht40->0@) {
            Some(
                "Invalid ht40 '"@ + self.ht40->0@ + "' (use above, below, none, or off)"@,
            )
        } else {
            None
        }
    }

    /// The command line of an accepted request.
    pub open spec fn line(&self, chip: Option<Seq<char>>) -> Seq<char> {
        "set-wifi --mode="@ + self.mode@ + credential_flag("sta-ssid"@, self.sta_ssid)
            + credential_flag("sta-password"@, self.sta_password) + credential_flag(
            "ap-ssid"@,
            self.ap_ssid,
        ) + credential_flag("ap-password"@, self.ap_password) + flags::switch_flag(
            "ap-dhcp"@,
            self.ap_dhcp,
        ) + number_flag("ap-leases"@, self.ap_leases) + flags::switch_flag(
            "ap-burst"@,
            self.ap_burst,
        ) + number_flag("set-channel"@, self.sent_channel(chip)) + text_flag(
            "peer-mac"@,
            self.peer_mac,
        ) + text_flag("ht40"@, self.ht40) + flags::flags(self.extra.listing())
    }

    /// What the request comes to: the reason why it is rejected, or its command
    /// line.
    pub open spec fn command(&self, chip: Option<Seq<char>>, extra_modes: Seq<Seq<char>>) -> Result<
        Seq<char>,
        Seq<char>,
    > {
        match self.rejection(extra_modes) {
            Some(e) => Err(e),
            None => Ok(self.line(chip)),
        }
    }

    /// Validate the values and emit the matching `set-wifi …` line.
    ///
    /// `chip` gives the channel where the request names none; `profile` adds modes
    /// that the core does not name.
    pub fn to_cli_command<P: CsiProfile + ?Sized>(&self, chip: Option<&str>, profile: &P) -> (r:
        Result<String, String>)
        ensures
            exists|modes: &'static [&'static str]| #[trigger]
                call_ensures(P::extra_wifi_modes, (profile,), modes) && text::outcome(r)
                    == self.command(device::chip_name(chip), text::names(modes@)),
    {
        let modes = profile.extra_wifi_modes();
        self.cli_command_with_modes(chip, modes)
    }

    /// The same, with the extra modes at hand.
    pub fn cli_command_with_modes(
        &self,
        chip: Option<&str>,
        extra_modes: &'static [&'static str],
    ) -> (r: Result<String, String>)
        ensures
            text::outcome(r) == self.command(device::chip_name(chip), text::names(extra_modes@)),
    {
        let modes = wifi_modes();
        if !text::list_contains(modes.as_slice(), self.mode.as_str()) && !text::list_contains(
            extra_modes,
            self.mode.as_str(),
        ) {
            let mut message = "Unknown wifi mode '".to_string();
            message.append(self.mode.as_str());
            message.append("'; expected one of: ");
            push_all_names(&mut message, modes, extra_modes);
            return Err(message);
        }
        let mut cmd = "set-wifi --mode=".to_string();
        cmd.append(self.mode.as_str());
        if let Err(e) = push_credential(&mut cmd, "sta_ssid", "sta-ssid", &self.sta_ssid) {
            return Err(e);
        }
        if let Err(e) = push_credential(
            &mut cmd,
            "sta_password",
            "sta-password",
            &self.sta_password,
        ) {
            return Err(e);
        }
        if let Err(e) = push_credential(&mut cmd, "ap_ssid", "ap-ssid", &self.ap_ssid) {
            return Err(e);
        }
        if let Err(e) = push_credential(&mut cmd, "ap_password", "ap-password", &self.ap_password) {
            return Err(e);
        }
        push_on_off(&mut cmd, "ap-dhcp", self.ap_dhcp);
        if let Some(leases) = self.ap_leases {
            if leases < 1 || leases > 8 {
                let mut message = "ap_leases is ".to_string();
                text::push_decimal(&mut message, leases as u64);
                message.append("; firmware accepts 1-8");
                return Err(message);
            }
        }
        push_number(&mut cmd, "ap-leases", self.ap_leases);
        push_on_off(&mut cmd, "ap-burst", self.ap_burst);
        // In station mode the channel is only a hint for the band to search; without
        // one the firmware takes the channel of the access point.
        let channel = match self.channel {
            Some(c) => Some(c),
            None => if !text::str_eq(self.mode.as_str(), "station") {
                Some(default_wifi_channel(chip))
            } else {
                None
            },
        };
        push_number(&mut cmd, "set-channel", channel);
        if let Some(mac) = &self.peer_mac {
            if let Err(e) = validate_peer_mac(mac.as_str()) {
                return Err(e);
            }
        }
        // An empty MAC is sent as it is: it clears the filter.
        push_text(&mut cmd, "peer-mac", &self.peer_mac);
        if let Some(ht40) = &self.ht40 {
            let value = ht40.as_str();
            if !text::str_eq(value, "above") && !text::str_eq(value, "below") && !text::str_eq(
                value,
                "none",
            ) && !text::str_eq(value, "off") {
                let mut message = "Invalid ht40 '".to_string();
                message.append(value);
                message.append("' (use above, below, none, or off)");
                return Err(message);
            }
        }
        push_text(&mut cmd, "ht40", &self.ht40);
        push_extras(&mut cmd, &self.extra);
        Ok(cmd)
    }
}

// ─── Pieces of the line ───────────────────────────────────────────────────

/// The flag of an optional number.
pub open spec fn number_flag(name: Seq<char>, value: Option<u8>) -> Seq<char> {
    match value {
        Some(v) => flags::flag(name, text::decimal(v as nat)),
        None => Seq::empty(),
    }
}

/// The flag of an optional text, unquoted.
pub open spec fn text_flag(name: Seq<char>, value: Option<String>) -> Seq<char> {
    match value {
        Some(v) => flags::flag(name, v@),
        None => Seq::empty(),
    }
}

fn push_number(cmd: &mut String, name: &str, value: Option<u8>)
    ensures
        final(cmd)@ == old(cmd)@ + number_flag(name@, value),
{
    match value {
        Some(v) => {
            let mut digits = String::new();
            text::push_decimal(&mut digits, v as u64);
            assert(digits@ =~= text::decimal(v as nat));
            push_flag(cmd, name, digits.as_str());
        },
        None => {
            assert(cmd@ =~= old(cmd)@ + number_flag(name@, value));
        },
    }
}

fn push_text(cmd: &mut String, name: &str, value: &Option<String>)
    ensures
        final(cmd)@ == old(cmd)@ + text_flag(name@, *value),
{
    match value {
        Some(v) => {
            push_flag(cmd, name, v.as_str());
        },
        None => {
            assert(cmd@ =~= old(cmd)@ + text_flag(name@, *value));
        },
    }
}

/// Append a quoted credential, or say why it is rejected.
fn push_credential(cmd: &mut String, field: &str, name: &str, value: &Option<String>) -> (r: Result<
    (),
    String,
>)
    ensures
        match r {
            Ok(()) => credential_error(field@, *value) is None && final(cmd)@ == old(cmd)@
                + credential_flag(name@, *value),
            Err(e) => credential_error(field@, *value) == Some(e@),
        },
{
    match value {
        Some(v) => {
            let len = v.as_str().as_bytes().len();
            if len > 32 {
                let mut message = String::new();
                message.append(field);
                message.append(" is ");
                text::push_decimal(&mut message, len as u64);
                message.append(" bytes; firmware limit is 32 bytes");
                assert(message@ =~= field@ + " is "@ + text::decimal(byte_len(v@))
                    + " bytes; firmware limit is 32 bytes"@);
                return Err(message);
            }
            match quote_cli_arg(v.as_str()) {
                Ok(q) => {
                    push_flag(cmd, name, q.as_str());
                },
                Err(e) => {
                    return Err(e);
                },
            }
        },
        None => {
            assert(cmd@ =~= old(cmd)@ + credential_flag(name@, *value));
        },
    }
    Ok(())
}

/// Append the names of both lists, separated by commas.
pub fn push_all_names(
    out: &mut String,
    names: Vec<&'static str>,
    extra: &'static [&'static str],
)
    ensures
        final(out)@ == old(out)@ + text::join(text::names(names@) + text::names(extra@), ", "@),
{
    let mut all = names;
    let ghost start = text::names(names@);
    let mut i: usize = 0;
    assert(text::names(all@) =~= start + text::names(extra@).take(0));
    while i < extra.len()
        invariant
            i <= extra@.len(),
            text::names(all@) == start + text::names(extra@).take(i as int),
        decreases extra@.len() - i,
    {
        let ghost before = text::names(all@);
        let ghost added = text::names(extra@);
        all.push(extra[i]);
        assert(text::names(all@) =~= before.push(added[i as int]));
        assert(added.take(i + 1) =~= added.take(i as int).push(added[i as int]));
        assert(text::names(all@) =~= start + text::names(extra@).take(i + 1));
        i += 1;
    }
    assert(text::names(extra@).take(extra@.len() as int) =~= text::names(extra@));
    text::push_joined(out, &all, ", ");
}

// ─── Laws ─────────────────────────────────────────────────────────────────

/// A quoted argument is read back: the quotes are the same at both ends, do not occur
/// in between, and enclose the argument as it was. Exactly the arguments with a line
/// break or with both quotes are refused.
pub proof fn law_quoting_is_reversible(s: Seq<char>)
    ensures
        match quoted(s) {
            Ok(q) => {
                &&& q.len() == s.len() + 2
                &&& q[0] == q[q.len() - 1]
                &&& (q[0] == '\'' || q[0] == '"')
                &&& !s.contains(q[0])
                &&& q.subrange(1, q.len() - 1) == s
            },
            Err(_) => s.contains('\n') || s.contains('\r') || (s.contains('\'') && s.contains(
                '"',
            )),
        },
        quoted(s) is Ok ==> text::one_line(s) && !(s.contains('\'') && s.contains('"')),
{
    reveal(text::one_line);
    if let Ok(q) = quoted(s) {
        assert(q.subrange(1, q.len() - 1) =~= s);
    }
}

proof fn lemma_one_line_mac(mac: Seq<char>)
    requires
        peer_mac_error(mac) is None,
    ensures
        text::one_line(mac),
{
    reveal(text::one_line);
    if mac.len() > 0 {
        let octets = text::split(mac, mac_separator(mac));
        assert forall|i: int| 0 <= i < octets.len() implies text::one_line(#[trigger] octets[i]) by {
            assert(is_octet(octets[i]));
            let octet = octets[i];
            if octet.contains('\n') {
                let k = choose|k: int| 0 <= k < octet.len() && octet[k] == '\n';
                assert(is_hex(octet[k]));
            }
            if octet.contains('\r') {
                let k = choose|k: int| 0 <= k < octet.len() && octet[k] == '\r';
                assert(is_hex(octet[k]));
            }
        }
        text::lemma_one_line_pieces(mac, mac_separator(mac));
    }
}

proof fn lemma_one_line_credential(name: Seq<char>, field: Seq<char>, value: Option<String>)
    requires
        text::one_line(name),
        credential_error(field, value) is None,
    ensures
        text::one_line(credential_flag(name, value)),
{
    reveal(text::one_line);
    if let Some(v) = value {
        if let Ok(q) = quoted(v@) {
            let quote = seq![q[0]];
            law_quoting_is_reversible(v@);
            text::lemma_one_line_add(quote, v@);
            text::lemma_one_line_add(quote + v@, quote);
            assert(q =~= quote + v@ + quote);
            flags::lemma_one_line_flag(name, q);
        }
    }
}

proof fn lemma_one_line_number(name: Seq<char>, value: Option<u8>)
    requires
        text::one_line(name),
    ensures
        text::one_line(number_flag(name, value)),
{
    text::lemma_one_line_empty();
    if let Some(v) = value {
        text::lemma_one_line_decimal(v as nat);
        flags::lemma_one_line_flag(name, text::decimal(v as nat));
    }
}

proof fn lemma_one_line_modes(mode: Seq<char>)
    requires
        core_modes().contains(mode),
    ensures
        text::one_line(mode),
{
    reveal(text::one_line);
    reveal_strlit("station");
    reveal_strlit("sniffer");
    reveal_strlit("wifi-ap");
    reveal_strlit("esp-now-central");
    reveal_strlit("esp-now-peripheral");
    reveal_strlit("esp-now-fast-collector");
    reveal_strlit("esp-now-fast-source");
}

/// The fixed parts of a `set-wifi` line have no line break.
proof fn lemma_one_line_literals()
    ensures
        text::one_line("set-wifi --mode="@),
        text::one_line("sta-ssid"@),
        text::one_line("sta-password"@),
        text::one_line("ap-ssid"@),
        text::one_line("ap-password"@),
        text::one_line("ap-dhcp"@),
        text::one_line("ap-leases"@),
        text::one_line("ap-burst"@),
        text::one_line("set-channel"@),
        text::one_line("peer-mac"@),
        text::one_line("ht40"@),
        text::one_line("above"@),
        text::one_line("below"@),
        text::one_line("none"@),
        text::one_line("off"@),
{
    reveal(text::one_line);
    reveal_strlit("set-wifi --mode=");
    reveal_strlit("sta-ssid");
    reveal_strlit("sta-password");
    reveal_strlit("ap-ssid");
    reveal_strlit("ap-password");
    reveal_strlit("ap-dhcp");
    reveal_strlit("ap-leases");
    reveal_strlit("ap-burst");
    reveal_strlit("set-channel");
    reveal_strlit("peer-mac");
    reveal_strlit("ht40");
    reveal_strlit("above");
    reveal_strlit("below");
    reveal_strlit("none");
    reveal_strlit("off");
}

/// One accepted request is one command: whatever the credentials, the MAC and the other
/// fields hold, the line has no line break, as long as the modes of the profile and the
/// unnamed parameters have none.
pub proof fn law_accepted_request_is_one_line(
    cfg: WifiConfig,
    chip: Option<Seq<char>>,
    extra_modes: Seq<Seq<char>>,
)
    requires
        cfg.command(chip, extra_modes) is Ok,
        forall|i: int| 0 <= i < extra_modes.len() ==> text::one_line(#[trigger] extra_modes[i]),
        forall|i: int|
            0 <= i < cfg.extra.listing().len() ==> text::one_line((#[trigger] cfg.extra.listing()[i]).0)
                && text::one_line(flags::rendered(cfg.extra.listing()[i].1@)),
    ensures
        text::one_line(cfg.command(chip, extra_modes)->Ok_0),
{
    lemma_one_line_literals();
    text::lemma_one_line_empty();
    assert(text::one_line(cfg.mode@)) by {
        if core_modes().contains(cfg.mode@) {
            lemma_one_line_modes(cfg.mode@);
        } else {
            let i = choose|i: int| 0 <= i < extra_modes.len() && extra_modes[i] == cfg.mode@;
            assert(text::one_line(extra_modes[i]));
        }
    }
    let l0 = "set-wifi --mode="@;
    let l1 = l0 + cfg.mode@;
    text::lemma_one_line_add(l0, cfg.mode@);
    let f2 = credential_flag("sta-ssid"@, cfg.sta_ssid);
    lemma_one_line_credential("sta-ssid"@, "sta_ssid"@, cfg.sta_ssid);
    text::lemma_one_line_add(l1, f2);
    let l2 = l1 + f2;
    let f3 = credential_flag("sta-password"@, cfg.sta_password);
    lemma_one_line_credential("sta-password"@, "sta_password"@, cfg.sta_password);
    text::lemma_one_line_add(l2, f3);
    let l3 = l2 + f3;
    let f4 = credential_flag("ap-ssid"@, cfg.ap_ssid);
    lemma_one_line_credential("ap-ssid"@, "ap_ssid"@, cfg.ap_ssid);
    text::lemma_one_line_add(l3, f4);
    let l4 = l3 + f4;
    let f5 = credential_flag("ap-password"@, cfg.ap_password);
    lemma_one_line_credential("ap-password"@, "ap_password"@, cfg.ap_password);
    text::lemma_one_line_add(l4, f5);
    let l5 = l4 + f5;
    let f6 = flags::switch_flag("ap-dhcp"@, cfg.ap_dhcp);
    flags::lemma_one_line_switch("ap-dhcp"@, cfg.ap_dhcp);
    text::lemma_one_line_add(l5, f6);
    let l6 = l5 + f6;
    let f7 = number_flag("ap-leases"@, cfg.ap_leases);
    lemma_one_line_number("ap-leases"@, cfg.ap_leases);
    text::lemma_one_line_add(l6, f7);
    let l7 = l6 + f7;
    let f8 = flags::switch_flag("ap-burst"@, cfg.ap_burst);
    flags::lemma_one_line_switch("ap-burst"@, cfg.ap_burst);
    text::lemma_one_line_add(l7, f8);
    let l8 = l7 + f8;
    let f9 = number_flag("set-channel"@, cfg.sent_channel(chip));
    lemma_one_line_number("set-channel"@, cfg.sent_channel(chip));
    text::lemma_one_line_add(l8, f9);
    let l9 = l8 + f9;
    let f10 = text_flag("peer-mac"@, cfg.peer_mac);
    if let Some(mac) = cfg.peer_mac {
        lemma_one_line_mac(mac@);
        flags::lemma_one_line_flag("peer-mac"@, mac@);
    }
    text::lemma_one_line_add(l9, f10);
    let l10 = l9 + f10;
    let f11 = text_flag("ht40"@, cfg.ht40);
    if let Some(ht40) = cfg.ht40 {
        flags::lemma_one_line_flag("ht40"@, ht40@);
    }
    text::lemma_one_line_add(l10, f11);
    let l11 = l10 + f11;
    let f12 = flags::flags(cfg.extra.listing());
    flags::lemma_one_line_extras(cfg.extra.listing());
    text::lemma_one_line_add(l11, f12);
    assert(cfg.line(chip) == l11 + f12);
}

/// A station is sent a channel only where the request names one; in every other mode a
/// channel is always sent.
pub proof fn law_station_gets_no_default_channel(cfg: WifiConfig, chip: Option<Seq<char>>)
    ensures
        cfg.mode@ == "station"@ ==> cfg.sent_channel(chip) == cfg.channel,
        cfg.mode@ != "station"@ ==> cfg.sent_channel(chip) is Some,
        cfg.channel is Some ==> cfg.sent_channel(chip) == cfg.channel,
{
}

/// The pieces of a line, in order.
#[verifier::opaque]
spec fn pieces(cfg: WifiConfig, chip: Option<Seq<char>>) -> Seq<Seq<char>> {
    Seq::empty().push("set-wifi --mode="@).push(cfg.mode@).push(
        credential_flag("sta-ssid"@, cfg.sta_ssid),
    ).push(credential_flag("sta-password"@, cfg.sta_password)).push(
        credential_flag("ap-ssid"@, cfg.ap_ssid),
    ).push(credential_flag("ap-password"@, cfg.ap_password)).push(
        flags::switch_flag("ap-dhcp"@, cfg.ap_dhcp),
    ).push(number_flag("ap-leases"@, cfg.ap_leases)).push(
        flags::switch_flag("ap-burst"@, cfg.ap_burst),
    ).push(number_flag("set-channel"@, cfg.sent_channel(chip))).push(
        text_flag("peer-mac"@, cfg.peer_mac),
    ).push(text_flag("ht40"@, cfg.ht40)).push(flags::flags(cfg.extra.listing()))
}

/// The pieces put together.
spec fn whole(cfg: WifiConfig, chip: Option<Seq<char>>) -> Seq<char> {
    text::concat(pieces(cfg, chip))
}

proof fn lemma_pieces(cfg: WifiConfig, chip: Option<Seq<char>>)
    ensures
        cfg.line(chip) == whole(cfg, chip),
        pieces(cfg, chip).len() == 13,
{
    reveal(pieces);
    let l0 = Seq::<Seq<char>>::empty();
    let l1 = l0.push("set-wifi --mode="@);
    text::lemma_concat_push(l0, "set-wifi --mode="@);
    let l2 = l1.push(cfg.mode@);
    text::lemma_concat_push(l1, cfg.mode@);
    let l3 = l2.push(credential_flag("sta-ssid"@, cfg.sta_ssid));
    text::lemma_concat_push(l2, credential_flag("sta-ssid"@, cfg.sta_ssid));
    let l4 = l3.push(credential_flag("sta-password"@, cfg.sta_password));
    text::lemma_concat_push(l3, credential_flag("sta-password"@, cfg.sta_password));
    let l5 = l4.push(credential_flag("ap-ssid"@, cfg.ap_ssid));
    text::lemma_concat_push(l4, credential_flag("ap-ssid"@, cfg.ap_ssid));
    let l6 = l5.push(credential_flag("ap-password"@, cfg.ap_password));
    text::lemma_concat_push(l5, credential_flag("ap-password"@, cfg.ap_password));
    let l7 = l6.push(flags::switch_flag("ap-dhcp"@, cfg.ap_dhcp));
    text::lemma_concat_push(l6, flags::switch_flag("ap-dhcp"@, cfg.ap_dhcp));
    let l8 = l7.push(number_flag("ap-leases"@, cfg.ap_leases));
    text::lemma_concat_push(l7, number_flag("ap-leases"@, cfg.ap_leases));
    let l9 = l8.push(flags::switch_flag("ap-burst"@, cfg.ap_burst));
    text::lemma_concat_push(l8, flags::switch_flag("ap-burst"@, cfg.ap_burst));
    let l10 = l9.push(number_flag("set-channel"@, cfg.sent_channel(chip)));
    text::lemma_concat_push(l9, number_flag("set-channel"@, cfg.sent_channel(chip)));
    let l11 = l10.push(text_flag("peer-mac"@, cfg.peer_mac));
    text::lemma_concat_push(l10, text_flag("peer-mac"@, cfg.peer_mac));
    let l12 = l11.push(text_flag("ht40"@, cfg.ht40));
    text::lemma_concat_push(l11, text_flag("ht40"@, cfg.ht40));
    let l13 = l12.push(flags::flags(cfg.extra.listing()));
    text::lemma_concat_push(l12, flags::flags(cfg.extra.listing()));
    assert(text::concat(l0) + "set-wifi --mode="@ =~= "set-wifi --mode="@);
}

/// What stands where.
proof fn lemma_pieces_at(cfg: WifiConfig, chip: Option<Seq<char>>)
    ensures
        pieces(cfg, chip).len() == 13,
        pieces(cfg, chip)[0] == "set-wifi --mode="@,
        pieces(cfg, chip)[1] == cfg.mode@,
        pieces(cfg, chip)[2] == credential_flag("sta-ssid"@, cfg.sta_ssid),
        pieces(cfg, chip)[3] == credential_flag("sta-password"@, cfg.sta_password),
        pieces(cfg, chip)[4] == credential_flag("ap-ssid"@, cfg.ap_ssid),
        pieces(cfg, chip)[5] == credential_flag("ap-password"@, cfg.ap_password),
        pieces(cfg, chip)[6] == flags::switch_flag("ap-dhcp"@, cfg.ap_dhcp),
        pieces(cfg, chip)[7] == number_flag("ap-leases"@, cfg.ap_leases),
        pieces(cfg, chip)[8] == flags::switch_flag("ap-burst"@, cfg.ap_burst),
        pieces(cfg, chip)[9] == number_flag("set-channel"@, cfg.sent_channel(chip)),
        pieces(cfg, chip)[10] == text_flag("peer-mac"@, cfg.peer_mac),
        pieces(cfg, chip)[11] == text_flag("ht40"@, cfg.ht40),
        pieces(cfg, chip)[12] == flags::flags(cfg.extra.listing()),
{
    reveal(pieces);
}

/// The flags of a `set-wifi` line, written out.
proof fn lemma_flag_names(value: Seq<char>)
    ensures
        flags::flag("sta-ssid"@, value) == " --sta-ssid="@ + value,
        flags::flag("sta-password"@, value) == " --sta-password="@ + value,
        flags::flag("ap-ssid"@, value) == " --ap-ssid="@ + value,
        flags::flag("ap-password"@, value) == " --ap-password="@ + value,
        flags::flag("ap-dhcp"@, value) == " --ap-dhcp="@ + value,
        flags::flag("ap-leases"@, value) == " --ap-leases="@ + value,
        flags::flag("ap-burst"@, value) == " --ap-burst="@ + value,
        flags::flag("set-channel"@, value) == " --set-channel="@ + value,
        flags::flag("peer-mac"@, value) == " --peer-mac="@ + value,
        flags::flag("ht40"@, value) == " --ht40="@ + value,
        flags::flag("ap-dhcp"@, "on"@) == " --ap-dhcp=on"@,
        flags::flag("ap-dhcp"@, "off"@) == " --ap-dhcp=off"@,
        flags::flag("ap-burst"@, "on"@) == " --ap-burst=on"@,
        flags::flag("ap-burst"@, "off"@) == " --ap-burst=off"@,
{
    reveal_strlit(" --");
    reveal_strlit("=");
    reveal_strlit("on");
    reveal_strlit("off");
    reveal_strlit("sta-ssid");
    reveal_strlit(" --sta-ssid=");
    assert(flags::flag("sta-ssid"@, value) =~= " --sta-ssid="@ + value);
    reveal_strlit("sta-password");
    reveal_strlit(" --sta-password=");
    assert(flags::flag("sta-password"@, value) =~= " --sta-password="@ + value);
    reveal_strlit("ap-ssid");
    reveal_strlit(" --ap-ssid=");
    assert(flags::flag("ap-ssid"@, value) =~= " --ap-ssid="@ + value);
    reveal_strlit("ap-password");
    reveal_strlit(" --ap-password=");
    assert(flags::flag("ap-password"@, value) =~= " --ap-password="@ + value);
    reveal_strlit("ap-dhcp");
    reveal_strlit(" --ap-dhcp=");
    assert(flags::flag("ap-dhcp"@, value) =~= " --ap-dhcp="@ + value);
    reveal_strlit("ap-leases");
    reveal_strlit(" --ap-leases=");
    assert(flags::flag("ap-leases"@, value) =~= " --ap-leases="@ + value);
    reveal_strlit("ap-burst");
    reveal_strlit(" --ap-burst=");
    assert(flags::flag("ap-burst"@, value) =~= " --ap-burst="@ + value);
    reveal_strlit("set-channel");
    reveal_strlit(" --set-channel=");
    assert(flags::flag("set-channel"@, value) =~= " --set-channel="@ + value);
    reveal_strlit("peer-mac");
    reveal_strlit(" --peer-mac=");
    assert(flags::flag("peer-mac"@, value) =~= " --peer-mac="@ + value);
    reveal_strlit("ht40");
    reveal_strlit(" --ht40=");
    assert(flags::flag("ht40"@, value) =~= " --ht40="@ + value);
    reveal_strlit(" --ap-dhcp=on");
    assert(flags::flag("ap-dhcp"@, "on"@) =~= " --ap-dhcp=on"@);
    reveal_strlit(" --ap-dhcp=off");
    assert(flags::flag("ap-dhcp"@, "off"@) =~= " --ap-dhcp=off"@);
    reveal_strlit(" --ap-burst=on");
    assert(flags::flag("ap-burst"@, "on"@) =~= " --ap-burst=on"@);
    reveal_strlit(" --ap-burst=off");
    assert(flags::flag("ap-burst"@, "off"@) =~= " --ap-burst=off"@);
}

/// Each credential has its own flag: a request with one more has that credential's flag more,
/// with the text that was asked for in quotes, and is the same line otherwise. So the flag
/// occurs exactly if the credential is given, and none is sent under another's name.
pub proof fn law_each_credential_has_its_flag(
    cfg: WifiConfig,
    bare: WifiConfig,
    chip: Option<&str>,
    modes: &'static [&'static str],
    r: Result<String, String>,
    s: Result<String, String>,
)
    requires
        call_ensures(WifiConfig::cli_command_with_modes, (&cfg, chip, modes), r),
        call_ensures(WifiConfig::cli_command_with_modes, (&bare, chip, modes), s),
        r is Ok,
    ensures
        cfg.sta_ssid is Some && bare == (WifiConfig { sta_ssid: None, ..cfg }) ==> s is Ok
            && text::put_in_quoted(r->Ok_0@, s->Ok_0@, " --sta-ssid="@, cfg.sta_ssid->0@),
        cfg.sta_password is Some && bare == (WifiConfig { sta_password: None, ..cfg }) ==> s is Ok
            && text::put_in_quoted(r->Ok_0@, s->Ok_0@, " --sta-password="@, cfg.sta_password->0@),
        cfg.ap_ssid is Some && bare == (WifiConfig { ap_ssid: None, ..cfg }) ==> s is Ok
            && text::put_in_quoted(r->Ok_0@, s->Ok_0@, " --ap-ssid="@, cfg.ap_ssid->0@),
        cfg.ap_password is Some && bare == (WifiConfig { ap_password: None, ..cfg }) ==> s is Ok
            && text::put_in_quoted(r->Ok_0@, s->Ok_0@, " --ap-password="@, cfg.ap_password->0@),
{
    let c = device::chip_name(chip);
    lemma_pieces(cfg, c);
    lemma_pieces(bare, c);
    if cfg.sta_ssid is Some && bare == (WifiConfig { sta_ssid: None, ..cfg }) {
        lemma_sta_ssid_piece(cfg, bare, c);
    }
    if cfg.sta_password is Some && bare == (WifiConfig { sta_password: None, ..cfg }) {
        lemma_sta_password_piece(cfg, bare, c);
    }
    if cfg.ap_ssid is Some && bare == (WifiConfig { ap_ssid: None, ..cfg }) {
        lemma_ap_ssid_piece(cfg, bare, c);
    }
    if cfg.ap_password is Some && bare == (WifiConfig { ap_password: None, ..cfg }) {
        lemma_ap_password_piece(cfg, bare, c);
    }
}

/// Each setting has its own flag: a request with a field more has that field's flag more, with
/// the value that was asked for, and is the same line otherwise. So the flag of a field
/// occurs exactly if the field is given, and no field is sent under another's name.
pub proof fn law_each_setting_has_its_flag(
    cfg: WifiConfig,
    bare: WifiConfig,
    chip: Option<&str>,
    modes: &'static [&'static str],
    r: Result<String, String>,
    s: Result<String, String>,
)
    requires
        call_ensures(WifiConfig::cli_command_with_modes, (&cfg, chip, modes), r),
        call_ensures(WifiConfig::cli_command_with_modes, (&bare, chip, modes), s),
        r is Ok,
    ensures
        cfg.ap_dhcp == Some(true) && bare == (WifiConfig { ap_dhcp: None, ..cfg }) ==> s is Ok
            && text::put_in(r->Ok_0@, s->Ok_0@, " --ap-dhcp=on"@),
        cfg.ap_dhcp == Some(false) && bare == (WifiConfig { ap_dhcp: None, ..cfg }) ==> s is Ok
            && text::put_in(r->Ok_0@, s->Ok_0@, " --ap-dhcp=off"@),
        cfg.ap_burst == Some(true) && bare == (WifiConfig { ap_burst: None, ..cfg }) ==> s is Ok
            && text::put_in(r->Ok_0@, s->Ok_0@, " --ap-burst=on"@),
        cfg.ap_burst == Some(false) && bare == (WifiConfig { ap_burst: None, ..cfg }) ==> s is Ok
            && text::put_in(r->Ok_0@, s->Ok_0@, " --ap-burst=off"@),
        cfg.ap_leases is Some && bare == (WifiConfig { ap_leases: None, ..cfg }) ==> s is Ok
            && text::put_in(
            r->Ok_0@,
            s->Ok_0@,
            " --ap-leases="@ + text::decimal(cfg.ap_leases->0 as nat),
        ),
        cfg.channel is Some && bare == (WifiConfig { channel: None, ..cfg })
            && cfg.mode@ == "station"@ ==> s is Ok && text::put_in(
            r->Ok_0@,
            s->Ok_0@,
            " --set-channel="@ + text::decimal(cfg.channel->0 as nat),
        ),
{
    let c = device::chip_name(chip);
    lemma_pieces(cfg, c);
    lemma_pieces(bare, c);
    if cfg.ap_dhcp is Some && bare == (WifiConfig { ap_dhcp: None, ..cfg }) {
        lemma_ap_dhcp_piece(cfg, bare, c);
    }
    if cfg.ap_leases is Some && bare == (WifiConfig { ap_leases: None, ..cfg }) {
        lemma_ap_leases_piece(cfg, bare, c);
    }
    if cfg.ap_burst is Some && bare == (WifiConfig { ap_burst: None, ..cfg }) {
        lemma_ap_burst_piece(cfg, bare, c);
    }
    if cfg.channel is Some && bare == (WifiConfig { channel: None, ..cfg }) && cfg.mode@ == "station"@ {
        lemma_channel_piece(cfg, bare, c);
    }
}

/// The MAC and the secondary channel are sent as they are, each behind its own flag; unnamed
/// parameters are put behind everything else.
pub proof fn law_each_text_has_its_flag(
    cfg: WifiConfig,
    bare: WifiConfig,
    chip: Option<&str>,
    modes: &'static [&'static str],
    r: Result<String, String>,
    s: Result<String, String>,
)
    requires
        call_ensures(WifiConfig::cli_command_with_modes, (&cfg, chip, modes), r),
        call_ensures(WifiConfig::cli_command_with_modes, (&bare, chip, modes), s),
        r is Ok,
    ensures
        cfg.peer_mac is Some && bare == (WifiConfig { peer_mac: None, ..cfg }) ==> s is Ok
            && text::put_in(r->Ok_0@, s->Ok_0@, " --peer-mac="@ + cfg.peer_mac->0@),
        cfg.ht40 is Some && bare == (WifiConfig { ht40: None, ..cfg }) ==> s is Ok
            && text::put_in(r->Ok_0@, s->Ok_0@, " --ht40="@ + cfg.ht40->0@),
        bare == (WifiConfig { extra: bare.extra, ..cfg }) && bare.extra.listing().len() == 0 ==> s is Ok
            && r->Ok_0@ == s->Ok_0@ + flags::flags(cfg.extra.listing()),
{
    let c = device::chip_name(chip);
    lemma_pieces(cfg, c);
    lemma_pieces(bare, c);
    if cfg.peer_mac is Some && bare == (WifiConfig { peer_mac: None, ..cfg }) {
        lemma_peer_mac_piece(cfg, bare, c);
    }
    if cfg.ht40 is Some && bare == (WifiConfig { ht40: None, ..cfg }) {
        lemma_ht40_piece(cfg, bare, c);
    }
    if bare == (WifiConfig { extra: bare.extra, ..cfg }) && bare.extra.listing().len() == 0 {
        lemma_extras_piece(cfg, bare, c);
    }
}

proof fn lemma_extras_piece(cfg: WifiConfig, bare: WifiConfig, chip: Option<Seq<char>>)
    requires
        bare == (WifiConfig { extra: bare.extra, ..cfg }),
        bare.extra.listing().len() == 0,
    ensures
        cfg.line(chip) == bare.line(chip) + flags::flags(cfg.extra.listing()),
{
    assert(bare.line(chip) + flags::flags(cfg.extra.listing()) =~= cfg.line(chip));
}

proof fn lemma_sta_ssid_piece(cfg: WifiConfig, bare: WifiConfig, chip: Option<Seq<char>>)
    requires
        cfg.sta_ssid is Some,
        bare == (WifiConfig { sta_ssid: None, ..cfg }),
        credential_error("sta_ssid"@, cfg.sta_ssid) is None,
    ensures
        text::put_in_quoted(whole(cfg, chip), whole(bare, chip), " --sta-ssid="@, cfg.sta_ssid->0@),
{
    let v = cfg.sta_ssid->0;
    lemma_sent_in_quotes("sta-ssid"@, "sta_ssid"@, v);
    lemma_flag_names(quoted(v@)->Ok_0);
    lemma_pieces_at(cfg, chip);
    lemma_pieces_at(bare, chip);
    assert(pieces(bare, chip) =~= pieces(cfg, chip).update(2, Seq::empty()));
    text::lemma_concat_put_in(pieces(cfg, chip), 2);
}

proof fn lemma_sta_password_piece(cfg: WifiConfig, bare: WifiConfig, chip: Option<Seq<char>>)
    requires
        cfg.sta_password is Some,
        bare == (WifiConfig { sta_password: None, ..cfg }),
        credential_error("sta_password"@, cfg.sta_password) is None,
    ensures
        text::put_in_quoted(whole(cfg, chip), whole(bare, chip), " --sta-password="@, cfg.sta_password->0@),
{
    let v = cfg.sta_password->0;
    lemma_sent_in_quotes("sta-password"@, "sta_password"@, v);
    lemma_flag_names(quoted(v@)->Ok_0);
    lemma_pieces_at(cfg, chip);
    lemma_pieces_at(bare, chip);
    assert(pieces(bare, chip) =~= pieces(cfg, chip).update(3, Seq::empty()));
    text::lemma_concat_put_in(pieces(cfg, chip), 3);
}

proof fn lemma_ap_ssid_piece(cfg: WifiConfig, bare: WifiConfig, chip: Option<Seq<char>>)
    requires
        cfg.ap_ssid is Some,
        bare == (WifiConfig { ap_ssid: None, ..cfg }),
        credential_error("ap_ssid"@, cfg.ap_ssid) is None,
    ensures
        text::put_in_quoted(whole(cfg, chip), whole(bare, chip), " --ap-ssid="@, cfg.ap_ssid->0@),
{
    let v = cfg.ap_ssid->0;
    lemma_sent_in_quotes("ap-ssid"@, "ap_ssid"@, v);
    lemma_flag_names(quoted(v@)->Ok_0);
    lemma_pieces_at(cfg, chip);
    lemma_pieces_at(bare, chip);
    assert(pieces(bare, chip) =~= pieces(cfg, chip).update(4, Seq::empty()));
    text::lemma_concat_put_in(pieces(cfg, chip), 4);
}

proof fn lemma_ap_password_piece(cfg: WifiConfig, bare: WifiConfig, chip: Option<Seq<char>>)
    requires
        cfg.ap_password is Some,
        bare == (WifiConfig { ap_password: None, ..cfg }),
        credential_error("ap_password"@, cfg.ap_password) is None,
    ensures
        text::put_in_quoted(whole(cfg, chip), whole(bare, chip), " --ap-password="@, cfg.ap_password->0@),
{
    let v = cfg.ap_password->0;
    lemma_sent_in_quotes("ap-password"@, "ap_password"@, v);
    lemma_flag_names(quoted(v@)->Ok_0);
    lemma_pieces_at(cfg, chip);
    lemma_pieces_at(bare, chip);
    assert(pieces(bare, chip) =~= pieces(cfg, chip).update(5, Seq::empty()));
    text::lemma_concat_put_in(pieces(cfg, chip), 5);
}

proof fn lemma_ap_dhcp_piece(cfg: WifiConfig, bare: WifiConfig, chip: Option<Seq<char>>)
    requires
        cfg.ap_dhcp is Some,
        bare == (WifiConfig { ap_dhcp: None, ..cfg }),
    ensures
        cfg.ap_dhcp->0 ==> text::put_in(whole(cfg, chip), whole(bare, chip), " --ap-dhcp=on"@),
        !cfg.ap_dhcp->0 ==> text::put_in(whole(cfg, chip), whole(bare, chip), " --ap-dhcp=off"@),
{
    lemma_flag_names(Seq::empty());
    lemma_pieces_at(cfg, chip);
    lemma_pieces_at(bare, chip);
    assert(pieces(bare, chip) =~= pieces(cfg, chip).update(6, Seq::empty()));
    text::lemma_concat_put_in(pieces(cfg, chip), 6);
}

proof fn lemma_ap_leases_piece(cfg: WifiConfig, bare: WifiConfig, chip: Option<Seq<char>>)
    requires
        cfg.ap_leases is Some,
        bare == (WifiConfig { ap_leases: None, ..cfg }),
    ensures
        text::put_in(
            whole(cfg, chip),
            whole(bare, chip),
            " --ap-leases="@ + text::decimal(cfg.ap_leases->0 as nat),
        ),
{
    lemma_flag_names(text::decimal(cfg.ap_leases->0 as nat));
    lemma_pieces_at(cfg, chip);
    lemma_pieces_at(bare, chip);
    assert(pieces(bare, chip) =~= pieces(cfg, chip).update(7, Seq::empty()));
    text::lemma_concat_put_in(pieces(cfg, chip), 7);
}

proof fn lemma_ap_burst_piece(cfg: WifiConfig, bare: WifiConfig, chip: Option<Seq<char>>)
    requires
        cfg.ap_burst is Some,
        bare == (WifiConfig { ap_burst: None, ..cfg }),
    ensures
        cfg.ap_burst->0 ==> text::put_in(whole(cfg, chip), whole(bare, chip), " --ap-burst=on"@),
        !cfg.ap_burst->0 ==> text::put_in(whole(cfg, chip), whole(bare, chip), " --ap-burst=off"@),
{
    lemma_flag_names(Seq::empty());
    lemma_pieces_at(cfg, chip);
    lemma_pieces_at(bare, chip);
    assert(pieces(bare, chip) =~= pieces(cfg, chip).update(8, Seq::empty()));
    text::lemma_concat_put_in(pieces(cfg, chip), 8);
}

proof fn lemma_channel_piece(cfg: WifiConfig, bare: WifiConfig, chip: Option<Seq<char>>)
    requires
        cfg.channel is Some,
        bare == (WifiConfig { channel: None, ..cfg }),
        cfg.mode@ == "station"@,
    ensures
        text::put_in(
            whole(cfg, chip),
            whole(bare, chip),
            " --set-channel="@ + text::decimal(cfg.channel->0 as nat),
        ),
{
    lemma_flag_names(text::decimal(cfg.channel->0 as nat));
    lemma_pieces_at(cfg, chip);
    lemma_pieces_at(bare, chip);
    assert(pieces(bare, chip) =~= pieces(cfg, chip).update(9, Seq::empty()));
    text::lemma_concat_put_in(pieces(cfg, chip), 9);
}

proof fn lemma_peer_mac_piece(cfg: WifiConfig, bare: WifiConfig, chip: Option<Seq<char>>)
    requires
        cfg.peer_mac is Some,
        bare == (WifiConfig { peer_mac: None, ..cfg }),
    ensures
        text::put_in(whole(cfg, chip), whole(bare, chip), " --peer-mac="@ + cfg.peer_mac->0@),
{
    lemma_flag_names(cfg.peer_mac->0@);
    lemma_pieces_at(cfg, chip);
    lemma_pieces_at(bare, chip);
    assert(pieces(bare, chip) =~= pieces(cfg, chip).update(10, Seq::empty()));
    text::lemma_concat_put_in(pieces(cfg, chip), 10);
}

proof fn lemma_ht40_piece(cfg: WifiConfig, bare: WifiConfig, chip: Option<Seq<char>>)
    requires
        cfg.ht40 is Some,
        bare == (WifiConfig { ht40: None, ..cfg }),
    ensures
        text::put_in(whole(cfg, chip), whole(bare, chip), " --ht40="@ + cfg.ht40->0@),
{
    lemma_flag_names(cfg.ht40->0@);
    lemma_pieces_at(cfg, chip);
    lemma_pieces_at(bare, chip);
    assert(pieces(bare, chip) =~= pieces(cfg, chip).update(11, Seq::empty()));
    text::lemma_concat_put_in(pieces(cfg, chip), 11);
}

/// An accepted credential stands in single quotes where it holds none, else in double ones.
proof fn lemma_sent_in_quotes(name: Seq<char>, field: Seq<char>, v: String)
    requires
        credential_error(field, Some(v)) is None,
    ensures
        credential_flag(name, Some(v)) == flags::flag(name, quoted(v@)->Ok_0),
        !v@.contains('\'') ==> forall|prefix: Seq<char>| #[trigger]
            (prefix + quoted(v@)->Ok_0) == prefix + seq!['\''] + v@ + seq!['\''],
        v@.contains('\'') ==> !v@.contains('"') && forall|prefix: Seq<char>| #[trigger]
            (prefix + quoted(v@)->Ok_0) == prefix + seq!['"'] + v@ + seq!['"'],
{
    assert forall|prefix: Seq<char>| !v@.contains('\'') implies #[trigger] (prefix + quoted(
        v@,
    )->Ok_0) == prefix + seq!['\''] + v@ + seq!['\''] by {
        assert(prefix + quoted(v@)->Ok_0 =~= prefix + seq!['\''] + v@ + seq!['\'']);
    }
    assert forall|prefix: Seq<char>| v@.contains('\'') implies #[trigger] (prefix + quoted(
        v@,
    )->Ok_0) == prefix + seq!['"'] + v@ + seq!['"'] by {
        assert(prefix + quoted(v@)->Ok_0 =~= prefix + seq!['"'] + v@ + seq!['"']);
    }
}

/// A request with nothing but a mode is sent as the mode alone. Outside of station mode the
/// line is the one that names the chip's own channel: 149 on the ESP32-C5, 6 on the
/// ESP32-C6, 1 on every other.
pub proof fn law_line_without_fields(
    cfg: WifiConfig,
    named: WifiConfig,
    chip: Option<&str>,
    modes: &'static [&'static str],
    r: Result<String, String>,
    s: Result<String, String>,
    n: u8,
)
    requires
        call_ensures(WifiConfig::cli_command_with_modes, (&cfg, chip, modes), r),
        call_ensures(WifiConfig::cli_command_with_modes, (&named, chip, modes), s),
        named == (WifiConfig { channel: Some(n), ..cfg }),
        r is Ok,
    ensures
        s is Ok,
        r->Ok_0@.len() >= 16 + cfg.mode@.len(),
        r->Ok_0@.take(16int + cfg.mode@.len()) == "set-wifi --mode="@ + cfg.mode@,
        cfg.mode@ == "station"@ && cfg.sta_ssid is None && cfg.sta_password is None
            && cfg.ap_ssid is None && cfg.ap_password is None && cfg.ap_dhcp is None
            && cfg.ap_leases is None && cfg.ap_burst is None && cfg.channel is None
            && cfg.peer_mac is None && cfg.ht40 is None && cfg.extra.listing().len() == 0
            ==> r->Ok_0@ == "set-wifi --mode=station"@,
        cfg.mode@ != "station"@ && cfg.channel is None && n == (match chip {
            Some(c) => if text::lower(text::trim(c@)) == "esp32c5"@ {
                149int
            } else if text::lower(text::trim(c@)) == "esp32c6"@ {
                6
            } else {
                1
            },
            None => 1,
        }) ==> r->Ok_0@ == s->Ok_0@,
{
    reveal_strlit("station");
    reveal_strlit("set-wifi --mode=");
    reveal_strlit("set-wifi --mode=station");
    let c = device::chip_name(chip);
    let start = "set-wifi --mode="@ + cfg.mode@;
    let list = pieces(cfg, c);
    lemma_pieces(cfg, c);
    lemma_pieces_at(cfg, c);
    lemma_concat_starts(list, 2);
    assert(list.take(2) =~= Seq::empty().push("set-wifi --mode="@).push(cfg.mode@));
    text::lemma_concat_push(Seq::empty(), "set-wifi --mode="@);
    text::lemma_concat_push(Seq::empty().push("set-wifi --mode="@), cfg.mode@);
    assert(text::concat(list.take(2)) =~= start);
    assert(start.len() == 16 + cfg.mode@.len());
    if cfg.mode@ == "station"@ && r->Ok_0@.len() == start.len() {
        assert(r->Ok_0@.take(start.len() as int) =~= r->Ok_0@);
    }
    assert("set-wifi --mode="@ + "station"@ =~= "set-wifi --mode=station"@);
}

/// The text of a list begins with the text of its first entries.
proof fn lemma_concat_starts(list: Seq<Seq<char>>, k: int)
    requires
        0 <= k <= list.len(),
    ensures
        text::concat(list).len() >= text::concat(list.take(k)).len(),
        text::concat(list).take(text::concat(list.take(k)).len() as int) == text::concat(
            list.take(k),
        ),
    decreases list.len(),
{
    let head = text::concat(list.take(k));
    if k == list.len() {
        assert(list.take(k) =~= list);
        assert(head.take(head.len() as int) =~= head);
    } else {
        lemma_concat_starts(list.drop_last(), k);
        assert(list.drop_last().take(k) =~= list.take(k));
        assert(text::concat(list).take(head.len() as int) =~= text::concat(list.drop_last()).take(
            head.len() as int,
        ));
    }
}

/// Six octets of two hexadecimal digits each, with the same separator, `:` or `-`, between
/// them.
pub open spec fn reads_as_mac(mac: Seq<char>) -> bool {
    &&& mac.len() == 17
    &&& mac[2] == ':' || mac[2] == '-'
    &&& mac[5] == mac[2] && mac[8] == mac[2] && mac[11] == mac[2] && mac[14] == mac[2]
    &&& forall|i: int|
        0 <= i < 17 && i % 3 != 2 ==> {
            let c = (#[trigger] mac[i]) as int;
            48 <= c <= 57 || 65 <= c <= 70 || 97 <= c <= 102
        }
}

/// A MAC is accepted exactly if it is empty or six octets between separators; a text without
/// a separator is told apart from one that is wrong otherwise.
pub proof fn law_peer_mac(mac: &str, r: Result<(), String>)
    requires
        call_ensures(validate_peer_mac, (mac,), r),
    ensures
        r is Ok <==> mac@.len() == 0 || reads_as_mac(mac@),
        r is Err && (mac@.contains(':') || mac@.contains('-')) ==> r->Err_0@
            == "Invalid peer_mac '"@ + mac@ + "' (use aa:bb:cc:dd:ee:ff)"@,
        r is Err && !(mac@.contains(':') || mac@.contains('-')) ==> r->Err_0@
            == "peer_mac must use ':' or '-' separators (aa:bb:cc:dd:ee:ff)"@,
{
    lemma_mac_form(mac@);
}

proof fn lemma_mac_form(mac: Seq<char>)
    ensures
        peer_mac_error(mac) is None <==> mac.len() == 0 || reads_as_mac(mac),
{
    if mac.len() > 0 && peer_mac_error(mac) is None {
        lemma_mac_has_form(mac);
    }
    if reads_as_mac(mac) {
        lemma_form_is_mac(mac);
    }
}

proof fn lemma_mac_has_form(mac: Seq<char>)
    requires
        is_mac(mac),
    ensures
        reads_as_mac(mac),
{
    let sep = mac_separator(mac);
    let o = text::split(mac, sep);
    text::law_split_join(mac, sep, 0);
    assert(is_octet(o[0]) && is_octet(o[1]) && is_octet(o[2]) && is_octet(o[3]) && is_octet(o[4])
        && is_octet(o[5]));
    let none = Seq::<Seq<char>>::empty();
    let l1 = none.push(o[0]);
    let l2 = l1.push(o[1]);
    let l3 = l2.push(o[2]);
    let l4 = l3.push(o[3]);
    let l5 = l4.push(o[4]);
    let l6 = l5.push(o[5]);
    text::law_joining_separates(none, seq![sep], o[0]);
    assert(l1 =~= seq![o[0]]);
    text::law_joining_separates(l1, seq![sep], o[1]);
    text::law_joining_separates(l2, seq![sep], o[2]);
    text::law_joining_separates(l3, seq![sep], o[3]);
    text::law_joining_separates(l4, seq![sep], o[4]);
    text::law_joining_separates(l5, seq![sep], o[5]);
    assert(o =~= l6);
    let j2 = o[0] + seq![sep] + o[1];
    let j3 = j2 + seq![sep] + o[2];
    let j4 = j3 + seq![sep] + o[3];
    let j5 = j4 + seq![sep] + o[4];
    let j6 = j5 + seq![sep] + o[5];
    assert(mac == j6);
    assert(j6.len() == 17);
    assert(mac[0] == o[0][0] && mac[1] == o[0][1] && mac[2] == sep);
    assert(mac[3] == o[1][0] && mac[4] == o[1][1] && mac[5] == sep);
    assert(mac[6] == o[2][0] && mac[7] == o[2][1] && mac[8] == sep);
    assert(mac[9] == o[3][0] && mac[10] == o[3][1] && mac[11] == sep);
    assert(mac[12] == o[4][0] && mac[13] == o[4][1] && mac[14] == sep);
    assert(mac[15] == o[5][0] && mac[16] == o[5][1]);
}

proof fn lemma_form_is_mac(mac: Seq<char>)
    requires
        reads_as_mac(mac),
    ensures
        is_mac(mac),
        mac.contains(':') || mac.contains('-'),
{
    let sep = mac[2];
    assert(mac.contains(sep));
    assert forall|i: int| 0 <= i < 17 implies (#[trigger] mac[i] == sep || is_hex(mac[i])) by {
        if i % 3 == 2 {
            assert(i == 2 || i == 5 || i == 8 || i == 11 || i == 14);
        }
    }
    assert(mac_separator(mac) == sep) by {
        if mac.contains(':') {
            let i = choose|i: int| 0 <= i < 17 && mac[i] == ':';
            assert(mac[i] == sep || is_hex(mac[i]));
        }
    }
    let o = lemma_mac_octets(mac);
    assert forall|i: int| 0 <= i < o.len() implies !(#[trigger] o[i]).contains(sep) by {
        assert(is_octet(o[i]));
        if o[i].contains(sep) {
            let k = choose|k: int| 0 <= k < o[i].len() && o[i][k] == sep;
            assert(is_hex(o[i][k]));
        }
    }
    text::law_join_split(o, sep);
}

/// The six octets of a MAC.
proof fn lemma_mac_octets(mac: Seq<char>) -> (o: Seq<Seq<char>>)
    requires
        reads_as_mac(mac),
    ensures
        o.len() == 6,
        forall|i: int| 0 <= i < 6 ==> is_octet(#[trigger] o[i]),
        text::join(o, seq![mac[2]]) == mac,
{
    let sep = seq![mac[2]];
    let none = Seq::<Seq<char>>::empty();
    let l1 = none.push(mac.subrange(0, 2));
    let l2 = l1.push(mac.subrange(3, 5));
    let l3 = l2.push(mac.subrange(6, 8));
    let l4 = l3.push(mac.subrange(9, 11));
    let l5 = l4.push(mac.subrange(12, 14));
    let o = l5.push(mac.subrange(15, 17));
    assert(text::join(l1, sep) == mac.take(2)) by {
        text::law_joining_separates(none, sep, mac.subrange(0, 2));
        assert(l1 =~= seq![mac.subrange(0, 2)]);
        assert(mac.subrange(0, 2) =~= mac.take(2));
    }
    assert(text::join(l2, sep) == mac.take(5)) by {
        text::law_joining_separates(l1, sep, mac.subrange(3, 5));
        assert(mac.take(2) + sep + mac.subrange(3, 5) =~= mac.take(5));
    }
    assert(text::join(l3, sep) == mac.take(8)) by {
        text::law_joining_separates(l2, sep, mac.subrange(6, 8));
        assert(mac.take(5) + sep + mac.subrange(6, 8) =~= mac.take(8));
    }
    assert(text::join(l4, sep) == mac.take(11)) by {
        text::law_joining_separates(l3, sep, mac.subrange(9, 11));
        assert(mac.take(8) + sep + mac.subrange(9, 11) =~= mac.take(11));
    }
    assert(text::join(l5, sep) == mac.take(14)) by {
        text::law_joining_separates(l4, sep, mac.subrange(12, 14));
        assert(mac.take(11) + sep + mac.subrange(12, 14) =~= mac.take(14));
    }
    assert(text::join(o, sep) == mac) by {
        text::law_joining_separates(l5, sep, mac.subrange(15, 17));
        assert(mac.take(14) + sep + mac.subrange(15, 17) =~= mac);
    }
    assert forall|i: int| 0 <= i < 6 implies is_octet(#[trigger] o[i]) by {
        assert(o[i] =~= mac.subrange(3 * i, 3 * i + 2));
        assert((3 * i) % 3 != 2 && (3 * i + 1) % 3 != 2);
        assert(is_hex(mac[3 * i]) && is_hex(mac[3 * i + 1]));
    }
    o
}

/// A credential that can be sent: at most 32 bytes, no line break, and not both quotes.
pub open spec fn sendable(value: Option<String>) -> bool {
    value matches Some(v) ==> {
        &&& vstd::utf8::encode_utf8(v@).len() <= 32
        &&& !v@.contains('\n') && !v@.contains('\r')
        &&& !(v@.contains('\'') && v@.contains('"'))
    }
}

/// A request is accepted exactly if its mode is one of the seven of the core or one that the
/// profile adds, its credentials can be sent, one to eight leases are asked for, the MAC is
/// one, and the secondary channel is one of the four; fields that are not given do not
/// matter, nor does any other field.
pub proof fn law_accepted_requests(
    cfg: WifiConfig,
    chip: Option<&str>,
    modes: &'static [&'static str],
    r: Result<String, String>,
)
    requires
        call_ensures(WifiConfig::cli_command_with_modes, (&cfg, chip, modes), r),
    ensures
        r is Ok <==> ({
            &&& ({
                ||| cfg.mode@ == "station"@
                ||| cfg.mode@ == "sniffer"@
                ||| cfg.mode@ == "wifi-ap"@
                ||| cfg.mode@ == "esp-now-central"@
                ||| cfg.mode@ == "esp-now-peripheral"@
                ||| cfg.mode@ == "esp-now-fast-collector"@
                ||| cfg.mode@ == "esp-now-fast-source"@
                ||| exists|i: int| 0 <= i < modes@.len() && (#[trigger] modes@[i])@ == cfg.mode@
            })
            &&& sendable(cfg.sta_ssid) && sendable(cfg.sta_password)
            &&& sendable(cfg.ap_ssid) && sendable(cfg.ap_password)
            &&& cfg.ap_leases matches Some(n) ==> 1 <= n <= 8
            &&& cfg.peer_mac matches Some(mac) ==> mac@.len() == 0 || reads_as_mac(mac@)
            &&& cfg.ht40 matches Some(h) ==> h@ == "above"@ || h@ == "below"@ || h@ == "none"@
                || h@ == "off"@
        }),
{
    lemma_known_mode(cfg.mode@, modes@);
    if let Some(mac) = cfg.peer_mac {
        lemma_mac_form(mac@);
    }
}

proof fn lemma_known_mode(mode: Seq<char>, modes: Seq<&'static str>)
    ensures
        core_modes().contains(mode) <==> mode == "station"@ || mode == "sniffer"@ || mode
            == "wifi-ap"@ || mode == "esp-now-central"@ || mode == "esp-now-peripheral"@ || mode
            == "esp-now-fast-collector"@ || mode == "esp-now-fast-source"@,
        text::names(modes).contains(mode) <==> exists|i: int|
            0 <= i < modes.len() && (#[trigger] modes[i])@ == mode,
{
    let core = core_modes();
    assert(core[0] == "station"@ && core[1] == "sniffer"@ && core[2] == "wifi-ap"@ && core[3]
        == "esp-now-central"@ && core[4] == "esp-now-peripheral"@ && core[5]
        == "esp-now-fast-collector"@ && core[6] == "esp-now-fast-source"@);
    let names = text::names(modes);
    if names.contains(mode) {
        let i = choose|i: int| 0 <= i < names.len() && names[i] == mode;
        assert(modes[i]@ == mode);
    }
    if exists|i: int| 0 <= i < modes.len() && (#[trigger] modes[i])@ == mode {
        let i = choose|i: int| 0 <= i < modes.len() && (#[trigger] modes[i])@ == mode;
        assert(names[i] == mode);
    }
}

/// What is said of a credential that cannot be sent: its length where it is too long, else
/// what makes it unquotable.
pub open spec fn says_why(message: Seq<char>, field: Seq<char>, value: Seq<char>) -> bool {
    let bytes = vstd::utf8::encode_utf8(value).len();
    if bytes > 32 {
        message == field + " is "@ + text::decimal(bytes) + " bytes; firmware limit is 32 bytes"@
    } else if value.contains('\n') || value.contains('\r') {
        message == "value cannot contain newline characters"@
    } else {
        message == "value cannot contain both single and double quote characters"@
    }
}

/// A refusal is about the field that causes it: where a request is accepted without a field
/// and refused with it, the message is that field's. An unknown mode is refused whatever
/// else the request holds, with the modes that are known.
pub proof fn law_refusal_names_the_field(
    cfg: WifiConfig,
    bare: WifiConfig,
    chip: Option<&str>,
    modes: &'static [&'static str],
    r: Result<String, String>,
    s: Result<String, String>,
)
    requires
        call_ensures(WifiConfig::cli_command_with_modes, (&cfg, chip, modes), r),
        call_ensures(WifiConfig::cli_command_with_modes, (&bare, chip, modes), s),
        r is Err,
    ensures
        !(core_modes() + text::names(modes@)).contains(cfg.mode@) ==> r->Err_0@
            == "Unknown wifi mode '"@ + cfg.mode@ + "'; expected one of: "@ + text::join(
            seq![
                "station"@,
                "sniffer"@,
                "wifi-ap"@,
                "esp-now-central"@,
                "esp-now-peripheral"@,
                "esp-now-fast-collector"@,
                "esp-now-fast-source"@,
            ] + text::names(modes@),
            ", "@,
        ),
        s is Ok && bare == (WifiConfig { sta_ssid: None, ..cfg }) ==> says_why(
            r->Err_0@,
            "sta_ssid"@,
            cfg.sta_ssid->0@,
        ),
        s is Ok && bare == (WifiConfig { sta_password: None, ..cfg }) ==> says_why(
            r->Err_0@,
            "sta_password"@,
            cfg.sta_password->0@,
        ),
        s is Ok && bare == (WifiConfig { ap_ssid: None, ..cfg }) ==> says_why(
            r->Err_0@,
            "ap_ssid"@,
            cfg.ap_ssid->0@,
        ),
        s is Ok && bare == (WifiConfig { ap_password: None, ..cfg }) ==> says_why(
            r->Err_0@,
            "ap_password"@,
            cfg.ap_password->0@,
        ),
        s is Ok && bare == (WifiConfig { ap_leases: None, ..cfg }) ==> r->Err_0@ == "ap_leases is "@
            + text::decimal(cfg.ap_leases->0 as nat) + "; firmware accepts 1-8"@,
        s is Ok && bare == (WifiConfig { peer_mac: None, ..cfg }) ==> r->Err_0@ == (if (
        cfg.peer_mac->0@.contains(':') || cfg.peer_mac->0@.contains('-')) {
            "Invalid peer_mac '"@ + cfg.peer_mac->0@ + "' (use aa:bb:cc:dd:ee:ff)"@
        } else {
            "peer_mac must use ':' or '-' separators (aa:bb:cc:dd:ee:ff)"@
        }),
        s is Ok && bare == (WifiConfig { ht40: None, ..cfg }) ==> r->Err_0@ == "Invalid ht40 '"@
            + cfg.ht40->0@ + "' (use above, below, none, or off)"@,
{
    let all = core_modes() + text::names(modes@);
    if core_modes().contains(cfg.mode@) {
        let i = choose|i: int| 0 <= i < core_modes().len() && core_modes()[i] == cfg.mode@;
        assert(all[i] == cfg.mode@);
    }
    if text::names(modes@).contains(cfg.mode@) {
        let names = text::names(modes@);
        let i = choose|i: int| 0 <= i < names.len() && names[i] == cfg.mode@;
        assert(all[core_modes().len() + i] == cfg.mode@);
    }
}

/// The first field that is wrong decides: a request that is refused stays refused with the
/// same message when fields behind it are added.
pub proof fn law_first_wrong_field_decides(
    cfg: WifiConfig,
    bare: WifiConfig,
    chip: Option<&str>,
    modes: &'static [&'static str],
    r: Result<String, String>,
    s: Result<String, String>,
)
    requires
        call_ensures(WifiConfig::cli_command_with_modes, (&cfg, chip, modes), r),
        call_ensures(WifiConfig::cli_command_with_modes, (&bare, chip, modes), s),
        s is Err,
        ({
            let w7 = WifiConfig { ht40: None, ..cfg };
            let w6 = WifiConfig { peer_mac: None, ..w7 };
            let w5 = WifiConfig { ap_leases: None, ..w6 };
            let w4 = WifiConfig { ap_password: None, ..w5 };
            let w3 = WifiConfig { ap_ssid: None, ..w4 };
            let w2 = WifiConfig { sta_password: None, ..w3 };
            let w1 = WifiConfig { sta_ssid: None, ..w2 };
            bare == w1 || bare == w2 || bare == w3 || bare == w4 || bare == w5 || bare == w6 || bare
                == w7
        }),
    ensures
        r is Err,
        r->Err_0@ == s->Err_0@,
{
}

/// The profile adds its modes and nothing else: the command is the one for the modes that it
/// answers with.
pub proof fn law_profile_adds_modes<P: CsiProfile + ?Sized>(
    cfg: WifiConfig,
    chip: Option<&str>,
    profile: &P,
    modes: &'static [&'static str],
    r: Result<String, String>,
    s: Result<String, String>,
)
    requires
        call_ensures(WifiConfig::to_cli_command::<P>, (&cfg, chip, profile), r),
        call_ensures(WifiConfig::cli_command_with_modes, (&cfg, chip, modes), s),
    ensures
        exists|added: &'static [&'static str]| #[trigger]
            call_ensures(P::extra_wifi_modes, (profile,), added) && (added@ == modes@
                ==> text::outcome(r) == text::outcome(s)),
        r is Ok && s is Ok ==> r->Ok_0@ == s->Ok_0@,
{
}

/// A credential as it is sent: in single quotes where it holds none, else in double ones.
pub open spec fn in_quotes(value: Option<String>) -> Option<Seq<char>> {
    match value {
        Some(v) => if v@.contains('\'') {
            Some(seq!['"'] + v@ + seq!['"'])
        } else {
            Some(seq!['\''] + v@ + seq!['\''])
        },
        None => None,
    }
}

/// A number as it is sent.
pub open spec fn in_digits(value: Option<u8>) -> Option<Seq<char>> {
    match value {
        Some(n) => Some(text::decimal(n as nat)),
        None => None,
    }
}

/// Read back flag by flag, the line of an accepted request is the request: the mode, each field
/// that is given under the name of its own flag and once, and the unnamed parameters. Spaces
/// and quotes in a credential do not matter; the modes of the profile and the unnamed
/// parameters are sent as they are, and must have none.
pub proof fn law_line_is_read_back(
    cfg: WifiConfig,
    chip: Option<&str>,
    modes: &'static [&'static str],
    r: Result<String, String>,
    channel: u8,
)
    requires
        call_ensures(WifiConfig::cli_command_with_modes, (&cfg, chip, modes), r),
        call_ensures(default_wifi_channel, (chip,), channel),
        r is Ok,
        cli::is_plain(cfg.mode@),
        cli::are_plain(cfg.extra.listing()),
    ensures
        cli::flags_of(r->Ok_0@) == cli::one("mode"@, Some(cfg.mode@)) + cli::one(
            "sta-ssid"@,
            in_quotes(cfg.sta_ssid),
        ) + cli::one("sta-password"@, in_quotes(cfg.sta_password)) + cli::one(
            "ap-ssid"@,
            in_quotes(cfg.ap_ssid),
        ) + cli::one("ap-password"@, in_quotes(cfg.ap_password)) + cli::one(
            "ap-dhcp"@,
            cli::switch(cfg.ap_dhcp),
        ) + cli::one("ap-leases"@, in_digits(cfg.ap_leases)) + cli::one(
            "ap-burst"@,
            cli::switch(cfg.ap_burst),
        ) + cli::one(
            "set-channel"@,
            if cfg.channel is Some {
                in_digits(cfg.channel)
            } else if cfg.mode@ == "station"@ {
                None
            } else {
                in_digits(Some(channel))
            },
        ) + cli::one("peer-mac"@, text::opt(cfg.peer_mac)) + cli::one("ht40"@, text::opt(cfg.ht40))
            + cli::written(cfg.extra.listing()),
{
    let c = device::chip_name(chip);
    lemma_names_are_plain();
    let l0 = lemma_mode_is_read(cfg.mode@);
    lemma_credential_is_read("sta-ssid"@, "sta_ssid"@, cfg.sta_ssid);
    cli::lemma_one_is_read(
        l0,
        "sta-ssid"@,
        in_quotes(cfg.sta_ssid),
        credential_flag("sta-ssid"@, cfg.sta_ssid),
    );
    let l1 = l0 + credential_flag("sta-ssid"@, cfg.sta_ssid);
    lemma_credential_is_read("sta-password"@, "sta_password"@, cfg.sta_password);
    cli::lemma_one_is_read(
        l1,
        "sta-password"@,
        in_quotes(cfg.sta_password),
        credential_flag("sta-password"@, cfg.sta_password),
    );
    let l2 = l1 + credential_flag("sta-password"@, cfg.sta_password);
    lemma_credential_is_read("ap-ssid"@, "ap_ssid"@, cfg.ap_ssid);
    cli::lemma_one_is_read(
        l2,
        "ap-ssid"@,
        in_quotes(cfg.ap_ssid),
        credential_flag("ap-ssid"@, cfg.ap_ssid),
    );
    let l3 = l2 + credential_flag("ap-ssid"@, cfg.ap_ssid);
    lemma_credential_is_read("ap-password"@, "ap_password"@, cfg.ap_password);
    cli::lemma_one_is_read(
        l3,
        "ap-password"@,
        in_quotes(cfg.ap_password),
        credential_flag("ap-password"@, cfg.ap_password),
    );
    let l4 = l3 + credential_flag("ap-password"@, cfg.ap_password);
    cli::lemma_one_is_read(
        l4,
        "ap-dhcp"@,
        cli::switch(cfg.ap_dhcp),
        flags::switch_flag("ap-dhcp"@, cfg.ap_dhcp),
    );
    let l5 = l4 + flags::switch_flag("ap-dhcp"@, cfg.ap_dhcp);
    lemma_digits_are_plain(cfg.ap_leases);
    cli::lemma_one_is_read(
        l5,
        "ap-leases"@,
        in_digits(cfg.ap_leases),
        number_flag("ap-leases"@, cfg.ap_leases),
    );
    let l6 = l5 + number_flag("ap-leases"@, cfg.ap_leases);
    cli::lemma_one_is_read(
        l6,
        "ap-burst"@,
        cli::switch(cfg.ap_burst),
        flags::switch_flag("ap-burst"@, cfg.ap_burst),
    );
    let l7 = l6 + flags::switch_flag("ap-burst"@, cfg.ap_burst);
    lemma_digits_are_plain(cfg.sent_channel(c));
    cli::lemma_one_is_read(
        l7,
        "set-channel"@,
        in_digits(cfg.sent_channel(c)),
        number_flag("set-channel"@, cfg.sent_channel(c)),
    );
    let l8 = l7 + number_flag("set-channel"@, cfg.sent_channel(c));
    if let Some(mac) = cfg.peer_mac {
        lemma_mac_is_plain(mac@);
    }
    cli::lemma_one_is_read(
        l8,
        "peer-mac"@,
        text::opt(cfg.peer_mac),
        text_flag("peer-mac"@, cfg.peer_mac),
    );
    let l9 = l8 + text_flag("peer-mac"@, cfg.peer_mac);
    cli::lemma_one_is_read(
        l9,
        "ht40"@,
        text::opt(cfg.ht40),
        text_flag("ht40"@, cfg.ht40),
    );
    let l10 = l9 + text_flag("ht40"@, cfg.ht40);
    cli::lemma_extras_are_read(l10, cfg.extra.listing());
    assert(r->Ok_0@ == l10 + flags::flags(cfg.extra.listing()));
}

/// The names of the flags, and the words among the values, are plain.
proof fn lemma_names_are_plain()
    ensures
        cli::is_plain("sta-ssid"@) && !"sta-ssid"@.contains('='),
        cli::is_plain("sta-password"@) && !"sta-password"@.contains('='),
        cli::is_plain("ap-ssid"@) && !"ap-ssid"@.contains('='),
        cli::is_plain("ap-password"@) && !"ap-password"@.contains('='),
        cli::is_plain("ap-dhcp"@) && !"ap-dhcp"@.contains('='),
        cli::is_plain("ap-leases"@) && !"ap-leases"@.contains('='),
        cli::is_plain("ap-burst"@) && !"ap-burst"@.contains('='),
        cli::is_plain("set-channel"@) && !"set-channel"@.contains('='),
        cli::is_plain("peer-mac"@) && !"peer-mac"@.contains('='),
        cli::is_plain("ht40"@) && !"ht40"@.contains('='),
        cli::is_plain("on"@),
        cli::is_plain("off"@),
        cli::is_plain("above"@),
        cli::is_plain("below"@),
        cli::is_plain("none"@),
{
    reveal_strlit("sta-ssid");
    reveal_strlit("sta-password");
    reveal_strlit("ap-ssid");
    reveal_strlit("ap-password");
    reveal_strlit("ap-dhcp");
    reveal_strlit("ap-leases");
    reveal_strlit("ap-burst");
    reveal_strlit("set-channel");
    reveal_strlit("peer-mac");
    reveal_strlit("ht40");
    reveal_strlit("on");
    reveal_strlit("off");
    reveal_strlit("above");
    reveal_strlit("below");
    reveal_strlit("none");
}

proof fn lemma_mode_is_read(mode: Seq<char>) -> (line: Seq<char>)
    requires
        cli::is_plain(mode),
    ensures
        line == "set-wifi --mode="@ + mode,
        cli::read(line).quote is None,
        cli::flags_of(line) == cli::one("mode"@, Some(mode)),
{
    reveal_strlit("set-wifi --mode=");
    reveal_strlit("set-wifi");
    reveal_strlit(" --");
    reveal_strlit("=");
    reveal_strlit("mode");
    let none = Seq::<char>::empty();
    let command = "set-wifi"@;
    cli::lemma_read_plain(none, command);
    assert(none + command =~= command);
    assert(cli::read(command).words =~= seq![command]);
    assert(cli::flags_of(command) =~= Seq::empty()) by {
        text::law_position_is_first(command, '=', 0);
        reveal_with_fuel(cli::flags_among, 2);
        assert(cli::read(command).words.drop_last() =~= Seq::empty());
        assert(command[0] != '-');
    }
    cli::lemma_flag_is_read(command, "mode"@, mode);
    let line = command + flags::flag("mode"@, mode);
    assert(line =~= "set-wifi --mode="@ + mode);
    assert(cli::flags_of(line) =~= cli::one("mode"@, Some(mode)));
    line
}

proof fn lemma_credential_is_read(name: Seq<char>, field: Seq<char>, value: Option<String>)
    requires
        credential_error(field, value) is None,
    ensures
        credential_flag(name, value) == (match in_quotes(value) {
            Some(v) => flags::flag(name, v),
            None => Seq::empty(),
        }),
        in_quotes(value) is Some ==> cli::is_quoted(in_quotes(value)->0),
{
    if let Some(v) = value {
        let q = in_quotes(value)->0;
        assert(q == quoted(v@)->Ok_0);
        assert(q.subrange(1, q.len() - 1) =~= v@);
    }
}

proof fn lemma_digits_are_plain(value: Option<u8>)
    ensures
        value is Some ==> cli::is_plain(text::decimal(value->0 as nat)),
{
    if let Some(n) = value {
        cli::lemma_decimal_is_plain(n as nat);
    }
}

proof fn lemma_mac_is_plain(mac: Seq<char>)
    requires
        peer_mac_error(mac) is None,
    ensures
        cli::is_plain(mac),
{
    lemma_mac_form(mac);
    assert forall|i: int| 0 <= i < mac.len() implies (#[trigger] mac[i]) != ' ' && mac[i] != '\''
        && mac[i] != '"' by {
        if i % 3 == 2 {
            assert(i == 2 || i == 5 || i == 8 || i == 11 || i == 14);
        }
    }
}

/// An argument is quoted exactly if it has no line break and not both quotes: it then stands
/// between single quotes, or between double ones where it holds a single one. What cannot be
/// quoted is refused with the reason.
pub proof fn law_arguments_are_quoted(s: &str, r: Result<String, String>)
    requires
        call_ensures(quote_cli_arg, (s,), r),
    ensures
        s@.contains('\n') || s@.contains('\r') ==> r is Err && r->Err_0@
            == "value cannot contain newline characters"@,
        !s@.contains('\n') && !s@.contains('\r') ==> {
            if !s@.contains('\'') {
                r is Ok && r->Ok_0@ == seq!['\''] + s@ + seq!['\'']
            } else if !s@.contains('"') {
                r is Ok && r->Ok_0@ == seq!['"'] + s@ + seq!['"']
            } else {
                r is Err && r->Err_0@
                    == "value cannot contain both single and double quote characters"@
            }
        },
{
}

} // verus!
