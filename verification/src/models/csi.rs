//! `set-csi`: CSI acquisition flags and presets.
use crate::cli;
use crate::flags;
use crate::flags::{push_extras, push_flag, push_on_off, FlagValue, FlagValueView};
use crate::models::device;
use crate::models::device::{CsiConfigSection, DeviceConfig};
use crate::profile::CsiProfile;
use crate::str_map;
use crate::str_map::StrMap;
use crate::text;
use vstd::prelude::*;
use vstd::string::*;

verus! {

/// Body of a CSI configuration request. The classic (ESP32 / C3 / S3) and the
/// extended (ESP32-C5 / C6) parameters are merged; the firmware ignores flags that
/// are not part of its variant.
#[derive(Debug)]
pub struct CsiConfig {
    /// `--lltf=on|off`
    pub lltf: Option<bool>,
    /// `--htltf=on|off`
    pub htltf: Option<bool>,
    /// `--stbc-htltf=on|off`
    pub stbc_htltf: Option<bool>,
    /// `--ltf-merge=on|off`
    pub ltf_merge: Option<bool>,
    /// `--csi=on|off`: master acquisition switch.
    pub csi: Option<bool>,
    /// `--csi-legacy=on|off`
    pub csi_legacy: Option<bool>,
    /// `--csi-ht20=on|off`
    pub csi_ht20: Option<bool>,
    /// `--csi-ht40=on|off`
    pub csi_ht40: Option<bool>,
    /// `--dump-ack=on|off`
    pub dump_ack: Option<bool>,
    /// `--csi-force-lltf=on|off` (ESP32-C5 only).
    pub csi_force_lltf: Option<bool>,
    /// `--csi-vht=on|off` (ESP32-C5 only).
    pub csi_vht: Option<bool>,
    /// `--val-scale-cfg=`: the firmware takes 0 to 3, and defaults to 2.
    pub val_scale_cfg: Option<u32>,
    /// Flags that the core does not name, and the `preset` key. Each entry other
    /// than `preset` is re-emitted as `--{key}={value}`.
    pub extra: StrMap<FlagValue>,
}

/// A field that a request may overwrite: what is asked for, else what stood there.
pub open spec fn kept<T>(asked: Option<T>, before: Option<T>) -> Option<T> {
    match asked {
        Some(v) => Some(v),
        None => before,
    }
}

/// A switch as the number in which the extended sections cache it.
pub open spec fn as_number(value: Option<bool>) -> Option<u32> {
    match value {
        Some(v) => Some(
            if v {
                1u32
            } else {
                0u32
            },
        ),
        None => None,
    }
}

/// Overwrite `slot` where a value is given.
pub fn apply_bool_cache(slot: &mut Option<bool>, value: Option<bool>)
    ensures
        *final(slot) == kept(value, *old(slot)),
{
    if let Some(v) = value {
        *slot = Some(v);
    }
}

/// Overwrite `slot` with 1 or 0 where a value is given.
pub fn apply_u32_cache(slot: &mut Option<u32>, value: Option<bool>)
    ensures
        *final(slot) == kept(as_number(value), *old(slot)),
{
    if let Some(v) = value {
        *slot = Some(
            if v {
                1
            } else {
                0
            },
        );
    }
}

impl CsiConfig {
    /// The `preset` entry, if there is one.
    pub open spec fn preset(&self) -> Option<FlagValueView> {
        if self.extra@.dom().contains("preset"@) {
            Some(self.extra@["preset"@]@)
        } else {
            None
        }
    }

    /// The preset name that only a profile can resolve to a command line.
    pub open spec fn foreign_preset(&self) -> Option<Seq<char>> {
        match self.preset() {
            Some(FlagValueView::Text(name)) => if name != "default"@ {
                Some(name)
            } else {
                None
            },
            _ => None,
        }
    }

    /// The command line of the flags, without a preset.
    pub open spec fn flag_line(&self) -> Seq<char> {
        "set-csi"@ + flags::switch_flag("lltf"@, self.lltf) + flags::switch_flag(
            "htltf"@,
            self.htltf,
        ) + flags::switch_flag("stbc-htltf"@, self.stbc_htltf) + flags::switch_flag(
            "ltf-merge"@,
            self.ltf_merge,
        ) + flags::switch_flag("csi"@, self.csi) + flags::switch_flag("csi-legacy"@, self.csi_legacy)
            + flags::switch_flag("csi-ht20"@, self.csi_ht20) + flags::switch_flag(
            "csi-ht40"@,
            self.csi_ht40,
        ) + flags::switch_flag("dump-ack"@, self.dump_ack) + flags::switch_flag(
            "csi-force-lltf"@,
            self.csi_force_lltf,
        ) + flags::switch_flag("csi-vht"@, self.csi_vht) + scale_flag(self.val_scale_cfg)
            + flags::flags(self.extra.listing())
    }

    /// What the request comes to, where `preset_line` is the profile's command line
    /// for the preset that the request names.
    pub open spec fn command(&self, preset_line: Option<Seq<char>>) -> Result<Seq<char>, Seq<char>> {
        match self.preset() {
            None => Ok(self.flag_line()),
            Some(FlagValueView::Text(name)) => if name == "default"@ {
                Ok("set-csi --preset=default"@)
            } else {
                match preset_line {
                    Some(line) => Ok(line),
                    None => Err("unknown preset '"@ + name + "'; expected default"@),
                }
            },
            Some(_) => Err("preset must be a string"@),
        }
    }

    /// Emit the `set-csi …` line.
    ///
    /// A `preset` replaces all other flags. The core knows only `default`; any other
    /// name is resolved by the profile.
    pub fn to_cli_command<P: CsiProfile + ?Sized>(&self, profile: &P) -> (r: Result<String, String>)
        ensures
            match self.foreign_preset() {
                Some(name) => exists|arg: &str, line: Option<String>|
                    arg@ == name && #[trigger] call_ensures(P::preset_cli, (profile, arg), line)
                        && text::outcome(r) == self.command(text::opt(line)),
                None => text::outcome(r) == self.command(None),
            },
    {
        let mut preset_line: Option<String> = None;
        let mut asked: Option<&str> = None;
        if let Some(preset) = self.extra.get("preset") {
            if let Some(name) = preset.as_str() {
                if !text::str_eq(name, "default") {
                    preset_line = profile.preset_cli(name);
                    asked = Some(name);
                }
            }
        }
        let ghost line = preset_line;
        let r = self.cli_command_with_preset(preset_line);
        proof {
            if let Some(name) = asked {
                assert(call_ensures(P::preset_cli, (profile, name), line));
            }
        }
        r
    }

    /// The same, with the profile's command line for the preset at hand.
    pub fn cli_command_with_preset(&self, preset_line: Option<String>) -> (r: Result<String, String>)
        ensures
            text::outcome(r) == self.command(text::opt(preset_line)),
    {
        if let Some(preset) = self.extra.get("preset") {
            return match preset.as_str() {
                None => Err("preset must be a string".to_string()),
                Some(name) => if text::str_eq(name, "default") {
                    Ok("set-csi --preset=default".to_string())
                } else {
                    match preset_line {
                        Some(line) => Ok(line),
                        None => {
                            let mut message = "unknown preset '".to_string();
                            message.append(name);
                            message.append("'; expected default");
                            Err(message)
                        },
                    }
                },
            };
        }
        let mut cmd = "set-csi".to_string();
        push_on_off(&mut cmd, "lltf", self.lltf);
        push_on_off(&mut cmd, "htltf", self.htltf);
        push_on_off(&mut cmd, "stbc-htltf", self.stbc_htltf);
        push_on_off(&mut cmd, "ltf-merge", self.ltf_merge);
        push_on_off(&mut cmd, "csi", self.csi);
        push_on_off(&mut cmd, "csi-legacy", self.csi_legacy);
        push_on_off(&mut cmd, "csi-ht20", self.csi_ht20);
        push_on_off(&mut cmd, "csi-ht40", self.csi_ht40);
        push_on_off(&mut cmd, "dump-ack", self.dump_ack);
        push_on_off(&mut cmd, "csi-force-lltf", self.csi_force_lltf);
        push_on_off(&mut cmd, "csi-vht", self.csi_vht);
        push_scale(&mut cmd, self.val_scale_cfg);
        push_extras(&mut cmd, &self.extra);
        Ok(cmd)
    }

    /// How the flags of the request change the cached section: a flag that is not
    /// given keeps its cached value, the read-only fields stay, and every unnamed
    /// flag but `preset` is carried over.
    pub open spec fn updates(&self, before: CsiConfigSection, after: CsiConfigSection) -> bool {
        &&& after.lltf_enabled == kept(self.lltf, before.lltf_enabled)
        &&& after.htltf_enabled == kept(self.htltf, before.htltf_enabled)
        &&& after.stbc_htltf_enabled == kept(self.stbc_htltf, before.stbc_htltf_enabled)
        &&& after.ltf_merge_enabled == kept(self.ltf_merge, before.ltf_merge_enabled)
        &&& after.channel_filter_enabled == before.channel_filter_enabled
        &&& after.manual_scale == before.manual_scale
        &&& after.shift == before.shift
        &&& after.dump_ack_enabled == kept(self.dump_ack, before.dump_ack_enabled)
        &&& after.acquire_csi == kept(as_number(self.csi), before.acquire_csi)
        &&& after.acquire_csi_legacy == kept(as_number(self.csi_legacy), before.acquire_csi_legacy)
        &&& after.acquire_csi_ht20 == kept(as_number(self.csi_ht20), before.acquire_csi_ht20)
        &&& after.acquire_csi_ht40 == kept(as_number(self.csi_ht40), before.acquire_csi_ht40)
        &&& after.val_scale_cfg == kept(self.val_scale_cfg, before.val_scale_cfg)
        &&& after.acquire_csi_force_lltf == kept(self.csi_force_lltf, before.acquire_csi_force_lltf)
        &&& after.acquire_csi_vht == kept(self.csi_vht, before.acquire_csi_vht)
        &&& after.extra@ == before.extra@.union_prefer_right(self.extra@.remove("preset"@))
    }

    /// Apply the request to the cached section.
    ///
    /// A preset given by name replaces the section by the profile's, or by the
    /// firmware defaults where the profile does not know it.
    pub fn apply_to_cache<P: CsiProfile + ?Sized>(&self, cfg: &mut CsiConfigSection, profile: &P)
        ensures
            match self.preset() {
                Some(FlagValueView::Text(name)) => exists|
                    arg: &str,
                    section: Option<CsiConfigSection>,
                |
                    arg@ == name && #[trigger] call_ensures(
                        P::resolve_preset,
                        (profile, arg),
                        section,
                    ) && replaced_by(section, *final(cfg)),
                _ => self.updates(*old(cfg), *final(cfg)),
            },
    {
        if let Some(preset) = self.extra.get("preset") {
            if let Some(name) = preset.as_str() {
                let section = profile.resolve_preset(name);
                let ghost given = section;
                apply_preset(cfg, section);
                assert(call_ensures(P::resolve_preset, (profile, name), given));
                return;
            }
        }
        self.apply_flags(cfg);
    }

    /// Apply the flags of the request, whatever preset it names.
    pub fn apply_flags(&self, cfg: &mut CsiConfigSection)
        ensures
            self.updates(*old(cfg), *final(cfg)),
    {
        apply_bool_cache(&mut cfg.lltf_enabled, self.lltf);
        apply_bool_cache(&mut cfg.htltf_enabled, self.htltf);
        apply_bool_cache(&mut cfg.stbc_htltf_enabled, self.stbc_htltf);
        apply_bool_cache(&mut cfg.ltf_merge_enabled, self.ltf_merge);
        apply_u32_cache(&mut cfg.acquire_csi, self.csi);
        apply_u32_cache(&mut cfg.acquire_csi_legacy, self.csi_legacy);
        apply_u32_cache(&mut cfg.acquire_csi_ht20, self.csi_ht20);
        apply_u32_cache(&mut cfg.acquire_csi_ht40, self.csi_ht40);
        apply_bool_cache(&mut cfg.dump_ack_enabled, self.dump_ack);
        apply_bool_cache(&mut cfg.acquire_csi_force_lltf, self.csi_force_lltf);
        apply_bool_cache(&mut cfg.acquire_csi_vht, self.csi_vht);
        if let Some(scale) = self.val_scale_cfg {
            cfg.val_scale_cfg = Some(scale);
        }
        carry_extras(&self.extra, &mut cfg.extra);
    }
}

/// What a preset leaves in the cache: the profile's section, else the firmware
/// defaults.
pub open spec fn replaced_by(section: Option<CsiConfigSection>, after: CsiConfigSection) -> bool {
    match section {
        Some(s) => after == s,
        None => after.is_firmware_default(),
    }
}

/// Replace the cached section by the one a preset stands for.
pub fn apply_preset(cfg: &mut CsiConfigSection, section: Option<CsiConfigSection>)
    ensures
        replaced_by(section, *final(cfg)),
{
    *cfg = match section {
        Some(s) => s,
        None => DeviceConfig::firmware_defaults().csi_config,
    };
}

/// Carry every unnamed flag but `preset` into the cache.
fn carry_extras(from: &StrMap<FlagValue>, into: &mut StrMap<FlagValue>)
    ensures
        final(into)@ == old(into)@.union_prefer_right(from@.remove("preset"@)),
{
    proof {
        use_type_invariant(from);
    }
    let ghost list = from.listing();
    let ghost base = into@;
    let mut i: usize = 0;
    assert(list.take(0) =~= Seq::empty());
    assert(into@ =~= base.union_prefer_right(str_map::map_of(list.take(0)).remove("preset"@)));
    while i < from.len()
        invariant
            list == from.listing(),
            str_map::keys_ascend(list),
            i <= list.len(),
            into@ == base.union_prefer_right(
                str_map::map_of(list.take(i as int)).remove("preset"@),
            ),
        decreases list.len() - i,
    {
        let ghost before = str_map::map_of(list.take(i as int));
        let ghost after = str_map::map_of(list.take(i + 1));
        proof {
            str_map::lemma_prefix(list, i as int);
        }
        let key = from.key(i);
        if !text::str_eq(key.as_str(), "preset") {
            let ghost cached = into@;
            into.insert(key.clone(), from.value(i).clone());
            assert(into@ == cached.insert(list[i as int].0, list[i as int].1));
            assert(into@ =~= base.union_prefer_right(after.remove("preset"@)));
        } else {
            assert(after.remove("preset"@) =~= before.remove("preset"@));
        }
        i += 1;
    }
    assert(list.take(list.len() as int) =~= list);
}

/// The flag of the scaling shift.
pub open spec fn scale_flag(value: Option<u32>) -> Seq<char> {
    match value {
        Some(v) => flags::flag("val-scale-cfg"@, text::decimal(v as nat)),
        None => Seq::empty(),
    }
}

fn push_scale(cmd: &mut String, value: Option<u32>)
    ensures
        final(cmd)@ == old(cmd)@ + scale_flag(value),
{
    match value {
        Some(v) => {
            let mut digits = String::new();
            text::push_decimal(&mut digits, v as u64);
            assert(digits@ =~= text::decimal(v as nat));
            push_flag(cmd, "val-scale-cfg", digits.as_str());
        },
        None => {
            assert(cmd@ =~= old(cmd)@ + scale_flag(value));
        },
    }
}

// ─── Laws ─────────────────────────────────────────────────────────────────

/// A preset stands alone: two requests that name the same one come to the same command,
/// whatever their other flags are.
pub proof fn law_preset_replaces_flags(a: CsiConfig, b: CsiConfig, preset_line: Option<Seq<char>>)
    requires
        a.preset() is Some,
        a.preset() == b.preset(),
    ensures
        a.command(preset_line) == b.command(preset_line),
{
}

/// A slot gives back what was asked for; where nothing was, it keeps what it held.
pub open spec fn reads_back<T>(asked: Option<T>, before: Option<T>, after: Option<T>) -> bool {
    &&& asked is Some ==> after == asked
    &&& asked is None ==> after == before
}

/// The cache gives back what was set: a flag that a request names is cached with its
/// value, every unnamed flag verbatim; what the request does not name stays, the
/// read-only fields stay in any case, and a preset is never cached as a flag.
pub proof fn law_cache_reads_back(
    cfg: CsiConfig,
    before: CsiConfigSection,
    after: CsiConfigSection,
    key: Seq<char>,
)
    requires
        cfg.updates(before, after),
    ensures
        reads_back(cfg.lltf, before.lltf_enabled, after.lltf_enabled),
        reads_back(cfg.htltf, before.htltf_enabled, after.htltf_enabled),
        reads_back(cfg.stbc_htltf, before.stbc_htltf_enabled, after.stbc_htltf_enabled),
        reads_back(cfg.ltf_merge, before.ltf_merge_enabled, after.ltf_merge_enabled),
        reads_back(cfg.dump_ack, before.dump_ack_enabled, after.dump_ack_enabled),
        reads_back(cfg.csi_force_lltf, before.acquire_csi_force_lltf, after.acquire_csi_force_lltf),
        reads_back(cfg.csi_vht, before.acquire_csi_vht, after.acquire_csi_vht),
        reads_back(cfg.val_scale_cfg, before.val_scale_cfg, after.val_scale_cfg),
        reads_back(as_number(cfg.csi), before.acquire_csi, after.acquire_csi),
        reads_back(
            as_number(cfg.csi_legacy),
            before.acquire_csi_legacy,
            after.acquire_csi_legacy,
        ),
        reads_back(as_number(cfg.csi_ht20), before.acquire_csi_ht20, after.acquire_csi_ht20),
        reads_back(as_number(cfg.csi_ht40), before.acquire_csi_ht40, after.acquire_csi_ht40),
        after.channel_filter_enabled == before.channel_filter_enabled,
        after.manual_scale == before.manual_scale,
        after.shift == before.shift,
        key != "preset"@ && cfg.extra@.dom().contains(key) ==> after.extra@.dom().contains(key)
            && after.extra@[key] == cfg.extra@[key],
        key == "preset"@ || !cfg.extra@.dom().contains(key) ==> after.extra@.dom().contains(key)
            == before.extra@.dom().contains(key) && (before.extra@.dom().contains(key)
            ==> after.extra@[key] == before.extra@[key]),
        !before.extra@.dom().contains("preset"@) ==> !after.extra@.dom().contains("preset"@),
{
}

/// To apply a request twice is to apply it once.
pub proof fn law_applying_is_idempotent(
    cfg: CsiConfig,
    before: CsiConfigSection,
    once: CsiConfigSection,
    twice: CsiConfigSection,
)
    requires
        cfg.updates(before, once),
        cfg.updates(once, twice),
    ensures
        cfg.updates(before, twice),
        twice.extra@ == once.extra@,
        twice.lltf_enabled == once.lltf_enabled,
        twice.htltf_enabled == once.htltf_enabled,
        twice.stbc_htltf_enabled == once.stbc_htltf_enabled,
        twice.ltf_merge_enabled == once.ltf_merge_enabled,
        twice.dump_ack_enabled == once.dump_ack_enabled,
        twice.acquire_csi == once.acquire_csi,
        twice.acquire_csi_legacy == once.acquire_csi_legacy,
        twice.acquire_csi_ht20 == once.acquire_csi_ht20,
        twice.acquire_csi_ht40 == once.acquire_csi_ht40,
        twice.val_scale_cfg == once.val_scale_cfg,
        twice.acquire_csi_force_lltf == once.acquire_csi_force_lltf,
        twice.acquire_csi_vht == once.acquire_csi_vht,
{
    assert(twice.extra@ =~= once.extra@);
}

/// One accepted request is one command: the line has no line break, as long as the
/// profile's own lines and the unnamed parameters have none.
pub proof fn law_accepted_request_is_one_line(cfg: CsiConfig, preset_line: Option<Seq<char>>)
    requires
        cfg.command(preset_line) is Ok,
        preset_line is Some ==> text::one_line(preset_line->0),
        forall|i: int|
            0 <= i < cfg.extra.listing().len() ==> text::one_line(
                (#[trigger] cfg.extra.listing()[i]).0,
            ) && text::one_line(flags::rendered(cfg.extra.listing()[i].1@)),
    ensures
        text::one_line(cfg.command(preset_line)->Ok_0),
{
    lemma_one_line_literals();
    text::lemma_one_line_empty();
    let l0 = "set-csi"@;
    let l1 = lemma_one_line_switched(l0, "lltf"@, cfg.lltf);
    let l2 = lemma_one_line_switched(l1, "htltf"@, cfg.htltf);
    let l3 = lemma_one_line_switched(l2, "stbc-htltf"@, cfg.stbc_htltf);
    let l4 = lemma_one_line_switched(l3, "ltf-merge"@, cfg.ltf_merge);
    let l5 = lemma_one_line_switched(l4, "csi"@, cfg.csi);
    let l6 = lemma_one_line_switched(l5, "csi-legacy"@, cfg.csi_legacy);
    let l7 = lemma_one_line_switched(l6, "csi-ht20"@, cfg.csi_ht20);
    let l8 = lemma_one_line_switched(l7, "csi-ht40"@, cfg.csi_ht40);
    let l9 = lemma_one_line_switched(l8, "dump-ack"@, cfg.dump_ack);
    let l10 = lemma_one_line_switched(l9, "csi-force-lltf"@, cfg.csi_force_lltf);
    let l11 = lemma_one_line_switched(l10, "csi-vht"@, cfg.csi_vht);
    if let Some(v) = cfg.val_scale_cfg {
        text::lemma_one_line_decimal(v as nat);
        flags::lemma_one_line_flag("val-scale-cfg"@, text::decimal(v as nat));
    }
    text::lemma_one_line_add(l11, scale_flag(cfg.val_scale_cfg));
    flags::lemma_one_line_extras(cfg.extra.listing());
    text::lemma_one_line_add(
        l11 + scale_flag(cfg.val_scale_cfg),
        flags::flags(cfg.extra.listing()),
    );
}

/// A line with one more switch.
proof fn lemma_one_line_switched(line: Seq<char>, name: Seq<char>, value: Option<bool>) -> (longer:
    Seq<char>)
    requires
        text::one_line(line),
        text::one_line(name),
    ensures
        longer == line + flags::switch_flag(name, value),
        text::one_line(longer),
{
    flags::lemma_one_line_switch(name, value);
    text::lemma_one_line_add(line, flags::switch_flag(name, value));
    line + flags::switch_flag(name, value)
}

/// The fixed parts of a `set-csi` line have no line break.
proof fn lemma_one_line_literals()
    ensures
        text::one_line("set-csi"@),
        text::one_line("set-csi --preset=default"@),
        text::one_line("lltf"@),
        text::one_line("htltf"@),
        text::one_line("stbc-htltf"@),
        text::one_line("ltf-merge"@),
        text::one_line("csi"@),
        text::one_line("csi-legacy"@),
        text::one_line("csi-ht20"@),
        text::one_line("csi-ht40"@),
        text::one_line("dump-ack"@),
        text::one_line("csi-force-lltf"@),
        text::one_line("csi-vht"@),
        text::one_line("val-scale-cfg"@),
{
    reveal(text::one_line);
    reveal_strlit("set-csi");
    reveal_strlit("set-csi --preset=default");
    reveal_strlit("lltf");
    reveal_strlit("htltf");
    reveal_strlit("stbc-htltf");
    reveal_strlit("ltf-merge");
    reveal_strlit("csi");
    reveal_strlit("csi-legacy");
    reveal_strlit("csi-ht20");
    reveal_strlit("csi-ht40");
    reveal_strlit("dump-ack");
    reveal_strlit("csi-force-lltf");
    reveal_strlit("csi-vht");
    reveal_strlit("val-scale-cfg");
}

/// The pieces of a line, in order.
#[verifier::opaque]
spec fn pieces(cfg: CsiConfig) -> Seq<Seq<char>> {
    Seq::empty().push("set-csi"@)
        .push(flags::switch_flag("lltf"@, cfg.lltf))
        .push(flags::switch_flag("htltf"@, cfg.htltf))
        .push(flags::switch_flag("stbc-htltf"@, cfg.stbc_htltf))
        .push(flags::switch_flag("ltf-merge"@, cfg.ltf_merge))
        .push(flags::switch_flag("csi"@, cfg.csi))
        .push(flags::switch_flag("csi-legacy"@, cfg.csi_legacy))
        .push(flags::switch_flag("csi-ht20"@, cfg.csi_ht20))
        .push(flags::switch_flag("csi-ht40"@, cfg.csi_ht40))
        .push(flags::switch_flag("dump-ack"@, cfg.dump_ack))
        .push(flags::switch_flag("csi-force-lltf"@, cfg.csi_force_lltf))
        .push(flags::switch_flag("csi-vht"@, cfg.csi_vht))
        .push(scale_flag(cfg.val_scale_cfg))
        .push(flags::flags(cfg.extra.listing()))
}

/// The pieces put together.
spec fn whole(cfg: CsiConfig) -> Seq<char> {
    text::concat(pieces(cfg))
}

proof fn lemma_pieces(cfg: CsiConfig)
    ensures
        cfg.flag_line() == whole(cfg),
        pieces(cfg).len() == 14,
{
    reveal(pieces);
    let l0 = Seq::<Seq<char>>::empty();
    let l1 = l0.push("set-csi"@);
    text::lemma_concat_push(l0, "set-csi"@);
    let l2 = l1.push(flags::switch_flag("lltf"@, cfg.lltf));
    text::lemma_concat_push(l1, flags::switch_flag("lltf"@, cfg.lltf));
    let l3 = l2.push(flags::switch_flag("htltf"@, cfg.htltf));
    text::lemma_concat_push(l2, flags::switch_flag("htltf"@, cfg.htltf));
    let l4 = l3.push(flags::switch_flag("stbc-htltf"@, cfg.stbc_htltf));
    text::lemma_concat_push(l3, flags::switch_flag("stbc-htltf"@, cfg.stbc_htltf));
    let l5 = l4.push(flags::switch_flag("ltf-merge"@, cfg.ltf_merge));
    text::lemma_concat_push(l4, flags::switch_flag("ltf-merge"@, cfg.ltf_merge));
    let l6 = l5.push(flags::switch_flag("csi"@, cfg.csi));
    text::lemma_concat_push(l5, flags::switch_flag("csi"@, cfg.csi));
    let l7 = l6.push(flags::switch_flag("csi-legacy"@, cfg.csi_legacy));
    text::lemma_concat_push(l6, flags::switch_flag("csi-legacy"@, cfg.csi_legacy));
    let l8 = l7.push(flags::switch_flag("csi-ht20"@, cfg.csi_ht20));
    text::lemma_concat_push(l7, flags::switch_flag("csi-ht20"@, cfg.csi_ht20));
    let l9 = l8.push(flags::switch_flag("csi-ht40"@, cfg.csi_ht40));
    text::lemma_concat_push(l8, flags::switch_flag("csi-ht40"@, cfg.csi_ht40));
    let l10 = l9.push(flags::switch_flag("dump-ack"@, cfg.dump_ack));
    text::lemma_concat_push(l9, flags::switch_flag("dump-ack"@, cfg.dump_ack));
    let l11 = l10.push(flags::switch_flag("csi-force-lltf"@, cfg.csi_force_lltf));
    text::lemma_concat_push(l10, flags::switch_flag("csi-force-lltf"@, cfg.csi_force_lltf));
    let l12 = l11.push(flags::switch_flag("csi-vht"@, cfg.csi_vht));
    text::lemma_concat_push(l11, flags::switch_flag("csi-vht"@, cfg.csi_vht));
    let l13 = l12.push(scale_flag(cfg.val_scale_cfg));
    text::lemma_concat_push(l12, scale_flag(cfg.val_scale_cfg));
    let l14 = l13.push(flags::flags(cfg.extra.listing()));
    text::lemma_concat_push(l13, flags::flags(cfg.extra.listing()));
    assert(text::concat(l0) + "set-csi"@ =~= "set-csi"@);
}

/// What stands where.
proof fn lemma_pieces_at(cfg: CsiConfig)
    ensures
        pieces(cfg).len() == 14,
        pieces(cfg)[0] == "set-csi"@,
        pieces(cfg)[1] == flags::switch_flag("lltf"@, cfg.lltf),
        pieces(cfg)[2] == flags::switch_flag("htltf"@, cfg.htltf),
        pieces(cfg)[3] == flags::switch_flag("stbc-htltf"@, cfg.stbc_htltf),
        pieces(cfg)[4] == flags::switch_flag("ltf-merge"@, cfg.ltf_merge),
        pieces(cfg)[5] == flags::switch_flag("csi"@, cfg.csi),
        pieces(cfg)[6] == flags::switch_flag("csi-legacy"@, cfg.csi_legacy),
        pieces(cfg)[7] == flags::switch_flag("csi-ht20"@, cfg.csi_ht20),
        pieces(cfg)[8] == flags::switch_flag("csi-ht40"@, cfg.csi_ht40),
        pieces(cfg)[9] == flags::switch_flag("dump-ack"@, cfg.dump_ack),
        pieces(cfg)[10] == flags::switch_flag("csi-force-lltf"@, cfg.csi_force_lltf),
        pieces(cfg)[11] == flags::switch_flag("csi-vht"@, cfg.csi_vht),
        pieces(cfg)[12] == scale_flag(cfg.val_scale_cfg),
        pieces(cfg)[13] == flags::flags(cfg.extra.listing()),
{
    reveal(pieces);
}

/// The switches of a `set-csi` line, written out.
proof fn lemma_switch_names()
    ensures
        flags::flag("lltf"@, "on"@) == " --lltf=on"@,
        flags::flag("lltf"@, "off"@) == " --lltf=off"@,
        flags::flag("htltf"@, "on"@) == " --htltf=on"@,
        flags::flag("htltf"@, "off"@) == " --htltf=off"@,
        flags::flag("stbc-htltf"@, "on"@) == " --stbc-htltf=on"@,
        flags::flag("stbc-htltf"@, "off"@) == " --stbc-htltf=off"@,
        flags::flag("ltf-merge"@, "on"@) == " --ltf-merge=on"@,
        flags::flag("ltf-merge"@, "off"@) == " --ltf-merge=off"@,
        flags::flag("csi"@, "on"@) == " --csi=on"@,
        flags::flag("csi"@, "off"@) == " --csi=off"@,
        flags::flag("csi-legacy"@, "on"@) == " --csi-legacy=on"@,
        flags::flag("csi-legacy"@, "off"@) == " --csi-legacy=off"@,
        flags::flag("csi-ht20"@, "on"@) == " --csi-ht20=on"@,
        flags::flag("csi-ht20"@, "off"@) == " --csi-ht20=off"@,
        flags::flag("csi-ht40"@, "on"@) == " --csi-ht40=on"@,
        flags::flag("csi-ht40"@, "off"@) == " --csi-ht40=off"@,
        flags::flag("dump-ack"@, "on"@) == " --dump-ack=on"@,
        flags::flag("dump-ack"@, "off"@) == " --dump-ack=off"@,
        flags::flag("csi-force-lltf"@, "on"@) == " --csi-force-lltf=on"@,
        flags::flag("csi-force-lltf"@, "off"@) == " --csi-force-lltf=off"@,
        flags::flag("csi-vht"@, "on"@) == " --csi-vht=on"@,
        flags::flag("csi-vht"@, "off"@) == " --csi-vht=off"@,
{
    assert(flags::flag("lltf"@, "on"@) =~= " --lltf=on"@) by {
        reveal_strlit(" --");
        reveal_strlit("=");
        reveal_strlit("on");
        reveal_strlit("lltf");
        reveal_strlit(" --lltf=on");
    }
    assert(flags::flag("lltf"@, "off"@) =~= " --lltf=off"@) by {
        reveal_strlit(" --");
        reveal_strlit("=");
        reveal_strlit("off");
        reveal_strlit("lltf");
        reveal_strlit(" --lltf=off");
    }
    assert(flags::flag("htltf"@, "on"@) =~= " --htltf=on"@) by {
        reveal_strlit(" --");
        reveal_strlit("=");
        reveal_strlit("on");
        reveal_strlit("htltf");
        reveal_strlit(" --htltf=on");
    }
    assert(flags::flag("htltf"@, "off"@) =~= " --htltf=off"@) by {
        reveal_strlit(" --");
        reveal_strlit("=");
        reveal_strlit("off");
        reveal_strlit("htltf");
        reveal_strlit(" --htltf=off");
    }
    assert(flags::flag("stbc-htltf"@, "on"@) =~= " --stbc-htltf=on"@) by {
        reveal_strlit(" --");
        reveal_strlit("=");
        reveal_strlit("on");
        reveal_strlit("stbc-htltf");
        reveal_strlit(" --stbc-htltf=on");
    }
    assert(flags::flag("stbc-htltf"@, "off"@) =~= " --stbc-htltf=off"@) by {
        reveal_strlit(" --");
        reveal_strlit("=");
        reveal_strlit("off");
        reveal_strlit("stbc-htltf");
        reveal_strlit(" --stbc-htltf=off");
    }
    assert(flags::flag("ltf-merge"@, "on"@) =~= " --ltf-merge=on"@) by {
        reveal_strlit(" --");
        reveal_strlit("=");
        reveal_strlit("on");
        reveal_strlit("ltf-merge");
        reveal_strlit(" --ltf-merge=on");
    }
    assert(flags::flag("ltf-merge"@, "off"@) =~= " --ltf-merge=off"@) by {
        reveal_strlit(" --");
        reveal_strlit("=");
        reveal_strlit("off");
        reveal_strlit("ltf-merge");
        reveal_strlit(" --ltf-merge=off");
    }
    assert(flags::flag("csi"@, "on"@) =~= " --csi=on"@) by {
        reveal_strlit(" --");
        reveal_strlit("=");
        reveal_strlit("on");
        reveal_strlit("csi");
        reveal_strlit(" --csi=on");
    }
    assert(flags::flag("csi"@, "off"@) =~= " --csi=off"@) by {
        reveal_strlit(" --");
        reveal_strlit("=");
        reveal_strlit("off");
        reveal_strlit("csi");
        reveal_strlit(" --csi=off");
    }
    assert(flags::flag("csi-legacy"@, "on"@) =~= " --csi-legacy=on"@) by {
        reveal_strlit(" --");
        reveal_strlit("=");
        reveal_strlit("on");
        reveal_strlit("csi-legacy");
        reveal_strlit(" --csi-legacy=on");
    }
    assert(flags::flag("csi-legacy"@, "off"@) =~= " --csi-legacy=off"@) by {
        reveal_strlit(" --");
        reveal_strlit("=");
        reveal_strlit("off");
        reveal_strlit("csi-legacy");
        reveal_strlit(" --csi-legacy=off");
    }
    assert(flags::flag("csi-ht20"@, "on"@) =~= " --csi-ht20=on"@) by {
        reveal_strlit(" --");
        reveal_strlit("=");
        reveal_strlit("on");
        reveal_strlit("csi-ht20");
        reveal_strlit(" --csi-ht20=on");
    }
    assert(flags::flag("csi-ht20"@, "off"@) =~= " --csi-ht20=off"@) by {
        reveal_strlit(" --");
        reveal_strlit("=");
        reveal_strlit("off");
        reveal_strlit("csi-ht20");
        reveal_strlit(" --csi-ht20=off");
    }
    assert(flags::flag("csi-ht40"@, "on"@) =~= " --csi-ht40=on"@) by {
        reveal_strlit(" --");
        reveal_strlit("=");
        reveal_strlit("on");
        reveal_strlit("csi-ht40");
        reveal_strlit(" --csi-ht40=on");
    }
    assert(flags::flag("csi-ht40"@, "off"@) =~= " --csi-ht40=off"@) by {
        reveal_strlit(" --");
        reveal_strlit("=");
        reveal_strlit("off");
        reveal_strlit("csi-ht40");
        reveal_strlit(" --csi-ht40=off");
    }
    assert(flags::flag("dump-ack"@, "on"@) =~= " --dump-ack=on"@) by {
        reveal_strlit(" --");
        reveal_strlit("=");
        reveal_strlit("on");
        reveal_strlit("dump-ack");
        reveal_strlit(" --dump-ack=on");
    }
    assert(flags::flag("dump-ack"@, "off"@) =~= " --dump-ack=off"@) by {
        reveal_strlit(" --");
        reveal_strlit("=");
        reveal_strlit("off");
        reveal_strlit("dump-ack");
        reveal_strlit(" --dump-ack=off");
    }
    assert(flags::flag("csi-force-lltf"@, "on"@) =~= " --csi-force-lltf=on"@) by {
        reveal_strlit(" --");
        reveal_strlit("=");
        reveal_strlit("on");
        reveal_strlit("csi-force-lltf");
        reveal_strlit(" --csi-force-lltf=on");
    }
    assert(flags::flag("csi-force-lltf"@, "off"@) =~= " --csi-force-lltf=off"@) by {
        reveal_strlit(" --");
        reveal_strlit("=");
        reveal_strlit("off");
        reveal_strlit("csi-force-lltf");
        reveal_strlit(" --csi-force-lltf=off");
    }
    assert(flags::flag("csi-vht"@, "on"@) =~= " --csi-vht=on"@) by {
        reveal_strlit(" --");
        reveal_strlit("=");
        reveal_strlit("on");
        reveal_strlit("csi-vht");
        reveal_strlit(" --csi-vht=on");
    }
    assert(flags::flag("csi-vht"@, "off"@) =~= " --csi-vht=off"@) by {
        reveal_strlit(" --");
        reveal_strlit("=");
        reveal_strlit("off");
        reveal_strlit("csi-vht");
        reveal_strlit(" --csi-vht=off");
    }
}

proof fn lemma_extras_piece(cfg: CsiConfig, bare: CsiConfig)
    requires
        bare == (CsiConfig { extra: bare.extra, ..cfg }),
        bare.extra.listing().len() == 0,
    ensures
        cfg.flag_line() == bare.flag_line() + flags::flags(cfg.extra.listing()),
{
    assert(bare.flag_line() + flags::flags(cfg.extra.listing()) =~= cfg.flag_line());
}

proof fn lemma_bare_line(cfg: CsiConfig)
    requires
        names_nothing(cfg),
    ensures
        cfg.flag_line() == "set-csi"@,
{
    assert(cfg.flag_line() =~= "set-csi"@);
}

proof fn lemma_lltf_piece(cfg: CsiConfig, bare: CsiConfig)
    requires
        cfg.lltf is Some,
        bare == (CsiConfig { lltf: None, ..cfg }),
    ensures
        cfg.lltf->0 ==> text::put_in(whole(cfg), whole(bare), " --lltf=on"@),
        !cfg.lltf->0 ==> text::put_in(whole(cfg), whole(bare), " --lltf=off"@),
{
    lemma_switch_names();
    lemma_pieces_at(cfg);
    lemma_pieces_at(bare);
    assert(pieces(bare) =~= pieces(cfg).update(1, Seq::empty()));
    text::lemma_concat_put_in(pieces(cfg), 1);
}

proof fn lemma_htltf_piece(cfg: CsiConfig, bare: CsiConfig)
    requires
        cfg.htltf is Some,
        bare == (CsiConfig { htltf: None, ..cfg }),
    ensures
        cfg.htltf->0 ==> text::put_in(whole(cfg), whole(bare), " --htltf=on"@),
        !cfg.htltf->0 ==> text::put_in(whole(cfg), whole(bare), " --htltf=off"@),
{
    lemma_switch_names();
    lemma_pieces_at(cfg);
    lemma_pieces_at(bare);
    assert(pieces(bare) =~= pieces(cfg).update(2, Seq::empty()));
    text::lemma_concat_put_in(pieces(cfg), 2);
}

proof fn lemma_stbc_htltf_piece(cfg: CsiConfig, bare: CsiConfig)
    requires
        cfg.stbc_htltf is Some,
        bare == (CsiConfig { stbc_htltf: None, ..cfg }),
    ensures
        cfg.stbc_htltf->0 ==> text::put_in(whole(cfg), whole(bare), " --stbc-htltf=on"@),
        !cfg.stbc_htltf->0 ==> text::put_in(whole(cfg), whole(bare), " --stbc-htltf=off"@),
{
    lemma_switch_names();
    lemma_pieces_at(cfg);
    lemma_pieces_at(bare);
    assert(pieces(bare) =~= pieces(cfg).update(3, Seq::empty()));
    text::lemma_concat_put_in(pieces(cfg), 3);
}

proof fn lemma_ltf_merge_piece(cfg: CsiConfig, bare: CsiConfig)
    requires
        cfg.ltf_merge is Some,
        bare == (CsiConfig { ltf_merge: None, ..cfg }),
    ensures
        cfg.ltf_merge->0 ==> text::put_in(whole(cfg), whole(bare), " --ltf-merge=on"@),
        !cfg.ltf_merge->0 ==> text::put_in(whole(cfg), whole(bare), " --ltf-merge=off"@),
{
    lemma_switch_names();
    lemma_pieces_at(cfg);
    lemma_pieces_at(bare);
    assert(pieces(bare) =~= pieces(cfg).update(4, Seq::empty()));
    text::lemma_concat_put_in(pieces(cfg), 4);
}

proof fn lemma_csi_piece(cfg: CsiConfig, bare: CsiConfig)
    requires
        cfg.csi is Some,
        bare == (CsiConfig { csi: None, ..cfg }),
    ensures
        cfg.csi->0 ==> text::put_in(whole(cfg), whole(bare), " --csi=on"@),
        !cfg.csi->0 ==> text::put_in(whole(cfg), whole(bare), " --csi=off"@),
{
    lemma_switch_names();
    lemma_pieces_at(cfg);
    lemma_pieces_at(bare);
    assert(pieces(bare) =~= pieces(cfg).update(5, Seq::empty()));
    text::lemma_concat_put_in(pieces(cfg), 5);
}

proof fn lemma_csi_legacy_piece(cfg: CsiConfig, bare: CsiConfig)
    requires
        cfg.csi_legacy is Some,
        bare == (CsiConfig { csi_legacy: None, ..cfg }),
    ensures
        cfg.csi_legacy->0 ==> text::put_in(whole(cfg), whole(bare), " --csi-legacy=on"@),
        !cfg.csi_legacy->0 ==> text::put_in(whole(cfg), whole(bare), " --csi-legacy=off"@),
{
    lemma_switch_names();
    lemma_pieces_at(cfg);
    lemma_pieces_at(bare);
    assert(pieces(bare) =~= pieces(cfg).update(6, Seq::empty()));
    text::lemma_concat_put_in(pieces(cfg), 6);
}

proof fn lemma_csi_ht20_piece(cfg: CsiConfig, bare: CsiConfig)
    requires
        cfg.csi_ht20 is Some,
        bare == (CsiConfig { csi_ht20: None, ..cfg }),
    ensures
        cfg.csi_ht20->0 ==> text::put_in(whole(cfg), whole(bare), " --csi-ht20=on"@),
        !cfg.csi_ht20->0 ==> text::put_in(whole(cfg), whole(bare), " --csi-ht20=off"@),
{
    lemma_switch_names();
    lemma_pieces_at(cfg);
    lemma_pieces_at(bare);
    assert(pieces(bare) =~= pieces(cfg).update(7, Seq::empty()));
    text::lemma_concat_put_in(pieces(cfg), 7);
}

proof fn lemma_csi_ht40_piece(cfg: CsiConfig, bare: CsiConfig)
    requires
        cfg.csi_ht40 is Some,
        bare == (CsiConfig { csi_ht40: None, ..cfg }),
    ensures
        cfg.csi_ht40->0 ==> text::put_in(whole(cfg), whole(bare), " --csi-ht40=on"@),
        !cfg.csi_ht40->0 ==> text::put_in(whole(cfg), whole(bare), " --csi-ht40=off"@),
{
    lemma_switch_names();
    lemma_pieces_at(cfg);
    lemma_pieces_at(bare);
    assert(pieces(bare) =~= pieces(cfg).update(8, Seq::empty()));
    text::lemma_concat_put_in(pieces(cfg), 8);
}

proof fn lemma_dump_ack_piece(cfg: CsiConfig, bare: CsiConfig)
    requires
        cfg.dump_ack is Some,
        bare == (CsiConfig { dump_ack: None, ..cfg }),
    ensures
        cfg.dump_ack->0 ==> text::put_in(whole(cfg), whole(bare), " --dump-ack=on"@),
        !cfg.dump_ack->0 ==> text::put_in(whole(cfg), whole(bare), " --dump-ack=off"@),
{
    lemma_switch_names();
    lemma_pieces_at(cfg);
    lemma_pieces_at(bare);
    assert(pieces(bare) =~= pieces(cfg).update(9, Seq::empty()));
    text::lemma_concat_put_in(pieces(cfg), 9);
}

proof fn lemma_csi_force_lltf_piece(cfg: CsiConfig, bare: CsiConfig)
    requires
        cfg.csi_force_lltf is Some,
        bare == (CsiConfig { csi_force_lltf: None, ..cfg }),
    ensures
        cfg.csi_force_lltf->0 ==> text::put_in(whole(cfg), whole(bare), " --csi-force-lltf=on"@),
        !cfg.csi_force_lltf->0 ==> text::put_in(whole(cfg), whole(bare), " --csi-force-lltf=off"@),
{
    lemma_switch_names();
    lemma_pieces_at(cfg);
    lemma_pieces_at(bare);
    assert(pieces(bare) =~= pieces(cfg).update(10, Seq::empty()));
    text::lemma_concat_put_in(pieces(cfg), 10);
}

proof fn lemma_csi_vht_piece(cfg: CsiConfig, bare: CsiConfig)
    requires
        cfg.csi_vht is Some,
        bare == (CsiConfig { csi_vht: None, ..cfg }),
    ensures
        cfg.csi_vht->0 ==> text::put_in(whole(cfg), whole(bare), " --csi-vht=on"@),
        !cfg.csi_vht->0 ==> text::put_in(whole(cfg), whole(bare), " --csi-vht=off"@),
{
    lemma_switch_names();
    lemma_pieces_at(cfg);
    lemma_pieces_at(bare);
    assert(pieces(bare) =~= pieces(cfg).update(11, Seq::empty()));
    text::lemma_concat_put_in(pieces(cfg), 11);
}

proof fn lemma_scale_piece(cfg: CsiConfig, bare: CsiConfig)
    requires
        cfg.val_scale_cfg is Some,
        bare == (CsiConfig { val_scale_cfg: None, ..cfg }),
    ensures
        text::put_in(
            whole(cfg),
            whole(bare),
            " --val-scale-cfg="@ + text::decimal(cfg.val_scale_cfg->0 as nat),
        ),
{
    reveal_strlit(" --");
    reveal_strlit("=");
    reveal_strlit("val-scale-cfg");
    reveal_strlit(" --val-scale-cfg=");
    let digits = text::decimal(cfg.val_scale_cfg->0 as nat);
    assert(flags::flag("val-scale-cfg"@, digits) =~= " --val-scale-cfg="@ + digits);
    lemma_pieces_at(cfg);
    lemma_pieces_at(bare);
    assert(pieces(bare) =~= pieces(cfg).update(12, Seq::empty()));
    text::lemma_concat_put_in(pieces(cfg), 12);
}

/// A request without a flag.
pub open spec fn names_nothing(cfg: CsiConfig) -> bool {
    &&& cfg.lltf is None && cfg.htltf is None && cfg.stbc_htltf is None && cfg.ltf_merge is None
    &&& cfg.csi is None && cfg.csi_legacy is None && cfg.csi_ht20 is None && cfg.csi_ht40 is None
    &&& cfg.dump_ack is None && cfg.csi_force_lltf is None && cfg.csi_vht is None
    &&& cfg.val_scale_cfg is None && cfg.extra.listing().len() == 0
}

/// Each field has its own flag: a request without a preset is always accepted, and with a
/// field more its line has that field's flag more, with the value that was asked for, and is
/// the same otherwise. Without any field it is the bare command.
pub proof fn law_each_field_has_its_flag(
    cfg: CsiConfig,
    bare: CsiConfig,
    preset_line: Option<String>,
    r: Result<String, String>,
    s: Result<String, String>,
)
    requires
        call_ensures(CsiConfig::cli_command_with_preset, (&cfg, preset_line), r),
        call_ensures(CsiConfig::cli_command_with_preset, (&bare, preset_line), s),
        !cfg.extra@.dom().contains("preset"@),
        !bare.extra@.dom().contains("preset"@),
    ensures
        r is Ok && s is Ok,
        cfg.lltf == Some(true) && bare == (CsiConfig { lltf: None, ..cfg })
            ==> text::put_in(r->Ok_0@, s->Ok_0@, " --lltf=on"@),
        cfg.lltf == Some(false) && bare == (CsiConfig { lltf: None, ..cfg })
            ==> text::put_in(r->Ok_0@, s->Ok_0@, " --lltf=off"@),
        cfg.htltf == Some(true) && bare == (CsiConfig { htltf: None, ..cfg })
            ==> text::put_in(r->Ok_0@, s->Ok_0@, " --htltf=on"@),
        cfg.htltf == Some(false) && bare == (CsiConfig { htltf: None, ..cfg })
            ==> text::put_in(r->Ok_0@, s->Ok_0@, " --htltf=off"@),
        cfg.stbc_htltf == Some(true) && bare == (CsiConfig { stbc_htltf: None, ..cfg })
            ==> text::put_in(r->Ok_0@, s->Ok_0@, " --stbc-htltf=on"@),
        cfg.stbc_htltf == Some(false) && bare == (CsiConfig { stbc_htltf: None, ..cfg })
            ==> text::put_in(r->Ok_0@, s->Ok_0@, " --stbc-htltf=off"@),
        cfg.ltf_merge == Some(true) && bare == (CsiConfig { ltf_merge: None, ..cfg })
            ==> text::put_in(r->Ok_0@, s->Ok_0@, " --ltf-merge=on"@),
        cfg.ltf_merge == Some(false) && bare == (CsiConfig { ltf_merge: None, ..cfg })
            ==> text::put_in(r->Ok_0@, s->Ok_0@, " --ltf-merge=off"@),
        cfg.csi == Some(true) && bare == (CsiConfig { csi: None, ..cfg })
            ==> text::put_in(r->Ok_0@, s->Ok_0@, " --csi=on"@),
        cfg.csi == Some(false) && bare == (CsiConfig { csi: None, ..cfg })
            ==> text::put_in(r->Ok_0@, s->Ok_0@, " --csi=off"@),
        cfg.csi_legacy == Some(true) && bare == (CsiConfig { csi_legacy: None, ..cfg })
            ==> text::put_in(r->Ok_0@, s->Ok_0@, " --csi-legacy=on"@),
        cfg.csi_legacy == Some(false) && bare == (CsiConfig { csi_legacy: None, ..cfg })
            ==> text::put_in(r->Ok_0@, s->Ok_0@, " --csi-legacy=off"@),
        cfg.csi_ht20 == Some(true) && bare == (CsiConfig { csi_ht20: None, ..cfg })
            ==> text::put_in(r->Ok_0@, s->Ok_0@, " --csi-ht20=on"@),
        cfg.csi_ht20 == Some(false) && bare == (CsiConfig { csi_ht20: None, ..cfg })
            ==> text::put_in(r->Ok_0@, s->Ok_0@, " --csi-ht20=off"@),
        cfg.csi_ht40 == Some(true) && bare == (CsiConfig { csi_ht40: None, ..cfg })
            ==> text::put_in(r->Ok_0@, s->Ok_0@, " --csi-ht40=on"@),
        cfg.csi_ht40 == Some(false) && bare == (CsiConfig { csi_ht40: None, ..cfg })
            ==> text::put_in(r->Ok_0@, s->Ok_0@, " --csi-ht40=off"@),
        cfg.dump_ack == Some(true) && bare == (CsiConfig { dump_ack: None, ..cfg })
            ==> text::put_in(r->Ok_0@, s->Ok_0@, " --dump-ack=on"@),
        cfg.dump_ack == Some(false) && bare == (CsiConfig { dump_ack: None, ..cfg })
            ==> text::put_in(r->Ok_0@, s->Ok_0@, " --dump-ack=off"@),
        cfg.csi_force_lltf == Some(true) && bare == (CsiConfig { csi_force_lltf: None, ..cfg })
            ==> text::put_in(r->Ok_0@, s->Ok_0@, " --csi-force-lltf=on"@),
        cfg.csi_force_lltf == Some(false) && bare == (CsiConfig { csi_force_lltf: None, ..cfg })
            ==> text::put_in(r->Ok_0@, s->Ok_0@, " --csi-force-lltf=off"@),
        cfg.csi_vht == Some(true) && bare == (CsiConfig { csi_vht: None, ..cfg })
            ==> text::put_in(r->Ok_0@, s->Ok_0@, " --csi-vht=on"@),
        cfg.csi_vht == Some(false) && bare == (CsiConfig { csi_vht: None, ..cfg })
            ==> text::put_in(r->Ok_0@, s->Ok_0@, " --csi-vht=off"@),
        cfg.val_scale_cfg is Some && bare == (CsiConfig { val_scale_cfg: None, ..cfg })
            ==> text::put_in(
            r->Ok_0@,
            s->Ok_0@,
            " --val-scale-cfg="@ + text::decimal(cfg.val_scale_cfg->0 as nat),
        ),
        bare == (CsiConfig { extra: bare.extra, ..cfg }) && bare.extra.listing().len() == 0
            ==> r->Ok_0@ == s->Ok_0@ + flags::flags(cfg.extra.listing()),
        names_nothing(bare) ==> s->Ok_0@ == "set-csi"@,
{
    lemma_pieces(cfg);
    lemma_pieces(bare);
    if cfg.lltf is Some && bare == (CsiConfig { lltf: None, ..cfg }) {
        lemma_lltf_piece(cfg, bare);
    }
    if cfg.htltf is Some && bare == (CsiConfig { htltf: None, ..cfg }) {
        lemma_htltf_piece(cfg, bare);
    }
    if cfg.stbc_htltf is Some && bare == (CsiConfig { stbc_htltf: None, ..cfg }) {
        lemma_stbc_htltf_piece(cfg, bare);
    }
    if cfg.ltf_merge is Some && bare == (CsiConfig { ltf_merge: None, ..cfg }) {
        lemma_ltf_merge_piece(cfg, bare);
    }
    if cfg.csi is Some && bare == (CsiConfig { csi: None, ..cfg }) {
        lemma_csi_piece(cfg, bare);
    }
    if cfg.csi_legacy is Some && bare == (CsiConfig { csi_legacy: None, ..cfg }) {
        lemma_csi_legacy_piece(cfg, bare);
    }
    if cfg.csi_ht20 is Some && bare == (CsiConfig { csi_ht20: None, ..cfg }) {
        lemma_csi_ht20_piece(cfg, bare);
    }
    if cfg.csi_ht40 is Some && bare == (CsiConfig { csi_ht40: None, ..cfg }) {
        lemma_csi_ht40_piece(cfg, bare);
    }
    if cfg.dump_ack is Some && bare == (CsiConfig { dump_ack: None, ..cfg }) {
        lemma_dump_ack_piece(cfg, bare);
    }
    if cfg.csi_force_lltf is Some && bare == (CsiConfig { csi_force_lltf: None, ..cfg }) {
        lemma_csi_force_lltf_piece(cfg, bare);
    }
    if cfg.csi_vht is Some && bare == (CsiConfig { csi_vht: None, ..cfg }) {
        lemma_csi_vht_piece(cfg, bare);
    }
    if cfg.val_scale_cfg is Some && bare == (CsiConfig { val_scale_cfg: None, ..cfg }) {
        lemma_scale_piece(cfg, bare);
    }
    if bare == (CsiConfig { extra: bare.extra, ..cfg }) && bare.extra.listing().len() == 0 {
        lemma_extras_piece(cfg, bare);
    }
    if names_nothing(bare) {
        lemma_bare_line(bare);
    }
}

/// A preset that is given by name is sent instead of all flags: `default` as it is, any other
/// as the profile writes it, and one that the profile does not know is refused with its name.
/// A preset that is no string is refused.
pub proof fn law_preset_is_sent(cfg: CsiConfig, preset_line: Option<String>, r: Result<String, String>)
    requires
        call_ensures(CsiConfig::cli_command_with_preset, (&cfg, preset_line), r),
        cfg.extra@.dom().contains("preset"@),
    ensures
        match cfg.extra@["preset"@] {
            FlagValue::Text(name) => if name@ == "default"@ {
                r is Ok && r->Ok_0@ == "set-csi --preset=default"@
            } else if preset_line is Some {
                r is Ok && r->Ok_0@ == preset_line->0@
            } else {
                r is Err && r->Err_0@ == "unknown preset '"@ + name@ + "'; expected default"@
            },
            _ => r is Err && r->Err_0@ == "preset must be a string"@,
        },
{
}

/// The profile is asked for a preset by the name that the request gives, and only for one
/// other than `default`; a request without one does not depend on it.
pub proof fn law_profile_resolves_presets<P: CsiProfile + ?Sized>(
    cfg: CsiConfig,
    profile: &P,
    preset_line: Option<String>,
    r: Result<String, String>,
    s: Result<String, String>,
)
    requires
        call_ensures(CsiConfig::to_cli_command::<P>, (&cfg, profile), r),
        call_ensures(CsiConfig::cli_command_with_preset, (&cfg, preset_line), s),
    ensures
        !cfg.extra@.dom().contains("preset"@) ==> text::outcome(r) == text::outcome(s),
        cfg.extra@.dom().contains("preset"@) && !(cfg.extra@["preset"@] is Text) ==> text::outcome(
            r,
        ) == text::outcome(s),
        cfg.extra@.dom().contains("preset"@) && cfg.extra@["preset"@] is Text ==> ({
            let name = cfg.extra@["preset"@]->Text_0@;
            if name == "default"@ {
                text::outcome(r) == text::outcome(s)
            } else {
                exists|arg: &str, line: Option<String>|
                    arg@ == name && #[trigger] call_ensures(P::preset_cli, (profile, arg), line) && (
                    text::opt(line) == text::opt(preset_line) ==> text::outcome(r) == text::outcome(
                        s,
                    ))
            }
        }),
{
}

/// The cache after a request: each switch stands in its own slot, as a boolean or as 1 and 0,
/// whatever the slot held; every other slot keeps its value. A preset that is given by name
/// leaves the profile's section, or the firmware defaults, and nothing of the request.
pub proof fn law_request_is_cached<P: CsiProfile + ?Sized>(
    cfg: CsiConfig,
    cache: &mut CsiConfigSection,
    profile: &P,
)
    requires
        call_ensures(CsiConfig::apply_to_cache::<P>, (&cfg, cache, profile), ()),
    ensures
        cfg.extra@.dom().contains("preset"@) && cfg.extra@["preset"@] is Text ==> exists|
            arg: &str,
            section: Option<CsiConfigSection>,
        |
            arg@ == cfg.extra@["preset"@]->Text_0@ && #[trigger] call_ensures(
                P::resolve_preset,
                (profile, arg),
                section,
            ) && match section {
                Some(given) => *final(cache) == given,
                None => device::acquires_everything(*final(cache)),
            },
        !cfg.extra@.dom().contains("preset"@) || !(cfg.extra@["preset"@] is Text)
            ==> cached_switches(cfg, *old(cache), *final(cache)),
{
}

/// The named slots of a cache after a request.
pub open spec fn cached_switches(
    cfg: CsiConfig,
    before: CsiConfigSection,
    after: CsiConfigSection,
) -> bool {
    &&& after.lltf_enabled == (if cfg.lltf is Some { cfg.lltf } else { before.lltf_enabled })
    &&& after.htltf_enabled == (if cfg.htltf is Some { cfg.htltf } else { before.htltf_enabled })
    &&& after.stbc_htltf_enabled == (if cfg.stbc_htltf is Some { cfg.stbc_htltf } else {
        before.stbc_htltf_enabled
    })
    &&& after.ltf_merge_enabled == (if cfg.ltf_merge is Some { cfg.ltf_merge } else {
        before.ltf_merge_enabled
    })
    &&& after.dump_ack_enabled == (if cfg.dump_ack is Some { cfg.dump_ack } else {
        before.dump_ack_enabled
    })
    &&& after.acquire_csi_force_lltf == (if cfg.csi_force_lltf is Some { cfg.csi_force_lltf } else {
        before.acquire_csi_force_lltf
    })
    &&& after.acquire_csi_vht == (if cfg.csi_vht is Some { cfg.csi_vht } else {
        before.acquire_csi_vht
    })
    &&& after.val_scale_cfg == (if cfg.val_scale_cfg is Some { cfg.val_scale_cfg } else {
        before.val_scale_cfg
    })
    &&& cached_as_number(cfg.csi, before.acquire_csi, after.acquire_csi)
    &&& cached_as_number(cfg.csi_legacy, before.acquire_csi_legacy, after.acquire_csi_legacy)
    &&& cached_as_number(cfg.csi_ht20, before.acquire_csi_ht20, after.acquire_csi_ht20)
    &&& cached_as_number(cfg.csi_ht40, before.acquire_csi_ht40, after.acquire_csi_ht40)
    &&& after.channel_filter_enabled == before.channel_filter_enabled
    &&& after.manual_scale == before.manual_scale
    &&& after.shift == before.shift
    &&& forall|key: Seq<char>| #[trigger]
        after.extra@.dom().contains(key) <==> before.extra@.dom().contains(key) || (
        cfg.extra@.dom().contains(key) && key != "preset"@)
    &&& forall|key: Seq<char>|
        after.extra@.dom().contains(key) ==> #[trigger] after.extra@[key] == (if key != "preset"@
            && cfg.extra@.dom().contains(key) {
            cfg.extra@[key]
        } else {
            before.extra@[key]
        })
}

/// A switch in a slot that holds numbers.
pub open spec fn cached_as_number(
    asked: Option<bool>,
    before: Option<u32>,
    after: Option<u32>,
) -> bool {
    match asked {
        Some(true) => after == Some(1u32),
        Some(false) => after == Some(0u32),
        None => after == before,
    }
}

/// The flags of a request are cached in the same way where no preset is looked up, and a
/// preset that is applied on its own replaces the whole cache.
pub proof fn law_flags_are_cached(
    cfg: CsiConfig,
    cache: &mut CsiConfigSection,
    section: Option<CsiConfigSection>,
)
    ensures
        call_ensures(CsiConfig::apply_flags, (&cfg, cache), ()) ==> cached_switches(
            cfg,
            *old(cache),
            *final(cache),
        ),
        call_ensures(apply_preset, (cache, section), ()) ==> match section {
            Some(given) => *final(cache) == given,
            None => device::acquires_everything(*final(cache)),
        },
{
}

/// Read back flag by flag, the line of a request without a preset is the request: each switch
/// that is given under the name of its own flag and once, the scaling, and the unnamed flags,
/// which are sent as they are and must have no spaces or quotes.
pub proof fn law_line_is_read_back(
    cfg: CsiConfig,
    preset_line: Option<String>,
    r: Result<String, String>,
)
    requires
        call_ensures(CsiConfig::cli_command_with_preset, (&cfg, preset_line), r),
        !cfg.extra@.dom().contains("preset"@),
        cli::are_plain(cfg.extra.listing()),
    ensures
        r is Ok,
        cli::flags_of(r->Ok_0@) == cli::one("lltf"@, cli::switch(cfg.lltf))
            + cli::one("htltf"@, cli::switch(cfg.htltf))
            + cli::one("stbc-htltf"@, cli::switch(cfg.stbc_htltf))
            + cli::one("ltf-merge"@, cli::switch(cfg.ltf_merge))
            + cli::one("csi"@, cli::switch(cfg.csi))
            + cli::one("csi-legacy"@, cli::switch(cfg.csi_legacy))
            + cli::one("csi-ht20"@, cli::switch(cfg.csi_ht20))
            + cli::one("csi-ht40"@, cli::switch(cfg.csi_ht40))
            + cli::one("dump-ack"@, cli::switch(cfg.dump_ack))
            + cli::one("csi-force-lltf"@, cli::switch(cfg.csi_force_lltf))
            + cli::one("csi-vht"@, cli::switch(cfg.csi_vht)) + cli::one(
            "val-scale-cfg"@,
            match cfg.val_scale_cfg {
                Some(n) => Some(text::decimal(n as nat)),
                None => None,
            },
        ) + cli::written(cfg.extra.listing()),
{
    lemma_names_are_plain();
    let l0 = "set-csi"@;
    lemma_command_has_no_flags();
    let f0 = Seq::<(Seq<char>, Seq<char>)>::empty();
    let p1 = flags::switch_flag("lltf"@, cfg.lltf);
    cli::lemma_one_is_read(l0, "lltf"@, cli::switch(cfg.lltf), p1);
    let l1 = l0 + p1;
    assert(f0 + cli::one("lltf"@, cli::switch(cfg.lltf)) =~= cli::one(
        "lltf"@,
        cli::switch(cfg.lltf),
    ));
    let p2 = flags::switch_flag("htltf"@, cfg.htltf);
    cli::lemma_one_is_read(l1, "htltf"@, cli::switch(cfg.htltf), p2);
    let l2 = l1 + p2;
    let p3 = flags::switch_flag("stbc-htltf"@, cfg.stbc_htltf);
    cli::lemma_one_is_read(l2, "stbc-htltf"@, cli::switch(cfg.stbc_htltf), p3);
    let l3 = l2 + p3;
    let p4 = flags::switch_flag("ltf-merge"@, cfg.ltf_merge);
    cli::lemma_one_is_read(l3, "ltf-merge"@, cli::switch(cfg.ltf_merge), p4);
    let l4 = l3 + p4;
    let p5 = flags::switch_flag("csi"@, cfg.csi);
    cli::lemma_one_is_read(l4, "csi"@, cli::switch(cfg.csi), p5);
    let l5 = l4 + p5;
    let p6 = flags::switch_flag("csi-legacy"@, cfg.csi_legacy);
    cli::lemma_one_is_read(l5, "csi-legacy"@, cli::switch(cfg.csi_legacy), p6);
    let l6 = l5 + p6;
    let p7 = flags::switch_flag("csi-ht20"@, cfg.csi_ht20);
    cli::lemma_one_is_read(l6, "csi-ht20"@, cli::switch(cfg.csi_ht20), p7);
    let l7 = l6 + p7;
    let p8 = flags::switch_flag("csi-ht40"@, cfg.csi_ht40);
    cli::lemma_one_is_read(l7, "csi-ht40"@, cli::switch(cfg.csi_ht40), p8);
    let l8 = l7 + p8;
    let p9 = flags::switch_flag("dump-ack"@, cfg.dump_ack);
    cli::lemma_one_is_read(l8, "dump-ack"@, cli::switch(cfg.dump_ack), p9);
    let l9 = l8 + p9;
    let p10 = flags::switch_flag("csi-force-lltf"@, cfg.csi_force_lltf);
    cli::lemma_one_is_read(l9, "csi-force-lltf"@, cli::switch(cfg.csi_force_lltf), p10);
    let l10 = l9 + p10;
    let p11 = flags::switch_flag("csi-vht"@, cfg.csi_vht);
    cli::lemma_one_is_read(l10, "csi-vht"@, cli::switch(cfg.csi_vht), p11);
    let l11 = l10 + p11;
    let scale = match cfg.val_scale_cfg {
        Some(n) => Some(text::decimal(n as nat)),
        None => None,
    };
    if let Some(n) = cfg.val_scale_cfg {
        cli::lemma_decimal_is_plain(n as nat);
    }
    cli::lemma_one_is_read(l11, "val-scale-cfg"@, scale, scale_flag(cfg.val_scale_cfg));
    let l12 = l11 + scale_flag(cfg.val_scale_cfg);
    cli::lemma_extras_are_read(l12, cfg.extra.listing());
    assert(r->Ok_0@ == l12 + flags::flags(cfg.extra.listing()));
}

/// The names of the flags, and of the switches, are plain.
proof fn lemma_names_are_plain()
    ensures
        cli::is_plain("lltf"@) && !"lltf"@.contains('='),
        cli::is_plain("htltf"@) && !"htltf"@.contains('='),
        cli::is_plain("stbc-htltf"@) && !"stbc-htltf"@.contains('='),
        cli::is_plain("ltf-merge"@) && !"ltf-merge"@.contains('='),
        cli::is_plain("csi"@) && !"csi"@.contains('='),
        cli::is_plain("csi-legacy"@) && !"csi-legacy"@.contains('='),
        cli::is_plain("csi-ht20"@) && !"csi-ht20"@.contains('='),
        cli::is_plain("csi-ht40"@) && !"csi-ht40"@.contains('='),
        cli::is_plain("dump-ack"@) && !"dump-ack"@.contains('='),
        cli::is_plain("csi-force-lltf"@) && !"csi-force-lltf"@.contains('='),
        cli::is_plain("csi-vht"@) && !"csi-vht"@.contains('='),
        cli::is_plain("val-scale-cfg"@) && !"val-scale-cfg"@.contains('='),
        cli::is_plain("on"@),
        cli::is_plain("off"@),
{
    reveal_strlit("lltf");
    reveal_strlit("htltf");
    reveal_strlit("stbc-htltf");
    reveal_strlit("ltf-merge");
    reveal_strlit("csi");
    reveal_strlit("csi-legacy");
    reveal_strlit("csi-ht20");
    reveal_strlit("csi-ht40");
    reveal_strlit("dump-ack");
    reveal_strlit("csi-force-lltf");
    reveal_strlit("csi-vht");
    reveal_strlit("val-scale-cfg");
    reveal_strlit("on");
    reveal_strlit("off");
}

proof fn lemma_command_has_no_flags()
    ensures
        cli::read("set-csi"@).quote is None,
        cli::flags_of("set-csi"@) == Seq::<(Seq<char>, Seq<char>)>::empty(),
{
    reveal_strlit("set-csi");
    let none = Seq::<char>::empty();
    let command = "set-csi"@;
    cli::lemma_read_plain(none, command);
    assert(none + command =~= command);
    assert(cli::read(command).words =~= seq![command]);
    reveal_with_fuel(cli::flags_among, 2);
    assert(cli::read(command).words.drop_last() =~= Seq::empty());
    assert(command[0] != '-');
}

/// A slot of the cache takes the value that is given, as it is or as 1 and 0, and keeps its own
/// where none is.
pub proof fn law_slots_keep_or_take(
    flag: &mut Option<bool>,
    number: &mut Option<u32>,
    value: Option<bool>,
)
    ensures
        call_ensures(apply_bool_cache, (flag, value), ()) ==> {
            &&& value is Some ==> *final(flag) == value
            &&& value is None ==> *final(flag) == *old(flag)
        },
        call_ensures(apply_u32_cache, (number, value), ()) ==> {
            &&& value == Some(true) ==> *final(number) == Some(1u32)
            &&& value == Some(false) ==> *final(number) == Some(0u32)
            &&& value is None ==> *final(number) == *old(number)
        },
{
}

} // verus!
