//! Capability seam for optional CSI extensions.
//!
//! The core knows only the protocols, Wi-Fi modes, presets and data-format labels
//! it ships with. A [`CsiProfile`] lets an embedder extend those sets without the
//! core naming any of the extra values. Every method has a default, so the standard
//! profile is empty and an embedder overrides only what it needs.
//!
//! The core states what it makes of whatever a profile answers; it asks nothing of
//! the answers themselves.
use crate::models::CsiConfigSection;
use vstd::prelude::*;

verus! {

/// Optional, embedder-supplied CSI capability extensions.
pub trait CsiProfile: Send + Sync {
    /// Extra `set-protocol` values accepted in addition to the core set.
    fn extra_protocols(&self) -> (r: &'static [&'static str])
        default_ensures
            r@.len() == 0,
    {
        &[]
    }

    /// Extra `set-wifi --mode` values accepted in addition to the core set.
    fn extra_wifi_modes(&self) -> (r: &'static [&'static str])
        default_ensures
            r@.len() == 0,
    {
        &[]
    }

    /// The cached config section that a named CSI preset applies. `None` means that
    /// the preset name is not recognised.
    fn resolve_preset(&self, name: &str) -> (r: Option<CsiConfigSection>)
        default_ensures
            r is None,
    {
        None
    }

    /// The full `set-csi …` command line of a named preset. `None` means that the
    /// preset name is not recognised.
    fn preset_cli(&self, name: &str) -> (r: Option<String>)
        default_ensures
            r is None,
    {
        None
    }

    /// The `data_format` label of a raw `cur_bb_format` value that the core does not
    /// label itself.
    fn label_format(&self, cur_bb_format: u32) -> (r: Option<&'static str>)
        default_ensures
            r is None,
    {
        None
    }
}

/// The default profile: no extra protocols, modes, presets or format labels.
pub struct StandardCsiProfile;

impl CsiProfile for StandardCsiProfile {

}

// ─── Laws ─────────────────────────────────────────────────────────────────

/// The standard profile is a transparent no-op: whatever it is asked, it adds nothing.
pub proof fn law_standard_profile_adds_nothing(
    profile: &StandardCsiProfile,
    name: &str,
    format: u32,
    protocols: &'static [&'static str],
    modes: &'static [&'static str],
    section: Option<CsiConfigSection>,
    line: Option<String>,
    label: Option<&'static str>,
)
    requires
        call_ensures(StandardCsiProfile::extra_protocols, (profile,), protocols),
        call_ensures(StandardCsiProfile::extra_wifi_modes, (profile,), modes),
        call_ensures(StandardCsiProfile::resolve_preset, (profile, name), section),
        call_ensures(StandardCsiProfile::preset_cli, (profile, name), line),
        call_ensures(StandardCsiProfile::label_format, (profile, format), label),
    ensures
        protocols@.len() == 0,
        modes@.len() == 0,
        section is None,
        line is None,
        label is None,
{
}

} // verus!
