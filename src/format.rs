//! Classification of dev-identifiers into plugin formats.

use vstd::prelude::*;
use crate::text::{chars_of, starts_with_chars, starts_with_seq};

verus! {

/// The format of a plugin, as told by its dev-identifier.
#[derive(Clone, Copy, Debug, PartialEq, Eq, Structural)]
pub enum PluginFormat {
    VST2Instrument,
    VST2AudioFx,
    VST3Instrument,
    VST3AudioFx,
    Unclassified,
}

pub open spec fn vst3_instr_prefix() -> Seq<char> {
    "device:vst3:instr:"@
}

pub open spec fn vst3_audiofx_prefix() -> Seq<char> {
    "device:vst3:audiofx:"@
}

pub open spec fn vst2_instr_prefix() -> Seq<char> {
    "device:vst:instr:"@
}

pub open spec fn vst2_audiofx_prefix() -> Seq<char> {
    "device:vst:audiofx:"@
}

/// The format named by a dev-identifier's prefix, if it is one of the four known ones.
pub open spec fn format_of(id: Seq<char>) -> Option<PluginFormat> {
    if starts_with_seq(id, vst3_instr_prefix()) {
        Some(PluginFormat::VST3Instrument)
    } else if starts_with_seq(id, vst3_audiofx_prefix()) {
        Some(PluginFormat::VST3AudioFx)
    } else if starts_with_seq(id, vst2_instr_prefix()) {
        Some(PluginFormat::VST2Instrument)
    } else if starts_with_seq(id, vst2_audiofx_prefix()) {
        Some(PluginFormat::VST2AudioFx)
    } else {
        None
    }
}

/// The total classification: unknown prefixes are `Unclassified`.
pub open spec fn classify_spec(id: Seq<char>) -> PluginFormat {
    match format_of(id) {
        Some(f) => f,
        None => PluginFormat::Unclassified,
    }
}

/// The display name of a format.
pub open spec fn format_name_spec(f: PluginFormat) -> Seq<char> {
    match f {
        PluginFormat::VST2Instrument => "VST2 Instrument"@,
        PluginFormat::VST2AudioFx => "VST2 Audio FX"@,
        PluginFormat::VST3Instrument => "VST3 Instrument"@,
        PluginFormat::VST3AudioFx => "VST3 Audio FX"@,
        PluginFormat::Unclassified => "Unclassified"@,
    }
}

impl PluginFormat {
    /// The display name of this format (`"VST3 Instrument"`, ...).
    pub fn name(&self) -> (r: String)
        ensures
            r@ == format_name_spec(*self),
    {
        let s = match self {
            PluginFormat::VST2Instrument => "VST2 Instrument",
            PluginFormat::VST2AudioFx => "VST2 Audio FX",
            PluginFormat::VST3Instrument => "VST3 Instrument",
            PluginFormat::VST3AudioFx => "VST3 Audio FX",
            PluginFormat::Unclassified => "Unclassified",
        };
        s.to_owned()
    }
}

/// The format named by `dev_identifier`'s prefix, or `None` for any other prefix.
pub fn parse_plugin_format(dev_identifier: &str) -> (r: Option<PluginFormat>)
    ensures
        r == format_of(dev_identifier@),
{
    let id = chars_of(dev_identifier);
    let p1 = chars_of("device:vst3:instr:");
    let p2 = chars_of("device:vst3:audiofx:");
    let p3 = chars_of("device:vst:instr:");
    let p4 = chars_of("device:vst:audiofx:");
    if starts_with_chars(&id, &p1) {
        Some(PluginFormat::VST3Instrument)
    } else if starts_with_chars(&id, &p2) {
        Some(PluginFormat::VST3AudioFx)
    } else if starts_with_chars(&id, &p3) {
        Some(PluginFormat::VST2Instrument)
    } else if starts_with_chars(&id, &p4) {
        Some(PluginFormat::VST2AudioFx)
    } else {
        None
    }
}

/// Total classification of a dev-identifier; unknown prefixes give `Unclassified`.
pub fn classify(dev_identifier: &str) -> (r: PluginFormat)
    ensures
        r == classify_spec(dev_identifier@),
{
    match parse_plugin_format(dev_identifier) {
        Some(f) => f,
        None => PluginFormat::Unclassified,
    }
}

} // verus!
