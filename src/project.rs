//! The structured record decoded from one project file.

use vstd::prelude::*;

verus! {

/// A plugin used by a project, referenced by its dev-identifier.
#[derive(Clone, Debug)]
pub struct PluginRef {
    pub dev_identifier: String,
    pub name: String,
    pub vendor: Option<String>,
}

/// A musical time signature.
#[derive(Clone, Copy, Debug, PartialEq, Eq, Structural)]
pub struct TimeSignature {
    pub numerator: u32,
    pub denominator: u32,
}

/// One decoded project file. Tempo is kept in thousandths of a beat per
/// minute, durations in milliseconds, timestamps in seconds since the epoch.
#[derive(Clone, Debug)]
pub struct ParsedProject {
    pub name: String,
    pub path: String,
    pub tempo_millibpm: u64,
    pub time_signature: TimeSignature,
    pub key_signature: Option<String>,
    pub duration_ms: u64,
    pub plugins: Vec<PluginRef>,
    pub samples: Vec<String>,
    pub tags: Vec<String>,
    pub created: i64,
    pub modified: i64,
}

} // verus!
