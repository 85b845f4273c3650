//! Records that the command-line front end shows: rows of listings and the
//! results of commands. Rendering them as tables or CSV is the front end's
//! concern.

use vstd::prelude::*;
use crate::reconcile::PluginRefreshResult;

verus! {

/// The plugin commands, whose subcommands are listed by the front end.
pub struct PluginCommand;

/// The sample commands.
pub struct SampleCommand;

/// The tag commands.
pub struct TagCommand;

/// The task commands.
pub struct TaskCommand;

/// The collection commands.
pub struct CollectionCommand;

/// The configuration commands.
pub struct ConfigCommand;

/// One plugin in a listing.
#[derive(Clone, Debug)]
pub struct PluginRow {
    pub id: String,
    pub name: String,
    pub vendor: String,
    pub format: String,
    pub installed: bool,
    pub usage_count: i32,
    pub project_count: i32,
}

/// A page of plugins.
#[derive(Clone, Debug)]
pub struct PluginsList {
    pub displayed: Vec<PluginRow>,
    pub total_count: usize,
    pub limit: usize,
    pub offset: usize,
}

/// The plugins that matched a search.
#[derive(Clone, Debug)]
pub struct PluginsSearchResults {
    pub query: String,
    pub displayed: Vec<PluginRow>,
    pub total_count: usize,
}

/// The outcome of a plugin reconciliation pass.
#[derive(Clone, Copy, Debug)]
pub struct PluginRefreshDisplay {
    pub result: PluginRefreshResult,
}

/// One sample in a listing.
#[derive(Clone, Debug)]
pub struct SampleRow {
    pub id: String,
    pub name: String,
    pub path: String,
    pub status: &'static str,
}

/// A page of samples.
#[derive(Clone, Debug)]
pub struct SamplesList {
    pub displayed: Vec<SampleRow>,
    pub total_count: usize,
    pub limit: usize,
    pub offset: usize,
}

/// The samples that matched a search.
#[derive(Clone, Debug)]
pub struct SamplesSearchResults {
    pub query: String,
    pub displayed: Vec<SampleRow>,
    pub total_count: usize,
}

/// One tag in a listing.
#[derive(Clone, Debug)]
pub struct TagRow {
    pub id: String,
    pub name: String,
    pub project_count: i32,
    pub usage_percentage: String,
}

/// The tags.
#[derive(Clone, Debug)]
pub struct TagsList {
    pub displayed: Vec<TagRow>,
    pub total_count: usize,
}

/// One collection in a listing.
#[derive(Clone, Debug)]
pub struct CollectionRow {
    pub id: String,
    pub name: String,
    pub description: String,
}

/// The collections.
#[derive(Clone, Debug)]
pub struct CollectionsList {
    pub displayed: Vec<CollectionRow>,
    pub total_count: usize,
}

/// The status text of a sample row.
pub open spec fn sample_status_spec(present: bool) -> &'static str {
    if present {
        "Present"
    } else {
        "Missing"
    }
}

impl SampleRow {
    /// The status shown for a sample: `"Present"` or `"Missing"`.
    pub fn status_of(present: bool) -> (r: &'static str)
        ensures
            r == sample_status_spec(present),
    {
        if present {
            "Present"
        } else {
            "Missing"
        }
    }
}

} // verus!
