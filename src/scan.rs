//! The decisions of a scan: which discovered paths go to the decoders, and
//! how many workers decode them.

use vstd::prelude::*;
use crate::discovery::{candidates_spec, collect_candidates};
use crate::ingest::{worker_count, worker_count_spec};
use crate::store::{unstored_paths, ProjectStore};
use crate::text::string_views;

verus! {

/// A scan of explicit paths; without `force`, paths already stored are skipped.
pub struct ScanCommand {
    pub paths: Vec<String>,
    pub force: bool,
}

impl ScanCommand {
    /// The paths to decode, out of the paths that discovery `found`: the
    /// project files among them, each once, without those already stored
    /// unless `force` is set.
    pub fn paths_to_process(&self, store: &ProjectStore, found: Vec<String>) -> (r: Vec<String>)
        requires
            store.wf(),
        ensures
            self.force ==> string_views(r@) == candidates_spec(string_views(found@)),
            !self.force ==> exists|c: Seq<String>|
                #[trigger] string_views(c) == candidates_spec(string_views(found@))
                    && r@ == unstored_paths(store.model().records, c),
    {
        let candidates = collect_candidates(found);
        if self.force {
            candidates
        } else {
            let ghost c = candidates@;
            let r = store.filter_existing_projects(candidates);
            assert(string_views(c) == candidates_spec(string_views(found@)));
            r
        }
    }

    /// The number of workers for `total` paths.
    pub fn workers_for(&self, total: usize) -> (r: usize)
        ensures
            r == worker_count_spec(total as int),
    {
        worker_count(total)
    }
}

} // verus!
