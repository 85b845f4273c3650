//! The project store: at most one record per filesystem path, each with a
//! stable identifier handed out by the store.

use vstd::prelude::*;
use crate::project::ParsedProject;
use crate::ingest::{failure_count, success_count, IngestResult};

verus! {

/// A project as kept by the store, under the identifier it was given.
#[derive(Clone, Debug)]
pub struct StoredProject {
    pub id: u64,
    pub project: ParsedProject,
}

/// Why the store refused a write.
#[derive(Clone, Copy, Debug, PartialEq, Eq, Structural)]
pub enum StoreError {
    /// Every identifier has been handed out.
    IdsExhausted,
}

/// What an insert did.
#[derive(Clone, Copy, Debug, PartialEq, Eq, Structural)]
pub enum InsertOutcome {
    /// A new record was stored under this identifier.
    Inserted(u64),
    /// The path was already stored and the record under this identifier was replaced.
    Replaced(u64),
    /// The path was already stored and nothing was written.
    Skipped(u64),
}

/// The owner of all stored projects.
pub struct ProjectStore {
    records: Vec<StoredProject>,
    next_id: u64,
}

/// The abstract state of a store: its records in insertion order and the
/// next identifier to hand out.
pub struct StoreModel {
    pub records: Seq<StoredProject>,
    pub next_id: u64,
}

/// Some record of `recs` holds `path`.
pub open spec fn has_path(recs: Seq<StoredProject>, path: Seq<char>) -> bool {
    exists|i: int| 0 <= i < recs.len() && #[trigger] recs[i].project.path@ == path
}

/// The index of the record holding `path` (meaningful when `has_path`).
pub open spec fn index_of_path(recs: Seq<StoredProject>, path: Seq<char>) -> int {
    choose|i: int| 0 <= i < recs.len() && #[trigger] recs[i].project.path@ == path
}

/// Paths are unique and every identifier is below the next one to hand out, and distinct.
pub open spec fn model_wf(m: StoreModel) -> bool {
    &&& forall|i: int, j: int|
        0 <= i < m.records.len() && 0 <= j < m.records.len() && i != j
            ==> #[trigger] m.records[i].project.path@ != #[trigger] m.records[j].project.path@
    &&& forall|i: int, j: int|
        0 <= i < m.records.len() && 0 <= j < m.records.len() && i != j
            ==> #[trigger] m.records[i].id != #[trigger] m.records[j].id
    &&& forall|i: int| 0 <= i < m.records.len() ==> #[trigger] m.records[i].id < m.next_id
}

/// The state after inserting `p`, and the outcome: an already stored path is
/// left alone unless `force`, in which case its record is replaced under the
/// same identifier; a new path gets the next identifier.
pub open spec fn insert_spec(m: StoreModel, p: ParsedProject, force: bool) -> (StoreModel, Result<InsertOutcome, StoreError>) {
    if has_path(m.records, p.path@) {
        let i = index_of_path(m.records, p.path@);
        let id = m.records[i].id;
        if force {
            (
                StoreModel { records: m.records.update(i, StoredProject { id, project: p }), next_id: m.next_id },
                Ok(InsertOutcome::Replaced(id)),
            )
        } else {
            (m, Ok(InsertOutcome::Skipped(id)))
        }
    } else if m.next_id == u64::MAX {
        (m, Err(StoreError::IdsExhausted))
    } else {
        (
            StoreModel {
                records: m.records.push(StoredProject { id: m.next_id, project: p }),
                next_id: (m.next_id + 1) as u64,
            },
            Ok(InsertOutcome::Inserted(m.next_id)),
        )
    }
}

/// The state after storing each success of `rs` in turn, with the numbers of
/// results stored and of results that failed (to decode, or to be stored).
pub open spec fn apply_results(m: StoreModel, rs: Seq<IngestResult>, force: bool) -> (StoreModel, nat, nat)
    decreases rs.len(),
{
    if rs.len() == 0 {
        (m, 0, 0)
    } else {
        let (m1, ok, bad) = apply_results(m, rs.drop_last(), force);
        match rs.last() {
            IngestResult::Success { project, .. } => {
                let (m2, out) = insert_spec(m1, project, force);
                if out is Ok {
                    (m2, ok + 1, bad)
                } else {
                    (m2, ok, bad + 1)
                }
            },
            IngestResult::Failure { .. } => (m1, ok, bad + 1),
        }
    }
}

/// The paths of `ps` that no record of `recs` holds, in their order.
pub open spec fn unstored_paths(recs: Seq<StoredProject>, ps: Seq<String>) -> Seq<String> {
    ps.filter(|p: String| !has_path(recs, p@))
}

proof fn lemma_apply_counts(m: StoreModel, rs: Seq<IngestResult>, force: bool)
    ensures
        apply_results(m, rs, force).1 + apply_results(m, rs, force).2 == rs.len(),
    decreases rs.len(),
{
    if rs.len() > 0 {
        lemma_apply_counts(m, rs.drop_last(), force);
    }
}

proof fn lemma_insert_keeps_wf(m: StoreModel, p: ParsedProject, force: bool)
    requires
        model_wf(m),
    ensures
        model_wf(insert_spec(m, p, force).0),
        has_path(insert_spec(m, p, force).0.records, p.path@) || insert_spec(m, p, force).1 is Err,
        forall|q: Seq<char>| has_path(m.records, q) ==> has_path(#[trigger] insert_spec(m, p, force).0.records, q),
{
    let m2 = insert_spec(m, p, force).0;
    if has_path(m.records, p.path@) {
        let i = index_of_path(m.records, p.path@);
        assert forall|q: Seq<char>| has_path(m.records, q) implies has_path(#[trigger] insert_spec(m, p, force).0.records, q) by {
            let j = choose|j: int| 0 <= j < m.records.len() && #[trigger] m.records[j].project.path@ == q;
            assert(m2.records[j].project.path@ == q);
        }
        if force {
            assert(m2.records[i].project.path@ == p.path@);
            assert forall|a: int, b: int|
                0 <= a < m2.records.len() && 0 <= b < m2.records.len() && a != b
                implies #[trigger] m2.records[a].project.path@ != #[trigger] m2.records[b].project.path@ by {
                assert(m.records[a].project.path@ != m.records[b].project.path@);
            }
            assert forall|a: int, b: int|
                0 <= a < m2.records.len() && 0 <= b < m2.records.len() && a != b
                implies #[trigger] m2.records[a].id != #[trigger] m2.records[b].id by {
                assert(m.records[a].id != m.records[b].id);
            }
            assert forall|a: int| 0 <= a < m2.records.len() implies #[trigger] m2.records[a].id < m2.next_id by {
                assert(m.records[a].id < m.next_id);
            }
        }
    } else if m.next_id != u64::MAX {
        let n = m.records.len() as int;
        assert(m2.records[n].project.path@ == p.path@);
        assert forall|q: Seq<char>| has_path(m.records, q) implies has_path(#[trigger] insert_spec(m, p, force).0.records, q) by {
            let j = choose|j: int| 0 <= j < m.records.len() && #[trigger] m.records[j].project.path@ == q;
            assert(m2.records[j].project.path@ == q);
        }
        assert forall|a: int, b: int|
            0 <= a < m2.records.len() && 0 <= b < m2.records.len() && a != b
            implies #[trigger] m2.records[a].project.path@ != #[trigger] m2.records[b].project.path@ by {
            if a < n && b < n {
                assert(m.records[a].project.path@ != m.records[b].project.path@);
            } else if a < n {
                assert(m.records[a].project.path@ != p.path@);
            } else {
                assert(m.records[b].project.path@ != p.path@);
            }
        }
        assert forall|a: int, b: int|
            0 <= a < m2.records.len() && 0 <= b < m2.records.len() && a != b
            implies #[trigger] m2.records[a].id != #[trigger] m2.records[b].id by {
            if a < n && b < n {
                assert(m.records[a].id != m.records[b].id);
            } else if a < n {
                assert(m.records[a].id < m.next_id);
            } else {
                assert(m.records[b].id < m.next_id);
            }
        }
        assert forall|a: int| 0 <= a < m2.records.len() implies #[trigger] m2.records[a].id < m2.next_id by {
            if a < n {
                assert(m.records[a].id < m.next_id);
            }
        }
    }
}

/// Storing a batch keeps the store well formed and loses no stored path.
pub proof fn lemma_apply_keeps_wf(m: StoreModel, rs: Seq<IngestResult>, force: bool)
    requires
        model_wf(m),
    ensures
        model_wf(apply_results(m, rs, force).0),
        forall|q: Seq<char>| has_path(m.records, q) ==> has_path(#[trigger] apply_results(m, rs, force).0.records, q),
    decreases rs.len(),
{
    if rs.len() > 0 {
        lemma_apply_keeps_wf(m, rs.drop_last(), force);
        let m1 = apply_results(m, rs.drop_last(), force).0;
        match rs.last() {
            IngestResult::Success { project, .. } => {
                lemma_insert_keeps_wf(m1, project, force);
            },
            IngestResult::Failure { .. } => {},
        }
    }
}

/// Storing, without force, results whose paths are all stored already changes
/// nothing and stores nothing new: ingestion without force is idempotent.
pub proof fn lemma_unforced_reingest_is_noop(m: StoreModel, rs: Seq<IngestResult>)
    requires
        model_wf(m),
        forall|i: int| 0 <= i < rs.len() ==> has_path(m.records, #[trigger] rs[i].path_view()),
        forall|i: int| 0 <= i < rs.len() && #[trigger] rs[i] is Success ==> rs[i]->Success_project.path@ == rs[i].path_view(),
    ensures
        apply_results(m, rs, false).0 == m,
    decreases rs.len(),
{
    if rs.len() > 0 {
        let init = rs.drop_last();
        assert forall|i: int| 0 <= i < init.len() implies has_path(m.records, #[trigger] init[i].path_view()) by {
            assert(init[i] == rs[i]);
        }
        assert forall|i: int| 0 <= i < init.len() && #[trigger] init[i] is Success implies init[i]->Success_project.path@ == init[i].path_view() by {
            assert(init[i] == rs[i]);
        }
        lemma_unforced_reingest_is_noop(m, init);
        assert(has_path(m.records, rs[rs.len() - 1].path_view()));
    }
}

/// After a batch has been stored, the paths of its successes that were stored
/// are held by the store, so a second discovery of the same paths leaves
/// nothing to submit without force.
pub proof fn lemma_second_pass_submits_nothing(m: StoreModel, rs: Seq<IngestResult>, force: bool, paths: Seq<String>)
    requires
        model_wf(m),
        forall|i: int| 0 <= i < paths.len() ==> has_path(apply_results(m, rs, force).0.records, #[trigger] paths[i]@),
    ensures
        unstored_paths(apply_results(m, rs, force).0.records, paths).len() == 0,
{
    let recs = apply_results(m, rs, force).0.records;
    let out = unstored_paths(recs, paths);
    broadcast use vstd::seq_lib::group_filter_ensures;
    if out.len() > 0 {
        let pred = |p: String| !has_path(recs, p@);
        assert(out.contains(out[0]));
        paths.lemma_filter_contains_rev(pred, out[0]);
        paths.lemma_filter_pred(pred, 0);
        let k = choose|k: int| 0 <= k < paths.len() && paths[k] == out[0];
        assert(has_path(recs, paths[k]@));
    }
}

/// Every path of a success that was stored is held by the store afterwards.
pub proof fn lemma_stored_successes_are_held(m: StoreModel, rs: Seq<IngestResult>, force: bool)
    requires
        model_wf(m),
        apply_results(m, rs, force).2 == 0,
    ensures
        forall|i: int| 0 <= i < rs.len() && #[trigger] rs[i] is Success
            ==> has_path(apply_results(m, rs, force).0.records, rs[i]->Success_project.path@),
    decreases rs.len(),
{
    if rs.len() > 0 {
        let init = rs.drop_last();
        let (m1, ok1, bad1) = apply_results(m, init, force);
        lemma_apply_keeps_wf(m, init, force);
        let m2 = apply_results(m, rs, force).0;
        match rs.last() {
            IngestResult::Success { project, .. } => {
                lemma_insert_keeps_wf(m1, project, force);
            },
            IngestResult::Failure { .. } => {},
        }
        lemma_stored_successes_are_held(m, init, force);
        assert forall|i: int| 0 <= i < rs.len() && #[trigger] rs[i] is Success
            implies has_path(m2.records, rs[i]->Success_project.path@) by {
            if i < rs.len() - 1 {
                assert(init[i] == rs[i]);
                assert(has_path(m1.records, rs[i]->Success_project.path@));
            }
        }
    }
}

/// Storing without force a batch whose successes are new paths, no two
/// alike, stores one new record per success and nothing else, as long as
/// identifiers last.
pub proof fn lemma_fresh_batch_stores_each_success(m: StoreModel, rs: Seq<IngestResult>)
    requires
        model_wf(m),
        forall|i: int| 0 <= i < rs.len() && #[trigger] rs[i] is Success ==> !has_path(m.records, rs[i]->Success_project.path@),
        forall|i: int, j: int| 0 <= i < j < rs.len() && #[trigger] rs[i] is Success && #[trigger] rs[j] is Success
            ==> rs[i]->Success_project.path@ != rs[j]->Success_project.path@,
        m.next_id + rs.len() < u64::MAX,
    ensures
        apply_results(m, rs, false).0.records.len() == m.records.len() + apply_results(m, rs, false).1,
        apply_results(m, rs, false).0.next_id == m.next_id + apply_results(m, rs, false).1,
        apply_results(m, rs, false).1 == success_count(rs),
        apply_results(m, rs, false).2 == failure_count(rs),
        forall|q: Seq<char>| #[trigger] has_path(apply_results(m, rs, false).0.records, q) ==> has_path(m.records, q)
            || exists|i: int| 0 <= i < rs.len() && #[trigger] rs[i] is Success && rs[i]->Success_project.path@ == q,
    decreases rs.len(),
{
    if rs.len() > 0 {
        let init = rs.drop_last();
        let n = rs.len() - 1;
        assert forall|i: int| 0 <= i < init.len() && #[trigger] init[i] is Success implies !has_path(m.records, init[i]->Success_project.path@) by {
            assert(init[i] == rs[i]);
        }
        assert forall|i: int, j: int| 0 <= i < j < init.len() && #[trigger] init[i] is Success && #[trigger] init[j] is Success
            implies init[i]->Success_project.path@ != init[j]->Success_project.path@ by {
            assert(init[i] == rs[i] && init[j] == rs[j]);
        }
        lemma_fresh_batch_stores_each_success(m, init);
        lemma_apply_counts(m, init, false);
        let (m1, ok1, bad1) = apply_results(m, init, false);
        let m2 = apply_results(m, rs, false).0;
        reveal(Seq::filter);
        assert(rs.drop_last() == init);
        match rs.last() {
            IngestResult::Success { project, .. } => {
                let p = project.path@;
                assert(rs[n] is Success);
                if has_path(m1.records, p) {
                    if !has_path(m.records, p) {
                        let i = choose|i: int| 0 <= i < init.len() && #[trigger] init[i] is Success && init[i]->Success_project.path@ == p;
                        assert(init[i] == rs[i]);
                        assert(false);
                    }
                }
                assert(!has_path(m1.records, p));
                assert(m2.records == m1.records.push(StoredProject { id: m1.next_id, project }));
                assert forall|q: Seq<char>| #[trigger] has_path(m2.records, q) implies has_path(m.records, q)
                    || exists|i: int| 0 <= i < rs.len() && #[trigger] rs[i] is Success && rs[i]->Success_project.path@ == q by {
                    let k = choose|k: int| 0 <= k < m2.records.len() && #[trigger] m2.records[k].project.path@ == q;
                    if k < m1.records.len() {
                        assert(m1.records[k] == m2.records[k]);
                        assert(has_path(m1.records, q));
                        if !has_path(m.records, q) {
                            let i = choose|i: int| 0 <= i < init.len() && #[trigger] init[i] is Success && init[i]->Success_project.path@ == q;
                            assert(init[i] == rs[i]);
                        }
                    } else {
                        assert(rs[n]->Success_project.path@ == q);
                    }
                }
            },
            IngestResult::Failure { .. } => {
                assert(rs[n] is Failure);
                assert forall|q: Seq<char>| #[trigger] has_path(m2.records, q) implies has_path(m.records, q)
                    || exists|i: int| 0 <= i < rs.len() && #[trigger] rs[i] is Success && rs[i]->Success_project.path@ == q by {
                    if !has_path(m.records, q) {
                        let i = choose|i: int| 0 <= i < init.len() && #[trigger] init[i] is Success && init[i]->Success_project.path@ == q;
                        assert(init[i] == rs[i]);
                    }
                }
            },
        }
    }
}

impl ProjectStore {
    pub closed spec fn model(&self) -> StoreModel {
        StoreModel { records: self.records@, next_id: self.next_id }
    }

    pub open spec fn wf(&self) -> bool {
        model_wf(self.model())
    }

    /// An empty store.
    pub fn new() -> (r: ProjectStore)
        ensures
            r.wf(),
            r.model().records.len() == 0,
            r.model().next_id == 1,
    {
        ProjectStore { records: Vec::new(), next_id: 1 }
    }

    /// The number of stored projects.
    pub fn len(&self) -> (r: usize)
        ensures
            r == self.model().records.len(),
    {
        self.records.len()
    }

    /// The stored records, in insertion order.
    pub fn records(&self) -> (r: &Vec<StoredProject>)
        ensures
            r@ == self.model().records,
    {
        &self.records
    }

    /// The index of the record that holds `path`, if any.
    fn find_path(&self, path: &String) -> (r: Option<usize>)
        requires
            self.wf(),
        ensures
            r.is_some() == has_path(self.model().records, path@),
            r.is_some() ==> r.unwrap() == index_of_path(self.model().records, path@),
    {
        let mut i: usize = 0;
        while i < self.records.len()
            invariant
                self.wf(),
                i <= self.records@.len(),
                forall|j: int| 0 <= j < i ==> #[trigger] self.records@[j].project.path@ != path@,
            decreases self.records@.len() - i,
        {
            if self.records[i].project.path == *path {
                let ghost k = index_of_path(self.records@, path@);
                assert(self.records@[k].project.path@ == path@);
                assert(k == i as int);
                return Some(i);
            }
            i = i + 1;
        }
        None
    }

    /// The stored record for `path`, if any.
    pub fn get_project_by_path(&self, path: &String) -> (r: Option<&StoredProject>)
        requires
            self.wf(),
        ensures
            r.is_some() == has_path(self.model().records, path@),
            r.is_some() ==> *r.unwrap() == self.model().records[index_of_path(self.model().records, path@)],
    {
        match self.find_path(path) {
            Some(i) => Some(&self.records[i]),
            None => None,
        }
    }

    /// Stores `project`. A path that is already stored is a no-op unless
    /// `force`, in which case its record is replaced, not merged.
    pub fn insert(&mut self, project: ParsedProject, force: bool) -> (r: Result<InsertOutcome, StoreError>)
        requires
            old(self).wf(),
        ensures
            final(self).wf(),
            (final(self).model(), r) == insert_spec(old(self).model(), project, force),
    {
        match self.find_path(&project.path) {
            Some(i) => {
                let id = self.records[i].id;
                if force {
                    let ghost before = self.records@;
                    self.records.set(i, StoredProject { id, project });
                    assert forall|a: int, b: int|
                        0 <= a < self.records@.len() && 0 <= b < self.records@.len() && a != b
                        implies #[trigger] self.records@[a].project.path@ != #[trigger] self.records@[b].project.path@ by {
                        assert(before[a].project.path@ != before[b].project.path@);
                    }
                    assert forall|a: int, b: int|
                        0 <= a < self.records@.len() && 0 <= b < self.records@.len() && a != b
                        implies #[trigger] self.records@[a].id != #[trigger] self.records@[b].id by {
                        assert(before[a].id != before[b].id);
                    }
                    assert forall|a: int| 0 <= a < self.records@.len() implies #[trigger] self.records@[a].id < self.next_id by {
                        assert(before[a].id < self.next_id);
                    }
                    Ok(InsertOutcome::Replaced(id))
                } else {
                    Ok(InsertOutcome::Skipped(id))
                }
            },
            None => {
                if self.next_id == u64::MAX {
                    return Err(StoreError::IdsExhausted);
                }
                let id = self.next_id;
                let ghost before = self.records@;
                self.records.push(StoredProject { id, project });
                self.next_id = id + 1;
                assert forall|a: int, b: int|
                    0 <= a < self.records@.len() && 0 <= b < self.records@.len() && a != b
                    implies #[trigger] self.records@[a].project.path@ != #[trigger] self.records@[b].project.path@ by {
                    if a < before.len() && b < before.len() {
                        assert(before[a].project.path@ != before[b].project.path@);
                    } else if a < before.len() {
                        assert(before[a].project.path@ != self.records@[b].project.path@);
                    } else {
                        assert(before[b].project.path@ != self.records@[a].project.path@);
                    }
                }
                assert forall|a: int, b: int|
                    0 <= a < self.records@.len() && 0 <= b < self.records@.len() && a != b
                    implies #[trigger] self.records@[a].id != #[trigger] self.records@[b].id by {
                    if a < before.len() && b < before.len() {
                        assert(before[a].id != before[b].id);
                    } else if a < before.len() {
                        assert(before[a].id < id);
                    } else {
                        assert(before[b].id < id);
                    }
                }
                assert forall|a: int| 0 <= a < self.records@.len() implies #[trigger] self.records@[a].id < self.next_id by {
                    if a < before.len() {
                        assert(before[a].id < id);
                    }
                }
                Ok(InsertOutcome::Inserted(id))
            },
        }
    }

    /// The paths of `paths` that are not stored yet, in their order.
    pub fn filter_existing_projects(&self, paths: Vec<String>) -> (r: Vec<String>)
        requires
            self.wf(),
        ensures
            r@ == unstored_paths(self.model().records, paths@),
    {
        let mut out: Vec<String> = Vec::new();
        let mut rest = paths;
        let ghost all = rest@;
        let _n = rest.len();
        let mut i: usize = 0;
        while rest.len() > 0
            invariant
                self.wf(),
                i + rest@.len() == all.len(),
                all.len() <= usize::MAX,
                rest@ == all.subrange(i as int, all.len() as int),
                out@ == unstored_paths(self.model().records, all.subrange(0, i as int)),
            decreases rest@.len(),
        {
            let p = rest.remove(0);
            proof {
                let next = all.subrange(0, i + 1);
                assert(next.drop_last() =~= all.subrange(0, i as int));
                assert(next.last() == p);
                reveal(Seq::filter);
                assert(rest@ =~= all.subrange(i + 1, all.len() as int));
            }
            if self.find_path(&p).is_none() {
                out.push(p);
            }
            i = i + 1;
        }
        assert(all.subrange(0, all.len() as int) =~= all);
        out
    }

    /// Stores the successes of `results` in order, each with `insert`, and
    /// returns the number stored and the number that failed to decode or to be
    /// stored.
    pub fn store_results(&mut self, results: Vec<IngestResult>, force: bool) -> (r: (usize, usize))
        requires
            old(self).wf(),
        ensures
            final(self).wf(),
            (final(self).model(), r.0 as nat, r.1 as nat) == apply_results(old(self).model(), results@, force),
            r.0 + r.1 == results@.len(),
    {
        let ghost start = self.model();
        let ghost all = results@;
        let mut rest = results;
        let _n = rest.len();
        let mut ok: usize = 0;
        let mut bad: usize = 0;
        let mut i: usize = 0;
        proof {
            lemma_apply_counts(start, all, force);
        }
        while rest.len() > 0
            invariant
                self.wf(),
                i + rest@.len() == all.len(),
                all.len() <= usize::MAX,
                rest@ == all.subrange(i as int, all.len() as int),
                (self.model(), ok as nat, bad as nat) == apply_results(start, all.subrange(0, i as int), force),
                ok + bad == i,
            decreases rest@.len(),
        {
            let item = rest.remove(0);
            proof {
                let next = all.subrange(0, i + 1);
                assert(next.drop_last() =~= all.subrange(0, i as int));
                assert(next.last() == item);
                assert(rest@ =~= all.subrange(i + 1, all.len() as int));
            }
            match item {
                IngestResult::Success { path: _, project } => {
                    match self.insert(project, force) {
                        Ok(_) => {
                            ok = ok + 1;
                        },
                        Err(_) => {
                            bad = bad + 1;
                        },
                    }
                },
                IngestResult::Failure { .. } => {
                    bad = bad + 1;
                },
            }
            i = i + 1;
        }
        assert(all.subrange(0, all.len() as int) =~= all);
        (ok, bad)
    }
}

} // verus!
