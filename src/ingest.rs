//! Batched ingestion: sizing the worker pool and accounting for the result
//! that each submitted path must produce.

use vstd::prelude::*;
use vstd::multiset::Multiset;
use crate::project::ParsedProject;
use crate::text::find_string;

verus! {

broadcast use vstd::seq_lib::group_to_multiset_ensures;

/// The per-path outcome of decoding one project file.
#[derive(Clone, Debug)]
pub enum IngestResult {
    Success { path: String, project: ParsedProject },
    Failure { path: String, error: String },
}

impl IngestResult {
    pub open spec fn path_view(&self) -> Seq<char> {
        match self {
            IngestResult::Success { path, .. } => path@,
            IngestResult::Failure { path, .. } => path@,
        }
    }

    /// The path that produced this result.
    pub fn path(&self) -> (r: &String)
        ensures
            r@ == self.path_view(),
    {
        match self {
            IngestResult::Success { path, .. } => path,
            IngestResult::Failure { path, .. } => path,
        }
    }

    /// Whether the file was decoded.
    pub fn is_success(&self) -> (r: bool)
        ensures
            r == (self is Success),
    {
        match self {
            IngestResult::Success { .. } => true,
            IngestResult::Failure { .. } => false,
        }
    }
}

/// The number of workers for a batch of `total` paths: half the batch, but
/// at least one and at most four.
pub open spec fn worker_count_spec(total: int) -> int {
    if total / 2 < 1 {
        1
    } else if total / 2 > 4 {
        4
    } else {
        total / 2
    }
}

/// The number of workers to start for a batch of `total` paths.
pub fn worker_count(total: usize) -> (r: usize)
    ensures
        r == worker_count_spec(total as int),
        1 <= r <= 4,
{
    let half = total / 2;
    if half < 1 {
        1
    } else if half > 4 {
        4
    } else {
        half
    }
}

/// The views of a sequence of paths.
pub open spec fn path_views(ps: Seq<String>) -> Seq<Seq<char>> {
    ps.map_values(|p: String| p@)
}

/// The paths carried by a sequence of results, in order.
pub open spec fn result_paths(rs: Seq<IngestResult>) -> Seq<Seq<char>> {
    rs.map_values(|r: IngestResult| r.path_view())
}

/// The number of successes among `rs`.
pub open spec fn success_count(rs: Seq<IngestResult>) -> nat {
    rs.filter(|r: IngestResult| r is Success).len()
}

/// The number of failures among `rs`.
pub open spec fn failure_count(rs: Seq<IngestResult>) -> nat {
    rs.filter(|r: IngestResult| r is Failure).len()
}

/// Why a batch refused a result.
#[derive(Clone, Copy, Debug, PartialEq, Eq, Structural)]
pub enum BatchError {
    /// The result's path is not among the paths still awaited.
    UnexpectedPath,
}

/// The account of one submitted batch: the paths submitted, those whose
/// result has not come back yet, and the results received so far.
pub struct IngestBatch {
    submitted: Vec<String>,
    outstanding: Vec<String>,
    results: Vec<IngestResult>,
}

impl IngestBatch {
    pub closed spec fn submitted_paths(&self) -> Seq<Seq<char>> {
        path_views(self.submitted@)
    }

    pub closed spec fn outstanding_paths(&self) -> Seq<Seq<char>> {
        path_views(self.outstanding@)
    }

    pub closed spec fn received(&self) -> Seq<IngestResult> {
        self.results@
    }

    /// Every submitted path is either awaited or accounted for by exactly one result.
    pub open spec fn wf(&self) -> bool {
        result_paths(self.received()).to_multiset().add(self.outstanding_paths().to_multiset())
            == self.submitted_paths().to_multiset()
    }

    /// A batch that awaits one result for each of `paths`.
    pub fn new(paths: Vec<String>) -> (r: IngestBatch)
        ensures
            r.wf(),
            r.submitted_paths() == path_views(paths@),
            r.outstanding_paths() == path_views(paths@),
            r.received().len() == 0,
    {
        let outstanding = paths.clone();
        proof {
            assert(result_paths(Seq::<IngestResult>::empty()) =~= Seq::<Seq<char>>::empty());
            assert(path_views(outstanding@) =~= path_views(paths@)) by {
                assert forall|i: int| 0 <= i < paths@.len() implies outstanding@[i]@ == paths@[i]@ by {
                    assert(vstd::pervasive::cloned(paths@[i], outstanding@[i]));
                }
            }
        }
        let r = IngestBatch { submitted: paths, outstanding, results: Vec::new() };
        proof {
            assert(result_paths(r.results@) =~= Seq::<Seq<char>>::empty());
            assert(result_paths(r.results@).to_multiset() =~= Multiset::empty());
            assert(result_paths(r.results@).to_multiset().add(r.outstanding_paths().to_multiset())
                =~= r.submitted_paths().to_multiset());
        }
        r
    }

    /// The number of results still awaited.
    pub fn remaining(&self) -> (r: usize)
        ensures
            r == self.outstanding_paths().len(),
    {
        self.outstanding.len()
    }

    /// Whether every submitted path has produced its result.
    pub fn is_complete(&self) -> (r: bool)
        ensures
            r == (self.outstanding_paths().len() == 0),
    {
        self.outstanding.len() == 0
    }

    /// Records a result. It is accepted only if its path is still awaited,
    /// and then that path is awaited once less.
    pub fn accept(&mut self, result: IngestResult) -> (r: Result<(), BatchError>)
        requires
            old(self).wf(),
        ensures
            final(self).wf(),
            final(self).submitted_paths() == old(self).submitted_paths(),
            r is Ok == old(self).outstanding_paths().contains(result.path_view()),
            r is Ok ==> final(self).received() == old(self).received().push(result),
            r is Ok ==> final(self).outstanding_paths().to_multiset()
                == old(self).outstanding_paths().to_multiset().remove(result.path_view()),
            r is Err ==> *final(self) == *old(self),
    {
        let i = match find_string(&self.outstanding, result.path()) {
            Some(i) => i,
            None => {
                proof {
                    if self.outstanding_paths().contains(result.path_view()) {
                        let k = choose|k: int|
                            0 <= k < self.outstanding_paths().len()
                                && self.outstanding_paths()[k] == result.path_view();
                        assert(self.outstanding@[k]@ == result.path_view());
                    }
                }
                return Err(BatchError::UnexpectedPath);
            },
        };
        proof {
            assert(self.outstanding_paths()[i as int] == result.path_view());
        }
        let ghost old_out = self.outstanding@;
        let ghost old_res = self.results@;
        proof {
            assert(path_views(old_out)[i as int] == result.path_view());
        }
        self.outstanding.remove(i);
        self.results.push(result);
        proof {
            assert(path_views(self.outstanding@) =~= path_views(old_out).remove(i as int));
            assert(result_paths(self.results@) =~= result_paths(old_res).push(result.path_view()));
            let p = result.path_view();
            let a = result_paths(old_res).to_multiset();
            let b = path_views(old_out).to_multiset();
            assert(a.insert(p).add(b.remove(p)) =~= a.add(b));
        }
        Ok(())
    }

    /// The results received so far, in the order they came.
    pub fn results(&self) -> (r: &Vec<IngestResult>)
        ensures
            r@ == self.received(),
    {
        &self.results
    }

    /// Ends the batch and hands over its results.
    pub fn into_results(self) -> (r: Vec<IngestResult>)
        ensures
            r@ == self.received(),
    {
        self.results
    }
}

/// Once no path is awaited any more, a batch holds exactly one result per
/// submitted path: as many results as submissions, and the paths across the
/// results are the submitted paths, each as often as it was submitted.
pub proof fn lemma_complete_batch_matches_submission(b: IngestBatch)
    requires
        b.wf(),
        b.outstanding_paths().len() == 0,
    ensures
        b.received().len() == b.submitted_paths().len(),
        result_paths(b.received()).to_multiset() == b.submitted_paths().to_multiset(),
{
    assert(b.outstanding_paths() =~= Seq::<Seq<char>>::empty());
    assert(b.outstanding_paths().to_multiset() =~= Multiset::empty());
    assert(result_paths(b.received()).to_multiset().add(Multiset::empty())
        =~= result_paths(b.received()).to_multiset());
    assert(result_paths(b.received()).len() == b.received().len());
    assert(result_paths(b.received()).to_multiset().len() == b.submitted_paths().to_multiset().len());
    assert(b.submitted_paths().len() == b.submitted_paths().to_multiset().len());
}

/// The numbers of successes and of failures among `results`.
pub fn tally(results: &Vec<IngestResult>) -> (r: (usize, usize))
    ensures
        r.0 == success_count(results@),
        r.1 == failure_count(results@),
        r.0 + r.1 == results@.len(),
{
    let mut s: usize = 0;
    let mut f: usize = 0;
    let mut i: usize = 0;
    while i < results.len()
        invariant
            i <= results@.len(),
            s == success_count(results@.subrange(0, i as int)),
            f == failure_count(results@.subrange(0, i as int)),
            s + f == i,
        decreases results@.len() - i,
    {
        proof {
            let pre = results@.subrange(0, i as int);
            let next = results@.subrange(0, i + 1);
            assert(next.drop_last() =~= pre);
            reveal(Seq::filter);
        }
        if results[i].is_success() {
            s = s + 1;
        } else {
            f = f + 1;
        }
        i = i + 1;
    }
    assert(results@.subrange(0, results@.len() as int) =~= results@);
    (s, f)
}

} // verus!
