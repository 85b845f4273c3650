//! Reconciliation of cached presence flags (a sample file present, a plugin
//! installed) against what was observed. Normal reads never change these
//! flags; only a reconciliation pass does.

use vstd::prelude::*;

verus! {

/// The numbers of a reconciliation pass over sample files.
#[derive(Clone, Copy, Debug, PartialEq, Eq, Structural)]
pub struct SamplePresenceCheckResult {
    pub total_checked: usize,
    pub now_present: usize,
    pub now_missing: usize,
    pub unchanged: usize,
}

/// The numbers of a reconciliation pass over plugins.
#[derive(Clone, Copy, Debug, PartialEq, Eq, Structural)]
pub struct PluginRefreshResult {
    pub total_plugins_checked: usize,
    pub plugins_now_installed: usize,
    pub plugins_now_missing: usize,
    pub plugins_unchanged: usize,
}

/// How many positions go from `from` in `before` to `to` in `after`.
pub open spec fn count_changes(before: Seq<bool>, after: Seq<bool>, from: bool, to: bool) -> nat
    decreases before.len(),
{
    if before.len() == 0 || after.len() == 0 {
        0
    } else {
        count_changes(before.drop_last(), after.drop_last(), from, to) + if before.last() == from
            && after.last() == to {
            1nat
        } else {
            0nat
        }
    }
}

/// How many positions keep their flag.
pub open spec fn count_unchanged(before: Seq<bool>, after: Seq<bool>) -> nat {
    count_changes(before, after, true, true) + count_changes(before, after, false, false)
}

proof fn lemma_counts_sum(before: Seq<bool>, after: Seq<bool>)
    requires
        before.len() == after.len(),
    ensures
        count_changes(before, after, false, true) + count_changes(before, after, true, false)
            + count_unchanged(before, after) == before.len(),
    decreases before.len(),
{
    if before.len() > 0 {
        lemma_counts_sum(before.drop_last(), after.drop_last());
    }
}

/// Replaces the cached flags by the observed ones and counts the changes.
pub fn reconcile_presence(cached: &mut Vec<bool>, observed: &Vec<bool>) -> (r: SamplePresenceCheckResult)
    requires
        old(cached)@.len() == observed@.len(),
    ensures
        final(cached)@ == observed@,
        r.total_checked == observed@.len(),
        r.now_present == count_changes(old(cached)@, observed@, false, true),
        r.now_missing == count_changes(old(cached)@, observed@, true, false),
        r.unchanged == count_unchanged(old(cached)@, observed@),
        r.now_present + r.now_missing + r.unchanged == r.total_checked,
{
    let ghost before = cached@;
    let mut present: usize = 0;
    let mut missing: usize = 0;
    let mut same: usize = 0;
    let mut i: usize = 0;
    while i < observed.len()
        invariant
            before.len() == observed@.len(),
            cached@.len() == observed@.len(),
            i <= observed@.len(),
            forall|j: int| 0 <= j < i ==> cached@[j] == observed@[j],
            forall|j: int| i <= j < cached@.len() ==> cached@[j] == before[j],
            present == count_changes(before.subrange(0, i as int), observed@.subrange(0, i as int), false, true),
            missing == count_changes(before.subrange(0, i as int), observed@.subrange(0, i as int), true, false),
            same == count_unchanged(before.subrange(0, i as int), observed@.subrange(0, i as int)),
            present + missing + same == i,
        decreases observed@.len() - i,
    {
        proof {
            assert(before.subrange(0, i + 1).drop_last() =~= before.subrange(0, i as int));
            assert(observed@.subrange(0, i + 1).drop_last() =~= observed@.subrange(0, i as int));
        }
        let was = cached[i];
        let now = observed[i];
        if !was && now {
            present = present + 1;
        } else if was && !now {
            missing = missing + 1;
        } else {
            same = same + 1;
        }
        cached.set(i, now);
        i = i + 1;
    }
    proof {
        assert(before.subrange(0, i as int) =~= before);
        assert(observed@.subrange(0, i as int) =~= observed@);
        assert(cached@ =~= observed@);
        lemma_counts_sum(before, observed@);
    }
    SamplePresenceCheckResult { total_checked: observed.len(), now_present: present, now_missing: missing, unchanged: same }
}

/// Replaces the cached installed flags of plugins by the observed ones and
/// counts the changes.
pub fn refresh_installed(installed: &mut Vec<bool>, observed: &Vec<bool>) -> (r: PluginRefreshResult)
    requires
        old(installed)@.len() == observed@.len(),
    ensures
        final(installed)@ == observed@,
        r.total_plugins_checked == observed@.len(),
        r.plugins_now_installed == count_changes(old(installed)@, observed@, false, true),
        r.plugins_now_missing == count_changes(old(installed)@, observed@, true, false),
        r.plugins_unchanged == count_unchanged(old(installed)@, observed@),
{
    let c = reconcile_presence(installed, observed);
    PluginRefreshResult {
        total_plugins_checked: c.total_checked,
        plugins_now_installed: c.now_present,
        plugins_now_missing: c.now_missing,
        plugins_unchanged: c.unchanged,
    }
}

} // verus!
