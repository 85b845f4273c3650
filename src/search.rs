//! Ranked multi-field search over the project store, with match reasons and
//! pagination applied after ranking.

use vstd::prelude::*;
use crate::format::{classify, classify_spec, format_name_spec};
use crate::project::{ParsedProject, PluginRef};
use crate::query::{FieldFilter, QueryModel, SearchField, SearchQuery};
use crate::store::{ProjectStore, StoredProject};
use crate::text::{append, chars_of, contains_chars, contains_seq};

verus! {

/// Why a project matched a query.
#[derive(Clone, Copy, Debug, PartialEq, Eq, Structural)]
pub enum MatchReason {
    NameMatch,
    VendorMatch,
    TagMatch,
    PluginMatch,
    SampleMatch,
    PathMatch,
}

/// One ranked hit: the stored project's identifier, its rank, its
/// modification time (the first tie-breaker) and why it matched.
#[derive(Clone, Debug)]
pub struct SearchResult {
    pub project_id: u64,
    pub rank: u128,
    pub modified: i64,
    pub match_reason: Vec<MatchReason>,
}

/// The texts of field `f` of a project.
pub open spec fn field_texts(p: ParsedProject, f: SearchField) -> Seq<Seq<char>> {
    match f {
        SearchField::Name => seq![p.name@],
        SearchField::Path => seq![p.path@],
        SearchField::Plugin => p.plugins@.map_values(|r: PluginRef| r.name@),
        SearchField::Vendor => p.plugins@.map_values(
            |r: PluginRef|
                match r.vendor {
                    Some(v) => v@,
                    None => Seq::empty(),
                },
        ),
        SearchField::Sample => p.samples@.map_values(|s: String| s@),
        SearchField::Tag => p.tags@.map_values(|s: String| s@),
        SearchField::Key => match p.key_signature {
            Some(k) => seq![k@],
            None => Seq::empty(),
        },
        SearchField::Format => p.plugins@.map_values(
            |r: PluginRef| format_name_spec(classify_spec(r.dev_identifier@)),
        ),
    }
}

/// Some text of field `f` of `p` contains `n`.
pub open spec fn field_has(p: ParsedProject, f: SearchField, n: Seq<char>) -> bool {
    exists|i: int| 0 <= i < field_texts(p, f).len() && contains_seq(#[trigger] field_texts(p, f)[i], n)
}

/// The fields that free terms and phrases are looked up in, in the order of
/// their match reasons.
pub open spec fn scored_fields() -> Seq<SearchField> {
    seq![
        SearchField::Name,
        SearchField::Vendor,
        SearchField::Tag,
        SearchField::Plugin,
        SearchField::Sample,
        SearchField::Path,
    ]
}

/// How much a match in field `f` adds to the rank: a name match outweighs
/// the others.
pub open spec fn weight(f: SearchField) -> nat {
    match f {
        SearchField::Name => 10,
        SearchField::Tag => 6,
        SearchField::Vendor => 5,
        SearchField::Plugin => 4,
        SearchField::Sample => 3,
        SearchField::Path => 2,
        _ => 0,
    }
}

/// The weights of the fields of `fs` in which `p` contains `n`, summed.
pub open spec fn score_fields(p: ParsedProject, n: Seq<char>, fs: Seq<SearchField>) -> nat
    decreases fs.len(),
{
    if fs.len() == 0 {
        0
    } else {
        score_fields(p, n, fs.drop_last()) + if field_has(p, fs.last(), n) {
            weight(fs.last())
        } else {
            0
        }
    }
}

/// The free terms and phrases of a query, terms first.
pub open spec fn needles(q: QueryModel) -> Seq<Seq<char>> {
    q.terms + q.phrases
}

/// `n` is found in some scored field of `p`.
pub open spec fn in_some_field(p: ParsedProject, n: Seq<char>) -> bool {
    exists|k: int| 0 <= k < scored_fields().len() && field_has(p, #[trigger] scored_fields()[k], n)
}

/// `p` matches `q`: every term and every phrase is found (a phrase as one
/// contiguous run) in some scored field, and every filter's value in its field.
#[verifier::opaque]
pub open spec fn matches_spec(p: ParsedProject, q: QueryModel) -> bool {
    &&& forall|i: int| 0 <= i < needles(q).len() ==> in_some_field(p, #[trigger] needles(q)[i])
    &&& forall|j: int| 0 <= j < q.filters.len() ==> field_has(p, #[trigger] q.filters[j].0, q.filters[j].1)
}

/// The rank of `p` for the needles `ns`: each needle adds the weights of the
/// fields it is found in.
pub open spec fn rank_spec(p: ParsedProject, ns: Seq<Seq<char>>) -> nat
    decreases ns.len(),
{
    if ns.len() == 0 {
        0
    } else {
        rank_spec(p, ns.drop_last()) + score_fields(p, ns.last(), scored_fields())
    }
}

/// Field `f` contributed to the match: a needle was found in it, or a filter names it.
pub open spec fn reason_holds(p: ParsedProject, q: QueryModel, f: SearchField) -> bool {
    (exists|i: int| 0 <= i < needles(q).len() && field_has(p, f, #[trigger] needles(q)[i]))
        || (exists|j: int| 0 <= j < q.filters.len() && #[trigger] q.filters[j].0 == f)
}

pub open spec fn reason_of(f: SearchField) -> MatchReason {
    match f {
        SearchField::Name => MatchReason::NameMatch,
        SearchField::Vendor => MatchReason::VendorMatch,
        SearchField::Tag => MatchReason::TagMatch,
        SearchField::Plugin => MatchReason::PluginMatch,
        SearchField::Sample => MatchReason::SampleMatch,
        _ => MatchReason::PathMatch,
    }
}

/// The match reasons of the scored fields `fs` that contributed, in order.
pub open spec fn reasons_over(p: ParsedProject, q: QueryModel, fs: Seq<SearchField>) -> Seq<MatchReason>
    decreases fs.len(),
{
    if fs.len() == 0 {
        Seq::empty()
    } else {
        let r = reasons_over(p, q, fs.drop_last());
        if reason_holds(p, q, fs.last()) {
            r.push(reason_of(fs.last()))
        } else {
            r
        }
    }
}

/// The match reasons of `p` for `q`, in the order Name, Vendor, Tag, Plugin, Sample, Path.
pub open spec fn reasons_spec(p: ParsedProject, q: QueryModel) -> Seq<MatchReason> {
    reasons_over(p, q, scored_fields())
}

/// `r` is the result for record `rec` under query `q`.
pub open spec fn result_for(r: SearchResult, rec: StoredProject, q: QueryModel) -> bool {
    &&& r.project_id == rec.id
    &&& r.rank == rank_spec(rec.project, needles(q))
    &&& r.modified == rec.project.modified
    &&& r.match_reason@ == reasons_spec(rec.project, q)
}

/// `r` is the result for some record of `recs` that matches `q`.
pub open spec fn from_store(r: SearchResult, recs: Seq<StoredProject>, q: QueryModel) -> bool {
    exists|k: int| 0 <= k < recs.len() && #[trigger] result_for(r, recs[k], q) && matches_spec(recs[k].project, q)
}

/// `a` comes before `b`: higher rank first, then the more recently
/// modified, then the smaller identifier.
pub open spec fn ranks_before(a: SearchResult, b: SearchResult) -> bool {
    a.rank > b.rank || (a.rank == b.rank && (a.modified > b.modified || (a.modified == b.modified
        && a.project_id < b.project_id)))
}

pub open spec fn chars_views(vs: Seq<Vec<char>>) -> Seq<Seq<char>> {
    vs.map_values(|v: Vec<char>| v@)
}

/// Some text of `texts` contains `n`.
fn any_contains(texts: &Vec<Vec<char>>, n: &Vec<char>) -> (r: bool)
    ensures
        r == exists|i: int| 0 <= i < texts@.len() && contains_seq(#[trigger] chars_views(texts@)[i], n@),
{
    let mut i: usize = 0;
    while i < texts.len()
        invariant
            i <= texts@.len(),
            forall|j: int| 0 <= j < i ==> !contains_seq(#[trigger] chars_views(texts@)[j], n@),
        decreases texts@.len() - i,
    {
        if contains_chars(&texts[i], n) {
            assert(chars_views(texts@)[i as int] == texts@[i as int]@);
            return true;
        }
        i = i + 1;
    }
    false
}

/// The texts of field `f` of `p`, as characters.
fn field_values(p: &ParsedProject, f: SearchField) -> (r: Vec<Vec<char>>)
    ensures
        chars_views(r@) == field_texts(*p, f),
{
    let mut out: Vec<Vec<char>> = Vec::new();
    match f {
        SearchField::Name => {
            out.push(chars_of(p.name.as_str()));
        },
        SearchField::Path => {
            out.push(chars_of(p.path.as_str()));
        },
        SearchField::Key => {
            match &p.key_signature {
                Some(k) => {
                    out.push(chars_of(k.as_str()));
                },
                None => {},
            }
        },
        SearchField::Sample | SearchField::Tag => {
            let list = if f == SearchField::Sample { &p.samples } else { &p.tags };
            let mut i: usize = 0;
            while i < list.len()
                invariant
                    i <= list@.len(),
                    out@.len() == i,
                    forall|j: int| 0 <= j < i ==> #[trigger] out@[j]@ == list@[j]@,
                decreases list@.len() - i,
            {
                out.push(chars_of(list[i].as_str()));
                i = i + 1;
            }
            assert(chars_views(out@) =~= list@.map_values(|s: String| s@));
        },
        SearchField::Plugin | SearchField::Vendor | SearchField::Format => {
            let mut i: usize = 0;
            while i < p.plugins.len()
                invariant
                    i <= p.plugins@.len(),
                    f == SearchField::Plugin || f == SearchField::Vendor || f == SearchField::Format,
                    field_texts(*p, f).len() == p.plugins@.len(),
                    out@.len() == i,
                    forall|j: int| 0 <= j < i ==> #[trigger] out@[j]@ == field_texts(*p, f)[j],
                decreases p.plugins@.len() - i,
            {
                let r = &p.plugins[i];
                let text = if f == SearchField::Plugin {
                    chars_of(r.name.as_str())
                } else if f == SearchField::Vendor {
                    match &r.vendor {
                        Some(v) => chars_of(v.as_str()),
                        None => Vec::new(),
                    }
                } else {
                    let fmt = classify(r.dev_identifier.as_str());
                    let name = fmt.name();
                    chars_of(name.as_str())
                };
                assert(text@ == field_texts(*p, f)[i as int]);
                out.push(text);
                i = i + 1;
            }
            assert(chars_views(out@) =~= field_texts(*p, f));
        },
    }
    assert(chars_views(out@) =~= field_texts(*p, f));
    out
}


fn weight_of(f: SearchField) -> (r: u128)
    ensures
        r == weight(f),
{
    match f {
        SearchField::Name => 10,
        SearchField::Tag => 6,
        SearchField::Vendor => 5,
        SearchField::Plugin => 4,
        SearchField::Sample => 3,
        SearchField::Path => 2,
        _ => 0,
    }
}

fn reason_of_field(f: SearchField) -> (r: MatchReason)
    ensures
        r == reason_of(f),
{
    match f {
        SearchField::Name => MatchReason::NameMatch,
        SearchField::Vendor => MatchReason::VendorMatch,
        SearchField::Tag => MatchReason::TagMatch,
        SearchField::Plugin => MatchReason::PluginMatch,
        SearchField::Sample => MatchReason::SampleMatch,
        _ => MatchReason::PathMatch,
    }
}

proof fn lemma_score_bounds(p: ParsedProject, n: Seq<char>, fs: Seq<SearchField>)
    requires
        forall|k: int| 0 <= k < fs.len() ==> weight(#[trigger] fs[k]) > 0,
    ensures
        score_fields(p, n, fs) <= 10 * fs.len(),
        score_fields(p, n, fs) > 0 <==> exists|k: int| 0 <= k < fs.len() && field_has(p, #[trigger] fs[k], n),
    decreases fs.len(),
{
    if fs.len() > 0 {
        let init = fs.drop_last();
        assert forall|k: int| 0 <= k < init.len() implies weight(#[trigger] init[k]) > 0 by {
            assert(init[k] == fs[k]);
        }
        lemma_score_bounds(p, n, init);
        assert(weight(fs.last()) <= 10);
        if exists|k: int| 0 <= k < init.len() && field_has(p, #[trigger] init[k], n) {
            let k = choose|k: int| 0 <= k < init.len() && field_has(p, #[trigger] init[k], n);
            assert(fs[k] == init[k]);
        }
        if exists|k: int| 0 <= k < fs.len() && field_has(p, #[trigger] fs[k], n) {
            let k = choose|k: int| 0 <= k < fs.len() && field_has(p, #[trigger] fs[k], n);
            if k < init.len() {
                assert(init[k] == fs[k]);
            }
        }
    }
}

/// The texts of each scored field of `p`, in the order of `scored_fields()`.
fn scored_texts(p: &ParsedProject) -> (r: (Vec<SearchField>, Vec<Vec<Vec<char>>>))
    ensures
        r.0@ == scored_fields(),
        r.1@.len() == 6,
        forall|k: int| 0 <= k < 6 ==> chars_views(#[trigger] r.1@[k]@) == field_texts(*p, scored_fields()[k]),
{
    let fields = vec![
        SearchField::Name,
        SearchField::Vendor,
        SearchField::Tag,
        SearchField::Plugin,
        SearchField::Sample,
        SearchField::Path,
    ];
    assert(fields@ =~= scored_fields());
    let mut texts: Vec<Vec<Vec<char>>> = Vec::new();
    let mut k: usize = 0;
    while k < fields.len()
        invariant
            fields@ == scored_fields(),
            k <= 6,
            texts@.len() == k,
            forall|j: int| 0 <= j < k ==> chars_views(#[trigger] texts@[j]@) == field_texts(*p, scored_fields()[j]),
        decreases 6 - k,
    {
        texts.push(field_values(p, fields[k]));
        k = k + 1;
    }
    (fields, texts)
}

/// The rank contribution of needle `n`: the weights of the scored fields it is found in.
fn needle_score(p: &ParsedProject, fields: &Vec<SearchField>, texts: &Vec<Vec<Vec<char>>>, n: &Vec<char>) -> (r: u128)
    requires
        fields@ == scored_fields(),
        texts@.len() == 6,
        forall|k: int| 0 <= k < 6 ==> chars_views(#[trigger] texts@[k]@) == field_texts(*p, scored_fields()[k]),
    ensures
        r == score_fields(*p, n@, scored_fields()),
        r <= 60,
{
    let mut s: u128 = 0;
    let mut k: usize = 0;
    while k < 6
        invariant
            fields@ == scored_fields(),
            texts@.len() == 6,
            forall|j: int| 0 <= j < 6 ==> chars_views(#[trigger] texts@[j]@) == field_texts(*p, scored_fields()[j]),
            k <= 6,
            s == score_fields(*p, n@, scored_fields().subrange(0, k as int)),
            s <= 10 * k,
        decreases 6 - k,
    {
        let ghost fs = scored_fields().subrange(0, k + 1);
        assert(fs.drop_last() =~= scored_fields().subrange(0, k as int));
        assert(fs.last() == scored_fields()[k as int]);
        let hit = any_contains(&texts[k], n);
        assert(hit == field_has(*p, scored_fields()[k as int], n@)) by {
            let t = field_texts(*p, scored_fields()[k as int]);
            assert(chars_views(texts@[k as int]@) == t);
        }
        if hit {
            s = s + weight_of(fields[k]);
        }
        k = k + 1;
    }
    assert(scored_fields().subrange(0, 6) =~= scored_fields());
    s
}

/// The rank and match reasons of `p` for a query with needles `ns` and
/// filters `fs`, or `None` when `p` does not match.
fn evaluate(p: &ParsedProject, ns: &Vec<Vec<char>>, fs: &Vec<(SearchField, Vec<char>)>, q: Ghost<QueryModel>) -> (r: Option<(u128, Vec<MatchReason>)>)
    requires
        chars_views(ns@) == needles(q@),
        fs@.len() == q@.filters.len(),
        forall|j: int| 0 <= j < fs@.len() ==> (#[trigger] fs@[j]).0 == q@.filters[j].0 && fs@[j].1@ == q@.filters[j].1,
    ensures
        (r is Some) == matches_spec(*p, q@),
        r is Some ==> (r->0).0 == rank_spec(*p, needles(q@)),
        r is Some ==> (r->0).1@ == reasons_spec(*p, q@),
{
    reveal(matches_spec);
    let ghost qm = q@;
    // filters
    let mut j: usize = 0;
    while j < fs.len()
        invariant
            qm == q@,
            j <= fs@.len(),
            fs@.len() == qm.filters.len(),
            forall|j: int| 0 <= j < fs@.len() ==> (#[trigger] fs@[j]).0 == qm.filters[j].0 && fs@[j].1@ == qm.filters[j].1,
            forall|i: int| 0 <= i < j ==> field_has(*p, #[trigger] qm.filters[i].0, qm.filters[i].1),
        decreases fs@.len() - j,
    {
        let texts = field_values(p, fs[j].0);
        if !any_contains(&texts, &fs[j].1) {
            assert(!field_has(*p, qm.filters[j as int].0, qm.filters[j as int].1));
            reveal(matches_spec);
            assert(!matches_spec(*p, qm));
            return None;
        }
        j = j + 1;
    }
    let (fields, texts) = scored_texts(p);
    proof {
        assert forall|k: int| 0 <= k < scored_fields().len() implies weight(#[trigger] scored_fields()[k]) > 0 by {}
    }
    // needles
    let mut rank: u128 = 0;
    let mut i: usize = 0;
    let _n = ns.len();
    while i < ns.len()
        invariant
            qm == q@,
            forall|j: int| 0 <= j < qm.filters.len() ==> field_has(*p, #[trigger] qm.filters[j].0, qm.filters[j].1),
            fields@ == scored_fields(),
            texts@.len() == 6,
            forall|k: int| 0 <= k < 6 ==> chars_views(#[trigger] texts@[k]@) == field_texts(*p, scored_fields()[k]),
            forall|k: int| 0 <= k < scored_fields().len() ==> weight(#[trigger] scored_fields()[k]) > 0,
            chars_views(ns@) == needles(qm),
            ns@.len() <= usize::MAX,
            i <= ns@.len(),
            rank == rank_spec(*p, needles(qm).subrange(0, i as int)),
            rank <= 60 * i,
            forall|a: int| 0 <= a < i ==> in_some_field(*p, #[trigger] needles(qm)[a]),
        decreases ns@.len() - i,
    {
        let s = needle_score(p, &fields, &texts, &ns[i]);
        let ghost n = needles(qm)[i as int];
        assert(ns@[i as int]@ == n);
        proof {
            lemma_score_bounds(*p, n, scored_fields());
            let sub = needles(qm).subrange(0, i + 1);
            assert(sub.drop_last() =~= needles(qm).subrange(0, i as int));
            assert(sub.last() == n);
        }
        if s == 0 {
            assert(!in_some_field(*p, needles(qm)[i as int]));
            reveal(matches_spec);
            assert(!matches_spec(*p, qm));
            return None;
        }
        rank = rank + s;
        i = i + 1;
    }
    assert(needles(qm).subrange(0, ns@.len() as int) =~= needles(qm));
    // reasons
    proof {
        reveal(matches_spec);
    }
    let mut reasons: Vec<MatchReason> = Vec::new();
    let mut k: usize = 0;
    while k < 6
        invariant
            qm == q@,
            matches_spec(*p, qm),
            rank == rank_spec(*p, needles(qm)),
            qm == q@,
            matches_spec(*p, qm),
            rank == rank_spec(*p, needles(qm)),
            fields@ == scored_fields(),
            texts@.len() == 6,
            forall|k: int| 0 <= k < 6 ==> chars_views(#[trigger] texts@[k]@) == field_texts(*p, scored_fields()[k]),
            chars_views(ns@) == needles(qm),
            fs@.len() == qm.filters.len(),
            forall|j: int| 0 <= j < fs@.len() ==> (#[trigger] fs@[j]).0 == qm.filters[j].0 && fs@[j].1@ == qm.filters[j].1,
            k <= 6,
            reasons@ == reasons_over(*p, qm, scored_fields().subrange(0, k as int)),
        decreases 6 - k,
    {
        let f = fields[k];
        let mut holds = false;
        let mut a: usize = 0;
        while a < ns.len() && !holds
            invariant
                texts@.len() == 6,
                k < 6,
                f == scored_fields()[k as int],
                chars_views(texts@[k as int]@) == field_texts(*p, f),
                chars_views(ns@) == needles(qm),
                a <= ns@.len(),
                holds ==> reason_holds(*p, qm, f),
                forall|b: int| 0 <= b < a ==> !field_has(*p, f, #[trigger] needles(qm)[b]),
            decreases ns@.len() - a + (if holds { 0int } else { 1int }),
        {
            let hit = any_contains(&texts[k], &ns[a]);
            assert(ns@[a as int]@ == needles(qm)[a as int]);
            if hit {
                assert(field_has(*p, f, needles(qm)[a as int]));
                holds = true;
            } else {
                a = a + 1;
            }
        }
        let mut b: usize = 0;
        while b < fs.len() && !holds
            invariant
                fs@.len() == qm.filters.len(),
                forall|j: int| 0 <= j < fs@.len() ==> (#[trigger] fs@[j]).0 == qm.filters[j].0 && fs@[j].1@ == qm.filters[j].1,
                b <= fs@.len(),
                holds ==> reason_holds(*p, qm, f),
                !holds ==> forall|c: int| 0 <= c < ns@.len() ==> !field_has(*p, f, #[trigger] needles(qm)[c]),
                forall|c: int| 0 <= c < b ==> (#[trigger] qm.filters[c]).0 != f,
            decreases fs@.len() - b + (if holds { 0int } else { 1int }),
        {
            if fs[b].0 == f {
                assert(qm.filters[b as int].0 == f);
                holds = true;
            } else {
                b = b + 1;
            }
        }
        assert(holds == reason_holds(*p, qm, f));
        proof {
            let sub = scored_fields().subrange(0, k + 1);
            assert(sub.drop_last() =~= scored_fields().subrange(0, k as int));
            assert(sub.last() == f);
        }
        if holds {
            reasons.push(reason_of_field(f));
        }
        k = k + 1;
    }
    assert(scored_fields().subrange(0, 6) =~= scored_fields());
    Some((rank, reasons))
}


/// The needles and filters of `q`, as characters.
fn prepare(q: &SearchQuery) -> (r: (Vec<Vec<char>>, Vec<(SearchField, Vec<char>)>))
    ensures
        chars_views(r.0@) == needles(q.view()),
        r.1@.len() == q.view().filters.len(),
        forall|j: int| 0 <= j < r.1@.len() ==> (#[trigger] r.1@[j]).0 == q.view().filters[j].0 && r.1@[j].1@ == q.view().filters[j].1,
{
    let ghost qm = q.view();
    let mut ns: Vec<Vec<char>> = Vec::new();
    let mut i: usize = 0;
    while i < q.terms.len()
        invariant
            qm == q.view(),
            i <= q.terms@.len(),
            ns@.len() == i,
            forall|a: int| 0 <= a < i ==> #[trigger] ns@[a]@ == needles(qm)[a],
        decreases q.terms@.len() - i,
    {
        ns.push(chars_of(q.terms[i].as_str()));
        i = i + 1;
    }
    let mut i: usize = 0;
    while i < q.phrases.len()
        invariant
            qm == q.view(),
            i <= q.phrases@.len(),
            ns@.len() == q.terms@.len() + i,
            forall|a: int| 0 <= a < q.terms@.len() + i ==> #[trigger] ns@[a]@ == needles(qm)[a],
        decreases q.phrases@.len() - i,
    {
        ns.push(chars_of(q.phrases[i].as_str()));
        i = i + 1;
    }
    assert(chars_views(ns@) =~= needles(qm));
    let mut fs: Vec<(SearchField, Vec<char>)> = Vec::new();
    let mut j: usize = 0;
    while j < q.filters.len()
        invariant
            qm == q.view(),
            j <= q.filters@.len(),
            fs@.len() == j,
            forall|a: int| 0 <= a < j ==> (#[trigger] fs@[a]).0 == qm.filters[a].0 && fs@[a].1@ == qm.filters[a].1,
        decreases q.filters@.len() - j,
    {
        let f: &FieldFilter = &q.filters[j];
        fs.push((f.field, chars_of(f.value.as_str())));
        j = j + 1;
    }
    (ns, fs)
}

/// Runs `q` over every stored project and returns one result per matching
/// project, best first: higher rank, then more recently modified, then
/// smaller identifier.
pub fn search_fts(store: &ProjectStore, q: &SearchQuery) -> (r: Vec<SearchResult>)
    requires
        store.wf(),
    ensures
        forall|a: int, b: int| 0 <= a < b < r@.len() ==> ranks_before(#[trigger] r@[a], #[trigger] r@[b]),
        forall|a: int, b: int| 0 <= a < b < r@.len() ==> (#[trigger] r@[a]).rank >= (#[trigger] r@[b]).rank,
        forall|a: int| 0 <= a < r@.len() ==> from_store(#[trigger] r@[a], store.model().records, q.view()),
        forall|k: int| 0 <= k < store.model().records.len()
            && matches_spec(#[trigger] store.model().records[k].project, q.view())
            ==> exists|a: int| 0 <= a < r@.len() && (#[trigger] r@[a]).project_id == store.model().records[k].id,
{
    let ghost qm = q.view();
    let ghost recs = store.model().records;
    let (ns, fs) = prepare(q);
    let records = store.records();
    let mut out: Vec<SearchResult> = Vec::new();
    let ghost mut src: Seq<int> = Seq::empty();
    let mut idx: usize = 0;
    while idx < records.len()
        invariant
            qm == q.view(),
            recs == store.model().records,
            records@ == recs,
            store.wf(),
            chars_views(ns@) == needles(qm),
            fs@.len() == qm.filters.len(),
            forall|j: int| 0 <= j < fs@.len() ==> (#[trigger] fs@[j]).0 == qm.filters[j].0 && fs@[j].1@ == qm.filters[j].1,
            idx <= recs.len(),
            in_result_order(out@),
            src.len() == out@.len(),
            forall|a: int| 0 <= a < out@.len() ==> 0 <= #[trigger] src[a] < idx,
            forall|a: int| 0 <= a < out@.len() ==> result_for(#[trigger] out@[a], recs[src[a]], qm),
            forall|a: int| 0 <= a < out@.len() ==> matches_spec(recs[#[trigger] src[a]].project, qm),
            forall|k: int| 0 <= k < idx && matches_spec(#[trigger] recs[k].project, qm)
                ==> exists|a: int| 0 <= a < src.len() && #[trigger] src[a] == k,
        decreases recs.len() - idx,
    {
        let rec = &records[idx];
        match evaluate(&rec.project, &ns, &fs, Ghost(qm)) {
            None => {},
            Some((rank, reasons)) => {
                let res = SearchResult {
                    project_id: rec.id,
                    rank,
                    modified: rec.project.modified,
                    match_reason: reasons,
                };
                proof {
                    assert forall|a: int| 0 <= a < out@.len() implies (#[trigger] out@[a]).project_id != res.project_id by {
                        assert(result_for(out@[a], recs[src[a]], qm));
                        assert(recs[src[a]].id != recs[idx as int].id);
                    }
                }
                let ghost before = out@;
                let ghost src0 = src;
                let pos = insert_ranked(&mut out, res);
                proof {
                    src = src0.insert(pos as int, idx as int);
                    assert forall|a: int| 0 <= a < out@.len() implies result_for(#[trigger] out@[a], recs[src[a]], qm) by {
                        if a < pos {
                            assert(out@[a] == before[a] && src[a] == src0[a]);
                        } else if a > pos {
                            assert(out@[a] == before[a - 1] && src[a] == src0[a - 1]);
                        }
                    }
                    assert forall|a: int| 0 <= a < out@.len() implies matches_spec(recs[#[trigger] src[a]].project, qm) by {
                        if a < pos {
                            assert(src[a] == src0[a]);
                        } else if a > pos {
                            assert(src[a] == src0[a - 1]);
                        }
                    }
                    assert forall|k: int| 0 <= k < idx + 1 && matches_spec(#[trigger] recs[k].project, qm)
                        implies exists|a: int| 0 <= a < src.len() && #[trigger] src[a] == k by {
                        if k == idx {
                            assert(src[pos as int] == k);
                        } else {
                            let b = choose|b: int| 0 <= b < src0.len() && #[trigger] src0[b] == k;
                            if b < pos {
                                assert(src[b] == k);
                            } else {
                                assert(src[b + 1] == k);
                            }
                        }
                    }
                }
            },
        }
        idx = idx + 1;
    }
    proof {
        assert forall|a: int, b: int| 0 <= a < b < out@.len() implies (#[trigger] out@[a]).rank >= (#[trigger] out@[b]).rank by {
            assert(ranks_before(out@[a], out@[b]));
        }
        assert forall|a: int| 0 <= a < out@.len() implies from_store(#[trigger] out@[a], recs, qm) by {
            let k = src[a];
            assert(result_for(out@[a], recs[k], qm));
            assert(matches_spec(recs[k].project, qm));
        }
        assert forall|k: int| 0 <= k < recs.len() && matches_spec(#[trigger] recs[k].project, qm)
            implies exists|a: int| 0 <= a < out@.len() && (#[trigger] out@[a]).project_id == recs[k].id by {
            let a = choose|a: int| 0 <= a < src.len() && #[trigger] src[a] == k;
            assert(result_for(out@[a], recs[src[a]], qm));
        }
    }
    out
}

/// The results of `s` are in result order.
pub open spec fn in_result_order(s: Seq<SearchResult>) -> bool {
    forall|a: int, b: int| 0 <= a < b < s.len() ==> ranks_before(#[trigger] s[a], #[trigger] s[b])
}

proof fn lemma_insert_keeps_order(before: Seq<SearchResult>, pos: int, res: SearchResult)
    requires
        in_result_order(before),
        0 <= pos <= before.len(),
        forall|a: int| 0 <= a < before.len() ==> (#[trigger] before[a]).project_id != res.project_id,
        forall|a: int| 0 <= a < pos ==> !ranks_before(res, #[trigger] before[a]),
        pos < before.len() ==> ranks_before(res, before[pos]),
    ensures
        in_result_order(before.insert(pos, res)),
{
    let out = before.insert(pos, res);
    assert forall|a: int, b: int| 0 <= a < b < out.len() implies ranks_before(#[trigger] out[a], #[trigger] out[b]) by {
        if b < pos {
            assert(ranks_before(before[a], before[b]));
        } else if b == pos {
            assert(!ranks_before(res, before[a]));
            assert(before[a].project_id != res.project_id);
        } else if a < pos {
            assert(!ranks_before(res, before[a]));
            assert(before[a].project_id != res.project_id);
            assert(out[b] == before[b - 1]);
            if pos < b - 1 {
                assert(ranks_before(before[pos], before[b - 1]));
            }
        } else if a == pos {
            if pos < b - 1 {
                assert(ranks_before(before[pos], before[b - 1]));
            }
        } else {
            assert(ranks_before(before[a - 1], before[b - 1]));
        }
    }
}

/// Inserts `res` into `out`, which is in result order, at the place that
/// keeps it in result order.
fn insert_ranked(out: &mut Vec<SearchResult>, res: SearchResult) -> (pos: usize)
    requires
        in_result_order(old(out)@),
        forall|a: int| 0 <= a < old(out)@.len() ==> (#[trigger] old(out)@[a]).project_id != res.project_id,
    ensures
        in_result_order(final(out)@),
        pos <= old(out)@.len(),
        final(out)@ == old(out)@.insert(pos as int, res),
{
    let mut pos: usize = 0;
    while pos < out.len() && !comes_before(&res, &out[pos])
        invariant
            pos <= out@.len(),
            forall|a: int| 0 <= a < pos ==> !ranks_before(res, #[trigger] out@[a]),
        decreases out@.len() - pos,
    {
        pos = pos + 1;
    }
    let ghost before = out@;
    proof {
        lemma_insert_keeps_order(before, pos as int, res);
    }
    out.insert(pos, res);
    pos
}

/// Whether `a` comes before `b` in the result order.
fn comes_before(a: &SearchResult, b: &SearchResult) -> (r: bool)
    ensures
        r == ranks_before(*a, *b),
{
    a.rank > b.rank || (a.rank == b.rank && (a.modified > b.modified || (a.modified == b.modified
        && a.project_id < b.project_id)))
}

/// The page of `results` that starts at `offset` and holds at most `limit`
/// results; empty when `offset` is at or past the end.
pub fn paginate(results: Vec<SearchResult>, offset: usize, limit: usize) -> (r: Vec<SearchResult>)
    ensures
        offset >= results@.len() ==> r@.len() == 0,
        offset < results@.len() ==> r@ == results@.subrange(
            offset as int,
            if offset + limit < results@.len() { offset + limit } else { results@.len() as int },
        ),
{
    if offset >= results.len() {
        return Vec::new();
    }
    let mut all = results;
    let mut page = all.split_off(offset);
    if limit < page.len() {
        page.truncate(limit);
    }
    proof {
        assert(page@ =~= results@.subrange(
            offset as int,
            if offset + limit < results@.len() { offset + limit } else { results@.len() as int },
        ));
    }
    page
}


/// `s` is the full ranked answer to `q` over `recs`: in result order, each
/// entry the result of a matching record, and every matching record present.
pub open spec fn is_ranked_answer(recs: Seq<StoredProject>, q: QueryModel, s: Seq<SearchResult>) -> bool {
    &&& in_result_order(s)
    &&& forall|a: int| 0 <= a < s.len() ==> from_store(#[trigger] s[a], recs, q)
    &&& forall|k: int| 0 <= k < recs.len() && matches_spec(#[trigger] recs[k].project, q)
        ==> exists|a: int| 0 <= a < s.len() && (#[trigger] s[a]).project_id == recs[k].id
}

/// The page of `s` that starts at `offset` and holds at most `limit` entries.
pub open spec fn page_spec(s: Seq<SearchResult>, offset: int, limit: int) -> Seq<SearchResult> {
    if offset >= s.len() {
        Seq::empty()
    } else {
        s.subrange(offset, if offset + limit < s.len() { offset + limit } else { s.len() as int })
    }
}

/// One page of a search: the number of results in all, and those shown.
pub struct SearchPage {
    pub total: usize,
    pub displayed: Vec<SearchResult>,
}

/// A free-text search, paginated after ranking.
pub struct SearchCommand {
    pub query: String,
    pub limit: usize,
    pub offset: usize,
}

impl SearchCommand {
    /// Parses the query, ranks every matching project, then cuts the page.
    pub fn execute(&self, store: &ProjectStore) -> (r: SearchPage)
        requires
            store.wf(),
        ensures
            exists|full: Seq<SearchResult>|
                #[trigger] is_ranked_answer(store.model().records, crate::query::parse_spec(self.query@), full)
                    && r.total == full.len()
                    && r.displayed@ == page_spec(full, self.offset as int, self.limit as int),
    {
        let q = SearchQuery::parse(self.query.as_str());
        let results = search_fts(store, &q);
        let total = results.len();
        let ghost full = results@;
        let displayed = paginate(results, self.offset, self.limit);
        assert(is_ranked_answer(store.model().records, crate::query::parse_spec(self.query@), full));
        assert(displayed@ == page_spec(full, self.offset as int, self.limit as int));
        SearchPage { total, displayed }
    }
}

/// A project that matches a query holds each of its phrases as one
/// contiguous run in a single text of some scored field; finding the words
/// of a phrase apart is not enough.
pub proof fn lemma_phrase_match_is_contiguous(p: ParsedProject, q: QueryModel, i: int)
    requires
        matches_spec(p, q),
        0 <= i < q.phrases.len(),
    ensures
        exists|k: int, t: int|
            0 <= k < scored_fields().len() && 0 <= t < field_texts(p, scored_fields()[k]).len()
                && #[trigger] contains_seq(field_texts(p, scored_fields()[k])[t], q.phrases[i]),
{
    reveal(matches_spec);
    let n = needles(q);
    assert(n[q.terms.len() + i] == q.phrases[i]);
    assert(in_some_field(p, n[q.terms.len() + i]));
    let k = choose|k: int| 0 <= k < scored_fields().len() && field_has(p, #[trigger] scored_fields()[k], q.phrases[i]);
    let t = choose|t: int| 0 <= t < field_texts(p, scored_fields()[k]).len()
        && contains_seq(#[trigger] field_texts(p, scored_fields()[k])[t], q.phrases[i]);
}

/// Past the last result a page is empty.
pub proof fn lemma_page_past_end_is_empty(s: Seq<SearchResult>, offset: int, limit: int)
    requires
        offset >= s.len(),
    ensures
        page_spec(s, offset, limit).len() == 0,
{
}


/// The name of a match reason.
pub open spec fn reason_name_spec(r: MatchReason) -> Seq<char> {
    match r {
        MatchReason::NameMatch => "NameMatch"@,
        MatchReason::VendorMatch => "VendorMatch"@,
        MatchReason::TagMatch => "TagMatch"@,
        MatchReason::PluginMatch => "PluginMatch"@,
        MatchReason::SampleMatch => "SampleMatch"@,
        MatchReason::PathMatch => "PathMatch"@,
    }
}

/// Reason names separated by a comma and a space.
pub open spec fn reasons_text_spec(rs: Seq<MatchReason>) -> Seq<char>
    decreases rs.len(),
{
    if rs.len() == 0 {
        Seq::empty()
    } else if rs.len() == 1 {
        reason_name_spec(rs[0])
    } else {
        reasons_text_spec(rs.drop_last()) + ", "@ + reason_name_spec(rs.last())
    }
}

impl MatchReason {
    /// The name of this reason (`"NameMatch"`, ...).
    pub fn name(&self) -> (r: &'static str)
        ensures
            r@ == reason_name_spec(*self),
    {
        match self {
            MatchReason::NameMatch => "NameMatch",
            MatchReason::VendorMatch => "VendorMatch",
            MatchReason::TagMatch => "TagMatch",
            MatchReason::PluginMatch => "PluginMatch",
            MatchReason::SampleMatch => "SampleMatch",
            MatchReason::PathMatch => "PathMatch",
        }
    }
}

/// The reasons of a result as one line of text, in order, separated by `", "`.
pub fn reasons_text(reasons: &Vec<MatchReason>) -> (r: String)
    ensures
        r@ == reasons_text_spec(reasons@),
{
    let mut out = String::new();
    let mut i: usize = 0;
    while i < reasons.len()
        invariant
            i <= reasons@.len(),
            out@ == reasons_text_spec(reasons@.subrange(0, i as int)),
        decreases reasons@.len() - i,
    {
        let ghost sub = reasons@.subrange(0, i + 1);
        assert(sub.drop_last() =~= reasons@.subrange(0, i as int));
        if i > 0 {
            append(&mut out, ", ");
        }
        append(&mut out, reasons[i].name());
        assert(out@ =~= reasons_text_spec(sub));
        i = i + 1;
    }
    assert(reasons@.subrange(0, reasons@.len() as int) =~= reasons@);
    out
}

} // verus!
