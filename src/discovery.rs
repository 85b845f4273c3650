//! Candidate discovery: which paths name project files, the deduplicated
//! candidate set, and the choice of the vendor plugin database file.

use vstd::prelude::*;
use crate::text::{chars_equal, chars_of, contains_chars, contains_seq, contains_string, string_views, sub_chars};

verus! {

/// The position of the last `c` in `s` before `end`, or -1.
pub open spec fn last_index_before(s: Seq<char>, c: char, end: int) -> int
    decreases end,
{
    if end <= 0 || end > s.len() {
        -1
    } else if s[end - 1] == c {
        end - 1
    } else {
        last_index_before(s, c, end - 1)
    }
}

/// The last component of a `/`-separated path.
pub open spec fn file_name_of(path: Seq<char>) -> Seq<char> {
    path.subrange(last_index_before(path, '/', path.len() as int) + 1, path.len() as int)
}

/// The extension of a path: what follows the last dot of its file name,
/// when that dot is not the name's first character.
pub open spec fn extension_of(path: Seq<char>) -> Option<Seq<char>> {
    let name = file_name_of(path);
    let d = last_index_before(name, '.', name.len() as int);
    if d <= 0 {
        None
    } else {
        Some(name.subrange(d + 1, name.len() as int))
    }
}

/// The path names a project file.
pub open spec fn is_project_path(path: Seq<char>) -> bool {
    extension_of(path) == Some("als"@)
}

/// The path names a database file.
pub open spec fn is_db_path(path: Seq<char>) -> bool {
    extension_of(path) == Some("db"@)
}

fn last_index(s: &Vec<char>, c: char) -> (r: Option<usize>)
    ensures
        r is None ==> last_index_before(s@, c, s@.len() as int) == -1,
        r is Some ==> r->0 < s@.len() && last_index_before(s@, c, s@.len() as int) == r->0 as int,
{
    let mut end: usize = s.len();
    while end > 0
        invariant
            end <= s@.len(),
            last_index_before(s@, c, end as int) == last_index_before(s@, c, s@.len() as int),
        decreases end,
    {
        if s[end - 1] == c {
            return Some(end - 1);
        }
        end = end - 1;
    }
    None
}

/// The extension of `path`, as characters.
fn extension_chars(path: &str) -> (r: Option<Vec<char>>)
    ensures
        r is None ==> extension_of(path@) is None,
        r is Some ==> extension_of(path@) == Some(r->0@),
{
    let p = chars_of(path);
    let _len = p.len();
    let start: usize = match last_index(&p, '/') {
        Some(i) => i + 1,
        None => 0,
    };
    let name = sub_chars(&p, start, p.len());
    assert(name@ == file_name_of(path@));
    let _name_len = name.len();
    match last_index(&name, '.') {
        Some(d) => {
            if d == 0 {
                None
            } else {
                Some(sub_chars(&name, d + 1, name.len()))
            }
        },
        None => None,
    }
}

/// Whether `path` names a project file (extension `als`).
pub fn is_project_file(path: &str) -> (r: bool)
    ensures
        r == is_project_path(path@),
{
    let als = chars_of("als");
    match extension_chars(path) {
        Some(e) => chars_equal(&e, &als),
        None => false,
    }
}

/// Whether `path` names a database file (extension `db`).
pub fn is_db_file(path: &str) -> (r: bool)
    ensures
        r == is_db_path(path@),
{
    let db = chars_of("db");
    match extension_chars(path) {
        Some(e) => chars_equal(&e, &db),
        None => false,
    }
}

/// The project paths of `found`, each once, in the order first found.
pub open spec fn candidates_spec(found: Seq<Seq<char>>) -> Seq<Seq<char>>
    decreases found.len(),
{
    if found.len() == 0 {
        Seq::empty()
    } else {
        let init = candidates_spec(found.drop_last());
        let p = found.last();
        if is_project_path(p) && !init.contains(p) {
            init.push(p)
        } else {
            init
        }
    }
}

/// The candidate set of a discovery: the paths of `found` that name project
/// files, without duplicates, in the order first found.
pub fn collect_candidates(found: Vec<String>) -> (r: Vec<String>)
    ensures
        string_views(r@) == candidates_spec(string_views(found@)),
{
    let ghost all = string_views(found@);
    let mut out: Vec<String> = Vec::new();
    let mut i: usize = 0;
    while i < found.len()
        invariant
            all == string_views(found@),
            i <= found@.len(),
            string_views(out@) == candidates_spec(all.subrange(0, i as int)),
        decreases found@.len() - i,
    {
        let ghost sub = all.subrange(0, i + 1);
        assert(sub.drop_last() =~= all.subrange(0, i as int));
        assert(sub.last() == found@[i as int]@);
        let p = &found[i];
        if is_project_file(p.as_str()) && !contains_string(&out, p) {
            let ghost before = string_views(out@);
            out.push(p.clone());
            assert(string_views(out@) =~= before.push(p@));
        }
        i = i + 1;
    }
    assert(all.subrange(0, found@.len() as int) =~= all);
    out
}

/// A candidate set holds no path twice, and holds exactly the project paths
/// that were found.
pub proof fn lemma_candidates_distinct(found: Seq<Seq<char>>)
    ensures
        forall|a: int, b: int| 0 <= a < b < candidates_spec(found).len()
            ==> #[trigger] candidates_spec(found)[a] != #[trigger] candidates_spec(found)[b],
        forall|p: Seq<char>| #[trigger] candidates_spec(found).contains(p) <==> (found.contains(p) && is_project_path(p)),
    decreases found.len(),
{
    if found.len() > 0 {
        let init = found.drop_last();
        lemma_candidates_distinct(init);
        let c0 = candidates_spec(init);
        let c = candidates_spec(found);
        let last = found.last();
        let pushed = is_project_path(last) && !c0.contains(last);
        assert(pushed ==> c == c0.push(last));
        assert(!pushed ==> c == c0);
        assert forall|p: Seq<char>| #[trigger] c.contains(p) <==> (found.contains(p) && is_project_path(p)) by {
            if found.contains(p) && is_project_path(p) {
                let k = choose|k: int| 0 <= k < found.len() && found[k] == p;
                if k < init.len() {
                    assert(init[k] == p);
                    assert(c0.contains(p));
                    let j = choose|j: int| 0 <= j < c0.len() && c0[j] == p;
                    assert(c[j] == p);
                } else {
                    assert(p == last);
                    if pushed {
                        assert(c[c0.len() as int] == p);
                    }
                }
            }
            if c.contains(p) {
                let k = choose|k: int| 0 <= k < c.len() && c[k] == p;
                if k < c0.len() {
                    assert(c0[k] == p);
                    assert(c0.contains(p));
                    let j = choose|j: int| 0 <= j < init.len() && init[j] == p;
                    assert(found[j] == p);
                } else {
                    assert(p == last);
                    assert(found[found.len() - 1] == p);
                }
            }
        }
        assert forall|a: int, b: int| 0 <= a < b < c.len() implies #[trigger] c[a] != #[trigger] c[b] by {
            if b < c0.len() {
                assert(c0[a] != c0[b]);
            } else {
                assert(c[a] == c0[a]);
                assert(c0.contains(c0[a]));
            }
        }
    }
}

/// A file in the vendor database directory.
#[derive(Clone, Debug)]
pub struct DbFileEntry {
    pub path: String,
    pub file_name: String,
    /// Modification time, in nanoseconds since the epoch.
    pub modified: u128,
    pub is_file: bool,
}

/// Why no database file could be chosen.
#[derive(Clone, Debug)]
pub enum FileError {
    NotFound(String),
    NotAFile(String),
}

/// The index of the eligible entry with the latest modification time, the
/// last one among equals; `None` when no entry is eligible.
pub open spec fn most_recent_spec(entries: Seq<DbFileEntry>, eligible: Seq<bool>) -> Option<int>
    decreases entries.len(),
{
    if entries.len() == 0 {
        None
    } else {
        let n = entries.len() - 1;
        let best = most_recent_spec(entries.drop_last(), eligible);
        if n < eligible.len() && eligible[n] && (best is None || entries[best->0].modified <= entries[n].modified) {
            Some(n)
        } else {
            best
        }
    }
}

/// The index of the eligible entry that was modified last, the last one
/// among equal times. `eligible[i]` says whether entry `i` may be chosen.
pub fn most_recent_index(entries: &Vec<DbFileEntry>, eligible: &Vec<bool>) -> (r: Option<usize>)
    ensures
        r is None ==> most_recent_spec(entries@, eligible@) is None,
        r is Some ==> most_recent_spec(entries@, eligible@) == Some(r->0 as int) && r->0 < entries@.len(),
{
    let mut best: Option<usize> = None;
    let mut i: usize = 0;
    while i < entries.len()
        invariant
            i <= entries@.len(),
            best is None ==> most_recent_spec(entries@.subrange(0, i as int), eligible@) is None,
            best is Some ==> best->0 < i && most_recent_spec(entries@.subrange(0, i as int), eligible@) == Some(best->0 as int),
        decreases entries@.len() - i,
    {
        let ghost sub = entries@.subrange(0, i + 1);
        assert(sub.drop_last() =~= entries@.subrange(0, i as int));
        if i < eligible.len() && eligible[i] {
            let newer = match best {
                None => true,
                Some(b) => entries[b].modified <= entries[i].modified,
            };
            if newer {
                best = Some(i);
            }
        }
        i = i + 1;
    }
    assert(entries@.subrange(0, entries@.len() as int) =~= entries@);
    best
}

/// The chosen entry's path, or why there is none to choose.
fn chosen_path(entries: &Vec<DbFileEntry>, eligible: &Vec<bool>, directory: &String) -> (r: Result<String, FileError>)
    ensures
        match most_recent_spec(entries@, eligible@) {
            None => r is Err && r->Err_0 is NotFound && r->Err_0->NotFound_0@ == directory@,
            Some(i) => if entries@[i].is_file {
                r is Ok && r->Ok_0@ == entries@[i].path@
            } else {
                r is Err && r->Err_0 is NotAFile && r->Err_0->NotAFile_0@ == entries@[i].path@
            },
        },
{
    match most_recent_index(entries, eligible) {
        None => Err(FileError::NotFound(directory.clone())),
        Some(i) => {
            if entries[i].is_file {
                Ok(entries[i].path.clone())
            } else {
                Err(FileError::NotAFile(entries[i].path.clone()))
            }
        },
    }
}

/// Whether a lowercased file name names a plugins database.
pub fn names_plugins(lowered: &str) -> (r: bool)
    ensures
        r == contains_seq(lowered@, "plugins"@),
{
    let s = chars_of(lowered);
    let needle = chars_of("plugins");
    contains_chars(&s, &needle)
}

/// The lowercase form of a string, as `str::to_lowercase` gives it.
pub uninterp spec fn lower_of(s: Seq<char>) -> Seq<char>;

/// Relies on `str::to_lowercase`: its result depends on the characters alone.
#[verifier::external_body]
fn lowercase(s: &str) -> (r: String)
    ensures
        r@ == lower_of(s@),
{
    s.to_lowercase()
}

/// Which entries are `.db` files.
pub open spec fn db_eligibility(entries: Seq<DbFileEntry>) -> Seq<bool> {
    entries.map_values(|e: DbFileEntry| is_db_path(e.path@))
}

/// Which entries may be taken as the plugins database.
pub open spec fn plugins_eligibility(entries: Seq<DbFileEntry>) -> Seq<bool> {
    entries.map_values(|e: DbFileEntry| plugins_db_eligible(e))
}

/// Entry `i` may be taken as the plugins database: its extension is `db` and
/// its lowercased file name contains `plugins`.
pub open spec fn plugins_db_eligible(e: DbFileEntry) -> bool {
    is_db_path(e.path@) && contains_seq(lower_of(e.file_name@), "plugins"@)
}

/// The most recently modified `.db` file of a directory listing. Fails with
/// `NotFound(directory)` when there is none, `NotAFile` when it is no file.
pub fn get_most_recent_db_file(entries: &Vec<DbFileEntry>, directory: &String) -> (r: Result<String, FileError>)
    ensures
        match most_recent_spec(entries@, db_eligibility(entries@)) {
            None => r is Err && r->Err_0 is NotFound && r->Err_0->NotFound_0@ == directory@,
            Some(i) => if entries@[i].is_file {
                r is Ok && r->Ok_0@ == entries@[i].path@
            } else {
                r is Err && r->Err_0 is NotAFile && r->Err_0->NotAFile_0@ == entries@[i].path@
            },
        },
{
    let mut eligible: Vec<bool> = Vec::new();
    let mut i: usize = 0;
    while i < entries.len()
        invariant
            i <= entries@.len(),
            eligible@.len() == i,
            forall|j: int| 0 <= j < i ==> #[trigger] eligible@[j] == is_db_path(entries@[j].path@),
        decreases entries@.len() - i,
    {
        eligible.push(is_db_file(entries[i].path.as_str()));
        i = i + 1;
    }
    assert(eligible@ =~= db_eligibility(entries@));
    chosen_path(entries, &eligible, directory)
}

/// The most recently modified plugins database of a directory listing: only
/// `.db` files whose lowercased name contains `plugins` are considered, and
/// recency decides among those alone.
pub fn get_most_recent_plugins_db_file(entries: &Vec<DbFileEntry>, directory: &String) -> (r: Result<String, FileError>)
    ensures
        match most_recent_spec(entries@, plugins_eligibility(entries@)) {
            None => r is Err && r->Err_0 is NotFound && r->Err_0->NotFound_0@ == directory@,
            Some(i) => if entries@[i].is_file {
                r is Ok && r->Ok_0@ == entries@[i].path@
            } else {
                r is Err && r->Err_0 is NotAFile && r->Err_0->NotAFile_0@ == entries@[i].path@
            },
        },
{
    let mut eligible: Vec<bool> = Vec::new();
    let mut i: usize = 0;
    while i < entries.len()
        invariant
            i <= entries@.len(),
            eligible@.len() == i,
            forall|j: int| 0 <= j < i ==> #[trigger] eligible@[j] == plugins_db_eligible(entries@[j]),
        decreases entries@.len() - i,
    {
        let e = &entries[i];
        let lowered = lowercase(e.file_name.as_str());
        let ok = is_db_file(e.path.as_str()) && names_plugins(lowered.as_str());
        eligible.push(ok);
        i = i + 1;
    }
    assert(eligible@ =~= plugins_eligibility(entries@));
    chosen_path(entries, &eligible, directory)
}

} // verus!
