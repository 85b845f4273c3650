//! Free-text query grammar: whitespace-separated words, double-quoted
//! phrases, and `field:value` filters on a known set of fields.

use vstd::prelude::*;
use crate::text::{chars_equal, chars_of, string_from_chars, sub_chars};

verus! {

/// A field of a project that a query can name.
#[derive(Clone, Copy, Debug, PartialEq, Eq, Structural)]
pub enum SearchField {
    Name,
    Path,
    Plugin,
    Vendor,
    Sample,
    Tag,
    Key,
    Format,
}

/// A `field:value` filter.
#[derive(Clone, Debug)]
pub struct FieldFilter {
    pub field: SearchField,
    pub value: String,
}

/// A parsed query: free terms, phrases and field filters, each in the order given.
#[derive(Clone, Debug)]
pub struct SearchQuery {
    pub terms: Vec<String>,
    pub phrases: Vec<String>,
    pub filters: Vec<FieldFilter>,
}

/// The abstract content of a query.
pub struct QueryModel {
    pub terms: Seq<Seq<char>>,
    pub phrases: Seq<Seq<char>>,
    pub filters: Seq<(SearchField, Seq<char>)>,
}

/// The characters that separate words.
pub open spec fn is_space(c: char) -> bool {
    c == ' ' || c == '\t' || c == '\n' || c == '\r'
}

/// The tokens of `s` from position `i` on, read in `mode` (0: between tokens,
/// 1: inside a word, 2: inside a phrase) with `cur` read so far of the current
/// token. A token is `(true, text)` for a phrase and `(false, text)` for a
/// word. A phrase runs to the next double quote, or to the end of the query.
pub open spec fn scan(s: Seq<char>, i: int, mode: int, cur: Seq<char>) -> Seq<(bool, Seq<char>)>
    decreases s.len() - i,
{
    if i >= s.len() || i < 0 {
        if mode == 1 {
            seq![(false, cur)]
        } else if mode == 2 {
            seq![(true, cur)]
        } else {
            Seq::empty()
        }
    } else {
        let c = s[i];
        if mode == 1 {
            if is_space(c) {
                seq![(false, cur)] + scan(s, i + 1, 0, Seq::empty())
            } else {
                scan(s, i + 1, 1, cur.push(c))
            }
        } else if mode == 2 {
            if c == '"' {
                seq![(true, cur)] + scan(s, i + 1, 0, Seq::empty())
            } else {
                scan(s, i + 1, 2, cur.push(c))
            }
        } else {
            if is_space(c) {
                scan(s, i + 1, 0, Seq::empty())
            } else if c == '"' {
                scan(s, i + 1, 2, Seq::empty())
            } else {
                scan(s, i + 1, 1, seq![c])
            }
        }
    }
}

/// The tokens of a whole query.
pub open spec fn tokens_of(s: Seq<char>) -> Seq<(bool, Seq<char>)> {
    scan(s, 0, 0, Seq::empty())
}

/// The field a name stands for, among the known ones.
pub open spec fn field_named(n: Seq<char>) -> Option<SearchField> {
    if n == "name"@ {
        Some(SearchField::Name)
    } else if n == "path"@ {
        Some(SearchField::Path)
    } else if n == "plugin"@ {
        Some(SearchField::Plugin)
    } else if n == "vendor"@ {
        Some(SearchField::Vendor)
    } else if n == "sample"@ {
        Some(SearchField::Sample)
    } else if n == "tag"@ {
        Some(SearchField::Tag)
    } else if n == "key"@ {
        Some(SearchField::Key)
    } else if n == "format"@ {
        Some(SearchField::Format)
    } else {
        None
    }
}

/// The first position at or after `i` that holds a colon, or -1.
pub open spec fn colon_from(w: Seq<char>, i: int) -> int
    decreases w.len() - i,
{
    if i >= w.len() || i < 0 {
        -1
    } else if w[i] == ':' {
        i
    } else {
        colon_from(w, i + 1)
    }
}

/// The filter a word stands for: a known field name, a colon and a non-empty value.
pub open spec fn word_filter_spec(w: Seq<char>) -> Option<(SearchField, Seq<char>)> {
    let k = colon_from(w, 0);
    if k < 0 || k + 1 >= w.len() {
        None
    } else {
        match field_named(w.subrange(0, k)) {
            Some(f) => Some((f, w.subrange(k + 1, w.len() as int))),
            None => None,
        }
    }
}

/// The query that a sequence of tokens makes.
pub open spec fn model_of_tokens(ts: Seq<(bool, Seq<char>)>) -> QueryModel
    decreases ts.len(),
{
    if ts.len() == 0 {
        QueryModel { terms: Seq::empty(), phrases: Seq::empty(), filters: Seq::empty() }
    } else {
        let q = model_of_tokens(ts.drop_last());
        let t = ts.last();
        if t.0 {
            QueryModel { phrases: q.phrases.push(t.1), ..q }
        } else {
            match word_filter_spec(t.1) {
                Some(fv) => QueryModel { filters: q.filters.push(fv), ..q },
                None => QueryModel { terms: q.terms.push(t.1), ..q },
            }
        }
    }
}

/// The query that the text `s` states.
pub open spec fn parse_spec(s: Seq<char>) -> QueryModel {
    model_of_tokens(tokens_of(s))
}

pub open spec fn token_views(ts: Seq<(bool, Vec<char>)>) -> Seq<(bool, Seq<char>)> {
    ts.map_values(|t: (bool, Vec<char>)| (t.0, t.1@))
}

fn is_space_char(c: char) -> (r: bool)
    ensures
        r == is_space(c),
{
    c == ' ' || c == '\t' || c == '\n' || c == '\r'
}

/// Splits a query into word and phrase tokens.
fn tokenize(q: &str) -> (r: Vec<(bool, Vec<char>)>)
    ensures
        token_views(r@) == tokens_of(q@),
{
    let s = chars_of(q);
    let mut out: Vec<(bool, Vec<char>)> = Vec::new();
    let mut mode: u8 = 0;
    let mut cur: Vec<char> = Vec::new();
    let mut i: usize = 0;
    assert(token_views(out@) + scan(s@, 0, 0, cur@) =~= tokens_of(q@));
    while i < s.len()
        invariant
            s@ == q@,
            i <= s@.len(),
            mode <= 2,
            mode == 0 ==> cur@.len() == 0,
            token_views(out@) + scan(s@, i as int, mode as int, cur@) == tokens_of(q@),
        decreases s@.len() - i,
    {
        let c = s[i];
        let ghost before = token_views(out@);
        let ghost cur0 = cur@;
        if mode == 0 {
            assert(cur0 =~= Seq::<char>::empty());
            if is_space_char(c) {
            } else if c == '"' {
                mode = 2;
            } else {
                cur.push(c);
                assert(cur@ =~= seq![c]);
                mode = 1;
            }
        } else if mode == 1 {
            if is_space_char(c) {
                let t = cur;
                out.push((false, t));
                cur = Vec::new();
                mode = 0;
                assert(token_views(out@) =~= before.push((false, cur0)));
                assert(token_views(out@) + scan(s@, i + 1, 0, Seq::empty()) =~= before + (seq![(false, cur0)] + scan(s@, i + 1, 0, Seq::empty())));
            } else {
                cur.push(c);
            }
        } else {
            if c == '"' {
                let t = cur;
                out.push((true, t));
                cur = Vec::new();
                mode = 0;
                assert(token_views(out@) =~= before.push((true, cur0)));
                assert(token_views(out@) + scan(s@, i + 1, 0, Seq::empty()) =~= before + (seq![(true, cur0)] + scan(s@, i + 1, 0, Seq::empty())));
            } else {
                cur.push(c);
            }
        }
        i = i + 1;
    }
    let ghost before = token_views(out@);
    let ghost cur0 = cur@;
    if mode == 1 {
        out.push((false, cur));
        assert(token_views(out@) =~= before + seq![(false, cur0)]);
    } else if mode == 2 {
        out.push((true, cur));
        assert(token_views(out@) =~= before + seq![(true, cur0)]);
    } else {
        assert(token_views(out@) =~= before + Seq::<(bool, Seq<char>)>::empty());
    }
    out
}

/// The field a name stands for, among the known ones.
fn field_from_name(n: &Vec<char>) -> (r: Option<SearchField>)
    ensures
        r == field_named(n@),
{
    let name = chars_of("name");
    let path = chars_of("path");
    let plugin = chars_of("plugin");
    let vendor = chars_of("vendor");
    let sample = chars_of("sample");
    let tag = chars_of("tag");
    let key = chars_of("key");
    let format = chars_of("format");
    if chars_equal(n, &name) {
        Some(SearchField::Name)
    } else if chars_equal(n, &path) {
        Some(SearchField::Path)
    } else if chars_equal(n, &plugin) {
        Some(SearchField::Plugin)
    } else if chars_equal(n, &vendor) {
        Some(SearchField::Vendor)
    } else if chars_equal(n, &sample) {
        Some(SearchField::Sample)
    } else if chars_equal(n, &tag) {
        Some(SearchField::Tag)
    } else if chars_equal(n, &key) {
        Some(SearchField::Key)
    } else if chars_equal(n, &format) {
        Some(SearchField::Format)
    } else {
        None
    }
}

/// The filter that a word stands for, if it is one.
fn word_filter(w: &Vec<char>) -> (r: Option<(SearchField, Vec<char>)>)
    ensures
        r is None ==> word_filter_spec(w@) is None,
        r is Some ==> word_filter_spec(w@) == Some(((r->0).0, (r->0).1@)),
{
    let mut k: usize = 0;
    while k < w.len() && w[k] != ':'
        invariant
            k <= w@.len(),
            colon_from(w@, k as int) == colon_from(w@, 0),
        decreases w@.len() - k,
    {
        k = k + 1;
    }
    if k >= w.len() || k + 1 >= w.len() {
        return None;
    }
    assert(w@[k as int] == ':');
    let name = sub_chars(w, 0, k);
    match field_from_name(&name) {
        Some(f) => {
            let v = sub_chars(w, k + 1, w.len());
            Some((f, v))
        },
        None => None,
    }
}

impl SearchQuery {
    pub open spec fn view(&self) -> QueryModel {
        QueryModel {
            terms: self.terms@.map_values(|s: String| s@),
            phrases: self.phrases@.map_values(|s: String| s@),
            filters: self.filters@.map_values(|f: FieldFilter| (f.field, f.value@)),
        }
    }

    /// Parses a free-text query.
    pub fn parse(q: &str) -> (r: SearchQuery)
        ensures
            r.view() == parse_spec(q@),
    {
        let tokens = tokenize(q);
        let ghost ts = token_views(tokens@);
        let mut r = SearchQuery { terms: Vec::new(), phrases: Vec::new(), filters: Vec::new() };
        let mut i: usize = 0;
        proof {
            assert(ts.subrange(0, 0) =~= Seq::<(bool, Seq<char>)>::empty());
            assert(r.view().terms =~= Seq::<Seq<char>>::empty());
            assert(r.view().phrases =~= Seq::<Seq<char>>::empty());
            assert(r.view().filters =~= Seq::<(SearchField, Seq<char>)>::empty());
        }
        while i < tokens.len()
            invariant
                ts == token_views(tokens@),
                ts == tokens_of(q@),
                i <= tokens@.len(),
                r.view() == model_of_tokens(ts.subrange(0, i as int)),
            decreases tokens@.len() - i,
        {
            let ghost prev = r.view();
            proof {
                assert(ts.subrange(0, i + 1).drop_last() =~= ts.subrange(0, i as int));
                assert(ts.subrange(0, i + 1).last() == ts[i as int]);
            }
            let t = &tokens[i];
            if t.0 {
                let s = string_from_chars(t.1.as_slice());
                r.phrases.push(s);
                assert(r.view().phrases =~= prev.phrases.push(t.1@));
                assert(r.view().terms =~= prev.terms);
                assert(r.view().filters =~= prev.filters);
            } else {
                match word_filter(&t.1) {
                    Some(fv) => {
                        let value = string_from_chars(fv.1.as_slice());
                        r.filters.push(FieldFilter { field: fv.0, value });
                        assert(r.view().filters =~= prev.filters.push((fv.0, fv.1@)));
                        assert(r.view().terms =~= prev.terms);
                        assert(r.view().phrases =~= prev.phrases);
                    },
                    None => {
                        let s = string_from_chars(t.1.as_slice());
                        r.terms.push(s);
                        assert(r.view().terms =~= prev.terms.push(t.1@));
                        assert(r.view().phrases =~= prev.phrases);
                        assert(r.view().filters =~= prev.filters);
                    },
                }
            }
            i = i + 1;
        }
        assert(ts.subrange(0, tokens@.len() as int) =~= ts);
        r
    }
}

} // verus!
