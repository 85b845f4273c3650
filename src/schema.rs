//! Capability negotiation with the vendor plugin database: which columns its
//! `plugins` table has, the query built from them, and the mapping of a row
//! to a plugin record where absent optional columns read as absent values.

use vstd::prelude::*;
use crate::format::{format_of, parse_plugin_format, PluginFormat};
use crate::text::{append, contains_string, string_views};

verus! {

/// The columns that every version of the table has.
pub open spec fn core_columns() -> Seq<Seq<char>> {
    seq!["plugin_id"@, "dev_identifier"@, "name"@]
}

/// The columns that are read when present, in their canonical order.
pub open spec fn optional_columns() -> Seq<Seq<char>> {
    seq![
        "module_id"@,
        "vendor"@,
        "version"@,
        "sdk_version"@,
        "flags"@,
        "scanstate"@,
        "parsestate"@,
        "enabled"@,
    ]
}

/// The first core column that `avail` lacks, if any.
pub open spec fn missing_core(avail: Seq<Seq<char>>) -> Option<Seq<char>> {
    if !avail.contains(core_columns()[0]) {
        Some(core_columns()[0])
    } else if !avail.contains(core_columns()[1]) {
        Some(core_columns()[1])
    } else if !avail.contains(core_columns()[2]) {
        Some(core_columns()[2])
    } else {
        None
    }
}

/// The columns to select: the core ones, then the optional ones that `avail` has.
pub open spec fn selected_columns(avail: Seq<Seq<char>>) -> Seq<Seq<char>> {
    core_columns() + optional_columns().filter(|c: Seq<char>| avail.contains(c))
}

/// Column names separated by a comma and a space.
pub open spec fn join_columns(cols: Seq<Seq<char>>) -> Seq<char>
    decreases cols.len(),
{
    if cols.len() == 0 {
        Seq::empty()
    } else if cols.len() == 1 {
        cols[0]
    } else {
        join_columns(cols.drop_last()) + ", "@ + cols.last()
    }
}

/// The lookup of one plugin by dev-identifier over the columns `cols`.
pub open spec fn plugin_query_spec(cols: Seq<Seq<char>>) -> Seq<char> {
    "SELECT "@ + join_columns(cols) + " FROM plugins WHERE dev_identifier = ?"@
}

/// Why the plugin table cannot be read.
#[derive(Clone, Debug)]
pub enum SchemaError {
    /// A core column is not in the table.
    MissingCoreColumn(String),
    /// A row lacks a text value for a core column.
    InvalidCoreValue(String),
}

/// The columns to read from a table that has `available_columns`, in
/// canonical order; an error names the first core column that is missing.
pub fn plugin_columns(available_columns: &Vec<String>) -> (r: Result<Vec<String>, SchemaError>)
    ensures
        (r is Err) == (missing_core(string_views(available_columns@)) is Some),
        r is Err ==> r->Err_0 is MissingCoreColumn
            && r->Err_0->MissingCoreColumn_0@ == missing_core(string_views(available_columns@))->0,
        r is Ok ==> string_views(r->Ok_0@) == selected_columns(string_views(available_columns@)),
{
    let ghost avail = string_views(available_columns@);
    let core = vec!["plugin_id".to_owned(), "dev_identifier".to_owned(), "name".to_owned()];
    let optional = vec![
        "module_id".to_owned(),
        "vendor".to_owned(),
        "version".to_owned(),
        "sdk_version".to_owned(),
        "flags".to_owned(),
        "scanstate".to_owned(),
        "parsestate".to_owned(),
        "enabled".to_owned(),
    ];
    assert(string_views(core@) =~= core_columns());
    assert(string_views(optional@) =~= optional_columns());
    let mut selected: Vec<String> = Vec::new();
    let mut i: usize = 0;
    while i < core.len()
        invariant
            avail == string_views(available_columns@),
            string_views(core@) == core_columns(),
            core@.len() == 3,
            i <= 3,
            forall|j: int| 0 <= j < i ==> avail.contains(#[trigger] core_columns()[j]),
            selected@.len() == i,
            forall|j: int| 0 <= j < i ==> #[trigger] selected@[j]@ == core_columns()[j],
        decreases 3 - i,
    {
        assert(core@[i as int]@ == core_columns()[i as int]);
        if !contains_string(available_columns, &core[i]) {
            proof {
                assert(!avail.contains(core_columns()[i as int]));
                if i >= 1 {
                    assert(avail.contains(core_columns()[0]));
                }
                if i >= 2 {
                    assert(avail.contains(core_columns()[1]));
                }
                if i == 0 {
                    assert(missing_core(avail) == Some(core_columns()[0]));
                } else if i == 1 {
                    assert(missing_core(avail) == Some(core_columns()[1]));
                } else {
                    assert(missing_core(avail) == Some(core_columns()[2]));
                }
            }
            let missing = core[i].clone();
            assert(missing@ == core_columns()[i as int]);
            return Err(SchemaError::MissingCoreColumn(missing));
        }
        selected.push(core[i].clone());
        i = i + 1;
    }
    assert(string_views(selected@) =~= core_columns());
    let ghost pred = |c: Seq<char>| avail.contains(c);
    let mut k: usize = 0;
    while k < optional.len()
        invariant
            avail == string_views(available_columns@),
            string_views(optional@) == optional_columns(),
            optional@.len() == 8,
            k <= 8,
            string_views(selected@) == core_columns() + optional_columns().subrange(0, k as int).filter(pred),
            pred == (|c: Seq<char>| avail.contains(c)),
        decreases 8 - k,
    {
        proof {
            let sub = optional_columns().subrange(0, k + 1);
            assert(sub.drop_last() =~= optional_columns().subrange(0, k as int));
            assert(sub.last() == optional@[k as int]@);
            reveal(Seq::filter);
        }
        if contains_string(available_columns, &optional[k]) {
            let ghost before = string_views(selected@);
            selected.push(optional[k].clone());
            assert(string_views(selected@) =~= before.push(optional@[k as int]@));
        }
        k = k + 1;
    }
    assert(optional_columns().subrange(0, 8) =~= optional_columns());
    Ok(selected)
}

/// The text of the lookup query over `cols`.
fn query_over(cols: &Vec<String>) -> (r: String)
    ensures
        r@ == plugin_query_spec(string_views(cols@)),
{
    let mut q = "SELECT ".to_owned();
    let mut i: usize = 0;
    while i < cols.len()
        invariant
            i <= cols@.len(),
            q@ == "SELECT "@ + join_columns(string_views(cols@).subrange(0, i as int)),
        decreases cols@.len() - i,
    {
        let ghost sub = string_views(cols@).subrange(0, i + 1);
        assert(sub.drop_last() =~= string_views(cols@).subrange(0, i as int));
        if i > 0 {
            append(&mut q, ", ");
        } else {
            assert(join_columns(string_views(cols@).subrange(0, 0)) =~= Seq::<char>::empty());
        }
        append(&mut q, cols[i].as_str());
        assert(q@ =~= "SELECT "@ + join_columns(sub));
        i = i + 1;
    }
    assert(string_views(cols@).subrange(0, cols@.len() as int) =~= string_views(cols@));
    append(&mut q, " FROM plugins WHERE dev_identifier = ?");
    assert(q@ =~= plugin_query_spec(string_views(cols@)));
    q
}

/// The lookup query for a table that has `available_columns`: it selects the
/// core columns and the optional columns present, in canonical order.
pub fn build_plugin_query(available_columns: &Vec<String>) -> (r: Result<String, SchemaError>)
    ensures
        (r is Err) == (missing_core(string_views(available_columns@)) is Some),
        r is Err ==> r->Err_0 is MissingCoreColumn
            && r->Err_0->MissingCoreColumn_0@ == missing_core(string_views(available_columns@))->0,
        r is Ok ==> r->Ok_0@ == plugin_query_spec(selected_columns(string_views(available_columns@))),
{
    match plugin_columns(available_columns) {
        Ok(cols) => Ok(query_over(&cols)),
        Err(e) => Err(e),
    }
}


/// One value of a result row.
#[derive(Clone, Debug)]
pub enum ColumnValue {
    Null,
    Integer(i64),
    Text(String),
}

/// A plugin as the vendor database describes it. Fields of optional columns
/// are `None` when the column is absent or holds no value of the field's type.
#[derive(Clone, Debug)]
pub struct DbPlugin {
    pub plugin_id: i32,
    pub module_id: Option<i32>,
    pub dev_identifier: String,
    pub name: String,
    pub vendor: Option<String>,
    pub version: Option<String>,
    pub sdk_version: Option<String>,
    pub flags: Option<i32>,
    pub parsestate: Option<i32>,
    pub enabled: Option<i32>,
}

/// The value of the first column named `c` at or after position `i`.
pub open spec fn lookup_from(cols: Seq<Seq<char>>, vals: Seq<ColumnValue>, c: Seq<char>, i: int) -> Option<ColumnValue>
    decreases cols.len() - i,
{
    if i < 0 || i >= cols.len() || i >= vals.len() {
        None
    } else if cols[i] == c {
        Some(vals[i])
    } else {
        lookup_from(cols, vals, c, i + 1)
    }
}

/// The value of the column named `c` in a row, if the row has that column.
pub open spec fn lookup(cols: Seq<Seq<char>>, vals: Seq<ColumnValue>, c: Seq<char>) -> Option<ColumnValue> {
    lookup_from(cols, vals, c, 0)
}

/// A value read as a 32-bit integer.
pub open spec fn int_of(v: Option<ColumnValue>) -> Option<i32> {
    match v {
        Some(ColumnValue::Integer(n)) => if i32::MIN <= n <= i32::MAX {
            Some(n as i32)
        } else {
            None
        },
        _ => None,
    }
}

/// A value read as text.
pub open spec fn text_of(v: Option<ColumnValue>) -> Option<Seq<char>> {
    match v {
        Some(ColumnValue::Text(s)) => Some(s@),
        _ => None,
    }
}

pub open spec fn opt_view(o: Option<String>) -> Option<Seq<char>> {
    match o {
        Some(s) => Some(s@),
        None => None,
    }
}

/// `p` is the plugin that the row `(cols, vals)` describes.
pub open spec fn plugin_of_row(p: DbPlugin, cols: Seq<Seq<char>>, vals: Seq<ColumnValue>) -> bool {
    &&& p.plugin_id == match int_of(lookup(cols, vals, "plugin_id"@)) {
        Some(n) => n,
        None => 0i32,
    }
    &&& p.module_id == int_of(lookup(cols, vals, "module_id"@))
    &&& Some(p.dev_identifier@) == text_of(lookup(cols, vals, "dev_identifier"@))
    &&& Some(p.name@) == text_of(lookup(cols, vals, "name"@))
    &&& opt_view(p.vendor) == text_of(lookup(cols, vals, "vendor"@))
    &&& opt_view(p.version) == text_of(lookup(cols, vals, "version"@))
    &&& opt_view(p.sdk_version) == text_of(lookup(cols, vals, "sdk_version"@))
    &&& p.flags == int_of(lookup(cols, vals, "flags"@))
    &&& p.parsestate == if int_of(lookup(cols, vals, "scanstate"@)) is Some {
        int_of(lookup(cols, vals, "scanstate"@))
    } else {
        int_of(lookup(cols, vals, "parsestate"@))
    }
    &&& p.enabled == int_of(lookup(cols, vals, "enabled"@))
}

/// The value of the column named `c`, if the row has it.
fn lookup_value<'a>(cols: &Vec<String>, vals: &'a Vec<ColumnValue>, c: &str) -> (r: Option<&'a ColumnValue>)
    ensures
        r is None ==> lookup(string_views(cols@), vals@, c@) is None,
        r is Some ==> lookup(string_views(cols@), vals@, c@) == Some(*r->0),
{
    let name = c.to_owned();
    let mut i: usize = 0;
    while i < cols.len() && i < vals.len()
        invariant
            name@ == c@,
            i <= cols@.len(),
            lookup_from(string_views(cols@), vals@, c@, i as int) == lookup(string_views(cols@), vals@, c@),
        decreases cols@.len() - i,
    {
        assert(string_views(cols@)[i as int] == cols@[i as int]@);
        if cols[i] == name {
            return Some(&vals[i]);
        }
        i = i + 1;
    }
    None
}

fn int_value(v: Option<&ColumnValue>) -> (r: Option<i32>)
    ensures
        r == int_of(match v {
            Some(x) => Some(*x),
            None => None,
        }),
{
    match v {
        Some(ColumnValue::Integer(n)) => {
            if i32::MIN as i64 <= *n && *n <= i32::MAX as i64 {
                Some(*n as i32)
            } else {
                None
            }
        },
        _ => None,
    }
}

fn text_value(v: Option<&ColumnValue>) -> (r: Option<String>)
    ensures
        opt_view(r) == text_of(match v {
            Some(x) => Some(*x),
            None => None,
        }),
{
    match v {
        Some(ColumnValue::Text(s)) => Some(s.clone()),
        _ => None,
    }
}

/// The plugin that a result row describes. The row's columns are `columns`
/// and its values `values`, position by position. Optional columns that are
/// absent, or hold a value of another type, give `None`; a missing
/// `plugin_id` gives 0; a missing dev-identifier or name is an error.
pub fn plugin_from_row(columns: &Vec<String>, values: &Vec<ColumnValue>) -> (r: Result<DbPlugin, SchemaError>)
    ensures
        (r is Ok) == (text_of(lookup(string_views(columns@), values@, "dev_identifier"@)) is Some
            && text_of(lookup(string_views(columns@), values@, "name"@)) is Some),
        r is Ok ==> plugin_of_row(r->Ok_0, string_views(columns@), values@),
        r is Err ==> r->Err_0 is InvalidCoreValue,
{
    let dev_identifier = match text_value(lookup_value(columns, values, "dev_identifier")) {
        Some(s) => s,
        None => {
            return Err(SchemaError::InvalidCoreValue("dev_identifier".to_owned()));
        },
    };
    let name = match text_value(lookup_value(columns, values, "name")) {
        Some(s) => s,
        None => {
            return Err(SchemaError::InvalidCoreValue("name".to_owned()));
        },
    };
    let plugin_id = match int_value(lookup_value(columns, values, "plugin_id")) {
        Some(n) => n,
        None => 0,
    };
    let scanstate = int_value(lookup_value(columns, values, "scanstate"));
    let parsestate = if scanstate.is_some() {
        scanstate
    } else {
        int_value(lookup_value(columns, values, "parsestate"))
    };
    Ok(DbPlugin {
        plugin_id,
        module_id: int_value(lookup_value(columns, values, "module_id")),
        dev_identifier,
        name,
        vendor: text_value(lookup_value(columns, values, "vendor")),
        version: text_value(lookup_value(columns, values, "version")),
        sdk_version: text_value(lookup_value(columns, values, "sdk_version")),
        flags: int_value(lookup_value(columns, values, "flags")),
        parsestate,
        enabled: int_value(lookup_value(columns, values, "enabled")),
    })
}

/// The `(name, format)` pairs of `rows` of `(name, dev-identifier)` whose
/// dev-identifier names a known format, in order; the others are left out.
pub open spec fn classified_rows(rows: Seq<(String, String)>) -> Seq<(Seq<char>, PluginFormat)>
    decreases rows.len(),
{
    if rows.len() == 0 {
        Seq::empty()
    } else {
        let init = classified_rows(rows.drop_last());
        match format_of(rows.last().1@) {
            Some(f) => init.push((rows.last().0@, f)),
            None => init,
        }
    }
}

/// Classifies `(name, dev-identifier)` rows of enabled, scanned plugins.
/// Plugins of an unknown format are left out, not treated as an error.
pub fn classify_database_plugins(rows: Vec<(String, String)>) -> (r: Vec<(String, PluginFormat)>)
    ensures
        r@.map_values(|e: (String, PluginFormat)| (e.0@, e.1)) == classified_rows(rows@),
{
    let mut out: Vec<(String, PluginFormat)> = Vec::new();
    let mut i: usize = 0;
    while i < rows.len()
        invariant
            i <= rows@.len(),
            out@.map_values(|e: (String, PluginFormat)| (e.0@, e.1)) == classified_rows(rows@.subrange(0, i as int)),
        decreases rows@.len() - i,
    {
        let ghost sub = rows@.subrange(0, i + 1);
        assert(sub.drop_last() =~= rows@.subrange(0, i as int));
        let (name, id) = (&rows[i].0, &rows[i].1);
        match parse_plugin_format(id.as_str()) {
            Some(f) => {
                let ghost before = out@.map_values(|e: (String, PluginFormat)| (e.0@, e.1));
                out.push((name.clone(), f));
                assert(out@.map_values(|e: (String, PluginFormat)| (e.0@, e.1)) =~= before.push((name@, f)));
            },
            None => {},
        }
        i = i + 1;
    }
    assert(rows@.subrange(0, rows@.len() as int) =~= rows@);
    out
}


/// A column that a row does not have reads as absent.
pub proof fn lemma_absent_column_reads_as_none(cols: Seq<Seq<char>>, vals: Seq<ColumnValue>, c: Seq<char>)
    requires
        !cols.contains(c),
    ensures
        lookup(cols, vals, c) is None,
{
    lemma_lookup_from_absent(cols, vals, c, 0);
}

proof fn lemma_lookup_from_absent(cols: Seq<Seq<char>>, vals: Seq<ColumnValue>, c: Seq<char>, i: int)
    requires
        !cols.contains(c),
        0 <= i,
    ensures
        lookup_from(cols, vals, c, i) is None,
    decreases cols.len() - i,
{
    if i < cols.len() && i < vals.len() {
        assert(cols[i] != c);
        lemma_lookup_from_absent(cols, vals, c, i + 1);
    }
}

/// A plugin read from a row whose columns lack an optional column has that
/// field absent; the core fields are those of the row.
pub proof fn lemma_absent_optional_fields(p: DbPlugin, cols: Seq<Seq<char>>, vals: Seq<ColumnValue>)
    requires
        plugin_of_row(p, cols, vals),
    ensures
        !cols.contains("module_id"@) ==> p.module_id is None,
        !cols.contains("vendor"@) ==> p.vendor is None,
        !cols.contains("version"@) ==> p.version is None,
        !cols.contains("sdk_version"@) ==> p.sdk_version is None,
        !cols.contains("flags"@) ==> p.flags is None,
        !cols.contains("scanstate"@) && !cols.contains("parsestate"@) ==> p.parsestate is None,
        !cols.contains("enabled"@) ==> p.enabled is None,
        !cols.contains("plugin_id"@) ==> p.plugin_id == 0,
        Some(p.dev_identifier@) == text_of(lookup(cols, vals, "dev_identifier"@)),
        Some(p.name@) == text_of(lookup(cols, vals, "name"@)),
{
    if !cols.contains("module_id"@) { lemma_absent_column_reads_as_none(cols, vals, "module_id"@); }
    if !cols.contains("vendor"@) { lemma_absent_column_reads_as_none(cols, vals, "vendor"@); }
    if !cols.contains("version"@) { lemma_absent_column_reads_as_none(cols, vals, "version"@); }
    if !cols.contains("sdk_version"@) { lemma_absent_column_reads_as_none(cols, vals, "sdk_version"@); }
    if !cols.contains("flags"@) { lemma_absent_column_reads_as_none(cols, vals, "flags"@); }
    if !cols.contains("scanstate"@) { lemma_absent_column_reads_as_none(cols, vals, "scanstate"@); }
    if !cols.contains("parsestate"@) { lemma_absent_column_reads_as_none(cols, vals, "parsestate"@); }
    if !cols.contains("enabled"@) { lemma_absent_column_reads_as_none(cols, vals, "enabled"@); }
    if !cols.contains("plugin_id"@) { lemma_absent_column_reads_as_none(cols, vals, "plugin_id"@); }
}

/// The columns chosen for a table include every core column first and no
/// optional column that the table lacks.
pub proof fn lemma_selected_columns_are_present(avail: Seq<Seq<char>>)
    ensures
        selected_columns(avail).subrange(0, 3) == core_columns(),
        forall|i: int| 3 <= i < selected_columns(avail).len() ==> avail.contains(#[trigger] selected_columns(avail)[i]),
{
    let pred = |c: Seq<char>| avail.contains(c);
    let f = optional_columns().filter(pred);
    assert(selected_columns(avail).subrange(0, 3) =~= core_columns());
    assert forall|i: int| 3 <= i < selected_columns(avail).len() implies avail.contains(#[trigger] selected_columns(avail)[i]) by {
        assert(selected_columns(avail)[i] == f[i - 3]);
        optional_columns().lemma_filter_pred(pred, i - 3);
    }
}

} // verus!
