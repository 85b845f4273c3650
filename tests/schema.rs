use seula::schema::{
    build_plugin_query, classify_database_plugins, plugin_columns, plugin_from_row, ColumnValue,
    SchemaError,
};
use seula::format::PluginFormat;

fn names(v: &[&str]) -> Vec<String> {
    v.iter().map(|s| s.to_string()).collect()
}

#[test]
fn query_with_all_columns() {
    let avail = names(&[
        "enabled", "name", "plugin_id", "dev_identifier", "module_id", "vendor", "version",
        "sdk_version", "flags", "scanstate", "parsestate", "extra",
    ]);
    let q = build_plugin_query(&avail).unwrap();
    assert_eq!(
        q,
        "SELECT plugin_id, dev_identifier, name, module_id, vendor, version, sdk_version, flags, scanstate, parsestate, enabled FROM plugins WHERE dev_identifier = ?"
    );
}

#[test]
fn query_skips_absent_optional_columns() {
    let avail = names(&["plugin_id", "dev_identifier", "name", "vendor", "parsestate"]);
    let q = build_plugin_query(&avail).unwrap();
    assert_eq!(q, "SELECT plugin_id, dev_identifier, name, vendor, parsestate FROM plugins WHERE dev_identifier = ?");
}

#[test]
fn missing_core_column_is_an_error() {
    let avail = names(&["plugin_id", "name", "vendor"]);
    match plugin_columns(&avail) {
        Err(SchemaError::MissingCoreColumn(c)) => assert_eq!(c, "dev_identifier"),
        other => panic!("unexpected {:?}", other),
    }
    assert!(build_plugin_query(&names(&[])).is_err());
}

#[test]
fn row_without_optional_columns_reads_as_absent() {
    let cols = names(&["plugin_id", "dev_identifier", "name"]);
    let vals = vec![
        ColumnValue::Integer(7),
        ColumnValue::Text("device:vst3:instr:1097826920Massive".to_string()),
        ColumnValue::Text("Massive".to_string()),
    ];
    let p = plugin_from_row(&cols, &vals).unwrap();
    assert_eq!(p.plugin_id, 7);
    assert_eq!(p.dev_identifier, "device:vst3:instr:1097826920Massive");
    assert_eq!(p.name, "Massive");
    assert!(p.vendor.is_none());
    assert!(p.version.is_none());
    assert!(p.sdk_version.is_none());
    assert!(p.module_id.is_none());
    assert!(p.flags.is_none());
    assert!(p.parsestate.is_none());
    assert!(p.enabled.is_none());
}

#[test]
fn row_with_optional_columns() {
    let cols = names(&["plugin_id", "dev_identifier", "name", "vendor", "parsestate", "enabled", "flags"]);
    let vals = vec![
        ColumnValue::Integer(1),
        ColumnValue::Text("device:vst:audiofx:XYZ".to_string()),
        ColumnValue::Text("Verb".to_string()),
        ColumnValue::Text("Acme".to_string()),
        ColumnValue::Integer(3),
        ColumnValue::Null,
        ColumnValue::Integer(5_000_000_000),
    ];
    let p = plugin_from_row(&cols, &vals).unwrap();
    assert_eq!(p.vendor.as_deref(), Some("Acme"));
    assert_eq!(p.parsestate, Some(3));
    assert_eq!(p.enabled, None);
    assert_eq!(p.flags, None);
}

#[test]
fn row_without_name_is_an_error() {
    let cols = names(&["plugin_id", "dev_identifier"]);
    let vals = vec![ColumnValue::Integer(1), ColumnValue::Text("device:vst:instr:a".to_string())];
    match plugin_from_row(&cols, &vals) {
        Err(SchemaError::InvalidCoreValue(c)) => assert_eq!(c, "name"),
        other => panic!("unexpected {:?}", other),
    }
}

#[test]
fn missing_plugin_id_reads_as_zero() {
    let cols = names(&["dev_identifier", "name", "scanstate", "parsestate"]);
    let vals = vec![
        ColumnValue::Text("x".to_string()),
        ColumnValue::Text("y".to_string()),
        ColumnValue::Integer(1),
        ColumnValue::Integer(2),
    ];
    let p = plugin_from_row(&cols, &vals).unwrap();
    assert_eq!(p.plugin_id, 0);
    assert_eq!(p.parsestate, Some(1));
}

#[test]
fn database_plugins_leave_out_unknown_formats() {
    let rows = vec![
        ("Massive".to_string(), "device:vst3:instr:1097826920Massive".to_string()),
        ("Auv".to_string(), "device:au:instr:XYZ".to_string()),
        ("Verb".to_string(), "device:vst:audiofx:XYZ".to_string()),
    ];
    let r = classify_database_plugins(rows);
    assert_eq!(r.len(), 2);
    assert_eq!(r[0].0, "Massive");
    assert_eq!(r[0].1, PluginFormat::VST3Instrument);
    assert_eq!(r[1].0, "Verb");
    assert_eq!(r[1].1, PluginFormat::VST2AudioFx);
}
