use seula::discovery::{
    collect_candidates, get_most_recent_db_file, get_most_recent_plugins_db_file, is_db_file,
    is_project_file, names_plugins, DbFileEntry, FileError,
};

fn entry(path: &str, name: &str, modified: u128, is_file: bool) -> DbFileEntry {
    DbFileEntry { path: path.to_string(), file_name: name.to_string(), modified, is_file }
}

#[test]
fn project_extension() {
    assert!(is_project_file("/music/song.als"));
    assert!(is_project_file("song.als"));
    assert!(!is_project_file("/music/song.als.bak"));
    assert!(!is_project_file("/music/.als"));
    assert!(!is_project_file("/music.als/readme"));
    assert!(!is_project_file("/music/song.ALS"));
    assert!(is_db_file("/db/Live-plugins-1.db"));
    assert!(!is_db_file("/db/Live-plugins-1.db-wal"));
}

#[test]
fn candidates_are_deduplicated_and_filtered() {
    let found = vec![
        "/a/one.als".to_string(),
        "/a/two.txt".to_string(),
        "/a/one.als".to_string(),
        "/b/three.als".to_string(),
    ];
    let c = collect_candidates(found);
    assert_eq!(c, vec!["/a/one.als".to_string(), "/b/three.als".to_string()]);
    assert!(collect_candidates(vec![]).is_empty());
}

#[test]
fn plugins_db_is_chosen_by_name_not_recency() {
    let entries = vec![
        entry("/d/Live-plugins-1.db", "Live-plugins-1.db", 10, true),
        entry("/d/Live-files-1.db", "Live-files-1.db", 50, true),
        entry("/d/notes.txt", "notes.txt", 99, true),
    ];
    let dir = "/d".to_string();
    assert_eq!(get_most_recent_db_file(&entries, &dir).unwrap(), "/d/Live-files-1.db");
    assert_eq!(get_most_recent_plugins_db_file(&entries, &dir).unwrap(), "/d/Live-plugins-1.db");
}

#[test]
fn plugins_db_name_match_ignores_case() {
    let entries = vec![
        entry("/d/Live-PLUGINS-1.db", "Live-PLUGINS-1.db", 10, true),
        entry("/d/Live-Plugins-2.db", "Live-Plugins-2.db", 20, true),
    ];
    let dir = "/d".to_string();
    assert_eq!(get_most_recent_plugins_db_file(&entries, &dir).unwrap(), "/d/Live-Plugins-2.db");
    assert!(names_plugins("live-plugins-2.db"));
    assert!(!names_plugins("live-files.db"));
}

#[test]
fn no_db_file_is_not_found() {
    let entries = vec![entry("/d/Live-files-1.db", "Live-files-1.db", 1, true)];
    let dir = "/d".to_string();
    match get_most_recent_plugins_db_file(&entries, &dir) {
        Err(FileError::NotFound(p)) => assert_eq!(p, "/d"),
        other => panic!("unexpected {:?}", other),
    }
}

#[test]
fn chosen_directory_is_not_a_file() {
    let entries = vec![entry("/d/plugins.db", "plugins.db", 1, false)];
    let dir = "/d".to_string();
    match get_most_recent_db_file(&entries, &dir) {
        Err(FileError::NotAFile(p)) => assert_eq!(p, "/d/plugins.db"),
        other => panic!("unexpected {:?}", other),
    }
}

#[test]
fn equal_times_pick_the_last() {
    let entries = vec![
        entry("/d/a-plugins.db", "a-plugins.db", 5, true),
        entry("/d/b-plugins.db", "b-plugins.db", 5, true),
    ];
    let dir = "/d".to_string();
    assert_eq!(get_most_recent_plugins_db_file(&entries, &dir).unwrap(), "/d/b-plugins.db");
}
