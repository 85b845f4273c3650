use seula::ingest::{tally, worker_count, BatchError, IngestBatch, IngestResult};
use seula::project::{ParsedProject, PluginRef, TimeSignature};
use seula::scan::ScanCommand;
use seula::store::{InsertOutcome, ProjectStore};

fn project_at(path: &str, name: &str) -> ParsedProject {
    ParsedProject {
        name: name.to_string(),
        path: path.to_string(),
        tempo_millibpm: 120_000,
        time_signature: TimeSignature { numerator: 4, denominator: 4 },
        key_signature: None,
        duration_ms: 0,
        plugins: Vec::<PluginRef>::new(),
        samples: vec![],
        tags: vec![],
        created: 0,
        modified: 0,
    }
}

fn ten_paths() -> Vec<String> {
    (0..10).map(|i| format!("/projects/song{}.als", i)).collect()
}

/// Decodes every path but the ones whose number is in `bad`.
fn decode_all(paths: &[String], bad: &[usize]) -> Vec<IngestResult> {
    paths
        .iter()
        .enumerate()
        .map(|(i, p)| {
            if bad.contains(&i) {
                IngestResult::Failure { path: p.clone(), error: "corrupt".to_string() }
            } else {
                IngestResult::Success { path: p.clone(), project: project_at(p, &format!("song{}", i)) }
            }
        })
        .collect()
}

#[test]
fn worker_count_is_clamped() {
    assert_eq!(worker_count(0), 1);
    assert_eq!(worker_count(1), 1);
    assert_eq!(worker_count(2), 1);
    assert_eq!(worker_count(5), 2);
    assert_eq!(worker_count(8), 4);
    assert_eq!(worker_count(1000), 4);
}

#[test]
fn batch_accounts_for_every_path() {
    let paths = vec!["/a.als".to_string(), "/b.als".to_string(), "/a.als".to_string()];
    let mut batch = IngestBatch::new(paths.clone());
    assert_eq!(batch.remaining(), 3);
    // results arrive out of order
    assert!(batch.accept(IngestResult::Failure { path: "/b.als".to_string(), error: "x".to_string() }).is_ok());
    assert!(batch.accept(IngestResult::Success { path: "/a.als".to_string(), project: project_at("/a.als", "a") }).is_ok());
    assert!(!batch.is_complete());
    assert!(batch.accept(IngestResult::Success { path: "/a.als".to_string(), project: project_at("/a.als", "a") }).is_ok());
    assert!(batch.is_complete());
    // a fourth result for a path that is no longer awaited is refused
    assert_eq!(
        batch.accept(IngestResult::Success { path: "/a.als".to_string(), project: project_at("/a.als", "a") }),
        Err(BatchError::UnexpectedPath)
    );
    let results = batch.into_results();
    assert_eq!(results.len(), 3);
    let mut got: Vec<String> = results.iter().map(|r| r.path().clone()).collect();
    let mut want = paths;
    got.sort();
    want.sort();
    assert_eq!(got, want);
}

#[test]
fn unknown_path_is_refused() {
    let mut batch = IngestBatch::new(vec!["/a.als".to_string()]);
    assert_eq!(
        batch.accept(IngestResult::Failure { path: "/z.als".to_string(), error: "x".to_string() }),
        Err(BatchError::UnexpectedPath)
    );
    assert_eq!(batch.remaining(), 1);
}

#[test]
fn tally_partitions_results() {
    let results = decode_all(&ten_paths(), &[2, 7]);
    assert_eq!(tally(&results), (8, 2));
    assert_eq!(tally(&vec![]), (0, 0));
}

#[test]
fn insert_skips_or_replaces_existing_path() {
    let mut store = ProjectStore::new();
    assert_eq!(store.insert(project_at("/x.als", "x"), false), Ok(InsertOutcome::Inserted(1)));
    assert_eq!(store.insert(project_at("/y.als", "y"), false), Ok(InsertOutcome::Inserted(2)));
    assert_eq!(store.insert(project_at("/x.als", "x2"), false), Ok(InsertOutcome::Skipped(1)));
    assert_eq!(store.get_project_by_path(&"/x.als".to_string()).unwrap().project.name, "x");
    assert_eq!(store.insert(project_at("/x.als", "x3"), true), Ok(InsertOutcome::Replaced(1)));
    assert_eq!(store.get_project_by_path(&"/x.als".to_string()).unwrap().project.name, "x3");
    assert_eq!(store.len(), 2);
    assert!(store.get_project_by_path(&"/z.als".to_string()).is_none());
}

/// Runs one scan of `found` against `store` the way the pipeline does.
fn run_scan(store: &mut ProjectStore, found: Vec<String>, force: bool, bad: &[usize]) -> (usize, usize, usize, usize) {
    let cmd = ScanCommand { paths: vec!["/projects".to_string()], force };
    let discovered = seula::discovery::collect_candidates(found.clone()).len();
    let to_process = cmd.paths_to_process(store, found);
    let submitted = to_process.len();
    let mut batch = IngestBatch::new(to_process.clone());
    for r in decode_all(&to_process, bad) {
        batch.accept(r).unwrap();
    }
    assert!(batch.is_complete());
    let (ok, failed) = store.store_results(batch.into_results(), force);
    (discovered, submitted, ok, failed)
}

#[test]
fn first_scan_of_ten_new_files() {
    let mut store = ProjectStore::new();
    let (discovered, submitted, ok, failed) = run_scan(&mut store, ten_paths(), false, &[4]);
    assert_eq!(discovered, 10);
    assert_eq!(submitted, 10);
    assert_eq!(ok + failed, 10);
    assert_eq!(ok, 9);
    assert_eq!(store.len(), ok);
}

#[test]
fn second_scan_submits_nothing() {
    let mut store = ProjectStore::new();
    let (_, _, ok, _) = run_scan(&mut store, ten_paths(), false, &[]);
    assert_eq!(ok, 10);
    let (discovered, submitted, ok2, failed2) = run_scan(&mut store, ten_paths(), false, &[]);
    assert_eq!(discovered, 10);
    assert_eq!(submitted, 0);
    assert_eq!((ok2, failed2), (0, 0));
    assert_eq!(store.len(), 10);
}

#[test]
fn forced_scan_replaces_records() {
    let mut store = ProjectStore::new();
    run_scan(&mut store, ten_paths(), false, &[]);
    let (_, submitted, ok, _) = run_scan(&mut store, ten_paths(), true, &[]);
    assert_eq!(submitted, 10);
    assert_eq!(ok, 10);
    assert_eq!(store.len(), 10);
}

#[test]
fn unforced_reingest_of_stored_results_changes_nothing() {
    let mut store = ProjectStore::new();
    let paths = ten_paths();
    store.store_results(decode_all(&paths, &[]), false);
    let (ok, failed) = store.store_results(decode_all(&paths, &[]), false);
    assert_eq!((ok, failed), (10, 0));
    assert_eq!(store.len(), 10);
    assert_eq!(store.filter_existing_projects(paths).len(), 0);
}
