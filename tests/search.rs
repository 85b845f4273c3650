use seula::project::{ParsedProject, PluginRef, TimeSignature};
use seula::query::{SearchField, SearchQuery};
use seula::search::{paginate, reasons_text, search_fts, MatchReason, SearchCommand};
use seula::store::ProjectStore;

fn plugin(name: &str, vendor: Option<&str>, dev: &str) -> PluginRef {
    PluginRef { dev_identifier: dev.to_string(), name: name.to_string(), vendor: vendor.map(|v| v.to_string()) }
}

fn song(path: &str, name: &str, modified: i64, plugins: Vec<PluginRef>, tags: &[&str]) -> ParsedProject {
    ParsedProject {
        name: name.to_string(),
        path: path.to_string(),
        tempo_millibpm: 124_000,
        time_signature: TimeSignature { numerator: 4, denominator: 4 },
        key_signature: Some("A minor".to_string()),
        duration_ms: 180_000,
        plugins,
        samples: vec!["/samples/kick.wav".to_string()],
        tags: tags.iter().map(|t| t.to_string()).collect(),
        created: 0,
        modified,
    }
}

fn sample_store() -> ProjectStore {
    let mut s = ProjectStore::new();
    s.insert(song("/p/deep house groove.als", "deep house groove", 5, vec![plugin("Massive", Some("Native Instruments"), "device:vst3:instr:1097826920Massive")], &["club"]), false).unwrap();
    s.insert(song("/p/deep and house.als", "deep and house", 9, vec![], &["deep"]), false).unwrap();
    s.insert(song("/p/techno.als", "techno", 7, vec![plugin("Verb", Some("Acme"), "device:vst:audiofx:XYZ")], &["house"]), false).unwrap();
    s
}

#[test]
fn parse_query_grammar() {
    let q = SearchQuery::parse("  vendor:Acme \"deep house\" bass unknown:x tag: ");
    assert_eq!(q.terms, vec!["bass".to_string(), "unknown:x".to_string(), "tag:".to_string()]);
    assert_eq!(q.phrases, vec!["deep house".to_string()]);
    assert_eq!(q.filters.len(), 1);
    assert_eq!(q.filters[0].field, SearchField::Vendor);
    assert_eq!(q.filters[0].value, "Acme");
}

#[test]
fn unterminated_phrase_runs_to_end() {
    let q = SearchQuery::parse("x \"a b");
    assert_eq!(q.terms, vec!["x".to_string()]);
    assert_eq!(q.phrases, vec!["a b".to_string()]);
}

#[test]
fn phrase_requires_adjacent_words() {
    let store = sample_store();
    let r = search_fts(&store, &SearchQuery::parse("\"deep house\""));
    assert_eq!(r.len(), 1);
    assert_eq!(r[0].project_id, 1);
}

#[test]
fn free_terms_must_all_match() {
    let store = sample_store();
    let r = search_fts(&store, &SearchQuery::parse("deep house"));
    let ids: Vec<u64> = r.iter().map(|x| x.project_id).collect();
    assert_eq!(ids.len(), 2);
    assert!(ids.contains(&1) && ids.contains(&2));
}

#[test]
fn results_are_in_rank_order() {
    let store = sample_store();
    let r = search_fts(&store, &SearchQuery::parse("house"));
    assert_eq!(r.len(), 3);
    for w in r.windows(2) {
        assert!(w[0].rank >= w[1].rank);
    }
    // name and path match: 10 + 2; tag match alone: 6
    assert_eq!(r[0].rank, 12);
    assert_eq!(r[0].project_id, 2);
    assert_eq!(r[1].project_id, 1);
    assert_eq!(r[2].rank, 6);
    assert_eq!(r[2].match_reason, vec![MatchReason::TagMatch]);
}

#[test]
fn filters_and_reasons() {
    let store = sample_store();
    let r = search_fts(&store, &SearchQuery::parse("vendor:Native"));
    assert_eq!(r.len(), 1);
    assert_eq!(r[0].project_id, 1);
    assert_eq!(r[0].rank, 0);
    assert_eq!(r[0].match_reason, vec![MatchReason::VendorMatch]);
    let r = search_fts(&store, &SearchQuery::parse("key:minor"));
    assert_eq!(r.len(), 3);
    let r = search_fts(&store, &SearchQuery::parse("format:\"VST2\""));
    assert!(r.is_empty());
    let r = search_fts(&store, &SearchQuery::parse("format:VST2"));
    assert_eq!(r.len(), 1);
    assert_eq!(r[0].project_id, 3);
}

#[test]
fn no_match_gives_nothing() {
    let store = sample_store();
    assert!(search_fts(&store, &SearchQuery::parse("ambient")).is_empty());
    assert!(search_fts(&ProjectStore::new(), &SearchQuery::parse("")).is_empty());
}

#[test]
fn offset_past_end_gives_empty_page() {
    let store = sample_store();
    let all = search_fts(&store, &SearchQuery::parse("house"));
    assert!(paginate(all, 3, 10).is_empty());
    let page = SearchCommand { query: "house".to_string(), limit: 5, offset: 7 }.execute(&store);
    assert_eq!(page.total, 3);
    assert!(page.displayed.is_empty());
}

#[test]
fn page_after_ranking() {
    let store = sample_store();
    let all = search_fts(&store, &SearchQuery::parse("house"));
    let ids: Vec<u64> = all.iter().map(|x| x.project_id).collect();
    let page = SearchCommand { query: "house".to_string(), limit: 1, offset: 1 }.execute(&store);
    assert_eq!(page.total, 3);
    assert_eq!(page.displayed.len(), 1);
    assert_eq!(page.displayed[0].project_id, ids[1]);
}

#[test]
fn reasons_as_text() {
    assert_eq!(reasons_text(&vec![]), "");
    assert_eq!(reasons_text(&vec![MatchReason::NameMatch]), "NameMatch");
    assert_eq!(reasons_text(&vec![MatchReason::NameMatch, MatchReason::PathMatch]), "NameMatch, PathMatch");
}
