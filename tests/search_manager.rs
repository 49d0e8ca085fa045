use pm_spotlight::config::Config;
use pm_spotlight::emoji_searcher::{contains_text, EmojiSearcher};
use pm_spotlight::search_manager::SearchManager;
use pm_spotlight::search_result_entry::{current_entries, SearchResultEntry};
use pm_spotlight::searcher::{Effect, Searcher};
use pm_spotlight::searchers_provider::SearchersProvider;

fn manager() -> SearchManager {
    SearchManager::new(Config {
        search_paths: vec!["/nonexistent_root_for_tests".to_string()],
        skip_paths: vec![],
    })
}

#[test]
fn emoji_search_matches_keywords() {
    let mut e = EmojiSearcher::new();
    assert!(e.handles(":thumbs"));
    assert!(!e.handles("thumbs"));
    let r = e.search(":thumbs".to_string(), 2).unwrap();
    let labels: Vec<&str> = r.iter().map(|x| x.label.as_str()).collect();
    assert_eq!(labels, vec!["+1, thumbs up", "-1, thumbs down"]);
    assert_eq!(r[0].value.as_deref(), Some("\u{1F44D}"));
    assert!(r.iter().all(|x| x.valid && x.search_id == 2));
}

#[test]
fn emoji_search_needs_a_query() {
    let mut e = EmojiSearcher::new();
    assert!(e.search(":".to_string(), 1).is_none());
    assert!(e.search("".to_string(), 1).is_none());
    assert!(e.search(":no_such_keyword_xyz".to_string(), 1).unwrap().is_empty());
}

#[test]
fn emoji_execute_copies() {
    let e = EmojiSearcher::new();
    assert!(matches!(e.execute("x".to_string()), Effect::CopyAndExit(ref s) if s == "x"));
    assert!(e.alt_execute("x".to_string()).is_none());
}

#[test]
fn substring_test() {
    assert!(contains_text("thumbs up", "mbs"));
    assert!(contains_text("abc", ""));
    assert!(!contains_text("ab", "abc"));
    assert!(!contains_text("thumbs", "up"));
}

#[test]
fn search_ids_increase_even_without_results() {
    let mut m = manager();
    assert_eq!(m.current_search_id(), 0);
    let (id1, r1) = m.search("ab".to_string());
    assert_eq!(id1, 1);
    assert!(r1.unwrap().is_empty());
    let (id2, r2) = m.search("a".to_string());
    assert_eq!(id2, 2);
    assert!(r2.is_none());
    assert_eq!(m.current_search_id(), 2);
}

#[test]
fn first_search_entries_are_stale_after_second() {
    let mut m = manager();
    let (id1, r1) = m.search(":heart".to_string());
    let (id2, _) = m.search(":smile".to_string());
    assert!(id1 < id2);
    let first = r1.unwrap();
    assert!(!first.is_empty());
    assert!(first.iter().all(|e| !e.is_current(id2)));
    assert!(current_entries(&first, id2).is_empty());
    assert!(first.iter().all(|e| e.executable_value(id2).is_none()));
}

#[test]
fn manager_routes_emoji_patterns() {
    let mut m = manager();
    let (id, r) = m.search(":pizza".to_string());
    let r = r.unwrap();
    assert_eq!(r.len(), 1);
    assert_eq!(r[0].label, "pizza");
    assert_eq!(r[0].search_id, id);
    assert!(matches!(m.execute("p".to_string()), Some(Effect::CopyAndExit(ref s)) if s == "p"));
    assert!(m.alt_execute("p".to_string()).is_none());
}

#[test]
fn manager_routes_other_patterns_to_files() {
    let mut m = manager();
    m.search("abc".to_string());
    assert!(matches!(m.execute("/f".to_string()), Some(Effect::Open(ref s)) if s == "/f"));
    assert!(matches!(
        m.alt_execute("/f".to_string()),
        Some(Effect::CopyCanonicalPathAndExit(ref s)) if s == "/f"
    ));
}

#[test]
fn manager_without_search_does_nothing() {
    let mut m = manager();
    assert!(m.execute("x".to_string()).is_none());
    assert!(m.alt_execute("x".to_string()).is_none());
}

#[test]
fn executable_value_prefers_value_then_label() {
    let with_value = SearchResultEntry::new("l".to_string(), Some("v".to_string()), 3, true);
    let without = SearchResultEntry::new("l".to_string(), None, 3, true);
    let message = SearchResultEntry::new("m".to_string(), None, 3, false);
    assert_eq!(with_value.executable_value(3).as_deref(), Some("v"));
    assert_eq!(without.executable_value(3).as_deref(), Some("l"));
    assert!(message.executable_value(3).is_none());
    assert!(with_value.executable_value(4).is_none());
}

#[test]
fn current_entries_keeps_matching_ids_in_order() {
    let entries = vec![
        SearchResultEntry::new("a".to_string(), None, 1, true),
        SearchResultEntry::new("b".to_string(), None, 2, true),
        SearchResultEntry::new("c".to_string(), None, 1, true),
    ];
    let kept = current_entries(&entries, 1);
    let labels: Vec<&str> = kept.iter().map(|e| e.label.as_str()).collect();
    assert_eq!(labels, vec!["a", "c"]);
}

#[test]
fn provider_finds_emoji_only() {
    let p = SearchersProvider::new();
    assert!(p.find_provider(":x").is_some());
    assert!(p.find_provider("x").is_none());
}

#[test]
fn zombie_is_found_by_its_keyword() {
    let mut e = EmojiSearcher::new();
    let r = e.search(":zombie".to_string(), 4).unwrap();
    assert_eq!(r.len(), 1);
    assert_eq!(r[0].label, "zombie");
    assert_eq!(r[0].value.as_deref(), Some("\u{1F9DF}"));
    assert_eq!(r[0].search_id, 4);
    assert!(r[0].valid);
}

#[test]
fn manager_without_buildable_file_searcher_has_no_provider() {
    let mut m = SearchManager::new(Config {
        search_paths: vec!["/data{12}".to_string()],
        skip_paths: vec![],
    });
    let (id, r) = m.search("abc".to_string());
    assert_eq!(id, 1);
    assert!(r.is_none());
    assert!(m.execute("x".to_string()).is_none());
}
