use pm_spotlight::config::{Config, ConfigManager};
use pm_spotlight::file_searcher::{
    entries_for_matches, is_hidden_path, name_pattern_regex, select_matches, ConfigError,
    FileSearcher,
    DISALLOWED_CHARS_MESSAGE, UNBOUNDED_DEPTH,
};
use pm_spotlight::pattern::push_wildcard_regex;
use pm_spotlight::searcher::{Effect, Searcher};

fn config(search: &[&str], skip: &[&str]) -> Config {
    Config {
        search_paths: search.iter().map(|s| s.to_string()).collect(),
        skip_paths: skip.iter().map(|s| s.to_string()).collect(),
    }
}

fn searcher(search: &[&str], skip: &[&str]) -> FileSearcher {
    FileSearcher::with_home(&config(search, skip), Some("/home/u".to_string())).unwrap()
}

#[test]
fn search_path_with_depth() {
    assert_eq!(
        FileSearcher::process_search_path_definition("/tmp/foo{3}", "/home/u").unwrap(),
        ("/tmp/foo".to_string(), 3)
    );
}

#[test]
fn search_path_without_depth_is_unbounded() {
    assert_eq!(
        FileSearcher::process_search_path_definition("/tmp/foo", "/home/u").unwrap(),
        ("/tmp/foo".to_string(), UNBOUNDED_DEPTH)
    );
}

#[test]
fn relative_search_path_is_taken_from_home() {
    assert_eq!(
        FileSearcher::process_search_path_definition("docs{2}", "/home/u").unwrap(),
        ("/home/u/docs".to_string(), 2)
    );
}

#[test]
fn two_digit_suffix_is_a_configuration_error() {
    match FileSearcher::process_search_path_definition("/tmp/x{12}", "/home/u") {
        Err(ConfigError::InvalidDepthSuffix(s)) => assert_eq!(s, "/tmp/x{12}"),
        _ => panic!("expected a depth suffix error"),
    }
    assert!(matches!(
        FileSearcher::process_search_path_definition("/data{x}", "/home/u"),
        Err(ConfigError::InvalidDepthSuffix(_))
    ));
    assert!(matches!(
        FileSearcher::process_search_path_definition("{3}", "/home/u"),
        Err(ConfigError::InvalidDepthSuffix(_))
    ));
}

#[test]
fn brace_inside_a_path_is_not_a_suffix() {
    assert_eq!(
        FileSearcher::process_search_path_definition("/a{b}c", "/home/u").unwrap(),
        ("/a{b}c".to_string(), UNBOUNDED_DEPTH)
    );
}

#[test]
fn bad_depth_suffix_fails_construction() {
    let r = FileSearcher::with_home(&config(&["/srv", "/data{12}"], &[]), None);
    match r {
        Err(ConfigError::InvalidDepthSuffix(s)) => assert_eq!(s, "/data{12}"),
        _ => panic!("expected a depth suffix error"),
    }
}

#[test]
fn skip_path_regex_is_anchored_and_escaped() {
    assert_eq!(
        FileSearcher::skip_path_regex("/a/*.txt", "/home/u"),
        "(?i)^/a/.*\\.txt$"
    );
    assert_eq!(
        FileSearcher::skip_path_regex(".cache", "/home/u"),
        "(?i)^/home/u/\\.cache$"
    );
}

#[test]
fn name_regex_turns_wildcards_into_regex() {
    assert_eq!(name_pattern_regex("a*b.c"), "(?i)a.*b\\.c");
    let mut s = String::from("x");
    push_wildcard_regex(&mut s, "*.");
    assert_eq!(s, "x.*\\.");
}

#[test]
fn missing_home_is_an_error_only_when_needed() {
    let r = FileSearcher::with_home(&config(&["docs"], &[]), None);
    assert!(matches!(r, Err(ConfigError::MissingHomeDirectory)));
    let r = FileSearcher::with_home(&config(&["/srv"], &["/srv/tmp"]), None);
    assert!(r.is_ok());
}

#[test]
fn invalid_skip_rule_is_an_error() {
    let r = FileSearcher::with_home(&config(&["/srv"], &["/srv/(unclosed"]), None);
    match r {
        Err(ConfigError::InvalidRegex(s)) => assert_eq!(s, "(?i)^/srv/(unclosed$"),
        _ => panic!("expected an invalid regex"),
    }
}

#[test]
fn disallowed_character_gives_one_invalid_entry() {
    let mut f = searcher(&["/nonexistent_root_for_tests"], &[]);
    let r = f.search("a$b".to_string(), 7).unwrap();
    assert_eq!(r.len(), 1);
    assert_eq!(r[0].label, DISALLOWED_CHARS_MESSAGE);
    assert!(r[0].value.is_none());
    assert_eq!(r[0].search_id, 7);
    assert!(!r[0].valid);
}

#[test]
fn short_pattern_gives_no_results() {
    let mut f = searcher(&["/"], &[]);
    assert!(f.search("a".to_string(), 1).is_none());
    assert!(f.search("".to_string(), 1).is_none());
}

#[test]
fn missing_root_is_silently_skipped() {
    let mut f = searcher(&["/nonexistent_root_for_tests"], &[]);
    let r = f.search("abc".to_string(), 3).unwrap();
    assert!(r.is_empty());
}

#[test]
fn search_finds_a_directory_below_the_root() {
    let mut f = searcher(&["/usr{1}"], &[]);
    let r = f.search("bin".to_string(), 4).unwrap();
    let found = r
        .iter()
        .find(|e| e.value.as_deref() == Some("/usr/bin"))
        .expect("/usr/bin is found");
    assert_eq!(found.label, "bin");
    assert!(found.valid);
    assert_eq!(found.search_id, 4);
}

#[test]
fn search_ignores_case() {
    let mut f = searcher(&["/usr{1}"], &[]);
    let r = f.search("BIN".to_string(), 4).unwrap();
    assert!(r.iter().any(|e| e.value.as_deref() == Some("/usr/bin")));
}

#[test]
fn skipped_directory_yields_nothing_below_it() {
    let mut f = searcher(&["/usr{2}"], &["/usr/bin"]);
    let r = f.search("*".to_string() + "a", 5).unwrap();
    assert!(r
        .iter()
        .all(|e| !e.value.as_deref().unwrap().starts_with("/usr/bin")));
}

#[test]
fn hidden_paths_are_recognised() {
    assert!(is_hidden_path("/home/u/.cache"));
    assert!(!is_hidden_path("/home/u/cache"));
    assert!(!is_hidden_path("/home/u/."));
    assert!(!is_hidden_path(".cache"));
}

#[test]
fn hidden_entries_are_skipped_without_rules() {
    let f = searcher(&["/"], &[]);
    assert!(f.skip_entry(Some("/home/u/.config")));
    assert!(!f.keep_entry(Some("/home/u/.config")));
    assert!(f.keep_entry(Some("/home/u/config")));
    assert!(f.skip_entry(None));
}

#[test]
fn skip_rules_match_full_paths_ignoring_case() {
    let f = searcher(&["/"], &["/srv/*/cache", "tmp"]);
    assert!(f.skip_entry(Some("/srv/app/Cache")));
    assert!(!f.skip_entry(Some("/srv/app/cache/x")));
    assert!(f.skip_entry(Some("/home/u/tmp")));
    assert!(!f.skip_entry(Some("/other/tmp")));
}

#[test]
fn stopped_searcher_keeps_nothing() {
    let mut f = searcher(&["/"], &[]);
    f.stop();
    assert!(!f.keep_entry(Some("/home/u/config")));
}

#[test]
fn include_entry_tests_the_last_component() {
    let re = FileSearcher::process_skip_path_definition("/x", "/").unwrap();
    assert!(FileSearcher::include_entry("/a/x", &re).is_none());
    let mut f = searcher(&["/usr{1}"], &[]);
    let r = f.search("usr".to_string(), 1).unwrap();
    assert!(r.iter().all(|e| e.value.as_deref() != Some("/usr")));
}

#[test]
fn entries_for_matches_labels_each_path() {
    let r = entries_for_matches(vec!["/a/x".to_string(), "/b/x".to_string()], 9);
    let mut got: Vec<(String, String)> = r
        .iter()
        .map(|e| (e.label.clone(), e.value.clone().unwrap()))
        .collect();
    got.sort();
    assert_eq!(
        got,
        vec![
            ("a/x".to_string(), "/a/x".to_string()),
            ("b/x".to_string(), "/b/x".to_string())
        ]
    );
    assert!(r.iter().all(|e| e.valid && e.search_id == 9));
}

#[test]
fn file_execute_opens_and_alt_copies_canonical_path() {
    let f = searcher(&["/"], &[]);
    assert!(f.handles("anything"));
    assert!(matches!(f.execute("/a/b".to_string()), Effect::Open(ref s) if s == "/a/b"));
    assert!(matches!(
        f.alt_execute("/a/b".to_string()),
        Some(Effect::CopyCanonicalPathAndExit(ref s)) if s == "/a/b"
    ));
}

#[test]
fn unresolvable_path_is_not_copied() {
    assert!(FileSearcher::canonical_copy(None).is_none());
    assert!(matches!(
        FileSearcher::canonical_copy(Some("/real/path".to_string())),
        Some(Effect::CopyAndExit(ref s)) if s == "/real/path"
    ));
}

#[test]
fn config_file_lives_in_home() {
    assert_eq!(ConfigManager::config_filename("/home/u"), "/home/u/.pm-spotlight");
}

#[test]
fn searcher_from_current_home_takes_absolute_paths() {
    let mut f = FileSearcher::new(config(&["/usr{1}"], &[])).unwrap();
    let r = f.search("bin".to_string(), 6).unwrap();
    assert!(r.iter().any(|e| e.value.as_deref() == Some("/usr/bin")));
}

#[test]
fn zero_depth_still_lists_the_first_level() {
    let mut f = searcher(&["/usr{0}"], &[]);
    let r = f.search("bin".to_string(), 1).unwrap();
    assert!(r.iter().any(|e| e.value.as_deref() == Some("/usr/bin")));
    assert!(r
        .iter()
        .all(|e| e.value.as_deref().unwrap().matches('/').count() == 2));
}

#[test]
fn wildcard_pattern_matches_inside_names() {
    let mut f = searcher(&["/usr{1}"], &[]);
    let r = f.search("b*n".to_string(), 2).unwrap();
    assert!(r.iter().any(|e| e.value.as_deref() == Some("/usr/bin")));
    let r = f.search("b.n".to_string(), 2).unwrap();
    assert!(r.iter().all(|e| e.value.as_deref() != Some("/usr/bin")));
}

#[test]
fn root_inside_a_skipped_directory_is_not_searched() {
    let mut f = searcher(&["/usr{2}", "/usr/bin{1}"], &["/usr/bin"]);
    let r = f.search("*".to_string() + "a", 5).unwrap();
    assert!(r
        .iter()
        .all(|e| !e.value.as_deref().unwrap().starts_with("/usr/bin")));
    assert!(f.root_under_skip_rule("/usr/bin"));
    assert!(f.root_under_skip_rule("/usr/bin/x"));
    assert!(!f.root_under_skip_rule("/usr/binaries"));
    let mut g = searcher(&["/usr/bin{1}"], &["/usr"]);
    assert!(g.search("a*".to_string(), 1).unwrap().is_empty());
}

#[test]
fn select_matches_keeps_matching_names_in_order() {
    let re = FileSearcher::process_skip_path_definition("x", "").unwrap();
    let walked = vec!["/a/x".to_string(), "/b/y".to_string(), "/x".to_string(), "/c/xx".to_string()];
    assert_eq!(
        select_matches(&walked, &re),
        vec!["/a/x".to_string(), "/x".to_string()]
    );
    let mut f = searcher(&["/usr{1}"], &[]);
    let r = f.search("bin".to_string(), 1).unwrap();
    assert!(!r.is_empty());
}

#[test]
fn skip_rule_matching_is_on_full_paths() {
    let f = searcher(&["/"], &["/srv/*/cache"]);
    assert!(f.matches_skip_rule("/srv/app/cache"));
    assert!(!f.matches_skip_rule("/srv/app/.cache"));
}
