use pm_spotlight::filenames::{join_paths, map_filenames_to_short_names};

fn run(paths: &[&str]) -> Vec<(String, String)> {
    let mut r = map_filenames_to_short_names(paths.iter().map(|p| p.to_string()).collect());
    r.sort();
    r
}

fn pairs(expected: &[(&str, &str)]) -> Vec<(String, String)> {
    let mut v: Vec<(String, String)> = expected
        .iter()
        .map(|(a, b)| (a.to_string(), b.to_string()))
        .collect();
    v.sort();
    v
}

#[test]
fn worked_example_labels() {
    assert_eq!(
        run(&["a/b/c/d", "a/b/d/d", "e/f"]),
        pairs(&[("c/d", "a/b/c/d"), ("d/d", "a/b/d/d"), ("f", "e/f")])
    );
}

#[test]
fn distinct_basenames_stay_basenames() {
    assert_eq!(
        run(&["/home/u/notes.txt", "/srv/data/report.pdf", "/etc/hosts"]),
        pairs(&[
            ("notes.txt", "/home/u/notes.txt"),
            ("report.pdf", "/srv/data/report.pdf"),
            ("hosts", "/etc/hosts"),
        ])
    );
}

#[test]
fn labels_are_pairwise_distinct() {
    let r = run(&[
        "/x/a/b/c",
        "/y/a/b/c",
        "/z/q/b/c",
        "/w/c",
        "/v/other",
    ]);
    assert_eq!(r.len(), 5);
    for i in 0..r.len() {
        for j in (i + 1)..r.len() {
            assert_ne!(r[i].0, r[j].0);
        }
    }
    assert_eq!(
        r,
        pairs(&[
            ("x/a/b/c", "/x/a/b/c"),
            ("y/a/b/c", "/y/a/b/c"),
            ("q/b/c", "/z/q/b/c"),
            ("w/c", "/w/c"),
            ("other", "/v/other"),
        ])
    );
}

#[test]
fn repeated_paths_count_once() {
    assert_eq!(
        run(&["/a/b", "/a/b", "/c/b"]),
        pairs(&[("a/b", "/a/b"), ("c/b", "/c/b")])
    );
}

#[test]
fn path_that_ends_another_gets_its_full_form() {
    assert_eq!(run(&["/x", "/a/x"]), pairs(&[("/x", "/x"), ("a/x", "/a/x")]));
}

#[test]
fn empty_input_gives_no_labels() {
    assert!(run(&[]).is_empty());
}

#[test]
fn single_path_gets_its_basename() {
    assert_eq!(run(&["/only/one"]), pairs(&[("one", "/only/one")]));
}

#[test]
fn join_inserts_one_separator() {
    assert_eq!(join_paths("/home/u", "docs"), "/home/u/docs");
    assert_eq!(join_paths("/home/u/", "docs"), "/home/u/docs");
    assert_eq!(join_paths("", "docs"), "docs");
    assert_eq!(join_paths("/home/u", "/abs"), "/abs");
}
