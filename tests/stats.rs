use crate_stats::engine::{file_analysis, Report, SharedData};
use crate_stats::leader::Leader;
use crate_stats::record::{DecodeError, PackageRecord};
use crate_stats::walk::{is_excluded, recursive_folder_analysis, DirEntry, EntryKind};

fn strings(v: &[&str]) -> Vec<String> {
    v.iter().map(|s| s.to_string()).collect()
}

fn record(name: &str, deps: &[&str], features: &[&str]) -> PackageRecord {
    PackageRecord::new(name.to_string(), strings(deps), strings(features)).unwrap()
}

fn ok(name: &str, deps: &[&str], features: &[&str]) -> Result<PackageRecord, DecodeError> {
    Ok(record(name, deps, features))
}

fn bad() -> Result<PackageRecord, DecodeError> {
    Err(DecodeError::Syntax("expected value".to_string()))
}

fn run(files: &[Vec<Result<PackageRecord, DecodeError>>]) -> (Report, Vec<Vec<usize>>) {
    let mut shared = SharedData::new();
    let mut failures = Vec::new();
    for lines in files {
        failures.push(file_analysis(&mut shared, lines));
    }
    (shared.report(), failures)
}

fn leader_parts(l: &Leader) -> (String, usize, Vec<String>) {
    (l.name().clone(), l.count(), l.items().clone())
}

fn report_parts(r: &Report) -> Vec<(String, usize, Vec<String>)> {
    vec![
        leader_parts(r.most_dependencies()),
        leader_parts(r.most_dependents()),
        leader_parts(r.most_features()),
        (r.most_versions_name().clone(), r.most_versions_count() as usize, Vec::new()),
    ]
}

#[test]
fn two_record_corpus() {
    let (report, failures) = run(&[vec![
        ok("foo", &["bar", "baz"], &[]),
        ok("qux", &["bar"], &["f1"]),
    ]]);
    assert_eq!(failures, vec![Vec::<usize>::new()]);
    assert_eq!(leader_parts(report.most_dependencies()), ("foo".to_string(), 2, strings(&["bar", "baz"])));
    assert_eq!(leader_parts(report.most_dependents()), ("bar".to_string(), 2, strings(&["foo", "qux"])));
    assert_eq!(leader_parts(report.most_features()), ("qux".to_string(), 1, strings(&["f1"])));
    assert_eq!(report.most_versions_name(), "foo");
    assert_eq!(report.most_versions_count(), 1);
}

#[test]
fn empty_corpus_reports_empty_leaders() {
    let (report, _) = run(&[]);
    for (name, count, items) in report_parts(&report) {
        assert_eq!(name, "");
        assert_eq!(count, 0);
        assert!(items.is_empty());
    }
}

#[test]
fn max_dependency_count_is_the_corpus_maximum() {
    let (report, _) = run(&[vec![
        ok("a", &["x"], &[]),
        ok("b", &["x", "y", "z"], &[]),
        ok("c", &["y", "z"], &[]),
        ok("d", &["p", "q", "r"], &[]),
    ]]);
    assert_eq!(leader_parts(report.most_dependencies()), ("b".to_string(), 3, strings(&["x", "y", "z"])));
}

#[test]
fn records_without_dependencies_leave_the_leader_empty() {
    let (report, _) = run(&[vec![ok("a", &[], &[]), ok("b", &[], &[])]]);
    assert_eq!(leader_parts(report.most_dependencies()), (String::new(), 0, Vec::new()));
    assert_eq!(leader_parts(report.most_dependents()), (String::new(), 0, Vec::new()));
    assert_eq!(report.most_versions_name(), "a");
}

#[test]
fn max_dependents_is_the_largest_dependent_set() {
    let (report, _) = run(&[vec![
        ok("a", &["x", "y"], &[]),
        ok("b", &["y"], &[]),
        ok("c", &["y", "x"], &[]),
        ok("d", &["x", "y"], &[]),
        ok("e", &["z"], &[]),
    ]]);
    // x has three dependents, y four.
    assert_eq!(leader_parts(report.most_dependents()), ("y".to_string(), 4, strings(&["a", "b", "c", "d"])));
}

#[test]
fn dependents_tie_goes_to_first_mentioned_dependency() {
    let (report, _) = run(&[vec![ok("a", &["x", "y"], &[]), ok("b", &["y", "x"], &[])]]);
    assert_eq!(leader_parts(report.most_dependents()), ("x".to_string(), 2, strings(&["a", "b"])));
}

#[test]
fn repeated_versions_count_once_as_dependent() {
    let (report, _) = run(&[vec![
        ok("a", &["x"], &[]),
        ok("a", &["x"], &[]),
        ok("a", &["x"], &[]),
        ok("b", &["y"], &[]),
        ok("c", &["y"], &[]),
    ]]);
    assert_eq!(leader_parts(report.most_dependents()), ("y".to_string(), 2, strings(&["b", "c"])));
    assert_eq!(report.most_versions_name(), "a");
    assert_eq!(report.most_versions_count(), 3);
}

#[test]
fn most_versions_is_first_to_reach_the_top_count() {
    let (report, _) = run(&[
        vec![ok("a", &[], &[]), ok("b", &[], &[]), ok("b", &[], &[])],
        vec![ok("a", &[], &[]), ok("a", &[], &[])],
    ]);
    assert_eq!(report.most_versions_name(), "a");
    assert_eq!(report.most_versions_count(), 3);
}

#[test]
fn most_features_keeps_first_on_ties() {
    let (report, _) = run(&[vec![
        ok("a", &[], &["std", "serde"]),
        ok("b", &[], &["x", "y"]),
        ok("c", &[], &["one"]),
    ]]);
    assert_eq!(leader_parts(report.most_features()), ("a".to_string(), 2, strings(&["std", "serde"])));
}

#[test]
fn malformed_line_is_skipped_and_reported_once() {
    let good = vec![ok("foo", &["bar", "baz"], &[]), ok("qux", &["bar"], &["f1"]), ok("foo", &[], &[])];
    let mut with_bad = vec![ok("foo", &["bar", "baz"], &[]), bad()];
    with_bad.push(ok("qux", &["bar"], &["f1"]));
    with_bad.push(ok("foo", &[], &[]));
    let (r1, f1) = run(&[good]);
    let (r2, f2) = run(&[with_bad]);
    assert_eq!(report_parts(&r1), report_parts(&r2));
    assert_eq!(f1, vec![Vec::<usize>::new()]);
    assert_eq!(f2, vec![vec![1]]);
}

#[test]
fn every_malformed_line_is_listed() {
    let (report, failures) = run(&[vec![bad(), ok("a", &["b"], &[]), bad(), bad()]]);
    assert_eq!(failures, vec![vec![0, 2, 3]]);
    assert_eq!(leader_parts(report.most_dependencies()), ("a".to_string(), 1, strings(&["b"])));
}

#[test]
fn two_runs_give_the_same_report() {
    let files = || {
        vec![
            vec![ok("a", &["x", "y"], &["f"]), ok("b", &["x"], &[])],
            vec![ok("c", &["y"], &["g", "h"]), ok("a", &["z"], &[])],
        ]
    };
    let (r1, f1) = run(&files());
    let (r2, f2) = run(&files());
    assert_eq!(report_parts(&r1), report_parts(&r2));
    assert_eq!(f1, f2);
}

#[test]
fn splitting_records_between_files_changes_nothing() {
    let (r1, _) = run(&[vec![ok("a", &["x", "y"], &["f"]), ok("b", &["x"], &[]), ok("c", &["y"], &["g", "h"])]]);
    let (r2, _) = run(&[vec![ok("a", &["x", "y"], &["f"])], vec![ok("b", &["x"], &[]), ok("c", &["y"], &["g", "h"])]]);
    assert_eq!(report_parts(&r1), report_parts(&r2));
}

#[test]
fn report_can_be_read_twice() {
    let mut shared = SharedData::new();
    file_analysis(&mut shared, &vec![ok("a", &["x"], &[])]);
    assert_eq!(report_parts(&shared.report()), report_parts(&shared.report()));
}

#[test]
fn empty_name_is_rejected() {
    let r = PackageRecord::new(String::new(), strings(&["x"]), Vec::new());
    assert!(matches!(r, Err(DecodeError::EmptyName)));
}

#[test]
fn duplicate_feature_is_rejected() {
    let r = PackageRecord::new("a".to_string(), Vec::new(), strings(&["f", "g", "f"]));
    assert!(matches!(r, Err(DecodeError::DuplicateFeature)));
}

#[test]
fn record_keeps_its_fields() {
    let r = record("a", &["x", "y"], &["f"]);
    assert_eq!(r.name(), "a");
    assert_eq!(r.deps(), &strings(&["x", "y"]));
    assert_eq!(r.features(), &strings(&["f"]));
    let (n, d, f) = r.into_parts();
    assert_eq!((n.as_str(), d, f), ("a", strings(&["x", "y"]), strings(&["f"])));
}

fn entry(name: &str, kind: EntryKind) -> DirEntry {
    DirEntry { name: name.to_string(), kind }
}

#[test]
fn excluded_names() {
    for n in [".git", "tmp", ".github"] {
        assert!(is_excluded(&n.to_string()));
    }
    for n in ["git", "tmp2", ".gitignore", "src", ""] {
        assert!(!is_excluded(&n.to_string()));
    }
}

#[test]
fn listing_skips_excluded_directories() {
    let entries = vec![
        entry("a", EntryKind::Directory),
        entry(".git", EntryKind::Directory),
        entry("index.json", EntryKind::File),
        entry("tmp", EntryKind::Directory),
        entry("link", EntryKind::Other),
        entry(".github", EntryKind::Directory),
        entry("tmp", EntryKind::File),
        entry("b", EntryKind::Directory),
    ];
    let listing = recursive_folder_analysis(&"root".to_string(), &entries);
    assert_eq!(listing.directories, strings(&["a", "b"]));
    assert_eq!(listing.files, strings(&["index.json", "tmp"]));
}

#[test]
fn excluded_directory_yields_nothing() {
    let entries = vec![entry("a", EntryKind::Directory), entry("f", EntryKind::File)];
    let listing = recursive_folder_analysis(&"tmp".to_string(), &entries);
    assert!(listing.directories.is_empty());
    assert!(listing.files.is_empty());
}
