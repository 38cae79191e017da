use nix_update_git::interactive::{Answer, HunkSelection};
use nix_update_git::checker::{record_rule_groups, FileResult};
use nix_update_git::cli::Cli;
use nix_update_git::output::UpdateEntry;
use nix_update_git::parser::TextRange;
use nix_update_git::presentation::diff::FileDiff;
use nix_update_git::rules::traits::UpdateGroup;
use nix_update_git::rules::Update;
use nix_update_git::utils::tarball::TarballHasher;

fn upd(field: &str, replacement: &str, start: usize, end: usize) -> Update {
    Update::new(field, replacement, TextRange { start, end })
}

fn group(us: Vec<Update>, target: Option<&str>) -> UpdateGroup {
    UpdateGroup { updates: us, target: target.map(|t| t.to_string()) }
}

#[test]
fn recorded_groups_are_credited_to_the_rule() {
    let mut results = Vec::new();
    record_rule_groups(&mut results, "fetcher", vec![]);
    assert!(results.is_empty());
    record_rule_groups(&mut results, "fetcher", vec![group(vec![upd("rev", "v2", 0, 2)], None)]);
    assert_eq!(results.len(), 1);
    assert_eq!(results[0].0, "fetcher");
    assert_eq!(results[0].1[0].updates[0].rule_name, "fetcher");
}

#[test]
fn all_updates_flattens_rules_and_groups() {
    let fr = FileResult {
        file_path: "a.nix".to_string(),
        content: "abcdef".to_string(),
        updates_per_rule: vec![
            ("flake".to_string(), vec![group(vec![upd("a", "A", 0, 1)], None), group(vec![upd("b", "B", 1, 2)], None)]),
            ("fetcher".to_string(), vec![group(vec![upd("c", "C", 2, 3), upd("d", "D", 3, 4)], None)]),
        ],
        warnings: vec![],
    };
    let fields: Vec<String> = fr.all_updates().into_iter().map(|u| u.field).collect();
    assert_eq!(fields, vec!["a", "b", "c", "d"]);
}

#[test]
fn diff_shows_replaced_text() {
    let fr = FileResult {
        file_path: "a.nix".to_string(),
        content: "rev = \"v1\";".to_string(),
        updates_per_rule: vec![("fetcher".to_string(), vec![group(vec![upd("rev", "v2", 7, 9)], Some("github.com/o/r"))])],
        warnings: vec![],
    };
    let d = FileDiff::from_result(&fr);
    assert_eq!(d.path, "a.nix");
    assert_eq!(d.hunks.len(), 1);
    assert_eq!(d.hunks[0].rule_name, "fetcher");
    assert_eq!(d.hunks[0].target.as_deref(), Some("github.com/o/r"));
    assert_eq!(d.hunks[0].changes[0].old, "v1");
    assert_eq!(d.hunks[0].changes[0].new, "v2");
}

#[test]
fn update_entry_reads_old_text() {
    let mut u = upd("rev", "v2", 7, 9).with_target("github.com/o/r");
    u.rule_name = "fetcher".to_string();
    let e = UpdateEntry::from_update("a.nix", "rev = \"v1\";", &u);
    assert_eq!((e.file.as_str(), e.rule.as_str(), e.old.as_str(), e.new.as_str()), ("a.nix", "fetcher", "v1", "v2"));
    assert_eq!(e.range, (7, 9));
    assert_eq!(e.target.as_deref(), Some("github.com/o/r"));
}

fn cli(files: Vec<&str>, check: bool, update: bool) -> Cli {
    Cli {
        files_or_directories: files.into_iter().map(String::from).collect(),
        check,
        update,
        interactive: false,
        verbose: false,
        jobs: 4,
        rules: vec![],
    }
}

#[test]
fn cli_refuses_no_files_and_check_with_update() {
    assert_eq!(cli(vec![], false, false).validate().unwrap_err(), "No files specified. Use --help for usage information.");
    assert_eq!(cli(vec!["a.nix"], true, true).validate().unwrap_err(), "--check and --update are mutually exclusive.");
    assert!(cli(vec!["a.nix"], false, true).validate().is_ok());
}

#[test]
fn content_root_strips_a_single_directory() {
    let one = vec![("/t/repo-1.0".to_string(), true)];
    assert_eq!(TarballHasher::content_root("/t", &one).unwrap(), "/t/repo-1.0");
    let flat = vec![("/t/a".to_string(), false), ("/t/b".to_string(), true)];
    assert_eq!(TarballHasher::content_root("/t", &flat).unwrap(), "/t");
    let file = vec![("/t/a".to_string(), false)];
    assert_eq!(TarballHasher::content_root("/t", &file).unwrap(), "/t");
    assert_eq!(TarballHasher::content_root("/t", &vec![]).unwrap_err(), "Tarball produced no top-level entries");
}

#[test]
fn hunk_selection_follows_answers() {
    let mut s = HunkSelection::new(2);
    assert!(s.asks());
    s.take(0, &vec![upd("a", "A", 0, 1)], Answer::No);
    assert!(s.selected[0].is_empty());
    s.take(1, &vec![upd("b", "B", 0, 1)], Answer::Yes);
    assert_eq!(s.selected[1].len(), 1);
    s.take(0, &vec![upd("c", "C", 0, 1)], Answer::All);
    assert!(!s.asks());
    s.take(1, &vec![upd("d", "D", 0, 1)], Answer::No);
    assert_eq!(s.selected[1].len(), 2);
    let mut q = HunkSelection::new(1);
    q.take(0, &vec![upd("a", "A", 0, 1)], Answer::Quit);
    assert!(!q.asks());
    assert!(q.selected[0].is_empty());
}
