use nix_update_git::prefetch::machine::{GitMode, GitOutcome, HashOutcome, Prefetch, Step};
use nix_update_git::prefetch::Error;
use nix_update_git::rules::fetcher::hashing::PrefetchArgs;

fn args(deep: bool, submodules: bool) -> PrefetchArgs {
    PrefetchArgs {
        url: "https://example.org/repo.git".to_string(),
        rev: "v1.0".to_string(),
        fetch_submodules: submodules,
        deep_clone: deep,
        leave_dot_git: false,
        fetch_lfs: false,
        branch_name: None,
        root_dir: None,
        sparse_checkout: vec![],
    }
}

fn ok(stdout: &str) -> GitOutcome {
    GitOutcome::Ran { success: true, stdout: stdout.as_bytes().to_vec(), stderr: vec![] }
}

/// Runs a prefetch, answering git commands with `answer`, and returns the
/// commands issued and how it ended.
fn run(a: PrefetchArgs, answer: impl Fn(&[String]) -> GitOutcome) -> (Vec<String>, Result<String, String>) {
    let (mut p, mut step) = Prefetch::start(a, "/tmp/clone");
    let mut log = Vec::new();
    loop {
        let next = match step {
            Step::Git { args, mode } => {
                log.push(format!("{:?} {}", mode, args.join(" ")));
                let o = answer(&args);
                p.after_git(o)
            }
            Step::SparseSet(_) => p.after_git(ok("")),
            Step::MakeDeterministic | Step::RemoveDotGit => {
                log.push("cleanup".to_string());
                p.after_cleanup(Ok(()))
            }
            Step::Hash(_) => p.after_hash(HashOutcome::Hashed { sri: "sha256-x".to_string(), nix32: "0x".to_string() }),
            Step::Done(r) => {
                return (log, r.map(|r| format!("{} {} {}", r.rev, r.sri_hash, r.sha256_nix)).map_err(|e| e.message()))
            }
        };
        p = next.0;
        step = next.1;
    }
}

#[test]
fn shallow_prefetch_resolves_fetch_head() {
    let (log, r) = run(args(false, false), |a| match a[0].as_str() {
        "rev-parse" if a[1] == "FETCH_HEAD" => ok("abc\n"),
        "cat-file" => ok("commit\n"),
        "rev-parse" => ok(" abcdef \n"),
        _ => ok(""),
    });
    assert_eq!(log[0], "Checked init --initial-branch=master");
    assert_eq!(log[1], "Checked remote add origin https://example.org/repo.git");
    assert!(log.contains(&"Quiet fetch --no-tags --depth=1 origin v1.0".to_string()));
    assert!(log.contains(&"Output cat-file -t abc".to_string()));
    assert!(log.contains(&"Checked checkout -b fetchgit abc".to_string()));
    assert!(log.contains(&"Output rev-parse refs/heads/fetchgit".to_string()));
    assert_eq!(r, Ok("abcdef sha256-x 0x".to_string()));
}

#[test]
fn failed_shallow_fetch_falls_back_to_full_fetch() {
    let (log, r) = run(args(false, false), |a| {
        if a.len() == 5 && a[2] == "--depth=1" {
            GitOutcome::Ran { success: false, stdout: vec![], stderr: b"dumb http".to_vec() }
        } else if a[0] == "cat-file" {
            ok("commit")
        } else {
            ok("deadbeef")
        }
    });
    assert!(log.contains(&"Checked fetch --no-tags origin".to_string()));
    assert!(!log.iter().any(|l| l.contains("FETCH_HEAD")));
    assert!(log.contains(&"Checked checkout -b fetchgit v1.0".to_string()));
    assert!(r.is_ok());
}

#[test]
fn tree_is_checked_out_through_a_commit() {
    let (log, _) = run(args(true, false), |a| match a[0].as_str() {
        "cat-file" => ok("tree\n"),
        "commit-tree" => ok("c0ffee\n"),
        _ => ok("r"),
    });
    assert!(log.contains(&"Output commit-tree v1.0 -m Commit created from tree hash v1.0".to_string()));
    assert!(log.contains(&"Checked checkout -b fetchgit c0ffee".to_string()));
    assert!(log.contains(&"Checked fetch --no-tags origin".to_string()));
}

#[test]
fn submodules_are_fetched_shallow_without_deep_clone() {
    let (log, _) = run(args(false, true), |a| if a[0] == "cat-file" { ok("commit") } else { ok("r") });
    assert!(log.contains(
        &"Checked submodule update --init --recursive --checkout --progress --depth=1".to_string()
    ));
}

#[test]
fn failed_command_is_named_in_the_error() {
    let (_, r) = run(args(true, false), |a| {
        if a[0] == "remote" {
            GitOutcome::Ran { success: false, stdout: vec![], stderr: b"  no such remote \n".to_vec() }
        } else {
            ok("")
        }
    });
    assert_eq!(
        r,
        Err("git remote add origin https://example.org/repo.git failed in /tmp/clone: no such remote".to_string())
    );
}

#[test]
fn unresolvable_fetch_head_is_reported() {
    let (_, r) = run(args(false, false), |a| {
        if a[0] == "rev-parse" && a[1] == "FETCH_HEAD" {
            GitOutcome::Ran { success: false, stdout: vec![], stderr: b"bad".to_vec() }
        } else {
            ok("")
        }
    });
    assert_eq!(r, Err("failed to resolve FETCH_HEAD in /tmp/clone: bad".to_string()));
}

#[test]
fn missing_checkout_directory_is_an_error() {
    let (p, _) = Prefetch::start(args(true, false), "/tmp/clone");
    let mut p = p;
    let mut step;
    loop {
        let (q, s) = if p.stage == nix_update_git::prefetch::Stage::Hash {
            p.after_hash(HashOutcome::Missing("/tmp/clone/sub".to_string()))
        } else if p.stage == nix_update_git::prefetch::Stage::Cleanup {
            p.after_cleanup(Ok(()))
        } else {
            p.after_git(ok("commit"))
        };
        p = q;
        step = s;
        if let Step::Done(_) = step {
            break;
        }
    }
    match step {
        Step::Done(Err(e)) => assert_eq!(e.message(), "checkout directory does not exist: /tmp/clone/sub"),
        _ => panic!("expected an error"),
    }
    let _ = GitMode::Checked;
    let _ = Error::Io(String::new());
}

#[test]
fn git_failure_joins_the_command() {
    let e = nix_update_git::prefetch::machine::git_failure(
        &vec!["repack".to_string(), "-A".to_string()],
        "/d",
        &b" oops \n".to_vec(),
    );
    assert_eq!(e.message(), "git repack -A failed in /d: oops");
}
