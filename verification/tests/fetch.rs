use nix_update_git::utils::fetch::{build_ls_remote_args, parse_ls_remote_output};
use nix_update_git::utils::{GitFetcher, RefKind, RefType};

#[test]
fn test_build_ls_remote_args_separates_url_from_flags() {
    let args = build_ls_remote_args(&[RefType::Tags], "--upload-pack=touch /tmp/pwned");
    assert_eq!(
        args,
        vec![
            "ls-remote",
            "--tags",
            "--refs",
            "--",
            "--upload-pack=touch /tmp/pwned",
        ]
    );
}

#[test]
fn test_build_ls_remote_args_normal_url() {
    let args = build_ls_remote_args(&[RefType::Heads], "https://example.com/repo.git");
    assert_eq!(
        args,
        vec!["ls-remote", "--heads", "--", "https://example.com/repo.git"]
    );
}

const OUTPUT: &str = "aaa\trefs/tags/v1.0.0\r\nbbb\trefs/tags/v1.2.0\nccc\trefs/heads/main\nno tab here\nddd\trefs/pull/1/head\neee\trefs/tags/release-2.0\n";

#[test]
fn ls_remote_output_is_parsed_line_by_line() {
    let refs = parse_ls_remote_output(OUTPUT);
    assert_eq!(refs.len(), 5);
    assert_eq!(refs[0].sha, "aaa");
    assert_eq!(refs[0].kind, RefKind::Tag);
    assert_eq!(refs[0].name, "v1.0.0");
    assert_eq!(refs[0].full_ref, "refs/tags/v1.0.0");
    assert_eq!(refs[2].kind, RefKind::Branch);
    assert_eq!(refs[2].name, "main");
    assert_eq!(refs[3].kind, RefKind::Other);
    assert_eq!(refs[3].name, "refs/pull/1/head");
}

#[test]
fn ls_remote_output_keeps_a_lone_carriage_return_at_the_end() {
    let refs = parse_ls_remote_output("aaa\trefs/heads/x\r");
    assert_eq!(refs.len(), 1);
    assert_eq!(refs[0].name, "x\r");
    assert!(parse_ls_remote_output("").is_empty());
}

#[test]
fn latest_tag_follows_the_prefix_of_the_current_tag() {
    let refs = parse_ls_remote_output(OUTPUT);
    assert_eq!(GitFetcher::get_latest_tag_matching(&refs, Some("v0.9")), Some("v1.2.0".to_string()));
    assert_eq!(
        GitFetcher::get_latest_tag_matching(&refs, Some("release-1.0")),
        Some("release-2.0".to_string())
    );
    assert_eq!(GitFetcher::get_latest_tag_matching(&refs, Some("x1")), None);
    assert_eq!(GitFetcher::get_latest_tag(&refs), Some("release-2.0".to_string()));
}

#[test]
fn commits_of_branches_and_tags() {
    let refs = parse_ls_remote_output(OUTPUT);
    assert_eq!(GitFetcher::get_latest_commit(&refs, "main"), Some("ccc".to_string()));
    assert_eq!(GitFetcher::get_latest_commit(&refs, "v1.0.0"), None);
    assert_eq!(GitFetcher::resolve_ref_to_sha(&refs, "v1.2.0"), Some("bbb".to_string()));
    assert_eq!(GitFetcher::resolve_ref_to_sha(&refs, "main"), None);
    assert_eq!(
        GitFetcher::list_tags(&refs),
        vec![
            ("v1.0.0".to_string(), "aaa".to_string()),
            ("v1.2.0".to_string(), "bbb".to_string()),
            ("release-2.0".to_string(), "eee".to_string()),
        ]
    );
}
