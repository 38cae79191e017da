use nix_update_git::rules::fetcher::follow::{parse_follow_spec, resolve_follow, FollowSpec};
use nix_update_git::rules::traits::CheckWarning;
use nix_update_git::utils::fetch::parse_ls_remote_output;

#[test]
fn test_parse_follow_spec_branch() {
    let (spec, warnings) = parse_follow_spec("branch main");
    assert!(matches!(spec, Some(FollowSpec::Branch(_))));
    assert!(warnings.is_empty());
    if let Some(FollowSpec::Branch(name)) = spec {
        assert_eq!(name, "main");
    }
}

#[test]
fn test_parse_follow_spec_regex() {
    let (spec, warnings) = parse_follow_spec("regex v[0-9]+\\.[0-9]+");
    assert!(matches!(spec, Some(FollowSpec::Regex(_))));
    assert!(warnings.is_empty());
    if let Some(FollowSpec::Regex(re)) = spec {
        assert!(re.is_match("v1.0"));
        assert!(re.is_match("v2.41"));
        assert!(!re.is_match("2.41"));
    }
}

#[test]
fn test_parse_follow_spec_regex_full_match() {
    let (spec, _) = parse_follow_spec("regex v[0-9]+\\.[0-9]+");
    if let Some(FollowSpec::Regex(re)) = spec {
        assert!(re.is_match("v1.0"));
        assert!(!re.is_match("v1.0.0"));
        assert!(!re.is_match("2.41"));
    }
}

#[test]
fn test_parse_follow_spec_semver() {
    let (spec, _) = parse_follow_spec("semver 0.1");
    if let Some(FollowSpec::Semver(req)) = spec {
        assert!(req.matches("0.1.5") == Some(true));
        assert!(req.matches("1.0.0") != Some(true));
    } else {
        panic!("expected Semver variant");
    }
}

#[test]
fn test_parse_follow_spec_semver_gt() {
    let (spec, _) = parse_follow_spec("semver >0.1.0");
    if let Some(FollowSpec::Semver(req)) = spec {
        assert!(req.matches("0.2.0") == Some(true));
        assert!(req.matches("0.1.0") != Some(true));
    } else {
        panic!("expected Semver variant");
    }
}

#[test]
fn test_parse_follow_spec_semver_caret() {
    let (spec, _) = parse_follow_spec("semver ^0.1");
    if let Some(FollowSpec::Semver(req)) = spec {
        assert!(req.matches("0.1.5") == Some(true));
        assert!(req.matches("1.0.0") != Some(true));
    } else {
        panic!("expected Semver variant");
    }
}

#[test]
fn test_parse_follow_spec_invalid() {
    let (spec, warnings) = parse_follow_spec("unknown foo");
    assert!(spec.is_none());
    assert!(warnings.is_empty());
    assert!(parse_follow_spec("branch").0.is_none());
    assert!(parse_follow_spec("regex").0.is_none());
    assert!(parse_follow_spec("semver").0.is_none());
    assert!(parse_follow_spec("nonsense").0.is_none());
}

#[test]
fn test_parse_follow_spec_invalid_regex() {
    let (result, warnings) = parse_follow_spec("regex [invalid");
    assert!(result.is_none());
    assert_eq!(warnings.len(), 1);
    assert!(matches!(
        warnings[0],
        CheckWarning::InvalidFollowDirective { .. }
    ));
}

const LS_REMOTE: &str = "1111111111111111111111111111111111111111\trefs/heads/main\n\
2222222222222222222222222222222222222222\trefs/tags/v1.2.0\n\
3333333333333333333333333333333333333333\trefs/tags/v1.10.0\n\
4444444444444444444444444444444444444444\trefs/tags/v2.0.0-rc1\n\
5555555555555555555555555555555555555555\trefs/tags/nightly\n";

#[test]
fn test_resolve_follow_branch_head() {
    let refs = Ok(parse_ls_remote_output(LS_REMOTE));
    let (spec, _) = parse_follow_spec("branch main");
    let (sha, warnings) = resolve_follow(&spec.unwrap(), "https://example.com/r", &refs);
    assert_eq!(sha.as_deref(), Some("1111111111111111111111111111111111111111"));
    assert!(warnings.is_empty());
}

#[test]
fn test_resolve_follow_missing_branch_warns() {
    let refs = Ok(parse_ls_remote_output(LS_REMOTE));
    let (spec, _) = parse_follow_spec("branch dev");
    let (sha, warnings) = resolve_follow(&spec.unwrap(), "https://example.com/r", &refs);
    assert!(sha.is_none());
    assert!(matches!(warnings[0], CheckWarning::FollowBranchNotFound { .. }));
}

#[test]
fn test_resolve_follow_regex_picks_greatest_version() {
    let refs = Ok(parse_ls_remote_output(LS_REMOTE));
    let (spec, _) = parse_follow_spec("regex v1\\.[0-9]+\\.0");
    let (sha, warnings) = resolve_follow(&spec.unwrap(), "https://example.com/r", &refs);
    assert_eq!(sha.as_deref(), Some("3333333333333333333333333333333333333333"));
    assert!(warnings.is_empty());
}

#[test]
fn test_resolve_follow_semver_picks_greatest_match() {
    let refs = Ok(parse_ls_remote_output(LS_REMOTE));
    let (spec, _) = parse_follow_spec("semver ^1");
    let (sha, _) = resolve_follow(&spec.unwrap(), "https://example.com/r", &refs);
    assert_eq!(sha.as_deref(), Some("3333333333333333333333333333333333333333"));
}

#[test]
fn test_resolve_follow_semver_no_match_warns_with_requirement() {
    let refs = Ok(parse_ls_remote_output(LS_REMOTE));
    let (spec, _) = parse_follow_spec("semver ^3");
    let (sha, warnings) = resolve_follow(&spec.unwrap(), "https://example.com/r", &refs);
    assert!(sha.is_none());
    match &warnings[0] {
        CheckWarning::FollowSemverNoMatch { requirement, .. } => assert_eq!(requirement, "^3"),
        other => panic!("unexpected {:?}", other),
    }
}

#[test]
fn test_resolve_follow_listing_failure_warns() {
    let refs: Result<Vec<_>, String> = Err("network down".to_string());
    let (spec, _) = parse_follow_spec("branch main");
    let (sha, warnings) = resolve_follow(&spec.unwrap(), "https://example.com/r", &refs);
    assert!(sha.is_none());
    assert!(matches!(warnings[0], CheckWarning::FollowResolutionFailed { .. }));
}

#[test]
fn greatest_tag_wins_over_the_tags_listed_after_it() {
    let listing = "aaaaaaaaaaaaaaaaaaaaaaaaaaaaaaaaaaaaaaaa\trefs/tags/v1.2.0\n\
bbbbbbbbbbbbbbbbbbbbbbbbbbbbbbbbbbbbbbbb\trefs/tags/v1.10.0\n\
cccccccccccccccccccccccccccccccccccccccc\trefs/tags/v1.9.0\n\
dddddddddddddddddddddddddddddddddddddddd\trefs/tags/v1.3.0\n";
    let refs = Ok(parse_ls_remote_output(listing));
    let (spec, _) = parse_follow_spec("regex v1\\.[0-9]+\\.0");
    let (sha, _) = resolve_follow(&spec.unwrap(), "https://example.com/r", &refs);
    assert_eq!(sha.as_deref(), Some("bbbbbbbbbbbbbbbbbbbbbbbbbbbbbbbbbbbbbbbb"));
    let (spec, _) = parse_follow_spec("semver ^1");
    let (sha, _) = resolve_follow(&spec.unwrap(), "https://example.com/r", &refs);
    assert_eq!(sha.as_deref(), Some("bbbbbbbbbbbbbbbbbbbbbbbbbbbbbbbbbbbbbbbb"));
}
