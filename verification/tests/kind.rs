use nix_update_git::parser::ParsedAttrs;
use nix_update_git::rules::fetcher::kind::{FetcherKind, HashStrategy};

fn kind(fn_name: &str) -> FetcherKind {
    FetcherKind::from_name(fn_name).unwrap()
}

#[test]
fn kind_test_fetcher_kind_from_name() {
    assert_eq!(
        FetcherKind::from_name("fetchFromGitHub"),
        Some(kind("fetchFromGitHub"))
    );
    assert_eq!(
        FetcherKind::from_name("fetchgit"),
        Some(FetcherKind::FetchGit)
    );
    assert_eq!(
        FetcherKind::from_name("fetchGit"),
        Some(FetcherKind::BuiltinsFetchGit)
    );
    assert_eq!(
        FetcherKind::from_name("builtins.fetchGit"),
        Some(FetcherKind::BuiltinsFetchGit)
    );
    assert_eq!(
        FetcherKind::from_name("pkgs.fetchFromGitHub"),
        Some(kind("fetchFromGitHub"))
    );
    assert_eq!(
        FetcherKind::from_name("pkgs.fetchgit"),
        Some(FetcherKind::FetchGit)
    );
    assert_eq!(
        FetcherKind::from_name("lib.fetchFromGitLab"),
        Some(kind("fetchFromGitLab"))
    );

    assert_eq!(
        FetcherKind::from_name("fetchgitPrivate"),
        Some(FetcherKind::FetchGit)
    );
    assert_eq!(
        FetcherKind::from_name("fetchpatch"),
        Some(FetcherKind::FetchPatch)
    );
    assert_eq!(
        FetcherKind::from_name("pkgs.fetchpatch"),
        Some(FetcherKind::FetchPatch)
    );
    assert_eq!(
        FetcherKind::from_name("fetchTarball"),
        Some(FetcherKind::FetchTarball)
    );
    assert_eq!(FetcherKind::from_name("unknown"), None);
    assert_eq!(FetcherKind::from_name("pkgs.unknown"), None);
}

#[test]
fn kind_test_fetcher_git_url_github() {
    let mut params = ParsedAttrs::default();
    params
        .strings
        .insert("owner".to_string(), "NixOS".to_string());
    params
        .strings
        .insert("repo".to_string(), "nixpkgs".to_string());
    let url = kind("fetchFromGitHub").git_url(&params).unwrap();
    assert_eq!(url, "https://github.com/NixOS/nixpkgs");
}

#[test]
fn kind_test_fetcher_git_url_gitlab() {
    let mut params = ParsedAttrs::default();
    params
        .strings
        .insert("owner".to_string(), "foo".to_string());
    params.strings.insert("repo".to_string(), "bar".to_string());
    let url = kind("fetchFromGitLab").git_url(&params).unwrap();
    assert_eq!(url, "https://gitlab.com/foo/bar");
}

#[test]
fn kind_test_fetcher_git_url_gitea() {
    let mut params = ParsedAttrs::default();
    params
        .strings
        .insert("domain".to_string(), "gitea.example.com".to_string());
    params
        .strings
        .insert("owner".to_string(), "foo".to_string());
    params.strings.insert("repo".to_string(), "bar".to_string());
    let url = kind("fetchFromGitea").git_url(&params).unwrap();
    assert_eq!(url, "https://gitea.example.com/foo/bar");
}

#[test]
fn kind_test_fetcher_git_url_sourcehut() {
    let mut params = ParsedAttrs::default();
    params
        .strings
        .insert("owner".to_string(), "~sirhc".to_string());
    params
        .strings
        .insert("repo".to_string(), "repo".to_string());
    let url = kind("fetchFromSourcehut").git_url(&params).unwrap();
    assert_eq!(url, "https://git.sr.ht/~sirhc/repo");
}

#[test]
fn kind_test_fetcher_git_url_sourcehut_no_tilde() {
    let mut params = ParsedAttrs::default();
    params
        .strings
        .insert("owner".to_string(), "sirhc".to_string());
    params
        .strings
        .insert("repo".to_string(), "repo".to_string());
    let url = kind("fetchFromSourcehut").git_url(&params).unwrap();
    assert_eq!(url, "https://git.sr.ht/~sirhc/repo");
}

#[test]
fn test_fetcher_git_url_sourcehut_custom_domain() {
    let mut params = ParsedAttrs::default();
    params
        .strings
        .insert("owner".to_string(), "~sirhc".to_string());
    params
        .strings
        .insert("repo".to_string(), "repo".to_string());
    params
        .strings
        .insert("domain".to_string(), "custom.sr.ht".to_string());
    let url = kind("fetchFromSourcehut").git_url(&params).unwrap();
    assert_eq!(url, "https://git.custom.sr.ht/~sirhc/repo");
}

#[test]
fn test_fetcher_git_url_sourcehut_custom_vc() {
    let mut params = ParsedAttrs::default();
    params
        .strings
        .insert("owner".to_string(), "~sirhc".to_string());
    params
        .strings
        .insert("repo".to_string(), "repo".to_string());
    params.strings.insert("vc".to_string(), "hg".to_string());
    let url = kind("fetchFromSourcehut").git_url(&params).unwrap();
    assert_eq!(url, "https://hg.sr.ht/~sirhc/repo");
}

#[test]
fn kind_test_fetcher_git_url_repo_or_cz() {
    let mut params = ParsedAttrs::default();
    params
        .strings
        .insert("repo".to_string(), "testrepo".to_string());
    let url = kind("fetchFromRepoOrCz").git_url(&params).unwrap();
    assert_eq!(url, "https://repo.or.cz/testrepo.git");
}

#[test]
fn test_fetcher_git_url_builtins_fetch_git() {
    let mut params = ParsedAttrs::default();
    params.strings.insert(
        "url".to_string(),
        "https://example.com/repo.git".to_string(),
    );
    let url = FetcherKind::BuiltinsFetchGit.git_url(&params);
    assert_eq!(url, Some("https://example.com/repo.git".to_string()));
}

#[test]
fn test_fetcher_git_url_fetchgit_with_url() {
    let mut params = ParsedAttrs::default();
    params.strings.insert(
        "url".to_string(),
        "https://example.com/repo.git".to_string(),
    );
    let url = FetcherKind::FetchGit.git_url(&params);
    assert_eq!(url, Some("https://example.com/repo.git".to_string()));
}

#[test]
fn test_fetcher_git_url_gitiles() {
    let mut params = ParsedAttrs::default();
    params.strings.insert(
        "url".to_string(),
        "https://android.googlesource.com/platform/manifest".to_string(),
    );
    let url = kind("fetchFromGitiles").git_url(&params);
    assert_eq!(
        url,
        Some("https://android.googlesource.com/platform/manifest".to_string())
    );
}

#[test]
fn test_fetcher_git_url_bitbucket() {
    let mut params = ParsedAttrs::default();
    params
        .strings
        .insert("owner".to_string(), "testowner".to_string());
    params
        .strings
        .insert("repo".to_string(), "testrepo".to_string());
    let url = kind("fetchFromBitbucket").git_url(&params).unwrap();
    assert_eq!(url, "https://bitbucket.org/testowner/testrepo");
}

#[test]
fn test_uses_fetch_submodules_true_fetchsubmodules() {
    let mut params = ParsedAttrs::default();
    params.bools.insert("fetchSubmodules".to_string(), true);
    assert!(FetcherKind::FetchGit.uses_fetch_submodules(&params));
    for name in [
        "fetchFromGitHub",
        "fetchFromGitLab",
        "fetchFromGitea",
        "fetchFromForgejo",
        "fetchFromCodeberg",
        "fetchFromBitbucket",
        "fetchFromSourcehut",
        "fetchFromGitiles",
        "fetchFromRepoOrCz",
    ] {
        assert!(kind(name).uses_fetch_submodules(&params));
    }
}

#[test]
fn test_uses_fetch_submodules_false() {
    let params = ParsedAttrs::default();
    assert!(!kind("fetchFromGitHub").uses_fetch_submodules(&params));
    assert!(!FetcherKind::BuiltinsFetchGit.uses_fetch_submodules(&params));

    let mut params = ParsedAttrs::default();
    params.bools.insert("fetchSubmodules".to_string(), false);
    assert!(!kind("fetchFromGitHub").uses_fetch_submodules(&params));
    assert!(!FetcherKind::BuiltinsFetchGit.uses_fetch_submodules(&params));
}

#[test]
fn test_uses_fetch_submodules_builtins_fetch_git() {
    let mut params = ParsedAttrs::default();
    params.bools.insert("submodules".to_string(), true);
    assert!(FetcherKind::BuiltinsFetchGit.uses_fetch_submodules(&params));
    assert!(!kind("fetchFromGitHub").uses_fetch_submodules(&params));

    let mut params = ParsedAttrs::default();
    params.bools.insert("submodules".to_string(), false);
    assert!(!FetcherKind::BuiltinsFetchGit.uses_fetch_submodules(&params));

    let mut params = ParsedAttrs::default();
    params.bools.insert("fetchSubmodules".to_string(), true);
    assert!(!FetcherKind::BuiltinsFetchGit.uses_fetch_submodules(&params));
}

#[test]
fn test_uses_fetchgit_always_true() {
    let params = ParsedAttrs::default();
    assert!(FetcherKind::FetchGit.uses_fetchgit(&params, false));
    assert!(FetcherKind::BuiltinsFetchGit.uses_fetchgit(&params, false));
}

#[test]
fn test_uses_fetchgit_force_fetch_git() {
    let mut params = ParsedAttrs::default();
    params.bools.insert("forceFetchGit".to_string(), true);
    for name in [
        "fetchFromGitHub",
        "fetchFromGitLab",
        "fetchFromGitea",
        "fetchFromForgejo",
        "fetchFromCodeberg",
        "fetchFromBitbucket",
        "fetchFromSourcehut",
        "fetchFromGitiles",
        "fetchFromRepoOrCz",
    ] {
        assert!(kind(name).uses_fetchgit(&params, false));
    }
}

#[test]
fn test_uses_fetchgit_leave_dot_git() {
    let mut params = ParsedAttrs::default();
    params.bools.insert("leaveDotGit".to_string(), true);
    assert!(kind("fetchFromGitHub").uses_fetchgit(&params, false));
}

#[test]
fn test_uses_fetchgit_deep_clone() {
    let mut params = ParsedAttrs::default();
    params.bools.insert("deepClone".to_string(), true);
    assert!(kind("fetchFromGitHub").uses_fetchgit(&params, false));
}

#[test]
fn test_uses_fetchgit_fetch_lfs() {
    let mut params = ParsedAttrs::default();
    params.bools.insert("fetchLFS".to_string(), true);
    assert!(kind("fetchFromGitHub").uses_fetchgit(&params, false));
}

#[test]
fn test_uses_fetchgit_fetch_submodules() {
    let mut params = ParsedAttrs::default();
    params.bools.insert("fetchSubmodules".to_string(), true);
    assert!(kind("fetchFromGitHub").uses_fetchgit(&params, false));
}

#[test]
fn test_uses_fetchgit_root_dir() {
    let mut params = ParsedAttrs::default();
    params
        .strings
        .insert("rootDir".to_string(), "/some/path".to_string());
    assert!(kind("fetchFromGitHub").uses_fetchgit(&params, false));

    let mut params = ParsedAttrs::default();
    params.strings.insert("rootDir".to_string(), String::new());
    assert!(!kind("fetchFromGitHub").uses_fetchgit(&params, false));
}

#[test]
fn test_uses_fetchgit_sparse_checkout() {
    let params = ParsedAttrs::default();
    assert!(kind("fetchFromGitHub").uses_fetchgit(&params, true));
    assert!(kind("fetchFromGitLab").uses_fetchgit(&params, true));
    assert!(kind("fetchFromCodeberg").uses_fetchgit(&params, true));

    let params = ParsedAttrs::default();
    assert!(!kind("fetchFromGitHub").uses_fetchgit(&params, false));
    assert!(!kind("fetchFromGitLab").uses_fetchgit(&params, false));
    assert!(!kind("fetchFromCodeberg").uses_fetchgit(&params, false));
}

#[test]
fn test_uses_fetchgit_false_when_no_trigger_params() {
    let params = ParsedAttrs::default();
    assert!(!kind("fetchFromGitHub").uses_fetchgit(&params, false));
    assert!(!kind("fetchFromGitLab").uses_fetchgit(&params, false));
    assert!(!kind("fetchFromCodeberg").uses_fetchgit(&params, false));

    let mut params = ParsedAttrs::default();
    params.bools.insert("forceFetchGit".to_string(), false);
    assert!(!kind("fetchFromGitHub").uses_fetchgit(&params, false));

    let mut params = ParsedAttrs::default();
    params.bools.insert("leaveDotGit".to_string(), false);
    assert!(!kind("fetchFromGitHub").uses_fetchgit(&params, false));

    let mut params = ParsedAttrs::default();
    params.bools.insert("deepClone".to_string(), false);
    assert!(!kind("fetchFromGitHub").uses_fetchgit(&params, false));

    let mut params = ParsedAttrs::default();
    params.bools.insert("fetchLFS".to_string(), false);
    assert!(!kind("fetchFromGitHub").uses_fetchgit(&params, false));

    let mut params = ParsedAttrs::default();
    params.bools.insert("fetchSubmodules".to_string(), false);
    assert!(!kind("fetchFromGitHub").uses_fetchgit(&params, false));
}

#[test]
fn test_uses_tarball_supported_fetchers() {
    let params = ParsedAttrs::default();
    for name in [
        "fetchFromGitHub",
        "fetchFromGitLab",
        "fetchFromGitea",
        "fetchFromForgejo",
        "fetchFromCodeberg",
        "fetchFromSourcehut",
        "fetchFromBitbucket",
        "fetchFromGitiles",
        "fetchFromRepoOrCz",
    ] {
        assert!(kind(name).uses_tarball(&params, false));
    }
    assert!(!FetcherKind::FetchGit.uses_tarball(&params, false));
    assert!(!FetcherKind::BuiltinsFetchGit.uses_tarball(&params, false));
}

#[test]
fn test_uses_tarball_disabled_by_fetchgit_flags() {
    let mut params = ParsedAttrs::default();
    params.bools.insert("forceFetchGit".to_string(), true);
    assert!(!kind("fetchFromGitHub").uses_tarball(&params, false));
    assert!(!kind("fetchFromGitLab").uses_tarball(&params, false));
    assert!(!kind("fetchFromCodeberg").uses_tarball(&params, false));

    let mut params = ParsedAttrs::default();
    params.bools.insert("fetchSubmodules".to_string(), true);
    assert!(!kind("fetchFromGitHub").uses_tarball(&params, false));

    let mut params = ParsedAttrs::default();
    params.bools.insert("deepClone".to_string(), true);
    assert!(!kind("fetchFromGitHub").uses_tarball(&params, false));
}

#[test]
fn test_uses_tarball_disabled_by_sparse_checkout() {
    let params = ParsedAttrs::default();
    assert!(!kind("fetchFromGitHub").uses_tarball(&params, true));
    assert!(!kind("fetchFromGitLab").uses_tarball(&params, true));
    assert!(!kind("fetchFromCodeberg").uses_tarball(&params, true));
}

#[test]
fn test_hash_strategy() {
    let params = ParsedAttrs::default();
    assert_eq!(
        kind("fetchFromGitHub").hash_strategy(&params, false),
        HashStrategy::Tarball
    );
    assert_eq!(
        FetcherKind::FetchGit.hash_strategy(&params, false),
        HashStrategy::Git
    );
    assert_eq!(
        FetcherKind::BuiltinsFetchGit.hash_strategy(&params, false),
        HashStrategy::NotNeeded
    );

    let mut params = ParsedAttrs::default();
    params.bools.insert("forceFetchGit".to_string(), true);
    assert_eq!(
        kind("fetchFromGitHub").hash_strategy(&params, false),
        HashStrategy::Git
    );
}

#[test]
fn test_fetchpatch_display_target_uses_domain_project_for_recognized_host() {
    let mut params = ParsedAttrs::default();
    params.strings.insert(
        "url".to_string(),
        "https://github.com/owner/repo/commit/abc123.patch".to_string(),
    );
    assert_eq!(
        FetcherKind::FetchPatch.display_target(&params),
        Some("github.com/owner/repo".to_string())
    );
}

#[test]
fn test_fetchpatch_display_target_falls_back_to_raw_url_for_unrecognized_host() {
    // Regression test: a self-hosted/unrecognized URL used to make
    // display_target return None, silently dropping the hunk header
    // instead of showing the URL as context.
    let mut params = ParsedAttrs::default();
    params.strings.insert(
        "url".to_string(),
        "https://patches.example.internal/some/weird/path.patch".to_string(),
    );
    assert_eq!(
        FetcherKind::FetchPatch.display_target(&params),
        Some("patches.example.internal/some/weird/path.patch".to_string())
    );
}

#[test]
fn test_fetchtarball_display_target_none_without_any_url() {
    let params = ParsedAttrs::default();
    assert_eq!(FetcherKind::FetchTarball.display_target(&params), None);
}
