use nix_update_git::prefetch::repo::{deletable_tags, gitdir_target, listed, volatile_entries};

#[test]
fn listed_names_are_trimmed_non_empty_lines() {
    assert_eq!(listed(b"  origin/main\n  origin/dev\r\n\n"), vec!["origin/main", "origin/dev"]);
    assert!(listed(b"").is_empty());
}

#[test]
fn tag_on_head_is_kept() {
    assert_eq!(deletable_tags(b"v1.0\nv1.1\nv2.0\n", "v1.1"), vec!["v1.0", "v2.0"]);
}

#[test]
fn gitdir_file_names_its_target() {
    assert_eq!(gitdir_target("gitdir: ../.git/modules/sub\n"), "../.git/modules/sub");
    assert_eq!(gitdir_target("something else"), "");
}

#[test]
fn volatile_entries_are_listed() {
    assert_eq!(volatile_entries(), vec!["logs", "hooks", "index", "FETCH_HEAD", "ORIG_HEAD", "config"]);
}
