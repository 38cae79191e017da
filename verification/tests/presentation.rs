use nix_update_git::interactive::{parse_answer, Answer};
use nix_update_git::presentation::{new_line, old_line, render, FileDiff, Hunk, LineChange};

#[test]
fn test_old_line_disabled_is_unchanged() {
    assert_eq!(old_line("- \"v1.0.0\"", false), "- \"v1.0.0\"");
}

#[test]
fn test_new_line_disabled_is_unchanged() {
    assert_eq!(new_line("+ \"v2.0.0\"", false), "+ \"v2.0.0\"");
}

#[test]
fn test_old_line_enabled_wraps_in_ansi_red() {
    let styled = old_line("- \"v1.0.0\"", true);
    assert!(styled.starts_with("\x1b["));
    assert!(styled.ends_with("\x1b[0m"));
    assert!(styled.contains("- \"v1.0.0\""));
}

#[test]
fn test_new_line_enabled_wraps_in_ansi_green() {
    let styled = new_line("+ \"v2.0.0\"", true);
    assert!(styled.starts_with("\x1b["));
    assert!(styled.ends_with("\x1b[0m"));
    assert!(styled.contains("+ \"v2.0.0\""));
}

fn hunk(rule_name: &str, target: Option<&str>, field: &str, old: &str, new: &str) -> Hunk {
    Hunk {
        rule_name: rule_name.to_string(),
        target: target.map(str::to_string),
        changes: vec![LineChange {
            field: field.to_string(),
            old: old.to_string(),
            new: new.to_string(),
        }],
        updates: Vec::new(),
    }
}

#[test]
fn test_render_no_hunks_returns_none() {
    let diff = FileDiff {
        path: "flake.nix".to_string(),
        hunks: vec![],
    };
    assert_eq!(render(&diff, false, false), None);
}

#[test]
fn test_render_single_hunk_with_target_non_verbose() {
    let diff = FileDiff {
        path: "flake.nix".to_string(),
        hunks: vec![hunk(
            "flake",
            Some("github.com/foo/mylib"),
            "inputs.foo.ref",
            "\"v1.0.0\"",
            "\"v2.0.0\"",
        )],
    };
    assert_eq!(
        render(&diff, false, false).unwrap(),
        "flake.nix\n  github.com/foo/mylib\n    inputs.foo.ref\n    - \"v1.0.0\"\n    + \"v2.0.0\""
    );
}

#[test]
fn test_render_single_hunk_without_target_non_verbose_has_no_header() {
    let diff = FileDiff {
        path: "flake.nix".to_string(),
        hunks: vec![hunk(
            "fetcher",
            None,
            "fetchpatch.url",
            "\"old\"",
            "\"new\"",
        )],
    };
    assert_eq!(
        render(&diff, false, false).unwrap(),
        "flake.nix\n    fetchpatch.url\n    - \"old\"\n    + \"new\""
    );
}

#[test]
fn test_render_verbose_shows_rule_name_even_without_target() {
    let diff = FileDiff {
        path: "flake.nix".to_string(),
        hunks: vec![hunk(
            "fetcher",
            None,
            "fetchpatch.url",
            "\"old\"",
            "\"new\"",
        )],
    };
    assert_eq!(
        render(&diff, true, false).unwrap(),
        "flake.nix\n  [fetcher]\n    fetchpatch.url\n    - \"old\"\n    + \"new\""
    );
}

#[test]
fn test_render_multiple_hunks_are_separated_by_a_blank_line() {
    let diff = FileDiff {
        path: "flake.nix".to_string(),
        hunks: vec![
            hunk(
                "flake",
                Some("github.com/foo/mylib"),
                "inputs.foo.ref",
                "\"v1.0.0\"",
                "\"v2.0.0\"",
            ),
            hunk(
                "flake",
                Some("gitlab.com/bar/otherlib"),
                "inputs.bar.ref",
                "\"v0.5.0\"",
                "\"v1.0.0\"",
            ),
        ],
    };
    let rendered = render(&diff, false, false).unwrap();
    assert_eq!(
        rendered,
        "flake.nix\n  github.com/foo/mylib\n    inputs.foo.ref\n    - \"v1.0.0\"\n    + \"v2.0.0\"\n\n  gitlab.com/bar/otherlib\n    inputs.bar.ref\n    - \"v0.5.0\"\n    + \"v1.0.0\""
    );
    assert_eq!(rendered.matches("\n\n").count(), 1);
}

#[test]
fn test_render_two_headerless_hunks_are_still_separated() {
    let diff = FileDiff {
        path: "flake.nix".to_string(),
        hunks: vec![
            hunk("fetcher", None, "fetchpatch.url", "\"a-old\"", "\"a-new\""),
            hunk("fetcher", None, "fetchpatch.url", "\"b-old\"", "\"b-new\""),
        ],
    };
    let rendered = render(&diff, false, false).unwrap();
    assert_eq!(rendered.matches("\n\n").count(), 1);
}

#[test]
fn test_render_with_color_wraps_old_new_lines_in_ansi() {
    let diff = FileDiff {
        path: "flake.nix".to_string(),
        hunks: vec![hunk(
            "flake",
            Some("github.com/foo/mylib"),
            "inputs.foo.ref",
            "\"v1.0.0\"",
            "\"v2.0.0\"",
        )],
    };
    let rendered = render(&diff, false, true).unwrap();
    assert!(rendered.contains("\x1b[31m- \"v1.0.0\"\x1b[0m"));
    assert!(rendered.contains("\x1b[32m+ \"v2.0.0\"\x1b[0m"));
    assert!(rendered.contains("    inputs.foo.ref\n"));
    assert!(rendered.contains("  github.com/foo/mylib\n"));
}

#[test]
fn render_verbose_with_target_names_rule_and_target() {
    let diff = FileDiff {
        path: "a.nix".to_string(),
        hunks: vec![hunk("fetcher", Some("t"), "f", "o", "n")],
    };
    assert_eq!(
        render(&diff, true, false).unwrap(),
        "a.nix\n  [fetcher] t\n    f\n    - o\n    + n"
    );
}

#[test]
fn test_parse_answer() {
    assert!(matches!(parse_answer("y"), Some(Answer::Yes)));
    assert!(matches!(parse_answer("Y"), Some(Answer::Yes)));
    assert!(matches!(parse_answer("n"), Some(Answer::No)));
    assert!(matches!(parse_answer(""), Some(Answer::No)));
    assert!(matches!(parse_answer("\n"), Some(Answer::No)));
    assert!(matches!(parse_answer("a"), Some(Answer::All)));
    assert!(matches!(parse_answer("q"), Some(Answer::Quit)));
    assert!(parse_answer("?").is_none());
    assert!(parse_answer("x").is_none());
}

#[test]
fn parse_answer_ignores_surrounding_whitespace_and_case() {
    assert_eq!(parse_answer("  Q \n"), Some(Answer::Quit));
    assert_eq!(parse_answer("A\r\n"), Some(Answer::All));
    assert_eq!(parse_answer("yes"), None);
}
