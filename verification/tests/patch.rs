use nix_update_git::utils::patch::{
    add_prefix_bytes, ansi_c_unquote, c_quote, count_path_segments, needs_quoting, passes_filters, path_string,
    strip_path_bytes, strip_path_n,
};

#[test]
fn test_strip_path_n() {
    assert_eq!(strip_path_n("a/src/main.rs", 1), "src/main.rs");
    assert_eq!(strip_path_n("a/src/main.rs", 2), "main.rs");
    assert_eq!(strip_path_n("a/src/main.rs", 3), "main.rs"); // No more slashes
    assert_eq!(strip_path_n("src/main.rs", 1), "main.rs");
    assert_eq!(strip_path_n("main.rs", 1), "main.rs"); // No slash to strip
    assert_eq!(strip_path_n("a/b/c/d", 2), "c/d");
}

#[test]
fn test_strip_path_bytes() {
    // Unquoted path
    assert_eq!(strip_path_bytes(b"a/src/main.rs", 1), b"src/main.rs");
    assert_eq!(strip_path_bytes(b"a/src/main.rs", 2), b"main.rs");
    assert_eq!(strip_path_bytes(b"a/src/main.rs", 3), b"main.rs"); // No more slashes
    // /dev/null is never stripped
    assert_eq!(strip_path_bytes(b"/dev/null", 1), b"/dev/null");
    // Zero strip
    assert_eq!(strip_path_bytes(b"a/src/main.rs", 0), b"a/src/main.rs");
    // C-style quoted path with spaces
    assert_eq!(
        strip_path_bytes(b"\"a/path with spaces\"", 1),
        b"\"path with spaces\""
    );
    // C-style quoted /dev/null
    assert_eq!(strip_path_bytes(b"\"/dev/null\"", 1), b"\"/dev/null\"");
    // C-style quoted path that doesn't need quoting after stripping
    assert_eq!(strip_path_bytes(b"\"a/simple\"", 1), b"simple");
    // Mnemonic prefixes
    assert_eq!(strip_path_bytes(b"i/file.txt", 1), b"file.txt");
    assert_eq!(strip_path_bytes(b"w/file.txt", 1), b"file.txt");
    // Multi-character prefixes
    assert_eq!(strip_path_bytes(b"origin/file.txt", 1), b"file.txt");
    assert_eq!(strip_path_bytes(b"modified/file.txt", 1), b"file.txt");
}

#[test]
fn test_count_path_segments() {
    assert_eq!(count_path_segments("src"), 1);
    assert_eq!(count_path_segments("src/sub"), 2);
    assert_eq!(count_path_segments("src/sub/deep"), 3);
    assert_eq!(count_path_segments(""), 0);
}

#[test]
fn test_add_prefix_bytes() {
    assert_eq!(add_prefix_bytes(b"file.txt", "a/pkg/"), b"a/pkg/file.txt");
    assert_eq!(add_prefix_bytes(b"file.txt", "a/pkg"), b"a/pkgfile.txt");
    assert_eq!(add_prefix_bytes(b"/dev/null", "a/pkg/"), b"a/pkg//dev/null");
    assert_eq!(
        add_prefix_bytes(b"\"/dev/null\"", "a/pkg/"),
        b"a/pkg//dev/null"
    );
    assert_eq!(
        add_prefix_bytes(b"\"path with spaces\"", "a/pkg/"),
        b"\"a/pkg/path with spaces\""
    );
    assert_eq!(
        add_prefix_bytes(b"\"path with spaces\"", "a/pkg"),
        b"\"a/pkgpath with spaces\""
    );
    assert_eq!(add_prefix_bytes(b"file.txt", "a/pkg/"), b"a/pkg/file.txt");
}

#[test]
fn test_needs_quoting() {
    assert!(needs_quoting("path with spaces"));
    assert!(needs_quoting("path\\with\\backslash"));
    assert!(needs_quoting("path\"with\"quotes"));
    assert!(needs_quoting("path\nwith\nnewlines"));
    assert!(needs_quoting("path\twith\ttabs"));
    assert!(!needs_quoting("simple/path.rs"));
}

#[test]
fn test_ansi_c_unquote() {
    // Unquoted input is returned as-is
    let (result, consumed) = ansi_c_unquote("simple path").unwrap();
    assert_eq!(result, "simple path");
    assert_eq!(consumed, "simple path".len());

    // Quoted path with spaces
    let (result, consumed) = ansi_c_unquote("\"path with spaces\"").unwrap();
    assert_eq!(result, "path with spaces");
    assert_eq!(consumed, "\"path with spaces\"".len());

    // Backslash escape inside quotes
    let (result, _) = ansi_c_unquote("\"path\\\\slash\"").unwrap();
    assert_eq!(result, "path\\slash");

    // Quote escape inside quotes
    let (result, _) = ansi_c_unquote("\"path\\\"quote\"").unwrap();
    assert_eq!(result, "path\"quote");

    // Newline escape inside quotes
    let (result, _) = ansi_c_unquote("\"path\\nnewline\"").unwrap();
    assert_eq!(result, "path\nnewline");

    // Tab escape inside quotes
    let (result, _) = ansi_c_unquote("\"path\\ttab\"").unwrap();
    assert_eq!(result, "path\ttab");

    // Octal escape (\141 = 'a') inside quotes
    let (result, _) = ansi_c_unquote("\"octal\\141\"").unwrap();
    assert_eq!(result, "octala");

    // Unclosed quote returns None (gix_quote doesn't treat this as
    // an error, so we validate that consumed bytes end with `"`)
    assert_eq!(ansi_c_unquote("\"unclosed"), None);
    // Incomplete escape at end of quoted string returns None
    assert_eq!(ansi_c_unquote("\"incomplete\\"), None);
}

#[test]
fn test_c_quote() {
    // No quoting needed
    assert_eq!(c_quote("simple/path.rs"), "simple/path.rs");
    // Quoting needed for spaces
    assert_eq!(c_quote("path with spaces"), "\"path with spaces\"");
    // Round-trip: c_quote(ansi_c_unquote(x)) for a quoted path with spaces
    let (unquoted, _) = ansi_c_unquote("\"path with spaces\"").unwrap();
    assert_eq!(c_quote(&unquoted), "\"path with spaces\"");
}

#[test]
fn test_fnmatch() {
    // Exact match
    assert!(fnmatch_via_filters("file.txt", "file.txt"));
    assert!(!fnmatch_via_filters("file.txt", "other.txt"));

    // * matches any sequence including /
    assert!(fnmatch_via_filters("*", "file.txt"));
    assert!(fnmatch_via_filters("*", "src/file.txt"));
    assert!(fnmatch_via_filters("*.txt", "file.txt"));
    assert!(fnmatch_via_filters("*.txt", "src/file.txt"));
    assert!(!fnmatch_via_filters("*.txt", "file.rs"));
    assert!(fnmatch_via_filters("src/*", "src/main.rs"));
    assert!(fnmatch_via_filters("src/*", "src/sub/main.rs"));

    // ? matches single character
    assert!(fnmatch_via_filters("file?.txt", "file1.txt"));
    assert!(!fnmatch_via_filters("file?.txt", "file.txt"));
    assert!(!fnmatch_via_filters("file?.txt", "file12.txt"));

    // Combined
    assert!(fnmatch_via_filters("src/*/test", "src/foo/test"));
    assert!(fnmatch_via_filters("src/*/test", "src/foo/bar/test"));
    assert!(fnmatch_via_filters("?", "a"));
    assert!(!fnmatch_via_filters("?", "ab"));
    assert!(fnmatch_via_filters("", ""));
    assert!(!fnmatch_via_filters("", "a"));
    assert!(!fnmatch_via_filters("a", ""));
}

#[test]
fn count_path_segments_skips_empty_segments() {
    assert_eq!(count_path_segments("/src//sub/"), 2);
    assert_eq!(count_path_segments("///"), 0);
}

#[test]
fn c_quote_escapes_special_characters() {
    assert_eq!(c_quote("plain"), "plain");
    assert_eq!(c_quote("a b"), "\"a b\"");
    assert_eq!(c_quote("q\"\\\t\n\r"), "\"q\\\"\\\\\\t\\n\\r\"");
}

#[test]
fn ansi_c_unquote_reads_git_quotes() {
    assert_eq!(ansi_c_unquote("\"a\\tb\""), Some(("a\tb".to_string(), 6)));
    assert_eq!(ansi_c_unquote("plain"), Some(("plain".to_string(), 5)));
    assert_eq!(ansi_c_unquote("\"unterminated"), None);
}

#[test]
fn path_string_unquotes_when_it_can() {
    assert_eq!(path_string(b"\"with space\""), "with space");
    assert_eq!(path_string(b"plain/path"), "plain/path");
    assert_eq!(path_string(b"\"broken"), "\"broken");
}

#[test]
fn filters_exclude_then_include() {
    let ex = vec!["*.md".to_string()];
    let inc = vec!["src/*".to_string()];
    assert!(passes_filters("src/lib.rs", &ex, &inc));
    assert!(!passes_filters("src/README.md", &ex, &inc));
    assert!(!passes_filters("docs/a.rs", &ex, &inc));
    assert!(passes_filters("docs/a.rs", &ex, &vec![]));
}

fn fnmatch_via_filters(pattern: &str, text: &str) -> bool {
    !passes_filters(text, &vec![pattern.to_string()], &vec![])
}
