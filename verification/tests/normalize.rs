use nix_update_git::utils::normalize::{normalize_patch, PatchHasher};
use nix_update_git::utils::patch::PatchOptions;

#[test]
fn test_normalize_patch_removes_index_lines() {
    let patch = "\
diff --git a/file.txt b/file.txt
index abc1234..def5678 100644
--- a/file.txt
+++ b/file.txt
@@ -1,3 +1,3 @@
 line1
-old line
+new line
 line3
";
    let normalized = normalize_patch(
        patch,
        &PatchOptions {
            strip_len: 1,
            ..Default::default()
        },
    )
    .unwrap();
    assert!(!normalized.contains("index abc1234..def5678"));
    assert!(!normalized.contains("diff --git"));
    assert!(normalized.contains("--- file.txt"));
    assert!(normalized.contains("+++ file.txt"));
}

#[test]
fn test_normalize_patch_sorts_files() {
    let patch = "\
diff --git a/zebra.txt b/zebra.txt
index 111..222 100644
--- a/zebra.txt
+++ b/zebra.txt
@@ -1 +1 @@
-old
+new
diff --git a/apple.txt b/apple.txt
index 333..444 100644
--- a/apple.txt
+++ b/apple.txt
@@ -1 +1 @@
-old
+new
";
    let normalized = normalize_patch(
        patch,
        &PatchOptions {
            strip_len: 1,
            ..Default::default()
        },
    )
    .unwrap();
    let apple_pos = normalized.find("apple.txt").unwrap();
    let zebra_pos = normalized.rfind("zebra.txt").unwrap();
    assert!(
        apple_pos < zebra_pos,
        "apple should come before zebra in sorted output"
    );
}

#[test]
fn test_normalize_patch_strips_paths() {
    let patch = "\
diff --git a/src/main.rs b/src/main.rs
index abc..def 100644
--- a/src/main.rs
+++ b/src/main.rs
@@ -1,3 +1,3 @@
 line1
-old
+new
 line3
";
    let normalized = normalize_patch(
        patch,
        &PatchOptions {
            strip_len: 1,
            ..Default::default()
        },
    )
    .unwrap();
    assert!(normalized.contains("--- src/main.rs"));
    assert!(normalized.contains("+++ src/main.rs"));
    assert!(!normalized.contains("a/src/main.rs"));
    assert!(!normalized.contains("diff --git"));
}

#[test]
fn test_normalize_patch_removes_binary_files() {
    let patch = "\
diff --git a/image.png b/image.png
Binary files /dev/null and b/image.png differ
diff --git a/text.txt b/text.txt
index abc..def 100644
--- a/text.txt
+++ b/text.txt
@@ -1 +1 @@
-old
+new
";
    let normalized = normalize_patch(
        patch,
        &PatchOptions {
            strip_len: 1,
            ..Default::default()
        },
    )
    .unwrap();
    assert!(!normalized.contains("Binary files"));
    assert!(normalized.contains("text.txt"));
    // The binary file section should be removed entirely (no hunks)
    assert!(!normalized.contains("image.png"));
}

#[test]
fn test_normalize_patch_removes_empty_hunks() {
    let patch = "\
diff --git a/file.txt b/file.txt
index abc..def 100644
--- a/file.txt
+++ b/file.txt
@@ -1,3 +1,3 @@
 line1
 line2
 line3
";
    // This hunk has no added or deleted lines, so the section should be removed
    let normalized = normalize_patch(
        patch,
        &PatchOptions {
            strip_len: 1,
            ..Default::default()
        },
    )
    .unwrap();
    // The section should be empty (no hunks with changes)
    assert!(normalized.is_empty() || !normalized.contains("@@"));
}

#[test]
fn test_normalize_patch_removes_preamble() {
    let patch = "\
From abc123 Mon Sep 17 00:00:00 2001
From: Author <author@example.com>
Date: Mon, 1 Jan 2024 00:00:00 +0000
Subject: [PATCH] Fix something

---
 file.txt | 2 +-
 1 file changed, 1 insertion(+), 1 deletion(-)

diff --git a/file.txt b/file.txt
index abc..def 100644
--- a/file.txt
+++ b/file.txt
@@ -1,3 +1,3 @@
 line1
-old
+new
 line3
";
    let normalized = normalize_patch(
        patch,
        &PatchOptions {
            strip_len: 1,
            ..Default::default()
        },
    )
    .unwrap();
    assert!(!normalized.contains("From:"));
    assert!(!normalized.contains("Subject:"));
    assert!(!normalized.contains("Date:"));
    assert!(!normalized.contains("diff --git"));
    assert!(normalized.contains("--- file.txt"));
}

#[test]
fn test_normalize_patch_preserves_no_newline_marker() {
    let patch = "\
diff --git a/file.txt b/file.txt
index abc..def 100644
--- a/file.txt
+++ b/file.txt
@@ -1 +1 @@
-old
\\ No newline at end of file
+new
\\ No newline at end of file
";
    let normalized = normalize_patch(
        patch,
        &PatchOptions {
            strip_len: 1,
            ..Default::default()
        },
    )
    .unwrap();
    assert!(normalized.contains("\\ No newline at end of file"));
}

#[test]
fn test_normalize_patch_removes_new_file_mode() {
    let patch = "\
diff --git a/newfile.txt b/newfile.txt
new file mode 100644
index 0000000..abc1234
--- /dev/null
+++ b/newfile.txt
@@ -0,0 +1,3 @@
+line1
+line2
+line3
";
    let normalized = normalize_patch(
        patch,
        &PatchOptions {
            strip_len: 1,
            ..Default::default()
        },
    )
    .unwrap();
    // new file mode lines are removed by fetchpatch normalization
    assert!(!normalized.contains("new file mode"));
    assert!(!normalized.contains("index 0000000"));
    assert!(normalized.contains("--- /dev/null"));
    assert!(normalized.contains("+++ newfile.txt"));
}

#[test]
fn test_normalize_patch_removes_deleted_file_mode() {
    let patch = "\
diff --git a/oldfile.txt b/oldfile.txt
deleted file mode 100644
index abc1234..0000000
--- a/oldfile.txt
+++ /dev/null
@@ -1,3 +0,0 @@
-line1
-line2
-line3
";
    let normalized = normalize_patch(
        patch,
        &PatchOptions {
            strip_len: 1,
            ..Default::default()
        },
    )
    .unwrap();
    // deleted file mode lines are removed by fetchpatch normalization
    assert!(!normalized.contains("deleted file mode"));
    assert!(!normalized.contains("index abc1234"));
    assert!(normalized.contains("--- oldfile.txt"));
    assert!(normalized.contains("+++ /dev/null"));
}

#[test]
fn test_normalize_patch_git_binary_patch() {
    let patch = "\
diff --git a/binary.bin b/binary.bin
index abc..def 100644
GIT binary patch
literal 10
ZcmXp.FaR@n
--
diff --git a/text.txt b/text.txt
index abc..def 100644
--- a/text.txt
+++ b/text.txt
@@ -1 +1 @@
-old
+new
";
    let normalized = normalize_patch(
        patch,
        &PatchOptions {
            strip_len: 1,
            ..Default::default()
        },
    )
    .unwrap();
    // The binary file section should be removed entirely
    assert!(!normalized.contains("GIT binary patch"));
    assert!(!normalized.contains("literal 10"));
    assert!(!normalized.contains("binary.bin"));
    // The text file section should remain
    assert!(normalized.contains("text.txt"));
}

#[test]
fn test_normalize_patch_strip_zero() {
    let patch = "\
diff --git a/src/file.txt b/src/file.txt
index abc..def 100644
--- a/src/file.txt
+++ b/src/file.txt
@@ -1 +1 @@
-old
+new
";
    let normalized = normalize_patch(
        patch,
        &PatchOptions {
            strip_len: 0,
            ..Default::default()
        },
    )
    .unwrap();
    // With strip=0, paths are not modified (matching nixpkgs fetchpatch
    // default behavior where filterdiff -p1 only affects matching, not
    // output paths)
    assert!(normalized.contains("--- a/src/file.txt"));
    assert!(normalized.contains("+++ b/src/file.txt"));
    assert!(!normalized.contains("diff --git"));
}

#[test]
fn test_normalize_patch_strip_two() {
    let patch = "\
diff --git a/dir/src/file.txt b/dir/src/file.txt
index abc..def 100644
--- a/dir/src/file.txt
+++ b/dir/src/file.txt
@@ -1 +1 @@
-old
+new
";
    let normalized = normalize_patch(
        patch,
        &PatchOptions {
            strip_len: 2,
            ..Default::default()
        },
    )
    .unwrap();
    assert!(normalized.contains("--- src/file.txt"));
    assert!(normalized.contains("+++ src/file.txt"));
}

#[test]
fn test_normalize_patch_strip_three() {
    let patch = "\
diff --git a/dir/src/file.txt b/dir/src/file.txt
index abc..def 100644
--- a/dir/src/file.txt
+++ b/dir/src/file.txt
@@ -1 +1 @@
-old
+new
";
    let normalized = normalize_patch(
        patch,
        &PatchOptions {
            strip_len: 3,
            ..Default::default()
        },
    )
    .unwrap();
    assert!(normalized.contains("--- file.txt"));
    assert!(normalized.contains("+++ file.txt"));
}

#[test]
fn test_normalize_patch_traditional_diff() {
    let patch = "\
--- a/oldfile.txt\t2024-01-01 00:00:00.000000000 +0000
+++ b/newfile.txt\t2024-01-02 00:00:00.000000000 +0000
@@ -1,3 +1,3 @@
 line1
-old
+new
 line3
";
    let normalized = normalize_patch(
        patch,
        &PatchOptions {
            strip_len: 1,
            ..Default::default()
        },
    )
    .unwrap();
    // Traditional diffs without diff --git headers are still handled
    assert!(normalized.contains("--- oldfile.txt"));
    assert!(normalized.contains("+++ newfile.txt"));
}

#[test]
fn test_normalize_patch_multiple_hunks() {
    let patch = "\
diff --git a/file.txt b/file.txt
index abc..def 100644
--- a/file.txt
+++ b/file.txt
@@ -1,3 +1,3 @@
 line1
-old1
+new1
 line3
@@ -10,3 +10,3 @@
 line10
-old2
+new2
 line12
";
    let normalized = normalize_patch(
        patch,
        &PatchOptions {
            strip_len: 1,
            ..Default::default()
        },
    )
    .unwrap();
    // Both hunks should be preserved
    assert!(normalized.contains("@@ -1,3 +1,3 @@"));
    assert!(normalized.contains("@@ -10,3 +10,3 @@"));
}

#[test]
fn test_normalize_patch_mixed_changes_and_context() {
    let patch = "\
diff --git a/file.txt b/file.txt
index abc..def 100644
--- a/file.txt
+++ b/file.txt
@@ -1,5 +1,5 @@
 context1
-old
+new
 context2
 context3
 context4
";
    let normalized = normalize_patch(
        patch,
        &PatchOptions {
            strip_len: 1,
            ..Default::default()
        },
    )
    .unwrap();
    // The hunk should be preserved (it has changes)
    assert!(normalized.contains("@@ -1,5 +1,5 @@"));
    assert!(normalized.contains("-old"));
    assert!(normalized.contains("+new"));
}

#[test]
fn test_normalize_patch_strips_hunk_context() {
    let patch = "\
diff --git a/file.txt b/file.txt
--- a/file.txt
+++ b/file.txt
@@ -1,3 +1,3 @@ some function context
 line1
-old
+new
 line3
";
    let normalized = normalize_patch(
        patch,
        &PatchOptions {
            strip_len: 1,
            ..Default::default()
        },
    )
    .unwrap();
    // The function/context text should be stripped from hunk headers
    assert!(normalized.contains("@@ -1,3 +1,3 @@"));
    assert!(!normalized.contains("some function context"));
}

#[test]
fn test_normalize_patch_with_spaces_in_paths() {
    let patch = "\
diff --git \"a/path with spaces\" \"b/path with spaces\"
index abc..def 100644
--- \"a/path with spaces\"
+++ \"b/path with spaces\"
@@ -1 +1 @@
-old
+new
";
    let normalized = normalize_patch(
        patch,
        &PatchOptions {
            strip_len: 1,
            ..Default::default()
        },
    )
    .unwrap();
    assert!(normalized.contains("--- \"path with spaces\""));
    assert!(normalized.contains("+++ \"path with spaces\""));
    assert!(!normalized.contains("diff --git"));
    assert!(!normalized.contains("index abc..def"));
}

#[test]
fn test_normalize_patch_mnemonic_prefixes() {
    let patch = "\
diff --git i/file.txt w/file.txt
index abc..def 100644
--- i/file.txt
+++ w/file.txt
@@ -1 +1 @@
-old
+new
";
    // strip=0: prefixes preserved (matching filterdiff --strip=0 --clean)
    let normalized = normalize_patch(
        patch,
        &PatchOptions {
            strip_len: 0,
            ..Default::default()
        },
    )
    .unwrap();
    assert!(normalized.contains("--- i/file.txt"));
    assert!(normalized.contains("+++ w/file.txt"));
    // strip=1: one component stripped, regardless of prefix
    let normalized = normalize_patch(
        patch,
        &PatchOptions {
            strip_len: 1,
            ..Default::default()
        },
    )
    .unwrap();
    assert!(normalized.contains("--- file.txt"));
    assert!(normalized.contains("+++ file.txt"));
}

#[test]
fn test_normalize_patch_multichar_prefix() {
    let patch = "\
diff --git origin/file.txt modified/file.txt
index abc..def 100644
--- origin/file.txt
+++ modified/file.txt
@@ -1 +1 @@
-old
+new
";
    // strip=0: prefixes preserved
    let normalized = normalize_patch(
        patch,
        &PatchOptions {
            strip_len: 0,
            ..Default::default()
        },
    )
    .unwrap();
    assert!(normalized.contains("--- origin/file.txt"));
    assert!(normalized.contains("+++ modified/file.txt"));
    // strip=1: first component stripped (origin/ and modified/)
    let normalized = normalize_patch(
        patch,
        &PatchOptions {
            strip_len: 1,
            ..Default::default()
        },
    )
    .unwrap();
    assert!(normalized.contains("--- file.txt"));
    assert!(normalized.contains("+++ file.txt"));
}

#[test]
fn test_normalize_patch_relative_filter() {
    let patch = "\
diff --git a/src/main.rs b/src/main.rs
index abc..def 100644
--- a/src/main.rs
+++ b/src/main.rs
@@ -1 +1 @@
-old
+new
diff --git a/lib/util.rs b/lib/util.rs
index abc..def 100644
--- a/lib/util.rs
+++ b/lib/util.rs
@@ -1 +1 @@
-old
+new
";
    // With relative = "src", only src/ files should be included
    let normalized = normalize_patch(
        patch,
        &PatchOptions {
            relative: Some("src".to_string()),
            ..Default::default()
        },
    )
    .unwrap();
    // effective_strip = 1 + 1 + 0 = 2, so a/src/main.rs → main.rs
    assert!(normalized.contains("--- a/main.rs"));
    assert!(normalized.contains("+++ b/main.rs"));
    assert!(!normalized.contains("lib"));
    assert!(!normalized.contains("util.rs"));
}

#[test]
fn test_normalize_patch_relative_with_strip() {
    let patch = "\
diff --git a/src/main.rs b/src/main.rs
index abc..def 100644
--- a/src/main.rs
+++ b/src/main.rs
@@ -1 +1 @@
-old
+new
";
    // With relative = "src" and strip_len = 1, effective_strip = 1 + 1 + 1 = 3
    let normalized = normalize_patch(
        patch,
        &PatchOptions {
            strip_len: 1,
            relative: Some("src".to_string()),
            ..Default::default()
        },
    )
    .unwrap();
    // With 3 components stripped from a/src/main.rs → .rs (just "main.rs" -> strip 3 -> "rs" since "a/src/main.rs" strip 3 -> "rs")
    // Wait: a/src/main.rs → strip 1 → src/main.rs → strip 2 → main.rs → strip 3 → main.rs (no more slashes)
    // Actually strip_path_n("a/src/main.rs", 3) = strip 1: "src/main.rs", strip 2: "main.rs", strip 3: "main.rs" (no slash)
    // Hmm, let me trace: "a/src/main.rs" find '/' at 1 -> "src/main.rs", find '/' at 3 -> "main.rs", no more '/' -> "main.rs"
    // So strip 3 from "a/src/main.rs" = "main.rs". That's only 2 actual components stripped.
    // effective_strip = 3, but strip_path_n caps at available slashes
    assert!(normalized.contains("main.rs"));
    assert!(!normalized.contains("src/main.rs"));
}

#[test]
fn test_normalize_patch_extra_prefix() {
    let patch = "\
diff --git a/file.txt b/file.txt
index abc..def 100644
--- a/file.txt
+++ b/file.txt
@@ -1 +1 @@
-old
+new
";
    let normalized = normalize_patch(
        patch,
        &PatchOptions {
            strip_len: 1,
            extra_prefix: Some("pkg/".to_string()),
            ..Default::default()
        },
    )
    .unwrap();
    // After strip=1: file.txt → prepend a/pkg/ and b/pkg/
    assert!(normalized.contains("--- a/pkg/file.txt"));
    assert!(normalized.contains("+++ b/pkg/file.txt"));
}

#[test]
fn test_normalize_patch_extra_prefix_with_dev_null() {
    let patch = "\
diff --git a/newfile.txt b/newfile.txt
new file mode 100644
--- /dev/null
+++ b/newfile.txt
@@ -0,0 +1 @@
+new
";
    let normalized = normalize_patch(
        patch,
        &PatchOptions {
            strip_len: 1,
            extra_prefix: Some("pkg/".to_string()),
            ..Default::default()
        },
    )
    .unwrap();
    // /dev/null gets the prefix (matching filterdiff behavior)
    assert!(normalized.contains("--- a/pkg//dev/null"));
    assert!(normalized.contains("+++ b/pkg/newfile.txt"));
}

#[test]
fn test_normalize_patch_excludes() {
    let patch = "\
diff --git a/keep.txt b/keep.txt
index abc..def 100644
--- a/keep.txt
+++ b/keep.txt
@@ -1 +1 @@
-old
+new
diff --git a/skip.rs b/skip.rs
index abc..def 100644
--- a/skip.rs
+++ b/skip.rs
@@ -1 +1 @@
-old
+new
";
    let normalized = normalize_patch(
        patch,
        &PatchOptions {
            strip_len: 1,
            excludes: vec!["*.rs".to_string()],
            ..Default::default()
        },
    )
    .unwrap();
    assert!(normalized.contains("keep.txt"));
    assert!(!normalized.contains("skip.rs"));
}

#[test]
fn test_normalize_patch_includes() {
    let patch = "\
diff --git a/keep.txt b/keep.txt
index abc..def 100644
--- a/keep.txt
+++ b/keep.txt
@@ -1 +1 @@
-old
+new
diff --git a/skip.rs b/skip.rs
index abc..def 100644
--- a/skip.rs
+++ b/skip.rs
@@ -1 +1 @@
-old
+new
";
    let normalized = normalize_patch(
        patch,
        &PatchOptions {
            strip_len: 1,
            includes: vec!["*.txt".to_string()],
            ..Default::default()
        },
    )
    .unwrap();
    assert!(normalized.contains("keep.txt"));
    assert!(!normalized.contains("skip.rs"));
}

#[test]
fn test_normalize_patch_hunks_selection() {
    let patch = "\
diff --git a/file.txt b/file.txt
index abc..def 100644
--- a/file.txt
+++ b/file.txt
@@ -1,3 +1,3 @@
 line1
-old1
+new1
 line3
@@ -10,3 +10,3 @@
 line10
-old2
+new2
 line12
@@ -20,3 +20,3 @@
 line20
-old3
+new3
 line22
";
    // Keep only hunks 1 and 3 (1-based)
    let normalized = normalize_patch(
        patch,
        &PatchOptions {
            strip_len: 1,
            hunks: vec![1, 3],
            ..Default::default()
        },
    )
    .unwrap();
    assert!(normalized.contains("new1"));
    assert!(!normalized.contains("new2"));
    assert!(normalized.contains("new3"));
}

#[test]
fn test_normalize_patch_revert() {
    let patch = "\
diff --git a/file.txt b/file.txt
index abc..def 100644
--- a/file.txt
+++ b/file.txt
@@ -1,3 +1,3 @@
 line1
-old
+new
 line3
";
    let normalized = normalize_patch(
        patch,
        &PatchOptions {
            strip_len: 1,
            revert: true,
            ..Default::default()
        },
    )
    .unwrap();
    // After revert: old name and new name swapped, InsertLine ↔ RemoveLine
    // Each reversed section gets a "reverted:" prefix (mimicking interdiff).
    assert!(normalized.starts_with("reverted:\n"));
    assert!(normalized.contains("--- file.txt"));
    assert!(normalized.contains("+++ file.txt"));
    assert!(normalized.contains("+old"));
    assert!(normalized.contains("-new"));
    assert!(!normalized.contains("-old"));
    assert!(!normalized.contains("+new"));
}

#[test]
fn test_normalize_patch_revert_new_file() {
    let patch = "\
diff --git a/newfile.txt b/newfile.txt
new file mode 100644
--- /dev/null
+++ b/newfile.txt
@@ -0,0 +1,1 @@
+content
";
    let normalized = normalize_patch(
        patch,
        &PatchOptions {
            strip_len: 1,
            revert: true,
            ..Default::default()
        },
    )
    .unwrap();
    // After revert: the file should be deleted (swapped names)
    assert!(normalized.starts_with("reverted:\n"));
    assert!(normalized.contains("--- newfile.txt"));
    assert!(normalized.contains("+++ /dev/null"));
    assert!(normalized.contains("-content"));
    assert!(!normalized.contains("+content"));
}

#[test]
fn test_normalize_patch_revert_deleted_file() {
    let patch = "\
diff --git a/oldfile.txt b/oldfile.txt
deleted file mode 100644
--- a/oldfile.txt
+++ /dev/null
@@ -1,1 +0,0 @@
-content
";
    let normalized = normalize_patch(
        patch,
        &PatchOptions {
            strip_len: 1,
            revert: true,
            ..Default::default()
        },
    )
    .unwrap();
    // After revert: the file should be created (swapped names)
    assert!(normalized.starts_with("reverted:\n"));
    assert!(normalized.contains("--- /dev/null"));
    assert!(normalized.contains("+++ oldfile.txt"));
    assert!(normalized.contains("+content"));
    assert!(!normalized.contains("-content"));
}

#[test]
fn test_normalize_patch_relative_nested() {
    let patch = "\
diff --git a/src/sub/file.rs b/src/sub/file.rs
index abc..def 100644
--- a/src/sub/file.rs
+++ b/src/sub/file.rs
@@ -1 +1 @@
-old
+new
diff --git a/src/other.rs b/src/other.rs
index abc..def 100644
--- a/src/other.rs
+++ b/src/other.rs
@@ -1 +1 @@
-old
+new
";
    // relative = "src/sub" → only files under src/sub/ included
    // effective_strip = 1 + 2 + 0 = 3
    let normalized = normalize_patch(
        patch,
        &PatchOptions {
            relative: Some("src/sub".to_string()),
            ..Default::default()
        },
    )
    .unwrap();
    // a/src/sub/file.rs → strip 3 → "file.rs" (strip 1: src/sub/file.rs, strip 2: sub/file.rs, strip 3: file.rs)
    assert!(normalized.contains("--- a/file.rs"));
    assert!(!normalized.contains("other.rs"));
}

#[test]
fn test_normalize_patch_excludes_and_includes() {
    let patch = "\
diff --git a/keep.txt b/keep.txt
index abc..def 100644
--- a/keep.txt
+++ b/keep.txt
@@ -1 +1 @@
-old
+new
diff --git a/skip.rs b/skip.rs
index abc..def 100644
--- a/skip.rs
+++ b/skip.rs
@@ -1 +1 @@
-old
+new
diff --git a/also_keep.txt b/also_keep.txt
index abc..def 100644
--- a/also_keep.txt
+++ b/also_keep.txt
@@ -1 +1 @@
-old
+new
";
    // Exclude *.rs, include *.txt — excludes applied first
    let normalized = normalize_patch(
        patch,
        &PatchOptions {
            strip_len: 1,
            excludes: vec!["*.rs".to_string()],
            includes: vec!["*.txt".to_string()],
            ..Default::default()
        },
    )
    .unwrap();
    assert!(normalized.contains("keep.txt"));
    assert!(normalized.contains("also_keep.txt"));
    assert!(!normalized.contains("skip.rs"));
}

#[test]
fn test_normalize_patch_hunks_empty_after_selection() {
    let patch = "\
diff --git a/file.txt b/file.txt
index abc..def 100644
--- a/file.txt
+++ b/file.txt
@@ -1,3 +1,3 @@
 line1
-old1
+new1
 line3
@@ -10,3 +10,3 @@
 line10
-old2
+new2
 line12
";
    // Select only hunk 5 (doesn't exist) → no hunks → file removed
    let normalized = normalize_patch(
        patch,
        &PatchOptions {
            strip_len: 1,
            hunks: vec![5],
            ..Default::default()
        },
    )
    .unwrap();
    assert!(normalized.is_empty() || !normalized.contains("@@"));
}

#[test]
fn test_normalize_patch_extra_prefix_with_spaces() {
    let patch = "\
diff --git \"a/path with spaces\" \"b/path with spaces\"
index abc..def 100644
--- \"a/path with spaces\"
+++ \"b/path with spaces\"
@@ -1 +1 @@
-old
+new
";
    let normalized = normalize_patch(
        patch,
        &PatchOptions {
            strip_len: 1,
            extra_prefix: Some("pkg/".to_string()),
            ..Default::default()
        },
    )
    .unwrap();
    // After strip=1: "path with spaces" (C-quoted) → add prefix a/pkg/ and b/pkg/
    assert!(normalized.contains("--- \"a/pkg/path with spaces\""));
    assert!(normalized.contains("+++ \"b/pkg/path with spaces\""));
}

#[test]
fn test_normalize_patch_revert_strip_zero() {
    let patch = "\
diff --git a/file.txt b/file.txt
index abc..def 100644
--- a/file.txt
+++ b/file.txt
@@ -1 +1 @@
-old
+new
";
    let normalized = normalize_patch(
        patch,
        &PatchOptions {
            strip_len: 0,
            revert: true,
            ..Default::default()
        },
    )
    .unwrap();
    assert!(normalized.starts_with("reverted:\n"));
    assert!(normalized.contains("--- b/file.txt"));
    assert!(normalized.contains("+++ a/file.txt"));
    assert!(normalized.contains("+old"));
    assert!(normalized.contains("-new"));
}

#[test]
fn normalize_patch_writes_clean_text() {
    let patch = "diff --git a/f b/f\nindex 1..2 100644\n--- a/f\n+++ b/f\n@@ -1 +1 @@ ctx\n-old\n+new\n";
    let options = PatchOptions { strip_len: 1, ..Default::default() };
    assert_eq!(normalize_patch(patch, &options).unwrap(), "--- f\n+++ f\n@@ -1 +1 @@\n-old\n+new\n");
}

#[test]
fn normalize_patch_of_nothing_is_empty() {
    let options = PatchOptions::default();
    assert_eq!(normalize_patch("", &options).unwrap(), "");
}

#[test]
fn hash_patch_url_hashes_normalized_text() {
    let patch = b"diff --git a/f b/f\nindex 1..2 100644\n--- a/f\n+++ b/f\n@@ -1 +1 @@\n-old\n+new\n".to_vec();
    let options = PatchOptions { strip_len: 1, ..Default::default() };
    let h = PatchHasher::hash_patch_url("https://example.org/p.patch", patch, &options).unwrap();
    assert_eq!(h.sri, "sha256-ddumP7mofAEoN9megk0xp1SwmI54qFU64pz0SV9QveI=");
}

#[test]
fn hash_patch_url_refuses_invalid_utf8() {
    let options = PatchOptions::default();
    let err = PatchHasher::hash_patch_url("https://example.org/p.patch", vec![0xff, 0xfe], &options).unwrap_err();
    assert_eq!(err, "Patch content from https://example.org/p.patch is not valid UTF-8");
}
