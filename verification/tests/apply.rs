use nix_update_git::apply::apply_updates;
use nix_update_git::parser::TextRange;
use nix_update_git::rules::Update;

fn upd(field: &str, replacement: &str, start: usize, end: usize) -> Update {
    Update::new(field, replacement, TextRange { start, end })
}

#[test]
fn single_update_replaces_its_range() {
    let out = apply_updates("rev = \"v1\";", &vec![upd("rev", "v2", 7, 9)]);
    assert_eq!(String::from_utf8(out.content).unwrap(), "rev = \"v2\";");
    assert!(out.overlaps.is_empty());
    assert!(out.skipped.is_empty());
}

#[test]
fn updates_apply_in_any_given_order() {
    let content = "a = \"1\"; b = \"2\";";
    let out = apply_updates(content, &vec![upd("b", "20", 14, 15), upd("a", "10", 5, 6)]);
    assert_eq!(String::from_utf8(out.content).unwrap(), "a = \"10\"; b = \"20\";");
}

#[test]
fn overlapping_updates_are_both_left_out() {
    let content = "abcdef";
    let out = apply_updates(content, &vec![upd("x", "X", 1, 4), upd("y", "Y", 2, 5)]);
    assert_eq!(String::from_utf8(out.content).unwrap(), "abcdef");
    assert_eq!(out.overlaps.len(), 1);
    assert_eq!(out.overlaps[0].0.field, "x");
    assert_eq!(out.overlaps[0].1.field, "y");
}

#[test]
fn out_of_range_update_is_skipped() {
    let out = apply_updates("abc", &vec![upd("x", "X", 5, 7), upd("y", "Y", 0, 1)]);
    assert_eq!(String::from_utf8(out.content).unwrap(), "Ybc");
    assert_eq!(out.skipped.len(), 1);
    assert_eq!(out.skipped[0].1, 3);
}

#[test]
fn empty_range_is_skipped() {
    let out = apply_updates("abc", &vec![upd("x", "X", 1, 1)]);
    assert_eq!(String::from_utf8(out.content).unwrap(), "abc");
    assert_eq!(out.skipped.len(), 1);
}

#[test]
fn update_order_does_not_change_the_text() {
    let content = "a = \"1\"; b = \"2\"; c = \"3\";";
    let us = vec![upd("a", "10", 5, 6), upd("b", "20", 14, 15), upd("c", "30", 23, 24)];
    let rev: Vec<Update> = us.iter().rev().cloned().collect();
    let x = apply_updates(content, &us);
    let y = apply_updates(content, &rev);
    assert_eq!(x.content, y.content);
    assert_eq!(String::from_utf8(x.content).unwrap(), "a = \"10\"; b = \"20\"; c = \"30\";");
}
