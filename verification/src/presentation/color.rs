//! Minimal ANSI coloring for diff lines: red for removed, green for added,
//! the same convention as `git diff`. Callers decide whether to color.
use anstyle::AnsiColor;
use vstd::prelude::*;

verus! {

/// The two colors diff lines are painted in.
#[derive(Debug, Clone, Copy, PartialEq, Eq, Structural)]
pub enum DiffColor {
    Red,
    Green,
}

/// The escape sequence that `anstyle` renders for a style with foreground
/// `c` on the default background: no effects, the foreground code `ESC [ 3
/// 1 m` (red) or `ESC [ 3 2 m` (green), no background or underline.
pub open spec fn style_open_of(c: DiffColor) -> Seq<char> {
    match c {
        DiffColor::Red => seq!['\u{1b}', '[', '3', '1', 'm'],
        DiffColor::Green => seq!['\u{1b}', '[', '3', '2', 'm'],
    }
}

/// The escape sequence that ends a styled span.
pub open spec fn style_reset() -> Seq<char> {
    seq!['\u{1b}', '[', '0', 'm']
}

/// Renders `AnsiColor::{Red,Green}.on_default()` with `Style::render`,
/// which writes the foreground code of `AnsiColor::as_fg_str` and nothing
/// else (see [`style_open_of`]).
#[verifier::external_body]
fn style_open(c: DiffColor) -> (r: String)
    ensures
        r@ == style_open_of(c),
{
    let style = match c {
        DiffColor::Red => AnsiColor::Red.on_default(),
        DiffColor::Green => AnsiColor::Green.on_default(),
    };
    format!("{}", style.render())
}

/// Renders `Style::render_reset` of `AnsiColor::{Red,Green}.on_default()`:
/// for any style other than the plain one, `anstyle`'s source writes its
/// reset code `ESC [ 0 m`.
#[verifier::external_body]
fn style_close(c: DiffColor) -> (r: String)
    ensures
        r@ == style_reset(),
{
    let style = match c {
        DiffColor::Red => AnsiColor::Red.on_default(),
        DiffColor::Green => AnsiColor::Green.on_default(),
    };
    format!("{}", style.render_reset())
}

/// `text` painted in `c` when `color` is set, unchanged otherwise.
pub open spec fn painted(c: DiffColor, text: Seq<char>, color: bool) -> Seq<char> {
    if color {
        style_open_of(c) + text + style_reset()
    } else {
        text
    }
}

fn paint(c: DiffColor, text: &str, color: bool) -> (r: String)
    ensures
        r@ == painted(c, text@, color),
{
    if color {
        let open = style_open(c);
        let close = style_close(c);
        open.concat(text).concat(close.as_str())
    } else {
        String::from_str(text)
    }
}

/// A removed-line fragment (e.g. `- "v1.0.0"`) in red, or unchanged when
/// `color` is `false`.
pub fn old_line(text: &str, color: bool) -> (r: String)
    ensures
        r@ == painted(DiffColor::Red, text@, color),
{
    paint(DiffColor::Red, text, color)
}

/// An added-line fragment (e.g. `+ "v2.0.0"`) in green, or unchanged when
/// `color` is `false`.
pub fn new_line(text: &str, color: bool) -> (r: String)
    ensures
        r@ == painted(DiffColor::Green, text@, color),
{
    paint(DiffColor::Green, text, color)
}

} // verus!
