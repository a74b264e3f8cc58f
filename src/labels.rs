//! Shortening of text for the shell's labels and popups.
use vstd::prelude::*;

verus! {

/// `s` cut to its first `max_len` characters, with `...` after the cut; `s`
/// itself when it is no longer than that.
pub open spec fn truncated(s: Seq<char>, max_len: int) -> Seq<char> {
    if s.len() <= max_len {
        s
    } else {
        s.subrange(0, max_len) + "..."@
    }
}

/// `s` with its middle replaced by `...` so that `max_len` characters remain:
/// the first `(max_len - 3) / 2` and the rest from the end. `s` itself when it
/// is no longer than `max_len`.
pub open spec fn truncated_middle(s: Seq<char>, max_len: int) -> Seq<char> {
    if s.len() <= max_len {
        s
    } else {
        let keep = (max_len - 3) / 2;
        let tail = max_len - 3 - keep;
        s.subrange(0, keep) + "..."@ + s.subrange(s.len() - tail, s.len() as int)
    }
}

/// A window's line in the workspace popup: its class, and its title cut to
/// forty characters when there is one.
pub open spec fn client_line(class: Seq<char>, title: Seq<char>) -> Seq<char> {
    let t = truncated(title, 40);
    if t.len() == 0 {
        class
    } else {
        class + ": "@ + t
    }
}

/// Cuts `title` to `max_len` characters, marking the cut with `...`.
pub fn truncate_title(title: &str, max_len: usize) -> (r: String)
    ensures
        r@ == truncated(title@, max_len as int),
{
    let n = title.unicode_len();
    if n <= max_len {
        return String::from_str(title);
    }
    let head = String::from_str(title.substring_char(0, max_len));
    head.concat("...")
}

/// Shortens `name` to `max_len` characters by cutting out its middle.
pub fn truncate_middle(name: &str, max_len: usize) -> (r: String)
    requires
        name@.len() <= max_len || max_len >= 3,
    ensures
        r@ == truncated_middle(name@, max_len as int),
{
    let n = name.unicode_len();
    if n <= max_len {
        return String::from_str(name);
    }
    let keep = (max_len - 3) / 2;
    let tail = max_len - 3 - keep;
    let head = String::from_str(name.substring_char(0, keep));
    let with_dots = head.concat("...");
    with_dots.concat(name.substring_char(n - tail, n))
}

/// The popup line of a window with class `class` and title `title`.
pub fn format_client_line(class: &str, title: &str) -> (r: String)
    ensures
        r@ == client_line(class@, title@),
{
    let t = truncate_title(title, 40);
    if t.as_str().unicode_len() == 0 {
        String::from_str(class)
    } else {
        let c = String::from_str(class);
        let with_sep = c.concat(": ");
        with_sep.concat(t.as_str())
    }
}

} // verus!
