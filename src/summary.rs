//! The text of a notification-summary request, built from the day's
//! notifications with anything that could hide or fake markup taken out.
use vstd::prelude::*;

verus! {

/// Zero-width characters, direction marks, embeddings, overrides and
/// isolates, and the byte-order mark: characters that can hide text.
pub open spec fn is_hiding_char(c: char) -> bool {
    ('\u{200B}' <= c && c <= '\u{200F}') || ('\u{202A}' <= c && c <= '\u{202E}') || ('\u{2066}'
        <= c && c <= '\u{2069}') || c == '\u{FEFF}'
}

/// The control characters: Unicode's general category Cc.
pub open spec fn is_control_char(c: char) -> bool {
    c <= '\u{1F}' || ('\u{7F}' <= c && c <= '\u{9F}')
}

/// A character survives sanitizing unless it hides text or is a control
/// character other than a line feed.
pub open spec fn is_kept_char(c: char) -> bool {
    !is_hiding_char(c) && (!is_control_char(c) || c == '\n')
}

/// The characters of `s` that survive sanitizing, in order.
pub open spec fn kept_chars(s: Seq<char>) -> Seq<char>
    decreases s.len(),
{
    if s.len() == 0 {
        Seq::empty()
    } else if is_kept_char(s.last()) {
        kept_chars(s.drop_last()).push(s.last())
    } else {
        kept_chars(s.drop_last())
    }
}

/// Angle brackets become their full-width forms, so that text cannot close
/// or open a tag of the request.
pub open spec fn escape_angle(c: char) -> char {
    if c == '<' {
        '\u{FF1C}'
    } else if c == '>' {
        '\u{FF1E}'
    } else {
        c
    }
}

/// `s` sanitized: its first `max_chars` surviving characters, with angle
/// brackets escaped.
pub open spec fn sanitized(s: Seq<char>, max_chars: int) -> Seq<char> {
    let k = kept_chars(s);
    let cut = if k.len() <= max_chars {
        k
    } else {
        k.subrange(0, max_chars)
    };
    cut.map_values(|c: char| escape_angle(c))
}

/// What survives of a prefix of `s` is a prefix of what survives of `s`.
proof fn lemma_kept_prefix(s: Seq<char>, i: int, j: int)
    requires
        0 <= i <= j <= s.len(),
    ensures
        kept_chars(s.subrange(0, i)).len() <= kept_chars(s.subrange(0, j)).len(),
        kept_chars(s.subrange(0, j)).subrange(0, kept_chars(s.subrange(0, i)).len() as int)
            == kept_chars(s.subrange(0, i)),
    decreases j - i,
{
    if i < j {
        lemma_kept_prefix(s, i, j - 1);
        let a = kept_chars(s.subrange(0, i));
        let b = kept_chars(s.subrange(0, j - 1));
        assert(s.subrange(0, j).drop_last() =~= s.subrange(0, j - 1));
        let c = kept_chars(s.subrange(0, j));
        assert(c.subrange(0, a.len() as int) =~= b.subrange(0, a.len() as int));
    } else {
        assert(kept_chars(s.subrange(0, j)).subrange(0, kept_chars(s.subrange(0, i)).len() as int)
            =~= kept_chars(s.subrange(0, i)));
    }
}

fn is_kept(c: char) -> (r: bool)
    ensures
        r == is_kept_char(c),
{
    let hiding = ('\u{200B}' <= c && c <= '\u{200F}') || ('\u{202A}' <= c && c <= '\u{202E}') || (
    '\u{2066}' <= c && c <= '\u{2069}') || c == '\u{FEFF}';
    let control = c <= '\u{1F}' || ('\u{7F}' <= c && c <= '\u{9F}');
    !hiding && (!control || c == '\n')
}

/// Strips characters that hide or disguise text, keeps at most `max_chars`
/// of the rest, and escapes angle brackets.
pub fn sanitize(s: &str, max_chars: usize) -> (r: String)
    ensures
        r@ == sanitized(s@, max_chars as int),
{
    let n = s.unicode_len();
    let mut out = String::new();
    let mut count: usize = 0;
    let mut i: usize = 0;
    while i < n && count < max_chars
        invariant
            i <= n,
            n == s@.len(),
            count <= max_chars,
            count == kept_chars(s@.subrange(0, i as int)).len(),
            out@ == kept_chars(s@.subrange(0, i as int)).map_values(|c: char| escape_angle(c)),
        decreases n - i,
    {
        let c = s.get_char(i);
        let ghost before = s@.subrange(0, i as int);
        assert(s@.subrange(0, i as int + 1).drop_last() =~= before);
        assert(s@.subrange(0, i as int + 1).last() == c);
        if is_kept(c) {
            let ghost k = kept_chars(before);
            if c == '<' {
                proof {
                    reveal_strlit("\u{FF1C}");
                }
                out = out.concat("\u{FF1C}");
            } else if c == '>' {
                proof {
                    reveal_strlit("\u{FF1E}");
                }
                out = out.concat("\u{FF1E}");
            } else {
                let one = s.substring_char(i, i + 1);
                assert(one@ =~= seq![c]);
                out = out.concat(one);
            }
            assert(k.push(c).map_values(|c: char| escape_angle(c)) =~= k.map_values(
                |c: char| escape_angle(c),
            ).push(escape_angle(c)));
            count = count + 1;
        }
        i = i + 1;
    }
    proof {
        let k = kept_chars(s@);
        if i == n {
            assert(s@.subrange(0, i as int) =~= s@);
        } else {
            lemma_kept_prefix(s@, i as int, n as int);
            assert(s@.subrange(0, n as int) =~= s@);
            assert(k.subrange(0, max_chars as int) == kept_chars(s@.subrange(0, i as int)));
        }
    }
    out
}

/// A stored notification, as the summary request shows it.
pub struct NotifRow {
    pub app_name: String,
    pub summary: String,
    pub body: String,
    pub created_at: String,
}

/// One notification's line: `[time] app: summary`, then ` — body` when it
/// has a body, each part sanitized to its own length.
pub open spec fn prompt_line(n: NotifRow) -> Seq<char> {
    let body_part = if n.body@.len() == 0 {
        Seq::empty()
    } else {
        " \u{2014} "@ + sanitized(n.body@, 300)
    };
    "["@ + n.created_at@ + "] "@ + sanitized(n.app_name@, 50) + ": "@ + sanitized(n.summary@, 200)
        + body_part
}

/// The lines of `rows`, one per notification, joined by line feeds.
pub open spec fn prompt_text(rows: Seq<NotifRow>) -> Seq<char>
    decreases rows.len(),
{
    if rows.len() == 0 {
        Seq::empty()
    } else if rows.len() == 1 {
        prompt_line(rows[0])
    } else {
        prompt_text(rows.drop_last()) + "\n"@ + prompt_line(rows.last())
    }
}

fn format_line(n: &NotifRow) -> (r: String)
    ensures
        r@ == prompt_line(*n),
{
    let mut line = String::from_str("[");
    line = line.concat(n.created_at.as_str());
    line = line.concat("] ");
    line = line.concat(sanitize(n.app_name.as_str(), 50).as_str());
    line = line.concat(": ");
    line = line.concat(sanitize(n.summary.as_str(), 200).as_str());
    if n.body.as_str().unicode_len() > 0 {
        line = line.concat(" \u{2014} ");
        line = line.concat(sanitize(n.body.as_str(), 300).as_str());
    }
    line
}

/// The notifications as the body of a summary request, one line each.
pub fn format_notifications_for_prompt(notifs: &[NotifRow]) -> (r: String)
    ensures
        r@ == prompt_text(notifs@),
{
    let mut out = String::new();
    let mut i: usize = 0;
    while i < notifs.len()
        invariant
            i <= notifs@.len(),
            out@ == prompt_text(notifs@.subrange(0, i as int)),
        decreases notifs@.len() - i,
    {
        let ghost rows = notifs@.subrange(0, i as int + 1);
        assert(rows.drop_last() =~= notifs@.subrange(0, i as int));
        assert(rows.last() == notifs@[i as int]);
        let line = format_line(&notifs[i]);
        if i > 0 {
            out = out.concat("\n");
        } else {
            assert(notifs@.subrange(0, 0) =~= Seq::<NotifRow>::empty());
            assert(out@ =~= Seq::<char>::empty());
        }
        out = out.concat(line.as_str());
        i = i + 1;
    }
    assert(notifs@.subrange(0, notifs@.len() as int) =~= notifs@);
    out
}

} // verus!
