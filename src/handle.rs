//! Parsing of compositor window addresses into protocol window handles.
use vstd::prelude::*;

verus! {

/// Whether `c` is an ASCII hexadecimal digit (either case).
pub open spec fn is_hex_digit(c: char) -> bool {
    ('0' <= c && c <= '9') || ('a' <= c && c <= 'f') || ('A' <= c && c <= 'F')
}

/// The value of a hexadecimal digit.
pub open spec fn hex_digit_value(c: char) -> int {
    if '0' <= c && c <= '9' {
        c as int - '0' as int
    } else if 'a' <= c && c <= 'f' {
        c as int - 'a' as int + 10
    } else {
        c as int - 'A' as int + 10
    }
}

pub open spec fn all_hex_digits(s: Seq<char>) -> bool {
    forall|i: int| 0 <= i < s.len() ==> is_hex_digit(#[trigger] s[i])
}

/// The number written by the hexadecimal digits `s`, most significant first.
pub open spec fn hex_value(s: Seq<char>) -> int
    decreases s.len(),
{
    if s.len() == 0 {
        0
    } else {
        hex_value(s.drop_last()) * 16 + hex_digit_value(s.last())
    }
}

/// The digits of an address: without a leading `0x`, if there is one.
pub open spec fn address_digits(s: Seq<char>) -> Seq<char> {
    if s.len() >= 2 && s[0] == '0' && s[1] == 'x' {
        s.subrange(2, s.len() as int)
    } else {
        s
    }
}

/// The digits that a radix-16 parse of an unsigned integer reads: one
/// leading `+` sign is allowed and skipped.
pub open spec fn unsigned_digits(s: Seq<char>) -> Seq<char> {
    if s.len() >= 1 && s[0] == '+' {
        s.subrange(1, s.len() as int)
    } else {
        s
    }
}

/// The window handle that an address denotes: its hexadecimal value, which
/// must fit in 64 bits, reduced to its low 32 bits.
pub open spec fn window_handle_of(address: Seq<char>) -> Option<u32> {
    let d = unsigned_digits(address_digits(address));
    if d.len() > 0 && all_hex_digits(d) && hex_value(d) <= u64::MAX {
        Some((hex_value(d) % 0x1_0000_0000) as u32)
    } else {
        None
    }
}

proof fn lemma_hex_value_nonneg(s: Seq<char>)
    requires
        all_hex_digits(s),
    ensures
        hex_value(s) >= 0,
    decreases s.len(),
{
    if s.len() > 0 {
        assert(all_hex_digits(s.drop_last()));
        lemma_hex_value_nonneg(s.drop_last());
        assert(is_hex_digit(s[s.len() - 1]));
    }
}

/// A longer run of hexadecimal digits is worth at least as much as its prefix.
proof fn lemma_hex_value_prefix(s: Seq<char>, i: int)
    requires
        all_hex_digits(s),
        0 <= i <= s.len(),
    ensures
        hex_value(s.subrange(0, i)) <= hex_value(s),
    decreases s.len(),
{
    if i < s.len() {
        let t = s.drop_last();
        assert(all_hex_digits(t));
        lemma_hex_value_prefix(t, i);
        assert(t.subrange(0, i) =~= s.subrange(0, i));
        lemma_hex_value_nonneg(t);
        assert(is_hex_digit(s[s.len() - 1]));
    } else {
        assert(s.subrange(0, i) =~= s);
    }
}

fn hex_digit(c: char) -> (r: Option<u64>)
    ensures
        r == (if is_hex_digit(c) {
            Some(hex_digit_value(c) as u64)
        } else {
            None::<u64>
        }),
{
    if '0' <= c && c <= '9' {
        Some((c as u32 - '0' as u32) as u64)
    } else if 'a' <= c && c <= 'f' {
        Some((c as u32 - 'a' as u32 + 10) as u64)
    } else if 'A' <= c && c <= 'F' {
        Some((c as u32 - 'A' as u32 + 10) as u64)
    } else {
        None
    }
}

/// Turns a compositor window address (`0x` followed by hexadecimal digits)
/// into the 32-bit handle that the capture protocol takes. `None` when the
/// digits are missing, are not hexadecimal, or exceed 64 bits.
pub fn parse_window_handle(address: &str) -> (r: Option<u32>)
    ensures
        r == window_handle_of(address@),
{
    let n = address.unicode_len();
    let mut start: usize = 0;
    if n >= 2 && address.get_char(0) == '0' && address.get_char(1) == 'x' {
        start = 2;
    }
    if start < n && address.get_char(start) == '+' {
        start = start + 1;
    }
    let ghost d = unsigned_digits(address_digits(address@));
    assert(d =~= address@.subrange(start as int, n as int));
    if start >= n {
        return None;
    }
    let mut acc: u64 = 0;
    let mut i: usize = start;
    while i < n
        invariant
            start <= i <= n,
            n == address@.len(),
            d == unsigned_digits(address_digits(address@)),
            d =~= address@.subrange(start as int, n as int),
            all_hex_digits(d.subrange(0, i - start)),
            acc as int == hex_value(d.subrange(0, i - start)),
        decreases n - i,
    {
        let c = address.get_char(i);
        let ghost k = i - start;
        assert(d.subrange(0, k + 1).drop_last() =~= d.subrange(0, k));
        assert(d.subrange(0, k + 1).last() == c);
        match hex_digit(c) {
            None => {
                assert(!all_hex_digits(d)) by {
                    assert(d[k] == c);
                }
                return None;
            },
            Some(v) => {
                assert(all_hex_digits(d.subrange(0, k + 1))) by {
                    assert forall|j: int| 0 <= j < k + 1 implies is_hex_digit(
                        #[trigger] d.subrange(0, k + 1)[j],
                    ) by {
                        if j < k {
                            assert(d.subrange(0, k + 1)[j] == d.subrange(0, k)[j]);
                        }
                    }
                }
                assert(hex_value(d.subrange(0, k + 1)) == acc * 16 + v);
                if acc > (u64::MAX - v) / 16 {
                    assert(hex_value(d.subrange(0, k + 1)) > u64::MAX) by (nonlinear_arith)
                        requires
                            acc > (u64::MAX - v) / 16,
                            hex_value(d.subrange(0, k + 1)) == acc * 16 + v,
                            v < 16,
                    ;
                    proof {
                        if all_hex_digits(d) {
                            lemma_hex_value_prefix(d, k + 1);
                        }
                    }
                    return None;
                }
                assert(acc * 16 + v <= u64::MAX) by (nonlinear_arith)
                    requires
                        acc <= (u64::MAX - v) / 16,
                        v < 16,
                ;
                acc = acc * 16 + v;
            },
        }
        i = i + 1;
    }
    assert(d.subrange(0, n - start) =~= d);
    Some((acc % 0x1_0000_0000) as u32)
}

} // verus!
