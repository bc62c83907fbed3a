//! Decimal text: rendering integers as decimal strings, right-justified
//! line numbers, the digit width of a line count, and parsing decimal
//! integers from text.

use vstd::prelude::*;

verus! {

/// The decimal digit character for a value `d` in `0 ..= 9`.
pub open spec fn digit_char(d: int) -> char {
    if d == 0 {
        '0'
    } else if d == 1 {
        '1'
    } else if d == 2 {
        '2'
    } else if d == 3 {
        '3'
    } else if d == 4 {
        '4'
    } else if d == 5 {
        '5'
    } else if d == 6 {
        '6'
    } else if d == 7 {
        '7'
    } else if d == 8 {
        '8'
    } else {
        '9'
    }
}

/// The decimal digit string of `n`, most significant digit first, with no
/// sign and no leading zeros (except for `n == 0`, which is `"0"`).
pub open spec fn dec_seq(n: nat) -> Seq<char>
    decreases n,
{
    if n < 10 {
        seq![digit_char(n as int)]
    } else {
        dec_seq(n / 10).push(digit_char((n % 10) as int))
    }
}

/// A run of `k` space characters.
pub open spec fn spaces(k: nat) -> Seq<char> {
    Seq::new(k, |i: int| ' ')
}

/// The decimal digits of `n` right-justified in a field of width `w`:
/// padded on the left with spaces when the digits are fewer than `w`, and
/// unpadded (not truncated) otherwise.
pub open spec fn padded_dec_seq(n: nat, w: nat) -> Seq<char> {
    if dec_seq(n).len() < w {
        spaces((w - dec_seq(n).len()) as nat) + dec_seq(n)
    } else {
        dec_seq(n)
    }
}

/// The field width used for 1-based line numbers over a listing of
/// `count` lines: the digit count of `count`, and 1 when the listing is
/// empty.
pub open spec fn spec_digit_width(count: nat) -> nat {
    if count == 0 {
        1
    } else {
        dec_seq(count).len()
    }
}

/// The one-character string for the digit `d`.
fn digit_str(d: u64) -> (s: &'static str)
    requires
        d < 10,
    ensures
        s@ == seq![digit_char(d as int)],
{
    proof {
        reveal_strlit("0");
        reveal_strlit("1");
        reveal_strlit("2");
        reveal_strlit("3");
        reveal_strlit("4");
        reveal_strlit("5");
        reveal_strlit("6");
        reveal_strlit("7");
        reveal_strlit("8");
        reveal_strlit("9");
    }
    let s = if d == 0 {
        "0"
    } else if d == 1 {
        "1"
    } else if d == 2 {
        "2"
    } else if d == 3 {
        "3"
    } else if d == 4 {
        "4"
    } else if d == 5 {
        "5"
    } else if d == 6 {
        "6"
    } else if d == 7 {
        "7"
    } else if d == 8 {
        "8"
    } else {
        "9"
    };
    proof {
        assert(s@ =~= seq![digit_char(d as int)]);
    }
    s
}

/// The decimal digit string of `n`, exactly as [`dec_seq`] gives it.
pub fn decimal_string(n: u64) -> (s: String)
    ensures
        s@ == dec_seq(n as nat),
    decreases n,
{
    if n < 10 {
        String::from_str(digit_str(n))
    } else {
        let high = decimal_string(n / 10);
        let s = high.concat(digit_str(n % 10));
        proof {
            assert(s@ =~= dec_seq(n as nat));
        }
        s
    }
}

/// `n` right-justified in a field of `width` characters, exactly as
/// [`padded_dec_seq`] gives it.
pub fn format_line_number(n: u64, width: usize) -> (s: String)
    ensures
        s@ == padded_dec_seq(n as nat, width as nat),
{
    let digits = decimal_string(n);
    let dlen = digits.as_str().unicode_len();
    let pad: usize = if dlen < width {
        width - dlen
    } else {
        0
    };
    let mut s = String::new();
    let mut j: usize = 0;
    proof {
        reveal_strlit(" ");
        assert(s@ =~= spaces(0));
    }
    while j < pad
        invariant
            j <= pad,
            s@ == spaces(j as nat),
        decreases pad - j,
    {
        s.append(" ");
        j = j + 1;
        proof {
            reveal_strlit(" ");
            assert(" "@ =~= seq![' ']);
            assert(s@ =~= spaces(j as nat));
        }
    }
    s.append(digits.as_str());
    proof {
        assert(s@ =~= padded_dec_seq(n as nat, width as nat));
    }
    s
}

/// The field width for line numbers over `count` listing lines, exactly
/// as [`spec_digit_width`] gives it.
pub fn digit_width(count: usize) -> (w: usize)
    ensures
        w == spec_digit_width(count as nat),
{
    if count == 0 {
        1
    } else {
        let digits = decimal_string(count as u64);
        digits.as_str().unicode_len()
    }
}

/// Whether `c` is a decimal digit.
pub open spec fn is_digit(c: char) -> bool {
    '0' as u32 <= c as u32 && c as u32 <= '9' as u32
}

/// Whether every character of `s` is a decimal digit.
pub open spec fn all_digits(s: Seq<char>) -> bool {
    forall|i: int| 0 <= i < s.len() ==> is_digit(s[i])
}

/// The value of a digit string, most significant digit first. Meaningful
/// only when [`all_digits`] holds of `s`.
pub open spec fn dec_val(s: Seq<char>) -> int
    decreases s.len(),
{
    if s.len() == 0 {
        0
    } else {
        dec_val(s.drop_last()) * 10 + (s.last() as u32 - '0' as u32)
    }
}

/// The digit part of a decimal-integer literal: everything after one
/// optional leading plus sign.
pub open spec fn digits_part(s: Seq<char>) -> Seq<char> {
    if s.len() > 0 && s[0] == '+' {
        s.subrange(1, s.len() as int)
    } else {
        s
    }
}

/// What parsing `s` as an unsigned machine integer yields: the value of
/// its digit part when that part is non-empty, all digits, and in range;
/// nothing otherwise.
pub open spec fn spec_parse_usize(s: Seq<char>) -> Option<usize> {
    let d = digits_part(s);
    if d.len() > 0 && all_digits(d) && dec_val(d) <= usize::MAX {
        Some(dec_val(d) as usize)
    } else {
        None
    }
}

/// The value of a digit string is never negative.
proof fn lemma_dec_val_nonneg(s: Seq<char>)
    requires
        all_digits(s),
    ensures
        dec_val(s) >= 0,
    decreases s.len(),
{
    if s.len() > 0 {
        assert(all_digits(s.drop_last()));
        lemma_dec_val_nonneg(s.drop_last());
    }
}

/// A digit string is worth at least any of its prefixes.
proof fn lemma_dec_val_take_le(s: Seq<char>, k: int)
    requires
        all_digits(s),
        0 <= k <= s.len(),
    ensures
        dec_val(s.take(k)) <= dec_val(s),
    decreases s.len() - k,
{
    if k == s.len() {
        assert(s.take(k) =~= s);
    } else {
        let t = s.take(k + 1);
        assert(t.drop_last() =~= s.take(k));
        assert(all_digits(s.take(k)));
        lemma_dec_val_nonneg(s.take(k));
        assert(dec_val(t) == dec_val(s.take(k)) * 10 + (s[k] as u32 - '0' as u32));
        lemma_dec_val_take_le(s, k + 1);
    }
}

/// Parses `s` as an unsigned decimal integer, exactly as
/// [`spec_parse_usize`] says: one optional leading `+`, then at least one
/// digit and nothing else, with a value that fits the result type.
pub fn parse_usize(s: &str) -> (r: Option<usize>)
    ensures
        r == spec_parse_usize(s@),
{
    let len = s.unicode_len();
    if len == 0 {
        return None;
    }
    let first = s.get_char(0);
    let start: usize = if first as u32 == '+' as u32 {
        1
    } else {
        0
    };
    let ghost d = digits_part(s@);
    proof {
        assert(first == s@[0]);
        assert(s@.subrange(0, len as int) =~= s@);
        assert(d =~= s@.subrange(start as int, len as int));
    }
    if start == len {
        proof {
            assert(d.len() == 0);
        }
        return None;
    }
    let mut acc: usize = 0;
    let mut i: usize = start;
    proof {
        assert(s@.subrange(start as int, start as int) =~= Seq::<char>::empty());
    }
    while i < len
        invariant
            start <= i <= len,
            start < len,
            len == s@.len(),
            d == digits_part(s@),
            d == s@.subrange(start as int, len as int),
            all_digits(s@.subrange(start as int, i as int)),
            acc == dec_val(s@.subrange(start as int, i as int)),
        decreases len - i,
    {
        let c = s.get_char(i);
        let v = c as u32;
        let ghost pre = s@.subrange(start as int, i as int);
        let ghost cur = s@.subrange(start as int, i + 1 as int);
        proof {
            assert(cur.drop_last() =~= pre);
            assert(cur.last() == s@[i as int]);
        }
        if v < '0' as u32 || v > '9' as u32 {
            proof {
                assert(!is_digit(d[i - start]));
            }
            return None;
        }
        let dv = v - '0' as u32;
        let next: u128 = acc as u128 * 10 + dv as u128;
        if next > usize::MAX as u128 {
            proof {
                if all_digits(d) {
                    assert(all_digits(cur));
                    assert(dec_val(cur) == acc * 10 + dv);
                    assert(cur =~= d.take(i + 1 - start));
                    lemma_dec_val_take_le(d, i + 1 - start);
                }
            }
            return None;
        }
        acc = next as usize;
        i = i + 1;
    }
    proof {
        assert(s@.subrange(start as int, i as int) =~= d);
    }
    Some(acc)
}

} // verus!
