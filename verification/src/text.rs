//! String utilities: character-level equality, decimal parsing and
//! formatting, and truncation for display.

use vstd::prelude::*;
use vstd::string::StrSliceExecFns;
use vstd::string::StringExecFns;

verus! {

/// A decimal digit character.
pub open spec fn is_dec_digit(c: char) -> bool {
    48 <= c as u32 <= 57
}

/// Numeric value of a decimal digit character.
pub open spec fn digit_value(c: char) -> int {
    c as u32 - 48
}

/// Every character of the sequence is a decimal digit.
pub open spec fn all_dec_digits(s: Seq<char>) -> bool {
    forall|i: int| 0 <= i < s.len() ==> is_dec_digit(#[trigger] s[i])
}

/// The number denoted by a sequence of decimal digits, most significant
/// first. Characters that are not digits contribute zero.
pub open spec fn dec_value(s: Seq<char>) -> nat
    decreases s.len(),
{
    if s.len() == 0 {
        0
    } else {
        (dec_value(s.drop_last()) * 10 + if is_dec_digit(s.last()) {
            digit_value(s.last())
        } else {
            0
        }) as nat
    }
}

/// What `parse_u32` returns: the digits after an optional leading `+`,
/// when they are nonempty, all decimal, and denote a value that fits in
/// a `u32`; otherwise nothing.
pub open spec fn spec_parse_u32(s: Seq<char>) -> Option<u32> {
    let digits = if s.len() > 0 && s[0] == '+' {
        s.subrange(1, s.len() as int)
    } else {
        s
    };
    if digits.len() > 0 && all_dec_digits(digits) && dec_value(digits) <= u32::MAX {
        Some(dec_value(digits) as u32)
    } else {
        None
    }
}

/// Extending a digit sequence on the right never lowers its value.
proof fn lemma_dec_value_prefix(s: Seq<char>, i: int, j: int, k: int)
    requires
        0 <= i <= j <= k <= s.len(),
    ensures
        dec_value(s.subrange(i, j)) <= dec_value(s.subrange(i, k)),
    decreases k - j,
{
    if j < k {
        lemma_dec_value_prefix(s, i, j, k - 1);
        let a = s.subrange(i, k - 1);
        let b = s.subrange(i, k);
        assert(b.drop_last() =~= a);
        assert(dec_value(b) >= dec_value(a) * 10);
        assert(dec_value(a) * 10 >= dec_value(a)) by {
            assert(dec_value(a) >= 0);
        }
    } else {
        assert(s.subrange(i, j) =~= s.subrange(i, k));
    }
}

/// Parses a decimal integer with an optional leading `+`, as the standard
/// string-to-`u32` conversion does: no sign other than `+`, no spaces, and
/// the value must fit.
pub fn parse_u32(s: &str) -> (r: Option<u32>)
    ensures
        r == spec_parse_u32(s@),
{
    let len = s.unicode_len();
    let start: usize = if len > 0 && s.get_char(0) == '+' {
        1
    } else {
        0
    };
    let ghost digits = if s@.len() > 0 && s@[0] == '+' {
        s@.subrange(1, s@.len() as int)
    } else {
        s@
    };
    proof {
        if start == 0 {
            assert(digits =~= s@.subrange(0, s@.len() as int));
        }
    }
    if start >= len {
        return None;
    }
    let mut acc: u64 = 0;
    let mut j: usize = start;
    while j < len
        invariant
            start <= j <= len,
            len == s@.len(),
            start == 0 || start == 1,
            start <= s@.len(),
            (start == 1) == (s@.len() > 0 && s@[0] == '+'),
            digits =~= s@.subrange(start as int, s@.len() as int),
            digits == (if s@.len() > 0 && s@[0] == '+' {
                s@.subrange(1, s@.len() as int)
            } else {
                s@
            }),
            all_dec_digits(s@.subrange(start as int, j as int)),
            acc as nat == dec_value(s@.subrange(start as int, j as int)),
            acc <= u32::MAX,
        decreases len - j,
    {
        let c = s.get_char(j);
        let cv = c as u32;
        if cv < 48 || cv > 57 {
            proof {
                let di = j - start;
                assert(digits.len() == s@.len() - start);
                assert(digits[di] == s@[j as int]);
                assert(!is_dec_digit(digits[di]));
                assert(!all_dec_digits(digits));
            }
            return None;
        }
        let step: u64 = acc * 10 + (cv - 48) as u64;
        proof {
            assert(s@.subrange(start as int, j + 1).drop_last() =~= s@.subrange(
                start as int,
                j as int,
            ));
            assert(s@.subrange(start as int, j + 1).last() == s@[j as int]);
        }
        if step > u32::MAX as u64 {
            proof {
                assert(is_dec_digit(s@[j as int]));
                assert(dec_value(s@.subrange(start as int, j + 1)) == acc as nat * 10
                    + digit_value(s@[j as int]));
                assert(step as nat == dec_value(s@.subrange(start as int, j + 1)));
                lemma_dec_value_prefix(s@, start as int, j + 1, s@.len() as int);
                assert(s@.subrange(start as int, s@.len() as int) =~= digits);
                assert(dec_value(digits) > u32::MAX);
            }
            return None;
        }
        acc = step;
        j += 1;
    }
    proof {
        assert(s@.subrange(start as int, j as int) =~= digits);
        assert(digits.len() > 0);
    }
    Some(acc as u32)
}

/// Character-by-character equality of two string slices.
pub fn str_eq(a: &str, b: &str) -> (r: bool)
    ensures
        r == (a@ == b@),
{
    let alen = a.unicode_len();
    let blen = b.unicode_len();
    if alen != blen {
        return false;
    }
    let mut i: usize = 0;
    while i < alen
        invariant
            i <= alen,
            alen == a@.len(),
            alen == b@.len(),
            forall|j: int| 0 <= j < i ==> a@[j] == b@[j],
        decreases alen - i,
    {
        if a.get_char(i) != b.get_char(i) {
            return false;
        }
        i += 1;
    }
    proof {
        assert(a@ =~= b@);
    }
    true
}

/// The digit character for a value below ten.
pub open spec fn dec_digit_char(d: int) -> char {
    if d == 0 {
        '0'
    } else if d == 1 {
        '1'
    } else if d == 2 {
        '2'
    } else if d == 3 {
        '3'
    } else if d == 4 {
        '4'
    } else if d == 5 {
        '5'
    } else if d == 6 {
        '6'
    } else if d == 7 {
        '7'
    } else if d == 8 {
        '8'
    } else {
        '9'
    }
}

/// The decimal rendering of a number, most significant digit first.
pub open spec fn spec_dec_str(n: nat) -> Seq<char>
    decreases n,
{
    if n < 10 {
        seq![dec_digit_char(n as int)]
    } else {
        spec_dec_str(n / 10).push(dec_digit_char((n % 10) as int))
    }
}

fn digit_str(d: u64) -> (r: &'static str)
    requires
        d < 10,
    ensures
        r@ =~= seq![dec_digit_char(d as int)],
{
    proof {
        reveal_strlit("0");
        reveal_strlit("1");
        reveal_strlit("2");
        reveal_strlit("3");
        reveal_strlit("4");
        reveal_strlit("5");
        reveal_strlit("6");
        reveal_strlit("7");
        reveal_strlit("8");
        reveal_strlit("9");
    }
    if d == 0 {
        "0"
    } else if d == 1 {
        "1"
    } else if d == 2 {
        "2"
    } else if d == 3 {
        "3"
    } else if d == 4 {
        "4"
    } else if d == 5 {
        "5"
    } else if d == 6 {
        "6"
    } else if d == 7 {
        "7"
    } else if d == 8 {
        "8"
    } else {
        "9"
    }
}

/// Renders a number in decimal.
pub fn u64_to_dec_string(n: u64) -> (r: String)
    ensures
        r@ == spec_dec_str(n as nat),
    decreases n,
{
    if n < 10 {
        digit_str(n).to_owned()
    } else {
        let mut s = u64_to_dec_string(n / 10);
        s.append(digit_str(n % 10));
        proof {
            assert(spec_dec_str((n / 10) as nat) + seq![dec_digit_char((n % 10) as int)]
                =~= spec_dec_str((n / 10) as nat).push(dec_digit_char((n % 10) as int)));
        }
        s
    }
}

/// Shortens a string for display: a string longer than `max_len`
/// characters is cut and given a three-dot ellipsis so that the result is
/// exactly `max_len` characters long.
pub fn truncate_string(s: &str, max_len: usize) -> (r: String)
    requires
        max_len >= 3,
    ensures
        s@.len() <= max_len ==> r@ == s@,
        s@.len() > max_len ==> r@ == s@.subrange(0, max_len - 3) + "..."@,
{
    let len = s.unicode_len();
    if len <= max_len {
        s.to_owned()
    } else {
        let mut t = s.substring_char(0, max_len - 3).to_owned();
        t.append("...");
        t
    }
}

} // verus!
