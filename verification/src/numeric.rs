//! Verified numeric helpers: parsing unsigned decimal integers from input
//! fields, and rendering identifiers and fixed-point amounts for the output.

use vstd::prelude::*;
use vstd::string::StrSliceExecFns;
use vstd::string::StringExecFns;

verus! {

/// Whether `c` is an ASCII decimal digit.
pub open spec fn is_digit(c: char) -> bool {
    '0' <= c && c <= '9'
}

/// Numeric value of a digit character.
pub open spec fn digit_val(c: char) -> int {
    c as int - '0' as int
}

/// Whether `s` is one or more decimal digits.
pub open spec fn all_digits(s: Seq<char>) -> bool {
    s.len() > 0 && forall|i: int| 0 <= i < s.len() ==> is_digit(s[i])
}

/// Value of a digit string, most significant digit first.
pub open spec fn digits_value(s: Seq<char>) -> int
    decreases s.len(),
{
    if s.len() == 0 {
        0
    } else {
        digits_value(s.drop_last()) * 10 + digit_val(s.last())
    }
}

/// The value of every prefix of a digit string is bounded by the whole.
proof fn lemma_digits_value_take_le(s: Seq<char>, j: int)
    requires
        0 <= j <= s.len(),
        forall|i: int| 0 <= i < s.len() ==> is_digit(s[i]),
    ensures
        0 <= digits_value(s.take(j)) <= digits_value(s),
    decreases s.len(),
{
    if s.len() == 0 {
    } else if j == s.len() {
        assert(s.take(j) =~= s);
        lemma_digits_value_take_le(s.drop_last(), s.len() - 1);
        assert(s.drop_last() =~= s.take(s.len() - 1));
    } else {
        lemma_digits_value_take_le(s.drop_last(), j);
        assert(s.drop_last().take(j) =~= s.take(j));
        assert(digits_value(s.drop_last()) * 10 + digit_val(s.last()) >= digits_value(
            s.drop_last(),
        ));
    }
}

/// What `str::parse` yields for an unsigned integer type with maximum value
/// `max`: an optional single leading `+` or `-` sign followed by one or more
/// decimal digits; a `-` sign is only accepted for a zero value; values above
/// `max` overflow.
pub open spec fn parse_uint(s: Seq<char>, max: int) -> Option<int> {
    let digits = if s.len() > 0 && (s[0] == '+' || s[0] == '-') {
        s.drop_first()
    } else {
        s
    };
    if !all_digits(digits) {
        None
    } else {
        let v = digits_value(digits);
        if s.len() > 0 && s[0] == '-' {
            if v == 0 {
                Some(0)
            } else {
                None
            }
        } else if v > max {
            None
        } else {
            Some(v)
        }
    }
}

/// Parses an unsigned decimal integer as `str::parse` does, for any maximum
/// value up to `u32::MAX`.
pub fn parse_uint_u32(s: &str, max: u32) -> (r: Option<u32>)
    ensures
        match r {
            Some(v) => parse_uint(s@, max as int) == Some(v as int),
            None => parse_uint(s@, max as int) is None,
        },
{
    let n = s.unicode_len();
    let mut start: usize = 0;
    if n > 0 {
        let c0 = s.get_char(0);
        if c0 == '+' || c0 == '-' {
            start = 1;
        }
    }
    let ghost digits = if start == 1 {
        s@.drop_first()
    } else {
        s@
    };
    if n == start {
        // no digits at all
        return None;
    }
    let negative = start == 1 && s.get_char(0) == '-';
    let mut acc: u64 = 0;
    let mut i: usize = start;
    while i < n
        invariant
            start <= i <= n == s@.len(),
            start == 0 || start == 1,
            (start == 1) <==> (s@.len() > 0 && (s@[0] == '+' || s@[0] == '-')),
            negative <==> (start == 1 && s@[0] == '-'),
            digits == (if start == 1 {
                s@.drop_first()
            } else {
                s@
            }),
            forall|j: int| 0 <= j < i - start ==> is_digit(digits[j]),
            acc == digits_value(digits.take(i - start)),
            acc <= max,
            max <= u32::MAX,
        decreases n - i,
    {
        let c = s.get_char(i);
        if !(c >= '0' && c <= '9') {
            proof {
                assert(digits[i - start] == c);
                assert(!all_digits(digits));
            }
            return None;
        }
        let d: u64 = (c as u32 - '0' as u32) as u64;
        let next: u64 = acc * 10 + d;
        proof {
            assert(digits.take(i + 1 - start).drop_last() =~= digits.take(i - start));
            assert(digits.take(i + 1 - start).last() == digits[i - start]);
        }
        if next > max as u64 {
            proof {
                assert(digits[i - start] == c);
                assert(digits_value(digits.take(i + 1 - start)) > max);
                if all_digits(digits) {
                    lemma_digits_value_take_le(digits, i + 1 - start);
                }
            }
            return None;
        }
        acc = next;
        i += 1;
    }
    proof {
        assert(digits.take(n - start) =~= digits);
        assert(all_digits(digits));
    }
    if negative {
        if acc == 0 {
            Some(0)
        } else {
            None
        }
    } else {
        Some(acc as u32)
    }
}

/// The digit character for a value between zero and nine.
pub open spec fn digit_char(d: int) -> char {
    if d == 0 {
        '0'
    } else if d == 1 {
        '1'
    } else if d == 2 {
        '2'
    } else if d == 3 {
        '3'
    } else if d == 4 {
        '4'
    } else if d == 5 {
        '5'
    } else if d == 6 {
        '6'
    } else if d == 7 {
        '7'
    } else if d == 8 {
        '8'
    } else {
        '9'
    }
}

/// Decimal digits of a non-negative value, most significant first.
pub open spec fn digits_of(n: int) -> Seq<char>
    decreases n,
{
    if n < 10 {
        seq![digit_char(n)]
    } else {
        digits_of(n / 10).push(digit_char(n % 10))
    }
}

/// The one-character string for a digit value.
fn digit_str(d: u8) -> (s: &'static str)
    requires
        d < 10,
    ensures
        s@ =~= seq![digit_char(d as int)],
{
    let s: &'static str = match d {
        0 => "0",
        1 => "1",
        2 => "2",
        3 => "3",
        4 => "4",
        5 => "5",
        6 => "6",
        7 => "7",
        8 => "8",
        _ => "9",
    };
    proof {
        reveal_strlit("0");
        reveal_strlit("1");
        reveal_strlit("2");
        reveal_strlit("3");
        reveal_strlit("4");
        reveal_strlit("5");
        reveal_strlit("6");
        reveal_strlit("7");
        reveal_strlit("8");
        reveal_strlit("9");
    }
    s
}

/// Appends the decimal digits of `n` to `out`.
pub fn push_digits(n: u128, out: &mut String)
    ensures
        final(out)@ == old(out)@ + digits_of(n as int),
    decreases n,
{
    if n < 10 {
        out.append(digit_str(n as u8));
        proof {
            assert(final(out)@ =~= old(out)@ + digits_of(n as int));
        }
    } else {
        push_digits(n / 10, out);
        out.append(digit_str((n % 10) as u8));
        proof {
            assert(final(out)@ =~= old(out)@ + digits_of(n as int));
        }
    }
}

/// The last four decimal digits of a non-negative value, zero padded.
pub open spec fn frac4_of(f: int) -> Seq<char> {
    seq![
        digit_char(f / 1000 % 10),
        digit_char(f / 100 % 10),
        digit_char(f / 10 % 10),
        digit_char(f % 10),
    ]
}

/// A fixed-point amount in ten-thousandths, rendered with exactly four
/// fractional digits, as the original decimal values print.
pub open spec fn money4_of(v: int) -> Seq<char> {
    let a = if v < 0 {
        -v
    } else {
        v
    };
    let sign: Seq<char> = if v < 0 {
        seq!['-']
    } else {
        Seq::empty()
    };
    sign + digits_of(a / 10000) + seq!['.'] + frac4_of(a % 10000)
}

/// Appends a fixed-point amount (in ten-thousandths) to `out` with exactly
/// four fractional digits.
#[verifier::rlimit(30)]
pub fn push_money4(v: i128, out: &mut String)
    ensures
        final(out)@ == old(out)@ + money4_of(v as int),
{
    let a: u128 = if v < 0 {
        out.append("-");
        ((-(v + 1)) as u128) + 1
    } else {
        v as u128
    };
    proof {
        reveal_strlit("-");
        assert(a as int == (if v < 0 {
            -(v as int)
        } else {
            v as int
        }));
    }
    let whole = a / 10000;
    let frac = a % 10000;
    push_digits(whole, out);
    out.append(".");
    out.append(digit_str((frac / 1000 % 10) as u8));
    out.append(digit_str((frac / 100 % 10) as u8));
    out.append(digit_str((frac / 10 % 10) as u8));
    out.append(digit_str((frac % 10) as u8));
    proof {
        reveal_strlit(".");
        assert(final(out)@ =~= old(out)@ + money4_of(v as int));
    }
}

} // verus!
