//! Decimal integer literals, read from text.

use vstd::prelude::*;
use vstd::string::*;

verus! {

/// Whether `c` is one of the ten ASCII digits.
pub open spec fn is_digit(c: char) -> bool {
    '0' <= c <= '9'
}

/// The number a digit stands for.
pub open spec fn digit_value(c: char) -> nat {
    (c as int - '0' as int) as nat
}

/// Whether `s` is a non-empty run of ASCII digits.
pub open spec fn is_decimal(s: Seq<char>) -> bool {
    s.len() > 0 && forall|i: int| 0 <= i < s.len() ==> is_digit(#[trigger] s[i])
}

/// The number that the digits of `s` denote in base ten; the empty run denotes zero.
pub open spec fn digits_value(s: Seq<char>) -> nat
    decreases s.len(),
{
    if s.len() == 0 {
        0
    } else {
        digits_value(s.drop_last()) * 10 + digit_value(s.last())
    }
}

/// What `s` denotes as an unsigned decimal no greater than `limit`.
pub open spec fn unsigned_decimal(s: Seq<char>, limit: nat) -> Option<nat> {
    if is_decimal(s) && digits_value(s) <= limit {
        Some(digits_value(s))
    } else {
        None
    }
}

/// What `s` denotes as a decimal with an optional leading minus sign.
pub open spec fn signed_decimal(s: Seq<char>) -> Option<int> {
    if s.len() > 0 && s[0] == '-' {
        if is_decimal(s.drop_first()) {
            Some(-(digits_value(s.drop_first()) as int))
        } else {
            None
        }
    } else if is_decimal(s) {
        Some(digits_value(s) as int)
    } else {
        None
    }
}

/// What `s` denotes as a signed decimal within `min ..= max`.
pub open spec fn bounded_decimal(s: Seq<char>, min: int, max: int) -> Option<int> {
    match signed_decimal(s) {
        Some(v) => if min <= v <= max {
            Some(v)
        } else {
            None
        },
        None => None,
    }
}

/// A longer run of digits never denotes less than one of its prefixes.
pub proof fn lemma_digits_value_prefix(s: Seq<char>, k: int)
    requires
        0 <= k <= s.len(),
    ensures
        digits_value(s.take(k)) <= digits_value(s),
    decreases s.len(),
{
    if k == s.len() {
        assert(s.take(k) =~= s);
    } else {
        lemma_digits_value_prefix(s.drop_last(), k);
        assert(s.drop_last().take(k) =~= s.take(k));
    }
}

/// Reads the digits of `bytes` from `start` on, where the bytes are the
/// characters of `s` one for one.
fn read_digits(s: &str, bytes: &[u8], start: usize, limit: u64) -> (r: Option<u64>)
    requires
        is_ascii(s),
        bytes@ == s.spec_bytes(),
        start <= s@.len(),
    ensures
        r matches Some(v) ==> unsigned_decimal(s@.skip(start as int), limit as nat) == Some(
            v as nat,
        ),
        r is None ==> unsigned_decimal(s@.skip(start as int), limit as nat) is None,
{
    broadcast use is_ascii_spec_bytes;

    let n = bytes.len();
    let ghost tail = s@.skip(start as int);
    if start >= n {
        return None;
    }
    let mut acc: u128 = 0;
    let mut i: usize = start;
    while i < n
        invariant
            is_ascii(s),
            bytes@ == s.spec_bytes(),
            n == bytes.len(),
            n == s@.len(),
            start < n,
            start <= i <= n,
            tail == s@.skip(start as int),
            acc <= limit,
            acc == digits_value(tail.take(i - start)),
            forall|j: int| 0 <= j < i - start ==> is_digit(#[trigger] tail[j]),
        decreases n - i,
    {
        let b = bytes[i];
        let ghost c = s@[i as int];
        assert(c == tail[i - start]);
        if b < 48 || b > 57 {
            return None;
        }
        let d: u128 = (b - 48) as u128;
        let next: u128 = acc * 10 + d;
        proof {
            let p = tail.take(i - start + 1);
            assert(p.drop_last() =~= tail.take(i - start));
            lemma_digits_value_prefix(tail, i - start + 1);
        }
        if next > limit as u128 {
            return None;
        }
        acc = next;
        i = i + 1;
    }
    assert(tail.take(i - start) =~= tail);
    Some(acc as u64)
}

/// Reads `s` as an unsigned decimal no greater than `limit`.
pub fn parse_unsigned(s: &str, limit: u64) -> (r: Option<u64>)
    ensures
        r matches Some(v) ==> unsigned_decimal(s@, limit as nat) == Some(v as nat),
        r is None ==> unsigned_decimal(s@, limit as nat) is None,
{
    if !s.is_ascii() {
        return None;
    }
    let bytes = s.as_bytes();
    assert(s@.skip(0) =~= s@);
    read_digits(s, bytes, 0, limit)
}

/// Reads `s` as a decimal with an optional leading minus sign, within
/// `min ..= max`.
pub fn parse_signed(s: &str, min: i64, max: i64) -> (r: Option<i64>)
    ensures
        r matches Some(v) ==> bounded_decimal(s@, min as int, max as int) == Some(v as int),
        r is None ==> bounded_decimal(s@, min as int, max as int) is None,
{
    broadcast use is_ascii_spec_bytes;

    if !s.is_ascii() {
        proof {
            let rest = s@.drop_first();
            if s@.len() > 0 && s@[0] == '-' && is_decimal(rest) {
                let j = choose|j: int|
                    0 <= j < s@.len() && !('\0' <= #[trigger] s@[j] <= '\u{7f}');
                assert(rest[j - 1] == s@[j]);
            }
        }
        return None;
    }
    let bytes = s.as_bytes();
    if bytes.len() > 0 && bytes[0] == 45 {
        if min > 0 {
            return None;
        }
        let limit: u64 = (-(min as i128)) as u64;
        match read_digits(s, bytes, 1, limit) {
            Some(m) => {
                let v: i128 = -(m as i128);
                if v > max as i128 {
                    None
                } else {
                    Some(v as i64)
                }
            },
            None => None,
        }
    } else {
        assert(s@.skip(0) =~= s@);
        if max < 0 {
            return None;
        }
        match read_digits(s, bytes, 0, max as u64) {
            Some(m) => {
                if (m as i128) < min as i128 {
                    None
                } else {
                    Some(m as i64)
                }
            },
            None => None,
        }
    }
}

/// The character of a digit.
pub open spec fn digit_char(d: nat) -> char {
    if d == 0 {
        '0'
    } else if d == 1 {
        '1'
    } else if d == 2 {
        '2'
    } else if d == 3 {
        '3'
    } else if d == 4 {
        '4'
    } else if d == 5 {
        '5'
    } else if d == 6 {
        '6'
    } else if d == 7 {
        '7'
    } else if d == 8 {
        '8'
    } else {
        '9'
    }
}

/// The digits of `n` in base ten, without leading zeros; zero is `0`.
pub open spec fn decimal_text(n: nat) -> Seq<char>
    decreases n,
{
    if n < 10 {
        seq![digit_char(n)]
    } else {
        decimal_text(n / 10).push(digit_char(n % 10))
    }
}

/// The text of an integer in base ten, with a minus sign where it is negative.
pub open spec fn signed_text(v: int) -> Seq<char> {
    if v < 0 {
        seq!['-'] + decimal_text((-v) as nat)
    } else {
        decimal_text(v as nat)
    }
}

/// The digits written for a number are read back as that number.
pub proof fn lemma_decimal_text_value(n: nat)
    ensures
        is_decimal(decimal_text(n)),
        digits_value(decimal_text(n)) == n,
    decreases n,
{
    if n < 10 {
        let s = decimal_text(n);
        assert(digits_value(s.drop_last()) == 0);
    } else {
        lemma_decimal_text_value(n / 10);
        let s = decimal_text(n);
        assert(s.drop_last() =~= decimal_text(n / 10));
    }
}

/// The text written for an integer is read back as that integer.
pub proof fn lemma_signed_text_value(v: int)
    ensures
        signed_decimal(signed_text(v)) == Some(v),
{
    if v < 0 {
        let m = (-v) as nat;
        lemma_decimal_text_value(m);
        assert(signed_text(v).drop_first() =~= decimal_text(m));
    } else {
        lemma_decimal_text_value(v as nat);
    }
}

/// The text of one digit.
fn digit_str(d: u64) -> (r: &'static str)
    requires
        d < 10,
    ensures
        r@ == seq![digit_char(d as nat)],
{
    proof {
        reveal_strlit("0");
        reveal_strlit("1");
        reveal_strlit("2");
        reveal_strlit("3");
        reveal_strlit("4");
        reveal_strlit("5");
        reveal_strlit("6");
        reveal_strlit("7");
        reveal_strlit("8");
        reveal_strlit("9");
    }
    let r = if d == 0 {
        "0"
    } else if d == 1 {
        "1"
    } else if d == 2 {
        "2"
    } else if d == 3 {
        "3"
    } else if d == 4 {
        "4"
    } else if d == 5 {
        "5"
    } else if d == 6 {
        "6"
    } else if d == 7 {
        "7"
    } else if d == 8 {
        "8"
    } else {
        "9"
    };
    r
}

/// Writes `v` in base ten.
pub fn format_unsigned(v: u64) -> (r: String)
    ensures
        r@ == decimal_text(v as nat),
    decreases v,
{
    if v < 10 {
        String::from_str(digit_str(v))
    } else {
        let mut out = format_unsigned(v / 10);
        out.append(digit_str(v % 10));
        out
    }
}

/// Writes `v` in base ten, with a minus sign where it is negative.
pub fn format_signed(v: i64) -> (r: String)
    ensures
        r@ == signed_text(v as int),
{
    if v < 0 {
        let magnitude: u64 = (-(v as i128)) as u64;
        let mut out = String::from_str("-");
        proof {
            reveal_strlit("-");
        }
        let digits = format_unsigned(magnitude);
        out.append(digits.as_str());
        out
    } else {
        format_unsigned(v as u64)
    }
}

} // verus!
