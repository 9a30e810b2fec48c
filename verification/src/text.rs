//! Comparing pieces of text, and trimming them.

use vstd::prelude::*;
use vstd::std_specs::iter::IteratorSpec;
use vstd::string::*;
use vstd::utf8::*;

verus! {

/// Whether two pieces of text are the same characters in the same order.
pub fn str_eq(a: &str, b: &str) -> (r: bool)
    ensures
        r == (a@ == b@),
{
    let x = a.as_bytes();
    let y = b.as_bytes();
    if x.len() != y.len() {
        return false;
    }
    let n = x.len();
    let mut i: usize = 0;
    while i < n
        invariant
            x@ == a.spec_bytes(),
            y@ == b.spec_bytes(),
            n == x@.len(),
            n == y@.len(),
            i <= n,
            forall|j: int| 0 <= j < i ==> x@[j] == y@[j],
        decreases n - i,
    {
        if x[i] != y[i] {
            return false;
        }
        i = i + 1;
    }
    proof {
        assert(x@ =~= y@);
        encode_utf8_decode_utf8(a@);
        encode_utf8_decode_utf8(b@);
    }
    true
}

/// Whether `c` has the Unicode property White_Space: the controls from
/// tab to carriage return, the space, next line, the no-break space, the
/// ogham space mark, the spaces from en quad to hair space, the line and
/// paragraph separators, the narrow no-break space, the medium
/// mathematical space and the ideographic space.
pub open spec fn white_space(c: char) -> bool {
    ||| '\u{9}' <= c && c <= '\u{d}'
    ||| c == '\u{20}'
    ||| c == '\u{85}'
    ||| c == '\u{a0}'
    ||| c == '\u{1680}'
    ||| '\u{2000}' <= c && c <= '\u{200a}'
    ||| c == '\u{2028}'
    ||| c == '\u{2029}'
    ||| c == '\u{202f}'
    ||| c == '\u{205f}'
    ||| c == '\u{3000}'
}

/// Whether `c` has the Unicode property White_Space.
pub fn is_white_space(c: char) -> (r: bool)
    ensures
        r == white_space(c),
{
    (c >= '\u{9}' && c <= '\u{d}') || c == '\u{20}' || c == '\u{85}' || c == '\u{a0}' || c
        == '\u{1680}' || (c >= '\u{2000}' && c <= '\u{200a}') || c == '\u{2028}' || c
        == '\u{2029}' || c == '\u{202f}' || c == '\u{205f}' || c == '\u{3000}'
}

/// How many characters of white space `text` begins with.
pub open spec fn leading_space(text: Seq<char>) -> nat
    decreases text.len(),
{
    if text.len() > 0 && white_space(text[0]) {
        1 + leading_space(text.drop_first())
    } else {
        0
    }
}

/// How many characters of white space `text` ends with.
pub open spec fn trailing_space(text: Seq<char>) -> nat
    decreases text.len(),
{
    if text.len() > 0 && white_space(text.last()) {
        1 + trailing_space(text.drop_last())
    } else {
        0
    }
}

/// `text` without the white space at its two ends.
pub open spec fn trimmed(text: Seq<char>) -> Seq<char> {
    if leading_space(text) == text.len() {
        Seq::empty()
    } else {
        text.subrange(leading_space(text) as int, text.len() - trailing_space(text))
    }
}

/// A text that is white space up to a character that is none begins with
/// that much white space.
pub proof fn lemma_leading_space(text: Seq<char>, first: int)
    requires
        0 <= first <= text.len(),
        forall|i: int| 0 <= i < first ==> white_space(#[trigger] text[i]),
        first < text.len() ==> !white_space(text[first]),
    ensures
        leading_space(text) == first,
    decreases first,
{
    if first > 0 {
        let rest = text.drop_first();
        lemma_leading_space(rest, first - 1);
    }
}

/// A text that is white space from behind a character that is none ends
/// with that much white space.
pub proof fn lemma_trailing_space(text: Seq<char>, end: int)
    requires
        0 <= end <= text.len(),
        forall|i: int| end <= i < text.len() ==> white_space(#[trigger] text[i]),
        end > 0 ==> !white_space(text[end - 1]),
    ensures
        trailing_space(text) == text.len() - end,
    decreases text.len() - end,
{
    if end < text.len() {
        let rest = text.drop_last();
        lemma_trailing_space(rest, end);
    }
}

/// Takes the white space off both ends of a text.
pub fn trim(text: &str) -> (r: &str)
    ensures
        r@ == trimmed(text@),
{
    broadcast use {vstd::string::axiom_spec_iter, vstd::string::next_postcondition};

    let n = text.unicode_len();
    let mut it = text.chars();
    let mut first: usize = 0;
    let mut end: usize = 0;
    let mut seen = false;
    let mut k: usize = 0;
    while k < n
        invariant
            n == text@.len(),
            k <= n,
            it.remaining() == text@.skip(k as int),
            !seen ==> forall|i: int| 0 <= i < k ==> white_space(#[trigger] text@[i]),
            seen ==> first < end <= k && !white_space(text@[first as int]) && !white_space(
                text@[end - 1],
            ),
            seen ==> forall|i: int| 0 <= i < first ==> white_space(#[trigger] text@[i]),
            seen ==> forall|i: int| end <= i < k ==> white_space(#[trigger] text@[i]),
        decreases n - k,
    {
        if let Some(c) = it.next() {
            if !is_white_space(c) {
                if !seen {
                    first = k;
                    seen = true;
                }
                end = k + 1;
            }
        }
        k = k + 1;
    }
    if !seen {
        proof {
            lemma_leading_space(text@, n as int);
        }
        let r = text.substring_char(0, 0);
        r
    } else {
        proof {
            lemma_leading_space(text@, first as int);
            lemma_trailing_space(text@, end as int);
        }
        text.substring_char(first, end)
    }
}

} // verus!
