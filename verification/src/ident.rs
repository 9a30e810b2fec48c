//! Identifiers: the names that a bound may refer to.

use vstd::prelude::*;
use vstd::std_specs::iter::IteratorSpec;

verus! {

/// Whether `c` has the Unicode property XID_Start, as `unicode_ident` tells it.
pub uninterp spec fn xid_start(c: char) -> bool;

/// Whether `c` has the Unicode property XID_Continue, as `unicode_ident` tells it.
pub uninterp spec fn xid_continue(c: char) -> bool;

/// Whether `s` can stand as an identifier: it is not empty, begins with an
/// underscore or an XID_Start character, and goes on with XID_Continue
/// characters only.
pub open spec fn is_identifier(s: Seq<char>) -> bool {
    &&& s.len() > 0
    &&& s[0] == '_' || xid_start(s[0])
    &&& forall|i: int| 1 <= i < s.len() ==> xid_continue(#[trigger] s[i])
}

/// Calls `unicode_ident::is_xid_start`, a lookup in the crate's tables of the
/// Unicode property XID_Start. The result is taken on trust to be that
/// property of `c`; nothing more is claimed of it.
#[verifier::external_body]
fn is_xid_start(c: char) -> (r: bool)
    ensures
        r == xid_start(c),
{
    unicode_ident::is_xid_start(c)
}

/// Calls `unicode_ident::is_xid_continue`, a lookup in the crate's tables of
/// the Unicode property XID_Continue. The result is taken on trust to be that
/// property of `c`; nothing more is claimed of it.
#[verifier::external_body]
fn is_xid_continue(c: char) -> (r: bool)
    ensures
        r == xid_continue(c),
{
    unicode_ident::is_xid_continue(c)
}

/// Whether `s` can stand as an identifier.
pub fn is_ident(s: &str) -> (r: bool)
    ensures
        r == is_identifier(s@),
{
    broadcast use {vstd::string::axiom_spec_iter, vstd::string::next_postcondition};

    let mut it = s.chars();
    match it.next() {
        None => {
            return false;
        },
        Some(c) => {
            if !(c == '_' || is_xid_start(c)) {
                return false;
            }
        },
    }
    let ghost mut k: int = 1;
    loop
        invariant
            1 <= k <= s@.len(),
            it.remaining() == s@.skip(k),
            s@[0] == '_' || xid_start(s@[0]),
            forall|i: int| 1 <= i < k ==> xid_continue(#[trigger] s@[i]),
        decreases s@.len() - k,
    {
        match it.next() {
            None => {
                return true;
            },
            Some(c) => {
                if !is_xid_continue(c) {
                    return false;
                }
                proof {
                    k = k + 1;
                }
            },
        }
    }
}

} // verus!
