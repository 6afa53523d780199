//! ASCII case folding on single bytes.
//!
//! Only the ASCII letters `A`..`Z` and `a`..`z` are related by folding; every
//! other byte, in particular every byte of a multi-byte UTF-8 sequence, is
//! compared literally.

use vstd::prelude::*;

verus! {

/// The common case both sides are folded to: ASCII upper-case letters are
/// mapped to their lower-case forms, all other bytes are unchanged.
pub open spec fn ascii_fold(b: u8) -> u8 {
    if 0x41 <= b <= 0x5a {
        (b + 0x20) as u8
    } else {
        b
    }
}

/// The ASCII upper-case form of a byte, as `u8::to_ascii_uppercase` gives it.
pub open spec fn ascii_upper(b: u8) -> u8 {
    if 0x61 <= b <= 0x7a {
        (b - 0x20) as u8
    } else {
        b
    }
}

/// The ASCII lower-case form of a byte, as `u8::to_ascii_lowercase` gives it.
pub open spec fn ascii_lower(b: u8) -> u8 {
    if 0x41 <= b <= 0x5a {
        (b + 0x20) as u8
    } else {
        b
    }
}

/// A byte folds equal to `c` exactly when it is the upper- or lower-case form
/// of `c`.  This justifies scanning for the two case variants of an anchor
/// byte: no other byte can take part in a case-insensitive occurrence there.
pub proof fn lemma_fold_cases(c: u8, x: u8)
    ensures
        ascii_fold(x) == ascii_fold(c) <==> (x == ascii_upper(c) || x == ascii_lower(c)),
{
}

pub(crate) fn to_ascii_upper(b: u8) -> (r: u8)
    ensures
        r == ascii_upper(b),
{
    if b >= 0x61 && b <= 0x7a {
        b - 0x20
    } else {
        b
    }
}

pub(crate) fn to_ascii_lower(b: u8) -> (r: u8)
    ensures
        r == ascii_lower(b),
{
    if b >= 0x41 && b <= 0x5a {
        b + 0x20
    } else {
        b
    }
}

/// Byte-for-byte comparison of two equal-length slices after ASCII case
/// folding, the verification step of the case-insensitive search.
pub(crate) fn eq_ignore_case(a: &[u8], b: &[u8]) -> (r: bool)
    requires
        a@.len() == b@.len(),
    ensures
        r <==> (forall|j: int| 0 <= j < a@.len() ==> ascii_fold(a@[j]) == ascii_fold(b@[j])),
{
    let len = a.len();
    let mut k: usize = 0;
    while k < len
        invariant
            len == a@.len() == b@.len(),
            0 <= k <= len,
            forall|j: int| 0 <= j < k ==> ascii_fold(a@[j]) == ascii_fold(b@[j]),
        decreases len - k,
    {
        let x = a[k];
        let y = b[k];
        let fx = if x >= 0x41 && x <= 0x5a {
            x + 0x20
        } else {
            x
        };
        let fy = if y >= 0x41 && y <= 0x5a {
            y + 0x20
        } else {
            y
        };
        if fx != fy {
            return false;
        }
        k = k + 1;
    }
    true
}

} // verus!
