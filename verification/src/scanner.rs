//! The byte scanner: single-byte and double-byte position primitives and the
//! window comparison, provided by the `memx` crate and trusted against its
//! documented behaviour.  Everything built on top of these is verified.

use vstd::prelude::*;

verus! {

/// Relies on `memx::memchr`: the position of the first occurrence of `by1` in
/// `buf`, as `buf.iter().position(|&x| x == by1)`.
#[verifier::external_body]
pub(crate) fn memchr_pos(buf: &[u8], by1: u8) -> (r: Option<usize>)
    ensures
        match r {
            Some(i) => i < buf@.len() && buf@[i as int] == by1 && (forall|k: int|
                0 <= k < i as int ==> buf@[k] != by1),
            None => forall|k: int| 0 <= k < buf@.len() ==> buf@[k] != by1,
        },
{
    memx::memchr(buf, by1)
}

/// Relies on `memx::memrchr`: the position of the last occurrence of `by1` in
/// `buf`, as `buf.iter().rposition(|&x| x == by1)`.
#[verifier::external_body]
pub(crate) fn memrchr_pos(buf: &[u8], by1: u8) -> (r: Option<usize>)
    ensures
        match r {
            Some(i) => i < buf@.len() && buf@[i as int] == by1 && (forall|k: int|
                (i as int) < k < buf@.len() ==> buf@[k] != by1),
            None => forall|k: int| 0 <= k < buf@.len() ==> buf@[k] != by1,
        },
{
    memx::memrchr(buf, by1)
}

/// Relies on `memx::memchr_dbl`: the position of the first byte equal to
/// `by1` or `by2`, as `buf.iter().position(|&x| x == by1 || x == by2)`.
#[verifier::external_body]
pub(crate) fn memchr_dbl_pos(buf: &[u8], by1: u8, by2: u8) -> (r: Option<usize>)
    ensures
        match r {
            Some(i) => i < buf@.len() && (buf@[i as int] == by1 || buf@[i as int] == by2) && (
            forall|k: int| 0 <= k < i as int ==> buf@[k] != by1 && buf@[k] != by2),
            None => forall|k: int| 0 <= k < buf@.len() ==> buf@[k] != by1 && buf@[k] != by2,
        },
{
    memx::memchr_dbl(buf, by1, by2)
}

/// Relies on `memx::memrchr_dbl`: the position of the last byte equal to
/// `by1` or `by2`, as `buf.iter().rposition(|&x| x == by1 || x == by2)`.
#[verifier::external_body]
pub(crate) fn memrchr_dbl_pos(buf: &[u8], by1: u8, by2: u8) -> (r: Option<usize>)
    ensures
        match r {
            Some(i) => i < buf@.len() && (buf@[i as int] == by1 || buf@[i as int] == by2) && (
            forall|k: int| (i as int) < k < buf@.len() ==> buf@[k] != by1 && buf@[k] != by2),
            None => forall|k: int| 0 <= k < buf@.len() ==> buf@[k] != by1 && buf@[k] != by2,
        },
{
    memx::memrchr_dbl(buf, by1, by2)
}

/// Relies on `memx::memeq`: byte-for-byte equality of the two slices, as
/// `a == b` (false whenever the lengths differ).
#[verifier::external_body]
pub(crate) fn memeq(a: &[u8], b: &[u8]) -> (r: bool)
    ensures
        r <==> a@ == b@,
{
    memx::memeq(a, b)
}

} // verus!
