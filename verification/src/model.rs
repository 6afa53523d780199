//! The mathematical model of substring search over byte sequences.
//!
//! A needle occurrence is described by [`occurs_at`]; the result of a
//! single-shot search is pinned down by [`is_first_occurrence`] (forward
//! search) and [`is_last_occurrence`] (backward search).  Comparison is
//! either exact or ASCII-case-insensitive, selected by the `ci` flag; see
//! [`bytes_eq`].

use vstd::prelude::*;

verus! {

use crate::ascii::ascii_fold;

/// Byte comparison used by the engine: exact equality, or equality after
/// folding ASCII letters to lower case when `ci` is set.  Bytes outside the
/// ASCII letter ranges are never folded.
pub open spec fn bytes_eq(ci: bool, a: u8, b: u8) -> bool {
    if ci {
        ascii_fold(a) == ascii_fold(b)
    } else {
        a == b
    }
}

/// The needle `n` occurs in haystack `h` at byte offset `i`: the window
/// `h[i .. i + n.len()]` lies inside `h` and agrees with `n` byte for byte
/// under the selected comparison.  The empty needle occurs at every offset
/// `0 <= i <= h.len()`.
pub open spec fn occurs_at(ci: bool, h: Seq<u8>, n: Seq<u8>, i: int) -> bool {
    &&& 0 <= i
    &&& i + n.len() <= h.len()
    &&& forall|j: int| 0 <= j < n.len() ==> bytes_eq(ci, h[i + j], n[j])
}

/// `r` is the result of a forward single-shot search: `Some(i)` exactly when
/// `i` is the least offset at which the needle occurs, `None` exactly when it
/// occurs nowhere.
pub open spec fn is_first_occurrence(ci: bool, h: Seq<u8>, n: Seq<u8>, r: Option<usize>) -> bool {
    match r {
        Some(i) => occurs_at(ci, h, n, i as int) && (forall|j: int|
            0 <= j < i as int ==> !occurs_at(ci, h, n, j)),
        None => forall|j: int| !occurs_at(ci, h, n, j),
    }
}

/// `r` is the result of a backward single-shot search: `Some(i)` exactly when
/// `i` is the greatest offset at which the needle occurs, `None` exactly when
/// it occurs nowhere.
pub open spec fn is_last_occurrence(ci: bool, h: Seq<u8>, n: Seq<u8>, r: Option<usize>) -> bool {
    match r {
        Some(i) => occurs_at(ci, h, n, i as int) && (forall|j: int|
            (i as int) < j ==> !occurs_at(ci, h, n, j)),
        None => forall|j: int| !occurs_at(ci, h, n, j),
    }
}

/// An occurrence reproduces the needle: slicing the haystack at the reported
/// offset gives back exactly the needle (exact comparison mode).
pub proof fn lemma_occurrence_window(h: Seq<u8>, n: Seq<u8>, i: int)
    requires
        occurs_at(false, h, n, i),
    ensures
        h.subrange(i, i + n.len()) == n,
{
    assert(h.subrange(i, i + n.len()) =~= n);
}

/// The converse: a window equal to the needle is an occurrence.
pub proof fn lemma_window_occurrence(h: Seq<u8>, n: Seq<u8>, i: int)
    requires
        0 <= i,
        i + n.len() <= h.len(),
        h.subrange(i, i + n.len()) == n,
    ensures
        occurs_at(false, h, n, i),
{
    assert forall|j: int| 0 <= j < n.len() implies bytes_eq(false, h[i + j], n[j]) by {
        assert(h.subrange(i, i + n.len())[j] == h[i + j]);
    }
}

/// An occurrence inside a window of the haystack is an occurrence in the
/// haystack shifted by the window's start, and conversely whenever the
/// window contains the whole occurrence.
pub proof fn lemma_window_shift(ci: bool, h: Seq<u8>, n: Seq<u8>, a: int, b: int, j: int)
    requires
        0 <= a <= b <= h.len(),
        a <= j,
        j + n.len() <= b,
    ensures
        occurs_at(ci, h, n, j) <==> occurs_at(ci, h.subrange(a, b), n, j - a),
{
    let w = h.subrange(a, b);
    if occurs_at(ci, h, n, j) {
        assert forall|k: int| 0 <= k < n.len() implies bytes_eq(ci, w[j - a + k], n[k]) by {
            assert(w[j - a + k] == h[j + k]);
            assert(bytes_eq(ci, h[j + k], n[k]));
        }
    }
    if occurs_at(ci, w, n, j - a) {
        assert forall|k: int| 0 <= k < n.len() implies bytes_eq(ci, h[j + k], n[k]) by {
            assert(w[j - a + k] == h[j + k]);
            assert(bytes_eq(ci, w[j - a + k], n[k]));
        }
    }
}

/// The same needle occurs somewhere in one haystack exactly when it occurs
/// somewhere in an equal haystack; this moves the occurrence witness across
/// two spellings of the same byte sequence.
pub proof fn lemma_exists_occurrence_congruence(ci: bool, h1: Seq<u8>, h2: Seq<u8>, n: Seq<u8>)
    requires
        h1 == h2,
    ensures
        (exists|i: int| occurs_at(ci, h1, n, i)) <==> (exists|i: int| occurs_at(ci, h2, n, i)),
{
    if exists|i: int| occurs_at(ci, h1, n, i) {
        let i = choose|i: int| occurs_at(ci, h1, n, i);
        assert(occurs_at(ci, h2, n, i));
    }
    if exists|i: int| occurs_at(ci, h2, n, i) {
        let i = choose|i: int| occurs_at(ci, h2, n, i);
        assert(occurs_at(ci, h1, n, i));
    }
}

/// At most one result satisfies the forward search contract, so the contract
/// determines the function completely.
pub proof fn lemma_first_occurrence_unique(
    ci: bool,
    h: Seq<u8>,
    n: Seq<u8>,
    r1: Option<usize>,
    r2: Option<usize>,
)
    requires
        is_first_occurrence(ci, h, n, r1),
        is_first_occurrence(ci, h, n, r2),
    ensures
        r1 == r2,
{
}

/// At most one result satisfies the backward search contract.
pub proof fn lemma_last_occurrence_unique(
    ci: bool,
    h: Seq<u8>,
    n: Seq<u8>,
    r1: Option<usize>,
    r2: Option<usize>,
)
    requires
        is_last_occurrence(ci, h, n, r1),
        is_last_occurrence(ci, h, n, r2),
    ensures
        r1 == r2,
{
}

/// The empty-needle convention: on every haystack, a forward search owes
/// `Some(0)` and a backward search owes `Some(h.len())`, in both comparison
/// modes.  Together with the uniqueness lemmas this pins the searches on the
/// empty needle.
pub proof fn lemma_empty_needle(ci: bool, h: Seq<u8>)
    requires
        h.len() <= usize::MAX,
    ensures
        is_first_occurrence(ci, h, Seq::<u8>::empty(), Some(0usize)),
        is_last_occurrence(ci, h, Seq::<u8>::empty(), Some(h.len() as usize)),
{
}

/// An oversized needle occurs nowhere: both searches owe `None`.
pub proof fn lemma_oversized_needle(ci: bool, h: Seq<u8>, n: Seq<u8>)
    requires
        n.len() > h.len(),
    ensures
        is_first_occurrence(ci, h, n, None::<usize>),
        is_last_occurrence(ci, h, n, None::<usize>),
{
}

/// When the needle occurs at exactly one offset, forward and backward search
/// agree on it.
pub proof fn lemma_unique_occurrence_agreement(
    ci: bool,
    h: Seq<u8>,
    n: Seq<u8>,
    s: usize,
    r1: Option<usize>,
    r2: Option<usize>,
)
    requires
        occurs_at(ci, h, n, s as int),
        forall|j: int| j != s as int ==> !occurs_at(ci, h, n, j),
        is_first_occurrence(ci, h, n, r1),
        is_last_occurrence(ci, h, n, r2),
    ensures
        r1 == Some(s),
        r2 == Some(s),
{
    if r1 is None {
        assert(!occurs_at(ci, h, n, s as int));
    }
    if r2 is None {
        assert(!occurs_at(ci, h, n, s as int));
    }
}

} // verus!
