//! Occurrences and UTF-8 character boundaries.
//!
//! The engine reports byte offsets.  When both haystack and needle are valid
//! UTF-8 — as they are for every `&str` — an occurrence of a non-empty needle
//! can only begin on a character boundary, and the matched window then ends
//! on a character boundary as well.  This holds in both comparison modes:
//! ASCII case folding maps letters to letters and leaves every other byte
//! alone, so each byte of the window has the same UTF-8 byte class (leading
//! byte of some width, or continuation byte) as the corresponding needle
//! byte, and the window parses into complete characters exactly as the
//! needle does.  This is what lets the string-typed surface hand out `&str`
//! windows of the haystack.

use vstd::prelude::*;

verus! {

use vstd::utf8::{valid_utf8, is_char_boundary, valid_first_scalar, length_of_first_scalar,
    pop_first_scalar, valid_utf8_split, is_char_boundary_start_end_of_seq,
    is_char_boundary_iff_not_is_continuation_byte, encode_utf8_valid_utf8, is_continuation_byte,
    is_leading_byte_width_1, is_leading_byte_width_2, is_leading_byte_width_3,
    is_leading_byte_width_4};
use vstd::string::StringSliceAdditionalSpecFns;
use crate::model::{occurs_at, bytes_eq};
use crate::ascii::ascii_fold;

/// Two bytes play the same role in a UTF-8 encoding: both are continuation
/// bytes, or both are leading bytes of the same width.
pub open spec fn same_utf8_class(a: u8, b: u8) -> bool {
    &&& is_continuation_byte(a) == is_continuation_byte(b)
    &&& is_leading_byte_width_1(a) == is_leading_byte_width_1(b)
    &&& is_leading_byte_width_2(a) == is_leading_byte_width_2(b)
    &&& is_leading_byte_width_3(a) == is_leading_byte_width_3(b)
    &&& is_leading_byte_width_4(a) == is_leading_byte_width_4(b)
}

/// Bytes that fold equal have the same UTF-8 byte class: folding only maps
/// ASCII letters to ASCII letters, and every ASCII byte is a width-1 leading
/// byte.
pub proof fn lemma_fold_same_class(a: u8, b: u8)
    requires
        ascii_fold(a) == ascii_fold(b),
    ensures
        same_utf8_class(a, b),
{
}

/// Bytes compared equal by the engine have the same UTF-8 byte class, in
/// either comparison mode.
pub proof fn lemma_bytes_eq_same_class(ci: bool, a: u8, b: u8)
    requires
        bytes_eq(ci, a, b),
    ensures
        same_utf8_class(a, b),
{
}

/// If a valid UTF-8 sequence starts with bytes that are classwise identical
/// to some valid UTF-8 sequence `n`, then position `n.len()` is a character
/// boundary: the characters parse with the same widths as `n`'s characters,
/// which fill `n` exactly.
proof fn lemma_classwise_prefix_is_boundary(s: Seq<u8>, n: Seq<u8>)
    requires
        valid_utf8(s),
        valid_utf8(n),
        n.len() <= s.len(),
        forall|p: int| 0 <= p < n.len() ==> same_utf8_class(s[p], n[p]),
    ensures
        is_char_boundary(s, n.len() as int),
    decreases n.len(),
{
    if n.len() > 0 {
        assert(valid_first_scalar(s));
        assert(valid_first_scalar(n));
        assert(same_utf8_class(s[0], n[0]));
        let w = length_of_first_scalar(s);
        assert(length_of_first_scalar(n) == w);
        assert(1 <= w <= n.len());
        let s2 = pop_first_scalar(s);
        let n2 = pop_first_scalar(n);
        assert forall|p: int| 0 <= p < n2.len() implies same_utf8_class(s2[p], n2[p]) by {
            assert(s2[p] == s[w + p]);
            assert(n2[p] == n[w + p]);
        }
        lemma_classwise_prefix_is_boundary(s2, n2);
        assert(is_char_boundary(s, n.len() as int));
    }
}

/// An occurrence of a non-empty valid-UTF-8 needle starts on a character
/// boundary of a valid-UTF-8 haystack: the haystack byte there has the class
/// of the needle's first byte, which is a leading byte.
pub proof fn lemma_occurrence_starts_on_char_boundary(ci: bool, h: Seq<u8>, n: Seq<u8>, st: int)
    requires
        valid_utf8(h),
        valid_utf8(n),
        n.len() > 0,
        occurs_at(ci, h, n, st),
    ensures
        is_char_boundary(h, st),
{
    assert(bytes_eq(ci, h[st + 0], n[0]));
    lemma_bytes_eq_same_class(ci, h[st + 0], n[0]);
    assert(valid_first_scalar(n));
    is_char_boundary_iff_not_is_continuation_byte(h, st);
}

/// An occurrence window that starts on a character boundary also ends on
/// one: from that boundary the haystack parses into characters of the same
/// widths as the needle's characters.
pub proof fn lemma_occurrence_ends_on_char_boundary(ci: bool, h: Seq<u8>, n: Seq<u8>, st: int)
    requires
        valid_utf8(h),
        valid_utf8(n),
        occurs_at(ci, h, n, st),
        is_char_boundary(h, st),
    ensures
        is_char_boundary(h, st + n.len()),
{
    let hl = h.len() as int;
    let ed = st + n.len() as int;
    let suffix = h.subrange(st, hl);
    valid_utf8_split(h, st);
    assert forall|p: int| 0 <= p < n.len() implies same_utf8_class(suffix[p], n[p]) by {
        assert(suffix[p] == h[st + p]);
        assert(bytes_eq(ci, h[st + p], n[p]));
        lemma_bytes_eq_same_class(ci, h[st + p], n[p]);
    }
    lemma_classwise_prefix_is_boundary(suffix, n);
    if ed == hl {
        is_char_boundary_start_end_of_seq(h);
    } else {
        is_char_boundary_iff_not_is_continuation_byte(suffix, n.len() as int);
        is_char_boundary_iff_not_is_continuation_byte(h, ed);
        assert(suffix[n.len() as int] == h[ed]);
    }
}

/// A character boundary of the whole sequence is a character boundary of the
/// suffix split off at another boundary.
proof fn lemma_boundary_in_suffix(h: Seq<u8>, st: int, ed: int)
    requires
        valid_utf8(h),
        0 <= st <= ed <= h.len(),
        is_char_boundary(h, st),
        is_char_boundary(h, ed),
    ensures
        is_char_boundary(h.subrange(st, h.len() as int), ed - st),
{
    let suffix = h.subrange(st, h.len() as int);
    valid_utf8_split(h, st);
    if ed == h.len() {
        is_char_boundary_start_end_of_seq(suffix);
    } else {
        is_char_boundary_iff_not_is_continuation_byte(h, ed);
        assert(suffix[ed - st] == h[ed]);
        is_char_boundary_iff_not_is_continuation_byte(suffix, ed - st);
    }
}

/// The sub-`str` of `haystack` between the byte offsets `st` and `ed`, both
/// of which must be character boundaries.
pub(crate) fn str_window<'a>(haystack: &'a str, st: usize, ed: usize) -> (r: &'a str)
    requires
        st <= ed,
        ed <= haystack.spec_bytes().len(),
        is_char_boundary(haystack.spec_bytes(), st as int),
        is_char_boundary(haystack.spec_bytes(), ed as int),
    ensures
        r.spec_bytes() == haystack.spec_bytes().subrange(st as int, ed as int),
{
    let hb = Ghost(haystack.spec_bytes());
    proof {
        encode_utf8_valid_utf8(haystack@);
        lemma_boundary_in_suffix(hb@, st as int, ed as int);
    }
    let (_, tail) = haystack.split_at(st);
    proof {
        assert(tail.spec_bytes() == hb@.subrange(st as int, hb@.len() as int));
    }
    let (win, _) = tail.split_at(ed - st);
    proof {
        assert(win.spec_bytes() =~= hb@.subrange(st as int, ed as int));
    }
    win
}

} // verus!
