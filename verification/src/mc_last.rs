//! Single-shot search anchored on the needle's last byte: the scanner walks
//! the haystack tail region for that byte; a hit at position `p` implies a
//! candidate window starting at `p - (needle.len() - 1)`.

use vstd::prelude::*;

verus! {

use vstd::slice::slice_subrange;
use crate::model::{occurs_at, bytes_eq, is_first_occurrence, is_last_occurrence};
use crate::model::{lemma_occurrence_window, lemma_window_occurrence};
use crate::scanner::{memchr_pos, memrchr_pos, memchr_dbl_pos, memrchr_dbl_pos, memeq};
use crate::ascii::{ascii_fold, ascii_upper, ascii_lower, lemma_fold_cases, to_ascii_upper,
    to_ascii_lower, eq_ignore_case};

pub(crate) fn naive_opt_mc_last_bytes(hay_bytes: &[u8], nee_bytes: &[u8]) -> (r: Option<usize>)
    ensures
        is_first_occurrence(false, hay_bytes@, nee_bytes@, r),
{
    let hay_len = hay_bytes.len();
    let nee_len = nee_bytes.len();
    if nee_len == 0 {
        return Some(0);
    }
    if hay_len < nee_len {
        return None;
    }
    let last_idx = nee_len - 1;
    let byte_last = nee_bytes[last_idx];
    let mut base: usize = last_idx;
    loop
        invariant
            hay_len == hay_bytes@.len(),
            nee_len == nee_bytes@.len(),
            0 < nee_len <= hay_len,
            last_idx == nee_len - 1,
            byte_last == nee_bytes@[last_idx as int],
            last_idx <= base <= hay_len,
            forall|j: int|
                0 <= j < base as int - last_idx as int ==> !occurs_at(
                    false,
                    hay_bytes@,
                    nee_bytes@,
                    j,
                ),
        decreases hay_len - base,
    {
        let window = slice_subrange(hay_bytes, base, hay_len);
        match memchr_pos(window, byte_last) {
            None => {
                proof {
                    assert forall|j: int| !occurs_at(false, hay_bytes@, nee_bytes@, j) by {
                        if base as int - last_idx as int <= j && occurs_at(
                            false,
                            hay_bytes@,
                            nee_bytes@,
                            j,
                        ) {
                            assert(bytes_eq(
                                false,
                                hay_bytes@[j + last_idx as int],
                                nee_bytes@[last_idx as int],
                            ));
                            assert(window@[j + last_idx as int - base as int] == hay_bytes@[j
                                + last_idx as int]);
                        }
                    }
                }
                return None;
            },
            Some(m) => {
                let apos = base + m;
                let st = apos - last_idx;
                let ed = st + nee_len;
                if memeq(nee_bytes, slice_subrange(hay_bytes, st, ed)) {
                    proof {
                        lemma_window_occurrence(hay_bytes@, nee_bytes@, st as int);
                        assert forall|j: int| 0 <= j < st as int implies !occurs_at(
                            false,
                            hay_bytes@,
                            nee_bytes@,
                            j,
                        ) by {
                            if base as int - last_idx as int <= j && occurs_at(
                                false,
                                hay_bytes@,
                                nee_bytes@,
                                j,
                            ) {
                                assert(bytes_eq(
                                    false,
                                    hay_bytes@[j + last_idx as int],
                                    nee_bytes@[last_idx as int],
                                ));
                                assert(window@[j + last_idx as int - base as int] == hay_bytes@[j
                                    + last_idx as int]);
                            }
                        }
                    }
                    return Some(st);
                }
                proof {
                    assert forall|j: int| 0 <= j < st as int + 1 implies !occurs_at(
                        false,
                        hay_bytes@,
                        nee_bytes@,
                        j,
                    ) by {
                        if base as int - last_idx as int <= j < st as int && occurs_at(
                            false,
                            hay_bytes@,
                            nee_bytes@,
                            j,
                        ) {
                            assert(bytes_eq(
                                false,
                                hay_bytes@[j + last_idx as int],
                                nee_bytes@[last_idx as int],
                            ));
                            assert(window@[j + last_idx as int - base as int] == hay_bytes@[j
                                + last_idx as int]);
                        }
                        if j == st as int && occurs_at(false, hay_bytes@, nee_bytes@, j) {
                            lemma_occurrence_window(hay_bytes@, nee_bytes@, j);
                        }
                    }
                }
                base = apos + 1;
            },
        }
    }
}

pub(crate) fn naive_opt_mc_last_rev_bytes(hay_bytes: &[u8], nee_bytes: &[u8]) -> (r: Option<usize>)
    ensures
        is_last_occurrence(false, hay_bytes@, nee_bytes@, r),
{
    let hay_len = hay_bytes.len();
    let nee_len = nee_bytes.len();
    if nee_len == 0 {
        return Some(hay_len);
    }
    if hay_len < nee_len {
        return None;
    }
    let last_idx = nee_len - 1;
    let byte_last = nee_bytes[last_idx];
    let mut top: usize = hay_len;
    loop
        invariant
            hay_len == hay_bytes@.len(),
            nee_len == nee_bytes@.len(),
            0 < nee_len <= hay_len,
            last_idx == nee_len - 1,
            byte_last == nee_bytes@[last_idx as int],
            last_idx <= top <= hay_len,
            forall|j: int|
                top as int - last_idx as int <= j ==> !occurs_at(false, hay_bytes@, nee_bytes@, j),
        decreases top,
    {
        let window = slice_subrange(hay_bytes, last_idx, top);
        match memrchr_pos(window, byte_last) {
            None => {
                proof {
                    assert forall|j: int| !occurs_at(false, hay_bytes@, nee_bytes@, j) by {
                        if 0 <= j < top as int - last_idx as int && occurs_at(
                            false,
                            hay_bytes@,
                            nee_bytes@,
                            j,
                        ) {
                            assert(bytes_eq(
                                false,
                                hay_bytes@[j + last_idx as int],
                                nee_bytes@[last_idx as int],
                            ));
                            assert(window@[j] == hay_bytes@[j + last_idx as int]);
                        }
                    }
                }
                return None;
            },
            Some(m) => {
                let apos = last_idx + m;
                let st = m;
                let ed = st + nee_len;
                if memeq(nee_bytes, slice_subrange(hay_bytes, st, ed)) {
                    proof {
                        lemma_window_occurrence(hay_bytes@, nee_bytes@, st as int);
                        assert forall|j: int| (st as int) < j implies !occurs_at(
                            false,
                            hay_bytes@,
                            nee_bytes@,
                            j,
                        ) by {
                            if j < top as int - last_idx as int && occurs_at(
                                false,
                                hay_bytes@,
                                nee_bytes@,
                                j,
                            ) {
                                assert(bytes_eq(
                                    false,
                                    hay_bytes@[j + last_idx as int],
                                    nee_bytes@[last_idx as int],
                                ));
                                assert(window@[j] == hay_bytes@[j + last_idx as int]);
                            }
                        }
                    }
                    return Some(st);
                }
                proof {
                    assert forall|j: int| st as int <= j implies !occurs_at(
                        false,
                        hay_bytes@,
                        nee_bytes@,
                        j,
                    ) by {
                        if (st as int) < j < top as int - last_idx as int && occurs_at(
                            false,
                            hay_bytes@,
                            nee_bytes@,
                            j,
                        ) {
                            assert(bytes_eq(
                                false,
                                hay_bytes@[j + last_idx as int],
                                nee_bytes@[last_idx as int],
                            ));
                            assert(window@[j] == hay_bytes@[j + last_idx as int]);
                        }
                        if j == st as int && occurs_at(false, hay_bytes@, nee_bytes@, j) {
                            lemma_occurrence_window(hay_bytes@, nee_bytes@, j);
                        }
                    }
                }
                top = apos;
            },
        }
    }
}

pub(crate) fn naive_opt_mc_last_bytes_iac(hay_bytes: &[u8], nee_bytes: &[u8]) -> (r: Option<usize>)
    ensures
        is_first_occurrence(true, hay_bytes@, nee_bytes@, r),
{
    let hay_len = hay_bytes.len();
    let nee_len = nee_bytes.len();
    if nee_len == 0 {
        return Some(0);
    }
    if hay_len < nee_len {
        return None;
    }
    let last_idx = nee_len - 1;
    let byte_last = nee_bytes[last_idx];
    let byte_last_uc = to_ascii_upper(byte_last);
    let byte_last_lc = to_ascii_lower(byte_last);
    let mut base: usize = last_idx;
    loop
        invariant
            hay_len == hay_bytes@.len(),
            nee_len == nee_bytes@.len(),
            0 < nee_len <= hay_len,
            last_idx == nee_len - 1,
            byte_last == nee_bytes@[last_idx as int],
            byte_last_uc == ascii_upper(byte_last),
            byte_last_lc == ascii_lower(byte_last),
            last_idx <= base <= hay_len,
            forall|j: int|
                0 <= j < base as int - last_idx as int ==> !occurs_at(
                    true,
                    hay_bytes@,
                    nee_bytes@,
                    j,
                ),
        decreases hay_len - base,
    {
        let window = slice_subrange(hay_bytes, base, hay_len);
        match memchr_dbl_pos(window, byte_last_uc, byte_last_lc) {
            None => {
                proof {
                    assert forall|j: int| !occurs_at(true, hay_bytes@, nee_bytes@, j) by {
                        if base as int - last_idx as int <= j && occurs_at(
                            true,
                            hay_bytes@,
                            nee_bytes@,
                            j,
                        ) {
                            assert(bytes_eq(
                                true,
                                hay_bytes@[j + last_idx as int],
                                nee_bytes@[last_idx as int],
                            ));
                            lemma_fold_cases(byte_last, hay_bytes@[j + last_idx as int]);
                            assert(window@[j + last_idx as int - base as int] == hay_bytes@[j
                                + last_idx as int]);
                        }
                    }
                }
                return None;
            },
            Some(m) => {
                let apos = base + m;
                let st = apos - last_idx;
                let ed = st + nee_len;
                if eq_ignore_case(nee_bytes, slice_subrange(hay_bytes, st, ed)) {
                    proof {
                        assert forall|jj: int| 0 <= jj < nee_len as int implies bytes_eq(
                            true,
                            hay_bytes@[st as int + jj],
                            nee_bytes@[jj],
                        ) by {
                            assert(hay_bytes@.subrange(st as int, ed as int)[jj] == hay_bytes@[
                                st as int + jj]);
                        }
                        assert forall|j: int| 0 <= j < st as int implies !occurs_at(
                            true,
                            hay_bytes@,
                            nee_bytes@,
                            j,
                        ) by {
                            if base as int - last_idx as int <= j && occurs_at(
                                true,
                                hay_bytes@,
                                nee_bytes@,
                                j,
                            ) {
                                assert(bytes_eq(
                                    true,
                                    hay_bytes@[j + last_idx as int],
                                    nee_bytes@[last_idx as int],
                                ));
                                lemma_fold_cases(byte_last, hay_bytes@[j + last_idx as int]);
                                assert(window@[j + last_idx as int - base as int] == hay_bytes@[j
                                    + last_idx as int]);
                            }
                        }
                    }
                    return Some(st);
                }
                proof {
                    assert forall|j: int| 0 <= j < st as int + 1 implies !occurs_at(
                        true,
                        hay_bytes@,
                        nee_bytes@,
                        j,
                    ) by {
                        if base as int - last_idx as int <= j < st as int && occurs_at(
                            true,
                            hay_bytes@,
                            nee_bytes@,
                            j,
                        ) {
                            assert(bytes_eq(
                                true,
                                hay_bytes@[j + last_idx as int],
                                nee_bytes@[last_idx as int],
                            ));
                            lemma_fold_cases(byte_last, hay_bytes@[j + last_idx as int]);
                            assert(window@[j + last_idx as int - base as int] == hay_bytes@[j
                                + last_idx as int]);
                        }
                        if j == st as int && occurs_at(true, hay_bytes@, nee_bytes@, j) {
                            assert forall|jj: int| 0 <= jj < nee_len as int implies ascii_fold(
                                nee_bytes@[jj],
                            ) == ascii_fold(hay_bytes@.subrange(st as int, ed as int)[jj]) by {
                                assert(hay_bytes@.subrange(st as int, ed as int)[jj] == hay_bytes@[
                                    st as int + jj]);
                                assert(bytes_eq(true, hay_bytes@[st as int + jj], nee_bytes@[jj]));
                            }
                        }
                    }
                }
                base = apos + 1;
            },
        }
    }
}

pub(crate) fn naive_opt_mc_last_rev_bytes_iac(hay_bytes: &[u8], nee_bytes: &[u8]) -> (r: Option<
    usize,
>)
    ensures
        is_last_occurrence(true, hay_bytes@, nee_bytes@, r),
{
    let hay_len = hay_bytes.len();
    let nee_len = nee_bytes.len();
    if nee_len == 0 {
        return Some(hay_len);
    }
    if hay_len < nee_len {
        return None;
    }
    let last_idx = nee_len - 1;
    let byte_last = nee_bytes[last_idx];
    let byte_last_uc = to_ascii_upper(byte_last);
    let byte_last_lc = to_ascii_lower(byte_last);
    let mut top: usize = hay_len;
    loop
        invariant
            hay_len == hay_bytes@.len(),
            nee_len == nee_bytes@.len(),
            0 < nee_len <= hay_len,
            last_idx == nee_len - 1,
            byte_last == nee_bytes@[last_idx as int],
            byte_last_uc == ascii_upper(byte_last),
            byte_last_lc == ascii_lower(byte_last),
            last_idx <= top <= hay_len,
            forall|j: int|
                top as int - last_idx as int <= j ==> !occurs_at(true, hay_bytes@, nee_bytes@, j),
        decreases top,
    {
        let window = slice_subrange(hay_bytes, last_idx, top);
        match memrchr_dbl_pos(window, byte_last_uc, byte_last_lc) {
            None => {
                proof {
                    assert forall|j: int| !occurs_at(true, hay_bytes@, nee_bytes@, j) by {
                        if 0 <= j < top as int - last_idx as int && occurs_at(
                            true,
                            hay_bytes@,
                            nee_bytes@,
                            j,
                        ) {
                            assert(bytes_eq(
                                true,
                                hay_bytes@[j + last_idx as int],
                                nee_bytes@[last_idx as int],
                            ));
                            lemma_fold_cases(byte_last, hay_bytes@[j + last_idx as int]);
                            assert(window@[j] == hay_bytes@[j + last_idx as int]);
                        }
                    }
                }
                return None;
            },
            Some(m) => {
                let apos = last_idx + m;
                let st = m;
                let ed = st + nee_len;
                if eq_ignore_case(nee_bytes, slice_subrange(hay_bytes, st, ed)) {
                    proof {
                        assert forall|jj: int| 0 <= jj < nee_len as int implies bytes_eq(
                            true,
                            hay_bytes@[st as int + jj],
                            nee_bytes@[jj],
                        ) by {
                            assert(hay_bytes@.subrange(st as int, ed as int)[jj] == hay_bytes@[
                                st as int + jj]);
                        }
                        assert forall|j: int| (st as int) < j implies !occurs_at(
                            true,
                            hay_bytes@,
                            nee_bytes@,
                            j,
                        ) by {
                            if j < top as int - last_idx as int && occurs_at(
                                true,
                                hay_bytes@,
                                nee_bytes@,
                                j,
                            ) {
                                assert(bytes_eq(
                                    true,
                                    hay_bytes@[j + last_idx as int],
                                    nee_bytes@[last_idx as int],
                                ));
                                lemma_fold_cases(byte_last, hay_bytes@[j + last_idx as int]);
                                assert(window@[j] == hay_bytes@[j + last_idx as int]);
                            }
                        }
                    }
                    return Some(st);
                }
                proof {
                    assert forall|j: int| st as int <= j implies !occurs_at(
                        true,
                        hay_bytes@,
                        nee_bytes@,
                        j,
                    ) by {
                        if (st as int) < j < top as int - last_idx as int && occurs_at(
                            true,
                            hay_bytes@,
                            nee_bytes@,
                            j,
                        ) {
                            assert(bytes_eq(
                                true,
                                hay_bytes@[j + last_idx as int],
                                nee_bytes@[last_idx as int],
                            ));
                            lemma_fold_cases(byte_last, hay_bytes@[j + last_idx as int]);
                            assert(window@[j] == hay_bytes@[j + last_idx as int]);
                        }
                        if j == st as int && occurs_at(true, hay_bytes@, nee_bytes@, j) {
                            assert forall|jj: int| 0 <= jj < nee_len as int implies ascii_fold(
                                nee_bytes@[jj],
                            ) == ascii_fold(hay_bytes@.subrange(st as int, ed as int)[jj]) by {
                                assert(hay_bytes@.subrange(st as int, ed as int)[jj] == hay_bytes@[
                                    st as int + jj]);
                                assert(bytes_eq(true, hay_bytes@[st as int + jj], nee_bytes@[jj]));
                            }
                        }
                    }
                }
                top = apos;
            },
        }
    }
}

} // verus!
