//! Single-shot search anchored on the needle's first byte: the scanner walks
//! the haystack for that byte and each hit is verified as a full window.

use vstd::prelude::*;

verus! {

use vstd::slice::slice_subrange;
use crate::model::{occurs_at, bytes_eq, is_first_occurrence, is_last_occurrence};
use crate::model::{lemma_occurrence_window, lemma_window_occurrence};
use crate::scanner::{memchr_pos, memrchr_pos, memchr_dbl_pos, memrchr_dbl_pos, memeq};
use crate::ascii::{ascii_fold, ascii_upper, ascii_lower, lemma_fold_cases, to_ascii_upper,
    to_ascii_lower, eq_ignore_case};

pub(crate) fn naive_opt_mc_1st_bytes(hay_bytes: &[u8], nee_bytes: &[u8]) -> (r: Option<usize>)
    ensures
        is_first_occurrence(false, hay_bytes@, nee_bytes@, r),
{
    let hay_len = hay_bytes.len();
    let nee_len = nee_bytes.len();
    if nee_len == 0 {
        return Some(0);
    }
    if hay_len < nee_len {
        return None;
    }
    let byte_1st = nee_bytes[0];
    let mut base: usize = 0;
    loop
        invariant
            hay_len == hay_bytes@.len(),
            nee_len == nee_bytes@.len(),
            0 < nee_len <= hay_len,
            byte_1st == nee_bytes@[0],
            0 <= base <= hay_len,
            forall|j: int| 0 <= j < base as int ==> !occurs_at(false, hay_bytes@, nee_bytes@, j),
        decreases hay_len - base,
    {
        let window = slice_subrange(hay_bytes, base, hay_len);
        match memchr_pos(window, byte_1st) {
            None => {
                proof {
                    assert forall|j: int| !occurs_at(false, hay_bytes@, nee_bytes@, j) by {
                        if base as int <= j && occurs_at(false, hay_bytes@, nee_bytes@, j) {
                            assert(bytes_eq(false, hay_bytes@[j + 0], nee_bytes@[0]));
                            assert(window@[j - base as int] == hay_bytes@[j]);
                        }
                    }
                }
                return None;
            },
            Some(m) => {
                let st = base + m;
                if st > hay_len - nee_len {
                    proof {
                        assert forall|j: int| !occurs_at(false, hay_bytes@, nee_bytes@, j) by {
                            if base as int <= j < st as int && occurs_at(
                                false,
                                hay_bytes@,
                                nee_bytes@,
                                j,
                            ) {
                                assert(bytes_eq(false, hay_bytes@[j + 0], nee_bytes@[0]));
                                assert(window@[j - base as int] == hay_bytes@[j]);
                            }
                        }
                    }
                    return None;
                }
                let ed = st + nee_len;
                if memeq(nee_bytes, slice_subrange(hay_bytes, st, ed)) {
                    proof {
                        lemma_window_occurrence(hay_bytes@, nee_bytes@, st as int);
                        assert forall|j: int| 0 <= j < st as int implies !occurs_at(
                            false,
                            hay_bytes@,
                            nee_bytes@,
                            j,
                        ) by {
                            if base as int <= j && occurs_at(false, hay_bytes@, nee_bytes@, j) {
                                assert(bytes_eq(false, hay_bytes@[j + 0], nee_bytes@[0]));
                                assert(window@[j - base as int] == hay_bytes@[j]);
                            }
                        }
                    }
                    return Some(st);
                }
                proof {
                    assert forall|j: int| 0 <= j < st as int + 1 implies !occurs_at(
                        false,
                        hay_bytes@,
                        nee_bytes@,
                        j,
                    ) by {
                        if base as int <= j < st as int && occurs_at(
                            false,
                            hay_bytes@,
                            nee_bytes@,
                            j,
                        ) {
                            assert(bytes_eq(false, hay_bytes@[j + 0], nee_bytes@[0]));
                            assert(window@[j - base as int] == hay_bytes@[j]);
                        }
                        if j == st as int && occurs_at(false, hay_bytes@, nee_bytes@, j) {
                            lemma_occurrence_window(hay_bytes@, nee_bytes@, j);
                        }
                    }
                }
                base = st + 1;
            },
        }
    }
}

pub(crate) fn naive_opt_mc_1st_rev_bytes(hay_bytes: &[u8], nee_bytes: &[u8]) -> (r: Option<usize>)
    ensures
        is_last_occurrence(false, hay_bytes@, nee_bytes@, r),
{
    let hay_len = hay_bytes.len();
    let nee_len = nee_bytes.len();
    if nee_len == 0 {
        return Some(hay_len);
    }
    if hay_len < nee_len {
        return None;
    }
    let byte_1st = nee_bytes[0];
    let mut top: usize = hay_len - nee_len + 1;
    loop
        invariant
            hay_len == hay_bytes@.len(),
            nee_len == nee_bytes@.len(),
            0 < nee_len <= hay_len,
            byte_1st == nee_bytes@[0],
            0 <= top <= hay_len - nee_len + 1,
            forall|j: int| top as int <= j ==> !occurs_at(false, hay_bytes@, nee_bytes@, j),
        decreases top,
    {
        let window = slice_subrange(hay_bytes, 0, top);
        match memrchr_pos(window, byte_1st) {
            None => {
                proof {
                    assert forall|j: int| !occurs_at(false, hay_bytes@, nee_bytes@, j) by {
                        if 0 <= j < top as int && occurs_at(false, hay_bytes@, nee_bytes@, j) {
                            assert(bytes_eq(false, hay_bytes@[j + 0], nee_bytes@[0]));
                            assert(window@[j] == hay_bytes@[j]);
                        }
                    }
                }
                return None;
            },
            Some(m) => {
                let st = m;
                let ed = st + nee_len;
                if memeq(nee_bytes, slice_subrange(hay_bytes, st, ed)) {
                    proof {
                        lemma_window_occurrence(hay_bytes@, nee_bytes@, st as int);
                        assert forall|j: int| (st as int) < j implies !occurs_at(
                            false,
                            hay_bytes@,
                            nee_bytes@,
                            j,
                        ) by {
                            if j < top as int && occurs_at(false, hay_bytes@, nee_bytes@, j) {
                                assert(bytes_eq(false, hay_bytes@[j + 0], nee_bytes@[0]));
                                assert(window@[j] == hay_bytes@[j]);
                            }
                        }
                    }
                    return Some(st);
                }
                proof {
                    assert forall|j: int| st as int <= j implies !occurs_at(
                        false,
                        hay_bytes@,
                        nee_bytes@,
                        j,
                    ) by {
                        if (st as int) < j < top as int && occurs_at(false, hay_bytes@, nee_bytes@, j)
                             {
                            assert(bytes_eq(false, hay_bytes@[j + 0], nee_bytes@[0]));
                            assert(window@[j] == hay_bytes@[j]);
                        }
                        if j == st as int && occurs_at(false, hay_bytes@, nee_bytes@, j) {
                            lemma_occurrence_window(hay_bytes@, nee_bytes@, j);
                        }
                    }
                }
                top = m;
            },
        }
    }
}

pub(crate) fn naive_opt_mc_1st_bytes_iac(hay_bytes: &[u8], nee_bytes: &[u8]) -> (r: Option<usize>)
    ensures
        is_first_occurrence(true, hay_bytes@, nee_bytes@, r),
{
    let hay_len = hay_bytes.len();
    let nee_len = nee_bytes.len();
    if nee_len == 0 {
        return Some(0);
    }
    if hay_len < nee_len {
        return None;
    }
    let byte_1st = nee_bytes[0];
    let byte_1st_uc = to_ascii_upper(byte_1st);
    let byte_1st_lc = to_ascii_lower(byte_1st);
    let mut base: usize = 0;
    loop
        invariant
            hay_len == hay_bytes@.len(),
            nee_len == nee_bytes@.len(),
            0 < nee_len <= hay_len,
            byte_1st == nee_bytes@[0],
            byte_1st_uc == ascii_upper(byte_1st),
            byte_1st_lc == ascii_lower(byte_1st),
            0 <= base <= hay_len,
            forall|j: int| 0 <= j < base as int ==> !occurs_at(true, hay_bytes@, nee_bytes@, j),
        decreases hay_len - base,
    {
        let window = slice_subrange(hay_bytes, base, hay_len);
        match memchr_dbl_pos(window, byte_1st_uc, byte_1st_lc) {
            None => {
                proof {
                    assert forall|j: int| !occurs_at(true, hay_bytes@, nee_bytes@, j) by {
                        if base as int <= j && occurs_at(true, hay_bytes@, nee_bytes@, j) {
                            assert(bytes_eq(true, hay_bytes@[j + 0], nee_bytes@[0]));
                            lemma_fold_cases(byte_1st, hay_bytes@[j]);
                            assert(window@[j - base as int] == hay_bytes@[j]);
                        }
                    }
                }
                return None;
            },
            Some(m) => {
                let st = base + m;
                if st > hay_len - nee_len {
                    proof {
                        assert forall|j: int| !occurs_at(true, hay_bytes@, nee_bytes@, j) by {
                            if base as int <= j < st as int && occurs_at(
                                true,
                                hay_bytes@,
                                nee_bytes@,
                                j,
                            ) {
                                assert(bytes_eq(true, hay_bytes@[j + 0], nee_bytes@[0]));
                                lemma_fold_cases(byte_1st, hay_bytes@[j]);
                                assert(window@[j - base as int] == hay_bytes@[j]);
                            }
                        }
                    }
                    return None;
                }
                let ed = st + nee_len;
                if eq_ignore_case(nee_bytes, slice_subrange(hay_bytes, st, ed)) {
                    proof {
                        assert forall|jj: int| 0 <= jj < nee_len as int implies bytes_eq(
                            true,
                            hay_bytes@[st as int + jj],
                            nee_bytes@[jj],
                        ) by {
                            assert(hay_bytes@.subrange(st as int, ed as int)[jj] == hay_bytes@[
                                st as int + jj]);
                        }
                        assert forall|j: int| 0 <= j < st as int implies !occurs_at(
                            true,
                            hay_bytes@,
                            nee_bytes@,
                            j,
                        ) by {
                            if base as int <= j && occurs_at(true, hay_bytes@, nee_bytes@, j) {
                                assert(bytes_eq(true, hay_bytes@[j + 0], nee_bytes@[0]));
                                lemma_fold_cases(byte_1st, hay_bytes@[j]);
                                assert(window@[j - base as int] == hay_bytes@[j]);
                            }
                        }
                    }
                    return Some(st);
                }
                proof {
                    assert forall|j: int| 0 <= j < st as int + 1 implies !occurs_at(
                        true,
                        hay_bytes@,
                        nee_bytes@,
                        j,
                    ) by {
                        if base as int <= j < st as int && occurs_at(true, hay_bytes@, nee_bytes@, j)
                             {
                            assert(bytes_eq(true, hay_bytes@[j + 0], nee_bytes@[0]));
                            lemma_fold_cases(byte_1st, hay_bytes@[j]);
                            assert(window@[j - base as int] == hay_bytes@[j]);
                        }
                        if j == st as int && occurs_at(true, hay_bytes@, nee_bytes@, j) {
                            assert forall|jj: int| 0 <= jj < nee_len as int implies ascii_fold(
                                nee_bytes@[jj],
                            ) == ascii_fold(hay_bytes@.subrange(st as int, ed as int)[jj]) by {
                                assert(hay_bytes@.subrange(st as int, ed as int)[jj] == hay_bytes@[
                                    st as int + jj]);
                                assert(bytes_eq(true, hay_bytes@[st as int + jj], nee_bytes@[jj]));
                            }
                        }
                    }
                }
                base = st + 1;
            },
        }
    }
}

pub(crate) fn naive_opt_mc_1st_rev_bytes_iac(hay_bytes: &[u8], nee_bytes: &[u8]) -> (r: Option<
    usize,
>)
    ensures
        is_last_occurrence(true, hay_bytes@, nee_bytes@, r),
{
    let hay_len = hay_bytes.len();
    let nee_len = nee_bytes.len();
    if nee_len == 0 {
        return Some(hay_len);
    }
    if hay_len < nee_len {
        return None;
    }
    let byte_1st = nee_bytes[0];
    let byte_1st_uc = to_ascii_upper(byte_1st);
    let byte_1st_lc = to_ascii_lower(byte_1st);
    let mut top: usize = hay_len - nee_len + 1;
    loop
        invariant
            hay_len == hay_bytes@.len(),
            nee_len == nee_bytes@.len(),
            0 < nee_len <= hay_len,
            byte_1st == nee_bytes@[0],
            byte_1st_uc == ascii_upper(byte_1st),
            byte_1st_lc == ascii_lower(byte_1st),
            0 <= top <= hay_len - nee_len + 1,
            forall|j: int| top as int <= j ==> !occurs_at(true, hay_bytes@, nee_bytes@, j),
        decreases top,
    {
        let window = slice_subrange(hay_bytes, 0, top);
        match memrchr_dbl_pos(window, byte_1st_uc, byte_1st_lc) {
            None => {
                proof {
                    assert forall|j: int| !occurs_at(true, hay_bytes@, nee_bytes@, j) by {
                        if 0 <= j < top as int && occurs_at(true, hay_bytes@, nee_bytes@, j) {
                            assert(bytes_eq(true, hay_bytes@[j + 0], nee_bytes@[0]));
                            lemma_fold_cases(byte_1st, hay_bytes@[j]);
                            assert(window@[j] == hay_bytes@[j]);
                        }
                    }
                }
                return None;
            },
            Some(m) => {
                let st = m;
                let ed = st + nee_len;
                if eq_ignore_case(nee_bytes, slice_subrange(hay_bytes, st, ed)) {
                    proof {
                        assert forall|jj: int| 0 <= jj < nee_len as int implies bytes_eq(
                            true,
                            hay_bytes@[st as int + jj],
                            nee_bytes@[jj],
                        ) by {
                            assert(hay_bytes@.subrange(st as int, ed as int)[jj] == hay_bytes@[
                                st as int + jj]);
                        }
                        assert forall|j: int| (st as int) < j implies !occurs_at(
                            true,
                            hay_bytes@,
                            nee_bytes@,
                            j,
                        ) by {
                            if j < top as int && occurs_at(true, hay_bytes@, nee_bytes@, j) {
                                assert(bytes_eq(true, hay_bytes@[j + 0], nee_bytes@[0]));
                                lemma_fold_cases(byte_1st, hay_bytes@[j]);
                                assert(window@[j] == hay_bytes@[j]);
                            }
                        }
                    }
                    return Some(st);
                }
                proof {
                    assert forall|j: int| st as int <= j implies !occurs_at(
                        true,
                        hay_bytes@,
                        nee_bytes@,
                        j,
                    ) by {
                        if (st as int) < j < top as int && occurs_at(true, hay_bytes@, nee_bytes@, j) {
                            assert(bytes_eq(true, hay_bytes@[j + 0], nee_bytes@[0]));
                            lemma_fold_cases(byte_1st, hay_bytes@[j]);
                            assert(window@[j] == hay_bytes@[j]);
                        }
                        if j == st as int && occurs_at(true, hay_bytes@, nee_bytes@, j) {
                            assert forall|jj: int| 0 <= jj < nee_len as int implies ascii_fold(
                                nee_bytes@[jj],
                            ) == ascii_fold(hay_bytes@.subrange(st as int, ed as int)[jj]) by {
                                assert(hay_bytes@.subrange(st as int, ed as int)[jj] == hay_bytes@[
                                    st as int + jj]);
                                assert(bytes_eq(true, hay_bytes@[st as int + jj], nee_bytes@[jj]));
                            }
                        }
                    }
                }
                top = m;
            },
        }
    }
}

} // verus!
