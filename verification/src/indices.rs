//! Non-overlapping match enumerators.
//!
//! Each enumerator owns a cursor into the haystack.  A forward enumerator
//! searches the suffix after the cursor and moves the cursor past each match
//! it produces; a backward enumerator searches the prefix before the cursor
//! and moves the cursor to each match's start.  Either way the matched
//! region is excluded from every later search, so the produced matches never
//! overlap and are strictly monotonic in the scan direction.  An enumerator
//! with an empty needle is exhausted from the start.

use vstd::prelude::*;

verus! {

use vstd::slice::slice_subrange;
use vstd::string::StringSliceAdditionalSpecFns;
use vstd::utf8::{is_char_boundary, encode_utf8_valid_utf8, is_char_boundary_start_end_of_seq};
use crate::model::{occurs_at, lemma_window_shift};
use crate::boundary::{lemma_occurrence_starts_on_char_boundary,
    lemma_occurrence_ends_on_char_boundary, str_window};
use crate::{SearchIn, SearchInBytes};

pub struct SearchIndicesBytes<'a, P: SearchInBytes<'a>> {
    curr_idx: usize,
    haystack: &'a [u8],
    needle: P,
}

impl<'a, P: SearchInBytes<'a>> SearchIndicesBytes<'a, P> {
    /// The haystack bytes the enumerator walks.
    pub closed spec fn hay(&self) -> Seq<u8> {
        self.haystack@
    }

    /// The needle bytes.
    pub closed spec fn nee(&self) -> Seq<u8> {
        self.needle.nee_bytes()
    }

    /// The start of the unsearched suffix.
    pub closed spec fn cursor(&self) -> int {
        self.curr_idx as int
    }

    pub open spec fn wf(&self) -> bool {
        0 <= self.cursor() <= self.hay().len()
    }

    pub(crate) fn new(a_haystack: &'a [u8], a_needle: P) -> (r: Self)
        ensures
            r.hay() == a_haystack@,
            r.nee() == a_needle.nee_bytes(),
            r.cursor() == 0,
            r.wf(),
    {
        SearchIndicesBytes { curr_idx: 0, haystack: a_haystack, needle: a_needle }
    }

    /// The next match after the cursor: its start offset and the matched
    /// bytes.  The first match of the unsearched suffix is produced and the
    /// cursor moves past it; `None` exactly when the suffix holds no match
    /// or the needle is empty.
    pub fn next(&mut self) -> (r: Option<(usize, &'a [u8])>)
        requires
            old(self).wf(),
        ensures
            final(self).wf(),
            final(self).hay() == old(self).hay(),
            final(self).nee() == old(self).nee(),
            match r {
                Some(item) => {
                    let st = item.0 as int;
                    let ed = st + old(self).nee().len();
                    &&& old(self).nee().len() > 0
                    &&& old(self).cursor() <= st
                    &&& occurs_at(false, old(self).hay(), old(self).nee(), st)
                    &&& forall|j: int|
                        old(self).cursor() <= j < st ==> !occurs_at(
                            false,
                            old(self).hay(),
                            old(self).nee(),
                            j,
                        )
                    &&& item.1@ == old(self).hay().subrange(st, ed)
                    &&& final(self).cursor() == ed
                },
                None => {
                    &&& (old(self).nee().len() == 0 || (forall|j: int|
                        old(self).cursor() <= j ==> !occurs_at(
                            false,
                            old(self).hay(),
                            old(self).nee(),
                            j,
                        )))
                    &&& final(self).cursor() == old(self).cursor()
                },
            },
    {
        let nee_len = self.needle.len();
        if nee_len == 0 {
            return None;
        }
        let hay_len = self.haystack.len();
        let window = slice_subrange(self.haystack, self.curr_idx, hay_len);
        match self.needle.search_in(window) {
            Some(idx) => {
                let st = self.curr_idx + idx;
                let ed = st + nee_len;
                proof {
                    lemma_window_shift(
                        false,
                        self.haystack@,
                        self.needle.nee_bytes(),
                        self.curr_idx as int,
                        hay_len as int,
                        st as int,
                    );
                    assert forall|j: int| self.curr_idx as int <= j < st as int implies !occurs_at(
                        false,
                        self.haystack@,
                        self.needle.nee_bytes(),
                        j,
                    ) by {
                        if occurs_at(false, self.haystack@, self.needle.nee_bytes(), j) {
                            lemma_window_shift(
                                false,
                                self.haystack@,
                                self.needle.nee_bytes(),
                                self.curr_idx as int,
                                hay_len as int,
                                j,
                            );
                        }
                    }
                }
                let m = slice_subrange(self.haystack, st, ed);
                self.curr_idx = ed;
                Some((st, m))
            },
            None => {
                proof {
                    assert forall|j: int| self.curr_idx as int <= j implies !occurs_at(
                        false,
                        self.haystack@,
                        self.needle.nee_bytes(),
                        j,
                    ) by {
                        if occurs_at(false, self.haystack@, self.needle.nee_bytes(), j) {
                            lemma_window_shift(
                                false,
                                self.haystack@,
                                self.needle.nee_bytes(),
                                self.curr_idx as int,
                                hay_len as int,
                                j,
                            );
                        }
                    }
                }
                None
            },
        }
    }
}

///
/// Created with the method [crate::Search::search_indices()].
///
pub struct SearchIndices<'a, P: SearchIn<'a>> {
    curr_idx: usize,
    haystack: &'a str,
    needle: P,
}

impl<'a, P: SearchIn<'a>> SearchIndices<'a, P> {
    /// The haystack bytes the enumerator walks.
    pub closed spec fn hay(&self) -> Seq<u8> {
        self.haystack.spec_bytes()
    }

    /// The needle bytes.
    pub closed spec fn nee(&self) -> Seq<u8> {
        self.needle.nee_bytes()
    }

    /// The start of the unsearched suffix.
    pub closed spec fn cursor(&self) -> int {
        self.curr_idx as int
    }

    pub open spec fn wf(&self) -> bool {
        &&& 0 <= self.cursor() <= self.hay().len()
        &&& is_char_boundary(self.hay(), self.cursor())
    }

    pub(crate) fn new(a_haystack: &'a str, a_needle: P) -> (r: Self)
        ensures
            r.hay() == a_haystack.spec_bytes(),
            r.nee() == a_needle.nee_bytes(),
            r.cursor() == 0,
            r.wf(),
    {
        proof {
            encode_utf8_valid_utf8(a_haystack@);
        }
        SearchIndices { curr_idx: 0, haystack: a_haystack, needle: a_needle }
    }

    /// The next match after the cursor: its start offset and the matched
    /// window of the haystack.  The first match of the unsearched suffix is
    /// produced and the cursor moves past it; `None` exactly when the suffix
    /// holds no match or the needle is empty.
    pub fn next(&mut self) -> (r: Option<(usize, &'a str)>)
        requires
            old(self).wf(),
        ensures
            final(self).wf(),
            final(self).hay() == old(self).hay(),
            final(self).nee() == old(self).nee(),
            match r {
                Some(item) => {
                    let st = item.0 as int;
                    let ed = st + old(self).nee().len();
                    &&& old(self).nee().len() > 0
                    &&& old(self).cursor() <= st
                    &&& occurs_at(false, old(self).hay(), old(self).nee(), st)
                    &&& forall|j: int|
                        old(self).cursor() <= j < st ==> !occurs_at(
                            false,
                            old(self).hay(),
                            old(self).nee(),
                            j,
                        )
                    &&& item.1.spec_bytes() == old(self).hay().subrange(st, ed)
                    &&& final(self).cursor() == ed
                },
                None => {
                    &&& (old(self).nee().len() == 0 || (forall|j: int|
                        old(self).cursor() <= j ==> !occurs_at(
                            false,
                            old(self).hay(),
                            old(self).nee(),
                            j,
                        )))
                    &&& final(self).cursor() == old(self).cursor()
                },
            },
    {
        let nee_len = self.needle.len();
        if nee_len == 0 {
            return None;
        }
        let hay_len = self.haystack.as_bytes().len();
        proof {
            encode_utf8_valid_utf8(self.haystack@);
        }
        let (_, tail) = self.haystack.split_at(self.curr_idx);
        match self.needle.search_in(tail) {
            Some(idx) => {
                proof {
                    lemma_window_shift(
                        false,
                        self.haystack.spec_bytes(),
                        self.needle.nee_bytes(),
                        self.curr_idx as int,
                        hay_len as int,
                        self.curr_idx as int + idx as int,
                    );
                }
                let st = self.curr_idx + idx;
                let ed = st + nee_len;
                proof {
                    let h = self.haystack.spec_bytes();
                    let n = self.needle.nee_bytes();
                    assert forall|j: int| self.curr_idx as int <= j < st as int implies !occurs_at(
                        false,
                        h,
                        n,
                        j,
                    ) by {
                        if occurs_at(false, h, n, j) {
                            lemma_window_shift(
                                false,
                                h,
                                n,
                                self.curr_idx as int,
                                hay_len as int,
                                j,
                            );
                        }
                    }
                    self.needle.nee_bytes_valid();
                    lemma_occurrence_starts_on_char_boundary(false, h, n, st as int);
                    lemma_occurrence_ends_on_char_boundary(false, h, n, st as int);
                }
                let m = str_window(self.haystack, st, ed);
                self.curr_idx = ed;
                Some((st, m))
            },
            None => {
                proof {
                    let h = self.haystack.spec_bytes();
                    let n = self.needle.nee_bytes();
                    assert forall|j: int| self.curr_idx as int <= j implies !occurs_at(
                        false,
                        h,
                        n,
                        j,
                    ) by {
                        if occurs_at(false, h, n, j) {
                            lemma_window_shift(
                                false,
                                h,
                                n,
                                self.curr_idx as int,
                                hay_len as int,
                                j,
                            );
                        }
                    }
                }
                None
            },
        }
    }
}

///
/// Created with the method [crate::Search::rsearch_indices()].
///
pub struct RevSearchIndices<'a, P: SearchIn<'a>> {
    curr_ed: usize,
    haystack: &'a str,
    needle: P,
}

impl<'a, P: SearchIn<'a>> RevSearchIndices<'a, P> {
    /// The haystack bytes the enumerator walks.
    pub closed spec fn hay(&self) -> Seq<u8> {
        self.haystack.spec_bytes()
    }

    /// The needle bytes.
    pub closed spec fn nee(&self) -> Seq<u8> {
        self.needle.nee_bytes()
    }

    /// The end of the unsearched prefix.
    pub closed spec fn cursor(&self) -> int {
        self.curr_ed as int
    }

    pub open spec fn wf(&self) -> bool {
        &&& 0 <= self.cursor() <= self.hay().len()
        &&& is_char_boundary(self.hay(), self.cursor())
    }

    pub(crate) fn new(a_haystack: &'a str, a_needle: P) -> (r: Self)
        ensures
            r.hay() == a_haystack.spec_bytes(),
            r.nee() == a_needle.nee_bytes(),
            r.cursor() == a_haystack.spec_bytes().len(),
            r.wf(),
    {
        proof {
            encode_utf8_valid_utf8(a_haystack@);
            is_char_boundary_start_end_of_seq(a_haystack.spec_bytes());
        }
        RevSearchIndices {
            curr_ed: a_haystack.as_bytes().len(),
            haystack: a_haystack,
            needle: a_needle,
        }
    }

    /// The next match before the cursor: the last match that lies entirely
    /// in the unsearched prefix is produced and the cursor moves to its
    /// start; `None` exactly when the prefix holds no complete match or the
    /// needle is empty.
    pub fn next(&mut self) -> (r: Option<(usize, &'a str)>)
        requires
            old(self).wf(),
        ensures
            final(self).wf(),
            final(self).hay() == old(self).hay(),
            final(self).nee() == old(self).nee(),
            match r {
                Some(item) => {
                    let st = item.0 as int;
                    let ed = st + old(self).nee().len();
                    &&& old(self).nee().len() > 0
                    &&& ed <= old(self).cursor()
                    &&& occurs_at(false, old(self).hay(), old(self).nee(), st)
                    &&& forall|j: int|
                        st < j && j + old(self).nee().len() <= old(self).cursor() ==> !occurs_at(
                            false,
                            old(self).hay(),
                            old(self).nee(),
                            j,
                        )
                    &&& item.1.spec_bytes() == old(self).hay().subrange(st, ed)
                    &&& final(self).cursor() == st
                },
                None => {
                    &&& (old(self).nee().len() == 0 || (forall|j: int|
                        j + old(self).nee().len() <= old(self).cursor() ==> !occurs_at(
                            false,
                            old(self).hay(),
                            old(self).nee(),
                            j,
                        )))
                    &&& final(self).cursor() == old(self).cursor()
                },
            },
    {
        let nee_len = self.needle.len();
        if nee_len == 0 {
            return None;
        }
        let hay_len = self.haystack.as_bytes().len();
        proof {
            encode_utf8_valid_utf8(self.haystack@);
        }
        let (head, _) = self.haystack.split_at(self.curr_ed);
        match self.needle.rsearch_in(head) {
            Some(idx) => {
                proof {
                    lemma_window_shift(
                        false,
                        self.haystack.spec_bytes(),
                        self.needle.nee_bytes(),
                        0,
                        self.curr_ed as int,
                        idx as int,
                    );
                }
                let st = idx;
                let ed = st + nee_len;
                proof {
                    let h = self.haystack.spec_bytes();
                    let n = self.needle.nee_bytes();
                    assert forall|j: int|
                        (st as int) < j && j + n.len() <= self.curr_ed as int implies !occurs_at(
                        false,
                        h,
                        n,
                        j,
                    ) by {
                        if occurs_at(false, h, n, j) {
                            lemma_window_shift(false, h, n, 0, self.curr_ed as int, j);
                        }
                    }
                    self.needle.nee_bytes_valid();
                    lemma_occurrence_starts_on_char_boundary(false, h, n, st as int);
                    lemma_occurrence_ends_on_char_boundary(false, h, n, st as int);
                }
                let m = str_window(self.haystack, st, ed);
                self.curr_ed = st;
                Some((st, m))
            },
            None => {
                proof {
                    let h = self.haystack.spec_bytes();
                    let n = self.needle.nee_bytes();
                    assert forall|j: int| j + n.len() <= self.curr_ed as int implies !occurs_at(
                        false,
                        h,
                        n,
                        j,
                    ) by {
                        if occurs_at(false, h, n, j) {
                            lemma_window_shift(false, h, n, 0, self.curr_ed as int, j);
                        }
                    }
                }
                None
            },
        }
    }
}

///
/// Created with the method [crate::Search::search_indices_ignore_ascii_case()].
///
pub struct SearchIndicesIgnoreAsciiCase<'a, P: SearchIn<'a>> {
    curr_idx: usize,
    haystack: &'a str,
    needle: P,
}

impl<'a, P: SearchIn<'a>> SearchIndicesIgnoreAsciiCase<'a, P> {
    /// The haystack bytes the enumerator walks.
    pub closed spec fn hay(&self) -> Seq<u8> {
        self.haystack.spec_bytes()
    }

    /// The needle bytes.
    pub closed spec fn nee(&self) -> Seq<u8> {
        self.needle.nee_bytes()
    }

    /// The start of the unsearched suffix.
    pub closed spec fn cursor(&self) -> int {
        self.curr_idx as int
    }

    pub open spec fn wf(&self) -> bool {
        &&& 0 <= self.cursor() <= self.hay().len()
        &&& is_char_boundary(self.hay(), self.cursor())
    }

    pub(crate) fn new(a_haystack: &'a str, a_needle: P) -> (r: Self)
        ensures
            r.hay() == a_haystack.spec_bytes(),
            r.nee() == a_needle.nee_bytes(),
            r.cursor() == 0,
            r.wf(),
    {
        proof {
            encode_utf8_valid_utf8(a_haystack@);
        }
        SearchIndicesIgnoreAsciiCase { curr_idx: 0, haystack: a_haystack, needle: a_needle }
    }

    /// The next ASCII-case-insensitive match after the cursor: its start
    /// offset and the matched window as it stands in the haystack.
    pub fn next(&mut self) -> (r: Option<(usize, &'a str)>)
        requires
            old(self).wf(),
        ensures
            final(self).wf(),
            final(self).hay() == old(self).hay(),
            final(self).nee() == old(self).nee(),
            match r {
                Some(item) => {
                    let st = item.0 as int;
                    let ed = st + old(self).nee().len();
                    &&& old(self).nee().len() > 0
                    &&& old(self).cursor() <= st
                    &&& occurs_at(true, old(self).hay(), old(self).nee(), st)
                    &&& forall|j: int|
                        old(self).cursor() <= j < st ==> !occurs_at(
                            true,
                            old(self).hay(),
                            old(self).nee(),
                            j,
                        )
                    &&& item.1.spec_bytes() == old(self).hay().subrange(st, ed)
                    &&& final(self).cursor() == ed
                },
                None => {
                    &&& (old(self).nee().len() == 0 || (forall|j: int|
                        old(self).cursor() <= j ==> !occurs_at(
                            true,
                            old(self).hay(),
                            old(self).nee(),
                            j,
                        )))
                    &&& final(self).cursor() == old(self).cursor()
                },
            },
    {
        let nee_len = self.needle.len();
        if nee_len == 0 {
            return None;
        }
        let hay_len = self.haystack.as_bytes().len();
        proof {
            encode_utf8_valid_utf8(self.haystack@);
        }
        let (_, tail) = self.haystack.split_at(self.curr_idx);
        match self.needle.search_in_ignore_ascii_case(tail) {
            Some(idx) => {
                proof {
                    lemma_window_shift(
                        true,
                        self.haystack.spec_bytes(),
                        self.needle.nee_bytes(),
                        self.curr_idx as int,
                        hay_len as int,
                        self.curr_idx as int + idx as int,
                    );
                }
                let st = self.curr_idx + idx;
                let ed = st + nee_len;
                proof {
                    let h = self.haystack.spec_bytes();
                    let n = self.needle.nee_bytes();
                    assert forall|j: int| self.curr_idx as int <= j < st as int implies !occurs_at(
                        true,
                        h,
                        n,
                        j,
                    ) by {
                        if occurs_at(true, h, n, j) {
                            lemma_window_shift(true, h, n, self.curr_idx as int, hay_len as int, j);
                        }
                    }
                    self.needle.nee_bytes_valid();
                    lemma_occurrence_starts_on_char_boundary(true, h, n, st as int);
                    lemma_occurrence_ends_on_char_boundary(true, h, n, st as int);
                }
                let m = str_window(self.haystack, st, ed);
                self.curr_idx = ed;
                Some((st, m))
            },
            None => {
                proof {
                    let h = self.haystack.spec_bytes();
                    let n = self.needle.nee_bytes();
                    assert forall|j: int| self.curr_idx as int <= j implies !occurs_at(
                        true,
                        h,
                        n,
                        j,
                    ) by {
                        if occurs_at(true, h, n, j) {
                            lemma_window_shift(true, h, n, self.curr_idx as int, hay_len as int, j);
                        }
                    }
                }
                None
            },
        }
    }
}

///
/// Created with the method [crate::Search::rsearch_indices_ignore_ascii_case()].
///
pub struct RevSearchIndicesIgnoreAsciiCase<'a, P: SearchIn<'a>> {
    curr_ed: usize,
    haystack: &'a str,
    needle: P,
}

impl<'a, P: SearchIn<'a>> RevSearchIndicesIgnoreAsciiCase<'a, P> {
    /// The haystack bytes the enumerator walks.
    pub closed spec fn hay(&self) -> Seq<u8> {
        self.haystack.spec_bytes()
    }

    /// The needle bytes.
    pub closed spec fn nee(&self) -> Seq<u8> {
        self.needle.nee_bytes()
    }

    /// The end of the unsearched prefix.
    pub closed spec fn cursor(&self) -> int {
        self.curr_ed as int
    }

    pub open spec fn wf(&self) -> bool {
        &&& 0 <= self.cursor() <= self.hay().len()
        &&& is_char_boundary(self.hay(), self.cursor())
    }

    pub(crate) fn new(a_haystack: &'a str, a_needle: P) -> (r: Self)
        ensures
            r.hay() == a_haystack.spec_bytes(),
            r.nee() == a_needle.nee_bytes(),
            r.cursor() == a_haystack.spec_bytes().len(),
            r.wf(),
    {
        proof {
            encode_utf8_valid_utf8(a_haystack@);
            is_char_boundary_start_end_of_seq(a_haystack.spec_bytes());
        }
        RevSearchIndicesIgnoreAsciiCase {
            curr_ed: a_haystack.as_bytes().len(),
            haystack: a_haystack,
            needle: a_needle,
        }
    }

    /// The next ASCII-case-insensitive match before the cursor.
    pub fn next(&mut self) -> (r: Option<(usize, &'a str)>)
        requires
            old(self).wf(),
        ensures
            final(self).wf(),
            final(self).hay() == old(self).hay(),
            final(self).nee() == old(self).nee(),
            match r {
                Some(item) => {
                    let st = item.0 as int;
                    let ed = st + old(self).nee().len();
                    &&& old(self).nee().len() > 0
                    &&& ed <= old(self).cursor()
                    &&& occurs_at(true, old(self).hay(), old(self).nee(), st)
                    &&& forall|j: int|
                        st < j && j + old(self).nee().len() <= old(self).cursor() ==> !occurs_at(
                            true,
                            old(self).hay(),
                            old(self).nee(),
                            j,
                        )
                    &&& item.1.spec_bytes() == old(self).hay().subrange(st, ed)
                    &&& final(self).cursor() == st
                },
                None => {
                    &&& (old(self).nee().len() == 0 || (forall|j: int|
                        j + old(self).nee().len() <= old(self).cursor() ==> !occurs_at(
                            true,
                            old(self).hay(),
                            old(self).nee(),
                            j,
                        )))
                    &&& final(self).cursor() == old(self).cursor()
                },
            },
    {
        let nee_len = self.needle.len();
        if nee_len == 0 {
            return None;
        }
        let hay_len = self.haystack.as_bytes().len();
        proof {
            encode_utf8_valid_utf8(self.haystack@);
        }
        let (head, _) = self.haystack.split_at(self.curr_ed);
        match self.needle.rsearch_in_ignore_ascii_case(head) {
            Some(idx) => {
                proof {
                    lemma_window_shift(
                        true,
                        self.haystack.spec_bytes(),
                        self.needle.nee_bytes(),
                        0,
                        self.curr_ed as int,
                        idx as int,
                    );
                }
                let st = idx;
                let ed = st + nee_len;
                proof {
                    let h = self.haystack.spec_bytes();
                    let n = self.needle.nee_bytes();
                    assert forall|j: int|
                        (st as int) < j && j + n.len() <= self.curr_ed as int implies !occurs_at(
                        true,
                        h,
                        n,
                        j,
                    ) by {
                        if occurs_at(true, h, n, j) {
                            lemma_window_shift(true, h, n, 0, self.curr_ed as int, j);
                        }
                    }
                    self.needle.nee_bytes_valid();
                    lemma_occurrence_starts_on_char_boundary(true, h, n, st as int);
                    lemma_occurrence_ends_on_char_boundary(true, h, n, st as int);
                }
                let m = str_window(self.haystack, st, ed);
                self.curr_ed = st;
                Some((st, m))
            },
            None => {
                proof {
                    let h = self.haystack.spec_bytes();
                    let n = self.needle.nee_bytes();
                    assert forall|j: int| j + n.len() <= self.curr_ed as int implies !occurs_at(
                        true,
                        h,
                        n,
                        j,
                    ) by {
                        if occurs_at(true, h, n, j) {
                            lemma_window_shift(true, h, n, 0, self.curr_ed as int, j);
                        }
                    }
                }
                None
            },
        }
    }
}

pub struct RevSearchIndicesBytes<'a, P: SearchInBytes<'a>> {
    curr_ed: usize,
    haystack: &'a [u8],
    needle: P,
}

impl<'a, P: SearchInBytes<'a>> RevSearchIndicesBytes<'a, P> {
    /// The haystack bytes the enumerator walks.
    pub closed spec fn hay(&self) -> Seq<u8> {
        self.haystack@
    }

    /// The needle bytes.
    pub closed spec fn nee(&self) -> Seq<u8> {
        self.needle.nee_bytes()
    }

    /// The end of the unsearched prefix.
    pub closed spec fn cursor(&self) -> int {
        self.curr_ed as int
    }

    pub open spec fn wf(&self) -> bool {
        0 <= self.cursor() <= self.hay().len()
    }

    pub(crate) fn new(a_haystack: &'a [u8], a_needle: P) -> (r: Self)
        ensures
            r.hay() == a_haystack@,
            r.nee() == a_needle.nee_bytes(),
            r.cursor() == a_haystack@.len(),
            r.wf(),
    {
        RevSearchIndicesBytes { curr_ed: a_haystack.len(), haystack: a_haystack, needle: a_needle }
    }

    /// The next match before the cursor: the last match that lies entirely
    /// in the unsearched prefix is produced and the cursor moves to its
    /// start; `None` exactly when the prefix holds no complete match or the
    /// needle is empty.
    pub fn next(&mut self) -> (r: Option<(usize, &'a [u8])>)
        requires
            old(self).wf(),
        ensures
            final(self).wf(),
            final(self).hay() == old(self).hay(),
            final(self).nee() == old(self).nee(),
            match r {
                Some(item) => {
                    let st = item.0 as int;
                    let ed = st + old(self).nee().len();
                    &&& old(self).nee().len() > 0
                    &&& ed <= old(self).cursor()
                    &&& occurs_at(false, old(self).hay(), old(self).nee(), st)
                    &&& forall|j: int|
                        st < j && j + old(self).nee().len() <= old(self).cursor() ==> !occurs_at(
                            false,
                            old(self).hay(),
                            old(self).nee(),
                            j,
                        )
                    &&& item.1@ == old(self).hay().subrange(st, ed)
                    &&& final(self).cursor() == st
                },
                None => {
                    &&& (old(self).nee().len() == 0 || (forall|j: int|
                        j + old(self).nee().len() <= old(self).cursor() ==> !occurs_at(
                            false,
                            old(self).hay(),
                            old(self).nee(),
                            j,
                        )))
                    &&& final(self).cursor() == old(self).cursor()
                },
            },
    {
        let nee_len = self.needle.len();
        if nee_len == 0 {
            return None;
        }
        let window = slice_subrange(self.haystack, 0, self.curr_ed);
        match self.needle.rsearch_in(window) {
            Some(idx) => {
                let st = idx;
                let ed = st + nee_len;
                proof {
                    lemma_window_shift(
                        false,
                        self.haystack@,
                        self.needle.nee_bytes(),
                        0,
                        self.curr_ed as int,
                        st as int,
                    );
                    assert forall|j: int|
                        (st as int) < j && j + self.needle.nee_bytes().len()
                            <= self.curr_ed as int implies !occurs_at(
                        false,
                        self.haystack@,
                        self.needle.nee_bytes(),
                        j,
                    ) by {
                        if occurs_at(false, self.haystack@, self.needle.nee_bytes(), j) {
                            lemma_window_shift(
                                false,
                                self.haystack@,
                                self.needle.nee_bytes(),
                                0,
                                self.curr_ed as int,
                                j,
                            );
                        }
                    }
                }
                let m = slice_subrange(self.haystack, st, ed);
                self.curr_ed = st;
                Some((st, m))
            },
            None => {
                proof {
                    assert forall|j: int|
                        j + self.needle.nee_bytes().len() <= self.curr_ed as int implies !occurs_at(
                        false,
                        self.haystack@,
                        self.needle.nee_bytes(),
                        j,
                    ) by {
                        if occurs_at(false, self.haystack@, self.needle.nee_bytes(), j) {
                            lemma_window_shift(
                                false,
                                self.haystack@,
                                self.needle.nee_bytes(),
                                0,
                                self.curr_ed as int,
                                j,
                            );
                        }
                    }
                }
                None
            },
        }
    }
}

pub struct SearchIndicesBytesIgnoreAsciiCase<'a, P: SearchInBytes<'a>> {
    curr_idx: usize,
    haystack: &'a [u8],
    needle: P,
}

impl<'a, P: SearchInBytes<'a>> SearchIndicesBytesIgnoreAsciiCase<'a, P> {
    /// The haystack bytes the enumerator walks.
    pub closed spec fn hay(&self) -> Seq<u8> {
        self.haystack@
    }

    /// The needle bytes.
    pub closed spec fn nee(&self) -> Seq<u8> {
        self.needle.nee_bytes()
    }

    /// The start of the unsearched suffix.
    pub closed spec fn cursor(&self) -> int {
        self.curr_idx as int
    }

    pub open spec fn wf(&self) -> bool {
        0 <= self.cursor() <= self.hay().len()
    }

    pub(crate) fn new(a_haystack: &'a [u8], a_needle: P) -> (r: Self)
        ensures
            r.hay() == a_haystack@,
            r.nee() == a_needle.nee_bytes(),
            r.cursor() == 0,
            r.wf(),
    {
        SearchIndicesBytesIgnoreAsciiCase {
            curr_idx: 0,
            haystack: a_haystack,
            needle: a_needle,
        }
    }

    /// The next ASCII-case-insensitive match after the cursor: its start
    /// offset and the matched bytes as they stand in the haystack.
    pub fn next(&mut self) -> (r: Option<(usize, &'a [u8])>)
        requires
            old(self).wf(),
        ensures
            final(self).wf(),
            final(self).hay() == old(self).hay(),
            final(self).nee() == old(self).nee(),
            match r {
                Some(item) => {
                    let st = item.0 as int;
                    let ed = st + old(self).nee().len();
                    &&& old(self).nee().len() > 0
                    &&& old(self).cursor() <= st
                    &&& occurs_at(true, old(self).hay(), old(self).nee(), st)
                    &&& forall|j: int|
                        old(self).cursor() <= j < st ==> !occurs_at(
                            true,
                            old(self).hay(),
                            old(self).nee(),
                            j,
                        )
                    &&& item.1@ == old(self).hay().subrange(st, ed)
                    &&& final(self).cursor() == ed
                },
                None => {
                    &&& (old(self).nee().len() == 0 || (forall|j: int|
                        old(self).cursor() <= j ==> !occurs_at(
                            true,
                            old(self).hay(),
                            old(self).nee(),
                            j,
                        )))
                    &&& final(self).cursor() == old(self).cursor()
                },
            },
    {
        let nee_len = self.needle.len();
        if nee_len == 0 {
            return None;
        }
        let hay_len = self.haystack.len();
        let window = slice_subrange(self.haystack, self.curr_idx, hay_len);
        match self.needle.search_in_ignore_ascii_case(window) {
            Some(idx) => {
                let st = self.curr_idx + idx;
                let ed = st + nee_len;
                proof {
                    lemma_window_shift(
                        true,
                        self.haystack@,
                        self.needle.nee_bytes(),
                        self.curr_idx as int,
                        hay_len as int,
                        st as int,
                    );
                    assert forall|j: int| self.curr_idx as int <= j < st as int implies !occurs_at(
                        true,
                        self.haystack@,
                        self.needle.nee_bytes(),
                        j,
                    ) by {
                        if occurs_at(true, self.haystack@, self.needle.nee_bytes(), j) {
                            lemma_window_shift(
                                true,
                                self.haystack@,
                                self.needle.nee_bytes(),
                                self.curr_idx as int,
                                hay_len as int,
                                j,
                            );
                        }
                    }
                }
                let m = slice_subrange(self.haystack, st, ed);
                self.curr_idx = ed;
                Some((st, m))
            },
            None => {
                proof {
                    assert forall|j: int| self.curr_idx as int <= j implies !occurs_at(
                        true,
                        self.haystack@,
                        self.needle.nee_bytes(),
                        j,
                    ) by {
                        if occurs_at(true, self.haystack@, self.needle.nee_bytes(), j) {
                            lemma_window_shift(
                                true,
                                self.haystack@,
                                self.needle.nee_bytes(),
                                self.curr_idx as int,
                                hay_len as int,
                                j,
                            );
                        }
                    }
                }
                None
            },
        }
    }
}

pub struct RevSearchIndicesBytesIgnoreAsciiCase<'a, P: SearchInBytes<'a>> {
    curr_ed: usize,
    haystack: &'a [u8],
    needle: P,
}

impl<'a, P: SearchInBytes<'a>> RevSearchIndicesBytesIgnoreAsciiCase<'a, P> {
    /// The haystack bytes the enumerator walks.
    pub closed spec fn hay(&self) -> Seq<u8> {
        self.haystack@
    }

    /// The needle bytes.
    pub closed spec fn nee(&self) -> Seq<u8> {
        self.needle.nee_bytes()
    }

    /// The end of the unsearched prefix.
    pub closed spec fn cursor(&self) -> int {
        self.curr_ed as int
    }

    pub open spec fn wf(&self) -> bool {
        0 <= self.cursor() <= self.hay().len()
    }

    pub(crate) fn new(a_haystack: &'a [u8], a_needle: P) -> (r: Self)
        ensures
            r.hay() == a_haystack@,
            r.nee() == a_needle.nee_bytes(),
            r.cursor() == a_haystack@.len(),
            r.wf(),
    {
        RevSearchIndicesBytesIgnoreAsciiCase {
            curr_ed: a_haystack.len(),
            haystack: a_haystack,
            needle: a_needle,
        }
    }

    /// The next ASCII-case-insensitive match before the cursor.
    pub fn next(&mut self) -> (r: Option<(usize, &'a [u8])>)
        requires
            old(self).wf(),
        ensures
            final(self).wf(),
            final(self).hay() == old(self).hay(),
            final(self).nee() == old(self).nee(),
            match r {
                Some(item) => {
                    let st = item.0 as int;
                    let ed = st + old(self).nee().len();
                    &&& old(self).nee().len() > 0
                    &&& ed <= old(self).cursor()
                    &&& occurs_at(true, old(self).hay(), old(self).nee(), st)
                    &&& forall|j: int|
                        st < j && j + old(self).nee().len() <= old(self).cursor() ==> !occurs_at(
                            true,
                            old(self).hay(),
                            old(self).nee(),
                            j,
                        )
                    &&& item.1@ == old(self).hay().subrange(st, ed)
                    &&& final(self).cursor() == st
                },
                None => {
                    &&& (old(self).nee().len() == 0 || (forall|j: int|
                        j + old(self).nee().len() <= old(self).cursor() ==> !occurs_at(
                            true,
                            old(self).hay(),
                            old(self).nee(),
                            j,
                        )))
                    &&& final(self).cursor() == old(self).cursor()
                },
            },
    {
        let nee_len = self.needle.len();
        if nee_len == 0 {
            return None;
        }
        let window = slice_subrange(self.haystack, 0, self.curr_ed);
        match self.needle.rsearch_in_ignore_ascii_case(window) {
            Some(idx) => {
                let st = idx;
                let ed = st + nee_len;
                proof {
                    lemma_window_shift(
                        true,
                        self.haystack@,
                        self.needle.nee_bytes(),
                        0,
                        self.curr_ed as int,
                        st as int,
                    );
                    assert forall|j: int|
                        (st as int) < j && j + self.needle.nee_bytes().len()
                            <= self.curr_ed as int implies !occurs_at(
                        true,
                        self.haystack@,
                        self.needle.nee_bytes(),
                        j,
                    ) by {
                        if occurs_at(true, self.haystack@, self.needle.nee_bytes(), j) {
                            lemma_window_shift(
                                true,
                                self.haystack@,
                                self.needle.nee_bytes(),
                                0,
                                self.curr_ed as int,
                                j,
                            );
                        }
                    }
                }
                let m = slice_subrange(self.haystack, st, ed);
                self.curr_ed = st;
                Some((st, m))
            },
            None => {
                proof {
                    assert forall|j: int|
                        j + self.needle.nee_bytes().len() <= self.curr_ed as int implies !occurs_at(
                        true,
                        self.haystack@,
                        self.needle.nee_bytes(),
                        j,
                    ) by {
                        if occurs_at(true, self.haystack@, self.needle.nee_bytes(), j) {
                            lemma_window_shift(
                                true,
                                self.haystack@,
                                self.needle.nee_bytes(),
                                0,
                                self.curr_ed as int,
                                j,
                            );
                        }
                    }
                }
                None
            },
        }
    }
}

} // verus!
