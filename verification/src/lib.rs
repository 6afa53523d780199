//! The optimized naive string-search algorithm, with verified contracts.
//!
//! The engine searches a byte haystack for a byte needle, forward or
//! backward, exactly or ignoring ASCII letter case.  It anchors the scan on
//! one end of the needle, chosen by a byte-frequency heuristic, walks the
//! haystack for that anchor byte with the `memx` scanning primitives, and
//! verifies each candidate window in full.  Every public search function
//! states in its contract that it returns the least (or greatest) offset at
//! which the needle occurs, and `None` exactly when it occurs nowhere.

use vstd::prelude::*;

mod ascii;
mod boundary;
mod chars;
mod fallback;
mod indices;

mod mc_1st;
mod mc_last;
mod model;
mod scanner;

pub use crate::fallback::{memchr_iter, memrchr_iter, Memchr};
pub use crate::indices::{SearchIndices, SearchIndicesBytes, RevSearchIndices, RevSearchIndicesBytes,
    SearchIndicesIgnoreAsciiCase, SearchIndicesBytesIgnoreAsciiCase,
    RevSearchIndicesIgnoreAsciiCase, RevSearchIndicesBytesIgnoreAsciiCase};

verus! {

use vstd::string::StringSliceAdditionalSpecFns;
pub use crate::model::{bytes_eq, occurs_at, is_first_occurrence, is_last_occurrence};
pub use crate::model::{lemma_occurrence_window, lemma_window_occurrence};
pub use crate::model::{lemma_first_occurrence_unique, lemma_last_occurrence_unique};
pub use crate::model::{lemma_empty_needle, lemma_oversized_needle};
pub use crate::model::lemma_unique_occurrence_agreement;
pub use crate::ascii::{ascii_fold, ascii_upper, ascii_lower, lemma_fold_cases};
pub use crate::boundary::{lemma_occurrence_starts_on_char_boundary,
    lemma_occurrence_ends_on_char_boundary};

///
/// search the needle in the haystack
///
/// return index of the haystack, if it found the needle. Otherwise return None.
///
pub fn string_search(haystack: &str, needle: &str) -> (r: Option<usize>)
    ensures
        is_first_occurrence(false, haystack.spec_bytes(), needle.spec_bytes(), r),
{
    naive_opt_mc_bytes(haystack.as_bytes(), needle.as_bytes())
}

///
/// reverse search the needle in the haystack
///
/// return index of the haystack, if it found the needle. Otherwise return None.
///
pub fn string_rsearch(haystack: &str, needle: &str) -> (r: Option<usize>)
    ensures
        is_last_occurrence(false, haystack.spec_bytes(), needle.spec_bytes(), r),
{
    naive_opt_mc_rev_bytes(haystack.as_bytes(), needle.as_bytes())
}

///
/// search the needle in the haystack bytes
///
/// return index of the haystack, if it found the needle. Otherwise return None.
///
pub fn string_search_bytes(haystack: &[u8], needle: &[u8]) -> (r: Option<usize>)
    ensures
        is_first_occurrence(false, haystack@, needle@, r),
{
    naive_opt_mc_bytes(haystack, needle)
}

///
/// reverse search the needle in the haystack bytes
///
/// return index of the haystack, if it found the needle. Otherwise return None.
///
pub fn string_rsearch_bytes(haystack: &[u8], needle: &[u8]) -> (r: Option<usize>)
    ensures
        is_last_occurrence(false, haystack@, needle@, r),
{
    naive_opt_mc_rev_bytes(haystack, needle)
}

///
/// search the needle in the haystack, ignore ascii case.
///
/// return index of the haystack, if it found the needle. Otherwise return None.
///
pub fn string_search_ignore_ascii_case(haystack: &str, needle: &str) -> (r: Option<usize>)
    ensures
        is_first_occurrence(true, haystack.spec_bytes(), needle.spec_bytes(), r),
{
    naive_opt_mc_bytes_iac(haystack.as_bytes(), needle.as_bytes())
}

///
/// search the needle in the haystack bytes, ignore ascii case.
///
/// return index of the haystack, if it found the needle. Otherwise return None.
///
pub fn string_search_bytes_ignore_ascii_case(haystack: &[u8], needle: &[u8]) -> (r: Option<usize>)
    ensures
        is_first_occurrence(true, haystack@, needle@, r),
{
    naive_opt_mc_bytes_iac(haystack, needle)
}

///
/// reverse search the needle in the haystack, ignore ascii case.
///
/// return index of the haystack, if it found the needle. Otherwise return None.
///
pub fn string_rsearch_ignore_ascii_case(haystack: &str, needle: &str) -> (r: Option<usize>)
    ensures
        is_last_occurrence(true, haystack.spec_bytes(), needle.spec_bytes(), r),
{
    naive_opt_mc_rev_bytes_iac(haystack.as_bytes(), needle.as_bytes())
}

///
/// reverse search the needle in the haystack bytes, ignore ascii case.
///
/// return index of the haystack, if it found the needle. Otherwise return None.
///
pub fn string_rsearch_bytes_ignore_ascii_case(haystack: &[u8], needle: &[u8]) -> (r: Option<usize>)
    ensures
        is_last_occurrence(true, haystack@, needle@, r),
{
    naive_opt_mc_rev_bytes_iac(haystack, needle)
}

///
/// includes the needle in the haystack bytes.
///
/// returns true if the needle occurs anywhere in the haystack.
///
pub fn includes_bytes(haystack: &[u8], needle: &[u8]) -> (r: bool)
    ensures
        r <==> exists|i: int| occurs_at(false, haystack@, needle@, i),
{
    let found = string_search_bytes(haystack, needle);
    proof {
        if let Some(i) = found {
            assert(occurs_at(false, haystack@, needle@, i as int));
        }
    }
    found.is_some()
}

///
/// includes the needle in the haystack bytes, ignore ascii case.
///
/// returns true if the needle occurs anywhere in the haystack.
///
pub fn includes_bytes_ignore_ascii_case(haystack: &[u8], needle: &[u8]) -> (r: bool)
    ensures
        r <==> exists|i: int| occurs_at(true, haystack@, needle@, i),
{
    let found = string_search_bytes_ignore_ascii_case(haystack, needle);
    proof {
        if let Some(i) = found {
            assert(occurs_at(true, haystack@, needle@, i as int));
        }
    }
    found.is_some()
}

///
/// search the needle
///
pub trait Search {
    /// The haystack's bytes, the sequence the searches look in.
    spec fn hay_bytes(&self) -> Seq<u8>;

    ///
    /// search the needle in self.
    ///
    /// return index of self, if it found the needle. Otherwise return None.
    ///
    fn search<'a, P: SearchIn<'a>>(&'a self, needle: P) -> (r: Option<usize>)
        ensures
            is_first_occurrence(false, self.hay_bytes(), needle.nee_bytes(), r),
    ;

    ///
    /// reverse search the needle in self.
    ///
    /// return index of self, if it found the needle. Otherwise return None.
    ///
    fn rsearch<'a, P: SearchIn<'a>>(&'a self, needle: P) -> (r: Option<usize>)
        ensures
            is_last_occurrence(false, self.hay_bytes(), needle.nee_bytes(), r),
    ;

    ///
    /// An enumerator over the non-overlapping matches of needle in self.
    ///
    fn search_indices<'a, P: SearchIn<'a>>(&'a self, needle: P) -> (r: SearchIndices<'a, P>)
        ensures
            r.hay() == self.hay_bytes(),
            r.nee() == needle.nee_bytes(),
            r.cursor() == 0,
            r.wf(),
    ;

    ///
    /// A reverse enumerator over the non-overlapping matches of needle in self.
    ///
    fn rsearch_indices<'a, P: SearchIn<'a>>(&'a self, needle: P) -> (r: RevSearchIndices<'a, P>)
        ensures
            r.hay() == self.hay_bytes(),
            r.nee() == needle.nee_bytes(),
            r.cursor() == self.hay_bytes().len(),
            r.wf(),
    ;

    ///
    /// includes the needle in self.
    ///
    /// returns true if the needle occurs anywhere in self.
    ///
    fn includes<'a, P: SearchIn<'a>>(&'a self, needle: P) -> (r: bool)
        ensures
            r <==> exists|i: int| occurs_at(false, self.hay_bytes(), needle.nee_bytes(), i),
    ;

    ///
    /// search the needle in self, ignore ascii case.
    ///
    /// return index of self, if it found the needle. Otherwise return None.
    ///
    fn search_ignore_ascii_case<'a, P: SearchIn<'a>>(&'a self, needle: P) -> (r: Option<usize>)
        ensures
            is_first_occurrence(true, self.hay_bytes(), needle.nee_bytes(), r),
    ;

    ///
    /// reverse search the needle in self, ignore ascii case.
    ///
    /// return index of self, if it found the needle. Otherwise return None.
    ///
    fn rsearch_ignore_ascii_case<'a, P: SearchIn<'a>>(&'a self, needle: P) -> (r: Option<usize>)
        ensures
            is_last_occurrence(true, self.hay_bytes(), needle.nee_bytes(), r),
    ;

    ///
    /// An enumerator over the matches of needle in self, ignore ascii case.
    ///
    fn search_indices_ignore_ascii_case<'a, P: SearchIn<'a>>(&'a self, needle: P) -> (r:
        SearchIndicesIgnoreAsciiCase<'a, P>)
        ensures
            r.hay() == self.hay_bytes(),
            r.nee() == needle.nee_bytes(),
            r.cursor() == 0,
            r.wf(),
    ;

    ///
    /// A reverse enumerator over the matches of needle in self, ignore ascii case.
    ///
    fn rsearch_indices_ignore_ascii_case<'a, P: SearchIn<'a>>(&'a self, needle: P) -> (r:
        RevSearchIndicesIgnoreAsciiCase<'a, P>)
        ensures
            r.hay() == self.hay_bytes(),
            r.nee() == needle.nee_bytes(),
            r.cursor() == self.hay_bytes().len(),
            r.wf(),
    ;

    ///
    /// includes the needle in self, ignore ascii case.
    ///
    fn includes_ignore_ascii_case<'a, P: SearchIn<'a>>(&'a self, needle: P) -> (r: bool)
        ensures
            r <==> exists|i: int| occurs_at(true, self.hay_bytes(), needle.nee_bytes(), i),
    ;
}

impl Search for &str {
    open spec fn hay_bytes(&self) -> Seq<u8> {
        self.spec_bytes()
    }

    #[inline]
    fn search<'a, P: SearchIn<'a>>(&'a self, needle: P) -> (r: Option<usize>) {
        needle.search_in(*self)
    }

    #[inline]
    fn rsearch<'a, P: SearchIn<'a>>(&'a self, needle: P) -> (r: Option<usize>) {
        needle.rsearch_in(*self)
    }

    #[inline]
    fn search_indices<'a, P: SearchIn<'a>>(&'a self, needle: P) -> (r: SearchIndices<'a, P>) {
        SearchIndices::new(*self, needle)
    }

    #[inline]
    fn rsearch_indices<'a, P: SearchIn<'a>>(&'a self, needle: P) -> (r: RevSearchIndices<'a, P>) {
        RevSearchIndices::new(*self, needle)
    }

    #[inline]
    fn includes<'a, P: SearchIn<'a>>(&'a self, needle: P) -> (r: bool) {
        let found = needle.includes_in(*self);
        proof {
            crate::model::lemma_exists_occurrence_congruence(
                false,
                (*self).spec_bytes(),
                Search::hay_bytes(self),
                needle.nee_bytes(),
            );
        }
        found
    }

    #[inline]
    fn search_ignore_ascii_case<'a, P: SearchIn<'a>>(&'a self, needle: P) -> (r: Option<usize>) {
        needle.search_in_ignore_ascii_case(*self)
    }

    #[inline]
    fn rsearch_ignore_ascii_case<'a, P: SearchIn<'a>>(&'a self, needle: P) -> (r: Option<usize>) {
        needle.rsearch_in_ignore_ascii_case(*self)
    }

    #[inline]
    fn search_indices_ignore_ascii_case<'a, P: SearchIn<'a>>(&'a self, needle: P) -> (r:
        SearchIndicesIgnoreAsciiCase<'a, P>) {
        SearchIndicesIgnoreAsciiCase::new(*self, needle)
    }

    #[inline]
    fn rsearch_indices_ignore_ascii_case<'a, P: SearchIn<'a>>(&'a self, needle: P) -> (r:
        RevSearchIndicesIgnoreAsciiCase<'a, P>) {
        RevSearchIndicesIgnoreAsciiCase::new(*self, needle)
    }

    #[inline]
    fn includes_ignore_ascii_case<'a, P: SearchIn<'a>>(&'a self, needle: P) -> (r: bool) {
        let found = needle.includes_in_ignore_ascii_case(*self);
        proof {
            crate::model::lemma_exists_occurrence_congruence(
                true,
                (*self).spec_bytes(),
                Search::hay_bytes(self),
                needle.nee_bytes(),
            );
        }
        found
    }
}

impl Search for String {
    open spec fn hay_bytes(&self) -> Seq<u8> {
        vstd::utf8::encode_utf8(self@)
    }

    #[inline]
    fn search<'a, P: SearchIn<'a>>(&'a self, needle: P) -> (r: Option<usize>) {
        needle.search_in(self.as_str())
    }

    #[inline]
    fn rsearch<'a, P: SearchIn<'a>>(&'a self, needle: P) -> (r: Option<usize>) {
        needle.rsearch_in(self.as_str())
    }

    #[inline]
    fn search_indices<'a, P: SearchIn<'a>>(&'a self, needle: P) -> (r: SearchIndices<'a, P>) {
        SearchIndices::new(self.as_str(), needle)
    }

    #[inline]
    fn rsearch_indices<'a, P: SearchIn<'a>>(&'a self, needle: P) -> (r: RevSearchIndices<'a, P>) {
        RevSearchIndices::new(self.as_str(), needle)
    }

    #[inline]
    fn includes<'a, P: SearchIn<'a>>(&'a self, needle: P) -> (r: bool) {
        let h = self.as_str();
        let found = needle.includes_in(h);
        proof {
            crate::model::lemma_exists_occurrence_congruence(
                false,
                h.spec_bytes(),
                Search::hay_bytes(self),
                needle.nee_bytes(),
            );
        }
        found
    }

    #[inline]
    fn search_ignore_ascii_case<'a, P: SearchIn<'a>>(&'a self, needle: P) -> (r: Option<usize>) {
        needle.search_in_ignore_ascii_case(self.as_str())
    }

    #[inline]
    fn rsearch_ignore_ascii_case<'a, P: SearchIn<'a>>(&'a self, needle: P) -> (r: Option<usize>) {
        needle.rsearch_in_ignore_ascii_case(self.as_str())
    }

    #[inline]
    fn search_indices_ignore_ascii_case<'a, P: SearchIn<'a>>(&'a self, needle: P) -> (r:
        SearchIndicesIgnoreAsciiCase<'a, P>) {
        SearchIndicesIgnoreAsciiCase::new(self.as_str(), needle)
    }

    #[inline]
    fn rsearch_indices_ignore_ascii_case<'a, P: SearchIn<'a>>(&'a self, needle: P) -> (r:
        RevSearchIndicesIgnoreAsciiCase<'a, P>) {
        RevSearchIndicesIgnoreAsciiCase::new(self.as_str(), needle)
    }

    #[inline]
    fn includes_ignore_ascii_case<'a, P: SearchIn<'a>>(&'a self, needle: P) -> (r: bool) {
        let h = self.as_str();
        let found = needle.includes_in_ignore_ascii_case(h);
        proof {
            crate::model::lemma_exists_occurrence_congruence(
                true,
                h.spec_bytes(),
                Search::hay_bytes(self),
                needle.nee_bytes(),
            );
        }
        found
    }
}

pub trait SearchBytes {
    /// The haystack's bytes, the sequence the searches look in.
    spec fn hay_bytes(&self) -> Seq<u8>;

    fn search_bytes<'a, P: SearchInBytes<'a>>(&'a self, needle: P) -> (r: Option<usize>)
        ensures
            is_first_occurrence(false, self.hay_bytes(), needle.nee_bytes(), r),
    ;

    fn rsearch_bytes<'a, P: SearchInBytes<'a>>(&'a self, needle: P) -> (r: Option<usize>)
        ensures
            is_last_occurrence(false, self.hay_bytes(), needle.nee_bytes(), r),
    ;

    fn search_indices_bytes<'a, P: SearchInBytes<'a>>(&'a self, needle: P) -> (r:
        SearchIndicesBytes<'a, P>)
        ensures
            r.hay() == self.hay_bytes(),
            r.nee() == needle.nee_bytes(),
            r.cursor() == 0,
            r.wf(),
    ;

    fn rsearch_indices_bytes<'a, P: SearchInBytes<'a>>(&'a self, needle: P) -> (r:
        RevSearchIndicesBytes<'a, P>)
        ensures
            r.hay() == self.hay_bytes(),
            r.nee() == needle.nee_bytes(),
            r.cursor() == self.hay_bytes().len(),
            r.wf(),
    ;

    fn includes_bytes<'a, P: SearchInBytes<'a>>(&'a self, needle: P) -> (r: bool)
        ensures
            r <==> exists|i: int| occurs_at(false, self.hay_bytes(), needle.nee_bytes(), i),
    ;

    fn search_bytes_ignore_ascii_case<'a, P: SearchInBytes<'a>>(&'a self, needle: P) -> (r: Option<
        usize,
    >)
        ensures
            is_first_occurrence(true, self.hay_bytes(), needle.nee_bytes(), r),
    ;

    fn rsearch_bytes_ignore_ascii_case<'a, P: SearchInBytes<'a>>(&'a self, needle: P) -> (r: Option<
        usize,
    >)
        ensures
            is_last_occurrence(true, self.hay_bytes(), needle.nee_bytes(), r),
    ;

    fn search_indices_bytes_ignore_ascii_case<'a, P: SearchInBytes<'a>>(&'a self, needle: P) -> (r:
        SearchIndicesBytesIgnoreAsciiCase<'a, P>)
        ensures
            r.hay() == self.hay_bytes(),
            r.nee() == needle.nee_bytes(),
            r.cursor() == 0,
            r.wf(),
    ;

    fn rsearch_indices_bytes_ignore_ascii_case<'a, P: SearchInBytes<'a>>(&'a self, needle: P) -> (r:
        RevSearchIndicesBytesIgnoreAsciiCase<'a, P>)
        ensures
            r.hay() == self.hay_bytes(),
            r.nee() == needle.nee_bytes(),
            r.cursor() == self.hay_bytes().len(),
            r.wf(),
    ;

    fn includes_bytes_ignore_ascii_case<'a, P: SearchInBytes<'a>>(&'a self, needle: P) -> (r: bool)
        ensures
            r <==> exists|i: int| occurs_at(true, self.hay_bytes(), needle.nee_bytes(), i),
    ;
}

impl SearchBytes for &[u8] {
    open spec fn hay_bytes(&self) -> Seq<u8> {
        self.view()
    }

    #[inline]
    fn search_bytes<'a, P: SearchInBytes<'a>>(&'a self, needle: P) -> (r: Option<usize>) {
        needle.search_in(*self)
    }

    #[inline]
    fn rsearch_bytes<'a, P: SearchInBytes<'a>>(&'a self, needle: P) -> (r: Option<usize>) {
        needle.rsearch_in(*self)
    }

    #[inline]
    fn search_indices_bytes<'a, P: SearchInBytes<'a>>(&'a self, needle: P) -> (r:
        SearchIndicesBytes<'a, P>) {
        SearchIndicesBytes::new(*self, needle)
    }

    #[inline]
    fn rsearch_indices_bytes<'a, P: SearchInBytes<'a>>(&'a self, needle: P) -> (r:
        RevSearchIndicesBytes<'a, P>) {
        RevSearchIndicesBytes::new(*self, needle)
    }

    #[inline]
    fn includes_bytes<'a, P: SearchInBytes<'a>>(&'a self, needle: P) -> (r: bool) {
        let found = needle.includes_in(*self);
        proof {
            crate::model::lemma_exists_occurrence_congruence(
                false,
                (*self)@,
                SearchBytes::hay_bytes(self),
                needle.nee_bytes(),
            );
        }
        found
    }

    #[inline]
    fn search_bytes_ignore_ascii_case<'a, P: SearchInBytes<'a>>(&'a self, needle: P) -> (r: Option<
        usize,
    >) {
        needle.search_in_ignore_ascii_case(*self)
    }

    #[inline]
    fn rsearch_bytes_ignore_ascii_case<'a, P: SearchInBytes<'a>>(&'a self, needle: P) -> (r: Option<
        usize,
    >) {
        needle.rsearch_in_ignore_ascii_case(*self)
    }

    #[inline]
    fn search_indices_bytes_ignore_ascii_case<'a, P: SearchInBytes<'a>>(&'a self, needle: P) -> (r:
        SearchIndicesBytesIgnoreAsciiCase<'a, P>) {
        SearchIndicesBytesIgnoreAsciiCase::new(*self, needle)
    }

    #[inline]
    fn rsearch_indices_bytes_ignore_ascii_case<'a, P: SearchInBytes<'a>>(&'a self, needle: P) -> (r:
        RevSearchIndicesBytesIgnoreAsciiCase<'a, P>) {
        RevSearchIndicesBytesIgnoreAsciiCase::new(*self, needle)
    }

    #[inline]
    fn includes_bytes_ignore_ascii_case<'a, P: SearchInBytes<'a>>(&'a self, needle: P) -> (r:
        bool) {
        let found = needle.includes_in_ignore_ascii_case(*self);
        proof {
            crate::model::lemma_exists_occurrence_congruence(
                true,
                (*self)@,
                SearchBytes::hay_bytes(self),
                needle.nee_bytes(),
            );
        }
        found
    }
}

impl SearchBytes for &str {
    open spec fn hay_bytes(&self) -> Seq<u8> {
        self.spec_bytes()
    }

    #[inline]
    fn search_bytes<'a, P: SearchInBytes<'a>>(&'a self, needle: P) -> (r: Option<usize>) {
        needle.search_in(self.as_bytes())
    }

    #[inline]
    fn rsearch_bytes<'a, P: SearchInBytes<'a>>(&'a self, needle: P) -> (r: Option<usize>) {
        needle.rsearch_in(self.as_bytes())
    }

    #[inline]
    fn search_indices_bytes<'a, P: SearchInBytes<'a>>(&'a self, needle: P) -> (r:
        SearchIndicesBytes<'a, P>) {
        SearchIndicesBytes::new(self.as_bytes(), needle)
    }

    #[inline]
    fn rsearch_indices_bytes<'a, P: SearchInBytes<'a>>(&'a self, needle: P) -> (r:
        RevSearchIndicesBytes<'a, P>) {
        RevSearchIndicesBytes::new(self.as_bytes(), needle)
    }

    #[inline]
    fn includes_bytes<'a, P: SearchInBytes<'a>>(&'a self, needle: P) -> (r: bool) {
        let h = self.as_bytes();
        let found = needle.includes_in(h);
        proof {
            crate::model::lemma_exists_occurrence_congruence(
                false,
                h@,
                SearchBytes::hay_bytes(self),
                needle.nee_bytes(),
            );
        }
        found
    }

    #[inline]
    fn search_bytes_ignore_ascii_case<'a, P: SearchInBytes<'a>>(&'a self, needle: P) -> (r: Option<
        usize,
    >) {
        needle.search_in_ignore_ascii_case(self.as_bytes())
    }

    #[inline]
    fn rsearch_bytes_ignore_ascii_case<'a, P: SearchInBytes<'a>>(&'a self, needle: P) -> (r: Option<
        usize,
    >) {
        needle.rsearch_in_ignore_ascii_case(self.as_bytes())
    }

    #[inline]
    fn search_indices_bytes_ignore_ascii_case<'a, P: SearchInBytes<'a>>(&'a self, needle: P) -> (r:
        SearchIndicesBytesIgnoreAsciiCase<'a, P>) {
        SearchIndicesBytesIgnoreAsciiCase::new(self.as_bytes(), needle)
    }

    #[inline]
    fn rsearch_indices_bytes_ignore_ascii_case<'a, P: SearchInBytes<'a>>(&'a self, needle: P) -> (r:
        RevSearchIndicesBytesIgnoreAsciiCase<'a, P>) {
        RevSearchIndicesBytesIgnoreAsciiCase::new(self.as_bytes(), needle)
    }

    #[inline]
    fn includes_bytes_ignore_ascii_case<'a, P: SearchInBytes<'a>>(&'a self, needle: P) -> (r:
        bool) {
        let h = self.as_bytes();
        let found = needle.includes_in_ignore_ascii_case(h);
        proof {
            crate::model::lemma_exists_occurrence_congruence(
                true,
                h@,
                SearchBytes::hay_bytes(self),
                needle.nee_bytes(),
            );
        }
        found
    }
}

impl SearchBytes for String {
    open spec fn hay_bytes(&self) -> Seq<u8> {
        vstd::utf8::encode_utf8(self@)
    }

    #[inline]
    fn search_bytes<'a, P: SearchInBytes<'a>>(&'a self, needle: P) -> (r: Option<usize>) {
        needle.search_in(self.as_str().as_bytes())
    }

    #[inline]
    fn rsearch_bytes<'a, P: SearchInBytes<'a>>(&'a self, needle: P) -> (r: Option<usize>) {
        needle.rsearch_in(self.as_str().as_bytes())
    }

    #[inline]
    fn search_indices_bytes<'a, P: SearchInBytes<'a>>(&'a self, needle: P) -> (r:
        SearchIndicesBytes<'a, P>) {
        SearchIndicesBytes::new(self.as_str().as_bytes(), needle)
    }

    #[inline]
    fn rsearch_indices_bytes<'a, P: SearchInBytes<'a>>(&'a self, needle: P) -> (r:
        RevSearchIndicesBytes<'a, P>) {
        RevSearchIndicesBytes::new(self.as_str().as_bytes(), needle)
    }

    #[inline]
    fn includes_bytes<'a, P: SearchInBytes<'a>>(&'a self, needle: P) -> (r: bool) {
        let h = self.as_str().as_bytes();
        let found = needle.includes_in(h);
        proof {
            crate::model::lemma_exists_occurrence_congruence(
                false,
                h@,
                SearchBytes::hay_bytes(self),
                needle.nee_bytes(),
            );
        }
        found
    }

    #[inline]
    fn search_bytes_ignore_ascii_case<'a, P: SearchInBytes<'a>>(&'a self, needle: P) -> (r: Option<
        usize,
    >) {
        needle.search_in_ignore_ascii_case(self.as_str().as_bytes())
    }

    #[inline]
    fn rsearch_bytes_ignore_ascii_case<'a, P: SearchInBytes<'a>>(&'a self, needle: P) -> (r: Option<
        usize,
    >) {
        needle.rsearch_in_ignore_ascii_case(self.as_str().as_bytes())
    }

    #[inline]
    fn search_indices_bytes_ignore_ascii_case<'a, P: SearchInBytes<'a>>(&'a self, needle: P) -> (r:
        SearchIndicesBytesIgnoreAsciiCase<'a, P>) {
        SearchIndicesBytesIgnoreAsciiCase::new(self.as_str().as_bytes(), needle)
    }

    #[inline]
    fn rsearch_indices_bytes_ignore_ascii_case<'a, P: SearchInBytes<'a>>(&'a self, needle: P) -> (r:
        RevSearchIndicesBytesIgnoreAsciiCase<'a, P>) {
        RevSearchIndicesBytesIgnoreAsciiCase::new(self.as_str().as_bytes(), needle)
    }

    #[inline]
    fn includes_bytes_ignore_ascii_case<'a, P: SearchInBytes<'a>>(&'a self, needle: P) -> (r:
        bool) {
        let h = self.as_str().as_bytes();
        let found = needle.includes_in_ignore_ascii_case(h);
        proof {
            crate::model::lemma_exists_occurrence_congruence(
                true,
                h@,
                SearchBytes::hay_bytes(self),
                needle.nee_bytes(),
            );
        }
        found
    }
}

///
/// An enumerator over the non-overlapping matches of the needle in the
/// haystack, in ascending order of start offset.
///
pub fn string_search_indices<'a, P: SearchIn<'a>>(haystack: &'a str, needle: P) -> (r:
    SearchIndices<'a, P>)
    ensures
        r.hay() == haystack.spec_bytes(),
        r.nee() == needle.nee_bytes(),
        r.cursor() == 0,
        r.wf(),
{
    SearchIndices::new(haystack, needle)
}

pub fn string_search_indices_bytes<'a, P: SearchInBytes<'a>>(haystack: &'a [u8], needle: P) -> (r:
    SearchIndicesBytes<'a, P>)
    ensures
        r.hay() == haystack@,
        r.nee() == needle.nee_bytes(),
        r.cursor() == 0,
        r.wf(),
{
    SearchIndicesBytes::new(haystack, needle)
}

///
/// A reverse enumerator over the non-overlapping matches of the needle in
/// the haystack, in descending order of start offset.
///
pub fn string_rsearch_indices<'a, P: SearchIn<'a>>(haystack: &'a str, needle: P) -> (r:
    RevSearchIndices<'a, P>)
    ensures
        r.hay() == haystack.spec_bytes(),
        r.nee() == needle.nee_bytes(),
        r.cursor() == haystack.spec_bytes().len(),
        r.wf(),
{
    RevSearchIndices::new(haystack, needle)
}

pub fn string_rsearch_indices_bytes<'a, P: SearchInBytes<'a>>(haystack: &'a [u8], needle: P) -> (r:
    RevSearchIndicesBytes<'a, P>)
    ensures
        r.hay() == haystack@,
        r.nee() == needle.nee_bytes(),
        r.cursor() == haystack@.len(),
        r.wf(),
{
    RevSearchIndicesBytes::new(haystack, needle)
}

pub fn string_search_indices_ignore_ascii_case<'a, P: SearchIn<'a>>(
    haystack: &'a str,
    needle: P,
) -> (r: SearchIndicesIgnoreAsciiCase<'a, P>)
    ensures
        r.hay() == haystack.spec_bytes(),
        r.nee() == needle.nee_bytes(),
        r.cursor() == 0,
        r.wf(),
{
    SearchIndicesIgnoreAsciiCase::new(haystack, needle)
}

pub fn string_search_indices_bytes_ignore_ascii_case<'a, P: SearchInBytes<'a>>(
    haystack: &'a [u8],
    needle: P,
) -> (r: SearchIndicesBytesIgnoreAsciiCase<'a, P>)
    ensures
        r.hay() == haystack@,
        r.nee() == needle.nee_bytes(),
        r.cursor() == 0,
        r.wf(),
{
    SearchIndicesBytesIgnoreAsciiCase::new(haystack, needle)
}

pub fn string_rsearch_indices_ignore_ascii_case<'a, P: SearchIn<'a>>(
    haystack: &'a str,
    needle: P,
) -> (r: RevSearchIndicesIgnoreAsciiCase<'a, P>)
    ensures
        r.hay() == haystack.spec_bytes(),
        r.nee() == needle.nee_bytes(),
        r.cursor() == haystack.spec_bytes().len(),
        r.wf(),
{
    RevSearchIndicesIgnoreAsciiCase::new(haystack, needle)
}

pub fn string_rsearch_indices_bytes_ignore_ascii_case<'a, P: SearchInBytes<'a>>(
    haystack: &'a [u8],
    needle: P,
) -> (r: RevSearchIndicesBytesIgnoreAsciiCase<'a, P>)
    ensures
        r.hay() == haystack@,
        r.nee() == needle.nee_bytes(),
        r.cursor() == haystack@.len(),
        r.wf(),
{
    RevSearchIndicesBytesIgnoreAsciiCase::new(haystack, needle)
}

///
/// search in the haystack
///
/// return index of the haystack, if it found the needle. Otherwise return None.
///
pub trait SearchIn<'a>: Sized {
    /// The needle's bytes, the sequence the searches look for.
    spec fn nee_bytes(&self) -> Seq<u8>;

    /// Every needle of this type is valid UTF-8; this is what lets the
    /// string-typed enumerators hand out `&str` windows.
    proof fn nee_bytes_valid(&self)
        ensures
            vstd::utf8::valid_utf8(self.nee_bytes()),
    ;

    ///
    /// search self in the haystack.
    ///
    /// return index of the haystack, if it found self. Otherwise return None.
    ///
    fn search_in(&self, haystack: &'a str) -> (r: Option<usize>)
        ensures
            is_first_occurrence(false, haystack.spec_bytes(), self.nee_bytes(), r),
    ;

    ///
    /// reverse search self in the haystack.
    ///
    /// return index of the haystack, if it found self. Otherwise return None.
    ///
    fn rsearch_in(&self, haystack: &'a str) -> (r: Option<usize>)
        ensures
            is_last_occurrence(false, haystack.spec_bytes(), self.nee_bytes(), r),
    ;

    ///
    /// search self in the haystack, ignore ascii case.
    ///
    /// return index of the haystack, if it found self. Otherwise return None.
    ///
    fn search_in_ignore_ascii_case(&self, haystack: &'a str) -> (r: Option<usize>)
        ensures
            is_first_occurrence(true, haystack.spec_bytes(), self.nee_bytes(), r),
    ;

    ///
    /// reverse search self in the haystack, ignore ascii case.
    ///
    /// return index of the haystack, if it found self. Otherwise return None.
    ///
    fn rsearch_in_ignore_ascii_case(&self, haystack: &'a str) -> (r: Option<usize>)
        ensures
            is_last_occurrence(true, haystack.spec_bytes(), self.nee_bytes(), r),
    ;

    ///
    /// return the length of self
    ///
    fn len(&self) -> (r: usize)
        ensures
            r == self.nee_bytes().len(),
    ;

    ///
    /// true if a length of 0.
    ///
    fn is_empty(&self) -> (r: bool)
        ensures
            r == (self.nee_bytes().len() == 0),
    {
        self.len() == 0
    }

    ///
    /// includes self in the haystack.
    ///
    /// returns true if self occurs anywhere in the haystack.
    ///
    fn includes_in(&self, haystack: &'a str) -> (r: bool)
        ensures
            r <==> exists|i: int| occurs_at(false, haystack.spec_bytes(), self.nee_bytes(), i),
    {
        let found = self.search_in(haystack);
        proof {
            if let Some(i) = found {
                assert(occurs_at(false, haystack.spec_bytes(), self.nee_bytes(), i as int));
            }
        }
        found.is_some()
    }

    ///
    /// includes self in the haystack, ignore ascii case.
    ///
    /// returns true if self occurs anywhere in the haystack.
    ///
    fn includes_in_ignore_ascii_case(&self, haystack: &'a str) -> (r: bool)
        ensures
            r <==> exists|i: int| occurs_at(true, haystack.spec_bytes(), self.nee_bytes(), i),
    {
        let found = self.search_in_ignore_ascii_case(haystack);
        proof {
            if let Some(i) = found {
                assert(occurs_at(true, haystack.spec_bytes(), self.nee_bytes(), i as int));
            }
        }
        found.is_some()
    }
}

impl<'a> SearchIn<'a> for &str {
    open spec fn nee_bytes(&self) -> Seq<u8> {
        self.spec_bytes()
    }

    proof fn nee_bytes_valid(&self) {
        vstd::utf8::encode_utf8_valid_utf8(self@);
    }

    fn search_in(&self, haystack: &'a str) -> (r: Option<usize>) {
        naive_opt_mc_bytes(haystack.as_bytes(), self.as_bytes())
    }

    fn rsearch_in(&self, haystack: &'a str) -> (r: Option<usize>) {
        naive_opt_mc_rev_bytes(haystack.as_bytes(), self.as_bytes())
    }

    fn search_in_ignore_ascii_case(&self, haystack: &'a str) -> (r: Option<usize>) {
        naive_opt_mc_bytes_iac(haystack.as_bytes(), self.as_bytes())
    }

    fn rsearch_in_ignore_ascii_case(&self, haystack: &'a str) -> (r: Option<usize>) {
        naive_opt_mc_rev_bytes_iac(haystack.as_bytes(), self.as_bytes())
    }

    fn len(&self) -> (r: usize) {
        self.as_bytes().len()
    }
}

impl<'a> SearchIn<'a> for &String {
    open spec fn nee_bytes(&self) -> Seq<u8> {
        vstd::utf8::encode_utf8(self@)
    }

    proof fn nee_bytes_valid(&self) {
        vstd::utf8::encode_utf8_valid_utf8(self@);
    }

    fn search_in(&self, haystack: &'a str) -> (r: Option<usize>) {
        naive_opt_mc_bytes(haystack.as_bytes(), self.as_str().as_bytes())
    }

    fn rsearch_in(&self, haystack: &'a str) -> (r: Option<usize>) {
        naive_opt_mc_rev_bytes(haystack.as_bytes(), self.as_str().as_bytes())
    }

    fn search_in_ignore_ascii_case(&self, haystack: &'a str) -> (r: Option<usize>) {
        naive_opt_mc_bytes_iac(haystack.as_bytes(), self.as_str().as_bytes())
    }

    fn rsearch_in_ignore_ascii_case(&self, haystack: &'a str) -> (r: Option<usize>) {
        naive_opt_mc_rev_bytes_iac(haystack.as_bytes(), self.as_str().as_bytes())
    }

    fn len(&self) -> (r: usize) {
        self.as_str().as_bytes().len()
    }
}

impl<'a> SearchIn<'a> for char {
    open spec fn nee_bytes(&self) -> Seq<u8> {
        vstd::utf8::encode_scalar(*self as u32)
    }

    proof fn nee_bytes_valid(&self) {
        lemma_char_bytes_valid(*self);
    }

    fn search_in(&self, haystack: &'a str) -> (r: Option<usize>) {
        let nee = crate::chars::char_utf8(*self);
        naive_opt_mc_bytes(haystack.as_bytes(), nee.as_slice())
    }

    fn rsearch_in(&self, haystack: &'a str) -> (r: Option<usize>) {
        let nee = crate::chars::char_utf8(*self);
        naive_opt_mc_rev_bytes(haystack.as_bytes(), nee.as_slice())
    }

    fn search_in_ignore_ascii_case(&self, haystack: &'a str) -> (r: Option<usize>) {
        let nee = crate::chars::char_utf8(*self);
        naive_opt_mc_bytes_iac(haystack.as_bytes(), nee.as_slice())
    }

    fn rsearch_in_ignore_ascii_case(&self, haystack: &'a str) -> (r: Option<usize>) {
        let nee = crate::chars::char_utf8(*self);
        naive_opt_mc_rev_bytes_iac(haystack.as_bytes(), nee.as_slice())
    }

    fn len(&self) -> (r: usize) {
        let nee = crate::chars::char_utf8(*self);
        nee.len()
    }
}

/// The one-character sequence a `char` needle stands for encodes to the
/// character's own UTF-8 bytes, which are valid UTF-8.
proof fn lemma_char_bytes_valid(c: char)
    ensures
        vstd::utf8::valid_utf8(vstd::utf8::encode_scalar(c as u32)),
{
    vstd::utf8::char_is_scalar(c);
    vstd::utf8::encode_utf8_valid_utf8(seq![c]);
    assert(vstd::utf8::encode_utf8(seq![c]) =~= vstd::utf8::encode_scalar(c as u32)) by {
        assert(seq![c].drop_first().len() == 0);
        assert(vstd::utf8::encode_utf8(seq![c].drop_first()) =~= Seq::<u8>::empty());
    }
}

pub trait SearchInBytes<'a>: Sized {
    /// The needle's bytes, the sequence the searches look for.
    spec fn nee_bytes(&self) -> Seq<u8>;

    fn search_in(&self, haystack: &'a [u8]) -> (r: Option<usize>)
        ensures
            is_first_occurrence(false, haystack@, self.nee_bytes(), r),
    ;

    fn rsearch_in(&self, haystack: &'a [u8]) -> (r: Option<usize>)
        ensures
            is_last_occurrence(false, haystack@, self.nee_bytes(), r),
    ;

    fn search_in_ignore_ascii_case(&self, haystack: &'a [u8]) -> (r: Option<usize>)
        ensures
            is_first_occurrence(true, haystack@, self.nee_bytes(), r),
    ;

    fn rsearch_in_ignore_ascii_case(&self, haystack: &'a [u8]) -> (r: Option<usize>)
        ensures
            is_last_occurrence(true, haystack@, self.nee_bytes(), r),
    ;

    fn len(&self) -> (r: usize)
        ensures
            r == self.nee_bytes().len(),
    ;

    fn is_empty(&self) -> (r: bool)
        ensures
            r == (self.nee_bytes().len() == 0),
    {
        self.len() == 0
    }

    fn includes_in(&self, haystack: &'a [u8]) -> (r: bool)
        ensures
            r <==> exists|i: int| occurs_at(false, haystack@, self.nee_bytes(), i),
    {
        let found = self.search_in(haystack);
        proof {
            if let Some(i) = found {
                assert(occurs_at(false, haystack@, self.nee_bytes(), i as int));
            }
        }
        found.is_some()
    }

    fn includes_in_ignore_ascii_case(&self, haystack: &'a [u8]) -> (r: bool)
        ensures
            r <==> exists|i: int| occurs_at(true, haystack@, self.nee_bytes(), i),
    {
        let found = self.search_in_ignore_ascii_case(haystack);
        proof {
            if let Some(i) = found {
                assert(occurs_at(true, haystack@, self.nee_bytes(), i as int));
            }
        }
        found.is_some()
    }
}

impl<'a> SearchInBytes<'a> for &[u8] {
    open spec fn nee_bytes(&self) -> Seq<u8> {
        self.view()
    }

    fn search_in(&self, haystack: &'a [u8]) -> (r: Option<usize>) {
        naive_opt_mc_bytes(haystack, self)
    }

    fn rsearch_in(&self, haystack: &'a [u8]) -> (r: Option<usize>) {
        naive_opt_mc_rev_bytes(haystack, self)
    }

    fn search_in_ignore_ascii_case(&self, haystack: &'a [u8]) -> (r: Option<usize>) {
        naive_opt_mc_bytes_iac(haystack, self)
    }

    fn rsearch_in_ignore_ascii_case(&self, haystack: &'a [u8]) -> (r: Option<usize>) {
        naive_opt_mc_rev_bytes_iac(haystack, self)
    }

    fn len(&self) -> (r: usize) {
        u8_len(self)
    }
}

#[inline(always)]
fn u8_len(a: &[u8]) -> (r: usize)
    ensures
        r == a@.len(),
{
    a.len()
}

impl<'a> SearchInBytes<'a> for &str {
    open spec fn nee_bytes(&self) -> Seq<u8> {
        self.spec_bytes()
    }

    fn search_in(&self, haystack: &'a [u8]) -> (r: Option<usize>) {
        naive_opt_mc_bytes(haystack, self.as_bytes())
    }

    fn rsearch_in(&self, haystack: &'a [u8]) -> (r: Option<usize>) {
        naive_opt_mc_rev_bytes(haystack, self.as_bytes())
    }

    fn search_in_ignore_ascii_case(&self, haystack: &'a [u8]) -> (r: Option<usize>) {
        naive_opt_mc_bytes_iac(haystack, self.as_bytes())
    }

    fn rsearch_in_ignore_ascii_case(&self, haystack: &'a [u8]) -> (r: Option<usize>) {
        naive_opt_mc_rev_bytes_iac(haystack, self.as_bytes())
    }

    fn len(&self) -> (r: usize) {
        self.as_bytes().len()
    }
}

impl<'a> SearchInBytes<'a> for &String {
    open spec fn nee_bytes(&self) -> Seq<u8> {
        vstd::utf8::encode_utf8(self@)
    }

    fn search_in(&self, haystack: &'a [u8]) -> (r: Option<usize>) {
        naive_opt_mc_bytes(haystack, self.as_str().as_bytes())
    }

    fn rsearch_in(&self, haystack: &'a [u8]) -> (r: Option<usize>) {
        naive_opt_mc_rev_bytes(haystack, self.as_str().as_bytes())
    }

    fn search_in_ignore_ascii_case(&self, haystack: &'a [u8]) -> (r: Option<usize>) {
        naive_opt_mc_bytes_iac(haystack, self.as_str().as_bytes())
    }

    fn rsearch_in_ignore_ascii_case(&self, haystack: &'a [u8]) -> (r: Option<usize>) {
        naive_opt_mc_rev_bytes_iac(haystack, self.as_str().as_bytes())
    }

    fn len(&self) -> (r: usize) {
        self.as_str().as_bytes().len()
    }
}

impl<'a> SearchInBytes<'a> for char {
    open spec fn nee_bytes(&self) -> Seq<u8> {
        vstd::utf8::encode_scalar(*self as u32)
    }

    fn search_in(&self, haystack: &'a [u8]) -> (r: Option<usize>) {
        let nee = crate::chars::char_utf8(*self);
        naive_opt_mc_bytes(haystack, nee.as_slice())
    }

    fn rsearch_in(&self, haystack: &'a [u8]) -> (r: Option<usize>) {
        let nee = crate::chars::char_utf8(*self);
        naive_opt_mc_rev_bytes(haystack, nee.as_slice())
    }

    fn search_in_ignore_ascii_case(&self, haystack: &'a [u8]) -> (r: Option<usize>) {
        let nee = crate::chars::char_utf8(*self);
        naive_opt_mc_bytes_iac(haystack, nee.as_slice())
    }

    fn rsearch_in_ignore_ascii_case(&self, haystack: &'a [u8]) -> (r: Option<usize>) {
        let nee = crate::chars::char_utf8(*self);
        naive_opt_mc_rev_bytes_iac(haystack, nee.as_slice())
    }

    fn len(&self) -> (r: usize) {
        let nee = crate::chars::char_utf8(*self);
        nee.len()
    }
}

//
// Only UTF-8 character sequences are used in rust strings.
//
// utf8 byte sequence:
//     1 bytes: 7F
//     2 bytes: DF BF
//     3 bytes: EF BF BF
//     4 bytes: F4 8F BF BF
// 1st byte (of 2..4 bytes seq) is likely to be repeated.
//
// It is stochastically effective to use the last byte for searching then.
// Otherwise ASCII text is dominated by the space code 0x20.
// The dispatchers below do stochastics on the 1st byte and the last byte.
//
// The table values only steer which end of the needle anchors the scan;
// either choice satisfies the search contract.
//
const ASCII_STOCHAS: [u8; 128] = [
    0, 0, 0, 0, 0, 0, 0, 0, 0, 0, 0, 0, 0, 0, 0, 0, 0, 0, 0, 0, 0, 0, 0, 0, 0, 0, 0, 0, 0, 0, 0, 0,
    255, 0, 2, 0, 0, 0, 0, 0, 1, 1, 0, 3, 6, 14, 19, 1, 3, 4, 3, 2, 2, 1, 1, 1, 1, 1, 2, 0, 0, 1,
    0, 0, 0, 4, 1, 5, 2, 4, 3, 0, 1, 5, 0, 0, 2, 3, 3, 2, 5, 0, 4, 6, 6, 1, 0, 0, 0, 0, 0, 1, 0, 1,
    0, 1, 0, 39, 7, 20, 19, 69, 11, 9, 18, 39, 0, 2, 18, 12, 38, 38, 12, 1, 34, 35, 50, 13, 5, 5,
    2, 7, 0, 0, 2, 0, 0, 0,
];

fn naive_opt_mc_bytes(hay_bytes: &[u8], nee_bytes: &[u8]) -> (r: Option<usize>)
    ensures
        is_first_occurrence(false, hay_bytes@, nee_bytes@, r),
{
    if nee_bytes.len() == 0 {
        return Some(0);
    }
    let byte_1st = nee_bytes[0];
    let byte_last = nee_bytes[nee_bytes.len() - 1];
    if byte_1st < 0x80 && byte_last < 0x80 {
        let weight_1st = ASCII_STOCHAS[byte_1st as usize];
        let weight_last = ASCII_STOCHAS[byte_last as usize];
        if weight_1st <= weight_last {
            crate::mc_1st::naive_opt_mc_1st_bytes(hay_bytes, nee_bytes)
        } else {
            crate::mc_last::naive_opt_mc_last_bytes(hay_bytes, nee_bytes)
        }
    } else {
        crate::mc_last::naive_opt_mc_last_bytes(hay_bytes, nee_bytes)
    }
}

fn naive_opt_mc_rev_bytes(hay_bytes: &[u8], nee_bytes: &[u8]) -> (r: Option<usize>)
    ensures
        is_last_occurrence(false, hay_bytes@, nee_bytes@, r),
{
    if nee_bytes.len() == 0 {
        return Some(hay_bytes.len());
    }
    let byte_1st = nee_bytes[0];
    let byte_last = nee_bytes[nee_bytes.len() - 1];
    if byte_1st < 0x80 && byte_last < 0x80 {
        let weight_1st = ASCII_STOCHAS[byte_1st as usize];
        let weight_last = ASCII_STOCHAS[byte_last as usize];
        if weight_1st <= weight_last {
            crate::mc_1st::naive_opt_mc_1st_rev_bytes(hay_bytes, nee_bytes)
        } else {
            crate::mc_last::naive_opt_mc_last_rev_bytes(hay_bytes, nee_bytes)
        }
    } else {
        crate::mc_last::naive_opt_mc_last_rev_bytes(hay_bytes, nee_bytes)
    }
}

fn naive_opt_mc_bytes_iac(hay_bytes: &[u8], nee_bytes: &[u8]) -> (r: Option<usize>)
    ensures
        is_first_occurrence(true, hay_bytes@, nee_bytes@, r),
{
    if nee_bytes.len() == 0 {
        return Some(0);
    }
    let byte_1st = nee_bytes[0];
    let byte_last = nee_bytes[nee_bytes.len() - 1];
    if byte_1st < 0x80 && byte_last < 0x80 {
        let weight_1st = ASCII_STOCHAS[byte_1st as usize];
        let weight_last = ASCII_STOCHAS[byte_last as usize];
        if weight_1st <= weight_last {
            crate::mc_1st::naive_opt_mc_1st_bytes_iac(hay_bytes, nee_bytes)
        } else {
            crate::mc_last::naive_opt_mc_last_bytes_iac(hay_bytes, nee_bytes)
        }
    } else {
        crate::mc_last::naive_opt_mc_last_bytes_iac(hay_bytes, nee_bytes)
    }
}

fn naive_opt_mc_rev_bytes_iac(hay_bytes: &[u8], nee_bytes: &[u8]) -> (r: Option<usize>)
    ensures
        is_last_occurrence(true, hay_bytes@, nee_bytes@, r),
{
    if nee_bytes.len() == 0 {
        return Some(hay_bytes.len());
    }
    let byte_1st = nee_bytes[0];
    let byte_last = nee_bytes[nee_bytes.len() - 1];
    if byte_1st < 0x80 && byte_last < 0x80 {
        let weight_1st = ASCII_STOCHAS[byte_1st as usize];
        let weight_last = ASCII_STOCHAS[byte_last as usize];
        if weight_1st <= weight_last {
            crate::mc_1st::naive_opt_mc_1st_rev_bytes_iac(hay_bytes, nee_bytes)
        } else {
            crate::mc_last::naive_opt_mc_last_rev_bytes_iac(hay_bytes, nee_bytes)
        }
    } else {
        crate::mc_last::naive_opt_mc_last_rev_bytes_iac(hay_bytes, nee_bytes)
    }
}

} // verus!

