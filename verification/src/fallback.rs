//! A self-contained fallback byte scanner: a verified naive linear scan with
//! the same contract as the platform primitives, and a cursor over the
//! occurrences of one byte that can be consumed from either end.

use vstd::prelude::*;

verus! {

use vstd::slice::slice_subrange;

#[inline]
pub fn memchr_iter<'a>(needle: u8, haystack: &'a [u8]) -> (r: Memchr<'a>)
    ensures
        r.target() == needle,
        r.offset() == 0,
        r.window() == haystack@,
        r.wf(),
{
    Memchr::new(needle, haystack)
}

/// The same cursor as [`memchr_iter`]; consume it with [`Memchr::next_back`]
/// to walk the occurrences backward.
#[inline]
pub fn memrchr_iter<'a>(needle: u8, haystack: &'a [u8]) -> (r: Memchr<'a>)
    ensures
        r.target() == needle,
        r.offset() == 0,
        r.window() == haystack@,
        r.wf(),
{
    Memchr::new(needle, haystack)
}

/// A cursor over the offsets at which one byte occurs in a slice.  The
/// unsearched window shrinks from the front with [`Memchr::next`] and from
/// the back with [`Memchr::next_back`]; `offset` is where the window starts
/// relative to the slice the cursor was built over.
pub struct Memchr<'a> {
    needle: u8,
    haystack: &'a [u8],
    position: usize,
}

impl<'a> Memchr<'a> {
    /// The byte being searched for.
    pub closed spec fn target(&self) -> u8 {
        self.needle
    }

    /// The start of the unsearched window, relative to the original slice.
    pub closed spec fn offset(&self) -> int {
        self.position as int
    }

    /// The bytes of the unsearched window.
    pub closed spec fn window(&self) -> Seq<u8> {
        self.haystack@
    }

    /// Reported offsets stay within `usize`.
    pub open spec fn wf(&self) -> bool {
        self.offset() + self.window().len() <= usize::MAX
    }

    #[inline]
    pub fn new(needle: u8, haystack: &'a [u8]) -> (r: Memchr<'a>)
        ensures
            r.target() == needle,
            r.offset() == 0,
            r.window() == haystack@,
            r.wf(),
    {
        let _hay_len = haystack.len();
        Memchr { needle, haystack, position: 0 }
    }

    /// The offset of the first occurrence of the target in the window, if
    /// any; the window then shrinks to the bytes after that occurrence.
    #[inline]
    pub fn next(&mut self) -> (r: Option<usize>)
        requires
            old(self).wf(),
        ensures
            final(self).wf(),
            final(self).target() == old(self).target(),
            match r {
                Some(found) => {
                    let rel = found - old(self).offset();
                    &&& 0 <= rel < old(self).window().len()
                    &&& old(self).window()[rel] == old(self).target()
                    &&& forall|k: int| 0 <= k < rel ==> old(self).window()[k] != old(self).target()
                    &&& final(self).offset() == found + 1
                    &&& final(self).window() == old(self).window().subrange(
                        rel + 1,
                        old(self).window().len() as int,
                    )
                },
                None => {
                    &&& forall|k: int|
                        0 <= k < old(self).window().len() ==> old(self).window()[k] != old(
                            self,
                        ).target()
                    &&& *final(self) == *old(self)
                },
            },
    {
        match memchr(self.needle, self.haystack) {
            Some(idx) => {
                self.haystack = slice_subrange(self.haystack, idx + 1, self.haystack.len());
                let found = self.position + idx;
                self.position = found + 1;
                Some(found)
            },
            None => None,
        }
    }

    /// The offset of the last occurrence of the target in the window, if
    /// any; the window then shrinks to the bytes before that occurrence.
    #[inline]
    pub fn next_back(&mut self) -> (r: Option<usize>)
        requires
            old(self).wf(),
        ensures
            final(self).wf(),
            final(self).target() == old(self).target(),
            match r {
                Some(found) => {
                    let rel = found - old(self).offset();
                    &&& 0 <= rel < old(self).window().len()
                    &&& old(self).window()[rel] == old(self).target()
                    &&& forall|k: int|
                        rel < k < old(self).window().len() ==> old(self).window()[k] != old(
                            self,
                        ).target()
                    &&& final(self).offset() == old(self).offset()
                    &&& final(self).window() == old(self).window().subrange(0, rel)
                },
                None => {
                    &&& forall|k: int|
                        0 <= k < old(self).window().len() ==> old(self).window()[k] != old(
                            self,
                        ).target()
                    &&& *final(self) == *old(self)
                },
            },
    {
        match memrchr(self.needle, self.haystack) {
            Some(idx) => {
                self.haystack = slice_subrange(self.haystack, 0, idx);
                Some(self.position + idx)
            },
            None => None,
        }
    }
}

fn memchr(n1: u8, haystack: &[u8]) -> (r: Option<usize>)
    ensures
        match r {
            Some(i) => i < haystack@.len() && haystack@[i as int] == n1 && (forall|k: int|
                0 <= k < i as int ==> haystack@[k] != n1),
            None => forall|k: int| 0 <= k < haystack@.len() ==> haystack@[k] != n1,
        },
{
    let len = haystack.len();
    let mut k: usize = 0;
    while k < len
        invariant
            len == haystack@.len(),
            0 <= k <= len,
            forall|j: int| 0 <= j < k as int ==> haystack@[j] != n1,
        decreases len - k,
    {
        if haystack[k] == n1 {
            return Some(k);
        }
        k = k + 1;
    }
    None
}

fn memrchr(n1: u8, haystack: &[u8]) -> (r: Option<usize>)
    ensures
        match r {
            Some(i) => i < haystack@.len() && haystack@[i as int] == n1 && (forall|k: int|
                (i as int) < k < haystack@.len() ==> haystack@[k] != n1),
            None => forall|k: int| 0 <= k < haystack@.len() ==> haystack@[k] != n1,
        },
{
    let len = haystack.len();
    let mut k: usize = len;
    while k > 0
        invariant
            len == haystack@.len(),
            0 <= k <= len,
            forall|j: int| k as int <= j < len as int ==> haystack@[j] != n1,
        decreases k,
    {
        k = k - 1;
        if haystack[k] == n1 {
            return Some(k);
        }
    }
    None
}

} // verus!
