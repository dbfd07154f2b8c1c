use vstd::prelude::*;
use vstd::string::StrSliceExecFns;

use crate::errors::{ParseError, ParseResult};

verus! {

/// True when `needle` occurs in `hay` starting exactly at position `i`.
pub open spec fn match_at(hay: Seq<char>, needle: Seq<char>, i: int) -> bool {
    &&& 0 <= i
    &&& i + needle.len() <= hay.len()
    &&& hay.subrange(i, i + needle.len() as int) == needle
}

/// Position of the leftmost occurrence of `needle` in `hay` at or after
/// position `from`, if any.
pub open spec fn spec_find_from(hay: Seq<char>, needle: Seq<char>, from: int) -> Option<int>
    decreases hay.len() - from + 1,
{
    if from + needle.len() > hay.len() {
        None
    } else if match_at(hay, needle, from) {
        Some(from)
    } else {
        spec_find_from(hay, needle, from + 1)
    }
}

/// A found occurrence is an occurrence, and the leftmost one.
pub proof fn lemma_find_from_props(hay: Seq<char>, needle: Seq<char>, from: int)
    ensures
        spec_find_from(hay, needle, from) matches Some(k) ==> from <= k && match_at(hay, needle, k)
            && (forall|j: int| from <= j < k ==> !match_at(hay, needle, j)),
    decreases hay.len() - from + 1,
{
    if from + needle.len() > hay.len() {
    } else if match_at(hay, needle, from) {
    } else {
        lemma_find_from_props(hay, needle, from + 1);
    }
}

/// The leftmost occurrence is what the search finds.
pub proof fn lemma_find_from_some(hay: Seq<char>, needle: Seq<char>, from: int, k: int)
    requires
        from <= k,
        match_at(hay, needle, k),
        forall|j: int| from <= j < k ==> !match_at(hay, needle, j),
    ensures
        spec_find_from(hay, needle, from) == Some(k),
    decreases k - from,
{
    if from < k {
        lemma_find_from_some(hay, needle, from + 1, k);
    }
}

/// Where no occurrence exists at or after `from`, the search finds nothing.
pub proof fn lemma_find_from_none(hay: Seq<char>, needle: Seq<char>, from: int)
    requires
        forall|j: int| from <= j ==> !match_at(hay, needle, j),
    ensures
        spec_find_from(hay, needle, from) is None,
    decreases hay.len() - from + 1,
{
    if from + needle.len() <= hay.len() {
        lemma_find_from_none(hay, needle, from + 1);
    }
}

/// Whether `needle` occurs in `hay` starting exactly at position `i`.
fn match_here(hay: &str, needle: &str, i: usize) -> (r: bool)
    requires
        i + needle@.len() <= hay@.len(),
        hay@.len() <= usize::MAX,
    ensures
        r == match_at(hay@, needle@, i as int),
{
    let m = needle.unicode_len();
    let mut t: usize = 0;
    while t < m
        invariant
            t <= m,
            m == needle@.len(),
            i + m <= hay@.len(),
            hay@.len() <= usize::MAX,
            forall|u: int| 0 <= u < t ==> hay@[i + u] == needle@[u],
        decreases m - t,
    {
        if hay.get_char(i + t) != needle.get_char(t) {
            proof {
                assert(!match_at(hay@, needle@, i as int)) by {
                    if match_at(hay@, needle@, i as int) {
                        assert(hay@.subrange(i as int, i + m as int)[t as int] == needle@[t as int]);
                    }
                }
            }
            return false;
        }
        t += 1;
    }
    proof {
        assert(hay@.subrange(i as int, i + m as int) =~= needle@);
    }
    true
}

/// Leftmost occurrence of `needle` in `hay` at or after position `from`.
pub(crate) fn find_from(hay: &str, needle: &str, from: usize) -> (r: Option<usize>)
    requires
        from <= hay@.len(),
    ensures
        r matches Some(k) ==> spec_find_from(hay@, needle@, from as int) == Some(k as int),
        r is None ==> spec_find_from(hay@, needle@, from as int) is None,
{
    let n = hay.unicode_len();
    let m = needle.unicode_len();
    if m == 0 {
        proof {
            assert(hay@.subrange(from as int, from as int) =~= needle@);
            lemma_find_from_some(hay@, needle@, from as int, from as int);
        }
        return Some(from);
    }
    if m > n || from > n - m {
        proof {
            lemma_find_from_none(hay@, needle@, from as int);
        }
        return None;
    }
    let mut i: usize = from;
    while i <= n - m
        invariant
            1 <= m <= n,
            n == hay@.len(),
            m == needle@.len(),
            from <= i,
            i <= n - m + 1,
            forall|j: int| from <= j < i ==> !match_at(hay@, needle@, j),
        decreases n - m + 1 - i,
    {
        if match_here(hay, needle, i) {
            proof {
                lemma_find_from_some(hay@, needle@, from as int, i as int);
            }
            return Some(i);
        }
        i += 1;
    }
    proof {
        lemma_find_from_none(hay@, needle@, from as int);
    }
    None
}

/// A read cursor over an immutable text buffer. The buffer is never
/// copied: every slice handed out borrows from it.
pub struct Stream<'a> {
    offset: usize,
    content: &'a String,
}

impl<'a> Stream<'a> {
    /// The whole underlying buffer.
    pub closed spec fn contents(&self) -> Seq<char> {
        self.content@
    }

    /// The read cursor, a position into `contents`.
    pub closed spec fn cursor(&self) -> int {
        self.offset as int
    }

    /// The cursor always stays inside the buffer.
    pub open spec fn wf(&self) -> bool {
        0 <= self.cursor() <= self.contents().len()
    }

    pub fn new(content: &'a String) -> (r: Stream<'a>)
        ensures
            r.wf(),
            r.contents() == content@,
            r.cursor() == 0,
    {
        Stream { offset: 0, content }
    }

    /// The unconsumed suffix, from the cursor to the end of the buffer.
    pub fn current(&self) -> (r: &'a str)
        requires
            self.wf(),
        ensures
            r@ == self.contents().subrange(self.cursor(), self.contents().len() as int),
    {
        let n = self.content.as_str().unicode_len();
        self.content.as_str().substring_char(self.offset, n)
    }

    /// Consume `s` at the cursor. On an exact match the cursor advances
    /// past it and the matched slice of the buffer comes back; otherwise
    /// the cursor stays and the error tells mismatch from truncation apart.
    pub fn read_string(&mut self, s: &str) -> (r: ParseResult<&'a str>)
        requires
            old(self).wf(),
        ensures
            final(self).wf(),
            final(self).contents() == old(self).contents(),
            ({
                let c = old(self).contents();
                let pos = old(self).cursor();
                if pos + s@.len() <= c.len() {
                    if c.subrange(pos, pos + s@.len() as int) == s@ {
                        &&& r matches Ok(out) && out@ == s@
                        &&& final(self).cursor() == pos + s@.len()
                    } else {
                        &&& (r matches Err(e) && e matches ParseError::DelimiterMismatch {
                            expected,
                            actual,
                        } && expected@ == s@ && actual@ == c.subrange(pos, pos + s@.len() as int))
                        &&& final(self).cursor() == pos
                    }
                } else {
                    &&& (r matches Err(e) && e matches ParseError::UnexpectedEndOfInput { expected }
                        && expected@ == s@)
                    &&& final(self).cursor() == pos
                }
            }),
    {
        let n = self.content.as_str().unicode_len();
        let m = s.unicode_len();
        if m > n - self.offset {
            return Err(ParseError::UnexpectedEndOfInput { expected: s.to_owned() });
        }
        if match_here(self.content.as_str(), s, self.offset) {
            let sub = self.content.as_str().substring_char(self.offset, self.offset + m);
            self.offset = self.offset + m;
            Ok(sub)
        } else {
            let sub = self.content.as_str().substring_char(self.offset, self.offset + m);
            Err(ParseError::DelimiterMismatch { expected: s.to_owned(), actual: sub.to_owned() })
        }
    }

    /// Search forward for `s`. On success the slice strictly between the
    /// cursor and the match comes back and the cursor moves to the match
    /// start — the delimiter itself is not consumed.
    pub fn read_until(&mut self, s: &str) -> (r: ParseResult<&'a str>)
        requires
            old(self).wf(),
        ensures
            final(self).wf(),
            final(self).contents() == old(self).contents(),
            ({
                let c = old(self).contents();
                let pos = old(self).cursor();
                match spec_find_from(c, s@, pos) {
                    Some(k) => (r matches Ok(out) && out@ == c.subrange(pos, k))
                        && final(self).cursor() == k,
                    None => (r matches Err(e) && e matches ParseError::DelimiterNotFound {
                        delimiter,
                    } && delimiter@ == s@) && final(self).cursor() == pos,
                }
            }),
    {
        match find_from(self.content.as_str(), s, self.offset) {
            Some(k) => {
                proof {
                    lemma_find_from_props(self.content@, s@, self.offset as int);
                }
                let sliced = self.content.as_str().substring_char(self.offset, k);
                self.offset = k;
                Ok(sliced)
            },
            None => Err(ParseError::DelimiterNotFound { delimiter: s.to_owned() }),
        }
    }
}

} // verus!
