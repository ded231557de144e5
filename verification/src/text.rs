//! Byte-level prefix, suffix and substring tests on text.
//!
//! A `&str` pattern occurs in a `&str` exactly when its UTF-8 bytes occur in
//! the text's UTF-8 bytes at a character boundary, and UTF-8 never starts a
//! character inside another, so the byte-level tests agree with the
//! character-level ones.
use vstd::prelude::*;

verus! {

/// `s` begins with `p`.
pub open spec fn bytes_start_with(s: Seq<u8>, p: Seq<u8>) -> bool {
    p.len() <= s.len() && s.subrange(0, p.len() as int) == p
}

/// `s` ends with `p`.
pub open spec fn bytes_end_with(s: Seq<u8>, p: Seq<u8>) -> bool {
    p.len() <= s.len() && s.subrange(s.len() - p.len(), s.len() as int) == p
}

/// `p` occurs in `s` starting at `at`.
pub open spec fn bytes_occur_at(s: Seq<u8>, p: Seq<u8>, at: int) -> bool {
    0 <= at && at + p.len() <= s.len() && s.subrange(at, at + p.len()) == p
}

/// `p` occurs somewhere in `s`.
pub open spec fn bytes_contain(s: Seq<u8>, p: Seq<u8>) -> bool {
    exists|at: int| bytes_occur_at(s, p, at)
}

/// Whether `s[at..at + p.len()]` equals `p`; `at + p.len()` is within `s`.
fn matches_at(s: &[u8], p: &[u8], at: usize) -> (r: bool)
    requires
        at + p@.len() <= s@.len(),
    ensures
        r == (s@.subrange(at as int, at + p@.len()) == p@),
{
    let n = s.len();
    let mut i: usize = 0;
    while i < p.len()
        invariant
            n == s@.len(),
            i <= p@.len(),
            at + p@.len() <= s@.len(),
            forall|k: int| 0 <= k < i ==> s@[at + k] == p@[k],
        decreases p@.len() - i,
    {
        if s[at + i] != p[i] {
            proof {
                assert(s@.subrange(at as int, at + p@.len())[i as int] != p@[i as int]);
            }
            return false;
        }
        i = i + 1;
    }
    proof {
        assert(s@.subrange(at as int, at + p@.len()) =~= p@);
    }
    true
}

/// Whether `s` begins with `p`.
pub fn starts_with_bytes(s: &[u8], p: &[u8]) -> (r: bool)
    ensures
        r == bytes_start_with(s@, p@),
{
    if p.len() > s.len() {
        false
    } else {
        matches_at(s, p, 0)
    }
}

/// Whether `s` ends with `p`.
pub fn ends_with_bytes(s: &[u8], p: &[u8]) -> (r: bool)
    ensures
        r == bytes_end_with(s@, p@),
{
    if p.len() > s.len() {
        false
    } else {
        matches_at(s, p, s.len() - p.len())
    }
}

/// Whether `p` occurs in `s`.
pub fn contains_bytes(s: &[u8], p: &[u8]) -> (r: bool)
    ensures
        r == bytes_contain(s@, p@),
{
    if p.len() > s.len() {
        return false;
    }
    let last = s.len() - p.len();
    let mut at: usize = 0;
    loop
        invariant
            last + p@.len() == s@.len(),
            at <= last,
            forall|k: int| 0 <= k < at ==> !bytes_occur_at(s@, p@, k),
        ensures
            forall|k: int| 0 <= k <= last ==> !bytes_occur_at(s@, p@, k),
        decreases last - at,
    {
        if matches_at(s, p, at) {
            proof {
                assert(bytes_occur_at(s@, p@, at as int));
            }
            return true;
        }
        if at == last {
            break ;
        }
        at = at + 1;
    }
    proof {
        assert forall|k: int| !bytes_occur_at(s@, p@, k) by {
            if 0 <= k <= last {
            }
        }
    }
    false
}

} // verus!
