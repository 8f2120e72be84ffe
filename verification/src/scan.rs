//! Byte-scanning helpers shared by the request parser and the router:
//! finding the first occurrence of a byte in a range.

use vstd::prelude::*;
use vstd::slice::slice_index_get;

verus! {

/// The least index in `[from, until)` at which `s` holds `b`, or `until` if
/// the range holds no `b`.
pub open spec fn find_byte(s: Seq<u8>, b: u8, from: int, until: int) -> int
    recommends
        0 <= from,
        until <= s.len(),
    decreases until - from,
{
    if from >= until {
        until
    } else if s[from] == b {
        from
    } else {
        find_byte(s, b, from + 1, until)
    }
}

/// What `find_byte` returns: an index in `[from, until]`; the byte stands
/// there if the index is below `until`, and nowhere earlier in the range.
pub proof fn lemma_find_byte(s: Seq<u8>, b: u8, from: int, until: int)
    requires
        0 <= from,
        until <= s.len(),
    ensures
        from <= until ==> from <= find_byte(s, b, from, until) <= until,
        find_byte(s, b, from, until) < until ==> s[find_byte(s, b, from, until)] == b,
        forall|j: int|
            from <= j < find_byte(s, b, from, until) && j < until ==> s[j] != b,
    decreases until - from,
{
    if from < until && s[from] != b {
        lemma_find_byte(s, b, from + 1, until);
    }
}

/// An index that holds the byte with none of it earlier in the range is
/// the one `find_byte` returns; `until` is that index when the range holds
/// none of the byte at all.
pub proof fn lemma_find_byte_unique(s: Seq<u8>, b: u8, from: int, until: int, k: int)
    requires
        0 <= from <= until <= s.len(),
        from <= k <= until,
        k < until ==> s[k] == b,
        forall|j: int| from <= j < k ==> s[j] != b,
    ensures
        find_byte(s, b, from, until) == k,
{
    lemma_find_byte(s, b, from, until);
    let r = find_byte(s, b, from, until);
    if r < k {
        assert(s[r] == b);
        assert(false);
    }
    if k < r {
        assert(k < until);
        assert(s[k] != b);
        assert(false);
    }
}

/// Whether two byte sequences hold the same bytes.
pub fn bytes_eq(a: &[u8], b: &[u8]) -> (r: bool)
    ensures
        r == (a@ == b@),
{
    if a.len() != b.len() {
        return false;
    }
    let n = a.len();
    let mut i: usize = 0;
    while i < n
        invariant
            n == a@.len() == b@.len(),
            i <= n,
            forall|j: int| 0 <= j < i ==> a@[j] == b@[j],
        decreases n - i,
    {
        if *slice_index_get(a, i) != *slice_index_get(b, i) {
            return false;
        }
        i = i + 1;
    }
    proof {
        assert(a@ =~= b@);
    }
    true
}

/// The least index in `[from, until)` at which `v` holds `b`, or `until` if
/// the range holds no `b`.
pub fn find_byte_in(v: &[u8], b: u8, from: usize, until: usize) -> (r: usize)
    requires
        from <= until,
        until <= v@.len(),
    ensures
        r == find_byte(v@, b, from as int, until as int),
        from <= r <= until,
        r < until ==> v@[r as int] == b,
        forall|j: int| from <= j < r ==> v@[j] != b,
{
    proof {
        lemma_find_byte(v@, b, from as int, until as int);
    }
    let mut i: usize = from;
    while i < until
        invariant
            from <= i <= until,
            until <= v@.len(),
            forall|j: int| from <= j < i ==> v@[j] != b,
            find_byte(v@, b, from as int, until as int) == find_byte(
                v@,
                b,
                i as int,
                until as int,
            ),
        decreases until - i,
    {
        if *vstd::slice::slice_index_get(v, i) == b {
            return i;
        }
        i = i + 1;
    }
    i
}

} // verus!
