//! Facts about duplicate-free sequences used when collecting keys.

use vstd::prelude::*;

verus! {

/// Appending an element that a duplicate-free sequence lacks keeps it duplicate-free.
pub proof fn lemma_push_no_duplicates<K>(s: Seq<K>, k: K)
    requires
        s.no_duplicates(),
        !s.contains(k),
    ensures
        s.push(k).no_duplicates(),
{
    assert forall|a: int, b: int| 0 <= a < s.push(k).len() && 0 <= b < s.push(k).len() && a != b implies s.push(k)[a]
        != s.push(k)[b] by {
        if a == s.len() {
            assert(s[b] == s.push(k)[b]);
        } else if b == s.len() {
            assert(s[a] == s.push(k)[a]);
        }
    }
}

} // verus!
