//! The order of byte strings that `String`'s `Ord` follows: lexicographic on
//! the UTF-8 bytes.

use vstd::prelude::*;

verus! {

/// `a` and `b` agree on their first `k` bytes, and both have that many.
pub open spec fn agree_below(a: Seq<u8>, b: Seq<u8>, k: int) -> bool {
    &&& 0 <= k <= a.len()
    &&& k <= b.len()
    &&& forall|i: int| 0 <= i < k ==> a[i] == b[i]
}

/// `a` comes before `b`, and `k` is where they part: `a` ends there while
/// `b` goes on, or `a` has the smaller byte there.
pub open spec fn before_at(a: Seq<u8>, b: Seq<u8>, k: int) -> bool {
    &&& agree_below(a, b, k)
    &&& k < b.len()
    &&& (k == a.len() || a[k] < b[k])
}

/// `a` comes strictly before `b` in lexicographic byte order.
pub open spec fn bytes_lt(a: Seq<u8>, b: Seq<u8>) -> bool {
    exists|k: int| #[trigger] before_at(a, b, k)
}

/// The order is strict: nothing comes before itself, and of two byte strings
/// at most one comes before the other.
pub proof fn lemma_bytes_lt_asymmetric(a: Seq<u8>, b: Seq<u8>)
    ensures
        bytes_lt(a, b) ==> !bytes_lt(b, a) && a != b,
{
    if bytes_lt(a, b) {
        let k = choose|k: int| #[trigger] before_at(a, b, k);
        if bytes_lt(b, a) {
            let j = choose|j: int| #[trigger] before_at(b, a, j);
            if j < k {
                assert(a[j] == b[j]);
            } else if k < j {
                assert(a[k] == b[k]);
            }
        }
        if a == b {
            if k < a.len() {
                assert(a[k] == b[k]);
            }
        }
    }
}

/// The order is transitive.
pub proof fn lemma_bytes_lt_transitive(a: Seq<u8>, b: Seq<u8>, c: Seq<u8>)
    requires
        bytes_lt(a, b),
        bytes_lt(b, c),
    ensures
        bytes_lt(a, c),
{
    let k1 = choose|k: int| #[trigger] before_at(a, b, k);
    let k2 = choose|k: int| #[trigger] before_at(b, c, k);
    if k1 < k2 {
        assert(before_at(a, c, k1));
    } else if k2 < k1 {
        assert(before_at(a, c, k2));
    } else {
        assert(before_at(a, c, k1));
    }
}

/// Where one byte string stands against another.
#[derive(Debug, Clone, Copy, PartialEq, Eq, Structural)]
pub enum KeyOrder {
    Before,
    Same,
    After,
}

/// Compares two byte strings in lexicographic order.
pub fn compare_bytes(a: &[u8], b: &[u8]) -> (r: KeyOrder)
    ensures
        r == KeyOrder::Before <==> bytes_lt(a@, b@),
        r == KeyOrder::Same <==> a@ == b@,
        r == KeyOrder::After <==> bytes_lt(b@, a@),
{
    proof {
        lemma_bytes_lt_asymmetric(a@, b@);
        lemma_bytes_lt_asymmetric(b@, a@);
    }
    let mut i: usize = 0;
    while i < a.len() && i < b.len()
        invariant
            agree_below(a@, b@, i as int),
        decreases a@.len() - i,
    {
        if a[i] != b[i] {
            if a[i] < b[i] {
                assert(before_at(a@, b@, i as int));
                return KeyOrder::Before;
            } else {
                assert(before_at(b@, a@, i as int));
                return KeyOrder::After;
            }
        }
        i = i + 1;
    }
    if i == a.len() && i == b.len() {
        assert(a@ =~= b@);
        KeyOrder::Same
    } else if i == a.len() {
        assert(before_at(a@, b@, i as int));
        KeyOrder::Before
    } else {
        assert(before_at(b@, a@, i as int));
        KeyOrder::After
    }
}

} // verus!
