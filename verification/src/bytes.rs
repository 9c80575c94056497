//! Byte strings: their lexicographic order, and copies of fixed length.

use vstd::prelude::*;

verus! {

/// `a` and `b` agree on their first `k` bytes and `a` is the smaller at
/// position `k`: it ends there while `b` goes on, or holds the smaller byte.
pub open spec fn less_at(a: Seq<u8>, b: Seq<u8>, k: int) -> bool {
    &&& 0 <= k <= a.len()
    &&& k < b.len()
    &&& forall|j: int| 0 <= j < k ==> a[j] == b[j]
    &&& k < a.len() ==> a[k] < b[k]
}

/// Byte-wise lexicographic order, the order of Rust strings.
pub open spec fn lex_less(a: Seq<u8>, b: Seq<u8>) -> bool {
    exists|k: int| less_at(a, b, k)
}

/// No byte string is below itself.
pub proof fn lemma_lex_irreflexive(a: Seq<u8>)
    ensures
        !lex_less(a, a),
{
    if lex_less(a, a) {
        let k = choose|k: int| less_at(a, a, k);
        assert(less_at(a, a, k));
    }
}

/// The lexicographic order is transitive.
pub proof fn lemma_lex_transitive(a: Seq<u8>, b: Seq<u8>, c: Seq<u8>)
    requires
        lex_less(a, b),
        lex_less(b, c),
    ensures
        lex_less(a, c),
{
    let k1 = choose|k: int| less_at(a, b, k);
    let k2 = choose|k: int| less_at(b, c, k);
    assert(less_at(a, b, k1));
    assert(less_at(b, c, k2));
    let k = if k1 <= k2 {
        k1
    } else {
        k2
    };
    assert(less_at(a, c, k));
}

/// How one byte string stands to another in the lexicographic order.
#[derive(Debug, PartialEq, Eq, Structural, Copy, Clone)]
pub enum Rank {
    Below,
    Same,
    Above,
}

/// Compares two byte strings lexicographically.
pub fn rank_bytes(a: &[u8], b: &[u8]) -> (r: Rank)
    ensures
        r == Rank::Below <==> lex_less(a@, b@),
        r == Rank::Same <==> a@ == b@,
        r == Rank::Above <==> lex_less(b@, a@),
{
    let mut i: usize = 0;
    while i < a.len() && i < b.len() && a[i] == b[i]
        invariant
            i <= a@.len(),
            i <= b@.len(),
            forall|j: int| 0 <= j < i ==> a@[j] == b@[j],
        decreases a@.len() - i,
    {
        i += 1;
    }
    let r = if i == a.len() {
        if i == b.len() {
            Rank::Same
        } else {
            Rank::Below
        }
    } else if i == b.len() {
        Rank::Above
    } else if a[i] < b[i] {
        Rank::Below
    } else {
        Rank::Above
    };
    proof {
        let k = i as int;
        match r {
            Rank::Same => {
                assert(a@ =~= b@);
            },
            Rank::Below => {
                assert(less_at(a@, b@, k));
            },
            Rank::Above => {
                assert(less_at(b@, a@, k));
            },
        }
        lemma_lex_irreflexive(a@);
        if lex_less(a@, b@) && lex_less(b@, a@) {
            lemma_lex_transitive(a@, b@, a@);
        }
    }
    r
}

/// Copies `N` bytes out of a slice of exactly that length.
pub fn copy_bytes<const N: usize>(data: &[u8]) -> (r: [u8; N])
    requires
        data@.len() == N,
    ensures
        r@ == data@,
{
    let mut r: [u8; N] = [0u8; N];
    let mut i: usize = 0;
    while i < N
        invariant
            i <= N,
            data@.len() == N,
            forall|j: int| 0 <= j < i ==> r@[j] == data@[j],
        decreases N - i,
    {
        r[i] = data[i];
        i += 1;
    }
    assert(r@ =~= data@);
    r
}

} // verus!
