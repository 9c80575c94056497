//! Maps from peer index to one artifact per peer.

use vstd::prelude::*;

verus! {

/// Position of a participant in the canonical ordering of identities.
pub type PeerIndex = u16;

/// Whether every element of `s` is smaller than all elements after it.
pub open spec fn strictly_increasing(s: Seq<PeerIndex>) -> bool {
    forall|i: int, j: int| 0 <= i < j < s.len() ==> s[i] < s[j]
}

/// In a strictly increasing sequence each element is found at its own position.
pub proof fn lemma_index_of_increasing(s: Seq<PeerIndex>, i: int)
    requires
        strictly_increasing(s),
        0 <= i < s.len(),
    ensures
        s.index_of(s[i]) == i,
{
    let j = s.index_of(s[i]);
    assert(s.contains(s[i]));
    assert(0 <= j < s.len() && s[j] == s[i]);
    if j < i {
        assert(s[j] < s[i]);
    } else if i < j {
        assert(s[i] < s[j]);
    }
}

/// Two strictly increasing sequences with the same elements are the same
/// sequence.
pub proof fn lemma_increasing_unique(a: Seq<PeerIndex>, b: Seq<PeerIndex>)
    requires
        strictly_increasing(a),
        strictly_increasing(b),
        forall|x: PeerIndex| a.contains(x) <==> b.contains(x),
    ensures
        a == b,
    decreases a.len(),
{
    if a.len() == 0 {
        if b.len() > 0 {
            assert(b.contains(b[0]));
        }
        assert(a =~= b);
    } else {
        assert(a.contains(a[0]));
        let j = choose|j: int| 0 <= j < b.len() && b[j] == a[0];
        if j > 0 {
            assert(b[0] < b[j]);
            assert(b.contains(b[0]));
            let i = choose|i: int| 0 <= i < a.len() && a[i] == b[0];
            if i > 0 {
                assert(a[0] < a[i]);
            }
            assert(false);
        }
        let a1 = a.skip(1);
        let b1 = b.skip(1);
        assert(strictly_increasing(a1)) by {
            assert forall|i: int, j: int| 0 <= i < j < a1.len() implies a1[i] < a1[j] by {
                assert(a[i + 1] < a[j + 1]);
            }
        }
        assert(strictly_increasing(b1)) by {
            assert forall|i: int, j: int| 0 <= i < j < b1.len() implies b1[i] < b1[j] by {
                assert(b[i + 1] < b[j + 1]);
            }
        }
        assert forall|x: PeerIndex| a1.contains(x) <==> b1.contains(x) by {
            if a1.contains(x) {
                let i = choose|i: int| 0 <= i < a1.len() && a1[i] == x;
                assert(a[i + 1] == x);
                assert(a[0] < a[i + 1]);
                assert(a.contains(x));
                let m = choose|m: int| 0 <= m < b.len() && b[m] == x;
                assert(b1[m - 1] == x);
            }
            if b1.contains(x) {
                let i = choose|i: int| 0 <= i < b1.len() && b1[i] == x;
                assert(b[i + 1] == x);
                assert(b[0] < b[i + 1]);
                assert(b.contains(x));
                let m = choose|m: int| 0 <= m < a.len() && a[m] == x;
                assert(a1[m - 1] == x);
            }
        }
        lemma_increasing_unique(a1, b1);
        assert(a =~= seq![a[0]] + a1);
        assert(b =~= seq![b[0]] + b1);
    }
}

/// A map from peer index to one artifact per peer, kept in increasing order of
/// index. An entry, once present, is never replaced: the first write wins.
#[derive(Debug)]
pub struct PeerMap<T> {
    keys: Vec<PeerIndex>,
    values: Vec<T>,
}

impl<T> View for PeerMap<T> {
    type V = Map<PeerIndex, T>;

    open spec fn view(&self) -> Map<PeerIndex, T> {
        Map::new(
            |k: PeerIndex| self.indices().contains(k),
            |k: PeerIndex| self.items()[self.indices().index_of(k)],
        )
    }
}

impl<T> PeerMap<T> {
    /// The indices present, in increasing order.
    pub closed spec fn indices(&self) -> Seq<PeerIndex> {
        self.keys@
    }

    /// The artifacts held, in increasing order of their index.
    pub closed spec fn items(&self) -> Seq<T> {
        self.values@
    }

    /// Well-formedness: one artifact per index, indices strictly increasing.
    pub open spec fn wf(&self) -> bool {
        &&& self.indices().len() == self.items().len()
        &&& strictly_increasing(self.indices())
    }

    /// Number of entries.
    pub open spec fn count(&self) -> nat {
        self.indices().len()
    }

    /// Whether an artifact is recorded for `k`.
    pub open spec fn has(&self, k: PeerIndex) -> bool {
        self.indices().contains(k)
    }

    /// The map that results from recording `v` under `k` unless `k` is taken.
    pub open spec fn with_entry(&self, k: PeerIndex, v: T) -> Map<PeerIndex, T> {
        if self.has(k) {
            self@
        } else {
            self@.insert(k, v)
        }
    }

    /// On a well-formed map the view has exactly `count` keys, and the ordered
    /// artifacts are the view read in increasing order of index.
    pub proof fn lemma_view(&self)
        requires
            self.wf(),
        ensures
            self@.dom().finite(),
            self@.dom().len() == self.count(),
            forall|k: PeerIndex| self@.contains_key(k) <==> self.has(k),
            forall|i: int|
                0 <= i < self.count() ==> self@.contains_key(#[trigger] self.indices()[i])
                    && self@[self.indices()[i]] == self.items()[i],
    {
        let s = self.indices();
        assert(s.no_duplicates()) by {
            assert forall|i: int, j: int| 0 <= i < s.len() && 0 <= j < s.len() && i != j implies s[i]
                != s[j] by {
                if i < j {
                    assert(s[i] < s[j]);
                } else {
                    assert(s[j] < s[i]);
                }
            }
        }
        s.unique_seq_to_set();
        assert(self@.dom() =~= s.to_set());
        vstd::seq_lib::seq_to_set_is_finite(s);
        assert forall|i: int| 0 <= i < self.count() implies self@.contains_key(
            #[trigger] self.indices()[i],
        ) && self@[self.indices()[i]] == self.items()[i] by {
            lemma_index_of_increasing(s, i);
        }
    }

    /// A well-formed map is what its view says: two well-formed maps with
    /// the same view hold the same indices and the same artifacts, in the
    /// same order.
    pub proof fn lemma_view_decides(&self, other: &Self)
        requires
            self.wf(),
            other.wf(),
            self@ == other@,
        ensures
            self.indices() == other.indices(),
            self.items() == other.items(),
    {
        self.lemma_view();
        other.lemma_view();
        assert forall|x: PeerIndex| self.indices().contains(x) <==> other.indices().contains(
            x,
        ) by {
            assert(self@.contains_key(x) <==> other@.contains_key(x));
        }
        lemma_increasing_unique(self.indices(), other.indices());
        assert(self.items() =~= other.items()) by {
            assert forall|i: int| 0 <= i < self.items().len() implies self.items()[i]
                == other.items()[i] by {
                assert(self@[self.indices()[i]] == self.items()[i]);
                assert(other@[other.indices()[i]] == other.items()[i]);
            }
        }
    }

    /// An empty map.
    pub fn new() -> (r: Self)
        ensures
            r.wf(),
            r.count() == 0,
            r@ == Map::<PeerIndex, T>::empty(),
    {
        let r = PeerMap { keys: Vec::new(), values: Vec::new() };
        assert(r@ =~= Map::<PeerIndex, T>::empty());
        r
    }

    /// Number of entries.
    pub fn len(&self) -> (n: usize)
        ensures
            n == self.count(),
    {
        self.keys.len()
    }

    /// Whether the map holds no entry.
    pub fn is_empty(&self) -> (b: bool)
        ensures
            b == (self.count() == 0),
    {
        self.keys.len() == 0
    }

    /// Position of the first index that is not below `k`, by bisection.
    fn lower_bound(&self, k: PeerIndex) -> (pos: usize)
        requires
            self.wf(),
        ensures
            pos <= self.count(),
            forall|i: int| 0 <= i < pos ==> self.indices()[i] < k,
            forall|i: int| pos <= i < self.count() ==> self.indices()[i] >= k,
    {
        let mut lo: usize = 0;
        let mut hi: usize = self.keys.len();
        while lo < hi
            invariant
                self.wf(),
                lo <= hi <= self.keys@.len(),
                forall|i: int| 0 <= i < lo ==> self.keys@[i] < k,
                forall|i: int| hi <= i < self.keys@.len() ==> self.keys@[i] >= k,
            decreases hi - lo,
        {
            let mid = lo + (hi - lo) / 2;
            if self.keys[mid] < k {
                assert forall|i: int| 0 <= i < mid + 1 implies self.keys@[i] < k by {
                    if i < mid {
                        assert(self.keys@[i] < self.keys@[mid as int]);
                    }
                }
                lo = mid + 1;
            } else {
                assert forall|i: int| mid <= i < self.keys@.len() implies self.keys@[i] >= k by {
                    if mid < i {
                        assert(self.keys@[mid as int] < self.keys@[i]);
                    }
                }
                hi = mid;
            }
        }
        lo
    }

    /// Whether an artifact is recorded for `k`.
    pub fn contains_key(&self, k: PeerIndex) -> (b: bool)
        requires
            self.wf(),
        ensures
            b == self.has(k),
            b == self@.contains_key(k),
    {
        let pos = self.lower_bound(k);
        let found = pos < self.keys.len() && self.keys[pos] == k;
        proof {
            if found {
                assert(self.indices()[pos as int] == k);
            } else if self.indices().contains(k) {
                let i = choose|i: int| 0 <= i < self.indices().len() && self.indices()[i] == k;
                assert(false);
            }
        }
        found
    }

    /// The artifact recorded for `k`, if any.
    pub fn get(&self, k: PeerIndex) -> (r: Option<&T>)
        requires
            self.wf(),
        ensures
            r is Some <==> self.has(k),
            r matches Some(v) ==> *v == self@[k],
    {
        let pos = self.lower_bound(k);
        if pos < self.keys.len() && self.keys[pos] == k {
            proof {
                lemma_index_of_increasing(self.indices(), pos as int);
            }
            Some(&self.values[pos])
        } else {
            proof {
                if self.indices().contains(k) {
                    let i = choose|i: int| 0 <= i < self.indices().len() && self.indices()[i] == k;
                    assert(false);
                }
            }
            None
        }
    }

    /// Records `v` under `k` unless an artifact is already recorded there; a
    /// later write for a taken index is dropped. Returns whether `v` was
    /// recorded.
    pub fn insert_if_absent(&mut self, k: PeerIndex, v: T) -> (inserted: bool)
        requires
            old(self).wf(),
        ensures
            final(self).wf(),
            inserted == !old(self).has(k),
            final(self)@ == old(self).with_entry(k, v),
            !inserted ==> final(self).indices() == old(self).indices() && final(self).items()
                == old(self).items(),
            inserted ==> final(self).count() == old(self).count() + 1,
            final(self).has(k),
            forall|j: PeerIndex| j != k ==> (final(self).has(j) <==> old(self).has(j)),
    {
        let pos = self.lower_bound(k);
        if pos < self.keys.len() && self.keys[pos] == k {
            assert(self.indices()[pos as int] == k);
            return false;
        }
        let ghost before = *self;
        proof {
            if before.indices().contains(k) {
                let i = choose|i: int| 0 <= i < before.indices().len() && before.indices()[i] == k;
                assert(false);
            }
        }
        self.keys.insert(pos, k);
        self.values.insert(pos, v);
        proof {
            let ks = before.indices();
            let ks2 = self.indices();
            let p = pos as int;
            assert(ks2 == ks.insert(p, k));
            assert(self.items() == before.items().insert(p, v));
            assert forall|i: int, j: int| 0 <= i < j < ks2.len() implies ks2[i] < ks2[j] by {
                if j < p {
                    assert(ks2[i] == ks[i] && ks2[j] == ks[j]);
                } else if j == p {
                    assert(ks2[i] == ks[i]);
                } else if i < p {
                    assert(ks2[i] == ks[i] && ks2[j] == ks[j - 1]);
                } else if i == p {
                    assert(ks2[j] == ks[j - 1]);
                    assert(ks[j - 1] >= k);
                    assert(ks[j - 1] != k) by {
                        assert(ks.contains(ks[j - 1]));
                    }
                } else {
                    assert(ks2[i] == ks[i - 1] && ks2[j] == ks[j - 1]);
                }
            }
            assert forall|x: PeerIndex| ks2.contains(x) <==> (x == k || ks.contains(x)) by {
                if ks2.contains(x) {
                    let i = choose|i: int| 0 <= i < ks2.len() && ks2[i] == x;
                    if i < p {
                        assert(ks[i] == x);
                    } else if i > p {
                        assert(ks[i - 1] == x);
                    }
                }
                if x == k {
                    assert(ks2[p] == k);
                }
                if ks.contains(x) {
                    let i = choose|i: int| 0 <= i < ks.len() && ks[i] == x;
                    if i < p {
                        assert(ks2[i] == x);
                    } else {
                        assert(ks2[i + 1] == x);
                    }
                }
            }
            assert(self@ =~= before@.insert(k, v)) by {
                assert forall|x: PeerIndex| self@.contains_key(x) implies self@[x]
                    == before@.insert(k, v)[x] by {
                    let i = ks2.index_of(x);
                    assert(0 <= i < ks2.len() && ks2[i] == x);
                    lemma_index_of_increasing(ks2, i);
                    if x == k {
                        if i != p {
                            lemma_index_of_increasing(ks2, p);
                        }
                    } else {
                        let i0 = if i < p {
                            i
                        } else {
                            i - 1
                        };
                        assert(i != p);
                        assert(ks[i0] == x);
                        lemma_index_of_increasing(ks, i0);
                        assert(self.items()[i] == before.items()[i0]);
                    }
                }
            }
        }
        true
    }

    /// The artifacts held, in increasing order of their index.
    pub fn values(&self) -> (r: &Vec<T>)
        ensures
            r@ == self.items(),
    {
        &self.values
    }

    /// The indices present, in increasing order.
    pub fn keys(&self) -> (r: &Vec<PeerIndex>)
        ensures
            r@ == self.indices(),
    {
        &self.keys
    }

    /// Drops every entry.
    pub fn clear(&mut self)
        ensures
            final(self).wf(),
            final(self).count() == 0,
            final(self)@ == Map::<PeerIndex, T>::empty(),
    {
        self.keys.clear();
        self.values.clear();
        assert(self@ =~= Map::<PeerIndex, T>::empty());
    }
}

} // verus!
