//! The registry of ceremony participants.
//!
//! Every participant is known by its network identity. The registry keeps the
//! identities in the order of their base-58 text, compared byte by byte, so
//! that the position of an identity depends only on which identities are
//! known: two nodes that know the same participants number them alike.

use crate::bytes::{
    lemma_lex_irreflexive, lemma_lex_transitive, lex_less, rank_bytes, Rank,
};
use libp2p_identity::PeerId;
use std::str::FromStr;
use vstd::prelude::*;
use vstd::string::*;
use vstd::utf8::encode_utf8;

verus! {

/// Lifecycle state of one participant of a key-generation ceremony.
#[derive(Debug, PartialEq, Eq, Structural, Copy, Clone)]
pub enum PeerState {
    AwaitingPeers,
    Generating,
    Complete,
    Canceled,
}

impl Default for PeerState {
    fn default() -> (r: Self)
        ensures
            r == PeerState::AwaitingPeers,
    {
        PeerState::AwaitingPeers
    }
}

/// What the registry records about one participant.
#[derive(Debug, PartialEq, Eq, Structural, Copy, Clone)]
pub struct PeerInfo {
    pub state: PeerState,
}

impl Default for PeerInfo {
    fn default() -> (r: Self)
        ensures
            r.state == PeerState::AwaitingPeers,
    {
        PeerInfo { state: PeerState::AwaitingPeers }
    }
}

/// `libp2p_identity`'s identifier of a network peer.
#[verifier::external_type_specification]
#[verifier::external_body]
pub struct ExPeerId(PeerId);

/// The base-58 text of a peer identifier.
pub uninterp spec fn base58_text(id: PeerId) -> Seq<char>;

/// The peer identifier that a text parses to, if it parses.
pub uninterp spec fn parsed_peer_id(text: Seq<char>) -> Option<PeerId>;

/// Calls `PeerId::to_base58`: the result is the base-58 text of the
/// identifier, a function of the identifier alone, which `PeerId::from_str`
/// parses back to the identifier.
#[verifier::external_body]
pub(crate) fn to_base58(id: &PeerId) -> (s: String)
    ensures
        s@ == base58_text(*id),
        parsed_peer_id(s@) == Some(*id),
{
    id.to_base58()
}

/// Calls `PeerId::from_str`, dropping the reason of a failure: whether and to
/// what a text parses is a function of the text alone.
#[verifier::external_body]
pub(crate) fn from_base58(s: &str) -> (r: Option<PeerId>)
    ensures
        r == parsed_peer_id(s@),
{
    PeerId::from_str(s).ok()
}

/// The key under which the registry files an identity: the bytes of its
/// base-58 text.
pub open spec fn peer_key(id: PeerId) -> Seq<u8> {
    encode_utf8(base58_text(id))
}

/// Whether the keys stand in strictly increasing lexicographic order.
pub open spec fn canonical(keys: Seq<Seq<u8>>) -> bool {
    forall|i: int, j: int| 0 <= i < j < keys.len() ==> lex_less(#[trigger] keys[i], #[trigger] keys[j])
}

/// Two canonical sequences with the same elements are the same sequence.
pub proof fn lemma_canonical_unique(a: Seq<Seq<u8>>, b: Seq<Seq<u8>>)
    requires
        canonical(a),
        canonical(b),
        forall|x: Seq<u8>| a.contains(x) <==> b.contains(x),
    ensures
        a == b,
    decreases a.len(),
{
    if a.len() == 0 {
        if b.len() > 0 {
            assert(b.contains(b[0]));
        }
        assert(a =~= b);
    } else {
        assert(a.contains(a[0]));
        assert(b.contains(a[0]));
        let j = choose|j: int| 0 <= j < b.len() && b[j] == a[0];
        if j > 0 {
            assert(lex_less(b[0], b[j]));
            assert(b.contains(b[0]));
            assert(a.contains(b[0]));
            let i = choose|i: int| 0 <= i < a.len() && a[i] == b[0];
            if i > 0 {
                assert(lex_less(a[0], a[i]));
                lemma_lex_transitive(a[0], b[0], a[0]);
            }
            lemma_lex_irreflexive(a[0]);
            assert(false);
        }
        assert(b[0] == a[0]);
        let a1 = a.skip(1);
        let b1 = b.skip(1);
        assert(canonical(a1)) by {
            assert forall|i: int, j: int| 0 <= i < j < a1.len() implies lex_less(
                #[trigger] a1[i],
                #[trigger] a1[j],
            ) by {
                assert(lex_less(a[i + 1], a[j + 1]));
            }
        }
        assert(canonical(b1)) by {
            assert forall|i: int, j: int| 0 <= i < j < b1.len() implies lex_less(
                #[trigger] b1[i],
                #[trigger] b1[j],
            ) by {
                assert(lex_less(b[i + 1], b[j + 1]));
            }
        }
        assert forall|x: Seq<u8>| a1.contains(x) <==> b1.contains(x) by {
            lemma_lex_irreflexive(a[0]);
            if a1.contains(x) {
                let i = choose|i: int| 0 <= i < a1.len() && a1[i] == x;
                assert(a[i + 1] == x);
                assert(lex_less(a[0], a[i + 1]));
                assert(a.contains(x));
                assert(b.contains(x));
                let m = choose|m: int| 0 <= m < b.len() && b[m] == x;
                assert(m != 0);
                assert(b1[m - 1] == x);
            }
            if b1.contains(x) {
                let i = choose|i: int| 0 <= i < b1.len() && b1[i] == x;
                assert(b[i + 1] == x);
                assert(lex_less(b[0], b[i + 1]));
                assert(b.contains(x));
                assert(a.contains(x));
                let m = choose|m: int| 0 <= m < a.len() && a[m] == x;
                assert(m != 0);
                assert(a1[m - 1] == x);
            }
        }
        lemma_canonical_unique(a1, b1);
        assert(a =~= seq![a[0]] + a1);
        assert(b =~= seq![b[0]] + b1);
    }
}

/// In a canonical sequence each key is found at its own position.
pub proof fn lemma_canonical_index(keys: Seq<Seq<u8>>, i: int)
    requires
        canonical(keys),
        0 <= i < keys.len(),
    ensures
        keys.contains(keys[i]),
        keys.index_of(keys[i]) == i,
{
    assert(keys.contains(keys[i]));
    let j = keys.index_of(keys[i]);
    assert(0 <= j < keys.len() && keys[j] == keys[i]);
    lemma_lex_irreflexive(keys[i]);
    if j < i {
        assert(lex_less(keys[j], keys[i]));
    } else if i < j {
        assert(lex_less(keys[i], keys[j]));
    }
}

/// Inserting a key between the keys below it and the keys above it keeps the
/// order canonical.
pub proof fn lemma_insert_canonical(keys: Seq<Seq<u8>>, p: int, key: Seq<u8>)
    requires
        canonical(keys),
        0 <= p <= keys.len(),
        forall|i: int| 0 <= i < p ==> lex_less(#[trigger] keys[i], key),
        forall|i: int| p <= i < keys.len() ==> lex_less(key, #[trigger] keys[i]),
    ensures
        canonical(keys.insert(p, key)),
{
    let out = keys.insert(p, key);
    assert forall|i: int, j: int| 0 <= i < j < out.len() implies lex_less(
        #[trigger] out[i],
        #[trigger] out[j],
    ) by {
        if j < p {
            assert(lex_less(keys[i], keys[j]));
        } else if j == p {
            assert(lex_less(keys[i], key));
        } else if i < p {
            assert(lex_less(keys[i], keys[j - 1]));
        } else if i == p {
            assert(lex_less(key, keys[j - 1]));
        } else {
            assert(lex_less(keys[i - 1], keys[j - 1]));
        }
    }
}

/// Offset basis of the 64-bit FNV-1a hash.
pub const FNV_OFFSET: u64 = 0xcbf2_9ce4_8422_2325;

/// Prime of the 64-bit FNV-1a hash.
pub const FNV_PRIME: u64 = 0x0000_0100_0000_01b3;

/// The byte that closes each key in the fingerprint, a value that no UTF-8
/// text contains.
pub const KEY_END: u8 = 0xff;

/// One step of FNV-1a: mix in a byte, then multiply modulo 2^64.
pub open spec fn fnv_step(h: u64, b: u8) -> u64 {
    (h ^ (b as u64)).wrapping_mul(FNV_PRIME)
}

/// FNV-1a over a byte string, starting from `h`.
pub open spec fn fnv_bytes(h: u64, s: Seq<u8>) -> u64
    decreases s.len(),
{
    if s.len() == 0 {
        h
    } else {
        fnv_step(fnv_bytes(h, s.drop_last()), s.last())
    }
}

/// FNV-1a over a sequence of keys, each closed by `KEY_END`, starting from `h`.
pub open spec fn fnv_keys(h: u64, keys: Seq<Seq<u8>>) -> u64
    decreases keys.len(),
{
    if keys.len() == 0 {
        h
    } else {
        fnv_step(fnv_bytes(fnv_keys(h, keys.drop_last()), keys.last()), KEY_END)
    }
}

/// The fingerprint of a participant set: FNV-1a over its keys in canonical
/// order.
pub open spec fn fingerprint(keys: Seq<Seq<u8>>) -> u64 {
    fnv_keys(FNV_OFFSET, keys)
}

/// Continues an FNV-1a hash over a byte string.
fn hash_bytes(h: u64, s: &[u8]) -> (r: u64)
    ensures
        r == fnv_bytes(h, s@),
{
    let mut acc = h;
    let mut i: usize = 0;
    while i < s.len()
        invariant
            i <= s@.len(),
            acc == fnv_bytes(h, s@.take(i as int)),
        decreases s@.len() - i,
    {
        proof {
            assert(s@.take(i + 1).drop_last() =~= s@.take(i as int));
        }
        acc = (acc ^ (s[i] as u64)).wrapping_mul(FNV_PRIME);
        i += 1;
    }
    assert(s@.take(i as int) =~= s@);
    acc
}

/// One participant as the registry files it.
#[derive(Debug)]
struct PeerEntry {
    text: String,
    id: PeerId,
    info: PeerInfo,
}

/// The participants of a ceremony, in the canonical order of their keys.
#[derive(Debug)]
pub struct Peers {
    entries: Vec<PeerEntry>,
}

impl Peers {
    /// The base-58 texts of the participants, in canonical order.
    pub closed spec fn texts(&self) -> Seq<Seq<char>> {
        self.entries@.map_values(|e: PeerEntry| e.text@)
    }

    /// The keys of the participants, in canonical order.
    pub closed spec fn canon(&self) -> Seq<Seq<u8>> {
        self.entries@.map_values(|e: PeerEntry| encode_utf8(e.text@))
    }

    /// The identifiers of the participants, in canonical order.
    pub closed spec fn ids(&self) -> Seq<PeerId> {
        self.entries@.map_values(|e: PeerEntry| e.id)
    }

    /// The lifecycle states of the participants, in canonical order.
    pub closed spec fn states(&self) -> Seq<PeerState> {
        self.entries@.map_values(|e: PeerEntry| e.info.state)
    }

    /// Well-formedness: the four sequences describe the same participants,
    /// each filed under the text of its identifier, which parses back to the
    /// identifier, in canonical order.
    pub open spec fn wf(&self) -> bool {
        &&& self.texts().len() == self.canon().len()
        &&& self.ids().len() == self.canon().len()
        &&& self.states().len() == self.canon().len()
        &&& canonical(self.canon())
        &&& forall|i: int|
            0 <= i < self.canon().len() ==> #[trigger] self.canon()[i] == encode_utf8(
                self.texts()[i],
            )
        &&& forall|i: int|
            0 <= i < self.canon().len() ==> #[trigger] self.texts()[i] == base58_text(
                self.ids()[i],
            )
        &&& forall|i: int|
            0 <= i < self.canon().len() ==> parsed_peer_id(#[trigger] self.texts()[i]) == Some(
                self.ids()[i],
            )
    }

    /// The position of a key in the canonical order, if it is known.
    pub open spec fn position(&self, key: Seq<u8>) -> Option<int> {
        if self.canon().contains(key) {
            Some(self.canon().index_of(key))
        } else {
            None
        }
    }

    /// The lifecycle state filed under a key, if it is known.
    pub open spec fn state_of(&self, key: Seq<u8>) -> Option<PeerState> {
        match self.position(key) {
            Some(p) => Some(self.states()[p]),
            None => None,
        }
    }

    /// An empty registry.
    pub fn new() -> (r: Self)
        ensures
            r.wf(),
            r.canon().len() == 0,
    {
        Peers { entries: Vec::new() }
    }

    /// The first position whose key is not below `key`, and whether `key`
    /// stands there, by bisection.
    fn locate(&self, key: &[u8]) -> (r: (usize, bool))
        requires
            self.wf(),
        ensures
            r.0 <= self.canon().len(),
            forall|i: int| 0 <= i < r.0 ==> lex_less(#[trigger] self.canon()[i], key@),
            r.1 ==> r.0 < self.canon().len() && self.canon()[r.0 as int] == key@,
            !r.1 ==> forall|i: int|
                r.0 <= i < self.canon().len() ==> lex_less(key@, #[trigger] self.canon()[i]),
            r.1 <==> self.canon().contains(key@),
            r.1 ==> self.position(key@) == Some(r.0 as int),
    {
        let mut lo: usize = 0;
        let mut hi: usize = self.entries.len();
        let mut found = false;
        while lo < hi
            invariant_except_break
                !found,
            invariant
                self.wf(),
                lo <= hi <= self.entries@.len(),
                forall|i: int| 0 <= i < lo ==> lex_less(#[trigger] self.canon()[i], key@),
                forall|i: int|
                    hi <= i < self.canon().len() ==> lex_less(key@, #[trigger] self.canon()[i]),
            ensures
                lo <= self.entries@.len(),
                forall|i: int| 0 <= i < lo ==> lex_less(#[trigger] self.canon()[i], key@),
                found ==> lo < self.canon().len() && self.canon()[lo as int] == key@,
                !found ==> forall|i: int|
                    lo <= i < self.canon().len() ==> lex_less(key@, #[trigger] self.canon()[i]),
            decreases hi - lo,
        {
            let mid = lo + (hi - lo) / 2;
            let rank = rank_bytes(self.entries[mid].text.as_str().as_bytes(), key);
            proof {
                let keys = self.canon();
                assert(keys[mid as int] == encode_utf8(self.entries@[mid as int].text@));
                match rank {
                    Rank::Below => {
                        assert forall|i: int| 0 <= i < mid + 1 implies lex_less(
                            #[trigger] keys[i],
                            key@,
                        ) by {
                            if i < mid {
                                assert(lex_less(keys[i], keys[mid as int]));
                                lemma_lex_transitive(keys[i], keys[mid as int], key@);
                            }
                        }
                    },
                    Rank::Same => {
                        assert forall|i: int| 0 <= i < mid implies lex_less(
                            #[trigger] keys[i],
                            key@,
                        ) by {
                            assert(lex_less(keys[i], keys[mid as int]));
                        }
                    },
                    Rank::Above => {
                        assert forall|i: int| mid <= i < keys.len() implies lex_less(
                            key@,
                            #[trigger] keys[i],
                        ) by {
                            if mid < i {
                                assert(lex_less(keys[mid as int], keys[i]));
                                lemma_lex_transitive(key@, keys[mid as int], keys[i]);
                            }
                        }
                    },
                }
            }
            match rank {
                Rank::Below => {
                    lo = mid + 1;
                },
                Rank::Same => {
                    lo = mid;
                    found = true;
                    break ;
                },
                Rank::Above => {
                    hi = mid;
                },
            }
        }
        let pos = lo;
        proof {
            let keys = self.canon();
            lemma_lex_irreflexive(key@);
            if found {
                lemma_canonical_index(keys, pos as int);
            } else if keys.contains(key@) {
                let i = choose|i: int| 0 <= i < keys.len() && keys[i] == key@;
                if i < pos {
                    assert(lex_less(keys[i], key@));
                } else {
                    assert(lex_less(key@, keys[i]));
                }
                assert(false);
            }
        }
        (pos, found)
    }

    /// Number of participants.
    pub fn len(&self) -> (n: usize)
        ensures
            n == self.canon().len(),
    {
        self.entries.len()
    }

    /// Takes note of `who`. A participant is created on first contact only:
    /// a new one is filed at its place in the canonical order, in the initial
    /// lifecycle state; a known one is left as it is.
    pub fn add(&mut self, who: PeerId)
        requires
            old(self).wf(),
        ensures
            final(self).wf(),
            match old(self).position(peer_key(who)) {
                Some(q) => *final(self) == *old(self),
                None => {
                    &&& final(self).position(peer_key(who)) matches Some(p)
                    &&& 0 <= p <= old(self).canon().len()
                    &&& final(self).canon() == old(self).canon().insert(p, peer_key(who))
                    &&& final(self).texts() == old(self).texts().insert(p, base58_text(who))
                    &&& final(self).ids() == old(self).ids().insert(p, who)
                    &&& final(self).states() == old(self).states().insert(
                        p,
                        PeerState::AwaitingPeers,
                    )
                },
            },
    {
        let text = to_base58(&who);
        let (pos, found) = self.locate(text.as_str().as_bytes());
        let ghost before = *self;
        let ghost key = peer_key(who);
        if !found {
            let entry = PeerEntry {
                text: text,
                id: who,
                info: PeerInfo { state: PeerState::AwaitingPeers },
            };
            self.entries.insert(pos, entry);
            proof {
                let p = pos as int;
                assert(self.canon() =~= before.canon().insert(p, key));
                assert(self.texts() =~= before.texts().insert(p, base58_text(who)));
                assert(self.ids() =~= before.ids().insert(p, who));
                assert(self.states() =~= before.states().insert(p, PeerState::AwaitingPeers));
                lemma_insert_canonical(before.canon(), p, key);
                lemma_canonical_index(self.canon(), p);
                assert forall|i: int| 0 <= i < self.canon().len() implies #[trigger] self.canon()[i]
                    == encode_utf8(self.texts()[i]) by {
                    if i < p {
                        assert(before.canon()[i] == encode_utf8(before.texts()[i]));
                    } else if i > p {
                        assert(before.canon()[i - 1] == encode_utf8(before.texts()[i - 1]));
                    }
                }
                assert forall|i: int| 0 <= i < self.canon().len() implies #[trigger] self.texts()[i]
                    == base58_text(self.ids()[i]) by {
                    if i < p {
                        assert(before.texts()[i] == base58_text(before.ids()[i]));
                    } else if i > p {
                        assert(before.texts()[i - 1] == base58_text(before.ids()[i - 1]));
                    }
                }
            }
        }
    }

    /// Takes note that `who` has left. A participant is never destroyed and
    /// no index is given up: the one that has left keeps its place and is
    /// marked as canceled, and all others stay as they are. Nothing changes
    /// for an unknown participant.
    pub fn del(&mut self, who: &PeerId)
        requires
            old(self).wf(),
        ensures
            final(self).wf(),
            match old(self).position(peer_key(*who)) {
                Some(p) => {
                    &&& final(self).canon() == old(self).canon()
                    &&& final(self).texts() == old(self).texts()
                    &&& final(self).ids() == old(self).ids()
                    &&& final(self).states() == old(self).states().update(p, PeerState::Canceled)
                },
                None => *final(self) == *old(self),
            },
    {
        if self.contains_peer_id(who) {
            self.set_state(who, PeerState::Canceled);
        }
    }

    /// Whether `who` is a known participant.
    pub fn contains_peer_id(&self, who: &PeerId) -> (b: bool)
        requires
            self.wf(),
        ensures
            b == self.position(peer_key(*who)) is Some,
    {
        let text = to_base58(who);
        let (_pos, found) = self.locate(text.as_str().as_bytes());
        found
    }

    /// The lifecycle state of `who`, if it is a known participant.
    pub fn get_state(&self, who: &PeerId) -> (r: Option<PeerState>)
        requires
            self.wf(),
        ensures
            r == self.state_of(peer_key(*who)),
    {
        let text = to_base58(who);
        let (pos, found) = self.locate(text.as_str().as_bytes());
        if found {
            Some(self.entries[pos].info.state)
        } else {
            None
        }
    }

    /// Sets the lifecycle state of `who`, which must be a known participant.
    pub fn set_state(&mut self, who: &PeerId, state: PeerState)
        requires
            old(self).wf(),
            old(self).position(peer_key(*who)) is Some,
        ensures
            final(self).wf(),
            final(self).canon() == old(self).canon(),
            final(self).texts() == old(self).texts(),
            final(self).ids() == old(self).ids(),
            final(self).states() == old(self).states().update(
                old(self).position(peer_key(*who))->0,
                state,
            ),
    {
        let text = to_base58(who);
        let (pos, found) = self.locate(text.as_str().as_bytes());
        let ghost before = *self;
        let entry = PeerEntry { text: text, id: self.entries[pos].id, info: PeerInfo { state } };
        self.entries.set(pos, entry);
        proof {
            assert(self.canon() =~= before.canon());
            assert(self.texts() =~= before.texts()) by {
                assert forall|i: int| 0 <= i < self.texts().len() implies self.texts()[i]
                    == before.texts()[i] by {
                    if i == pos {
                        lemma_same_text(before, pos as int, *who);
                    }
                }
            }
            assert(self.ids() =~= before.ids());
            assert(self.states() =~= before.states().update(pos as int, state));
        }
    }

    /// The fingerprint of the participant set.
    pub fn get_hash(&self) -> (h: u64)
        ensures
            h == fingerprint(self.canon()),
    {
        let mut acc = FNV_OFFSET;
        let mut i: usize = 0;
        while i < self.entries.len()
            invariant
                i <= self.entries@.len(),
                self.canon().len() == self.entries@.len(),
                acc == fnv_keys(FNV_OFFSET, self.canon().take(i as int)),
            decreases self.entries@.len() - i,
        {
            proof {
                assert(self.canon().take(i + 1).drop_last() =~= self.canon().take(i as int));
                assert(self.canon()[i as int] == encode_utf8(self.entries@[i as int].text@));
            }
            acc = hash_bytes(acc, self.entries[i].text.as_str().as_bytes());
            acc = (acc ^ (KEY_END as u64)).wrapping_mul(FNV_PRIME);
            i += 1;
        }
        assert(self.canon().take(i as int) =~= self.canon());
        acc
    }

    /// The index of `who` in the canonical order, if it is a known
    /// participant.
    pub fn get_position(&self, who: &PeerId) -> (r: Option<usize>)
        requires
            self.wf(),
        ensures
            match r {
                Some(p) => self.position(peer_key(*who)) == Some(p as int),
                None => self.position(peer_key(*who)) is None,
            },
    {
        let text = to_base58(who);
        let (pos, found) = self.locate(text.as_str().as_bytes());
        if found {
            Some(pos)
        } else {
            None
        }
    }

    /// The identifier that the text at `index` of the canonical order parses
    /// to; none where the index is out of range or the text does not parse.
    /// In a well-formed registry that is the participant at `index`.
    pub fn get_peer_id_by_index(&self, index: usize) -> (r: Option<PeerId>)
        ensures
            r == if index < self.texts().len() {
                parsed_peer_id(self.texts()[index as int])
            } else {
                None
            },
            self.wf() ==> r == if index < self.ids().len() {
                Some(self.ids()[index as int])
            } else {
                None
            },
    {
        if index < self.entries.len() {
            from_base58(self.entries[index].text.as_str())
        } else {
            None
        }
    }

    /// The lifecycle state of the participant at `index` of the canonical
    /// order.
    pub fn state_at(&self, index: usize) -> (r: PeerState)
        requires
            index < self.states().len(),
        ensures
            r == self.states()[index as int],
    {
        self.entries[index].info.state
    }

    /// The identifiers of the participants, in canonical order.
    pub fn keys(&self) -> (r: Vec<PeerId>)
        ensures
            r@ == self.ids(),
    {
        let mut out: Vec<PeerId> = Vec::new();
        let mut i: usize = 0;
        while i < self.entries.len()
            invariant
                i <= self.entries@.len(),
                out@ == self.ids().take(i as int),
            decreases self.entries@.len() - i,
        {
            out.push(self.entries[i].id);
            proof {
                assert(out@ =~= self.ids().take(i + 1));
            }
            i += 1;
        }
        assert(self.ids().take(i as int) =~= self.ids());
        out
    }

    /// The participants with what is recorded about each, in canonical order.
    pub fn iter(&self) -> (r: Vec<(PeerId, PeerInfo)>)
        ensures
            r@.len() == self.ids().len(),
            forall|i: int|
                0 <= i < r@.len() ==> (#[trigger] r@[i]).0 == self.ids()[i] && r@[i].1.state
                    == self.states()[i],
    {
        let mut out: Vec<(PeerId, PeerInfo)> = Vec::new();
        let mut i: usize = 0;
        while i < self.entries.len()
            invariant
                i <= self.entries@.len(),
                out@.len() == i,
                forall|j: int|
                    0 <= j < i ==> (#[trigger] out@[j]).0 == self.ids()[j] && out@[j].1.state
                        == self.states()[j],
            decreases self.entries@.len() - i,
        {
            out.push((self.entries[i].id, self.entries[i].info));
            i += 1;
        }
        out
    }
}

impl Default for Peers {
    fn default() -> (r: Self)
        ensures
            r.wf(),
            r.canon().len() == 0,
    {
        Peers::new()
    }
}

/// A participant filed under the key of `who` is filed under the text of
/// `who`: a text is determined by its bytes.
proof fn lemma_same_text(peers: Peers, p: int, who: PeerId)
    requires
        peers.wf(),
        0 <= p < peers.canon().len(),
        peers.canon()[p] == peer_key(who),
    ensures
        peers.texts()[p] == base58_text(who),
{
    let t = peers.texts()[p];
    assert(peers.canon()[p] == encode_utf8(t));
    vstd::utf8::encode_utf8_decode_utf8(t);
    vstd::utf8::encode_utf8_decode_utf8(base58_text(who));
}

/// Deterministic indexing: two registries that know the same participants
/// file every identity at the same position, and compute the same
/// fingerprint.
pub proof fn law_deterministic_indexing(p: Peers, q: Peers, who: PeerId)
    requires
        p.wf(),
        q.wf(),
        forall|key: Seq<u8>| p.position(key) is Some <==> q.position(key) is Some,
    ensures
        p.canon() == q.canon(),
        p.position(peer_key(who)) == q.position(peer_key(who)),
        fingerprint(p.canon()) == fingerprint(q.canon()),
{
    assert forall|x: Seq<u8>| p.canon().contains(x) <==> q.canon().contains(x) by {
        assert(p.position(x) is Some <==> q.position(x) is Some);
    }
    lemma_canonical_unique(p.canon(), q.canon());
}

} // verus!
