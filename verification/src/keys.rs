//! The keys of the index: the search keys that clients subscribe to and
//! query by, and the record keys under which each event is stored. A record
//! key is the search key's bytes followed by the big-endian block number and
//! event index, so that all records of one search key share a prefix.
use vstd::prelude::*;
use crate::bytes::{be_bytes, lemma_be_bytes_injective, lemma_be_value_of_bytes};

verus! {

/// Thirty-two raw bytes: an account id or a hash.
#[derive(Clone, Copy, Debug, PartialEq, Eq, Hash)]
pub struct Bytes32(pub [u8; 32]);

/// Whether two arrays of 32 bytes hold the same bytes.
pub fn bytes32_eq(a: &[u8; 32], b: &[u8; 32]) -> (r: bool)
    ensures
        r == (*a == *b),
{
    let mut i: usize = 0;
    while i < 32
        invariant
            0 <= i <= 32,
            forall|j: int| 0 <= j < i ==> a[j] == b[j],
        decreases 32 - i,
    {
        if a[i] != b[i] {
            return false;
        }
        i = i + 1;
    }
    assert(*a =~= *b);
    true
}

/// What a client searches for: an event kind, or a value that events carry.
#[derive(Clone, Copy, Debug, PartialEq, Eq, Hash)]
pub enum Key {
    Variant(u8, u8),
    AccountId(Bytes32),
    AccountIndex(u32),
    AuctionIndex(u32),
    BountyIndex(u32),
    CandidateHash(Bytes32),
    EraIndex(u32),
    MessageId(Bytes32),
    ParaId(u32),
    PoolId(u32),
    PreimageHash(Bytes32),
    ProposalHash(Bytes32),
    ProposalIndex(u32),
    RefIndex(u32),
    RegistrarIndex(u32),
    SessionIndex(u32),
    TipHash(Bytes32),
}

/// The tree of the database that holds the records of one kind of key.
#[derive(Clone, Copy, Debug, PartialEq, Eq, Hash)]
pub enum IndexTree {
    Variant,
    AccountId,
    AccountIndex,
    AuctionIndex,
    BountyIndex,
    CandidateHash,
    EraIndex,
    MessageId,
    ParaId,
    PoolId,
    PreimageHash,
    ProposalHash,
    ProposalIndex,
    RefIndex,
    RegistrarIndex,
    SessionIndex,
    TipHash,
}

/// An event of the chain: the block that holds it and its place in the block.
#[derive(Clone, Copy, Debug, PartialEq, Eq, Hash, Structural)]
pub struct Event {
    pub block_number: u32,
    pub event_index: u32,
}

/// The tree in which the records of search key `k` are stored.
pub open spec fn tree_of(k: Key) -> IndexTree {
    match k {
        Key::Variant(..) => IndexTree::Variant,
        Key::AccountId(..) => IndexTree::AccountId,
        Key::AccountIndex(..) => IndexTree::AccountIndex,
        Key::AuctionIndex(..) => IndexTree::AuctionIndex,
        Key::BountyIndex(..) => IndexTree::BountyIndex,
        Key::CandidateHash(..) => IndexTree::CandidateHash,
        Key::EraIndex(..) => IndexTree::EraIndex,
        Key::MessageId(..) => IndexTree::MessageId,
        Key::ParaId(..) => IndexTree::ParaId,
        Key::PoolId(..) => IndexTree::PoolId,
        Key::PreimageHash(..) => IndexTree::PreimageHash,
        Key::ProposalHash(..) => IndexTree::ProposalHash,
        Key::ProposalIndex(..) => IndexTree::ProposalIndex,
        Key::RefIndex(..) => IndexTree::RefIndex,
        Key::RegistrarIndex(..) => IndexTree::RegistrarIndex,
        Key::SessionIndex(..) => IndexTree::SessionIndex,
        Key::TipHash(..) => IndexTree::TipHash,
    }
}

/// The bytes that begin every record key of search key `k`.
pub open spec fn key_bytes(k: Key) -> Seq<u8> {
    match k {
        Key::Variant(pallet_index, variant_index) => seq![pallet_index, variant_index],
        Key::AccountId(b) => b.0@,
        Key::AccountIndex(x) => be_bytes(x),
        Key::AuctionIndex(x) => be_bytes(x),
        Key::BountyIndex(x) => be_bytes(x),
        Key::CandidateHash(b) => b.0@,
        Key::EraIndex(x) => be_bytes(x),
        Key::MessageId(b) => b.0@,
        Key::ParaId(x) => be_bytes(x),
        Key::PoolId(x) => be_bytes(x),
        Key::PreimageHash(b) => b.0@,
        Key::ProposalHash(b) => b.0@,
        Key::ProposalIndex(x) => be_bytes(x),
        Key::RefIndex(x) => be_bytes(x),
        Key::RegistrarIndex(x) => be_bytes(x),
        Key::SessionIndex(x) => be_bytes(x),
        Key::TipHash(b) => b.0@,
    }
}

/// The bytes of a record key: `prefix`, then the block number and the event
/// index, both big-endian.
pub open spec fn record_bytes(prefix: Seq<u8>, block_number: u32, event_index: u32) -> Seq<u8> {
    prefix + be_bytes(block_number) + be_bytes(event_index)
}

/// The record key under which `event` is stored for search key `k`.
pub open spec fn record_key_bytes(k: Key, event: Event) -> Seq<u8> {
    record_bytes(key_bytes(k), event.block_number, event.event_index)
}

impl Key {
    /// The tree in which the records of this key are stored.
    pub fn tree(&self) -> (t: IndexTree)
        ensures
            t == tree_of(*self),
    {
        match self {
            Key::Variant(..) => IndexTree::Variant,
            Key::AccountId(..) => IndexTree::AccountId,
            Key::AccountIndex(..) => IndexTree::AccountIndex,
            Key::AuctionIndex(..) => IndexTree::AuctionIndex,
            Key::BountyIndex(..) => IndexTree::BountyIndex,
            Key::CandidateHash(..) => IndexTree::CandidateHash,
            Key::EraIndex(..) => IndexTree::EraIndex,
            Key::MessageId(..) => IndexTree::MessageId,
            Key::ParaId(..) => IndexTree::ParaId,
            Key::PoolId(..) => IndexTree::PoolId,
            Key::PreimageHash(..) => IndexTree::PreimageHash,
            Key::ProposalHash(..) => IndexTree::ProposalHash,
            Key::ProposalIndex(..) => IndexTree::ProposalIndex,
            Key::RefIndex(..) => IndexTree::RefIndex,
            Key::RegistrarIndex(..) => IndexTree::RegistrarIndex,
            Key::SessionIndex(..) => IndexTree::SessionIndex,
            Key::TipHash(..) => IndexTree::TipHash,
        }
    }

    /// Whether this key and `other` are the same search key.
    pub fn same_as(&self, other: &Key) -> (r: bool)
        ensures
            r == (*self == *other),
    {
        match (self, other) {
            (Key::Variant(p1, v1), Key::Variant(p2, v2)) => *p1 == *p2 && *v1 == *v2,
            (Key::AccountId(a), Key::AccountId(b)) => bytes32_eq(&a.0, &b.0),
            (Key::AccountIndex(a), Key::AccountIndex(b)) => *a == *b,
            (Key::AuctionIndex(a), Key::AuctionIndex(b)) => *a == *b,
            (Key::BountyIndex(a), Key::BountyIndex(b)) => *a == *b,
            (Key::CandidateHash(a), Key::CandidateHash(b)) => bytes32_eq(&a.0, &b.0),
            (Key::EraIndex(a), Key::EraIndex(b)) => *a == *b,
            (Key::MessageId(a), Key::MessageId(b)) => bytes32_eq(&a.0, &b.0),
            (Key::ParaId(a), Key::ParaId(b)) => *a == *b,
            (Key::PoolId(a), Key::PoolId(b)) => *a == *b,
            (Key::PreimageHash(a), Key::PreimageHash(b)) => bytes32_eq(&a.0, &b.0),
            (Key::ProposalHash(a), Key::ProposalHash(b)) => bytes32_eq(&a.0, &b.0),
            (Key::ProposalIndex(a), Key::ProposalIndex(b)) => *a == *b,
            (Key::RefIndex(a), Key::RefIndex(b)) => *a == *b,
            (Key::RegistrarIndex(a), Key::RegistrarIndex(b)) => *a == *b,
            (Key::SessionIndex(a), Key::SessionIndex(b)) => *a == *b,
            (Key::TipHash(a), Key::TipHash(b)) => bytes32_eq(&a.0, &b.0),
            _ => false,
        }
    }
}

/// Byte-wise lexicographic order, the order in which the database walks a
/// tree: `a` comes before `b`.
pub open spec fn lex_lt(a: Seq<u8>, b: Seq<u8>) -> bool
    decreases a.len(),
{
    if a.len() == 0 {
        b.len() > 0
    } else if b.len() == 0 {
        false
    } else if a[0] != b[0] {
        a[0] < b[0]
    } else {
        lex_lt(a.drop_first(), b.drop_first())
    }
}

/// No sequence comes before itself.
pub proof fn lemma_lex_irreflexive(a: Seq<u8>)
    ensures
        !lex_lt(a, a),
    decreases a.len(),
{
    if a.len() > 0 {
        lemma_lex_irreflexive(a.drop_first());
    }
}

/// A common prefix does not change the order.
pub proof fn lemma_lex_common_prefix(p: Seq<u8>, x: Seq<u8>, y: Seq<u8>)
    ensures
        lex_lt(p + x, p + y) == lex_lt(x, y),
    decreases p.len(),
{
    if p.len() > 0 {
        assert((p + x).drop_first() =~= p.drop_first() + x);
        assert((p + y).drop_first() =~= p.drop_first() + y);
        lemma_lex_common_prefix(p.drop_first(), x, y);
    } else {
        assert(p + x =~= x);
        assert(p + y =~= y);
    }
}

/// Big-endian encodings of different numbers are ordered as the numbers are,
/// whatever follows them.
pub proof fn lemma_lex_be(a: u32, b: u32, x: Seq<u8>, y: Seq<u8>)
    requires
        a != b,
    ensures
        lex_lt(be_bytes(a) + x, be_bytes(b) + y) == (a < b),
{
    let s = be_bytes(a) + x;
    let t = be_bytes(b) + y;
    lemma_be_value_of_bytes(a);
    lemma_be_value_of_bytes(b);
    let (a0, a1, a2, a3) = (s[0] as int, s[1] as int, s[2] as int, s[3] as int);
    let (b0, b1, b2, b3) = (t[0] as int, t[1] as int, t[2] as int, t[3] as int);
    assert(a == a0 * 0x100_0000 + a1 * 0x1_0000 + a2 * 0x100 + a3);
    assert(b == b0 * 0x100_0000 + b1 * 0x1_0000 + b2 * 0x100 + b3);
    let s1 = s.drop_first();
    let t1 = t.drop_first();
    let s2 = s1.drop_first();
    let t2 = t1.drop_first();
    let s3 = s2.drop_first();
    let t3 = t2.drop_first();
    assert(s1[0] == s[1] && s2[0] == s[2] && s3[0] == s[3]);
    assert(t1[0] == t[1] && t2[0] == t[2] && t3[0] == t[3]);
    assert(s.len() >= 4 && t.len() >= 4);
    assert(0 <= a1 < 256 && 0 <= a2 < 256 && 0 <= a3 < 256);
    assert(0 <= b1 < 256 && 0 <= b2 < 256 && 0 <= b3 < 256);
    if a0 != b0 {
        assert(lex_lt(s, t) == (a0 < b0));
    } else {
        assert(lex_lt(s, t) == lex_lt(s1, t1));
        if a1 != b1 {
            assert(lex_lt(s1, t1) == (a1 < b1));
        } else {
            assert(lex_lt(s1, t1) == lex_lt(s2, t2));
            if a2 != b2 {
                assert(lex_lt(s2, t2) == (a2 < b2));
            } else {
                assert(lex_lt(s2, t2) == lex_lt(s3, t3));
                assert(a3 != b3);
                assert(lex_lt(s3, t3) == (a3 < b3));
            }
        }
    }
}

/// Within one search key, record keys are ordered by block number, then by
/// event index: walking a search key's records in the database visits its
/// events in the order they happened on the chain.
pub proof fn lemma_record_order(k: Key, e1: Event, e2: Event)
    ensures
        lex_lt(record_key_bytes(k, e1), record_key_bytes(k, e2)) == (e1.block_number < e2.block_number
            || (e1.block_number == e2.block_number && e1.event_index < e2.event_index)),
{
    let p = key_bytes(k);
    let x1 = be_bytes(e1.block_number) + be_bytes(e1.event_index);
    let x2 = be_bytes(e2.block_number) + be_bytes(e2.event_index);
    assert(record_key_bytes(k, e1) =~= p + x1);
    assert(record_key_bytes(k, e2) =~= p + x2);
    lemma_lex_common_prefix(p, x1, x2);
    if e1.block_number != e2.block_number {
        lemma_lex_be(e1.block_number, e2.block_number, be_bytes(e1.event_index), be_bytes(e2.event_index));
    } else {
        lemma_lex_common_prefix(be_bytes(e1.block_number), be_bytes(e1.event_index), be_bytes(e2.event_index));
        if e1.event_index != e2.event_index {
            lemma_lex_be(e1.event_index, e2.event_index, Seq::empty(), Seq::empty());
            assert(be_bytes(e1.event_index) + Seq::<u8>::empty() =~= be_bytes(e1.event_index));
            assert(be_bytes(e2.event_index) + Seq::<u8>::empty() =~= be_bytes(e2.event_index));
        } else {
            lemma_lex_irreflexive(be_bytes(e1.event_index));
        }
    }
}

/// The length of the bytes of a search key, which only its tree decides.
pub open spec fn key_len(t: IndexTree) -> nat {
    match t {
        IndexTree::Variant => 2,
        IndexTree::AccountId | IndexTree::CandidateHash | IndexTree::MessageId
        | IndexTree::PreimageHash | IndexTree::ProposalHash | IndexTree::TipHash => 32,
        _ => 4,
    }
}

/// The bytes of a search key are as long as its tree says.
pub proof fn lemma_key_len(k: Key)
    ensures
        key_bytes(k).len() == key_len(tree_of(k)),
{
}

/// Two search keys of one tree with the same bytes are the same key.
pub proof fn lemma_key_bytes_injective(k1: Key, k2: Key)
    requires
        tree_of(k1) == tree_of(k2),
        key_bytes(k1) == key_bytes(k2),
    ensures
        k1 == k2,
{
    match (k1, k2) {
        (Key::Variant(p1, v1), Key::Variant(p2, v2)) => {
            assert(key_bytes(k1)[0] == p1 && key_bytes(k2)[0] == p2);
            assert(key_bytes(k1)[1] == v1 && key_bytes(k2)[1] == v2);
        },
        (Key::AccountId(a), Key::AccountId(b)) => { assert(a.0 =~= b.0); },
        (Key::CandidateHash(a), Key::CandidateHash(b)) => { assert(a.0 =~= b.0); },
        (Key::MessageId(a), Key::MessageId(b)) => { assert(a.0 =~= b.0); },
        (Key::PreimageHash(a), Key::PreimageHash(b)) => { assert(a.0 =~= b.0); },
        (Key::ProposalHash(a), Key::ProposalHash(b)) => { assert(a.0 =~= b.0); },
        (Key::TipHash(a), Key::TipHash(b)) => { assert(a.0 =~= b.0); },
        (Key::AccountIndex(a), Key::AccountIndex(b)) => { lemma_be_bytes_injective(a, b); },
        (Key::AuctionIndex(a), Key::AuctionIndex(b)) => { lemma_be_bytes_injective(a, b); },
        (Key::BountyIndex(a), Key::BountyIndex(b)) => { lemma_be_bytes_injective(a, b); },
        (Key::EraIndex(a), Key::EraIndex(b)) => { lemma_be_bytes_injective(a, b); },
        (Key::ParaId(a), Key::ParaId(b)) => { lemma_be_bytes_injective(a, b); },
        (Key::PoolId(a), Key::PoolId(b)) => { lemma_be_bytes_injective(a, b); },
        (Key::ProposalIndex(a), Key::ProposalIndex(b)) => { lemma_be_bytes_injective(a, b); },
        (Key::RefIndex(a), Key::RefIndex(b)) => { lemma_be_bytes_injective(a, b); },
        (Key::RegistrarIndex(a), Key::RegistrarIndex(b)) => { lemma_be_bytes_injective(a, b); },
        (Key::SessionIndex(a), Key::SessionIndex(b)) => { lemma_be_bytes_injective(a, b); },
        _ => {},
    }
}

/// A record key of a tree begins with the bytes of exactly one search key:
/// the records that a walk over the prefix of `k` finds in `k`'s tree are
/// the records of `k` and no other key.
pub proof fn lemma_record_prefix(k: Key, other: Key, e: Event)
    requires
        tree_of(other) == tree_of(k),
    ensures
        record_key_bytes(k, e).subrange(0, key_bytes(k).len() as int) == key_bytes(k),
        record_key_bytes(other, e).subrange(0, key_bytes(k).len() as int) == key_bytes(k) ==> other == k,
{
    lemma_key_len(k);
    lemma_key_len(other);
    assert(record_key_bytes(k, e).subrange(0, key_bytes(k).len() as int) =~= key_bytes(k));
    assert(record_key_bytes(other, e).subrange(0, key_bytes(k).len() as int) =~= key_bytes(other));
    if key_bytes(other) == key_bytes(k) {
        lemma_key_bytes_injective(other, k);
    }
}

/// Within a tree, different events, or the same event under different search
/// keys, have different record keys: indexing never overwrites another
/// record.
pub proof fn lemma_record_key_injective(k1: Key, e1: Event, k2: Key, e2: Event)
    requires
        tree_of(k1) == tree_of(k2),
        record_key_bytes(k1, e1) == record_key_bytes(k2, e2),
    ensures
        k1 == k2,
        e1 == e2,
{
    lemma_key_len(k1);
    lemma_key_len(k2);
    let n = key_bytes(k1).len() as int;
    let r1 = record_key_bytes(k1, e1);
    let r2 = record_key_bytes(k2, e2);
    assert(r1.subrange(0, n) =~= key_bytes(k1));
    assert(r2.subrange(0, n) =~= key_bytes(k2));
    lemma_key_bytes_injective(k1, k2);
    assert(r1.subrange(n, n + 4) =~= be_bytes(e1.block_number));
    assert(r2.subrange(n, n + 4) =~= be_bytes(e2.block_number));
    assert(r1.subrange(n + 4, n + 8) =~= be_bytes(e1.event_index));
    assert(r2.subrange(n + 4, n + 8) =~= be_bytes(e2.event_index));
    lemma_be_bytes_injective(e1.block_number, e2.block_number);
    lemma_be_bytes_injective(e1.event_index, e2.event_index);
}

} // verus!
