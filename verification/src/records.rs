//! The record keys of the index. Each serializes to the bytes of its search
//! key followed by the big-endian block number and event index, and each
//! reads back from those bytes.
use vstd::prelude::*;
use crate::bytes::{be_bytes, be_value, lemma_be_value_of_bytes, push_bytes32, push_u32_be, read_bytes32, read_u32_be};
use crate::keys::record_bytes;

verus! {

/// The record of an event under its pallet and variant.
#[derive(Clone, Copy, Debug, PartialEq, Eq, Hash, Structural)]
pub struct VariantKey {
    pub pallet_index: u8,
    pub variant_index: u8,
    pub block_number: u32,
    pub event_index: u32,
}

/// The record of an event under an account id it names.
#[derive(Clone, Copy, Debug, PartialEq, Eq, Hash)]
pub struct AccountIdKey {
    pub account_id: [u8; 32],
    pub block_number: u32,
    pub event_index: u32,
}

/// The record of an event under a `u32` value it names (an index or an id).
#[derive(Clone, Copy, Debug, PartialEq, Eq, Hash, Structural)]
pub struct U32Key {
    pub key: u32,
    pub block_number: u32,
    pub event_index: u32,
}

/// The record of an event under a candidate hash it names.
#[derive(Clone, Copy, Debug, PartialEq, Eq, Hash)]
pub struct CandidateHashKey {
    pub candidate_hash: [u8; 32],
    pub block_number: u32,
    pub event_index: u32,
}

/// The record of an event under a preimage or proposal hash it names.
#[derive(Clone, Copy, Debug, PartialEq, Eq, Hash)]
pub struct HashKey {
    pub hash: [u8; 32],
    pub block_number: u32,
    pub event_index: u32,
}

/// The record of an event under a message id it names.
#[derive(Clone, Copy, Debug, PartialEq, Eq, Hash)]
pub struct MessageIdKey {
    pub message_id: [u8; 32],
    pub block_number: u32,
    pub event_index: u32,
}

/// The record of an event under a tip hash it names.
#[derive(Clone, Copy, Debug, PartialEq, Eq, Hash)]
pub struct TipHashKey {
    pub tip_hash: [u8; 32],
    pub block_number: u32,
    pub event_index: u32,
}

/// The length of a record key whose search key is 32 bytes long.
pub const BYTES32_RECORD_LEN: usize = 40;

/// The length of a record key whose search key is a `u32`.
pub const U32_RECORD_LEN: usize = 12;

/// The length of a record key whose search key is a pallet and a variant.
pub const VARIANT_RECORD_LEN: usize = 10;

/// The bytes of a record key with a 32-byte search key.
fn serialize_bytes32_record(b: &[u8; 32], block_number: u32, event_index: u32) -> (r: Vec<u8>)
    ensures
        r@ == record_bytes(b@, block_number, event_index),
{
    let mut v: Vec<u8> = Vec::new();
    push_bytes32(&mut v, b);
    push_u32_be(&mut v, block_number);
    push_u32_be(&mut v, event_index);
    v
}

/// The bytes of a record key with a `u32` search key.
fn serialize_u32_record(key: u32, block_number: u32, event_index: u32) -> (r: Vec<u8>)
    ensures
        r@ == record_bytes(be_bytes(key), block_number, event_index),
{
    let mut v: Vec<u8> = Vec::new();
    push_u32_be(&mut v, key);
    push_u32_be(&mut v, block_number);
    push_u32_be(&mut v, event_index);
    v
}

/// Reads back a record key with a 32-byte search key.
fn unserialize_bytes32_record(bytes: &[u8]) -> (r: ([u8; 32], u32, u32))
    requires
        bytes@.len() >= 40,
    ensures
        r.0@ == bytes@.subrange(0, 32),
        r.1 == be_value(bytes@.subrange(32, 36)),
        r.2 == be_value(bytes@.subrange(36, 40)),
        forall|b: [u8; 32], x: u32, y: u32|
            bytes@ == #[trigger] record_bytes(b@, x, y) ==> r == (b, x, y),
{
    let b = read_bytes32(bytes, 0);
    let x = read_u32_be(bytes, 32);
    let y = read_u32_be(bytes, 36);
    assert forall|b2: [u8; 32], x2: u32, y2: u32|
        bytes@ == #[trigger] record_bytes(b2@, x2, y2) implies (b, x, y) == (b2, x2, y2) by {
        let s = record_bytes(b2@, x2, y2);
        assert(s.subrange(0, 32) =~= b2@);
        assert(s.subrange(32, 36) =~= be_bytes(x2));
        assert(s.subrange(36, 40) =~= be_bytes(y2));
        lemma_be_value_of_bytes(x2);
        lemma_be_value_of_bytes(y2);
        assert(b =~= b2);
    }
    (b, x, y)
}

/// Reads back a record key with a `u32` search key.
fn unserialize_u32_record(bytes: &[u8]) -> (r: (u32, u32, u32))
    requires
        bytes@.len() >= 12,
    ensures
        r.0 == be_value(bytes@.subrange(0, 4)),
        r.1 == be_value(bytes@.subrange(4, 8)),
        r.2 == be_value(bytes@.subrange(8, 12)),
        forall|k: u32, x: u32, y: u32|
            bytes@ == #[trigger] record_bytes(be_bytes(k), x, y) ==> r == (k, x, y),
{
    let k = read_u32_be(bytes, 0);
    let x = read_u32_be(bytes, 4);
    let y = read_u32_be(bytes, 8);
    assert forall|k2: u32, x2: u32, y2: u32|
        bytes@ == #[trigger] record_bytes(be_bytes(k2), x2, y2) implies (k, x, y) == (k2, x2, y2) by {
        let s = record_bytes(be_bytes(k2), x2, y2);
        assert(s.subrange(0, 4) =~= be_bytes(k2));
        assert(s.subrange(4, 8) =~= be_bytes(x2));
        assert(s.subrange(8, 12) =~= be_bytes(y2));
        lemma_be_value_of_bytes(k2);
        lemma_be_value_of_bytes(x2);
        lemma_be_value_of_bytes(y2);
    }
    (k, x, y)
}

impl VariantKey {
    /// The bytes of this record key.
    pub open spec fn encoded(self) -> Seq<u8> {
        record_bytes(seq![self.pallet_index, self.variant_index], self.block_number, self.event_index)
    }

    /// Serializes this record key: pallet index, variant index, block number,
    /// event index.
    pub fn serialize(&self) -> (r: Vec<u8>)
        ensures
            r@ == self.encoded(),
            r@.len() == VARIANT_RECORD_LEN,
    {
        let mut v: Vec<u8> = Vec::new();
        v.push(self.pallet_index);
        v.push(self.variant_index);
        push_u32_be(&mut v, self.block_number);
        push_u32_be(&mut v, self.event_index);
        assert(v@ =~= self.encoded());
        v
    }

    /// Reads a record key back from the first ten bytes of `bytes`; the
    /// bytes of a record key give that record key.
    pub fn unserialize(bytes: &[u8]) -> (r: VariantKey)
        requires
            bytes@.len() >= VARIANT_RECORD_LEN,
        ensures
            r.pallet_index == bytes@[0],
            r.variant_index == bytes@[1],
            r.block_number == be_value(bytes@.subrange(2, 6)),
            r.event_index == be_value(bytes@.subrange(6, 10)),
            forall|k: VariantKey| bytes@ == #[trigger] k.encoded() ==> r == k,
    {
        let r = VariantKey {
            pallet_index: bytes[0],
            variant_index: bytes[1],
            block_number: read_u32_be(bytes, 2),
            event_index: read_u32_be(bytes, 6),
        };
        assert forall|k: VariantKey| bytes@ == #[trigger] k.encoded() implies r == k by {
            let s = k.encoded();
            assert(s.subrange(2, 6) =~= be_bytes(k.block_number));
            assert(s.subrange(6, 10) =~= be_bytes(k.event_index));
            lemma_be_value_of_bytes(k.block_number);
            lemma_be_value_of_bytes(k.event_index);
        }
        r
    }
}

impl AccountIdKey {
    /// The bytes of this record key.
    pub open spec fn encoded(self) -> Seq<u8> {
        record_bytes(self.account_id@, self.block_number, self.event_index)
    }

    /// Serializes this record key: account id, block number, event index.
    pub fn serialize(&self) -> (r: Vec<u8>)
        ensures
            r@ == self.encoded(),
            r@.len() == BYTES32_RECORD_LEN,
    {
        serialize_bytes32_record(&self.account_id, self.block_number, self.event_index)
    }

    /// Reads a record key back from the first forty bytes of `bytes`; the
    /// bytes of a record key give that record key.
    pub fn unserialize(bytes: &[u8]) -> (r: AccountIdKey)
        requires
            bytes@.len() >= BYTES32_RECORD_LEN,
        ensures
            r.account_id@ == bytes@.subrange(0, 32),
            r.block_number == be_value(bytes@.subrange(32, 36)),
            r.event_index == be_value(bytes@.subrange(36, 40)),
            forall|k: AccountIdKey| bytes@ == #[trigger] k.encoded() ==> r == k,
    {
        let (b, x, y) = unserialize_bytes32_record(bytes);
        let r = AccountIdKey { account_id: b, block_number: x, event_index: y };
        assert forall|k: AccountIdKey| bytes@ == #[trigger] k.encoded() implies r == k by {
            assert(bytes@ == record_bytes(k.account_id@, k.block_number, k.event_index));
        }
        r
    }
}

impl U32Key {
    /// The bytes of this record key.
    pub open spec fn encoded(self) -> Seq<u8> {
        record_bytes(be_bytes(self.key), self.block_number, self.event_index)
    }

    /// Serializes this record key: key, block number, event index.
    pub fn serialize(&self) -> (r: Vec<u8>)
        ensures
            r@ == self.encoded(),
            r@.len() == U32_RECORD_LEN,
    {
        serialize_u32_record(self.key, self.block_number, self.event_index)
    }

    /// Reads a record key back from the first twelve bytes of `bytes`; the
    /// bytes of a record key give that record key.
    pub fn unserialize(bytes: &[u8]) -> (r: U32Key)
        requires
            bytes@.len() >= U32_RECORD_LEN,
        ensures
            r.key == be_value(bytes@.subrange(0, 4)),
            r.block_number == be_value(bytes@.subrange(4, 8)),
            r.event_index == be_value(bytes@.subrange(8, 12)),
            forall|k: U32Key| bytes@ == #[trigger] k.encoded() ==> r == k,
    {
        let (k, x, y) = unserialize_u32_record(bytes);
        let r = U32Key { key: k, block_number: x, event_index: y };
        assert forall|k2: U32Key| bytes@ == #[trigger] k2.encoded() implies r == k2 by {
            assert(bytes@ == record_bytes(be_bytes(k2.key), k2.block_number, k2.event_index));
        }
        r
    }
}

impl CandidateHashKey {
    /// The bytes of this record key.
    pub open spec fn encoded(self) -> Seq<u8> {
        record_bytes(self.candidate_hash@, self.block_number, self.event_index)
    }

    /// Serializes this record key: candidate hash, block number, event index.
    pub fn serialize(&self) -> (r: Vec<u8>)
        ensures
            r@ == self.encoded(),
            r@.len() == BYTES32_RECORD_LEN,
    {
        serialize_bytes32_record(&self.candidate_hash, self.block_number, self.event_index)
    }

    /// Reads a record key back from the first forty bytes of `bytes`; the
    /// bytes of a record key give that record key.
    pub fn unserialize(bytes: &[u8]) -> (r: CandidateHashKey)
        requires
            bytes@.len() >= BYTES32_RECORD_LEN,
        ensures
            r.candidate_hash@ == bytes@.subrange(0, 32),
            r.block_number == be_value(bytes@.subrange(32, 36)),
            r.event_index == be_value(bytes@.subrange(36, 40)),
            forall|k: CandidateHashKey| bytes@ == #[trigger] k.encoded() ==> r == k,
    {
        let (b, x, y) = unserialize_bytes32_record(bytes);
        let r = CandidateHashKey { candidate_hash: b, block_number: x, event_index: y };
        assert forall|k: CandidateHashKey| bytes@ == #[trigger] k.encoded() implies r == k by {
            assert(bytes@ == record_bytes(k.candidate_hash@, k.block_number, k.event_index));
        }
        r
    }
}

impl HashKey {
    /// The bytes of this record key.
    pub open spec fn encoded(self) -> Seq<u8> {
        record_bytes(self.hash@, self.block_number, self.event_index)
    }

    /// Serializes this record key: hash, block number, event index.
    pub fn serialize(&self) -> (r: Vec<u8>)
        ensures
            r@ == self.encoded(),
            r@.len() == BYTES32_RECORD_LEN,
    {
        serialize_bytes32_record(&self.hash, self.block_number, self.event_index)
    }

    /// Reads a record key back from the first forty bytes of `bytes`; the
    /// bytes of a record key give that record key.
    pub fn unserialize(bytes: &[u8]) -> (r: HashKey)
        requires
            bytes@.len() >= BYTES32_RECORD_LEN,
        ensures
            r.hash@ == bytes@.subrange(0, 32),
            r.block_number == be_value(bytes@.subrange(32, 36)),
            r.event_index == be_value(bytes@.subrange(36, 40)),
            forall|k: HashKey| bytes@ == #[trigger] k.encoded() ==> r == k,
    {
        let (b, x, y) = unserialize_bytes32_record(bytes);
        let r = HashKey { hash: b, block_number: x, event_index: y };
        assert forall|k: HashKey| bytes@ == #[trigger] k.encoded() implies r == k by {
            assert(bytes@ == record_bytes(k.hash@, k.block_number, k.event_index));
        }
        r
    }
}

impl MessageIdKey {
    /// The bytes of this record key.
    pub open spec fn encoded(self) -> Seq<u8> {
        record_bytes(self.message_id@, self.block_number, self.event_index)
    }

    /// Serializes this record key: message id, block number, event index.
    pub fn serialize(&self) -> (r: Vec<u8>)
        ensures
            r@ == self.encoded(),
            r@.len() == BYTES32_RECORD_LEN,
    {
        serialize_bytes32_record(&self.message_id, self.block_number, self.event_index)
    }

    /// Reads a record key back from the first forty bytes of `bytes`; the
    /// bytes of a record key give that record key.
    pub fn unserialize(bytes: &[u8]) -> (r: MessageIdKey)
        requires
            bytes@.len() >= BYTES32_RECORD_LEN,
        ensures
            r.message_id@ == bytes@.subrange(0, 32),
            r.block_number == be_value(bytes@.subrange(32, 36)),
            r.event_index == be_value(bytes@.subrange(36, 40)),
            forall|k: MessageIdKey| bytes@ == #[trigger] k.encoded() ==> r == k,
    {
        let (b, x, y) = unserialize_bytes32_record(bytes);
        let r = MessageIdKey { message_id: b, block_number: x, event_index: y };
        assert forall|k: MessageIdKey| bytes@ == #[trigger] k.encoded() implies r == k by {
            assert(bytes@ == record_bytes(k.message_id@, k.block_number, k.event_index));
        }
        r
    }
}

impl TipHashKey {
    /// The bytes of this record key.
    pub open spec fn encoded(self) -> Seq<u8> {
        record_bytes(self.tip_hash@, self.block_number, self.event_index)
    }

    /// Serializes this record key: tip hash, block number, event index.
    pub fn serialize(&self) -> (r: Vec<u8>)
        ensures
            r@ == self.encoded(),
            r@.len() == BYTES32_RECORD_LEN,
    {
        serialize_bytes32_record(&self.tip_hash, self.block_number, self.event_index)
    }

    /// Reads a record key back from the first forty bytes of `bytes`; the
    /// bytes of a record key give that record key.
    pub fn unserialize(bytes: &[u8]) -> (r: TipHashKey)
        requires
            bytes@.len() >= BYTES32_RECORD_LEN,
        ensures
            r.tip_hash@ == bytes@.subrange(0, 32),
            r.block_number == be_value(bytes@.subrange(32, 36)),
            r.event_index == be_value(bytes@.subrange(36, 40)),
            forall|k: TipHashKey| bytes@ == #[trigger] k.encoded() ==> r == k,
    {
        let (b, x, y) = unserialize_bytes32_record(bytes);
        let r = TipHashKey { tip_hash: b, block_number: x, event_index: y };
        assert forall|k: TipHashKey| bytes@ == #[trigger] k.encoded() implies r == k by {
            assert(bytes@ == record_bytes(k.tip_hash@, k.block_number, k.event_index));
        }
        r
    }
}

} // verus!
