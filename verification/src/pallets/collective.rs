//! The collective (council) pallet: its events, and the keys each is
//! indexed under.
use vstd::prelude::*;
use crate::hex::{hex_chars, hex_encode, lemma_hex_chars_injective, lemma_hex_chars_len};
use crate::indexer::{IndexedEvent, Indexer};
use crate::keys::{Bytes32, Event, IndexTree, Key, record_key_bytes};
use crate::bytes::{be_bytes, be_value, lemma_be_value_of_bytes};
use crate::indexer::notifies;
use crate::scale::{bool_field, bytes32_field, le_bytes, lemma_u32_at_le_bytes, u32_at, u32_field, EventError};
use vstd::slice::slice_to_vec;

verus! {

/// The hash of a proposal.
#[derive(Clone, Copy, Debug, PartialEq, Eq, Hash)]
pub struct ProposalHash(pub [u8; 32]);

impl ProposalHash {
    /// The text of the hash: `0x`, then the 32 bytes in lowercase
    /// hexadecimal.
    pub fn hex_string(&self) -> (s: String)
        ensures
            s@ == seq!['0', 'x'] + hex_chars(self.0@),
    {
        let digits = hex_encode(&self.0);
        let mut s = String::from_str("0x");
        s.append(digits.as_str());
        proof {
            reveal_strlit("0x");
            assert(s@ =~= seq!['0', 'x'] + hex_chars(self.0@));
        }
        s
    }
}

/// An event of the collective pallet, with the fields the index keeps.
#[derive(Clone, Copy, Debug, PartialEq, Eq)]
pub enum Collective {
    Proposed { account: Bytes32, proposal_index: u32, proposal_hash: ProposalHash, threshold: u32 },
    Voted { account: Bytes32, proposal_hash: ProposalHash, voted: bool, yes: u32, no: u32 },
    Approved { proposal_hash: ProposalHash },
    Disapproved { proposal_hash: ProposalHash },
    Executed { proposal_hash: ProposalHash },
    MemberExecuted { proposal_hash: ProposalHash },
    Closed { proposal_hash: ProposalHash, yes: u32, no: u32 },
}

/// The search keys that a collective event is indexed under, in order: a
/// proposal under its proposer, its index and its hash; a vote under the
/// voter and the proposal hash; every other event under the proposal hash.
pub open spec fn collective_keys(event: Collective) -> Seq<Key> {
    match event {
        Collective::Proposed { account, proposal_index, proposal_hash, .. } => seq![
            Key::AccountId(account),
            Key::ProposalIndex(proposal_index),
            Key::ProposalHash(Bytes32(proposal_hash.0)),
        ],
        Collective::Voted { account, proposal_hash, .. } => seq![
            Key::AccountId(account),
            Key::ProposalHash(Bytes32(proposal_hash.0)),
        ],
        Collective::Approved { proposal_hash } => seq![Key::ProposalHash(Bytes32(proposal_hash.0))],
        Collective::Disapproved { proposal_hash } => seq![Key::ProposalHash(Bytes32(proposal_hash.0))],
        Collective::Executed { proposal_hash } => seq![Key::ProposalHash(Bytes32(proposal_hash.0))],
        Collective::MemberExecuted { proposal_hash } => seq![Key::ProposalHash(Bytes32(proposal_hash.0))],
        Collective::Closed { proposal_hash, .. } => seq![Key::ProposalHash(Bytes32(proposal_hash.0))],
    }
}

/// Whether `r` indexes `event` under each of `keys` in turn, with the
/// subscriptions `subs`, storing `value` in every record.
pub open spec fn indexes_under_each<S>(r: Seq<IndexedEvent<'_, S>>, subs: Map<Key, Seq<S>>, keys: Seq<Key>, event: Event, value: Seq<u8>) -> bool {
    &&& r.len() == keys.len()
    &&& forall|i: int| #![trigger r[i]] 0 <= i < r.len() ==> r[i].indexes(subs, keys[i], event) && r[i].value@ == value
}

/// Indexes the collective event `event`, the `event_index`th event of block
/// `block_number`, under each of its search keys; every record stores
/// `value`, the encoding of the event.
pub fn collective_index_event<'a, S>(indexer: &'a Indexer<S>, block_number: u32, event_index: u32, event: &Collective, value: &[u8]) -> (r: Vec<IndexedEvent<'a, S>>)
    ensures
        indexes_under_each(r@, indexer@, collective_keys(*event), Event { block_number, event_index }, value@),
        ({
            let e = Event { block_number, event_index };
            match *event {
                Collective::Proposed { account, proposal_index, proposal_hash, .. } => {
                    &&& r@.len() == 3
                    &&& r@[0].indexes(indexer@, Key::AccountId(account), e)
                    &&& r@[1].indexes(indexer@, Key::ProposalIndex(proposal_index), e)
                    &&& r@[2].indexes(indexer@, Key::ProposalHash(Bytes32(proposal_hash.0)), e)
                },
                Collective::Voted { account, proposal_hash, .. } => {
                    &&& r@.len() == 2
                    &&& r@[0].indexes(indexer@, Key::AccountId(account), e)
                    &&& r@[1].indexes(indexer@, Key::ProposalHash(Bytes32(proposal_hash.0)), e)
                },
                Collective::Approved { proposal_hash } | Collective::Disapproved { proposal_hash }
                | Collective::Executed { proposal_hash } | Collective::MemberExecuted { proposal_hash }
                | Collective::Closed { proposal_hash, .. } => {
                    &&& r@.len() == 1
                    &&& r@[0].indexes(indexer@, Key::ProposalHash(Bytes32(proposal_hash.0)), e)
                },
            }
        }),
{
    let mut r: Vec<IndexedEvent<'a, S>> = Vec::new();
    match event {
        Collective::Proposed { account, proposal_index, proposal_hash, .. } => {
            r.push(indexer.index_event_account_id(account.0, block_number, event_index));
            r.push(indexer.index_event_proposal_index(*proposal_index, block_number, event_index));
            r.push(indexer.index_event_proposal_hash(proposal_hash.0, block_number, event_index));
            assert(Key::AccountId(Bytes32(account.0)) == Key::AccountId(*account));
        },
        Collective::Voted { account, proposal_hash, .. } => {
            r.push(indexer.index_event_account_id(account.0, block_number, event_index));
            r.push(indexer.index_event_proposal_hash(proposal_hash.0, block_number, event_index));
            assert(Key::AccountId(Bytes32(account.0)) == Key::AccountId(*account));
        },
        Collective::Approved { proposal_hash } => {
            r.push(indexer.index_event_proposal_hash(proposal_hash.0, block_number, event_index));
        },
        Collective::Disapproved { proposal_hash } => {
            r.push(indexer.index_event_proposal_hash(proposal_hash.0, block_number, event_index));
        },
        Collective::Executed { proposal_hash } => {
            r.push(indexer.index_event_proposal_hash(proposal_hash.0, block_number, event_index));
        },
        Collective::MemberExecuted { proposal_hash } => {
            r.push(indexer.index_event_proposal_hash(proposal_hash.0, block_number, event_index));
        },
        Collective::Closed { proposal_hash, .. } => {
            r.push(indexer.index_event_proposal_hash(proposal_hash.0, block_number, event_index));
        },
    }
    let ghost keys = collective_keys(*event);
    let ghost e = Event { block_number, event_index };
    let mut i: usize = 0;
    while i < r.len()
        invariant
            r@.len() == keys.len(),
            0 <= i <= r@.len(),
            forall|j: int| #![trigger r@[j]] 0 <= j < r@.len() ==> r@[j].indexes(indexer@, keys[j], e),
            forall|j: int| #![trigger r@[j]] 0 <= j < i ==> r@[j].value@ == value@,
        decreases r@.len() - i,
    {
        r[i].value = slice_to_vec(value);
        i = i + 1;
    }
    r
}

/// Whether `variant` names an event of the collective pallet.
pub open spec fn collective_variant(variant: Seq<char>) -> bool {
    ||| variant == "Proposed"@
    ||| variant == "Voted"@
    ||| variant == "Approved"@
    ||| variant == "Disapproved"@
    ||| variant == "Executed"@
    ||| variant == "MemberExecuted"@
    ||| variant == "Closed"@
}

/// Whether the fields `f` of a collective event named `variant` can be
/// read: long enough, and the vote of a `Voted` event 0 or 1.
pub open spec fn collective_fields_ok(variant: Seq<char>, f: Seq<u8>) -> bool {
    if variant == "Proposed"@ {
        f.len() >= 72
    } else if variant == "Voted"@ {
        f.len() >= 73 && f[64] <= 1
    } else if variant == "Closed"@ {
        f.len() >= 40
    } else {
        f.len() >= 32
    }
}

/// Whether `e` is what the fields `f` of an event named `variant` hold:
/// its name, and each field at its place in the SCALE layout of the
/// event (accounts and hashes 32 bytes, numbers four bytes little-endian,
/// a vote one byte).
pub open spec fn collective_fields(variant: Seq<char>, f: Seq<u8>, e: Collective) -> bool {
    match e {
        Collective::Proposed { account, proposal_index, proposal_hash, threshold } => {
            &&& variant == "Proposed"@
            &&& f.len() >= 72
            &&& account.0@ == f.subrange(0, 32)
            &&& proposal_index == u32_at(f, 32)
            &&& proposal_hash.0@ == f.subrange(36, 68)
            &&& threshold == u32_at(f, 68)
        },
        Collective::Voted { account, proposal_hash, voted, yes, no } => {
            &&& variant == "Voted"@
            &&& f.len() >= 73
            &&& account.0@ == f.subrange(0, 32)
            &&& proposal_hash.0@ == f.subrange(32, 64)
            &&& f[64] <= 1
            &&& voted == (f[64] == 1)
            &&& yes == u32_at(f, 65)
            &&& no == u32_at(f, 69)
        },
        Collective::Approved { proposal_hash } => {
            &&& variant == "Approved"@
            &&& f.len() >= 32
            &&& proposal_hash.0@ == f.subrange(0, 32)
        },
        Collective::Disapproved { proposal_hash } => {
            &&& variant == "Disapproved"@
            &&& f.len() >= 32
            &&& proposal_hash.0@ == f.subrange(0, 32)
        },
        Collective::Executed { proposal_hash } => {
            &&& variant == "Executed"@
            &&& f.len() >= 32
            &&& proposal_hash.0@ == f.subrange(0, 32)
        },
        Collective::MemberExecuted { proposal_hash } => {
            &&& variant == "MemberExecuted"@
            &&& f.len() >= 32
            &&& proposal_hash.0@ == f.subrange(0, 32)
        },
        Collective::Closed { proposal_hash, yes, no } => {
            &&& variant == "Closed"@
            &&& f.len() >= 40
            &&& proposal_hash.0@ == f.subrange(0, 32)
            &&& yes == u32_at(f, 32)
            &&& no == u32_at(f, 36)
        },
    }
}

/// The name of the pallet whose events the collective module reads.
pub open spec fn council_pallet() -> Seq<char> {
    "Council"@
}

/// Reads a collective event from the name of its pallet, its own name and
/// its field bytes: nothing for a name the pallet's events do not have; an
/// error when an event of such a name comes from another pallet than the
/// council, or when its fields cannot be read; and otherwise the event they
/// hold. The fields of every event, SCALE-encoded, read back as that event,
/// and the vote of a `Voted` event is its byte at offset 64: 0 for nay, 1 for
/// aye.
pub fn decode_collective(pallet: &str, variant: &str, fields: &[u8]) -> (r: Result<Option<Collective>, EventError>)
    ensures
        match r {
            Ok(Some(e)) => pallet@ == council_pallet() && collective_fields(variant@, fields@, e),
            Ok(None) => !collective_variant(variant@),
            Err(EventError::NotFound) => collective_variant(variant@) && pallet@ != council_pallet(),
            Err(EventError::MalformedFields) => {
                &&& collective_variant(variant@)
                &&& pallet@ == council_pallet()
                &&& !collective_fields_ok(variant@, fields@)
            },
        },
        forall|e: Collective|
            pallet@ == council_pallet() && variant@ == collective_name(e) && fields@ == #[trigger] collective_scale_fields(e)
                ==> r == Ok::<Option<Collective>, EventError>(Some(e)),
        (pallet@ == council_pallet() && variant@ == "Voted"@ && fields@.len() >= 73 && fields@[64] <= 1) ==> (
            r matches Ok(Some(Collective::Voted { voted, .. })) && voted == (fields@[64] == 1)),
{
    let r = read_collective(pallet, variant, fields);
    proof {
        reveal_strlit("Voted");
        if let Ok(Some(d)) = r {
            lemma_voted_name(d);
        } else {
            reveal_strlit("Proposed");
            reveal_strlit("Closed");
            assert("Voted"@.len() == 5 && "Proposed"@.len() == 8 && "Closed"@.len() == 6);
        }
        assert forall|e: Collective|
            pallet@ == council_pallet() && variant@ == collective_name(e) && fields@ == #[trigger] collective_scale_fields(e)
                implies r == Ok::<Option<Collective>, EventError>(Some(e)) by {
            lemma_decode_inverts_encode(e);
        }
    }
    r
}

/// Reads a collective event; see `decode_collective`.
fn read_collective(pallet: &str, variant: &str, fields: &[u8]) -> (r: Result<Option<Collective>, EventError>)
    ensures
        match r {
            Ok(Some(e)) => pallet@ == council_pallet() && collective_fields(variant@, fields@, e),
            Ok(None) => !collective_variant(variant@),
            Err(EventError::NotFound) => collective_variant(variant@) && pallet@ != council_pallet(),
            Err(EventError::MalformedFields) => {
                &&& collective_variant(variant@)
                &&& pallet@ == council_pallet()
                &&& !collective_fields_ok(variant@, fields@)
            },
        },
{
    proof {
        reveal_strlit("Proposed");
        reveal_strlit("Voted");
        reveal_strlit("Approved");
        reveal_strlit("Disapproved");
        reveal_strlit("Executed");
        reveal_strlit("MemberExecuted");
        reveal_strlit("Closed");
    }
    proof {
        reveal_strlit("Council");
    }
    let name = String::from_str(variant);
    let known = name == String::from_str("Proposed") || name == String::from_str("Voted")
        || name == String::from_str("Approved") || name == String::from_str("Disapproved")
        || name == String::from_str("Executed") || name == String::from_str("MemberExecuted")
        || name == String::from_str("Closed");
    if !known {
        return Ok(None);
    }
    if String::from_str(pallet) != String::from_str("Council") {
        return Err(EventError::NotFound);
    }
    if name == String::from_str("Proposed") {
        let account = bytes32_field(fields, 0)?;
        let proposal_index = u32_field(fields, 32)?;
        let proposal_hash = bytes32_field(fields, 36)?;
        let threshold = u32_field(fields, 68)?;
        Ok(Some(Collective::Proposed {
            account: Bytes32(account),
            proposal_index,
            proposal_hash: ProposalHash(proposal_hash),
            threshold,
        }))
    } else if name == String::from_str("Voted") {
        let account = bytes32_field(fields, 0)?;
        let proposal_hash = bytes32_field(fields, 32)?;
        let voted = bool_field(fields, 64)?;
        let yes = u32_field(fields, 65)?;
        let no = u32_field(fields, 69)?;
        Ok(Some(Collective::Voted {
            account: Bytes32(account),
            proposal_hash: ProposalHash(proposal_hash),
            voted,
            yes,
            no,
        }))
    } else if name == String::from_str("Approved") {
        let proposal_hash = bytes32_field(fields, 0)?;
        Ok(Some(Collective::Approved { proposal_hash: ProposalHash(proposal_hash) }))
    } else if name == String::from_str("Disapproved") {
        let proposal_hash = bytes32_field(fields, 0)?;
        Ok(Some(Collective::Disapproved { proposal_hash: ProposalHash(proposal_hash) }))
    } else if name == String::from_str("Executed") {
        let proposal_hash = bytes32_field(fields, 0)?;
        Ok(Some(Collective::Executed { proposal_hash: ProposalHash(proposal_hash) }))
    } else if name == String::from_str("MemberExecuted") {
        let proposal_hash = bytes32_field(fields, 0)?;
        Ok(Some(Collective::MemberExecuted { proposal_hash: ProposalHash(proposal_hash) }))
    } else if name == String::from_str("Closed") {
        let proposal_hash = bytes32_field(fields, 0)?;
        let yes = u32_field(fields, 32)?;
        let no = u32_field(fields, 36)?;
        Ok(Some(Collective::Closed { proposal_hash: ProposalHash(proposal_hash), yes, no }))
    } else {
        Ok(None)
    }
}

/// The text of a proposal hash is 66 characters long, and different
/// proposal hashes have different texts.
pub proof fn lemma_hex_string(a: ProposalHash, b: ProposalHash)
    ensures
        (seq!['0', 'x'] + hex_chars(a.0@)).len() == 66,
        seq!['0', 'x'] + hex_chars(a.0@) == seq!['0', 'x'] + hex_chars(b.0@) ==> a == b,
{
    lemma_hex_chars_len(a.0@);
    lemma_hex_chars_len(b.0@);
    if seq!['0', 'x'] + hex_chars(a.0@) == seq!['0', 'x'] + hex_chars(b.0@) {
        let ta = seq!['0', 'x'] + hex_chars(a.0@);
        let tb = seq!['0', 'x'] + hex_chars(b.0@);
        assert(ta.subrange(2, 66) =~= hex_chars(a.0@));
        assert(tb.subrange(2, 66) =~= hex_chars(b.0@));
        lemma_hex_chars_injective(a.0@, b.0@);
        assert(a.0 =~= b.0);
    }
}

/// The name of a collective event.
pub open spec fn collective_name(e: Collective) -> Seq<char> {
    match e {
        Collective::Proposed { .. } => "Proposed"@,
        Collective::Voted { .. } => "Voted"@,
        Collective::Approved { .. } => "Approved"@,
        Collective::Disapproved { .. } => "Disapproved"@,
        Collective::Executed { .. } => "Executed"@,
        Collective::MemberExecuted { .. } => "MemberExecuted"@,
        Collective::Closed { .. } => "Closed"@,
    }
}

/// The SCALE encoding of the fields of a collective event that the index
/// keeps, in the order the pallet declares them: accounts and hashes as 32
/// raw bytes, numbers as four bytes least significant first, a vote as one
/// byte, 1 for aye and 0 for nay.
pub open spec fn collective_scale_fields(e: Collective) -> Seq<u8> {
    match e {
        Collective::Proposed { account, proposal_index, proposal_hash, threshold } =>
            account.0@ + le_bytes(proposal_index) + proposal_hash.0@ + le_bytes(threshold),
        Collective::Voted { account, proposal_hash, voted, yes, no } =>
            account.0@ + proposal_hash.0@ + seq![if voted { 1u8 } else { 0u8 }] + le_bytes(yes) + le_bytes(no),
        Collective::Approved { proposal_hash } => proposal_hash.0@,
        Collective::Disapproved { proposal_hash } => proposal_hash.0@,
        Collective::Executed { proposal_hash } => proposal_hash.0@,
        Collective::MemberExecuted { proposal_hash } => proposal_hash.0@,
        Collective::Closed { proposal_hash, yes, no } => proposal_hash.0@ + le_bytes(yes) + le_bytes(no),
    }
}

/// The number of the variant of a collective event.
spec fn collective_tag(e: Collective) -> int {
    match e {
        Collective::Proposed { .. } => 0,
        Collective::Voted { .. } => 1,
        Collective::Approved { .. } => 2,
        Collective::Disapproved { .. } => 3,
        Collective::Executed { .. } => 4,
        Collective::MemberExecuted { .. } => 5,
        Collective::Closed { .. } => 6,
    }
}

/// Events of different variants have different names.
proof fn lemma_collective_names_distinct(d: Collective, e: Collective)
    ensures
        collective_name(d) == collective_name(e) ==> collective_tag(d) == collective_tag(e),
{
    reveal_strlit("Proposed");
    reveal_strlit("Voted");
    reveal_strlit("Approved");
    reveal_strlit("Disapproved");
    reveal_strlit("Executed");
    reveal_strlit("MemberExecuted");
    reveal_strlit("Closed");
    assert("Proposed"@.len() == 8 && "Proposed"@[0] == 'P');
    assert("Voted"@.len() == 5);
    assert("Approved"@.len() == 8 && "Approved"@[0] == 'A');
    assert("Disapproved"@.len() == 11);
    assert("Executed"@.len() == 8 && "Executed"@[0] == 'E');
    assert("MemberExecuted"@.len() == 14);
    assert("Closed"@.len() == 6);
}

/// Only a `Voted` event has the name `Voted`.
proof fn lemma_voted_name(d: Collective)
    ensures
        collective_name(d) == "Voted"@ ==> d is Voted,
{
    reveal_strlit("Proposed");
    reveal_strlit("Voted");
    reveal_strlit("Approved");
    reveal_strlit("Disapproved");
    reveal_strlit("Executed");
    reveal_strlit("MemberExecuted");
    reveal_strlit("Closed");
    assert("Proposed"@.len() == 8);
    assert("Voted"@.len() == 5);
    assert("Approved"@.len() == 8);
    assert("Disapproved"@.len() == 11);
    assert("Executed"@.len() == 8);
    assert("MemberExecuted"@.len() == 14);
    assert("Closed"@.len() == 6);
}

/// Decoding inverts SCALE encoding: the fields of any collective event,
/// encoded, can be read, and read as that very event and no other.
/// The encoded fields of any collective event are long enough, and hold a
/// valid vote, for its name.
proof fn lemma_scale_fields_ok(e: Collective)
    ensures
        collective_variant(collective_name(e)),
        collective_fields_ok(collective_name(e), collective_scale_fields(e)),
{
    reveal_strlit("Proposed");
    reveal_strlit("Voted");
    reveal_strlit("Approved");
    reveal_strlit("Disapproved");
    reveal_strlit("Executed");
    reveal_strlit("MemberExecuted");
    reveal_strlit("Closed");
    assert("Proposed"@.len() == 8 && "Proposed"@[0] == 'P');
    assert("Voted"@.len() == 5);
    assert("Approved"@.len() == 8 && "Approved"@[0] == 'A');
    assert("Disapproved"@.len() == 11);
    assert("Executed"@.len() == 8 && "Executed"@[0] == 'E');
    assert("MemberExecuted"@.len() == 14);
    assert("Closed"@.len() == 6);
    let f = collective_scale_fields(e);
    match e {
        Collective::Proposed { account, proposal_hash, .. } => {
            assert(account.0@.len() == 32 && proposal_hash.0@.len() == 32);
            assert(f.len() == 72);
        },
        Collective::Voted { account, proposal_hash, voted, yes, no } => {
            assert(account.0@.len() == 32 && proposal_hash.0@.len() == 32);
            assert(f.len() == 73);
            assert(f[64] == if voted { 1u8 } else { 0u8 });
        },
        _ => {},
    }
}

pub proof fn lemma_decode_inverts_encode(e: Collective)
    ensures
        collective_variant(collective_name(e)),
        collective_fields_ok(collective_name(e), collective_scale_fields(e)),
        forall|d: Collective| collective_fields(collective_name(e), collective_scale_fields(e), d) ==> d == e,
{
    reveal_strlit("Proposed");
    reveal_strlit("Voted");
    reveal_strlit("Approved");
    reveal_strlit("Disapproved");
    reveal_strlit("Executed");
    reveal_strlit("MemberExecuted");
    reveal_strlit("Closed");
    lemma_scale_fields_ok(e);
    let f = collective_scale_fields(e);
    assert forall|d: Collective| collective_fields(collective_name(e), f, d) implies collective_tag(d) == collective_tag(e) by {
        lemma_collective_names_distinct(d, e);
    }
    match e {
        Collective::Proposed { account, proposal_index, proposal_hash, threshold } => {
            let a = account.0@;
            let h = proposal_hash.0@;
            assert(f =~= a + le_bytes(proposal_index) + (h + le_bytes(threshold)));
            lemma_u32_at_le_bytes(a, proposal_index, h + le_bytes(threshold));
            assert(f =~= (a + le_bytes(proposal_index) + h) + le_bytes(threshold) + Seq::<u8>::empty());
            lemma_u32_at_le_bytes(a + le_bytes(proposal_index) + h, threshold, Seq::empty());
            assert(f.subrange(0, 32) =~= a);
            assert(f.subrange(36, 68) =~= h);
            assert forall|d: Collective| collective_fields(collective_name(e), f, d) implies d == e by {
                lemma_collective_names_distinct(d, e);
                if let Collective::Proposed { account: a2, proposal_index: i2, proposal_hash: h2, threshold: t2 } = d {
                    assert(a2.0 =~= account.0);
                    assert(h2.0 =~= proposal_hash.0);
                    assert(a2 == account);
                    assert(h2 == proposal_hash);
                    assert(i2 == proposal_index);
                    assert(t2 == threshold);
                }
            }
        },
        Collective::Voted { account, proposal_hash, voted, yes, no } => {
            let a = account.0@;
            let h = proposal_hash.0@;
            let v = seq![if voted { 1u8 } else { 0u8 }];
            assert(f =~= (a + h + v) + le_bytes(yes) + le_bytes(no));
            lemma_u32_at_le_bytes(a + h + v, yes, le_bytes(no));
            assert(f =~= (a + h + v + le_bytes(yes)) + le_bytes(no) + Seq::<u8>::empty());
            lemma_u32_at_le_bytes(a + h + v + le_bytes(yes), no, Seq::empty());
            assert(f.subrange(0, 32) =~= a);
            assert(f.subrange(32, 64) =~= h);
            assert(f[64] == if voted { 1u8 } else { 0u8 });
            assert forall|d: Collective| collective_fields(collective_name(e), f, d) implies d == e by {
                lemma_collective_names_distinct(d, e);
                if let Collective::Voted { account: a2, proposal_hash: h2, voted: v2, yes: y2, no: n2 } = d {
                    assert(a2.0 =~= account.0);
                    assert(h2.0 =~= proposal_hash.0);
                    assert(a2 == account);
                    assert(h2 == proposal_hash);
                    assert(v2 == voted);
                    assert(y2 == yes);
                    assert(n2 == no);
                }
            }
        },
        Collective::Closed { proposal_hash, yes, no } => {
            let h = proposal_hash.0@;
            assert(f =~= h + le_bytes(yes) + le_bytes(no));
            lemma_u32_at_le_bytes(h, yes, le_bytes(no));
            assert(f =~= (h + le_bytes(yes)) + le_bytes(no) + Seq::<u8>::empty());
            lemma_u32_at_le_bytes(h + le_bytes(yes), no, Seq::empty());
            assert(f.subrange(0, 32) =~= h);
            assert(u32_at(f, 32) == yes);
            assert(u32_at(f, 36) == no);

            assert forall|d: Collective| collective_fields(collective_name(e), f, d) implies d == e by {
                lemma_collective_names_distinct(d, e);
                if let Collective::Closed { proposal_hash: h2, yes: y2, no: n2 } = d {
                    assert(h2.0 =~= proposal_hash.0);
                    assert(y2 == yes);
                    assert(n2 == no);
                    assert(h2 == proposal_hash);
                }
            }
        },
        Collective::Approved { proposal_hash } | Collective::Disapproved { proposal_hash }
        | Collective::Executed { proposal_hash } | Collective::MemberExecuted { proposal_hash } => {
            assert(f.subrange(0, 32) =~= proposal_hash.0@);
            assert forall|d: Collective| collective_fields(collective_name(e), f, d) implies d == e by {
                lemma_collective_names_distinct(d, e);
                match d {
                    Collective::Approved { proposal_hash: h2 } => { assert(h2.0 =~= proposal_hash.0); },
                    Collective::Disapproved { proposal_hash: h2 } => { assert(h2.0 =~= proposal_hash.0); },
                    Collective::Executed { proposal_hash: h2 } => { assert(h2.0 =~= proposal_hash.0); },
                    Collective::MemberExecuted { proposal_hash: h2 } => { assert(h2.0 =~= proposal_hash.0); },
                    _ => {},
                }
            }
        },
    }
}

/// Who is told of a collective event, and under which bytes it is stored:
/// a proposal and a vote are filed under the account that made them, in the
/// account tree, with a record key that begins with that account and tells
/// that account's subscribers; a proposal is filed under its index, its
/// record key beginning with the index; and every collective event is filed,
/// last, under its proposal hash, in the proposal-hash tree, its record key
/// beginning with the hash, telling the hash's subscribers. Every record
/// ends with the block number and the event's index in the block.
pub proof fn lemma_collective_records<S>(
    subs: Map<Key, Seq<S>>,
    r: Seq<IndexedEvent<'_, S>>,
    event: Collective,
    e: Event,
    value: Seq<u8>,
)
    requires
        indexes_under_each(r, subs, collective_keys(event), e, value),
    ensures
        r.len() >= 1,
        ({
            let last = r[r.len() - 1];
            let h = collective_hash(event);
            &&& last.tree == IndexTree::ProposalHash
            &&& last.record_key@.subrange(0, 32) == h.0@
            &&& notifies(subs, last.notification, Key::ProposalHash(Bytes32(h.0)), e)
        }),
        forall|i: int| #![trigger r[i]] 0 <= i < r.len() ==> {
            let k = r[i].record_key@;
            &&& k.subrange(k.len() - 8, k.len() as int) == be_bytes(e.block_number) + be_bytes(e.event_index)
            &&& r[i].value@ == value
        },
        match event {
            Collective::Proposed { account, proposal_index, .. } => {
                &&& r.len() == 3
                &&& r[0].tree == IndexTree::AccountId
                &&& r[0].record_key@.subrange(0, 32) == account.0@
                &&& notifies(subs, r[0].notification, Key::AccountId(account), e)
                &&& r[1].tree == IndexTree::ProposalIndex
                &&& be_value(r[1].record_key@.subrange(0, 4)) == proposal_index
                &&& notifies(subs, r[1].notification, Key::ProposalIndex(proposal_index), e)
            },
            Collective::Voted { account, .. } => {
                &&& r.len() == 2
                &&& r[0].tree == IndexTree::AccountId
                &&& r[0].record_key@.subrange(0, 32) == account.0@
                &&& notifies(subs, r[0].notification, Key::AccountId(account), e)
            },
            _ => r.len() == 1,
        },
{
    let h = collective_hash(event);
    let hk = Key::ProposalHash(Bytes32(h.0));
    assert(r[r.len() - 1].indexes(subs, collective_keys(event)[r.len() - 1], e));
    assert(collective_keys(event)[r.len() - 1] == hk);
    assert(record_key_bytes(hk, e).subrange(0, 32) =~= h.0@);
    assert forall|i: int| #![trigger r[i]] 0 <= i < r.len() implies {
        let k = r[i].record_key@;
        &&& k.subrange(k.len() - 8, k.len() as int) == be_bytes(e.block_number) + be_bytes(e.event_index)
        &&& r[i].value@ == value
    } by {
        let key = collective_keys(event)[i];
        let k = r[i].record_key@;
        assert(k == record_key_bytes(key, e));
        assert(k.subrange(k.len() - 8, k.len() as int) =~= be_bytes(e.block_number) + be_bytes(e.event_index));
    }
    match event {
        Collective::Proposed { account, proposal_index, .. } => {
            assert(r[0].indexes(subs, collective_keys(event)[0], e));
            assert(r[1].indexes(subs, collective_keys(event)[1], e));
            assert(record_key_bytes(Key::AccountId(account), e).subrange(0, 32) =~= account.0@);
            assert(record_key_bytes(Key::ProposalIndex(proposal_index), e).subrange(0, 4) =~= be_bytes(proposal_index));
            lemma_be_value_of_bytes(proposal_index);
        },
        Collective::Voted { account, .. } => {
            assert(r[0].indexes(subs, collective_keys(event)[0], e));
            assert(record_key_bytes(Key::AccountId(account), e).subrange(0, 32) =~= account.0@);
        },
        _ => {},
    }
}

/// The proposal hash that a collective event names.
pub open spec fn collective_hash(event: Collective) -> ProposalHash {
    match event {
        Collective::Proposed { proposal_hash, .. } => proposal_hash,
        Collective::Voted { proposal_hash, .. } => proposal_hash,
        Collective::Approved { proposal_hash } => proposal_hash,
        Collective::Disapproved { proposal_hash } => proposal_hash,
        Collective::Executed { proposal_hash } => proposal_hash,
        Collective::MemberExecuted { proposal_hash } => proposal_hash,
        Collective::Closed { proposal_hash, .. } => proposal_hash,
    }
}

} // verus!
