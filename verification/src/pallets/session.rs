//! The session pallet: its events, and the keys each is indexed under.
use vstd::prelude::*;
use crate::indexer::{IndexedEvent, Indexer};
use crate::keys::{Event, Key};
use crate::pallets::collective::indexes_under_each;
use crate::scale::{le_bytes, lemma_u32_at_le_bytes, u32_at, u32_field, EventError};
use crate::keys::IndexTree;
use crate::bytes::{be_bytes, be_value, lemma_be_value_of_bytes};
use crate::indexer::notifies;
use crate::keys::record_key_bytes;

verus! {

/// An event of the session pallet that the index keeps.
#[derive(Clone, Copy, Debug, PartialEq, Eq, Structural)]
pub enum Session {
    NewSession { session_index: u32 },
}

/// The search keys that a session event is indexed under: a new session
/// under its index.
pub open spec fn session_keys(event: Session) -> Seq<Key> {
    match event {
        Session::NewSession { session_index } => seq![Key::SessionIndex(session_index)],
    }
}

/// Indexes the session event `event`, the `event_index`th event of block
/// `block_number`, under each of its search keys.
pub fn session_index_event<'a, S>(indexer: &'a Indexer<S>, block_number: u32, event_index: u32, event: &Session) -> (r: Vec<IndexedEvent<'a, S>>)
    ensures
        indexes_under_each(r@, indexer@, session_keys(*event), Event { block_number, event_index }, Seq::empty()),
        match *event {
            Session::NewSession { session_index } => {
                &&& r@.len() == 1
                &&& r@[0].indexes(indexer@, Key::SessionIndex(session_index), Event { block_number, event_index })
            },
        },
{
    let mut r: Vec<IndexedEvent<'a, S>> = Vec::new();
    match event {
        Session::NewSession { session_index } => {
            r.push(indexer.index_event_session_index(*session_index, block_number, event_index));
        },
    }
    r
}

/// The name of the pallet whose events the session module reads.
pub open spec fn session_pallet() -> Seq<char> {
    "Session"@
}

/// Reads a session event from the name of its pallet, its own name and its
/// field bytes: nothing for a name other than `NewSession`, an error when
/// its four-byte session index is missing, and otherwise the event. A
/// `NewSession` event must come from the session pallet.
pub fn decode_session(pallet: &str, variant: &str, fields: &[u8]) -> (r: Result<Option<Session>, EventError>)
    requires
        variant@ == "NewSession"@ ==> pallet@ == session_pallet(),
    ensures
        match r {
            Ok(Some(Session::NewSession { session_index })) => {
                &&& variant@ == "NewSession"@
                &&& fields@.len() >= 4
                &&& session_index == u32_at(fields@, 0)
            },
            Ok(None) => variant@ != "NewSession"@,
            Err(EventError::NotFound) => false,
            Err(EventError::MalformedFields) => variant@ == "NewSession"@ && fields@.len() < 4,
        },
        forall|i: u32|
            variant@ == "NewSession"@ && fields@ == #[trigger] le_bytes(i)
                ==> r == Ok::<Option<Session>, EventError>(Some(Session::NewSession { session_index: i })),
{
    proof {
        assert forall|i: u32| variant@ == "NewSession"@ && fields@ == #[trigger] le_bytes(i) implies u32_at(fields@, 0) == i by {
            lemma_u32_at_le_bytes(Seq::empty(), i, Seq::empty());
            assert(Seq::<u8>::empty() + le_bytes(i) + Seq::<u8>::empty() =~= le_bytes(i));
        }
    }
    if String::from_str(variant) == String::from_str("NewSession") {
        let session_index = u32_field(fields, 0)?;
        Ok(Some(Session::NewSession { session_index }))
    } else {
        Ok(None)
    }
}

/// Where a new session is filed and who is told of it: one record, in the
/// session-index tree, whose record key begins with the four big-endian
/// bytes of the session's own index (so they read back as that index),
/// followed by the block number and the event's index in the block; it
/// stores no value and tells the subscribers of that session index.
pub proof fn lemma_session_records<S>(
    subs: Map<Key, Seq<S>>,
    r: Seq<IndexedEvent<'_, S>>,
    session_index: u32,
    e: Event,
)
    requires
        indexes_under_each(r, subs, session_keys(Session::NewSession { session_index }), e, Seq::empty()),
    ensures
        r.len() == 1,
        r[0].tree == IndexTree::SessionIndex,
        be_value(r[0].record_key@.subrange(0, 4)) == session_index,
        r[0].record_key@ == be_bytes(session_index) + be_bytes(e.block_number) + be_bytes(e.event_index),
        r[0].value@ == Seq::<u8>::empty(),
        notifies(subs, r[0].notification, Key::SessionIndex(session_index), e),
{
    assert(r[0].indexes(subs, session_keys(Session::NewSession { session_index })[0], e));
    let k = record_key_bytes(Key::SessionIndex(session_index), e);
    assert(k.subrange(0, 4) =~= be_bytes(session_index));
    lemma_be_value_of_bytes(session_index);
}

} // verus!
