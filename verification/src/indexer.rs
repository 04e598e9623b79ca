//! The indexer: for each event it is told of, it gives the record key to
//! store in the event's tree and the subscribers to tell of the event.
use vstd::prelude::*;
use crate::keys::{Bytes32, Event, IndexTree, Key, record_key_bytes, tree_of};
use crate::bytes::be_bytes;
use crate::records::{AccountIdKey, CandidateHashKey, HashKey, MessageIdKey, TipHashKey, U32Key, VariantKey};

verus! {

/// A message to a subscriber.
#[derive(Clone, Debug, PartialEq, Eq)]
pub enum ResponseMessage {
    /// New events under a search key that the subscriber asked for.
    Events { key: Key, events: Vec<Event> },
}

/// Whether `m` tells of `events` under search key `k`.
pub open spec fn is_events_message(m: ResponseMessage, k: Key, events: Seq<Event>) -> bool {
    match m {
        ResponseMessage::Events { key, events: v } => key == k && v@ == events,
    }
}

/// The subscribers to tell of an event, and the message to send each.
pub struct Notification<'a, S> {
    pub subscribers: &'a Vec<S>,
    pub message: ResponseMessage,
}

/// Whether `n` is what the subscriptions `subs` call for when `event` is
/// indexed under search key `k`: nothing when nobody subscribed to `k`,
/// else every subscriber of `k`, in the order they subscribed, and a message
/// that holds just this event.
pub open spec fn notifies<S>(subs: Map<Key, Seq<S>>, n: Option<Notification<'_, S>>, k: Key, event: Event) -> bool {
    match n {
        Some(n) => {
            &&& subs.contains_key(k)
            &&& n.subscribers@ == subs[k]
            &&& is_events_message(n.message, k, seq![event])
        },
        None => !subs.contains_key(k),
    }
}

/// What indexing one event under one search key calls for: the record key
/// to insert into a tree with the value to store under it, and the
/// subscribers to tell.
pub struct IndexedEvent<'a, S> {
    pub tree: IndexTree,
    pub record_key: Vec<u8>,
    pub value: Vec<u8>,
    pub notification: Option<Notification<'a, S>>,
}

impl<'a, S> IndexedEvent<'a, S> {
    /// Whether this is what indexing `event` under search key `k` calls for,
    /// with the subscriptions `subs`.
    pub open spec fn indexes(self, subs: Map<Key, Seq<S>>, k: Key, event: Event) -> bool {
        &&& self.tree == tree_of(k)
        &&& self.record_key@ == record_key_bytes(k, event)
        &&& notifies(subs, self.notification, k, event)
    }
}

/// The subscriptions of the indexer: for each search key that someone
/// subscribed to, the subscribers in the order they came.
pub struct Indexer<S> {
    entries: Vec<(Key, Vec<S>)>,
}

/// Whether `entries` holds no search key twice and no empty list.
spec fn entries_wf<S>(entries: Seq<(Key, Vec<S>)>) -> bool {
    &&& forall|i: int, j: int| #![trigger entries[i], entries[j]] 0 <= i < j < entries.len() ==> entries[i].0 != entries[j].0
    &&& forall|i: int| #![trigger entries[i]] 0 <= i < entries.len() ==> entries[i].1@.len() > 0
}

/// Whether `entries` holds search key `k`.
spec fn entries_has<S>(entries: Seq<(Key, Vec<S>)>, k: Key) -> bool {
    exists|i: int| 0 <= i < entries.len() && #[trigger] entries[i].0 == k
}

/// The subscriptions that `entries` holds.
spec fn entries_map<S>(entries: Seq<(Key, Vec<S>)>) -> Map<Key, Seq<S>> {
    Map::new(
        |k: Key| entries_has(entries, k),
        |k: Key| entries[choose|i: int| 0 <= i < entries.len() && #[trigger] entries[i].0 == k].1@,
    )
}

/// In well-formed entries, the list of each entry's key is that entry's.
proof fn lemma_entry<S>(entries: Seq<(Key, Vec<S>)>, i: int)
    requires
        entries_wf(entries),
        0 <= i < entries.len(),
    ensures
        entries_map(entries).contains_key(entries[i].0),
        entries_map(entries)[entries[i].0] == entries[i].1@,
{
    let k = entries[i].0;
    assert(entries_has(entries, k));
    let j = choose|j: int| 0 <= j < entries.len() && #[trigger] entries[j].0 == k;
    if j < i {
        assert(entries[j].0 != entries[i].0);
    } else if i < j {
        assert(entries[i].0 != entries[j].0);
    }
}

/// Where search key `key` stands in `entries`, if anywhere.
fn position<S>(entries: &Vec<(Key, Vec<S>)>, key: &Key) -> (r: Option<usize>)
    ensures
        match r {
            Some(i) => i < entries@.len() && entries@[i as int].0 == *key,
            None => !entries_has(entries@, *key),
        },
{
    let mut i: usize = 0;
    while i < entries.len()
        invariant
            0 <= i <= entries@.len(),
            forall|j: int| 0 <= j < i ==> #[trigger] entries@[j].0 != *key,
        decreases entries@.len() - i,
    {
        if entries[i].0.same_as(key) {
            return Some(i);
        }
        i = i + 1;
    }
    None
}

impl<S> View for Indexer<S> {
    type V = Map<Key, Seq<S>>;

    closed spec fn view(&self) -> Map<Key, Seq<S>> {
        entries_map(self.entries@)
    }
}

impl<S> Indexer<S> {
    /// The indexer's invariant: no search key twice, and no empty list.
    #[verifier::type_invariant]
    spec fn wf(&self) -> bool {
        entries_wf(self.entries@)
    }

    /// An indexer with no subscriptions.
    pub fn new() -> (r: Self)
        ensures
            r@ == Map::<Key, Seq<S>>::empty(),
    {
        let r = Indexer { entries: Vec::new() };
        assert(r@ =~= Map::<Key, Seq<S>>::empty());
        r
    }

    /// An indexer with no subscriptions, for tests.
    pub fn new_test() -> (r: Self)
        ensures
            r@ == Map::<Key, Seq<S>>::empty(),
    {
        Self::new()
    }

    /// Adds `subscriber` at the end of the subscribers of `key`.
    pub fn subscribe(&mut self, key: Key, subscriber: S)
        ensures
            final(self)@ == subscribed(old(self)@, key, subscriber),
            final(self)@.contains_key(key),
            final(self)@[key].len() >= 1,
            final(self)@[key].last() == subscriber,
            final(self)@[key].drop_last() == if old(self)@.contains_key(key) {
                old(self)@[key]
            } else {
                Seq::<S>::empty()
            },
            forall|k: Key| k != key ==> (#[trigger] final(self)@.contains_key(k) == old(self)@.contains_key(k)),
            forall|k: Key| k != key && old(self)@.contains_key(k) ==> #[trigger] final(self)@[k] == old(self)@[k],
    {
        proof {
            use_type_invariant(&*self);
        }
        let mut entries: Vec<(Key, Vec<S>)> = Vec::new();
        std::mem::swap(&mut entries, &mut self.entries);
        let ghost old_entries = entries@;
        let ghost mut at: int = 0;
        match position(&entries, &key) {
            Some(i) => {
                proof {
                    at = i as int;
                }
                let (k, mut list) = entries.remove(i);
                list.push(subscriber);
                entries.insert(i, (k, list));
                assert(entries@ =~= old_entries.update(at, (key, list)));
            },
            None => {
                proof {
                    at = entries@.len() as int;
                }
                entries.push((key, vec![subscriber]));
            },
        }
        proof {
            let new_val = if entries_map(old_entries).contains_key(key) {
                entries_map(old_entries)[key].push(subscriber)
            } else {
                seq![subscriber]
            };
            let m = entries_map(entries@);
            let om = entries_map(old_entries);
            assert(entries@[at].0 == key);
            assert(entries_wf(entries@)) by {
                assert forall|i: int, j: int| #![trigger entries@[i], entries@[j]] 0 <= i < j < entries@.len() implies entries@[i].0 != entries@[j].0 by {
                    if i != at && j != at {
                        assert(old_entries[i].0 != old_entries[j].0);
                    } else if at < old_entries.len() {
                        assert(old_entries[i].0 != old_entries[j].0);
                    } else {
                        assert(old_entries[i].0 != key);
                    }
                }
            }
            lemma_entry(entries@, at);
            if at < old_entries.len() {
                lemma_entry(old_entries, at);
            }
            assert forall|k: Key| #[trigger] m.contains_key(k) == om.insert(key, new_val).contains_key(k) by {
                if m.contains_key(k) && k != key {
                    let j = choose|j: int| 0 <= j < entries@.len() && #[trigger] entries@[j].0 == k;
                    assert(old_entries[j].0 == k);
                }
                if om.contains_key(k) {
                    let j = choose|j: int| 0 <= j < old_entries.len() && #[trigger] old_entries[j].0 == k;
                    assert(entries@[j].0 == k);
                }
            }
            assert forall|k: Key| #[trigger] m.contains_key(k) implies m[k] == om.insert(key, new_val)[k] by {
                if k != key {
                    let j = choose|j: int| 0 <= j < entries@.len() && #[trigger] entries@[j].0 == k;
                    lemma_entry(entries@, j);
                    lemma_entry(old_entries, j);
                }
            }
            assert(m =~= om.insert(key, new_val));
        }
        self.entries = entries;
        proof {
            if old(self)@.contains_key(key) {
                assert(self@[key].drop_last() =~= old(self)@[key]);
            } else {
                assert(self@[key].drop_last() =~= Seq::<S>::empty());
            }
        }
    }

    /// The subscribers of `search_key` and the message that tells them of
    /// `event`; nothing when nobody subscribed to `search_key`. Someone who
    /// is told is always told of at least one subscriber.
    pub fn notify_subscribers(&self, search_key: Key, event: Event) -> (r: Option<Notification<'_, S>>)
        ensures
            notifies(self@, r, search_key, event),
            r matches Some(n) ==> n.subscribers@.len() > 0,
            r is Some <==> self@.contains_key(search_key),
            r matches Some(n) ==> n.subscribers@ == self@[search_key] && (n.message matches ResponseMessage::Events {
                key,
                events,
            } && key == search_key && events@ == seq![event]),
    {
        proof {
            use_type_invariant(self);
        }
        match position(&self.entries, &search_key) {
            Some(i) => {
                proof {
                    lemma_entry(self.entries@, i as int);
                }
                let mut events: Vec<Event> = Vec::new();
                events.push(event);
                assert(events@ =~= seq![event]);
                Some(Notification {
                    subscribers: &self.entries[i].1,
                    message: ResponseMessage::Events { key: search_key, events },
                })
            },
            None => None,
        }
    }
}

/// The subscriptions after `subscriber` subscribes to `k`, as
/// `Indexer::subscribe` leaves them.
pub open spec fn subscribed<S>(subs: Map<Key, Seq<S>>, k: Key, subscriber: S) -> Map<Key, Seq<S>> {
    subs.insert(k, if subs.contains_key(k) { subs[k].push(subscriber) } else { seq![subscriber] })
}

/// Once `subscriber` has subscribed to `k`, an event indexed under `k` is
/// sent to every earlier subscriber of `k` and, last, to `subscriber`; an
/// event indexed under any other key is sent to just whom it was sent to
/// before.
pub proof fn lemma_subscribe_then_notify<S>(
    subs: Map<Key, Seq<S>>,
    k: Key,
    subscriber: S,
    other: Key,
    n: Option<Notification<'_, S>>,
    event: Event,
)
    ensures
        notifies(subscribed(subs, k, subscriber), n, k, event) ==> {
            &&& n is Some
            &&& n.unwrap().subscribers@.last() == subscriber
            &&& n.unwrap().subscribers@.drop_last() == if subs.contains_key(k) {
                subs[k]
            } else {
                Seq::empty()
            }
        },
        other != k ==> (notifies(subscribed(subs, k, subscriber), n, other, event) == notifies(subs, n, other, event)),
{
    if notifies(subscribed(subs, k, subscriber), n, k, event) {
        let l = n.unwrap().subscribers@;
        if subs.contains_key(k) {
            assert(l.drop_last() =~= subs[k]);
        } else {
            assert(l.drop_last() =~= Seq::<S>::empty());
        }
    }
}

impl<S> Indexer<S> {
    /// What indexing `event` under `search_key` calls for, given its record
    /// key.
    fn index_record(&self, tree: IndexTree, record_key: Vec<u8>, search_key: Key, event: Event) -> (r: IndexedEvent<'_, S>)
        requires
            tree == tree_of(search_key),
            record_key@ == record_key_bytes(search_key, event),
        ensures
            r.indexes(self@, search_key, event),
            r.value@ == Seq::<u8>::empty(),
    {
        let notification = self.notify_subscribers(search_key, event);
        IndexedEvent { tree, record_key, value: Vec::new(), notification }
    }

    /// Indexes an event under its pallet and variant.
    pub fn index_event_variant(&self, pallet_index: u8, variant_index: u8, block_number: u32, event_index: u32) -> (r: IndexedEvent<'_, S>)
        ensures
            r.indexes(self@, Key::Variant(pallet_index, variant_index), Event { block_number, event_index }),
            r.tree == IndexTree::Variant,
            r.record_key@ == seq![pallet_index, variant_index] + be_bytes(block_number) + be_bytes(event_index),
            notifies(self@, r.notification, Key::Variant(pallet_index, variant_index), Event { block_number, event_index }),
            r.value@ == Seq::<u8>::empty(),
    {
        let key = VariantKey { pallet_index, variant_index, block_number, event_index }.serialize();
        self.index_record(IndexTree::Variant, key, Key::Variant(pallet_index, variant_index), Event { block_number, event_index })
    }

    /// Indexes an event under account id `account_id`.
    pub fn index_event_account_id(&self, account_id: [u8; 32], block_number: u32, event_index: u32) -> (r: IndexedEvent<'_, S>)
        ensures
            r.indexes(self@, Key::AccountId(Bytes32(account_id)), Event { block_number, event_index }),
            r.tree == IndexTree::AccountId,
            r.record_key@ == account_id@ + be_bytes(block_number) + be_bytes(event_index),
            notifies(self@, r.notification, Key::AccountId(Bytes32(account_id)), Event { block_number, event_index }),
            r.value@ == Seq::<u8>::empty(),
    {
        let key = AccountIdKey { account_id: account_id, block_number, event_index }.serialize();
        self.index_record(IndexTree::AccountId, key, Key::AccountId(Bytes32(account_id)), Event { block_number, event_index })
    }

    /// Indexes an event under account index `account_index`.
    pub fn index_event_account_index(&self, account_index: u32, block_number: u32, event_index: u32) -> (r: IndexedEvent<'_, S>)
        ensures
            r.indexes(self@, Key::AccountIndex(account_index), Event { block_number, event_index }),
            r.tree == IndexTree::AccountIndex,
            r.record_key@ == be_bytes(account_index) + be_bytes(block_number) + be_bytes(event_index),
            notifies(self@, r.notification, Key::AccountIndex(account_index), Event { block_number, event_index }),
            r.value@ == Seq::<u8>::empty(),
    {
        let key = U32Key { key: account_index, block_number, event_index }.serialize();
        self.index_record(IndexTree::AccountIndex, key, Key::AccountIndex(account_index), Event { block_number, event_index })
    }

    /// Indexes an event under auction index `auction_index`.
    pub fn index_event_auction_index(&self, auction_index: u32, block_number: u32, event_index: u32) -> (r: IndexedEvent<'_, S>)
        ensures
            r.indexes(self@, Key::AuctionIndex(auction_index), Event { block_number, event_index }),
            r.tree == IndexTree::AuctionIndex,
            r.record_key@ == be_bytes(auction_index) + be_bytes(block_number) + be_bytes(event_index),
            notifies(self@, r.notification, Key::AuctionIndex(auction_index), Event { block_number, event_index }),
            r.value@ == Seq::<u8>::empty(),
    {
        let key = U32Key { key: auction_index, block_number, event_index }.serialize();
        self.index_record(IndexTree::AuctionIndex, key, Key::AuctionIndex(auction_index), Event { block_number, event_index })
    }

    /// Indexes an event under bounty index `bounty_index`.
    pub fn index_event_bounty_index(&self, bounty_index: u32, block_number: u32, event_index: u32) -> (r: IndexedEvent<'_, S>)
        ensures
            r.indexes(self@, Key::BountyIndex(bounty_index), Event { block_number, event_index }),
            r.tree == IndexTree::BountyIndex,
            r.record_key@ == be_bytes(bounty_index) + be_bytes(block_number) + be_bytes(event_index),
            notifies(self@, r.notification, Key::BountyIndex(bounty_index), Event { block_number, event_index }),
            r.value@ == Seq::<u8>::empty(),
    {
        let key = U32Key { key: bounty_index, block_number, event_index }.serialize();
        self.index_record(IndexTree::BountyIndex, key, Key::BountyIndex(bounty_index), Event { block_number, event_index })
    }

    /// Indexes an event under candidate hash `candidate_hash`.
    pub fn index_event_candidate_hash(&self, candidate_hash: [u8; 32], block_number: u32, event_index: u32) -> (r: IndexedEvent<'_, S>)
        ensures
            r.indexes(self@, Key::CandidateHash(Bytes32(candidate_hash)), Event { block_number, event_index }),
            r.tree == IndexTree::CandidateHash,
            r.record_key@ == candidate_hash@ + be_bytes(block_number) + be_bytes(event_index),
            notifies(self@, r.notification, Key::CandidateHash(Bytes32(candidate_hash)), Event { block_number, event_index }),
            r.value@ == Seq::<u8>::empty(),
    {
        let key = CandidateHashKey { candidate_hash: candidate_hash, block_number, event_index }.serialize();
        self.index_record(IndexTree::CandidateHash, key, Key::CandidateHash(Bytes32(candidate_hash)), Event { block_number, event_index })
    }

    /// Indexes an event under era index `era_index`.
    pub fn index_event_era_index(&self, era_index: u32, block_number: u32, event_index: u32) -> (r: IndexedEvent<'_, S>)
        ensures
            r.indexes(self@, Key::EraIndex(era_index), Event { block_number, event_index }),
            r.tree == IndexTree::EraIndex,
            r.record_key@ == be_bytes(era_index) + be_bytes(block_number) + be_bytes(event_index),
            notifies(self@, r.notification, Key::EraIndex(era_index), Event { block_number, event_index }),
            r.value@ == Seq::<u8>::empty(),
    {
        let key = U32Key { key: era_index, block_number, event_index }.serialize();
        self.index_record(IndexTree::EraIndex, key, Key::EraIndex(era_index), Event { block_number, event_index })
    }

    /// Indexes an event under message id `message_id`.
    pub fn index_event_message_id(&self, message_id: [u8; 32], block_number: u32, event_index: u32) -> (r: IndexedEvent<'_, S>)
        ensures
            r.indexes(self@, Key::MessageId(Bytes32(message_id)), Event { block_number, event_index }),
            r.tree == IndexTree::MessageId,
            r.record_key@ == message_id@ + be_bytes(block_number) + be_bytes(event_index),
            notifies(self@, r.notification, Key::MessageId(Bytes32(message_id)), Event { block_number, event_index }),
            r.value@ == Seq::<u8>::empty(),
    {
        let key = MessageIdKey { message_id: message_id, block_number, event_index }.serialize();
        self.index_record(IndexTree::MessageId, key, Key::MessageId(Bytes32(message_id)), Event { block_number, event_index })
    }

    /// Indexes an event under para id `para_id`.
    pub fn index_event_para_id(&self, para_id: u32, block_number: u32, event_index: u32) -> (r: IndexedEvent<'_, S>)
        ensures
            r.indexes(self@, Key::ParaId(para_id), Event { block_number, event_index }),
            r.tree == IndexTree::ParaId,
            r.record_key@ == be_bytes(para_id) + be_bytes(block_number) + be_bytes(event_index),
            notifies(self@, r.notification, Key::ParaId(para_id), Event { block_number, event_index }),
            r.value@ == Seq::<u8>::empty(),
    {
        let key = U32Key { key: para_id, block_number, event_index }.serialize();
        self.index_record(IndexTree::ParaId, key, Key::ParaId(para_id), Event { block_number, event_index })
    }

    /// Indexes an event under pool id `pool_id`.
    pub fn index_event_pool_id(&self, pool_id: u32, block_number: u32, event_index: u32) -> (r: IndexedEvent<'_, S>)
        ensures
            r.indexes(self@, Key::PoolId(pool_id), Event { block_number, event_index }),
            r.tree == IndexTree::PoolId,
            r.record_key@ == be_bytes(pool_id) + be_bytes(block_number) + be_bytes(event_index),
            notifies(self@, r.notification, Key::PoolId(pool_id), Event { block_number, event_index }),
            r.value@ == Seq::<u8>::empty(),
    {
        let key = U32Key { key: pool_id, block_number, event_index }.serialize();
        self.index_record(IndexTree::PoolId, key, Key::PoolId(pool_id), Event { block_number, event_index })
    }

    /// Indexes an event under preimage hash `preimage_hash`.
    pub fn index_event_preimage_hash(&self, preimage_hash: [u8; 32], block_number: u32, event_index: u32) -> (r: IndexedEvent<'_, S>)
        ensures
            r.indexes(self@, Key::PreimageHash(Bytes32(preimage_hash)), Event { block_number, event_index }),
            r.tree == IndexTree::PreimageHash,
            r.record_key@ == preimage_hash@ + be_bytes(block_number) + be_bytes(event_index),
            notifies(self@, r.notification, Key::PreimageHash(Bytes32(preimage_hash)), Event { block_number, event_index }),
            r.value@ == Seq::<u8>::empty(),
    {
        let key = HashKey { hash: preimage_hash, block_number, event_index }.serialize();
        self.index_record(IndexTree::PreimageHash, key, Key::PreimageHash(Bytes32(preimage_hash)), Event { block_number, event_index })
    }

    /// Indexes an event under proposal hash `proposal_hash`.
    pub fn index_event_proposal_hash(&self, proposal_hash: [u8; 32], block_number: u32, event_index: u32) -> (r: IndexedEvent<'_, S>)
        ensures
            r.indexes(self@, Key::ProposalHash(Bytes32(proposal_hash)), Event { block_number, event_index }),
            r.tree == IndexTree::ProposalHash,
            r.record_key@ == proposal_hash@ + be_bytes(block_number) + be_bytes(event_index),
            notifies(self@, r.notification, Key::ProposalHash(Bytes32(proposal_hash)), Event { block_number, event_index }),
            r.value@ == Seq::<u8>::empty(),
    {
        let key = HashKey { hash: proposal_hash, block_number, event_index }.serialize();
        self.index_record(IndexTree::ProposalHash, key, Key::ProposalHash(Bytes32(proposal_hash)), Event { block_number, event_index })
    }

    /// Indexes an event under proposal index `proposal_index`.
    pub fn index_event_proposal_index(&self, proposal_index: u32, block_number: u32, event_index: u32) -> (r: IndexedEvent<'_, S>)
        ensures
            r.indexes(self@, Key::ProposalIndex(proposal_index), Event { block_number, event_index }),
            r.tree == IndexTree::ProposalIndex,
            r.record_key@ == be_bytes(proposal_index) + be_bytes(block_number) + be_bytes(event_index),
            notifies(self@, r.notification, Key::ProposalIndex(proposal_index), Event { block_number, event_index }),
            r.value@ == Seq::<u8>::empty(),
    {
        let key = U32Key { key: proposal_index, block_number, event_index }.serialize();
        self.index_record(IndexTree::ProposalIndex, key, Key::ProposalIndex(proposal_index), Event { block_number, event_index })
    }

    /// Indexes an event under ref index `ref_index`.
    pub fn index_event_ref_index(&self, ref_index: u32, block_number: u32, event_index: u32) -> (r: IndexedEvent<'_, S>)
        ensures
            r.indexes(self@, Key::RefIndex(ref_index), Event { block_number, event_index }),
            r.tree == IndexTree::RefIndex,
            r.record_key@ == be_bytes(ref_index) + be_bytes(block_number) + be_bytes(event_index),
            notifies(self@, r.notification, Key::RefIndex(ref_index), Event { block_number, event_index }),
            r.value@ == Seq::<u8>::empty(),
    {
        let key = U32Key { key: ref_index, block_number, event_index }.serialize();
        self.index_record(IndexTree::RefIndex, key, Key::RefIndex(ref_index), Event { block_number, event_index })
    }

    /// Indexes an event under registrar index `registrar_index`.
    pub fn index_event_registrar_index(&self, registrar_index: u32, block_number: u32, event_index: u32) -> (r: IndexedEvent<'_, S>)
        ensures
            r.indexes(self@, Key::RegistrarIndex(registrar_index), Event { block_number, event_index }),
            r.tree == IndexTree::RegistrarIndex,
            r.record_key@ == be_bytes(registrar_index) + be_bytes(block_number) + be_bytes(event_index),
            notifies(self@, r.notification, Key::RegistrarIndex(registrar_index), Event { block_number, event_index }),
            r.value@ == Seq::<u8>::empty(),
    {
        let key = U32Key { key: registrar_index, block_number, event_index }.serialize();
        self.index_record(IndexTree::RegistrarIndex, key, Key::RegistrarIndex(registrar_index), Event { block_number, event_index })
    }

    /// Indexes an event under session index `session_index`.
    pub fn index_event_session_index(&self, session_index: u32, block_number: u32, event_index: u32) -> (r: IndexedEvent<'_, S>)
        ensures
            r.indexes(self@, Key::SessionIndex(session_index), Event { block_number, event_index }),
            r.tree == IndexTree::SessionIndex,
            r.record_key@ == be_bytes(session_index) + be_bytes(block_number) + be_bytes(event_index),
            notifies(self@, r.notification, Key::SessionIndex(session_index), Event { block_number, event_index }),
            r.value@ == Seq::<u8>::empty(),
    {
        let key = U32Key { key: session_index, block_number, event_index }.serialize();
        self.index_record(IndexTree::SessionIndex, key, Key::SessionIndex(session_index), Event { block_number, event_index })
    }

    /// Indexes an event under tip hash `tip_hash`.
    pub fn index_event_tip_hash(&self, tip_hash: [u8; 32], block_number: u32, event_index: u32) -> (r: IndexedEvent<'_, S>)
        ensures
            r.indexes(self@, Key::TipHash(Bytes32(tip_hash)), Event { block_number, event_index }),
            r.tree == IndexTree::TipHash,
            r.record_key@ == tip_hash@ + be_bytes(block_number) + be_bytes(event_index),
            notifies(self@, r.notification, Key::TipHash(Bytes32(tip_hash)), Event { block_number, event_index }),
            r.value@ == Seq::<u8>::empty(),
    {
        let key = TipHashKey { tip_hash: tip_hash, block_number, event_index }.serialize();
        self.index_record(IndexTree::TipHash, key, Key::TipHash(Bytes32(tip_hash)), Event { block_number, event_index })
    }
}

} // verus!
