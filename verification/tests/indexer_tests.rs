use hybrid_indexer::indexer::{Indexer, ResponseMessage};
use hybrid_indexer::keys::{Bytes32, Event, IndexTree, Key};
use hybrid_indexer::metadata::MetadataCache;

fn events_message(key: Key, block_number: u32, event_index: u32) -> ResponseMessage {
    ResponseMessage::Events { key, events: vec![Event { block_number, event_index }] }
}

#[test]
fn nobody_to_notify_without_subscriptions() {
    let indexer: Indexer<u32> = Indexer::new_test();
    assert!(indexer.notify_subscribers(Key::SessionIndex(5), Event { block_number: 1, event_index: 0 }).is_none());
}

#[test]
fn subscribers_are_notified_in_order() {
    let mut indexer: Indexer<u32> = Indexer::new_test();
    indexer.subscribe(Key::SessionIndex(5), 10);
    indexer.subscribe(Key::AccountId(Bytes32([1; 32])), 12);
    indexer.subscribe(Key::SessionIndex(5), 11);
    let n = indexer.notify_subscribers(Key::SessionIndex(5), Event { block_number: 7, event_index: 2 }).unwrap();
    assert_eq!(n.subscribers, &vec![10, 11]);
    assert_eq!(n.message, events_message(Key::SessionIndex(5), 7, 2));
    let n = indexer.notify_subscribers(Key::AccountId(Bytes32([1; 32])), Event { block_number: 8, event_index: 0 }).unwrap();
    assert_eq!(n.subscribers, &vec![12]);
    assert!(indexer.notify_subscribers(Key::SessionIndex(6), Event { block_number: 7, event_index: 2 }).is_none());
    assert!(indexer.notify_subscribers(Key::EraIndex(5), Event { block_number: 7, event_index: 2 }).is_none());
}

#[test]
fn index_event_variant_gives_record_and_notification() {
    let mut indexer: Indexer<&str> = Indexer::new_test();
    let r = indexer.index_event_variant(4, 1, 100, 3);
    assert_eq!(r.tree, IndexTree::Variant);
    assert_eq!(r.record_key, vec![4, 1, 0, 0, 0, 100, 0, 0, 0, 3]);
    assert!(r.notification.is_none());
    indexer.subscribe(Key::Variant(4, 1), "client");
    let r = indexer.index_event_variant(4, 1, 100, 3);
    let n = r.notification.unwrap();
    assert_eq!(n.subscribers, &vec!["client"]);
    assert_eq!(n.message, events_message(Key::Variant(4, 1), 100, 3));
}

#[test]
fn index_event_methods_choose_tree_and_key() {
    let mut indexer: Indexer<u8> = Indexer::new_test();
    indexer.subscribe(Key::ParaId(2000), 1);
    let h = [7u8; 32];
    let mut hash_record = h.to_vec();
    hash_record.extend_from_slice(&[0, 0, 0, 5, 0, 0, 0, 6]);
    let u32_record = |x: u32| {
        let mut v = x.to_be_bytes().to_vec();
        v.extend_from_slice(&[0, 0, 0, 5, 0, 0, 0, 6]);
        v
    };

    let r = indexer.index_event_account_id(h, 5, 6);
    assert_eq!((r.tree, r.record_key.clone()), (IndexTree::AccountId, hash_record.clone()));
    let r = indexer.index_event_account_index(9, 5, 6);
    assert_eq!((r.tree, r.record_key.clone()), (IndexTree::AccountIndex, u32_record(9)));
    let r = indexer.index_event_auction_index(9, 5, 6);
    assert_eq!((r.tree, r.record_key.clone()), (IndexTree::AuctionIndex, u32_record(9)));
    let r = indexer.index_event_bounty_index(9, 5, 6);
    assert_eq!((r.tree, r.record_key.clone()), (IndexTree::BountyIndex, u32_record(9)));
    let r = indexer.index_event_candidate_hash(h, 5, 6);
    assert_eq!((r.tree, r.record_key.clone()), (IndexTree::CandidateHash, hash_record.clone()));
    let r = indexer.index_event_era_index(9, 5, 6);
    assert_eq!((r.tree, r.record_key.clone()), (IndexTree::EraIndex, u32_record(9)));
    let r = indexer.index_event_message_id(h, 5, 6);
    assert_eq!((r.tree, r.record_key.clone()), (IndexTree::MessageId, hash_record.clone()));
    let r = indexer.index_event_para_id(2000, 5, 6);
    assert_eq!((r.tree, r.record_key.clone()), (IndexTree::ParaId, u32_record(2000)));
    assert_eq!(r.notification.unwrap().message, events_message(Key::ParaId(2000), 5, 6));
    let r = indexer.index_event_pool_id(9, 5, 6);
    assert_eq!((r.tree, r.record_key.clone()), (IndexTree::PoolId, u32_record(9)));
    assert!(r.notification.is_none());
    let r = indexer.index_event_preimage_hash(h, 5, 6);
    assert_eq!((r.tree, r.record_key.clone()), (IndexTree::PreimageHash, hash_record.clone()));
    let r = indexer.index_event_proposal_hash(h, 5, 6);
    assert_eq!((r.tree, r.record_key.clone()), (IndexTree::ProposalHash, hash_record.clone()));
    let r = indexer.index_event_proposal_index(9, 5, 6);
    assert_eq!((r.tree, r.record_key.clone()), (IndexTree::ProposalIndex, u32_record(9)));
    let r = indexer.index_event_ref_index(9, 5, 6);
    assert_eq!((r.tree, r.record_key.clone()), (IndexTree::RefIndex, u32_record(9)));
    let r = indexer.index_event_registrar_index(9, 5, 6);
    assert_eq!((r.tree, r.record_key.clone()), (IndexTree::RegistrarIndex, u32_record(9)));
    let r = indexer.index_event_session_index(9, 5, 6);
    assert_eq!((r.tree, r.record_key.clone()), (IndexTree::SessionIndex, u32_record(9)));
    let r = indexer.index_event_tip_hash(h, 5, 6);
    assert_eq!((r.tree, r.record_key.clone()), (IndexTree::TipHash, hash_record));
}

#[test]
fn metadata_is_kept_by_version() {
    let mut cache: MetadataCache<String> = MetadataCache::new();
    assert!(cache.get(9430).is_none());
    assert!(cache.insert_if_absent(9430, "v9430".to_string()));
    assert!(cache.insert_if_absent(9420, "v9420".to_string()));
    assert_eq!(cache.get(9430), Some(&"v9430".to_string()));
    assert_eq!(cache.get(9420), Some(&"v9420".to_string()));
    assert!(!cache.insert_if_absent(9430, "again".to_string()));
    assert_eq!(cache.get(9430), Some(&"v9430".to_string()));
    assert!(cache.get(1).is_none());
}

#[test]
fn indexed_events_store_no_value() {
    let indexer: Indexer<u8> = Indexer::new_test();
    assert!(indexer.index_event_variant(1, 2, 3, 4).value.is_empty());
    assert!(indexer.index_event_tip_hash([0; 32], 3, 4).value.is_empty());
    assert!(indexer.index_event_era_index(9, 3, 4).value.is_empty());
}
