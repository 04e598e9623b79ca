use hybrid_indexer::bytes::{u32_from_be_bytes, u32_to_be_bytes, vector_as_u8_4_array};
use hybrid_indexer::keys::{Bytes32, IndexTree, Key};
use hybrid_indexer::records::{
    AccountIdKey, CandidateHashKey, HashKey, MessageIdKey, TipHashKey, U32Key, VariantKey,
};

#[test]
fn be_bytes_of_a_number() {
    assert_eq!(u32_to_be_bytes(0x0102_0304), [1, 2, 3, 4]);
    assert_eq!(u32_to_be_bytes(0), [0, 0, 0, 0]);
    assert_eq!(u32_to_be_bytes(u32::MAX), [255, 255, 255, 255]);
    assert_eq!(u32_from_be_bytes([1, 2, 3, 4]), 0x0102_0304);
    for x in [0u32, 1, 255, 256, 65_535, 16_777_216, 3_000_000_000, u32::MAX] {
        assert_eq!(u32_from_be_bytes(u32_to_be_bytes(x)), x);
        assert_eq!(u32_to_be_bytes(x), x.to_be_bytes());
    }
}

#[test]
fn first_four_bytes() {
    assert_eq!(vector_as_u8_4_array(&[9, 8, 7, 6, 5]), [9, 8, 7, 6]);
    assert_eq!(vector_as_u8_4_array(&[0, 0, 1, 0]), [0, 0, 1, 0]);
}

#[test]
fn variant_key_bytes() {
    let k = VariantKey { pallet_index: 1, variant_index: 2, block_number: 3, event_index: 4 };
    let b = k.serialize();
    assert_eq!(b, vec![1, 2, 0, 0, 0, 3, 0, 0, 0, 4]);
    assert_eq!(VariantKey::unserialize(&b), k);
}

#[test]
fn u32_key_bytes() {
    let k = U32Key { key: 0x0a0b0c0d, block_number: 258, event_index: 7 };
    let b = k.serialize();
    assert_eq!(b, vec![10, 11, 12, 13, 0, 0, 1, 2, 0, 0, 0, 7]);
    assert_eq!(U32Key::unserialize(&b), k);
}

#[test]
fn hash_shaped_key_bytes() {
    let mut h = [0u8; 32];
    for (i, x) in h.iter_mut().enumerate() {
        *x = i as u8;
    }
    let mut expected: Vec<u8> = h.to_vec();
    expected.extend_from_slice(&[0, 0, 0, 9, 0, 1, 0, 0]);

    let a = AccountIdKey { account_id: h, block_number: 9, event_index: 65_536 };
    assert_eq!(a.serialize(), expected);
    assert_eq!(AccountIdKey::unserialize(&a.serialize()), a);

    let c = CandidateHashKey { candidate_hash: h, block_number: 9, event_index: 65_536 };
    assert_eq!(c.serialize(), expected);
    assert_eq!(CandidateHashKey::unserialize(&c.serialize()), c);

    let p = HashKey { hash: h, block_number: 9, event_index: 65_536 };
    assert_eq!(p.serialize(), expected);
    assert_eq!(HashKey::unserialize(&p.serialize()), p);

    let m = MessageIdKey { message_id: h, block_number: 9, event_index: 65_536 };
    assert_eq!(m.serialize(), expected);
    assert_eq!(MessageIdKey::unserialize(&m.serialize()), m);

    let t = TipHashKey { tip_hash: h, block_number: 9, event_index: 65_536 };
    assert_eq!(t.serialize(), expected);
    assert_eq!(TipHashKey::unserialize(&t.serialize()), t);
}

#[test]
fn unserialize_reads_only_the_record() {
    let mut b = U32Key { key: 1, block_number: 2, event_index: 3 }.serialize();
    b.push(99);
    assert_eq!(U32Key::unserialize(&b), U32Key { key: 1, block_number: 2, event_index: 3 });
}

#[test]
fn record_keys_sort_in_chain_order() {
    let e = |block_number: u32, event_index: u32| U32Key { key: 7, block_number, event_index }.serialize();
    assert!(e(1, 5) < e(2, 0));
    assert!(e(2, 0) < e(2, 1));
    assert!(e(255, 9) < e(256, 0));
    assert!(e(65_535, 300) < e(65_536, 2));
    assert!(!(e(3, 3) < e(3, 3)));
    assert!(e(0x0100_0000, 0) > e(0x00ff_ffff, u32::MAX));
}

#[test]
fn different_events_have_different_record_keys() {
    let a = VariantKey { pallet_index: 1, variant_index: 2, block_number: 3, event_index: 4 }.serialize();
    let b = VariantKey { pallet_index: 1, variant_index: 2, block_number: 4, event_index: 3 }.serialize();
    let c = VariantKey { pallet_index: 2, variant_index: 1, block_number: 3, event_index: 4 }.serialize();
    assert_ne!(a, b);
    assert_ne!(a, c);
    assert_ne!(b, c);
}

#[test]
fn records_of_one_key_share_its_prefix() {
    let a = U32Key { key: 0x01020304, block_number: 10, event_index: 1 }.serialize();
    let b = U32Key { key: 0x01020304, block_number: 99, event_index: 0 }.serialize();
    let c = U32Key { key: 0x01020305, block_number: 10, event_index: 1 }.serialize();
    assert_eq!(&a[..4], &[1, 2, 3, 4]);
    assert_eq!(&b[..4], &[1, 2, 3, 4]);
    assert_ne!(&c[..4], &[1, 2, 3, 4]);
}

#[test]
fn key_trees_and_equality() {
    let h = Bytes32([5; 32]);
    assert_eq!(Key::Variant(1, 2).tree(), IndexTree::Variant);
    assert_eq!(Key::AccountId(h).tree(), IndexTree::AccountId);
    assert_eq!(Key::SessionIndex(3).tree(), IndexTree::SessionIndex);
    assert_eq!(Key::TipHash(h).tree(), IndexTree::TipHash);
    assert_eq!(Key::ProposalHash(h).tree(), IndexTree::ProposalHash);
    assert!(Key::AccountId(h).same_as(&Key::AccountId(Bytes32([5; 32]))));
    assert!(!Key::AccountId(h).same_as(&Key::CandidateHash(h)));
    let mut other = [5u8; 32];
    other[31] = 6;
    assert!(!Key::AccountId(h).same_as(&Key::AccountId(Bytes32(other))));
    assert!(Key::EraIndex(4).same_as(&Key::EraIndex(4)));
    assert!(!Key::EraIndex(4).same_as(&Key::RefIndex(4)));
    assert!(!Key::Variant(1, 2).same_as(&Key::Variant(2, 1)));
}
