use hybrid_indexer::indexer::Indexer;
use hybrid_indexer::keys::{Bytes32, IndexTree, Key};
use hybrid_indexer::pallets::collective::{collective_index_event, decode_collective, Collective, ProposalHash};
use hybrid_indexer::pallets::session::{decode_session, session_index_event, Session};
use hybrid_indexer::scale::EventError;

#[test]
fn proposal_hash_text() {
    assert_eq!(ProposalHash([0xab; 32]).hex_string(), format!("0x{}", "ab".repeat(32)));
    let mut h = [0u8; 32];
    for (i, x) in h.iter_mut().enumerate() {
        *x = (i * 8) as u8;
    }
    let s = ProposalHash(h).hex_string();
    assert_eq!(s.len(), 66);
    assert!(s.starts_with("0x0008101820"));
    assert!(s.ends_with("f0f8"));
    assert_ne!(ProposalHash([1; 32]).hex_string(), ProposalHash([16; 32]).hex_string());
}

#[test]
fn a_proposal_is_indexed_under_proposer_index_and_hash() {
    let mut indexer: Indexer<u8> = Indexer::new_test();
    indexer.subscribe(Key::ProposalIndex(3), 1);
    let event = Collective::Proposed {
        account: Bytes32([2; 32]),
        proposal_index: 3,
        proposal_hash: ProposalHash([4; 32]),
        threshold: 5,
    };
    let r = collective_index_event(&indexer, 10, 1, &event, &[7, 7]);
    let trees: Vec<IndexTree> = r.iter().map(|x| x.tree).collect();
    assert_eq!(trees, vec![IndexTree::AccountId, IndexTree::ProposalIndex, IndexTree::ProposalHash]);
    assert_eq!(&r[0].record_key[..32], &[2; 32]);
    assert_eq!(r[1].record_key, vec![0, 0, 0, 3, 0, 0, 0, 10, 0, 0, 0, 1]);
    assert_eq!(&r[2].record_key[..32], &[4; 32]);
    assert!(r.iter().all(|x| x.value == vec![7, 7]));
    assert!(r[0].notification.is_none());
    assert_eq!(r[1].notification.as_ref().unwrap().subscribers, &vec![1]);
}

#[test]
fn a_vote_is_indexed_under_voter_and_hash() {
    let indexer: Indexer<u8> = Indexer::new_test();
    let event = Collective::Voted {
        account: Bytes32([2; 32]),
        proposal_hash: ProposalHash([4; 32]),
        voted: true,
        yes: 3,
        no: 1,
    };
    let r = collective_index_event(&indexer, 10, 1, &event, &[7, 7]);
    let trees: Vec<IndexTree> = r.iter().map(|x| x.tree).collect();
    assert_eq!(trees, vec![IndexTree::AccountId, IndexTree::ProposalHash]);
}

#[test]
fn other_collective_events_are_indexed_under_the_hash() {
    let indexer: Indexer<u8> = Indexer::new_test();
    let h = ProposalHash([9; 32]);
    for event in [
        Collective::Approved { proposal_hash: h },
        Collective::Disapproved { proposal_hash: h },
        Collective::Executed { proposal_hash: h },
        Collective::MemberExecuted { proposal_hash: h },
        Collective::Closed { proposal_hash: h, yes: 4, no: 2 },
    ] {
        let r = collective_index_event(&indexer, 1, 2, &event, &[]);
        assert_eq!(r.len(), 1);
        assert_eq!(r[0].tree, IndexTree::ProposalHash);
        let mut expected = vec![9u8; 32];
        expected.extend_from_slice(&[0, 0, 0, 1, 0, 0, 0, 2]);
        assert_eq!(r[0].record_key, expected);
    }
}

#[test]
fn a_new_session_is_indexed_under_its_index() {
    let indexer: Indexer<u8> = Indexer::new_test();
    let r = session_index_event(&indexer, 300, 0, &Session::NewSession { session_index: 77 });
    assert_eq!(r.len(), 1);
    assert_eq!(r[0].tree, IndexTree::SessionIndex);
    assert_eq!(r[0].record_key, vec![0, 0, 0, 77, 0, 0, 1, 44, 0, 0, 0, 0]);
}

#[test]
fn a_new_session_record_stores_no_value() {
    let indexer: Indexer<u8> = Indexer::new_test();
    let r = session_index_event(&indexer, 300, 0, &Session::NewSession { session_index: 77 });
    assert!(r[0].value.is_empty());
}

fn bytes(parts: &[&[u8]]) -> Vec<u8> {
    parts.concat()
}

#[test]
fn collective_events_are_read_from_their_fields() {
    let f = bytes(&[&[1; 32], &[3, 0, 0, 0], &[4; 32], &[5, 1, 0, 0]]);
    assert_eq!(
        decode_collective("Council", "Proposed", &f),
        Ok(Some(Collective::Proposed {
            account: Bytes32([1; 32]),
            proposal_index: 3,
            proposal_hash: ProposalHash([4; 32]),
            threshold: 261,
        }))
    );
    let f = bytes(&[&[1; 32], &[4; 32], &[1], &[2, 0, 0, 0], &[0, 0, 0, 1]]);
    assert_eq!(
        decode_collective("Council", "Voted", &f),
        Ok(Some(Collective::Voted {
            account: Bytes32([1; 32]),
            proposal_hash: ProposalHash([4; 32]),
            voted: true,
            yes: 2,
            no: 16_777_216,
        }))
    );
    let h = [9u8; 32];
    assert_eq!(decode_collective("Council", "Approved", &h), Ok(Some(Collective::Approved { proposal_hash: ProposalHash(h) })));
    assert_eq!(decode_collective("Council", "Disapproved", &h), Ok(Some(Collective::Disapproved { proposal_hash: ProposalHash(h) })));
    assert_eq!(decode_collective("Council", "Executed", &h), Ok(Some(Collective::Executed { proposal_hash: ProposalHash(h) })));
    assert_eq!(
        decode_collective("Council", "MemberExecuted", &bytes(&[&h, &[0]])),
        Ok(Some(Collective::MemberExecuted { proposal_hash: ProposalHash(h) }))
    );
    let f = bytes(&[&h, &[4, 0, 0, 0], &[2, 0, 0, 0]]);
    assert_eq!(
        decode_collective("Council", "Closed", &f),
        Ok(Some(Collective::Closed { proposal_hash: ProposalHash(h), yes: 4, no: 2 }))
    );
}

#[test]
fn unknown_collective_events_are_skipped() {
    assert_eq!(decode_collective("Council", "Other", &[]), Ok(None));
    assert_eq!(decode_collective("Council", "proposed", &[0; 72]), Ok(None));
}

#[test]
fn malformed_collective_fields_are_refused() {
    assert_eq!(decode_collective("Council", "Proposed", &[0; 71]), Err(EventError::MalformedFields));
    assert_eq!(decode_collective("Council", "Approved", &[0; 31]), Err(EventError::MalformedFields));
    assert_eq!(decode_collective("Council", "Closed", &[0; 39]), Err(EventError::MalformedFields));
    let f = bytes(&[&[1; 32], &[4; 32], &[2], &[2, 0, 0, 0], &[0, 0, 0, 1]]);
    assert_eq!(decode_collective("Council", "Voted", &f), Err(EventError::MalformedFields));
    assert_eq!(decode_collective("Council", "Voted", &[0; 72]), Err(EventError::MalformedFields));
}

#[test]
fn session_events_are_read_from_their_fields() {
    assert_eq!(decode_session("Session", "NewSession", &[77, 1, 0, 0]), Ok(Some(Session::NewSession { session_index: 333 })));
    assert_eq!(decode_session("Session", "NewSession", &[77, 1, 0]), Err(EventError::MalformedFields));
    assert_eq!(decode_session("Session", "Other", &[]), Ok(None));
}

#[test]
fn collective_events_of_another_pallet_are_not_found() {
    assert_eq!(decode_collective("TechnicalCommittee", "Approved", &[9; 32]), Err(EventError::NotFound));
    assert_eq!(decode_collective("Democracy", "Proposed", &[0; 72]), Err(EventError::NotFound));
    assert_eq!(decode_collective("Democracy", "Proposed", &[]), Err(EventError::NotFound));
    assert_eq!(decode_collective("Democracy", "Tabled", &[]), Ok(None));
}

#[test]
fn session_events_of_other_names_are_skipped_whatever_the_pallet() {
    assert_eq!(decode_session("Balances", "Transfer", &[]), Ok(None));
}
