use hybrid_indexer::batch::{batch_flag, start_block, BatchState, BatchStep};
use hybrid_indexer::bytes::u32_to_be_bytes;

#[test]
fn start_block_prefers_the_block_asked_for() {
    assert_eq!(start_block(Some(5), Some(&[1]), Some(&[0, 0, 0, 9]), Some(&[0, 0, 0, 8]), 1), 5);
}

#[test]
fn start_block_resumes_from_the_head_once_batch_indexing_is_done() {
    assert_eq!(start_block(None, Some(&[1]), Some(&[0, 0, 1, 0]), Some(&[0, 0, 0, 8]), 1), 256);
    assert_eq!(start_block(None, Some(&[1]), None, Some(&[0, 0, 0, 8]), 1), 1);
}

#[test]
fn start_block_resumes_from_the_last_batch_block_otherwise() {
    assert_eq!(start_block(None, Some(&[0]), Some(&[0, 0, 0, 9]), Some(&[0, 0, 0, 8]), 1), 8);
    assert_eq!(start_block(None, None, Some(&[0, 0, 0, 9]), Some(&[0, 1, 0, 0, 7]), 1), 65_536);
    assert_eq!(start_block(None, None, None, None, 1234), 1234);
    assert_eq!(start_block(None, Some(&[2]), Some(&[0, 0, 0, 9]), None, 3), 3);
}

#[test]
fn what_is_recorded_is_what_indexing_resumes_from() {
    let head = u32_to_be_bytes(7_000_123);
    let batch = u32_to_be_bytes(6_999_900);
    assert_eq!(start_block(None, Some(&batch_flag(true)), Some(&head), Some(&batch), 0), 7_000_123);
    assert_eq!(start_block(None, Some(&batch_flag(false)), Some(&head), Some(&batch), 0), 6_999_900);
    assert_eq!(batch_flag(true), [1]);
    assert_eq!(batch_flag(false), [0]);
}

#[test]
fn batch_begins_with_a_queue_of_blocks() {
    let (s, blocks) = BatchState::begin(100, 3);
    assert_eq!(blocks, vec![100, 101, 102]);
    assert_eq!(s, BatchState { queue_depth: 3, next_block: 103, last_batch_block: 100, in_flight: 3 });
    let (s, blocks) = BatchState::begin(100, 0);
    assert!(blocks.is_empty());
    assert_eq!(s.in_flight, 0);
}

#[test]
fn indexed_blocks_are_replaced_in_turn() {
    let (mut s, _) = BatchState::begin(97, 3);
    let step = s.on_block_done(true);
    assert_eq!(step, BatchStep { index_block: Some(100), record_last_batch_block: None, complete: false });
    assert_eq!(s.next_block, 101);
    assert_eq!(s.last_batch_block, 97);
    let step = s.on_block_done(true);
    assert_eq!(step, BatchStep { index_block: Some(101), record_last_batch_block: None, complete: false });
    assert_eq!(s.last_batch_block, 98);
    s.on_block_done(true);
    assert_eq!(s.last_batch_block, 99);
    let step = s.on_block_done(true);
    assert_eq!(step, BatchStep { index_block: Some(103), record_last_batch_block: Some(100), complete: false });
    assert_eq!(s.last_batch_block, 100);
    assert_eq!(s.in_flight, 3);
    assert_eq!(s.next_block, 104);
}

#[test]
fn batch_completes_when_the_last_block_fails() {
    let (mut s, _) = BatchState::begin(10, 2);
    let step = s.on_block_done(false);
    assert_eq!(step, BatchStep { index_block: None, record_last_batch_block: None, complete: false });
    assert_eq!(s.in_flight, 1);
    let step = s.on_block_done(true);
    assert_eq!(step.index_block, Some(12));
    assert!(!step.complete);
    let step = s.on_block_done(false);
    assert!(step.complete);
    assert_eq!(s.in_flight, 0);
    assert_eq!(s.next_block, 13);
}

#[test]
fn a_whole_run_hands_out_blocks_in_turn_and_records_progress_upwards() {
    let start = 95;
    let (mut s, first) = BatchState::begin(start, 4);
    let mut handed_out = first.clone();
    let mut recorded = Vec::new();
    let mut completions = 0;
    let outcomes = [true, true, false, true, true, true, true, true, false, true, false, true, false];
    for (i, ok) in outcomes.iter().enumerate() {
        let step = s.on_block_done(*ok);
        if let Some(b) = step.index_block {
            handed_out.push(b);
        }
        if let Some(b) = step.record_last_batch_block {
            recorded.push(b);
        }
        if step.complete {
            completions += 1;
            assert_eq!(i, outcomes.len() - 1);
        }
        assert!(s.in_flight <= 4);
    }
    let expected: Vec<u32> = (start..start + 4 + 9).collect();
    assert_eq!(handed_out, expected);
    assert_eq!(recorded, vec![100]);
    assert_eq!(completions, 1);
    assert_eq!(s.in_flight, 0);
}
