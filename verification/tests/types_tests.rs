//! Data model tests: key ordering, structural verification of ordered
//! blocks, and the aggregated-signature quorum rule.

use consensus_observer::types::{
    exec_key_le, exec_key_lt, BlockInfo, EpochState, LedgerInfo, OrderedBlock,
};

fn block(epoch: u64, round: u64, id: u64, parent_id: u64) -> BlockInfo {
    BlockInfo { epoch, round, id, parent_id, timestamp_usecs: 0 }
}

#[test]
fn key_order_is_lexicographic() {
    assert!(exec_key_lt(5, 10, 5, 11));
    assert!(exec_key_lt(5, 10, 6, 0));
    assert!(!exec_key_lt(5, 10, 5, 10));
    assert!(!exec_key_lt(6, 0, 5, 99));
    assert!(exec_key_le(5, 10, 5, 10));
    assert!(exec_key_le(5, 10, 6, 0));
    assert!(!exec_key_le(6, 0, 5, 99));
}

#[test]
fn structural_verification_accepts_a_chain() {
    let b1 = block(5, 11, 101, 100);
    let b2 = block(5, 12, 102, 101);
    let proof = LedgerInfo::new(b2, vec![1, 2, 3]);
    let ob = OrderedBlock::new(vec![b1, b2], proof);
    assert!(ob.verify_ordered_blocks());
}

#[test]
fn structural_verification_rejects_empty_runs() {
    let proof = LedgerInfo::new(block(5, 11, 101, 100), vec![1]);
    let ob = OrderedBlock::new(vec![], proof);
    assert!(!ob.verify_ordered_blocks());
}

#[test]
fn structural_verification_rejects_broken_parent_links() {
    let b1 = block(5, 11, 101, 100);
    let b2 = block(5, 12, 102, 999);
    let proof = LedgerInfo::new(b2, vec![1]);
    let ob = OrderedBlock::new(vec![b1, b2], proof);
    assert!(!ob.verify_ordered_blocks());
}

#[test]
fn structural_verification_rejects_non_increasing_rounds() {
    let b1 = block(5, 11, 101, 100);
    let b2 = block(5, 11, 102, 101);
    let proof = LedgerInfo::new(b2, vec![1]);
    let ob = OrderedBlock::new(vec![b1, b2], proof);
    assert!(!ob.verify_ordered_blocks());
}

#[test]
fn structural_verification_rejects_a_mismatched_proof() {
    let b1 = block(5, 11, 101, 100);
    let proof = LedgerInfo::new(block(5, 12, 102, 101), vec![1]);
    let ob = OrderedBlock::new(vec![b1], proof);
    assert!(!ob.verify_ordered_blocks());
}

#[test]
fn quorum_needs_a_strict_two_thirds_majority() {
    // Four validators: 3 * signers > 2 * 4 needs at least three signers.
    let es = EpochState::new(5, vec![1, 2, 3, 4]);
    assert!(!es.verify_signature(&vec![]));
    assert!(!es.verify_signature(&vec![1, 2]));
    assert!(es.verify_signature(&vec![1, 2, 3]));
    assert!(es.verify_signature(&vec![1, 2, 3, 4]));
    // Three validators: 3 * signers > 6 needs at least three signers.
    let es3 = EpochState::new(5, vec![1, 2, 3]);
    assert!(!es3.verify_signature(&vec![1, 2]));
    assert!(es3.verify_signature(&vec![1, 2, 3]));
}

#[test]
fn signatures_reject_unknown_or_repeated_signers() {
    let es = EpochState::new(5, vec![1, 2, 3, 4]);
    // An outsider among the signers
    assert!(!es.verify_signature(&vec![1, 2, 5]));
    // Signers out of order (a double signature cannot hide)
    assert!(!es.verify_signature(&vec![3, 2, 1]));
    assert!(!es.verify_signature(&vec![1, 1, 2]));
}

#[test]
fn ledger_info_duplicates_are_deep() {
    let li = LedgerInfo::new(block(5, 10, 100, 99), vec![1, 2, 3]);
    let copy = li.duplicate();
    assert_eq!(copy.commit_info, li.commit_info);
    assert_eq!(copy.signers, vec![1, 2, 3]);
    assert_eq!(li.epoch(), 5);
    assert_eq!(li.round(), 10);
}
