//! Component tests for the payload store and the pending block buffer.

use consensus_observer::pending_blocks::PendingBlocks;
use consensus_observer::payload_store::PayloadStore;
use consensus_observer::types::{BlockInfo, EpochState, LedgerInfo, OrderedBlock};

fn block(epoch: u64, round: u64, id: u64, parent_id: u64) -> BlockInfo {
    BlockInfo { epoch, round, id, parent_id, timestamp_usecs: 0 }
}

fn ordered(epoch: u64, round: u64, id: u64, parent_id: u64, signers: Vec<u64>) -> OrderedBlock {
    let b = block(epoch, round, id, parent_id);
    OrderedBlock::new(vec![b], LedgerInfo::new(b, signers))
}

#[test]
fn payload_store_inserts_and_finds() {
    let mut store = PayloadStore::new();
    assert_eq!(store.num_payloads(), 0);
    store.insert_block_payload(block(5, 11, 101, 100), vec![7, 8], None);
    store.insert_block_payload(block(5, 12, 102, 101), vec![9], Some(1));
    assert_eq!(store.num_payloads(), 2);
    assert!(store.payload_exists(101));
    assert!(store.payload_exists(102));
    assert!(!store.payload_exists(103));
    assert!(store.all_payloads_exist(&vec![block(5, 11, 101, 100), block(5, 12, 102, 101)]));
    assert!(!store.all_payloads_exist(&vec![block(5, 11, 101, 100), block(5, 13, 103, 102)]));
}

#[test]
fn payload_store_overwrites_on_the_same_id() {
    let mut store = PayloadStore::new();
    store.insert_block_payload(block(5, 11, 101, 100), vec![7], None);
    store.insert_block_payload(block(5, 11, 101, 100), vec![8, 9], None);
    assert_eq!(store.num_payloads(), 1);
    assert!(store.payload_exists(101));
}

#[test]
fn payload_store_removes_committed_blocks() {
    let mut store = PayloadStore::new();
    store.insert_block_payload(block(5, 11, 101, 100), vec![7], None);
    store.insert_block_payload(block(5, 12, 102, 101), vec![8], None);
    store.remove_blocks(&vec![block(5, 11, 101, 100)]);
    assert!(!store.payload_exists(101));
    assert!(store.payload_exists(102));
    assert_eq!(store.num_payloads(), 1);
}

#[test]
fn pending_buffer_keeps_key_order() {
    let mut buffer = PendingBlocks::new(10);
    buffer.insert_ordered_block(ordered(5, 11, 101, 100, vec![1, 2, 3]), true);
    buffer.insert_ordered_block(ordered(5, 13, 103, 102, vec![1, 2, 3]), true);
    buffer.insert_ordered_block(ordered(5, 12, 102, 101, vec![1, 2, 3]), false);
    assert_eq!(buffer.num_entries(), 3);
    assert_eq!(buffer.entry_at(0).round(), 11);
    assert_eq!(buffer.entry_at(1).round(), 12);
    assert_eq!(buffer.entry_at(2).round(), 13);
    let last = buffer.get_last_pending_block().unwrap();
    assert_eq!(last.round, 13);
}

#[test]
fn pending_buffer_insert_upgrades_only_to_verified() {
    let mut buffer = PendingBlocks::new(10);
    buffer.insert_ordered_block(ordered(5, 11, 101, 100, vec![1]), false);
    assert!(!buffer.entry_at(0).verified);
    // A verified copy replaces the unverified entry
    buffer.insert_ordered_block(ordered(5, 11, 101, 100, vec![1]), true);
    assert!(buffer.entry_at(0).verified);
    // A later unverified copy changes nothing
    buffer.insert_ordered_block(ordered(5, 11, 101, 100, vec![1]), false);
    assert!(buffer.entry_at(0).verified);
    assert_eq!(buffer.num_entries(), 1);
}

#[test]
fn pending_buffer_drops_beyond_its_depth_bound() {
    let mut buffer = PendingBlocks::new(2);
    buffer.insert_ordered_block(ordered(5, 11, 101, 100, vec![1]), false);
    buffer.insert_ordered_block(ordered(5, 12, 102, 101, vec![1]), false);
    buffer.insert_ordered_block(ordered(5, 13, 103, 102, vec![1]), false);
    assert_eq!(buffer.num_entries(), 2);
    assert_eq!(buffer.get_last_pending_block().unwrap().round, 12);
}

#[test]
fn verified_lookup_needs_the_verified_flag() {
    let mut buffer = PendingBlocks::new(10);
    buffer.insert_ordered_block(ordered(5, 11, 101, 100, vec![1]), false);
    buffer.insert_ordered_block(ordered(5, 12, 102, 101, vec![1]), true);
    assert!(buffer.get_verified_pending_block(5, 11).is_none());
    assert!(buffer.get_verified_pending_block(5, 13).is_none());
    let entry = buffer.get_verified_pending_block(5, 12).expect("verified entry");
    assert_eq!(entry.round(), 12);
}

#[test]
fn pending_buffer_attaches_decisions_only_to_present_keys() {
    let mut buffer = PendingBlocks::new(10);
    buffer.insert_ordered_block(ordered(5, 11, 101, 100, vec![1]), true);
    buffer.update_commit_decision(&LedgerInfo::new(block(5, 11, 101, 100), vec![1, 2, 3]));
    assert!(buffer.entry_at(0).commit_decision.is_some());
    // No entry at (5, 12): a no-op
    buffer.update_commit_decision(&LedgerInfo::new(block(5, 12, 102, 101), vec![1, 2, 3]));
    assert_eq!(buffer.num_entries(), 1);
}

#[test]
fn pending_buffer_removes_a_prefix_on_commit() {
    let mut buffer = PendingBlocks::new(10);
    buffer.insert_ordered_block(ordered(5, 11, 101, 100, vec![1]), true);
    buffer.insert_ordered_block(ordered(5, 12, 102, 101, vec![1]), true);
    buffer.insert_ordered_block(ordered(6, 1, 103, 102, vec![1]), false);
    buffer.remove_blocks_for_commit(5, 12);
    assert_eq!(buffer.num_entries(), 1);
    assert_eq!(buffer.entry_at(0).epoch(), 6);
}

#[test]
fn pending_buffer_reverifies_on_epoch_rollover() {
    let mut buffer = PendingBlocks::new(10);
    // Verifiable under epoch 6's validators
    buffer.insert_ordered_block(ordered(6, 1, 103, 102, vec![1, 2, 3]), false);
    // Signature too thin under epoch 6: discarded
    buffer.insert_ordered_block(ordered(6, 2, 104, 103, vec![1]), false);
    // Future epoch: kept untouched
    buffer.insert_ordered_block(ordered(7, 1, 105, 104, vec![1]), false);
    buffer.verify_pending_blocks(&EpochState::new(6, vec![1, 2, 3, 4]));
    assert_eq!(buffer.num_entries(), 2);
    assert!(buffer.entry_at(0).verified);
    assert_eq!(buffer.entry_at(0).round(), 1);
    assert!(!buffer.entry_at(1).verified);
    assert_eq!(buffer.entry_at(1).epoch(), 7);
}

#[test]
fn pending_buffer_drains_verified_entries_in_order() {
    let mut buffer = PendingBlocks::new(10);
    buffer.insert_ordered_block(ordered(5, 11, 101, 100, vec![1, 2, 3]), true);
    buffer.insert_ordered_block(ordered(5, 12, 102, 101, vec![1, 2, 3]), true);
    buffer.insert_ordered_block(ordered(6, 1, 103, 102, vec![1]), false);
    let drained = buffer.get_all_verified_pending_blocks();
    assert_eq!(drained.len(), 2);
    assert_eq!(drained[0].round(), 11);
    assert_eq!(drained[1].round(), 12);
    // The drain reads without removing
    assert_eq!(buffer.num_entries(), 3);
}
