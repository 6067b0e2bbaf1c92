//! The race between a cancellation and the write of a receipt.
use fused_runtime::handshake::TurnCommitHandshake;

#[test]
fn cancel_wins_only_before_persistence() {
    let mut h = TurnCommitHandshake::new();
    h.request_cancel();
    assert!(h.is_cancelled());
    assert!(!h.begin_persist());
    assert!(h.is_cancelled());
}

#[test]
fn a_write_that_began_is_waited_for() {
    let mut h = TurnCommitHandshake::new();
    assert!(!h.must_wait_for_outcome());
    assert!(h.begin_persist());
    assert!(h.must_wait_for_outcome());
    h.request_cancel();
    assert!(!h.is_cancelled());
    h.finish_persist();
    assert!(h.ever_committed());
    assert!(h.must_wait_for_outcome());
}

#[test]
fn an_aborted_write_goes_back_to_where_it_was() {
    let mut h = TurnCommitHandshake::new();
    assert!(h.begin_persist());
    h.abort_persist(false);
    assert!(!h.must_wait_for_outcome());
    h.request_cancel();
    assert!(h.is_cancelled());

    let mut billed = TurnCommitHandshake::new();
    assert!(billed.begin_persist());
    billed.abort_persist(true);
    assert!(billed.ever_committed());
    billed.request_cancel();
    assert!(!billed.is_cancelled());
}

#[test]
fn only_one_persist_is_in_flight() {
    let mut h = TurnCommitHandshake::new();
    assert!(h.begin_persist());
    assert!(!h.begin_persist());
    assert!(h.must_wait_for_outcome());
    assert!(!h.ever_committed());
    h.finish_persist();
    assert!(h.begin_persist());
    assert!(!h.begin_persist());
    assert!(h.ever_committed());
    h.abort_persist(false);
    assert!(h.ever_committed());
    h.request_cancel();
    assert!(!h.is_cancelled());
}
