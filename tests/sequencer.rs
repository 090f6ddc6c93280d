use hypercore_sequencer::{
    AggregatedCommitments, Address, CodeHashCommitment, Event, Sequencer, Signature, H256,
};

fn origin(id: u8) -> Address {
    let mut array = [0; 20];
    array[0] = id;
    Address(array)
}

fn signature(id: u8) -> Signature {
    let mut array = [0; 65];
    array[0] = id;
    Signature(array)
}

fn batch(sig: u8, codes: &[u8]) -> AggregatedCommitments<CodeHashCommitment> {
    AggregatedCommitments {
        commitments: codes.iter().map(|c| CodeHashCommitment(H256([*c; 32]))).collect(),
        signature: signature(sig),
    }
}

#[test]
fn block_boundary_discards_pending_pushes() {
    let mut sequencer = Sequencer::new(2);
    sequencer.receive_codes_commitment(origin(1), batch(1, &[1]));
    assert_eq!(sequencer.process_observer_event(&Event::NewHead { hash: H256([9; 32]) }), 1);
    sequencer.receive_codes_commitment(origin(2), batch(2, &[1]));
    assert!(sequencer.process_block_timeout().is_none());
}

#[test]
fn new_code_event_keeps_window() {
    let mut sequencer = Sequencer::new(1);
    sequencer.receive_codes_commitment(origin(1), batch(1, &[3]));
    assert_eq!(sequencer.process_observer_event(&Event::NewCode { hash: H256([3; 32]) }), 0);
    assert!(sequencer.process_block_timeout().is_some());
}

#[test]
fn timeout_settles_once_with_quorum_signatures() {
    let mut sequencer = Sequencer::new(2);
    sequencer.receive_codes_commitment(origin(1), batch(1, &[4, 5]));
    sequencer.receive_codes_commitment(origin(2), batch(2, &[4, 5]));
    let winner = sequencer.process_block_timeout().expect("quorum");
    assert_eq!(winner.signatures.len(), 2);
    assert_eq!(winner.sources, vec![origin(1), origin(2)]);
    let (codes, signatures) = Sequencer::settlement_request(winner);
    assert_eq!(codes, vec![H256([4; 32]), H256([5; 32])]);
    assert_eq!(signatures, vec![signature(1), signature(2)]);
    // the window was replaced: a second timeout has nothing to settle
    assert!(sequencer.process_block_timeout().is_none());
}

#[test]
fn timeout_without_quorum_drops_window() {
    let mut sequencer = Sequencer::new(2);
    sequencer.receive_codes_commitment(origin(1), batch(1, &[6]));
    assert!(sequencer.process_block_timeout().is_none());
    sequencer.receive_codes_commitment(origin(2), batch(2, &[6]));
    assert!(sequencer.process_block_timeout().is_none());
}

#[test]
fn timeout_on_empty_window_settles_nothing() {
    let mut sequencer = Sequencer::new(1);
    assert!(sequencer.process_block_timeout().is_none());
}
