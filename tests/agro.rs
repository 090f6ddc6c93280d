use hypercore_sequencer::{
    AggregatedCommitments, AggregatedQueue, Aggregator, Address, CodeHashCommitment, SeqHash,
    Signature, H256,
};
use sha3::Digest;

#[derive(Clone, Copy, Debug)]
pub struct MyComm([u8; 2]);

fn keccak(data: &[u8]) -> H256 {
    H256(sha3::Keccak256::digest(data).into())
}

impl SeqHash for MyComm {
    fn spec_hash(&self) -> H256 {
        keccak(&self.0[..])
    }

    fn hash(&self) -> H256 {
        keccak(&self.0[..])
    }
}

fn signer(id: u8) -> Address {
    let mut array = [0; 20];
    array[0] = id;
    Address(array)
}

fn signature(id: u8) -> Signature {
    let mut array = [0; 65];
    array[0] = id;
    Signature(array)
}

fn gen_commitment(signature_id: u8, commitments: Vec<(u8, u8)>) -> AggregatedCommitments<MyComm> {
    let commitments = commitments
        .into_iter()
        .map(|v| MyComm([v.0, v.1]))
        .collect();

    AggregatedCommitments {
        commitments,
        signature: signature(signature_id),
    }
}

#[test]
fn simple() {
    // aggregator with threshold 1
    let mut aggregator = Aggregator::new(1);

    aggregator.push(signer(1), gen_commitment(0, vec![(1, 1)]));

    let root = aggregator
        .find_root()
        .expect("Failed to generate root commitment");

    assert_eq!(root.signatures.len(), 1);
    assert_eq!(root.commitments.len(), 1);

    // aggregator with threshold 1
    let mut aggregator = Aggregator::new(1);

    aggregator.push(signer(1), gen_commitment(0, vec![(1, 1)]));
    aggregator.push(signer(1), gen_commitment(1, vec![(1, 1), (2, 2)]));

    let root = aggregator
        .find_root()
        .expect("Failed to generate root commitment");

    assert_eq!(root.signatures.len(), 1);

    // should be latest commitment
    assert_eq!(root.commitments.len(), 2);
}

#[test]
fn more_threshold() {
    // aggregator with threshold 2
    let mut aggregator = Aggregator::new(2);

    aggregator.push(signer(1), gen_commitment(0, vec![(1, 1)]));
    aggregator.push(signer(2), gen_commitment(0, vec![(1, 1)]));
    aggregator.push(signer(2), gen_commitment(0, vec![(1, 1), (2, 2)]));

    let root = aggregator
        .find_root()
        .expect("Failed to generate root commitment");

    assert_eq!(root.signatures.len(), 2);
    assert_eq!(root.commitments.len(), 1); // only (1, 1) is committed by both aggregators

    // aggregator with threshold 2
    let mut aggregator = Aggregator::new(2);

    aggregator.push(signer(1), gen_commitment(0, vec![(1, 1)]));
    aggregator.push(signer(2), gen_commitment(0, vec![(1, 1)]));
    aggregator.push(signer(2), gen_commitment(0, vec![(1, 1), (2, 2)]));
    aggregator.push(signer(1), gen_commitment(0, vec![(1, 1), (2, 2)]));

    let root = aggregator
        .find_root()
        .expect("Failed to generate root commitment");

    assert_eq!(root.signatures.len(), 2);
    assert_eq!(root.commitments.len(), 2); // both (1, 1) and (2, 2) is committed by both aggregators
}

fn pairs(c: &[MyComm]) -> Vec<(u8, u8)> {
    c.iter().map(|m| (m.0[0], m.0[1])).collect()
}

#[test]
fn hashing_twice_gives_same_digest() {
    let a = gen_commitment(0, vec![(1, 2), (3, 4)]);
    let b = gen_commitment(9, vec![(1, 2), (3, 4)]);
    assert_eq!(a.hash(), a.hash());
    assert_eq!(a.hash(), b.hash());
    assert_ne!(a.hash(), gen_commitment(0, vec![(1, 2)]).hash());
}

#[test]
fn hash_is_keccak_of_concatenated_digests() {
    let batch = gen_commitment(0, vec![(1, 2), (3, 4)]);
    let mut buf = Vec::new();
    buf.extend_from_slice(&keccak(&[1, 2]).0);
    buf.extend_from_slice(&keccak(&[3, 4]).0);
    assert_eq!(batch.hash(), keccak(&buf));
}

#[test]
fn empty_sequence_hashes_to_digest_of_empty_buffer() {
    let empty: Vec<CodeHashCommitment> = Vec::new();
    let expected = [
        0xc5, 0xd2, 0x46, 0x01, 0x86, 0xf7, 0x23, 0x3c, 0x92, 0x7e, 0x7d, 0xb2, 0xdc, 0xc7, 0x03,
        0xc0, 0xe5, 0x00, 0xb6, 0x53, 0xca, 0x82, 0x27, 0x3b, 0x7b, 0xfa, 0xd8, 0x04, 0x5d, 0x85,
        0xa4, 0x70,
    ];
    assert_eq!(empty.hash(), H256(expected));
}

#[test]
fn code_hash_commitment_hashes_to_itself() {
    let c = CodeHashCommitment(H256([7; 32]));
    assert_eq!(c.hash(), H256([7; 32]));
    let single = vec![c];
    assert_eq!(single.hash(), keccak(&[7; 32]));
}

#[test]
fn hash_is_order_sensitive() {
    let xy = gen_commitment(0, vec![(1, 1), (2, 2)]);
    let yx = gen_commitment(0, vec![(2, 2), (1, 1)]);
    assert_ne!(xy.hash(), yx.hash());
}

#[test]
fn chain_walks_back_to_first_push() {
    let batches: Vec<Vec<(u8, u8)>> = (1..=5u8).map(|i| vec![(i, i)]).collect();
    let hashes: Vec<H256> = batches
        .iter()
        .map(|b| gen_commitment(0, b.clone()).hash())
        .collect();
    let mut queue = AggregatedQueue::new(gen_commitment(1, batches[0].clone()));
    for (i, b) in batches.iter().enumerate().skip(1) {
        queue.push(gen_commitment(i as u8 + 1, b.clone()));
    }
    let mut cur = hashes[4];
    for _ in 0..4 {
        cur = queue.previous(cur).expect("link before");
    }
    assert_eq!(cur, hashes[0]);
    assert_eq!(queue.previous(cur), None);
    assert_eq!(queue.get_signature(hashes[2]), Some(signature(3)));
    assert_eq!(queue.get_signature(keccak(&[0])), None);
    assert_eq!(queue.previous(keccak(&[0])), None);
}

#[test]
fn chain_resubmission_overwrites_back_link() {
    let mut queue = AggregatedQueue::new(gen_commitment(1, vec![(1, 1)]));
    queue.push(gen_commitment(2, vec![(2, 2)]));
    queue.push(gen_commitment(3, vec![(1, 1)]));
    let h1 = gen_commitment(0, vec![(1, 1)]).hash();
    let h2 = gen_commitment(0, vec![(2, 2)]).hash();
    assert_eq!(queue.previous(h1), Some(h2));
    assert_eq!(queue.get_signature(h1), Some(signature(3)));
}

#[test]
fn quorum_threshold_one_returns_latest() {
    let mut aggregator = Aggregator::new(1);
    aggregator.push(signer(1), gen_commitment(1, vec![(1, 1)]));
    aggregator.push(signer(1), gen_commitment(2, vec![(1, 1), (2, 2)]));
    let root = aggregator.find_root().expect("quorum");
    assert_eq!(pairs(&root.commitments), vec![(1, 1), (2, 2)]);
    assert_eq!(root.signatures, vec![signature(2)]);
    assert_eq!(root.sources, vec![signer(1)]);
}

#[test]
fn quorum_threshold_two_finds_common_ancestor() {
    let mut aggregator = Aggregator::new(2);
    aggregator.push(signer(1), gen_commitment(1, vec![(1, 1)]));
    aggregator.push(signer(2), gen_commitment(2, vec![(1, 1)]));
    aggregator.push(signer(2), gen_commitment(3, vec![(1, 1), (2, 2)]));
    assert_eq!(aggregator.len(), 2);
    let root = aggregator.find_root().expect("quorum");
    assert_eq!(pairs(&root.commitments), vec![(1, 1)]);
    assert_eq!(root.sources, vec![signer(1), signer(2)]);
    assert_eq!(root.signatures, vec![signature(1), signature(2)]);
}

#[test]
fn quorum_grows_when_both_sign_superset() {
    let mut aggregator = Aggregator::new(2);
    aggregator.push(signer(1), gen_commitment(1, vec![(1, 1)]));
    aggregator.push(signer(2), gen_commitment(2, vec![(1, 1)]));
    aggregator.push(signer(2), gen_commitment(3, vec![(1, 1), (2, 2)]));
    aggregator.push(signer(1), gen_commitment(4, vec![(1, 1), (2, 2)]));
    let root = aggregator.find_root().expect("quorum");
    assert_eq!(pairs(&root.commitments), vec![(1, 1), (2, 2)]);
    assert_eq!(root.sources, vec![signer(1), signer(2)]);
    assert_eq!(root.signatures, vec![signature(4), signature(3)]);
}

#[test]
fn empty_aggregator_has_no_quorum() {
    let aggregator: Aggregator<MyComm> = Aggregator::new(1);
    assert_eq!(aggregator.len(), 0);
    assert!(aggregator.find_root().is_none());
}

#[test]
fn no_quorum_when_threshold_unreached() {
    let mut aggregator = Aggregator::new(3);
    aggregator.push(signer(1), gen_commitment(1, vec![(1, 1)]));
    aggregator.push(signer(2), gen_commitment(2, vec![(1, 1)]));
    assert!(aggregator.find_root().is_none());
}

#[test]
fn threshold_zero_is_always_met() {
    let mut aggregator = Aggregator::new(0);
    aggregator.push(signer(1), gen_commitment(1, vec![(5, 5)]));
    let root = aggregator.find_root().expect("quorum");
    assert_eq!(pairs(&root.commitments), vec![(5, 5)]);
}

#[test]
fn same_origin_repeats_count_once() {
    let mut aggregator = Aggregator::new(2);
    aggregator.push(signer(1), gen_commitment(1, vec![(1, 1)]));
    aggregator.push(signer(1), gen_commitment(1, vec![(1, 1)]));
    assert_eq!(aggregator.len(), 1);
    assert!(aggregator.find_root().is_none());
}

#[test]
fn aggregate_commitments_signs_content_hash() {
    let commitments = vec![MyComm([1, 1]), MyComm([2, 2])];
    let expected = commitments.hash();
    let batch = AggregatedCommitments::aggregate_commitments(commitments, |h: H256| {
        if h == expected {
            Ok::<Signature, String>(signature(42))
        } else {
            Err("wrong digest".to_string())
        }
    })
    .expect("signed");
    assert_eq!(batch.signature, signature(42));
    assert_eq!(pairs(&batch.commitments), vec![(1, 1), (2, 2)]);
}

#[test]
fn aggregate_commitments_propagates_signing_failure() {
    let r = AggregatedCommitments::aggregate_commitments(vec![MyComm([1, 1])], |_h: H256| {
        Err::<Signature, String>("no key".to_string())
    });
    assert_eq!(r.err(), Some("no key".to_string()));
}
