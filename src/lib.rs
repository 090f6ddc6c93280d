//! Commitment aggregation and threshold agreement for the hypercore sequencer.
//!
//! Independent origins submit signed batches of commitments. Each origin's
//! batches form a backward-linked chain keyed by content hash, and the
//! aggregator searches those chains for the nearest commitment set that a
//! threshold of distinct origins has signed.

mod agro;
mod builtin;
mod keyed;
mod primitives;
mod sequencer;
mod syscalls;

pub use agro::{
    content_hash, digest_bytes, lemma_chain_integrity, lemma_content_hash_deterministic,
    lemma_digest_bytes_len, lemma_hash_input_injective, lemma_hash_input_order_sensitive,
    lemma_one_signature_per_source, lemma_quorum_is_attested, walk_back, AggregatedCommitments,
    AggregatedQueue, Aggregator, CodeHashCommitment, LinkedAggregation, MultisignedCommitments,
    SeqHash,
};
pub use builtin::{
    to_actor_id, ActorId, BLS12_381, BLS12_381_ID, ETH_BRIDGE, ETH_BRIDGE_ID, SEED, STAKING,
    STAKING_ID,
};
pub use primitives::{Address, Signature, H256};
pub use sequencer::{lemma_boundary_discards_window, Event, Sequencer};
pub use syscalls::{
    buffer_lengths_follow, error_pointer_last, lemma_signature_shape, ParamType, PtrInfo, PtrType,
    SysCallName, SysCallSignature, ValueType, SYSCALL_COUNT,
};
