use blake2::{digest::typenum::U32, Blake2b, Digest};
use hypercore_sequencer::{
    to_actor_id, BLS12_381, BLS12_381_ID, ETH_BRIDGE, ETH_BRIDGE_ID, SEED, STAKING, STAKING_ID,
};
use parity_scale_codec::Encode;

/// Blake2 hash
fn hash(data: &[u8]) -> [u8; 32] {
    let mut ctx = Blake2b::<U32>::new();
    ctx.update(data);
    ctx.finalize().into()
}

#[test]
fn actor_ids_matched() {
    assert_eq!(hash((SEED, BLS12_381_ID).encode().as_slice()), BLS12_381);
    assert_eq!(hash((SEED, ETH_BRIDGE_ID).encode().as_slice()), ETH_BRIDGE);
    assert_eq!(hash((SEED, STAKING_ID).encode().as_slice()), STAKING);
}

#[test]
fn seed_spells_built_in() {
    assert_eq!(&SEED, b"built/in");
}

#[test]
fn to_actor_id_resolves_each_builtin() {
    assert_eq!(to_actor_id(1).0, BLS12_381);
    assert_eq!(to_actor_id(2).0, ETH_BRIDGE);
    assert_eq!(to_actor_id(3).0, STAKING);
}
