//! Actor ids of the builtin actors.

use vstd::prelude::*;

verus! {

/// A 256-bit actor id.
#[derive(Clone, Copy, Debug)]
pub struct ActorId(pub [u8; 32]);

/// Seed for generating builtin actor ids.
pub const SEED: [u8; 8] = [98, 117, 105, 108, 116, 47, 105, 110];

/// Index of the BLS12-381 builtin actor.
pub const BLS12_381_ID: u64 = 1;

/// Bytes of the actor id of the BLS12-381 builtin actor.
pub const BLS12_381: [u8; 32] = [
    107, 110, 41, 44, 56, 41, 69, 232, 11, 245, 26, 242, 186, 127, 233, 244, 88, 220, 255, 129,
    174, 96, 117, 196, 111, 144, 149, 225, 187, 236, 220, 55,
];

/// Index of the Ethereum bridge builtin actor.
pub const ETH_BRIDGE_ID: u64 = 2;

/// Bytes of the actor id of the Ethereum bridge builtin actor.
pub const ETH_BRIDGE: [u8; 32] = [
    119, 246, 94, 241, 144, 225, 27, 254, 203, 143, 200, 151, 15, 211, 116, 158, 148, 190, 214,
    106, 35, 236, 47, 122, 54, 35, 231, 133, 208, 129, 103, 97,
];

/// Index of the staking builtin actor.
pub const STAKING_ID: u64 = 3;

/// Bytes of the actor id of the staking builtin actor.
pub const STAKING: [u8; 32] = [
    242, 129, 108, 237, 11, 21, 116, 149, 149, 57, 45, 58, 24, 181, 162, 54, 61, 111, 239, 229,
    179, 182, 21, 55, 57, 242, 24, 21, 27, 122, 205, 191,
];

/// Resolves the actor id of a builtin actor from its index. Only the three
/// known indices are supported.
pub fn to_actor_id(idx: u64) -> (r: ActorId)
    requires
        idx == BLS12_381_ID || idx == ETH_BRIDGE_ID || idx == STAKING_ID,
    ensures
        idx == BLS12_381_ID ==> r.0 == BLS12_381,
        idx == ETH_BRIDGE_ID ==> r.0 == ETH_BRIDGE,
        idx == STAKING_ID ==> r.0 == STAKING,
{
    if idx == BLS12_381_ID {
        ActorId(BLS12_381)
    } else if idx == ETH_BRIDGE_ID {
        ActorId(ETH_BRIDGE)
    } else {
        ActorId(STAKING)
    }
}

} // verus!
