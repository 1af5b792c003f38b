//! How far behind the head a chain is considered safe from reorganisation.

use vstd::prelude::*;

verus! {

/// A chain id: a 256-bit number in four 64-bit words, the least significant
/// first.
#[derive(Clone, Copy, Debug, PartialEq, Eq)]
pub struct ChainId {
    pub words: [u64; 4],
}

impl View for ChainId {
    type V = nat;

    open spec fn view(&self) -> nat {
        (self.words@[0] as nat) + (self.words@[1] as nat) * 0x1_0000_0000_0000_0000 + (
        self.words@[2] as nat) * 0x1_0000_0000_0000_0000 * 0x1_0000_0000_0000_0000 + (
        self.words@[3] as nat) * 0x1_0000_0000_0000_0000 * 0x1_0000_0000_0000_0000
            * 0x1_0000_0000_0000_0000
    }
}

impl ChainId {
    /// The chain id `id`.
    pub fn from_u64(id: u64) -> (r: ChainId)
        ensures
            r@ == id,
    {
        ChainId { words: [id, 0, 0, 0] }
    }
}

pub const MAINNET_SAFE_DISTANCE: u64 = 12;

/// The number of blocks behind the head that are considered open to
/// reorganisation on the chain `chain_id`: 12 on Ethereum mainnet, between 1
/// and 5 on the rollups listed here, and 0 on every other chain.
pub open spec fn safe_distance(chain_id: nat) -> nat {
    if chain_id == 1 {
        12
    } else if chain_id == 10 || chain_id == 8453 {
        5
    } else if chain_id == 42161 {
        3
    } else if chain_id == 324 {
        1
    } else {
        0
    }
}

/// The safe distance from the head of the chain `chain_id`.
pub fn reorg_safe_distance_for_chain(chain_id: &ChainId) -> (distance: u64)
    ensures
        distance == safe_distance(chain_id@),
{
    if chain_id.words[1] != 0 || chain_id.words[2] != 0 || chain_id.words[3] != 0 {
        assert(chain_id@ >= 0x1_0000_0000_0000_0000) by {
            let w1 = chain_id.words@[1] as nat;
            let w2 = chain_id.words@[2] as nat;
            let w3 = chain_id.words@[3] as nat;
            assert(w2 * 0x1_0000_0000_0000_0000 * 0x1_0000_0000_0000_0000 >= w2
                * 0x1_0000_0000_0000_0000) by (nonlinear_arith);
            assert(w3 * 0x1_0000_0000_0000_0000 * 0x1_0000_0000_0000_0000
                * 0x1_0000_0000_0000_0000 >= w3 * 0x1_0000_0000_0000_0000) by (nonlinear_arith);
        }
        return 0;
    }
    let id = chain_id.words[0];
    if id == 1 {
        MAINNET_SAFE_DISTANCE
    } else if id == 10 || id == 8453 {
        5
    } else if id == 42161 {
        3
    } else if id == 324 {
        1
    } else {
        0
    }
}

} // verus!
