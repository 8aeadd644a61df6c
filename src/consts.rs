use vstd::prelude::*;

verus! {

/// Number of leading zero bytes a block hash needs.
pub const DIFFICULTY: usize = 2;

/// Amount granted to the identity that bootstraps the ledger.
pub const INITIAL_COIN_AMOUNT: u32 = 100;

/// Amount granted to a miner by the last transaction of each block.
pub const MINING_REWARD: u32 = 1;

/// Size in bits of generated wallet keys.
pub const KEY_PAIR_LENGTH: usize = 2048;

/// Capacity of the outgoing message queue.
pub const BUFFER_SIZE: usize = 4096;

} // verus!
