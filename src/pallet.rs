//! Types of the emission engine: its configuration, its persisted state, the
//! events it reports and the callers it recognises.
use vstd::prelude::*;

use crate::math::PRECISION;

verus! {

/// π × 10^9.
pub const PI: u128 = 3_141_592_653;

/// e × 10^9.
pub const E: u128 = 2_718_281_828;

/// φ × 10^9.
pub const PHI: u128 = 1_618_033_988;

/// Maximum supply in smallest units: 13,817,422 whole tokens of 10^18 units.
pub const MAX_SUPPLY: u128 = 13_817_422_000_000_000_000_000_000;

/// Maximum supply in whole tokens.
pub const MAX_SUPPLY_UNITS: u128 = 13_817_422;

/// One whole token in smallest units (10^18).
pub const SANC: u128 = 1_000_000_000_000_000_000;

/// Blocks in a year at six seconds per block: turns an annual rate into a
/// per-block one.
pub const BLOCKS_PER_YEAR: u128 = 5_259_600;

/// Denominator of a parts-per-billion fraction.
pub const BILLION: u32 = 1_000_000_000;

/// Identifier of an account on the host ledger.
pub type AccountId = [u8; 32];

/// Configuration of the engine, fixed for its lifetime.
pub struct Config {
    /// Account that receives the treasury's share of each minted reward.
    pub treasury_account: AccountId,
    /// Treasury's share of each minted reward, in parts per billion
    /// (values above one billion count as the whole reward).
    pub treasury_cut: u32,
    /// Length of an era in blocks.
    pub blocks_per_era: u32,
    /// Growth rate `k` of the supply curve: `k · |t - t0| / PRECISION` is the
    /// curve's exponent scaled by `PRECISION`.
    pub growth_rate_k: u128,
    /// Effective height `t0` at which half of the supply is emitted.
    pub inflection_point: u32,
    /// Sensitivity `α` of time dilation to excess activity, scaled by `PRECISION`.
    pub time_dilation_alpha: u128,
    /// Activity score above which effective time runs faster than blocks.
    pub baseline_activity: u128,
}

impl Default for Config {
    /// Ten percent to a zero treasury account, eras of one day at six
    /// seconds per block, the inflection point after about 10.5 years, a
    /// growth rate that reaches 99% of the supply at about twice that, and
    /// `α = 0.1` above a baseline activity of `100.0`.
    fn default() -> (c: Config)
        ensures
            forall|i: int| 0 <= i < 32 ==> c.treasury_account[i] == 0,
            c.treasury_cut == 100_000_000,
            c.blocks_per_era == 14_400,
            c.growth_rate_k == 83_100_000_000_000_000,
            c.inflection_point == 55_296_000,
            c.time_dilation_alpha == PRECISION / 10,
            c.baseline_activity == 100 * PRECISION,
    {
        Config {
            treasury_account: [0u8; 32],
            treasury_cut: 100_000_000,
            blocks_per_era: 14_400,
            growth_rate_k: 83_100_000_000_000_000,
            inflection_point: 55_296_000,
            time_dilation_alpha: PRECISION / 10,
            baseline_activity: 100 * PRECISION,
        }
    }
}

/// What the ledger starts from.
pub struct GenesisConfig {
    /// Units already minted at genesis.
    pub initial_supply: u128,
    /// Effective height at genesis.
    pub initial_effective_height: u128,
}

/// The engine's persisted state; the host stores each field.
#[derive(Clone, Copy, Debug, PartialEq, Eq)]
pub struct Storage {
    /// Units minted so far.
    pub total_minted: u128,
    /// Time-dilated clock that drives the emission curve.
    pub effective_block_height: u128,
    /// Activity score of the last completed era.
    pub network_activity: u128,
    /// Block at which the last era ended.
    pub last_era_block: u32,
    /// Transaction volume recorded in the current era.
    pub era_transaction_volume: u128,
    /// Transactions recorded in the current era.
    pub era_active_accounts: u32,
    /// Fees burned in the current era.
    pub era_fees_burned: u128,
}

/// What the engine reports to the host.
#[derive(Clone, Copy, Debug, PartialEq, Eq)]
pub enum Event {
    /// A block reward was minted.
    BlockRewardMinted {
        block_number: u32,
        effective_height: u128,
        reward: u128,
        total_supply: u128,
    },
    /// The activity score was recomputed at the end of an era.
    NetworkActivityUpdated {
        era: u32,
        q_net: u128,
        time_dilation_factor: u128,
    },
    /// An era ended; these are its accumulated figures.
    EraEnded {
        era: u32,
        transaction_volume: u128,
        active_accounts: u32,
        fees_burned: u128,
    },
    /// The maximum supply has been minted; nothing more is.
    MaxSupplyReached {
        total_supply: u128,
    },
}

/// Errors of the engine's calls.
#[derive(Clone, Copy, Debug, PartialEq, Eq)]
pub enum Error {
    /// The maximum supply has been reached.
    MaxSupplyReached,
    /// A computed amount does not fit the ledger's balance type.
    ArithmeticOverflow,
    /// An era update was requested before it was due.
    EraNotEnded,
    /// The caller lacks the authority that the call needs.
    BadOrigin,
}

/// Who makes a call.
#[derive(Clone, Copy, Debug, PartialEq, Eq)]
pub enum Origin {
    /// The privileged authority of the ledger.
    Root,
    /// A recognised signed account.
    Signed(AccountId),
    /// No identified caller.
    Unsigned,
}

/// How a minted reward is routed.
#[derive(Clone, Copy, Debug, PartialEq, Eq)]
pub struct Payout {
    /// Account that receives `treasury_amount`.
    pub treasury_account: AccountId,
    /// The treasury's share.
    pub treasury_amount: u128,
    /// The remainder, for the validators.
    pub validator_amount: u128,
}

/// What one block's finalization produced.
#[derive(Clone, Debug, PartialEq, Eq)]
pub struct BlockOutcome {
    /// The events, in the order they occurred.
    pub events: Vec<Event>,
    /// The reward to issue, when one was minted.
    pub payout: Option<Payout>,
}

/// The emission engine: its configuration and its state.
pub struct Pallet {
    pub config: Config,
    pub storage: Storage,
}

} // verus!
