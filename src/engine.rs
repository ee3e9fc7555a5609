//! The emission controller: what happens to the engine's state on each block,
//! at each era boundary, and on each recording call.
use vstd::prelude::*;

use crate::curve::{lemma_curve_ranges, reward_at};
use crate::math::{PRECISION, floor_sqrt, integer_sqrt, sat_add, sat_mul, sat_sub, saturating_mul};
use crate::pallet::{
    BILLION, BlockOutcome, Config, Error, Event, GenesisConfig, MAX_SUPPLY, Origin, Pallet,
    Payout, SANC, Storage,
};

verus! {

// ───────────────────────────── time dilation ─────────────────────────────

/// Pace of effective time relative to blocks, scaled by `PRECISION`:
/// `1 + α · (q_net - baseline)` when activity exceeds the baseline, else `1`.
pub open spec fn dilation_factor(q_net: int, baseline: int, alpha: int) -> int {
    let p = PRECISION as int;
    if q_net > baseline {
        sat_add(p, sat_mul(alpha, q_net - baseline) / p)
    } else {
        p
    }
}

/// Effective height after one block: the whole part of the dilation factor
/// is added, and at least one.
pub open spec fn next_height(h: int, factor: int) -> int {
    let advanced = sat_add(h, factor / (PRECISION as int));
    if advanced == h {
        sat_add(h, 1)
    } else {
        advanced
    }
}

// ───────────────────────────── activity score ─────────────────────────────

/// The activity score of an era: 40% participation (one unit per recorded
/// transaction), 40% the square root of the volume in whole tokens, and 20%
/// the fraction of the supply burned as fees, all scaled by `PRECISION`.
pub open spec fn activity_score(volume: int, accounts: int, fees: int, supply: int) -> int {
    let p = PRECISION as int;
    let participation = sat_mul(sat_mul(accounts, p), 40) / 100;
    let volume_score = sat_mul(sat_mul(floor_sqrt(volume / (SANC as int)), p), 40) / 100;
    let burn_ratio = if supply > 0 { sat_mul(fees, p) / supply } else { 0 };
    let burn_score = sat_mul(burn_ratio, 20) / 100;
    sat_add(sat_add(participation, volume_score), burn_score)
}

/// The activity score of the era that `s` has accumulated.
pub open spec fn era_score(s: Storage) -> int {
    activity_score(
        s.era_transaction_volume as int,
        s.era_active_accounts as int,
        s.era_fees_burned as int,
        s.total_minted as int,
    )
}

/// State after the era ends at `block`: the new score is kept, the era's
/// accumulators are cleared.
pub open spec fn after_era(s: Storage, block: u32) -> Storage {
    Storage {
        network_activity: era_score(s) as u128,
        last_era_block: block,
        era_transaction_volume: 0,
        era_active_accounts: 0,
        era_fees_burned: 0,
        ..s
    }
}

/// Events of an era that ends at `block` from state `s`.
pub open spec fn era_events(cfg: Config, s: Storage, block: u32) -> Seq<Event> {
    let q = era_score(s);
    seq![
        Event::EraEnded {
            era: block,
            transaction_volume: s.era_transaction_volume,
            active_accounts: s.era_active_accounts,
            fees_burned: s.era_fees_burned,
        },
        Event::NetworkActivityUpdated {
            era: block,
            q_net: q as u128,
            time_dilation_factor: dilation_factor(
                q,
                cfg.baseline_activity as int,
                cfg.time_dilation_alpha as int,
            ) as u128,
        },
    ]
}

/// The era score stays within `u128`.
proof fn lemma_era_score_fits(s: Storage)
    ensures
        0 <= era_score(s) <= u128::MAX,
{
    crate::math::lemma_floor_sqrt_nonneg(s.era_transaction_volume as int / (SANC as int));
}

// ───────────────────────────── one block ─────────────────────────────

/// State after the effective height has advanced one block.
pub open spec fn with_next_height(cfg: Config, s: Storage) -> Storage {
    let f = dilation_factor(
        s.network_activity as int,
        cfg.baseline_activity as int,
        cfg.time_dilation_alpha as int,
    );
    Storage { effective_block_height: next_height(s.effective_block_height as int, f) as u128, ..s }
}

/// What is minted from state `s`: the curve's reward at the current height,
/// capped at what remains below `MAX_SUPPLY`; nothing once that is reached.
pub open spec fn mint_amount(cfg: Config, s: Storage) -> int {
    if s.total_minted >= MAX_SUPPLY {
        0
    } else {
        let reward = reward_at(cfg, s.effective_block_height as int);
        let remaining = MAX_SUPPLY - s.total_minted;
        if reward < remaining { reward } else { remaining }
    }
}

/// The treasury's share of `amount`: `amount · cut / 10^9` rounded down, a
/// cut above one billion counting as one billion.
pub open spec fn treasury_share(amount: int, cut: int) -> int {
    let c = if cut > BILLION { BILLION as int } else { cut };
    amount * c / (BILLION as int)
}

/// How `amount` is split between the treasury and the validators.
pub open spec fn payout_of(cfg: Config, amount: int) -> Payout {
    let t = treasury_share(amount, cfg.treasury_cut as int);
    Payout {
        treasury_account: cfg.treasury_account,
        treasury_amount: t as u128,
        validator_amount: (amount - t) as u128,
    }
}

/// Whether the era is over at `block`.
pub open spec fn era_due(cfg: Config, s: Storage, block: u32) -> bool {
    sat_sub(block as int, s.last_era_block as int) >= cfg.blocks_per_era
}

/// State after the height advanced and the reward was minted.
pub open spec fn minted_state(cfg: Config, s: Storage) -> Storage {
    let s1 = with_next_height(cfg, s);
    Storage { total_minted: (s1.total_minted + mint_amount(cfg, s1)) as u128, ..s1 }
}

/// State after block `block` is finalized from `s`.
pub open spec fn finalized(cfg: Config, s: Storage, block: u32) -> Storage {
    let s2 = minted_state(cfg, s);
    if era_due(cfg, s2, block) {
        after_era(s2, block)
    } else {
        s2
    }
}

/// Events of finalizing block `block` from `s`.
pub open spec fn finalize_events(cfg: Config, s: Storage, block: u32) -> Seq<Event> {
    let s1 = with_next_height(cfg, s);
    let s2 = minted_state(cfg, s);
    let amount = mint_amount(cfg, s1);
    let mint_events = if s1.total_minted >= MAX_SUPPLY {
        seq![Event::MaxSupplyReached { total_supply: s1.total_minted }]
    } else if amount > 0 {
        seq![
            Event::BlockRewardMinted {
                block_number: block,
                effective_height: s2.effective_block_height,
                reward: amount as u128,
                total_supply: s2.total_minted,
            },
        ]
    } else {
        Seq::empty()
    };
    if era_due(cfg, s2, block) {
        mint_events + era_events(cfg, s2, block)
    } else {
        mint_events
    }
}

/// Payout of finalizing block `block` from `s`.
pub open spec fn finalize_payout(cfg: Config, s: Storage, block: u32) -> Option<Payout> {
    let amount = mint_amount(cfg, with_next_height(cfg, s));
    if amount > 0 {
        Some(payout_of(cfg, amount))
    } else {
        None
    }
}

/// The state after finalizing each block of `blocks` in turn.
pub open spec fn run_blocks(cfg: Config, s: Storage, blocks: Seq<u32>) -> Storage
    decreases blocks.len(),
{
    if blocks.len() == 0 {
        s
    } else {
        run_blocks(cfg, finalized(cfg, s, blocks[0]), blocks.drop_first())
    }
}

/// Finalizing one block keeps a total within `MAX_SUPPLY` within it.
pub proof fn lemma_finalize_within_max_supply(cfg: Config, s: Storage, block: u32)
    requires
        s.total_minted <= MAX_SUPPLY,
    ensures
        finalized(cfg, s, block).total_minted <= MAX_SUPPLY,
{
    let s1 = with_next_height(cfg, s);
    lemma_curve_ranges(cfg, s1.effective_block_height as int);
}

/// Across any sequence of block finalizations from a state within the
/// maximum supply, the total minted never exceeds `MAX_SUPPLY`.
pub proof fn lemma_minted_within_max_supply(cfg: Config, s: Storage, blocks: Seq<u32>)
    requires
        s.total_minted <= MAX_SUPPLY,
    ensures
        run_blocks(cfg, s, blocks).total_minted <= MAX_SUPPLY,
    decreases blocks.len(),
{
    if blocks.len() > 0 {
        lemma_finalize_within_max_supply(cfg, s, blocks[0]);
        lemma_minted_within_max_supply(cfg, finalized(cfg, s, blocks[0]), blocks.drop_first());
    }
}

/// Finalizing `blocks` in turn advances the effective height by at least
/// one per block, until it saturates at `u128::MAX`.
pub proof fn lemma_height_advances(cfg: Config, s: Storage, blocks: Seq<u32>)
    ensures
        run_blocks(cfg, s, blocks).effective_block_height >= if s.effective_block_height
            + blocks.len() <= u128::MAX {
            s.effective_block_height + blocks.len()
        } else {
            u128::MAX as int
        },
    decreases blocks.len(),
{
    if blocks.len() > 0 {
        let s1 = finalized(cfg, s, blocks[0]);
        assert(s1.effective_block_height >= s.effective_block_height + 1
            || s1.effective_block_height == u128::MAX);
        lemma_height_advances(cfg, s1, blocks.drop_first());
    }
}

/// The treasury's share of `amount` for a cut in parts per billion.
fn treasury_amount(amount: u128, cut: u32) -> (r: u128)
    ensures
        r == treasury_share(amount as int, cut as int),
        r <= amount,
{
    let c: u128 = if cut > BILLION { BILLION as u128 } else { cut as u128 };
    let b: u128 = BILLION as u128;
    let q = amount / b;
    let rem = amount % b;
    assert(q * c <= q * b && q * b <= amount && rem * c <= rem * b) by (nonlinear_arith)
        requires
            q as int == amount as int / b as int,
            c <= b,
            b > 0,
    ;
    let r = q * c + rem * c / b;
    assert(r as int == amount as int * c as int / b as int && r <= amount) by (nonlinear_arith)
        requires
            q as int == amount as int / b as int,
            rem as int == amount as int % b as int,
            r as int == q as int * c as int + (rem as int * c as int) / b as int,
            c <= b,
            b == 1_000_000_000,
    ;
    r
}

impl GenesisConfig {
    /// The state at genesis: the initial supply and height, activity at the
    /// configured baseline, and an empty first era that starts at block 0.
    pub fn build(&self, config: &Config) -> (s: Storage)
        ensures
            s == (Storage {
                total_minted: self.initial_supply,
                effective_block_height: self.initial_effective_height,
                network_activity: config.baseline_activity,
                last_era_block: 0,
                era_transaction_volume: 0,
                era_active_accounts: 0,
                era_fees_burned: 0,
            }),
    {
        Storage {
            total_minted: self.initial_supply,
            effective_block_height: self.initial_effective_height,
            network_activity: config.baseline_activity,
            last_era_block: 0,
            era_transaction_volume: 0,
            era_active_accounts: 0,
            era_fees_burned: 0,
        }
    }
}

impl Pallet {
    /// An engine with `config`, started from `genesis`.
    pub fn initialize(config: Config, genesis: &GenesisConfig) -> (p: Pallet)
        ensures
            p.config == config,
            p.storage.total_minted == genesis.initial_supply,
            p.storage.effective_block_height == genesis.initial_effective_height,
            p.storage.network_activity == config.baseline_activity,
            p.storage.last_era_block == 0,
            p.storage.era_transaction_volume == 0,
            p.storage.era_active_accounts == 0,
            p.storage.era_fees_burned == 0,
    {
        let storage = genesis.build(&config);
        Pallet { config, storage }
    }

    /// Finalizes block `block_number`: advances the effective height, mints
    /// the capped reward, and ends the era when it is due.
    ///
    /// The effective height grows by at least one (below `u128::MAX`), and
    /// the total minted never passes `MAX_SUPPLY` once it is within it.
    pub fn on_finalize(&mut self, block_number: u32) -> (out: BlockOutcome)
        ensures
            final(self).config == old(self).config,
            final(self).storage == finalized(old(self).config, old(self).storage, block_number),
            out.events@ == finalize_events(old(self).config, old(self).storage, block_number),
            out.payout == finalize_payout(old(self).config, old(self).storage, block_number),
            old(self).storage.effective_block_height < u128::MAX ==>
                final(self).storage.effective_block_height
                    >= old(self).storage.effective_block_height + 1,
            old(self).storage.total_minted <= MAX_SUPPLY ==>
                final(self).storage.total_minted <= MAX_SUPPLY,
            final(self).storage.total_minted >= old(self).storage.total_minted,
            era_due(old(self).config, minted_state(old(self).config, old(self).storage), block_number)
                ==> final(self).storage.era_transaction_volume == 0
                && final(self).storage.era_active_accounts == 0
                && final(self).storage.era_fees_burned == 0
                && final(self).storage.network_activity == era_score(
                minted_state(old(self).config, old(self).storage),
            ),
    {
        proof {
            lemma_era_score_fits(minted_state(old(self).config, old(self).storage));
        }
        let mut events: Vec<Event> = Vec::new();
        self.update_effective_height();
        let reward = self.calculate_and_mint_reward(&mut events);
        let mut payout: Option<Payout> = None;
        if reward > 0 {
            events.push(
                Event::BlockRewardMinted {
                    block_number,
                    effective_height: self.storage.effective_block_height,
                    reward,
                    total_supply: self.storage.total_minted,
                },
            );
            let treasury = treasury_amount(reward, self.config.treasury_cut);
            payout = Some(
                Payout {
                    treasury_account: self.config.treasury_account,
                    treasury_amount: treasury,
                    validator_amount: reward - treasury,
                },
            );
        }
        if block_number.saturating_sub(self.storage.last_era_block) >= self.config.blocks_per_era {
            self.end_era(block_number, &mut events);
        }
        BlockOutcome { events, payout }
    }

    /// Advances the effective height by the dilation factor's whole part,
    /// and by at least one.
    fn update_effective_height(&mut self)
        ensures
            final(self).config == old(self).config,
            final(self).storage == with_next_height(old(self).config, old(self).storage),
    {
        let current_height = self.storage.effective_block_height;
        let factor = self.dilation(self.storage.network_activity);
        let new_height = current_height.saturating_add(factor / PRECISION);
        let final_height = if new_height == current_height {
            current_height.saturating_add(1)
        } else {
            new_height
        };
        self.storage.effective_block_height = final_height;
    }

    /// The dilation factor for activity `q_net` under the configuration.
    fn dilation(&self, q_net: u128) -> (r: u128)
        ensures
            r == dilation_factor(
                q_net as int,
                self.config.baseline_activity as int,
                self.config.time_dilation_alpha as int,
            ),
    {
        let baseline = self.config.baseline_activity;
        if q_net > baseline {
            let acceleration = saturating_mul(self.config.time_dilation_alpha, q_net - baseline)
                / PRECISION;
            PRECISION.saturating_add(acceleration)
        } else {
            PRECISION
        }
    }

    /// Mints the reward for the current height, capped below `MAX_SUPPLY`,
    /// and returns it; reports when the maximum supply is already reached.
    fn calculate_and_mint_reward(&mut self, events: &mut Vec<Event>) -> (reward: u128)
        ensures
            final(self).config == old(self).config,
            reward == mint_amount(old(self).config, old(self).storage),
            final(self).storage == (Storage {
                total_minted: (old(self).storage.total_minted + reward) as u128,
                ..old(self).storage
            }),
            old(self).storage.total_minted >= MAX_SUPPLY ==> final(events)@ == old(events)@.push(
                Event::MaxSupplyReached { total_supply: old(self).storage.total_minted },
            ),
            old(self).storage.total_minted < MAX_SUPPLY ==> final(events)@ == old(events)@,
    {
        let current_minted = self.storage.total_minted;
        if current_minted >= MAX_SUPPLY {
            events.push(Event::MaxSupplyReached { total_supply: current_minted });
            return 0;
        }
        let reward = self.calculate_block_reward(self.storage.effective_block_height);
        let remaining = MAX_SUPPLY - current_minted;
        let actual = if reward < remaining { reward } else { remaining };
        if actual == 0 {
            return 0;
        }
        self.storage.total_minted = current_minted + actual;
        actual
    }

    /// Ends the era at `block`: scores the accumulated activity, keeps the
    /// score, and clears the accumulators.
    fn end_era(&mut self, block: u32, events: &mut Vec<Event>)
        ensures
            final(self).config == old(self).config,
            final(self).storage == after_era(old(self).storage, block),
            final(events)@ == old(events)@ + era_events(old(self).config, old(self).storage, block),
    {
        let s = self.storage;
        let participation = saturating_mul(saturating_mul(s.era_active_accounts as u128, PRECISION), 40)
            / 100;
        let volume_score = saturating_mul(
            saturating_mul(integer_sqrt(s.era_transaction_volume / SANC), PRECISION),
            40,
        ) / 100;
        let burn_ratio = if s.total_minted > 0 {
            saturating_mul(s.era_fees_burned, PRECISION) / s.total_minted
        } else {
            0
        };
        let burn_score = saturating_mul(burn_ratio, 20) / 100;
        let q_net = participation.saturating_add(volume_score).saturating_add(burn_score);
        let dilation = self.dilation(q_net);
        events.push(
            Event::EraEnded {
                era: block,
                transaction_volume: s.era_transaction_volume,
                active_accounts: s.era_active_accounts,
                fees_burned: s.era_fees_burned,
            },
        );
        events.push(
            Event::NetworkActivityUpdated { era: block, q_net, time_dilation_factor: dilation },
        );
        self.storage.network_activity = q_net;
        self.storage.last_era_block = block;
        self.storage.era_transaction_volume = 0;
        self.storage.era_active_accounts = 0;
        self.storage.era_fees_burned = 0;
        assert(events@ =~= old(events)@ + era_events(self.config, s, block));
    }

    /// Records a transaction of `volume` by a signed caller: adds it to the
    /// era's volume and counts one more active account, both saturating.
    pub fn record_transaction(&mut self, origin: Origin, volume: u128) -> (r: Result<(), Error>)
        ensures
            final(self).config == old(self).config,
            origin is Signed ==> r is Ok && final(self).storage == (Storage {
                era_transaction_volume: sat_add(
                    old(self).storage.era_transaction_volume as int,
                    volume as int,
                ) as u128,
                era_active_accounts: if old(self).storage.era_active_accounts == u32::MAX {
                    u32::MAX
                } else {
                    (old(self).storage.era_active_accounts + 1) as u32
                },
                ..old(self).storage
            }),
            !(origin is Signed) ==> r == Err::<(), Error>(Error::BadOrigin) && final(self).storage
                == old(self).storage,
    {
        match origin {
            Origin::Signed(_) => {},
            _ => {
                return Err(Error::BadOrigin);
            },
        }
        self.storage.era_transaction_volume = self.storage.era_transaction_volume.saturating_add(
            volume,
        );
        self.storage.era_active_accounts = self.storage.era_active_accounts.saturating_add(1);
        Ok(())
    }

    /// Records `amount` of fees burned by a signed caller, saturating.
    pub fn record_fee_burn(&mut self, origin: Origin, amount: u128) -> (r: Result<(), Error>)
        ensures
            final(self).config == old(self).config,
            origin is Signed ==> r is Ok && final(self).storage == (Storage {
                era_fees_burned: sat_add(
                    old(self).storage.era_fees_burned as int,
                    amount as int,
                ) as u128,
                ..old(self).storage
            }),
            !(origin is Signed) ==> r == Err::<(), Error>(Error::BadOrigin) && final(self).storage
                == old(self).storage,
    {
        match origin {
            Origin::Signed(_) => {},
            _ => {
                return Err(Error::BadOrigin);
            },
        }
        self.storage.era_fees_burned = self.storage.era_fees_burned.saturating_add(amount);
        Ok(())
    }

    /// Ends the era at once, at the current block `block_number`; only the
    /// root authority may. Returns the era's events.
    ///
    /// Afterwards the era's accumulators are zero and the activity score is
    /// the weighted score of what they held.
    pub fn force_era_end(&mut self, origin: Origin, block_number: u32) -> (r: Result<
        Vec<Event>,
        Error,
    >)
        ensures
            final(self).config == old(self).config,
            origin is Root ==> r is Ok && final(self).storage == after_era(
                old(self).storage,
                block_number,
            ) && r->Ok_0@ == era_events(old(self).config, old(self).storage, block_number),
            origin is Root ==> final(self).storage.era_transaction_volume == 0
                && final(self).storage.era_active_accounts == 0
                && final(self).storage.era_fees_burned == 0
                && final(self).storage.network_activity == era_score(old(self).storage),
            !(origin is Root) ==> r == Err::<Vec<Event>, Error>(Error::BadOrigin)
                && final(self).storage == old(self).storage,
    {
        match origin {
            Origin::Root => {},
            _ => {
                return Err(Error::BadOrigin);
            },
        }
        let mut events: Vec<Event> = Vec::new();
        self.end_era(block_number, &mut events);
        proof {
            lemma_era_score_fits(old(self).storage);
        }
        Ok(events)
    }

    /// The maximum supply.
    pub fn max_supply() -> (r: u128)
        ensures
            r == MAX_SUPPLY,
    {
        MAX_SUPPLY
    }

    /// Share of the maximum supply minted so far, in hundredths of a percent:
    /// `total_minted · 10000 / MAX_SUPPLY`, at most 10000.
    pub fn emission_progress(&self) -> (r: u32)
        ensures
            r <= 10000,
            r as int == (if self.storage.total_minted as int * 10000 / (MAX_SUPPLY as int) < 10000 {
                self.storage.total_minted as int * 10000 / (MAX_SUPPLY as int)
            } else {
                10000
            }),
    {
        let minted = self.storage.total_minted;
        let progress = saturating_mul(minted, 10000) / MAX_SUPPLY;
        proof {
            if minted as int * 10000 > u128::MAX {
                assert(minted as int * 10000 / (MAX_SUPPLY as int) >= 10000) by (nonlinear_arith)
                    requires
                        minted as int * 10000 > u128::MAX,
                ;
            }
        }
        if progress < 10000 {
            progress as u32
        } else {
            10000
        }
    }

    /// Effective heights left until about 99% of the supply is emitted,
    /// taken to happen at twice the inflection point.
    pub fn blocks_until_near_completion(&self) -> (r: u128)
        ensures
            r == sat_sub(
                2 * self.config.inflection_point as int,
                self.storage.effective_block_height as int,
            ),
    {
        let completion_height = (self.config.inflection_point as u128) * 2;
        let current_height = self.storage.effective_block_height;
        if current_height >= completion_height {
            0
        } else {
            completion_height - current_height
        }
    }

    /// Block reward at the current effective height.
    pub fn current_block_reward(&self) -> (r: u128)
        ensures
            r == reward_at(self.config, self.storage.effective_block_height as int),
    {
        self.calculate_block_reward(self.storage.effective_block_height)
    }
}

} // verus!
