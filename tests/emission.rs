use tokenomics::math::PRECISION;
use tokenomics::pallet::{
    BlockOutcome, Config, Error, Event, GenesisConfig, MAX_SUPPLY, Origin, Pallet, Payout, SANC,
    Storage,
};

const T0: u128 = 55_296_000;

fn genesis_pallet() -> Pallet {
    Pallet::initialize(
        Config::default(),
        &GenesisConfig { initial_supply: 0, initial_effective_height: 0 },
    )
}

fn pallet_with(storage: Storage) -> Pallet {
    Pallet { config: Config::default(), storage }
}

fn empty_storage() -> Storage {
    Storage {
        total_minted: 0,
        effective_block_height: 0,
        network_activity: 100 * PRECISION,
        last_era_block: 0,
        era_transaction_volume: 0,
        era_active_accounts: 0,
        era_fees_burned: 0,
    }
}

#[test]
fn genesis_seeds_state() {
    let p = Pallet::initialize(
        Config::default(),
        &GenesisConfig { initial_supply: 7, initial_effective_height: 9 },
    );
    assert_eq!(p.storage.total_minted, 7);
    assert_eq!(p.storage.effective_block_height, 9);
    assert_eq!(p.storage.network_activity, 100 * PRECISION);
    assert_eq!(p.storage.last_era_block, 0);
    assert_eq!(p.storage.era_transaction_volume, 0);
    assert_eq!(p.storage.era_active_accounts, 0);
    assert_eq!(p.storage.era_fees_burned, 0);
}

#[test]
fn first_block_mints_and_splits_reward() {
    let mut p = genesis_pallet();
    let out: BlockOutcome = p.on_finalize(1);
    assert_eq!(p.storage.effective_block_height, 1);
    assert_eq!(p.storage.total_minted, 64_697_385);
    assert_eq!(
        out.events,
        vec![Event::BlockRewardMinted {
            block_number: 1,
            effective_height: 1,
            reward: 64_697_385,
            total_supply: 64_697_385,
        }]
    );
    assert_eq!(
        out.payout,
        Some(Payout {
            treasury_account: [0u8; 32],
            treasury_amount: 6_469_738,
            validator_amount: 58_227_647,
        })
    );
}

#[test]
fn height_advances_by_one_at_baseline_activity() {
    let mut p = genesis_pallet();
    for b in 1..=50u32 {
        let before = p.storage.effective_block_height;
        p.on_finalize(b);
        assert_eq!(p.storage.effective_block_height, before + 1);
    }
}

#[test]
fn height_advances_faster_above_baseline() {
    let mut s = empty_storage();
    // Excess activity of 100.0 at alpha 0.1 gives a dilation factor of 11.0.
    s.network_activity = 200 * PRECISION;
    let mut p = pallet_with(s);
    p.on_finalize(1);
    assert_eq!(p.storage.effective_block_height, 11);
}

#[test]
fn height_advances_at_least_one_at_zero_activity() {
    let mut s = empty_storage();
    s.network_activity = 0;
    s.effective_block_height = 1_000;
    let mut p = pallet_with(s);
    p.on_finalize(1);
    assert_eq!(p.storage.effective_block_height, 1_001);
}

#[test]
fn height_saturates_at_the_top() {
    let mut s = empty_storage();
    s.effective_block_height = u128::MAX;
    let mut p = pallet_with(s);
    p.on_finalize(1);
    assert_eq!(p.storage.effective_block_height, u128::MAX);
}

#[test]
fn max_supply_reached_mints_nothing() {
    let mut s = empty_storage();
    s.total_minted = MAX_SUPPLY;
    let mut p = pallet_with(s);
    let out = p.on_finalize(1);
    assert_eq!(p.storage.total_minted, MAX_SUPPLY);
    assert_eq!(out.events, vec![Event::MaxSupplyReached { total_supply: MAX_SUPPLY }]);
    assert_eq!(out.payout, None);
    assert_eq!(p.storage.effective_block_height, 1);
}

#[test]
fn reward_is_capped_at_remaining_supply() {
    let mut s = empty_storage();
    s.total_minted = MAX_SUPPLY - 10;
    let mut p = pallet_with(s);
    let out = p.on_finalize(1);
    assert_eq!(p.storage.total_minted, MAX_SUPPLY);
    assert_eq!(
        out.events,
        vec![Event::BlockRewardMinted {
            block_number: 1,
            effective_height: 1,
            reward: 10,
            total_supply: MAX_SUPPLY,
        }]
    );
    assert_eq!(
        out.payout,
        Some(Payout { treasury_account: [0u8; 32], treasury_amount: 1, validator_amount: 9 })
    );
    let out = p.on_finalize(2);
    assert_eq!(out.events, vec![Event::MaxSupplyReached { total_supply: MAX_SUPPLY }]);
}

#[test]
fn total_minted_stays_within_max_supply_over_many_blocks() {
    let mut s = empty_storage();
    s.total_minted = MAX_SUPPLY - 200_000_000;
    s.effective_block_height = T0;
    let mut p = pallet_with(s);
    for b in 1..=20u32 {
        p.on_finalize(b);
        assert!(p.storage.total_minted <= MAX_SUPPLY);
    }
    assert_eq!(p.storage.total_minted, MAX_SUPPLY);
}

#[test]
fn era_boundary_in_finalize_scores_and_resets() {
    let mut p = genesis_pallet();
    let who = Origin::Signed([1u8; 32]);
    p.record_transaction(who, 60 * SANC).unwrap();
    p.record_transaction(who, 40 * SANC).unwrap();
    p.record_transaction(who, 0).unwrap();
    p.record_fee_burn(who, 5 * SANC).unwrap();
    p.storage.total_minted = 1_000 * SANC;
    let out = p.on_finalize(14_399);
    assert_eq!(out.events.len(), 1);
    assert_eq!(p.storage.era_active_accounts, 3);
    let out = p.on_finalize(14_400);
    assert_eq!(out.events.len(), 3);
    assert_eq!(
        out.events[1],
        Event::EraEnded {
            era: 14_400,
            transaction_volume: 100 * SANC,
            active_accounts: 3,
            fees_burned: 5 * SANC,
        }
    );
    // 3 × 0.4 + sqrt(100) × 0.4 + (5 / supply) × 0.2, in fixed point, the
    // supply counting this block's reward.
    let burn = 5 * SANC * PRECISION / p.storage.total_minted * 20 / 100;
    let q = 1_200_000_000_000 + 4_000_000_000_000 + burn;
    assert_eq!(
        out.events[2],
        Event::NetworkActivityUpdated { era: 14_400, q_net: q, time_dilation_factor: PRECISION }
    );
    assert_eq!(p.storage.network_activity, q);
    assert_eq!(p.storage.last_era_block, 14_400);
    assert_eq!(p.storage.era_transaction_volume, 0);
    assert_eq!(p.storage.era_active_accounts, 0);
    assert_eq!(p.storage.era_fees_burned, 0);
}

#[test]
fn force_era_end_scores_accumulators() {
    let mut s = empty_storage();
    s.total_minted = 1_000 * SANC;
    s.era_transaction_volume = 100 * SANC;
    s.era_active_accounts = 3;
    s.era_fees_burned = 5 * SANC;
    let mut p = pallet_with(s);
    let events = p.force_era_end(Origin::Root, 5).unwrap();
    assert_eq!(
        events,
        vec![
            Event::EraEnded {
                era: 5,
                transaction_volume: 100 * SANC,
                active_accounts: 3,
                fees_burned: 5 * SANC,
            },
            Event::NetworkActivityUpdated {
                era: 5,
                q_net: 5_201_000_000_000,
                time_dilation_factor: PRECISION,
            },
        ]
    );
    assert_eq!(p.storage.network_activity, 5_201_000_000_000);
    assert_eq!(p.storage.last_era_block, 5);
    assert_eq!(p.storage.era_transaction_volume, 0);
    assert_eq!(p.storage.era_active_accounts, 0);
    assert_eq!(p.storage.era_fees_burned, 0);
    assert_eq!(p.storage.total_minted, 1_000 * SANC);
}

#[test]
fn high_activity_era_reports_dilation() {
    let mut s = empty_storage();
    s.total_minted = 10_000 * SANC;
    s.era_transaction_volume = 1_000_000 * SANC;
    s.era_active_accounts = 500;
    s.era_fees_burned = 100 * SANC;
    let mut p = pallet_with(s);
    let events = p.force_era_end(Origin::Root, 7).unwrap();
    assert_eq!(
        events[1],
        Event::NetworkActivityUpdated {
            era: 7,
            q_net: 600_002_000_000_000,
            time_dilation_factor: 51_000_200_000_000,
        }
    );
    // The next block advances by the dilation factor's whole part.
    p.on_finalize(8);
    assert_eq!(p.storage.effective_block_height, 51);
}

#[test]
fn era_with_no_supply_ignores_burn() {
    let mut s = empty_storage();
    s.era_fees_burned = 5 * SANC;
    let mut p = pallet_with(s);
    p.force_era_end(Origin::Root, 1).unwrap();
    assert_eq!(p.storage.network_activity, 0);
}

#[test]
fn recording_needs_a_signed_caller() {
    let mut p = genesis_pallet();
    assert_eq!(p.record_transaction(Origin::Unsigned, 5), Err(Error::BadOrigin));
    assert_eq!(p.record_transaction(Origin::Root, 5), Err(Error::BadOrigin));
    assert_eq!(p.record_fee_burn(Origin::Unsigned, 5), Err(Error::BadOrigin));
    assert_eq!(p.storage, genesis_pallet().storage);
    assert_eq!(p.record_transaction(Origin::Signed([2u8; 32]), 5), Ok(()));
    assert_eq!(p.record_fee_burn(Origin::Signed([2u8; 32]), 6), Ok(()));
    assert_eq!(p.storage.era_transaction_volume, 5);
    assert_eq!(p.storage.era_active_accounts, 1);
    assert_eq!(p.storage.era_fees_burned, 6);
}

#[test]
fn recording_saturates() {
    let mut s = empty_storage();
    s.era_transaction_volume = u128::MAX - 1;
    s.era_active_accounts = u32::MAX;
    s.era_fees_burned = u128::MAX;
    let mut p = pallet_with(s);
    let who = Origin::Signed([3u8; 32]);
    p.record_transaction(who, 10).unwrap();
    p.record_fee_burn(who, 10).unwrap();
    assert_eq!(p.storage.era_transaction_volume, u128::MAX);
    assert_eq!(p.storage.era_active_accounts, u32::MAX);
    assert_eq!(p.storage.era_fees_burned, u128::MAX);
}

#[test]
fn force_era_end_needs_root() {
    let mut p = genesis_pallet();
    p.storage.era_active_accounts = 4;
    assert_eq!(p.force_era_end(Origin::Signed([1u8; 32]), 3), Err(Error::BadOrigin));
    assert_eq!(p.force_era_end(Origin::Unsigned, 3), Err(Error::BadOrigin));
    assert_eq!(p.storage.era_active_accounts, 4);
}

#[test]
fn supply_curve_values() {
    let p = genesis_pallet();
    assert_eq!(p.sigmoid_supply(0), 138_177_266_443_500_455_612_243);
    assert_eq!(p.sigmoid_supply(T0), MAX_SUPPLY / 2);
    assert_eq!(p.sigmoid_supply(T0 - 1), 6_908_710_712_943_069_877_215_446);
    assert_eq!(p.sigmoid_supply(T0 + 1), 6_908_711_287_056_953_977_216_437);
    assert_eq!(p.sigmoid_supply(2 * T0), 13_679_244_733_557_782_745_331_228);
    assert_eq!(p.sigmoid_supply(3 * T0), MAX_SUPPLY);
    assert_eq!(p.sigmoid_supply(u128::MAX), MAX_SUPPLY);
}

#[test]
fn supply_curve_is_non_decreasing_and_bounded() {
    let p = genesis_pallet();
    let mut last = 0u128;
    let mut h: u128 = 0;
    while h <= 3 * T0 {
        let s = p.sigmoid_supply(h);
        assert!(s >= last);
        assert!(s <= MAX_SUPPLY);
        last = s;
        h += T0 / 37;
    }
}

#[test]
fn block_reward_values() {
    let p = genesis_pallet();
    // Saturated products give the largest reward the formula can express.
    assert_eq!(p.calculate_block_reward(T0), 64_697_385);
    // Past full emission nothing remains.
    assert_eq!(p.calculate_block_reward(4 * T0), 0);
    let mut config = Config::default();
    config.growth_rate_k = 1;
    let q = Pallet { config, storage: empty_storage() };
    assert_eq!(q.calculate_block_reward(T0), 656_771);
    assert_eq!(q.current_block_reward(), 656_771);
}

#[test]
fn emission_progress_values() {
    let mut p = genesis_pallet();
    assert_eq!(p.emission_progress(), 0);
    p.storage.total_minted = MAX_SUPPLY / 2;
    assert_eq!(p.emission_progress(), 5_000);
    p.storage.total_minted = MAX_SUPPLY / 3;
    assert_eq!(p.emission_progress(), 3_333);
    p.storage.total_minted = MAX_SUPPLY;
    assert_eq!(p.emission_progress(), 10_000);
    p.storage.total_minted = u128::MAX;
    assert_eq!(p.emission_progress(), 10_000);
}

#[test]
fn near_completion_countdown() {
    let mut p = genesis_pallet();
    assert_eq!(p.blocks_until_near_completion(), 2 * T0);
    p.storage.effective_block_height = T0;
    assert_eq!(p.blocks_until_near_completion(), T0);
    p.storage.effective_block_height = 3 * T0;
    assert_eq!(p.blocks_until_near_completion(), 0);
}

#[test]
fn max_supply_constant() {
    assert_eq!(Pallet::max_supply(), 13_817_422_000_000_000_000_000_000);
}

#[test]
fn treasury_cut_above_whole_counts_as_whole() {
    let mut config = Config::default();
    config.treasury_cut = 2_000_000_000;
    let mut p = Pallet { config, storage: empty_storage() };
    let out = p.on_finalize(1);
    assert_eq!(
        out.payout,
        Some(Payout { treasury_account: [0u8; 32], treasury_amount: 64_697_385, validator_amount: 0 })
    );
}
