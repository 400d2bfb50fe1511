//! Exercises of the consensus side: the reward schedule and payout, the
//! difficulty controller, the proof-of-work check, the inherent codec,
//! the ledger primitives and the genesis allocator.

use kod_chain::AccountId;
use kod_chain::block_reward::{Config as RewardConfig, Event as RewardEvent, Pallet as RewardPallet};
use kod_chain::difficulty::{
    DifficultyState, DIFFICULTY_ADJUSTMENT_WINDOW, INITIAL_DIFFICULTY, MAX_DIFFICULTY,
    MIN_DIFFICULTY,
};
use kod_chain::inherent::{create_inherent, BlockRewardInherentDataProvider, MinerInherentData};
use kod_chain::ledger::{Ledger, LedgerError};
use kod_chain::runtime::{DispatchError, MiningReserveAccount, Runtime, MINING_RESERVE_TAG};
use parity_scale_codec::{Compact, Encode};
use sha3::Digest;
use sp_core::crypto::Ss58Codec;
use kod_chain::{
    calculate_block_reward, FOUNDATION_RESERVE, HALVING_INTERVAL, INITIAL_BLOCK_REWARD,
    MINING_RESERVE, TOTAL_SUPPLY, UNIT,
};

const MINER: AccountId = AccountId(9);

fn small_reward_pallet(reserve_funds: u128) -> (RewardPallet, Ledger) {
    let reserve = MiningReserveAccount::get();
    let mut ledger = Ledger::new();
    ledger.deposit(reserve, reserve_funds);
    let pallet = RewardPallet::new(RewardConfig {
        reward_amount: 50,
        halving_interval: 10,
        mining_reserve_account: reserve,
    });
    (pallet, ledger)
}

#[test]
fn reward_halving_schedule() {
    let (mut p, mut l) = small_reward_pallet(100_000);
    // era zero pays the full amount up to the boundary
    p.set_miner(MINER);
    p.on_finalize(&mut l, 9);
    assert_eq!(l.free_balance(MINER), 50);
    assert!(p.events.contains(&RewardEvent::RewardPaid {
        miner: MINER,
        amount: 50,
        block_number: 9,
    }));
    // the boundary block pays the halved amount and announces the era
    p.set_miner(MINER);
    p.on_finalize(&mut l, 10);
    assert_eq!(l.free_balance(MINER), 75);
    assert!(p.events.contains(&RewardEvent::HalvingOccurred {
        block_number: 10,
        new_reward: 25,
        era: 1,
    }));
    assert_eq!(p.total_rewards_paid, 75);
    // from the tenth era on nothing is paid
    let events_before = p.events.len();
    p.set_miner(MINER);
    p.on_finalize(&mut l, 100);
    assert_eq!(l.free_balance(MINER), 75);
    assert_eq!(p.total_rewards_paid, 75);
    assert_eq!(p.events.len(), events_before);
    assert!(p.pending_miner.is_none());
}

#[test]
fn reward_schedule_formula() {
    let (p, _) = small_reward_pallet(0);
    assert_eq!(p.calculate_reward(0), 50);
    assert_eq!(p.calculate_reward(9), 50);
    assert_eq!(p.calculate_reward(10), 25);
    assert_eq!(p.calculate_reward(19), 25);
    assert_eq!(p.calculate_reward(20), 12);
    assert_eq!(p.calculate_reward(39), 6);
    assert_eq!(p.calculate_reward(90), 0);
    assert_eq!(p.current_era(35), 3);
}

#[test]
fn reward_pause_override_and_exhaustion() {
    let (mut p, mut l) = small_reward_pallet(60);
    p.set_rewards_paused(true);
    p.set_miner(MINER);
    p.on_finalize(&mut l, 1);
    assert_eq!(l.free_balance(MINER), 0);
    // the beneficiary survives a paused block and is paid after resuming
    assert!(p.pending_miner.is_some());
    p.set_rewards_paused(false);
    p.set_reward_override(Some(7));
    p.on_finalize(&mut l, 1);
    assert_eq!(l.free_balance(MINER), 7);
    // totals only ever grow
    let total_before = p.total_rewards_paid;
    p.set_reward_override(None);
    p.set_miner(MINER);
    p.on_finalize(&mut l, 2);
    assert!(p.total_rewards_paid >= total_before);
    // a drained reserve stops payment without stopping the chain
    p.set_miner(MINER);
    p.on_finalize(&mut l, 3);
    assert!(p.events.contains(&RewardEvent::ReserveExhausted));
}

#[test]
fn chain_block_reward_constants() {
    assert_eq!(calculate_block_reward(0), 50 * UNIT);
    assert_eq!(calculate_block_reward(HALVING_INTERVAL - 1), INITIAL_BLOCK_REWARD);
    assert_eq!(calculate_block_reward(HALVING_INTERVAL), 25 * UNIT);
    assert_eq!(calculate_block_reward(2 * HALVING_INTERVAL), 12_500_000_000_000_000_000);
    assert_eq!(calculate_block_reward(10 * HALVING_INTERVAL), 0);
}

#[test]
fn difficulty_retargets_proportionally() {
    let mut d = DifficultyState::new();
    assert_eq!(d.current_difficulty, INITIAL_DIFFICULTY);
    // blocks coming at half the target speed the difficulty up twofold
    for n in 1..=DIFFICULTY_ADJUSTMENT_WINDOW {
        d.record_block(n, 3_000);
    }
    assert_eq!(d.current_difficulty, 100_000);
    assert_eq!(d.block_times.len(), 0);
    assert_eq!(d.last_adjustment_block, DIFFICULTY_ADJUSTMENT_WINDOW);
    // blocks four times too slow cut it fourfold
    for n in 11..=20 {
        d.record_block(n, 24_000);
    }
    assert_eq!(d.current_difficulty, 25_000);
    // the clamp holds even under absurd inputs
    let mut e = DifficultyState {
        current_difficulty: MAX_DIFFICULTY,
        last_adjustment_block: 0,
        block_times: Vec::new(),
        target_time_ms: 6_000,
    };
    for n in 1..=10 {
        e.record_block(n, 0);
    }
    assert!(e.current_difficulty <= MAX_DIFFICULTY);
    assert!(e.current_difficulty >= MIN_DIFFICULTY);
    let mut f = DifficultyState {
        current_difficulty: MIN_DIFFICULTY,
        last_adjustment_block: 0,
        block_times: Vec::new(),
        target_time_ms: 6_000,
    };
    for n in 1..=10 {
        f.record_block(n, u64::MAX);
    }
    assert_eq!(f.current_difficulty, MIN_DIFFICULTY);
}

#[test]
fn pow_check_matches_reference_hash() {
    let parent = [0xabu8; 32];
    let preimage = kod_chain::pow::mining_preimage(&parent, 42, "miner-address", 7);
    // spelled out by hand, so a lazy encoding shows up here
    let expected = format!("{}:42:miner-address:7", "ab".repeat(32));
    assert_eq!(preimage, expected);
    assert_eq!(expected, format!("{}:{}:{}:{}", hex::encode(parent), 42, "miner-address", 7));
    let digest: [u8; 32] = sha3::Sha3_256::digest(expected.as_bytes()).into();
    let value = kod_chain::pow::pow_value(&digest);
    let expected_value = u64::from_be_bytes(digest[0..8].try_into().unwrap()) as u128;
    assert_eq!(value, expected_value);
    assert_eq!(
        kod_chain::pow::pow_meets_target(value, 1),
        value < u128::MAX
    );
    // an all-zero digest passes any positive difficulty
    assert!(kod_chain::pow::pow_meets_target(0, MAX_DIFFICULTY));
    // the full attempt agrees with the parts
    let ok = kod_chain::pow::mining_attempt(&parent, 42, "miner-address", 7, 1_000);
    assert_eq!(ok, value < u128::MAX / 1_000);
}

#[test]
fn inherent_payload_matches_reference_codec() {
    for n in [0u32, 63, 64, 16_383, 16_384, 1_073_741_823, 1_073_741_824, u32::MAX] {
        assert_eq!(kod_chain::scale::compact_u32_encode(n), Compact(n).encode());
    }
    let with_addr = MinerInherentData {
        miner_address: Some(b"5GrwvaEF...".to_vec()),
        block_number: 77,
    };
    let reference = (Some(b"5GrwvaEF...".to_vec()), 77u32).encode();
    assert_eq!(with_addr.encode(), reference);
    let without = MinerInherentData { miner_address: None, block_number: 9 };
    assert_eq!(without.encode(), (None::<Vec<u8>>, 9u32).encode());
    let provider = BlockRewardInherentDataProvider::new(Some(b"abc".to_vec()), 5);
    let data = provider.inherent_data();
    assert_eq!(data.miner_address, Some(b"abc".to_vec()));
    assert_eq!(data.block_number, 5);
}

#[test]
fn inherent_decodes_canonical_and_ss58_addresses() {
    // canonical account bytes decode directly
    let mut raw = vec![0u8; 32];
    raw[0] = 42;
    let data = MinerInherentData { miner_address: Some(raw.clone()), block_number: 1 };
    assert_eq!(create_inherent(&data), Some(AccountId(42)));
    // a canonical key wrapped in an SS58 string decodes through the
    // address path
    let mut pk = [0u8; 32];
    pk[0] = 42;
    let address = sp_core::crypto::AccountId32::from(pk).to_ss58check();
    let data = MinerInherentData {
        miner_address: Some(address.into_bytes()),
        block_number: 1,
    };
    assert_eq!(create_inherent(&data), Some(AccountId(42)));
    // junk decodes to nobody
    let data = MinerInherentData { miner_address: Some(b"not an address".to_vec()), block_number: 1 };
    assert_eq!(create_inherent(&data), None);
    let data = MinerInherentData { miner_address: None, block_number: 1 };
    assert_eq!(create_inherent(&data), None);
}

#[test]
fn ledger_primitives() {
    let a = AccountId(1);
    let b = AccountId(2);
    let mut l = Ledger::new();
    l.deposit(a, 1000);
    assert_eq!(l.reserve(a, 1500), Err(LedgerError::InsufficientBalance));
    l.reserve(a, 600).unwrap();
    assert_eq!(l.free_balance(a), 400);
    assert_eq!(l.reserved_balance(a), 600);
    // unreserving more than is held releases only what is held
    l.unreserve(a, 1_000_000);
    assert_eq!(l.free_balance(a), 1000);
    assert_eq!(l.reserved_balance(a), 0);
    assert_eq!(l.transfer(a, b, 1001), Err(LedgerError::InsufficientBalance));
    l.transfer(a, b, 250).unwrap();
    assert_eq!(l.free_balance(a), 750);
    assert_eq!(l.free_balance(b), 250);
    // an account cannot be credited past the largest balance
    let mut m = Ledger::new();
    m.deposit(a, u128::MAX);
    m.deposit(b, 10);
    assert_eq!(m.transfer(b, a, 5), Err(LedgerError::Overflow));
    // repatriation moves reserved funds into the winner's free balance
    let mut r = Ledger::new();
    r.deposit(a, 1000);
    r.deposit(b, 50);
    r.reserve(a, 800).unwrap();
    r.repatriate_reserved(a, b, 300).unwrap();
    assert_eq!(r.reserved_balance(a), 500);
    assert_eq!(r.free_balance(b), 350);
}

#[test]
fn genesis_splits_the_supply() {
    assert_eq!(MINING_RESERVE + FOUNDATION_RESERVE, TOTAL_SUPPLY);
    let endowed = vec![
        (AccountId(1), 50_000_000 * UNIT),
        (AccountId(2), 25_000_000 * UNIT),
        (AccountId(3), 12_500_000 * UNIT),
        (AccountId(4), 6_250_000 * UNIT),
        (AccountId(5), 6_250_000 * UNIT),
    ];
    let total: u128 = endowed.iter().map(|(_, x)| x).sum();
    assert_eq!(total, FOUNDATION_RESERVE);
    let runtime = Runtime::kod_genesis(
        endowed,
        AccountId(1),
        Runtime::default_reward_config(),
        Runtime::default_trade_config(UNIT, 10),
    );
    assert_eq!(runtime.balances.free_balance(AccountId(1)), 50_000_000 * UNIT);
    assert_eq!(
        runtime.balances.free_balance(AccountId(MINING_RESERVE_TAG)),
        MINING_RESERVE
    );
    assert_eq!(runtime.sudo_key, Some(AccountId(1)));
}

#[test]
fn runtime_block_cycle_pays_the_miner() {
    let runtime_endowed = vec![(AccountId(1), 1_000_000)];
    let mut runtime = Runtime::kod_genesis(
        runtime_endowed,
        AccountId(1),
        Runtime::default_reward_config(),
        Runtime::default_trade_config(100, 10),
    );
    let provider = BlockRewardInherentDataProvider::new(
        Some({
            let mut raw = vec![0u8; 32];
            raw[0] = 9;
            raw
        }),
        1,
    );
    runtime.initialize_block(1);
    let beneficiary = create_inherent(&provider.inherent_data()).unwrap();
    assert_eq!(beneficiary, MINER);
    runtime.block_reward.set_miner(beneficiary);
    runtime.finalize_block();
    assert_eq!(
        runtime.balances.free_balance(MINER),
        kod_chain::INITIAL_BLOCK_REWARD
    );
    assert_eq!(runtime.block_reward.total_rewards_paid, kod_chain::INITIAL_BLOCK_REWARD);
}

#[test]
fn wallet_record_and_path() {
    let w = kod_chain::wallet::WalletInfo::new(
        "5Grwv".to_string(),
        "one two three".to_string(),
        "2026-01-01T00:00:00Z".to_string(),
        "KOD".to_string(),
    );
    assert_eq!(w.address, "5Grwv");
    assert_eq!(w.network, "KOD");
    assert_eq!(kod_chain::wallet::wallet_path("/home/u"), "/home/u/.kod/wallet.json");
}

#[test]
fn account_bytes_are_canonical() {
    let bytes = kod_chain::account_bytes(AccountId(0x0102_0304));
    assert_eq!(bytes.len(), 32);
    assert_eq!(&bytes[0..8], &[4, 3, 2, 1, 0, 0, 0, 0]);
    assert!(bytes[8..].iter().all(|b| *b == 0));
}

#[test]
fn difficulty_keeps_still_between_windows() {
    let mut d = DifficultyState::new();
    d.record_block(1, 100);
    d.record_block(2, 100);
    assert_eq!(d.current_difficulty, INITIAL_DIFFICULTY);
    assert_eq!(d.block_times.len(), 2);
    // a retarget with nothing collected changes nothing
    let mut e = DifficultyState::new();
    e.adjust_difficulty(10);
    assert_eq!(e.current_difficulty, INITIAL_DIFFICULTY);
    assert_eq!(e.last_adjustment_block, 0);
}

#[test]
fn era_boundary_rewards() {
    let (p, _) = small_reward_pallet(0);
    for k in 1u32..10 {
        assert_eq!(p.calculate_reward(k * 10 - 1), 50 >> (k - 1));
        assert_eq!(p.calculate_reward(k * 10), 50 >> k);
    }
    assert_eq!(p.calculate_reward(99), 0); // 50 >> 9 == 0 already at era nine
    assert_eq!(p.calculate_reward(100), 0);
}

#[test]
fn sudo_dispatch_checks_the_signer() {
    let root = AccountId(1);
    let stranger = AccountId(2);
    let mut runtime = Runtime::kod_genesis(
        vec![(root, 1_000_000), (stranger, 1_000_000)],
        root,
        Runtime::default_reward_config(),
        Runtime::default_trade_config(100, 10),
    );
    // a stranger is turned away from every root call, changing nothing
    assert_eq!(
        runtime.sudo_set_rewards_paused(stranger, true),
        Err(DispatchError::BadOrigin)
    );
    assert!(!runtime.block_reward.rewards_paused);
    assert_eq!(
        runtime.sudo_set_reward_override(stranger, Some(1)),
        Err(DispatchError::BadOrigin)
    );
    assert_eq!(
        runtime.sudo_set_trading_paused(stranger, true),
        Err(DispatchError::BadOrigin)
    );
    assert_eq!(
        runtime.sudo_set_kod_only_block(stranger, 5),
        Err(DispatchError::BadOrigin)
    );
    assert_eq!(
        runtime.sudo_set_kod_tl_rate(stranger, 50),
        Err(DispatchError::BadOrigin)
    );
    assert_eq!(
        runtime.sudo_resolve_dispute(stranger, 0, true),
        Err(DispatchError::BadOrigin)
    );
    // the key holder gets through, and bad inner calls keep their error
    runtime.sudo_set_rewards_paused(root, true).unwrap();
    assert!(runtime.block_reward.rewards_paused);
    runtime.sudo_set_kod_only_block(root, 5).unwrap();
    assert_eq!(runtime.trade.get_kod_only_block(), 5);
    runtime.sudo_set_kod_tl_rate(root, 50).unwrap();
    assert_eq!(runtime.trade.kod_tl_rate, 50);
    assert_eq!(
        runtime.sudo_set_kod_tl_rate(root, 0),
        Err(DispatchError::Call(kod_chain::trade::Error::InvalidRate))
    );
    assert_eq!(
        runtime.sudo_resolve_dispute(root, 0, true),
        Err(DispatchError::Call(kod_chain::trade::Error::TradeNotFound))
    );
}

#[test]
fn sudo_resolves_a_dispute_end_to_end() {
    let root = AccountId(1);
    let seller = AccountId(4);
    let buyer = AccountId(5);
    let mut runtime = Runtime::kod_genesis(
        vec![(root, 10_000), (seller, 10_000), (buyer, 10_000)],
        root,
        Runtime::default_reward_config(),
        Runtime::default_trade_config(100, 10),
    );
    runtime
        .trade
        .create_listing(
            &mut runtime.balances, seller, 500, 200, [7u8; 32], None, None, false,
            Vec::new(), 0, None, 1,
        )
        .unwrap();
    runtime.trade.purchase(&mut runtime.balances, buyer, 0, 100, None, 2).unwrap();
    runtime.trade.accept_trade(seller, 0, None, None, None, None, 3).unwrap();
    runtime.trade.open_dispute(buyer, 0).unwrap();
    runtime.sudo_resolve_dispute(root, 0, true).unwrap();
    assert_eq!(runtime.balances.free_balance(buyer), 10_200);
    assert_eq!(runtime.balances.free_balance(seller), 9_800);
    assert_eq!(runtime.balances.reserved_balance(buyer), 0);
    assert_eq!(runtime.balances.reserved_balance(seller), 0);
}
