//! End-to-end exercises of the trade pallet: both payment rails, the
//! reject and dispute paths, the economic phase switch, Merkle evidence and
//! diagnostics, and the error surface.

use kod_chain::AccountId;
use kod_chain::ledger::Ledger;
use kod_chain::trade::{Config, Error, Event, ListingStatus, Pallet, TradeStatus};

const SELLER: AccountId = AccountId(1);
const BUYER: AccountId = AccountId(2);
const OTHER: AccountId = AccountId(3);

fn setup(min_bond: u128, kod_only_block: u32) -> (Pallet, Ledger) {
    let mut ledger = Ledger::new();
    ledger.deposit(SELLER, 100_000);
    ledger.deposit(BUYER, 100_000);
    ledger.deposit(OTHER, 100_000);
    let pallet = Pallet::new(Config { min_bond, max_listings_per_user: 5, kod_only_block });
    (pallet, ledger)
}

fn token_listing(p: &mut Pallet, l: &mut Ledger, price: u128, bond: u128) -> u64 {
    let id = p.next_listing_id();
    p.create_listing(l, SELLER, price, bond, [7u8; 32], None, None, false, Vec::new(), 0, None, 1)
        .unwrap();
    id
}

#[test]
fn token_rail_happy_path() {
    let (mut p, mut l) = setup(100, 1_000_000);
    let lid = token_listing(&mut p, &mut l, 5000, 1000);
    assert_eq!(l.reserved_balance(SELLER), 1000);
    let tid = p.next_trade_id();
    p.purchase(&mut l, BUYER, lid, 500, None, 2).unwrap();
    assert_eq!(l.reserved_balance(BUYER), 5500);
    assert_eq!(l.free_balance(BUYER), 94_500);
    p.accept_trade(SELLER, tid, None, None, None, None, 3).unwrap();
    assert!(matches!(p.trades[tid as usize].status, TradeStatus::Escrow));
    p.confirm_delivery(&mut l, BUYER, tid, None).unwrap();
    assert_eq!(l.free_balance(SELLER), 105_000);
    assert_eq!(l.free_balance(BUYER), 95_000);
    assert_eq!(l.reserved_balance(SELLER), 0);
    assert_eq!(l.reserved_balance(BUYER), 0);
    assert!(matches!(p.listings[lid as usize].status, ListingStatus::Completed));
    assert!(matches!(p.trades[tid as usize].status, TradeStatus::Completed));
    assert_eq!(p.total_volume, 5000);
    assert_eq!(p.total_trades_completed, 1);
    assert!(p.trades[tid as usize].final_hash.is_some());
}

#[test]
fn fiat_rail_happy_path() {
    let (mut p, mut l) = setup(100, 1_000_000);
    p.set_kod_tl_rate(100).unwrap();
    assert_eq!(p.calculate_bond_from_tl(15_000_000), 15_000);
    let lid = p.next_listing_id();
    p.create_listing(
        &mut l,
        SELLER,
        0,
        0,
        [7u8; 32],
        None,
        None,
        false,
        Vec::new(),
        15_000_000,
        Some([0x5a; 32]),
        1,
    )
    .unwrap();
    assert_eq!(p.listings[lid as usize].bond, 15_000);
    assert_eq!(p.listings[lid as usize].price, 15_000);
    assert_eq!(l.reserved_balance(SELLER), 15_000);
    let tid = p.next_trade_id();
    p.purchase(&mut l, BUYER, lid, 15_000, Some([0x5b; 32]), 2).unwrap();
    assert_eq!(l.reserved_balance(BUYER), 15_000);
    p.accept_trade(SELLER, tid, None, None, None, None, 3).unwrap();
    assert!(matches!(p.trades[tid as usize].status, TradeStatus::AwaitingPayment));
    p.mark_payment_sent(BUYER, tid).unwrap();
    assert!(matches!(p.trades[tid as usize].status, TradeStatus::PaymentSent));
    p.confirm_tl_payment(&mut l, SELLER, tid).unwrap();
    assert!(matches!(p.trades[tid as usize].status, TradeStatus::Completed));
    assert_eq!(l.reserved_balance(SELLER), 0);
    assert_eq!(l.reserved_balance(BUYER), 0);
    assert_eq!(l.free_balance(SELLER), 100_000);
    assert_eq!(l.free_balance(BUYER), 100_000);
}

#[test]
fn reject_path() {
    let (mut p, mut l) = setup(100, 1_000_000);
    let lid = token_listing(&mut p, &mut l, 5000, 1000);
    let tid = p.next_trade_id();
    p.purchase(&mut l, BUYER, lid, 500, None, 2).unwrap();
    let free_before = l.free_balance(BUYER);
    p.reject_trade(&mut l, SELLER, tid, Some([9u8; 32])).unwrap();
    assert_eq!(l.free_balance(BUYER), 100_000);
    assert_eq!(l.reserved_balance(BUYER), 0);
    assert!(free_before < 100_000);
    assert!(matches!(p.listings[lid as usize].status, ListingStatus::Active));
    assert!(matches!(p.trades[tid as usize].status, TradeStatus::Refunded));
}

#[test]
fn dispute_buyer_wins() {
    let (mut p, mut l) = setup(100, 1_000_000);
    let lid = token_listing(&mut p, &mut l, 5000, 1000);
    let tid = p.next_trade_id();
    p.purchase(&mut l, BUYER, lid, 500, None, 2).unwrap();
    p.accept_trade(SELLER, tid, None, None, None, None, 3).unwrap();
    p.open_dispute(BUYER, tid).unwrap();
    assert!(matches!(p.trades[tid as usize].status, TradeStatus::Disputed));
    p.resolve_dispute(&mut l, tid, true).unwrap();
    assert_eq!(l.reserved_balance(BUYER), 0);
    assert_eq!(l.reserved_balance(SELLER), 0);
    assert_eq!(l.free_balance(BUYER), 101_000);
    assert_eq!(l.free_balance(SELLER), 99_000);
    assert!(matches!(p.trades[tid as usize].status, TradeStatus::Refunded));
    assert!(p.events.contains(&Event::Refunded { trade_id: tid, buyer: BUYER, amount: 6000 }));
    assert!(p.events.contains(&Event::DisputeResolved { trade_id: tid, winner: BUYER }));
}

#[test]
fn dispute_seller_wins() {
    let (mut p, mut l) = setup(100, 1_000_000);
    let lid = token_listing(&mut p, &mut l, 5000, 1000);
    let tid = p.next_trade_id();
    p.purchase(&mut l, BUYER, lid, 500, None, 2).unwrap();
    p.accept_trade(SELLER, tid, None, None, None, None, 3).unwrap();
    p.open_dispute(SELLER, tid).unwrap();
    p.resolve_dispute(&mut l, tid, false).unwrap();
    assert_eq!(l.free_balance(SELLER), 105_500);
    assert_eq!(l.free_balance(BUYER), 94_500);
    assert_eq!(l.reserved_balance(SELLER), 0);
    assert_eq!(l.reserved_balance(BUYER), 0);
    assert!(matches!(p.trades[tid as usize].status, TradeStatus::Completed));
    assert_eq!(p.total_trades_completed, 1);
    assert_eq!(p.total_volume, 5000);
}

#[test]
fn kod_only_boundary() {
    let kod_only_block = 50;
    let (mut p, mut l) = setup(100, kod_only_block);
    let r = p.create_listing(
        &mut l,
        SELLER,
        5000,
        1000,
        [7u8; 32],
        None,
        None,
        true,
        Vec::new(),
        0,
        None,
        kod_only_block - 1,
    );
    assert!(r.is_ok());
    let r = p.create_listing(
        &mut l,
        SELLER,
        5000,
        1000,
        [7u8; 32],
        None,
        None,
        true,
        Vec::new(),
        0,
        None,
        kod_only_block,
    );
    assert_eq!(r, Err(Error::KodOnlyModeActive));
    // the activation block announces the phase once
    p.on_initialize(kod_only_block);
    assert!(p
        .events
        .contains(&Event::KodOnlyModeActivated { block_number: kod_only_block }));
}

fn disputed_trade(p: &mut Pallet, l: &mut Ledger, root: [u8; 32]) -> u64 {
    let lid = p.next_listing_id();
    p.create_listing(l, SELLER, 5000, 1000, root, None, None, false, Vec::new(), 0, None, 1)
        .unwrap();
    let tid = p.next_trade_id();
    p.purchase(l, BUYER, lid, 500, None, 2).unwrap();
    p.accept_trade(SELLER, tid, None, None, None, None, 3).unwrap();
    p.open_dispute(BUYER, tid).unwrap();
    tid
}

fn node(left: &[u8; 32], right: &[u8; 32]) -> [u8; 32] {
    let mut combined = Vec::new();
    combined.extend_from_slice(left);
    combined.extend_from_slice(right);
    sp_crypto_hashing::blake2_256(&combined)
}

#[test]
fn merkle_proof_depth_boundary() {
    // a chain of sixteen levels whose root is folded from the leaf
    let leaf = [0x11u8; 32];
    let sibling = [0x22u8; 32];
    let mut root = leaf;
    for _ in 0..16 {
        root = node(&root, &sibling);
    }
    let (mut p, mut l) = setup(100, 1_000_000);
    let tid = disputed_trade(&mut p, &mut l, root);
    let proof = [sibling; 16];
    let r = p.submit_condition_proof(BUYER, tid, leaf, proof, 17, 0, 4);
    assert_eq!(r, Err(Error::MerkleProofTooDeep));
    let r = p.submit_condition_proof(BUYER, tid, leaf, proof, 16, 0, 4);
    assert!(r.is_ok());
    assert_eq!(p.trade_aux[tid as usize].proofs.len(), 1);
}

#[test]
fn merkle_proof_four_leaves() {
    let a = [0xa1u8; 32];
    let b = [0xb2u8; 32];
    let c = [0xc3u8; 32];
    let d = [0xd4u8; 32];
    let ab = node(&a, &b);
    let cd = node(&c, &d);
    let root = node(&ab, &cd);
    let (mut p, mut l) = setup(100, 1_000_000);
    let tid = disputed_trade(&mut p, &mut l, root);
    let mut proof = [[0u8; 32]; 16];
    proof[0] = d;
    proof[1] = ab;
    p.submit_condition_proof(OTHER, tid, c, proof, 2, 2, 4)
        .expect_err("a stranger may not submit evidence");
    p.submit_condition_proof(BUYER, tid, c, proof, 2, 2, 4).unwrap();
    assert_eq!(p.trade_aux[tid as usize].proofs.len(), 1);
    assert_eq!(p.trade_aux[tid as usize].proofs[0].condition_hash, c);
    assert!(p.events.contains(&Event::MerkleProofVerified {
        trade_id: tid,
        condition_hash: c,
        verified: true,
    }));
    // the same proof against the wrong slot fails
    let r = p.submit_condition_proof(BUYER, tid, c, proof, 2, 1, 5);
    assert_eq!(r, Err(Error::InvalidMerkleProof));
    // library-side verification agrees
    assert!(kod_chain::merkle::verify_merkle_proof_hashed(root, c, &proof[..2], 2));
    assert!(!kod_chain::merkle::verify_merkle_proof_hashed(root, c, &proof[..2], 1));
}

fn escrow_trade(p: &mut Pallet, l: &mut Ledger) -> u64 {
    let lid = p.next_listing_id();
    p.create_listing(l, SELLER, 5000, 1000, [7u8; 32], None, None, false, Vec::new(), 0, None, 1)
        .unwrap();
    let tid = p.next_trade_id();
    p.purchase(l, BUYER, lid, 500, None, 2).unwrap();
    p.accept_trade(SELLER, tid, None, None, None, None, 3).unwrap();
    tid
}

#[test]
fn diagnostics_count_boundary() {
    let (mut p, mut l) = setup(100, 1_000_000);
    let tid = escrow_trade(&mut p, &mut l);
    let ids17 = vec![[1u8; 32]; 17];
    let res17 = vec![1u8; 17];
    let det17 = vec![[2u8; 32]; 17];
    let r = p.submit_diagnostics(
        BUYER, tid, [3u8; 32], [4u8; 32], [5u8; 32], ids17, res17, det17, [6u8; 32], 4,
    );
    assert_eq!(r, Err(Error::TooManyDiagnosticTests));
    let ids16 = vec![[1u8; 32]; 16];
    let mut res16 = vec![1u8; 16];
    res16[3] = 0;
    res16[7] = 2;
    let det16 = vec![[2u8; 32]; 16];
    p.submit_diagnostics(
        BUYER, tid, [3u8; 32], [4u8; 32], [5u8; 32], ids16, res16, det16, [6u8; 32], 4,
    )
    .unwrap();
    let report = p.trade_aux[tid as usize].diagnostic_report.unwrap();
    assert_eq!(report.test_count, 16);
    assert_eq!(report.passed_count, 14);
    assert_eq!(report.failed_count, 1);
    assert_eq!(report.score, 87); // 14 * 100 / 16, rounded down
    assert!(p.trade_aux[tid as usize].has_diagnostics);
    // a second report is refused for good
    let r = p.submit_diagnostics(
        SELLER,
        tid,
        [3u8; 32],
        [4u8; 32],
        [5u8; 32],
        vec![[1u8; 32]],
        vec![1u8],
        vec![[2u8; 32]],
        [6u8; 32],
        5,
    );
    assert_eq!(r, Err(Error::DiagnosticsAlreadySubmitted));
    assert!(p.trade_aux[tid as usize].has_diagnostics);
}

#[test]
fn final_hash_commits_to_delivery_and_diagnostics() {
    let (mut p, mut l) = setup(100, 1_000_000);
    let tid = escrow_trade(&mut p, &mut l);
    p.submit_diagnostics(
        BUYER,
        tid,
        [3u8; 32],
        [4u8; 32],
        [5u8; 32],
        vec![[1u8; 32]],
        vec![1u8],
        vec![[2u8; 32]],
        [6u8; 32],
        4,
    )
    .unwrap();
    let delivery = Some([0xddu8; 32]);
    p.confirm_delivery(&mut l, BUYER, tid, delivery).unwrap();
    let t = p.trades[tid as usize];
    // recompute the sealed commitment independently
    let mut data = Vec::new();
    data.extend_from_slice(&t.contract_hash);
    data.extend_from_slice(&[0xddu8; 32]);
    data.extend_from_slice(&[6u8; 32]);
    data.extend_from_slice(b"completed_with_diagnostics");
    let expected = sp_crypto_hashing::blake2_256(&data);
    assert_eq!(t.final_hash, Some(expected));
    // and the contract hash commits to the purchase
    let mut pre = Vec::new();
    pre.extend_from_slice(&[7u8; 32]);
    pre.extend_from_slice(&kod_chain::account_bytes(BUYER));
    pre.extend_from_slice(&2u64.to_le_bytes());
    pre.extend_from_slice(b"accepted");
    assert_eq!(t.contract_hash, sp_crypto_hashing::blake2_256(&pre));
}

#[test]
fn error_surface_of_listings() {
    let (mut p, mut l) = setup(500, 1_000_000);
    // bonds below the minimum
    let r = p.create_listing(
        &mut l, SELLER, 5000, 499, [7u8; 32], None, None, false, Vec::new(), 0, None, 1,
    );
    assert_eq!(r, Err(Error::InsufficientBond));
    // the fiat rail insists on a bank account hash
    let r = p.create_listing(
        &mut l, SELLER, 0, 0, [7u8; 32], None, None, false, Vec::new(), 9_000_000, None, 1,
    );
    assert_eq!(r, Err(Error::IbanHashRequired));
    // more clauses than a contract may carry
    let clauses = vec![kod_chain::trade::ClauseType::Custom; 21];
    let r = p.create_listing(
        &mut l, SELLER, 5000, 1000, [7u8; 32], None, None, false, clauses, 0, None, 1,
    );
    assert_eq!(r, Err(Error::TooManyClauses));
    // a bond nobody can pay
    let r = p.create_listing(
        &mut l, SELLER, 5000, 200_000, [7u8; 32], None, None, false, Vec::new(), 0, None, 1,
    );
    assert_eq!(r, Err(Error::InsufficientBalance));
    // the per-seller cap
    for _ in 0..5 {
        token_listing(&mut p, &mut l, 100, 500);
    }
    let r = p.create_listing(
        &mut l, SELLER, 100, 500, [7u8; 32], None, None, false, Vec::new(), 0, None, 1,
    );
    assert_eq!(r, Err(Error::TooManyListings));
    // pausing refuses everything
    p.set_trading_paused(true);
    let r = p.create_listing(
        &mut l, SELLER, 100, 500, [7u8; 32], None, None, false, Vec::new(), 0, None, 1,
    );
    assert_eq!(r, Err(Error::TradingIsPaused));
    assert_eq!(p.purchase(&mut l, BUYER, 0, 100, None, 2), Err(Error::TradingIsPaused));
    p.set_trading_paused(false);
    // cancelling: strangers, then unknown ids, then a double cancel
    assert_eq!(p.cancel_listing(&mut l, BUYER, 0), Err(Error::NotAuthorized));
    assert_eq!(p.cancel_listing(&mut l, SELLER, 99), Err(Error::ListingNotFound));
    p.cancel_listing(&mut l, SELLER, 0).unwrap();
    assert_eq!(p.cancel_listing(&mut l, SELLER, 0), Err(Error::InvalidStatus));
}

#[test]
fn error_surface_of_purchases_and_trades() {
    let (mut p, mut l) = setup(100, 1_000_000);
    let lid = token_listing(&mut p, &mut l, 5000, 1000);
    assert_eq!(p.purchase(&mut l, BUYER, 77, 500, None, 2), Err(Error::ListingNotFound));
    assert_eq!(p.purchase(&mut l, SELLER, lid, 500, None, 2), Err(Error::CannotBuyOwnListing));
    assert_eq!(
        p.purchase(&mut l, BUYER, lid, 200_000, None, 2),
        Err(Error::InsufficientBalance)
    );
    let tid = p.next_trade_id();
    p.purchase(&mut l, BUYER, lid, 500, None, 2).unwrap();
    assert_eq!(p.purchase(&mut l, OTHER, lid, 500, None, 2), Err(Error::ListingNotActive));
    // trades: wrong callers and wrong states
    assert_eq!(
        p.accept_trade(BUYER, tid, None, None, None, None, 3),
        Err(Error::NotAuthorized)
    );
    assert_eq!(
        p.accept_trade(SELLER, 55, None, None, None, None, 3),
        Err(Error::TradeNotFound)
    );
    assert_eq!(p.mark_payment_sent(BUYER, tid), Err(Error::NotTlTrade));
    assert_eq!(p.confirm_tl_payment(&mut l, SELLER, tid), Err(Error::NotTlTrade));
    assert_eq!(p.confirm_delivery(&mut l, BUYER, tid, None), Err(Error::InvalidStatus));
    // oversized payloads at acceptance
    let blob = vec![0u8; 8193];
    assert_eq!(
        p.accept_trade(SELLER, tid, Some(blob), None, None, None, 3),
        Err(Error::ContractDataTooLarge)
    );
    let key = vec![0u8; 257];
    assert_eq!(
        p.accept_trade(SELLER, tid, Some(vec![1, 2]), Some(key), None, None, 3),
        Err(Error::EncryptionKeyTooLarge)
    );
    p.accept_trade(SELLER, tid, Some(vec![1, 2]), Some(vec![3]), Some(vec![4]), None, 3)
        .unwrap();
    assert_eq!(p.trade_aux[tid as usize].encryption_keys.len(), 2);
    // past acceptance, a rejection is no longer possible
    assert_eq!(
        p.reject_trade(&mut l, SELLER, tid, None),
        Err(Error::NotPendingSellerConfirm)
    );
    assert_eq!(p.open_dispute(OTHER, tid), Err(Error::NotAuthorized));
    assert_eq!(p.resolve_dispute(&mut l, tid, true), Err(Error::InvalidStatus));
    p.open_dispute(BUYER, tid).unwrap();
    assert_eq!(
        p.submit_condition_proof(BUYER, 55, [0u8; 32], [[0u8; 32]; 16], 1, 0, 9),
        Err(Error::TradeNotFound)
    );
    assert_eq!(p.submit_diagnostics(
        BUYER, tid, [0u8; 32], [0u8; 32], [0u8; 32], vec![], vec![], vec![], [0u8; 32], 9,
    ), Err(Error::InvalidStatus));
}

#[test]
fn fiat_rail_error_surface() {
    let (mut p, mut l) = setup(100, 1_000_000);
    assert_eq!(p.set_kod_tl_rate(0), Err(Error::InvalidRate));
    p.set_kod_tl_rate(50).unwrap();
    assert_eq!(p.calculate_bond_from_tl(9_000_000), 18_000);
    let lid = p.next_listing_id();
    p.create_listing(
        &mut l, SELLER, 0, 0, [7u8; 32], None, None, false, Vec::new(), 9_000_000,
        Some([0x5a; 32]), 1,
    )
    .unwrap();
    // fiat purchases need the buyer's bank account hash
    assert_eq!(p.purchase(&mut l, BUYER, lid, 18_000, None, 2), Err(Error::IbanHashRequired));
    let tid = p.next_trade_id();
    p.purchase(&mut l, BUYER, lid, 18_000, Some([0x5b; 32]), 2).unwrap();
    assert_eq!(p.mark_payment_sent(BUYER, tid), Err(Error::NotAwaitingPayment));
    p.accept_trade(SELLER, tid, None, None, None, None, 3).unwrap();
    assert_eq!(p.mark_payment_sent(SELLER, tid), Err(Error::NotAuthorized));
    p.mark_payment_sent(BUYER, tid).unwrap();
    assert_eq!(p.mark_payment_sent(BUYER, tid), Err(Error::NotAwaitingPayment));
    // fiat-rail trades never reach escrow, so delivery cannot be confirmed
    assert_eq!(p.confirm_delivery(&mut l, BUYER, tid, None), Err(Error::InvalidStatus));
    assert_eq!(p.confirm_tl_payment(&mut l, BUYER, tid), Err(Error::NotAuthorized));
    p.confirm_tl_payment(&mut l, SELLER, tid).unwrap();
    assert_eq!(
        p.confirm_tl_payment(&mut l, SELLER, tid),
        Err(Error::NotAwaitingOrPaymentSent)
    );
}

#[test]
fn user_listing_count_round_trip() {
    let (mut p, mut l) = setup(100, 1_000_000);
    assert_eq!(p.user_listing_count_of(SELLER), 0);
    let free0 = l.free_balance(SELLER);
    let lid = token_listing(&mut p, &mut l, 5000, 1000);
    assert_eq!(p.user_listing_count_of(SELLER), 1);
    p.cancel_listing(&mut l, SELLER, lid).unwrap();
    assert_eq!(p.user_listing_count_of(SELLER), 0);
    assert_eq!(l.free_balance(SELLER), free0);
    assert_eq!(l.reserved_balance(SELLER), 0);
}

#[test]
fn root_switches_and_their_events() {
    let (mut p, mut l) = setup(100, 1_000_000);
    assert_eq!(p.get_kod_only_block(), 1_000_000);
    p.set_kod_only_block(777);
    assert_eq!(p.get_kod_only_block(), 777);
    assert!(p.events.contains(&Event::KodOnlyBlockChanged { old_block: 1_000_000, new_block: 777 }));
    assert!(p.is_kod_only_active(777));
    assert!(!p.is_kod_only_active(776));
    p.set_trading_paused(true);
    assert!(p.events.contains(&Event::TradingPausedChanged { paused: true }));
    p.set_trading_paused(false);
    p.set_kod_tl_rate(250).unwrap();
    assert!(p.events.contains(&Event::KodTlRateUpdated { old_rate: 100, new_rate: 250 }));
    // a listing with a device attestation announces it
    let lid = p.next_listing_id();
    p.create_listing(
        &mut l, SELLER, 5000, 1000, [7u8; 32], Some([1u8; 32]), Some([0xeeu8; 32]), false,
        Vec::new(), 0, None, 1,
    )
    .unwrap();
    assert!(p.events.contains(&Event::ListingCreated {
        listing_id: lid,
        seller: SELLER,
        price: 5000,
        accepts_external: false,
    }));
    assert!(p.events.contains(&Event::DeviceAttestationAdded {
        listing_id: lid,
        attestation_hash: [0xeeu8; 32],
    }));
}

#[test]
fn stored_contract_payloads() {
    let (mut p, mut l) = setup(100, 1_000_000);
    let lid = token_listing(&mut p, &mut l, 5000, 1000);
    let tid = p.next_trade_id();
    p.purchase(&mut l, BUYER, lid, 500, None, 2).unwrap();
    let clauses = vec![kod_chain::trade::ContractClause {
        clause_type: kod_chain::trade::ClauseType::DebtFree,
        params_hash: [0x77u8; 32],
    }];
    p.accept_trade(
        SELLER,
        tid,
        Some(vec![0xc0, 0xff, 0xee]),
        Some(vec![1, 1]),
        Some(vec![2, 2]),
        Some(clauses.clone()),
        3,
    )
    .unwrap();
    let aux = &p.trade_aux[tid as usize];
    assert_eq!(aux.encrypted_contract, Some(vec![0xc0, 0xff, 0xee]));
    assert_eq!(aux.encryption_keys, vec![(BUYER, vec![1, 1]), (SELLER, vec![2, 2])]);
    assert_eq!(aux.contract_clauses, Some(clauses));
    assert!(p.events.contains(&Event::ContractEncrypted {
        trade_id: tid,
        contract_size: 3,
        parties_count: 2,
    }));
    assert!(p.events.contains(&Event::ContractClausesAdded { trade_id: tid, clause_count: 1 }));
}

#[test]
fn fiat_dispute_releases_only_the_bond() {
    // the buyer also holds an unrelated reservation of their own; the
    // dispute refund must not touch it
    let (mut p, mut l) = setup(100, 1_000_000);
    let own_lid = p.next_listing_id();
    p.create_listing(
        &mut l, BUYER, 400, 300, [1u8; 32], None, None, false, Vec::new(), 0, None, 1,
    )
    .unwrap();
    let lid = p.next_listing_id();
    p.create_listing(
        &mut l, SELLER, 0, 0, [7u8; 32], None, None, false, Vec::new(), 2_000_000,
        Some([0x5a; 32]), 1,
    )
    .unwrap();
    let bond = p.listings[lid as usize].bond;
    assert_eq!(bond, 2000);
    let tid = p.next_trade_id();
    p.purchase(&mut l, BUYER, lid, bond, Some([0x5b; 32]), 2).unwrap();
    p.accept_trade(SELLER, tid, None, None, None, None, 3).unwrap();
    p.open_dispute(BUYER, tid).unwrap();
    assert_eq!(l.reserved_balance(BUYER), 300 + bond);
    p.resolve_dispute(&mut l, tid, true).unwrap();
    // the fiat escrow (the bond alone) came back, plus the seller's bond
    // as the award; the unrelated reservation is untouched
    assert_eq!(l.reserved_balance(BUYER), 300);
    assert_eq!(l.free_balance(BUYER), 100_000 - 300 + bond);
    assert_eq!(l.reserved_balance(SELLER), 0);
    assert_eq!(l.free_balance(SELLER), 100_000 - bond);
}
