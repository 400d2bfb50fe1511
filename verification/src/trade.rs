//! The escrow trade pallet. A seller lists goods against a reserved bond;
//! a buyer purchases, reserving the price plus a bond of their own on the
//! token rail, or only a bond on the fiat rail; the seller accepts or
//! rejects; delivery or an off-chain payment completes the trade, or a
//! dispute freezes it until root adjudicates, with Merkle-proof evidence
//! and diagnostic attestations recorded on chain.
//!
//! Listing and trade identifiers are dense: the id is the index into the
//! respective table, and the next id is its length.

use vstd::prelude::*;
use crate::AccountId;
use crate::ledger::{Ledger, spec_min_u128};
use crate::commit::{spec_contract_hash, compute_contract_hash};
use crate::spec_saturating_add_u128;

verus! {

/// Longest Merkle proof accepted by dispute evidence.
pub const MAX_MERKLE_PROOF_DEPTH: u32 = 16;

/// Most diagnostic tests one report may carry.
pub const MAX_DIAGNOSTIC_TESTS: u32 = 16;

/// Most clauses a contract may carry.
pub const MAX_CONTRACT_CLAUSES: u32 = 20;

/// Largest encrypted contract blob stored on chain, in bytes.
pub const MAX_CONTRACT_BYTES: u32 = 8192;

/// Largest per-party key envelope stored on chain, in bytes.
pub const MAX_KEY_BYTES: u32 = 256;

/// The default exchange rate: minor fiat units per whole token.
#[allow(non_snake_case)]
pub fn DefaultKodTlRate() -> (r: u64)
    ensures
        r == 100u64,
{
    100
}

/// Fixed configuration of the trade pallet.
#[derive(Clone, Copy, Debug, PartialEq, Eq, Structural)]
pub struct Config {
    /// Smallest bond a listing may carry.
    pub min_bond: u128,
    /// Most simultaneously open listings per seller.
    pub max_listings_per_user: u32,
    /// Default first block of the KOD-only phase.
    pub kod_only_block: u32,
}

/// A listing's lifecycle state.
#[derive(Clone, Copy, Debug, PartialEq, Eq, Structural)]
pub enum ListingStatus {
    /// On sale.
    Active,
    /// Purchased; a trade holds it.
    Sold,
    /// Withdrawn by the seller.
    Cancelled,
    /// Its trade completed.
    Completed,
}

/// A trade's lifecycle state.
#[derive(Clone, Copy, Debug, PartialEq, Eq, Structural)]
pub enum TradeStatus {
    /// The buyer purchased; the seller has not answered yet.
    PendingSellerConfirm,
    /// Token rail: funds are held; delivery is awaited.
    Escrow,
    /// Fiat rail: the buyer's wire is awaited.
    AwaitingPayment,
    /// Fiat rail: the buyer reports the wire as sent.
    PaymentSent,
    /// Done; funds settled.
    Completed,
    /// Frozen until root adjudicates.
    Disputed,
    /// Undone; the buyer was made whole.
    Refunded,
}

/// Outcome of one diagnostic test.
#[derive(Clone, Copy, Debug, PartialEq, Eq, Structural)]
pub enum DiagTestResult {
    /// The test passed.
    Passed,
    /// The test failed.
    Failed,
    /// The test was skipped.
    Skipped,
}

/// A contract clause template.
#[derive(Clone, Copy, Debug, PartialEq, Eq, Structural)]
pub enum ClauseType {
    /// Sold free of debts.
    DebtFree,
    /// Ownership transfers when the wire arrives.
    PaymentTransfer,
    /// Factory reset before handover.
    FactoryReset,
    /// All accounts logged out.
    AccountLogout,
    /// Warranty papers transfer.
    WarrantyTransfer,
    /// No returns.
    NoReturn,
    /// Delivered undamaged.
    NoDamage,
    /// Original accessories and box included.
    OriginalAccessories,
    /// Free-text clause, stored as a hash.
    Custom,
}

/// One agreed clause: a template and the hash of its parameters.
#[derive(Clone, Copy, Debug, PartialEq, Eq)]
pub struct ContractClause {
    /// The template.
    pub clause_type: ClauseType,
    /// Hash of the clause's private parameters.
    pub params_hash: [u8; 32],
}

/// One recorded diagnostic test.
#[derive(Clone, Copy, Debug, PartialEq, Eq)]
pub struct DiagTestEntry {
    /// Hash of the test's identifier.
    pub test_id_hash: [u8; 32],
    /// Its outcome.
    pub result: DiagTestResult,
    /// Hash of its detail text.
    pub detail_hash: [u8; 32],
}

/// A device diagnostics report bound to a trade.
#[derive(Clone, Copy, Debug, PartialEq, Eq)]
pub struct DiagnosticReport {
    /// Who submitted it.
    pub submitter: AccountId,
    /// Hash of the device model name.
    pub device_model_hash: [u8; 32],
    /// Hash of the manufacturer name.
    pub device_manufacturer_hash: [u8; 32],
    /// Hash of the operating system name.
    pub os_hash: [u8; 32],
    /// How many tests ran.
    pub test_count: u32,
    /// How many passed.
    pub passed_count: u32,
    /// How many failed.
    pub failed_count: u32,
    /// Passed tests per hundred, rounded down.
    pub score: u8,
    /// Hash of the full off-chain report.
    pub report_hash: [u8; 32],
    /// Block the report arrived in.
    pub submitted_at: u32,
}

/// One piece of accepted dispute evidence.
#[derive(Clone, Copy, Debug, PartialEq, Eq)]
pub struct ProofRecord {
    /// The condition hash the proof authenticated.
    pub condition_hash: [u8; 32],
    /// Who submitted it.
    pub submitter: AccountId,
    /// Block it arrived in.
    pub block_number: u32,
}

/// A listing.
#[derive(Clone, Debug, PartialEq, Eq)]
pub struct Listing {
    /// The seller.
    pub seller: AccountId,
    /// Sale price in on-chain units; on the fiat rail it mirrors the bond.
    pub price: u128,
    /// The seller's reserved bond.
    pub bond: u128,
    /// Merkle root over the off-chain conditions.
    pub conditions_root: [u8; 32],
    /// Hash of the off-chain condition document's address, if given.
    pub ipfs_cid_hash: Option<[u8; 32]>,
    /// Hash of the device attestation, if given.
    pub device_attestation_hash: Option<[u8; 32]>,
    /// Whether payment outside the chain's token is accepted.
    pub accepts_external: bool,
    /// The clause templates the listing advertises.
    pub clause_types: Vec<ClauseType>,
    /// Fiat price in minor units; zero means a pure token trade.
    pub tl_price: u64,
    /// Hash of the seller's bank account identifier, for the fiat rail.
    pub seller_iban_hash: Option<[u8; 32]>,
    /// Lifecycle state.
    pub status: ListingStatus,
    /// Block the listing was created in.
    pub created_at: u32,
}

/// A trade.
#[derive(Clone, Copy, Debug, PartialEq, Eq)]
pub struct Trade {
    /// The listing being traded.
    pub listing_id: u64,
    /// The buyer.
    pub buyer: AccountId,
    /// The seller.
    pub seller: AccountId,
    /// Sale price in on-chain units.
    pub price: u128,
    /// The buyer's reserved bond.
    pub buyer_bond: u128,
    /// The seller's reserved bond.
    pub seller_bond: u128,
    /// Fiat price in minor units; zero means a pure token trade.
    pub tl_price: u64,
    /// Hash of the seller's bank account identifier.
    pub seller_iban_hash: Option<[u8; 32]>,
    /// Hash of the buyer's bank account identifier.
    pub buyer_iban_hash: Option<[u8; 32]>,
    /// The buyer's acceptance commitment.
    pub contract_hash: [u8; 32],
    /// Hash of the delivery-time attestation, once given.
    pub delivery_attestation_hash: Option<[u8; 32]>,
    /// The completion commitment, set by confirmed delivery alone.
    pub final_hash: Option<[u8; 32]>,
    /// Lifecycle state.
    pub status: TradeStatus,
    /// Block the trade was created in.
    pub created_at: u32,
}

/// Per-trade bookkeeping kept beside the trade itself.
#[derive(Clone, Debug, PartialEq, Eq)]
pub struct TradeAux {
    /// Accepted dispute evidence, in submission order.
    pub proofs: Vec<ProofRecord>,
    /// The diagnostics report, once one arrived.
    pub diagnostic_report: Option<DiagnosticReport>,
    /// The report's individual tests.
    pub diagnostic_tests: Vec<DiagTestEntry>,
    /// Whether a report has arrived; set once, never cleared.
    pub has_diagnostics: bool,
    /// The encrypted contract blob, if the seller stored one.
    pub encrypted_contract: Option<Vec<u8>>,
    /// Per-party encrypted key envelopes.
    pub encryption_keys: Vec<(AccountId, Vec<u8>)>,
    /// The agreed clauses, if the seller stored them.
    pub contract_clauses: Option<Vec<ContractClause>>,
}

/// Why a trade call was refused.
#[derive(Clone, Copy, Debug, PartialEq, Eq, Structural)]
pub enum Error {
    /// No listing under that id.
    ListingNotFound,
    /// No trade under that id.
    TradeNotFound,
    /// The caller's free balance cannot cover the amount.
    InsufficientBalance,
    /// The bond is below the minimum.
    InsufficientBond,
    /// The listing is not on sale.
    ListingNotActive,
    /// A seller may not buy their own listing.
    CannotBuyOwnListing,
    /// The caller is not a party this call is open to.
    NotAuthorized,
    /// The trade is already completed.
    TradeAlreadyCompleted,
    /// The trade is frozen by a dispute.
    TradeInDispute,
    /// The seller has too many open listings.
    TooManyListings,
    /// The trade or listing is not in a state this call applies to.
    InvalidStatus,
    /// The KOD-only phase forbids external payment.
    KodOnlyModeActive,
    /// Trading is paused.
    TradingIsPaused,
    /// The Merkle proof does not authenticate the condition.
    InvalidMerkleProof,
    /// The same proof was already submitted.
    ProofAlreadySubmitted,
    /// The device signature is invalid.
    InvalidDeviceSignature,
    /// The listing carries no device attestation.
    MissingDeviceAttestation,
    /// The device data exceeds its bound.
    DeviceDataTooLarge,
    /// The condition document address exceeds its bound.
    IpfsCidTooLong,
    /// The Merkle proof is longer than the accepted depth.
    MerkleProofTooDeep,
    /// More diagnostic tests than a report may carry.
    TooManyDiagnosticTests,
    /// A diagnostics report was already submitted.
    DiagnosticsAlreadySubmitted,
    /// A diagnostics report is required.
    DiagnosticsRequired,
    /// The trade is not waiting for the seller's answer.
    NotPendingSellerConfirm,
    /// The encrypted contract exceeds its bound.
    ContractDataTooLarge,
    /// A key envelope exceeds its bound.
    EncryptionKeyTooLarge,
    /// More clauses than a contract may carry.
    TooManyClauses,
    /// The fiat rail requires a bank account hash.
    IbanHashRequired,
    /// The fiat price must be positive.
    InvalidTlPrice,
    /// The trade is not awaiting the wire.
    NotAwaitingPayment,
    /// The trade is neither awaiting the wire nor marked sent.
    NotAwaitingOrPaymentSent,
    /// The exchange rate must be positive.
    InvalidRate,
    /// This call applies only to token-rail trades.
    NotKodTrade,
    /// This call applies only to fiat-rail trades.
    NotTlTrade,
}

/// What the trade pallet announced.
#[derive(Clone, Copy, Debug, PartialEq, Eq)]
pub enum Event {
    /// A listing was created.
    ListingCreated {
        /// Its id.
        listing_id: u64,
        /// Its seller.
        seller: AccountId,
        /// Its price.
        price: u128,
        /// Whether it accepts external payment.
        accepts_external: bool,
    },
    /// A listing was cancelled.
    ListingCancelled {
        /// Its id.
        listing_id: u64,
        /// Its seller.
        seller: AccountId,
    },
    /// A purchase opened a trade.
    Purchased {
        /// The new trade.
        trade_id: u64,
        /// The listing bought.
        listing_id: u64,
        /// The buyer.
        buyer: AccountId,
        /// The seller.
        seller: AccountId,
        /// The price.
        price: u128,
    },
    /// A trade completed and the price settled.
    TradeCompleted {
        /// The trade.
        trade_id: u64,
        /// The buyer.
        buyer: AccountId,
        /// The seller.
        seller: AccountId,
        /// The price.
        price: u128,
    },
    /// A party opened a dispute.
    DisputeOpened {
        /// The trade.
        trade_id: u64,
        /// Who opened it.
        opener: AccountId,
    },
    /// Root resolved a dispute.
    DisputeResolved {
        /// The trade.
        trade_id: u64,
        /// The winning party.
        winner: AccountId,
    },
    /// A buyer was refunded.
    Refunded {
        /// The trade.
        trade_id: u64,
        /// The buyer.
        buyer: AccountId,
        /// What the buyer received back or gained.
        amount: u128,
    },
    /// The KOD-only phase began.
    KodOnlyModeActivated {
        /// The block it began at.
        block_number: u32,
    },
    /// Root moved the KOD-only block.
    KodOnlyBlockChanged {
        /// The boundary until now.
        old_block: u32,
        /// The boundary from now on.
        new_block: u32,
    },
    /// Root paused or resumed trading.
    TradingPausedChanged {
        /// Whether trading is now paused.
        paused: bool,
    },
    /// A listing carries a device attestation.
    DeviceAttestationAdded {
        /// The listing.
        listing_id: u64,
        /// The attestation hash.
        attestation_hash: [u8; 32],
    },
    /// A delivery carried an attestation.
    DeliveryAttestationAdded {
        /// The trade.
        trade_id: u64,
        /// The attestation hash.
        attestation_hash: [u8; 32],
    },
    /// A Merkle proof was checked as dispute evidence.
    MerkleProofVerified {
        /// The trade.
        trade_id: u64,
        /// The condition the proof is about.
        condition_hash: [u8; 32],
        /// Whether it authenticated.
        verified: bool,
    },
    /// A condition proof was stored.
    ConditionProofSubmitted {
        /// The trade.
        trade_id: u64,
        /// Who submitted it.
        submitter: AccountId,
        /// The condition proven.
        condition_hash: [u8; 32],
    },
    /// A diagnostics report was stored.
    DiagnosticReportSubmitted {
        /// The trade.
        trade_id: u64,
        /// Who submitted it.
        submitter: AccountId,
        /// Hash of the device model.
        device_model_hash: [u8; 32],
        /// The score.
        score: u8,
        /// Tests passed.
        passed_count: u32,
        /// Tests failed.
        failed_count: u32,
        /// Hash of the full report.
        report_hash: [u8; 32],
    },
    /// One diagnostic test was recorded.
    DiagnosticTestRecorded {
        /// The trade.
        trade_id: u64,
        /// The test's position.
        test_index: u32,
        /// Hash of the test's identifier.
        test_id_hash: [u8; 32],
        /// Its outcome.
        result: DiagTestResult,
    },
    /// The seller accepted the trade.
    TradeAccepted {
        /// The trade.
        trade_id: u64,
        /// The seller.
        seller: AccountId,
        /// The buyer.
        buyer: AccountId,
        /// The price.
        price: u128,
        /// The block of acceptance.
        accepted_at: u32,
    },
    /// The seller rejected the trade.
    TradeRejected {
        /// The trade.
        trade_id: u64,
        /// The seller.
        seller: AccountId,
        /// The buyer.
        buyer: AccountId,
        /// Hash of the seller's reason, if given.
        reason_hash: Option<[u8; 32]>,
    },
    /// An encrypted contract was stored.
    ContractEncrypted {
        /// The trade.
        trade_id: u64,
        /// The blob's size in bytes.
        contract_size: u32,
        /// How many key envelopes came with it.
        parties_count: u32,
    },
    /// Contract clauses were stored.
    ContractClausesAdded {
        /// The trade.
        trade_id: u64,
        /// How many clauses.
        clause_count: u32,
    },
    /// Root changed the exchange rate.
    KodTlRateUpdated {
        /// The rate until now.
        old_rate: u64,
        /// The rate from now on.
        new_rate: u64,
    },
    /// The buyer reports the wire as sent.
    PaymentMarkedAsSent {
        /// The trade.
        trade_id: u64,
        /// The buyer.
        buyer: AccountId,
    },
    /// The seller confirmed the wire arrived; the trade completed.
    TlPaymentConfirmed {
        /// The trade.
        trade_id: u64,
        /// The seller.
        seller: AccountId,
        /// The fiat price settled off chain.
        tl_price: u64,
    },
}

/// The trade pallet's on-chain state.
pub struct Pallet {
    /// Fixed configuration.
    pub config: Config,
    /// All listings; the id is the index.
    pub listings: Vec<Listing>,
    /// All trades; the id is the index.
    pub trades: Vec<Trade>,
    /// Per-trade bookkeeping, index-aligned with `trades`.
    pub trade_aux: Vec<TradeAux>,
    /// Open listings per seller.
    pub user_listing_count: Vec<(AccountId, u32)>,
    /// Root's override of the KOD-only boundary.
    pub kod_only_block_override: Option<u32>,
    /// Minor fiat units per whole token.
    pub kod_tl_rate: u64,
    /// Whether trading is paused.
    pub trading_paused: bool,
    /// Completed trades, ever.
    pub total_trades_completed: u64,
    /// Settled volume in on-chain units, ever.
    pub total_volume: u128,
    /// The events announced so far.
    pub events: Vec<Event>,
}

/// The escrow a trade holds on its buyer: the bond alone on the fiat
/// rail, price plus bond on the token rail.
pub open spec fn spec_escrow_amount(t: Trade) -> int {
    if t.tl_price > 0 {
        t.buyer_bond as int
    } else {
        t.price + t.buyer_bond
    }
}

/// A trade in one of these states holds funds.
pub open spec fn spec_trade_live(s: TradeStatus) -> bool {
    s == TradeStatus::PendingSellerConfirm || s == TradeStatus::Escrow
        || s == TradeStatus::AwaitingPayment || s == TradeStatus::PaymentSent
        || s == TradeStatus::Disputed
}

/// The open-listing count of `a` recorded in `s` (first match, else 0).
pub open spec fn spec_ulc(s: Seq<(AccountId, u32)>, a: AccountId) -> u32
    decreases s.len(),
{
    if s.len() == 0 {
        0u32
    } else if s.first().0 == a {
        s.first().1
    } else {
        spec_ulc(s.drop_first(), a)
    }
}

/// The bond derived from a fiat price: a tenth of its token equivalent at
/// rate `rate` (a zero rate counts as one).
pub open spec fn spec_bond_from_tl(tl_price_kurus: u64, rate: u64) -> u128 {
    let r = if rate == 0 {
        1
    } else {
        rate as int
    };
    (((tl_price_kurus as int / r) * 10) / 100) as u128
}

impl Pallet {
    /// A fresh pallet with no listings, no trades, default rate.
    pub fn new(config: Config) -> (r: Pallet)
        ensures
            r.config == config,
            r.listings@.len() == 0,
            r.trades@.len() == 0,
            r.trade_aux@.len() == 0,
            r.user_listing_count@.len() == 0,
            r.kod_only_block_override is None,
            r.kod_tl_rate == 100,
            !r.trading_paused,
            r.total_trades_completed == 0,
            r.total_volume == 0,
            r.events@.len() == 0,
    {
        Pallet {
            config,
            listings: Vec::new(),
            trades: Vec::new(),
            trade_aux: Vec::new(),
            user_listing_count: Vec::new(),
            kod_only_block_override: None,
            kod_tl_rate: DefaultKodTlRate(),
            trading_paused: false,
            total_trades_completed: 0,
            total_volume: 0,
            events: Vec::new(),
        }
    }

    /// The next listing id: the table's length.
    pub fn next_listing_id(&self) -> (r: u64)
        requires
            self.listings@.len() <= u64::MAX,
        ensures
            r == self.listings@.len(),
    {
        self.listings.len() as u64
    }

    /// The next trade id: the table's length.
    pub fn next_trade_id(&self) -> (r: u64)
        requires
            self.trades@.len() <= u64::MAX,
        ensures
            r == self.trades@.len(),
    {
        self.trades.len() as u64
    }

    /// The KOD-only boundary in force: root's override, or the default.
    pub open spec fn spec_kod_only_block(self) -> u32 {
        match self.kod_only_block_override {
            Some(b) => b,
            None => self.config.kod_only_block,
        }
    }

    /// Read the KOD-only boundary in force.
    pub fn get_kod_only_block(&self) -> (r: u32)
        ensures
            r == self.spec_kod_only_block(),
    {
        match self.kod_only_block_override {
            Some(b) => b,
            None => self.config.kod_only_block,
        }
    }

    /// Whether the KOD-only phase is active at block `now`.
    pub open spec fn spec_kod_only_active(self, now: u32) -> bool {
        now >= self.spec_kod_only_block()
    }

    /// Check whether the KOD-only phase is active at block `now`.
    pub fn is_kod_only_active(&self, now: u32) -> (r: bool)
        ensures
            r == self.spec_kod_only_active(now),
    {
        now >= self.get_kod_only_block()
    }

    /// The bond a fiat-rail listing must reserve, at the current rate.
    pub fn calculate_bond_from_tl(&self, tl_price_kurus: u64) -> (r: u128)
        ensures
            r == spec_bond_from_tl(tl_price_kurus, self.kod_tl_rate),
    {
        let rate: u64 = if self.kod_tl_rate == 0 {
            1
        } else {
            self.kod_tl_rate
        };
        let tl_as_kod: u64 = tl_price_kurus / rate;
        let bond: u128 = (tl_as_kod as u128) * 10 / 100;
        bond
    }

    /// Read a seller's open-listing count.
    pub fn user_listing_count_of(&self, a: AccountId) -> (r: u32)
        ensures
            r == spec_ulc(self.user_listing_count@, a),
    {
        let n = self.user_listing_count.len();
        let mut i: usize = 0;
        while i < n
            invariant
                i <= n,
                n == self.user_listing_count@.len(),
                forall|j: int| 0 <= j < i ==> self.user_listing_count@[j].0 != a,
            decreases n - i,
        {
            if self.user_listing_count[i].0 == a {
                proof {
                    lemma_ulc_first(self.user_listing_count@, i as int);
                }
                return self.user_listing_count[i].1;
            }
            i = i + 1;
        }
        proof {
            lemma_ulc_absent(self.user_listing_count@, a);
        }
        0
    }

    /// Write a seller's open-listing count.
    fn set_user_listing_count(&mut self, a: AccountId, v: u32)
        ensures
            spec_ulc(final(self).user_listing_count@, a) == v,
            forall|b: AccountId| b != a ==> spec_ulc(final(self).user_listing_count@, b)
                == spec_ulc(old(self).user_listing_count@, b),
            final(self).config == old(self).config,
            final(self).listings@ == old(self).listings@,
            final(self).trades@ == old(self).trades@,
            final(self).trade_aux@ == old(self).trade_aux@,
            final(self).kod_only_block_override == old(self).kod_only_block_override,
            final(self).kod_tl_rate == old(self).kod_tl_rate,
            final(self).trading_paused == old(self).trading_paused,
            final(self).total_trades_completed == old(self).total_trades_completed,
            final(self).total_volume == old(self).total_volume,
            final(self).events@ == old(self).events@,
    {
        let ghost s0 = self.user_listing_count@;
        let n = self.user_listing_count.len();
        let mut i: usize = 0;
        while i < n
            invariant
                i <= n,
                n == self.user_listing_count@.len(),
                *self == *old(self),
                self.user_listing_count@ == s0,
                forall|j: int| 0 <= j < i ==> s0[j].0 != a,
            decreases n - i,
        {
            if self.user_listing_count[i].0 == a {
                self.user_listing_count[i] = (a, v);
                proof {
                    assert forall|b: AccountId| #[trigger] spec_ulc(
                        self.user_listing_count@,
                        b,
                    ) == if b == a {
                        v
                    } else {
                        spec_ulc(s0, b)
                    } by {
                        lemma_ulc_update_first(s0, i as int, v, b);
                    }
                }
                return;
            }
            i = i + 1;
        }
        self.user_listing_count.push((a, v));
        proof {
            assert forall|b: AccountId| #[trigger] spec_ulc(
                self.user_listing_count@,
                b,
            ) == if b == a {
                v
            } else {
                spec_ulc(s0, b)
            } by {
                lemma_ulc_push(s0, a, v, b);
            }
        }
    }

    /// Root only — the runtime's dispatch checks the signer against the
    /// sudo key before this is reached. Move the KOD-only boundary.
    pub fn set_kod_only_block(&mut self, new_block: u32)
        ensures
            final(self).kod_only_block_override == Some(new_block),
            final(self).events@ == old(self).events@.push(Event::KodOnlyBlockChanged {
                old_block: old(self).spec_kod_only_block(),
                new_block,
            }),
            spec_same_but_kod_block_events(*final(self), *old(self)),
    {
        let old_block = self.get_kod_only_block();
        self.kod_only_block_override = Some(new_block);
        self.events.push(Event::KodOnlyBlockChanged { old_block, new_block });
    }

    /// Root only, checked at the runtime's dispatch: pause or resume
    /// trading.
    pub fn set_trading_paused(&mut self, paused: bool)
        ensures
            final(self).trading_paused == paused,
            final(self).events@ == old(self).events@.push(Event::TradingPausedChanged {
                paused,
            }),
            spec_same_but_paused_events(*final(self), *old(self)),
    {
        self.trading_paused = paused;
        self.events.push(Event::TradingPausedChanged { paused });
    }

    /// Root only, checked at the runtime's dispatch: change the exchange
    /// rate. A zero rate is refused.
    pub fn set_kod_tl_rate(&mut self, rate_kurus: u64) -> (r: Result<(), Error>)
        ensures
            rate_kurus == 0 ==> {
                &&& r == Result::<(), Error>::Err(Error::InvalidRate)
                &&& *final(self) == *old(self)
            },
            rate_kurus > 0 ==> {
                &&& r is Ok
                &&& final(self).kod_tl_rate == rate_kurus
                &&& final(self).events@ == old(self).events@.push(Event::KodTlRateUpdated {
                    old_rate: old(self).kod_tl_rate,
                    new_rate: rate_kurus,
                })
                &&& spec_same_but_rate_events(*final(self), *old(self))
            },
    {
        if rate_kurus == 0 {
            return Err(Error::InvalidRate);
        }
        let old_rate = self.kod_tl_rate;
        self.kod_tl_rate = rate_kurus;
        self.events.push(Event::KodTlRateUpdated { old_rate, new_rate: rate_kurus });
        Ok(())
    }

    /// Start-of-block hook: announce the KOD-only phase on its first
    /// block.
    pub fn on_initialize(&mut self, n: u32)
        ensures
            n == old(self).spec_kod_only_block() ==> final(self).events@ == old(self).events@
                .push(Event::KodOnlyModeActivated { block_number: n }),
            n != old(self).spec_kod_only_block() ==> final(self).events@ == old(self).events@,
            spec_same_but_events(*final(self), *old(self)),
    {
        let kod_only_block = self.get_kod_only_block();
        if n == kod_only_block {
            self.events.push(Event::KodOnlyModeActivated { block_number: n });
        }
    }
}

/// The exact outcome of `cancel_listing`: only the seller may cancel,
/// and only a listing still on sale.
pub open spec fn spec_cancel_listing_result(p: Pallet, who: AccountId, listing_id: u64) -> Result<
    (),
    Error,
> {
    if listing_id >= p.listings@.len() {
        Err(Error::ListingNotFound)
    } else if p.listings@[listing_id as int].seller != who {
        Err(Error::NotAuthorized)
    } else if p.listings@[listing_id as int].status != ListingStatus::Active {
        Err(Error::InvalidStatus)
    } else {
        Ok(())
    }
}

impl Pallet {
    /// Cancel a listing: only its seller, only while it is on sale. The
    /// seller's bond is released and the open-listing count drops.
    pub fn cancel_listing(&mut self, ledger: &mut Ledger, who: AccountId, listing_id: u64) -> (r:
        Result<(), Error>)
        requires
            old(ledger).wf(),
        ensures
            final(ledger).wf(),
            spec_lifecycle_inv(*old(self)) ==> spec_lifecycle_inv(*final(self)),
            spec_lifecycle_inv(*old(self)) && spec_funds_inv(*old(self), *old(ledger))
                ==> spec_funds_inv(*final(self), *final(ledger)),
            forall|k: int| 0 <= k < old(self).trade_aux@.len() && (#[trigger] old(
                self,
            ).trade_aux@[k]).has_diagnostics ==> final(self).trade_aux@[k].has_diagnostics,
            r == spec_cancel_listing_result(*old(self), who, listing_id),
            r is Err ==> *final(self) == *old(self) && *final(ledger) == *old(ledger),
            r is Ok ==> {
                let l = old(self).listings@[listing_id as int];
                &&& final(self).listings@ == old(self).listings@.update(
                    listing_id as int,
                    Listing { status: ListingStatus::Cancelled, ..l },
                )
                &&& final(ledger).free_of(who) == old(ledger).free_of(who) + spec_min_u128(
                    l.bond,
                    old(ledger).reserved_of(who),
                )
                &&& final(ledger).reserved_of(who) == old(ledger).reserved_of(who)
                    - spec_min_u128(l.bond, old(ledger).reserved_of(who))
                &&& final(ledger).same_except(*old(ledger), who)
                &&& spec_ulc(final(self).user_listing_count@, who) == spec_sat_sub_u32(
                    spec_ulc(old(self).user_listing_count@, who),
                    1,
                )
                &&& forall|b: AccountId| b != who ==> spec_ulc(
                    final(self).user_listing_count@,
                    b,
                ) == spec_ulc(old(self).user_listing_count@, b)
                &&& final(self).events@ == old(self).events@.push(Event::ListingCancelled {
                    listing_id,
                    seller: who,
                })
                &&& final(self).trades@ == old(self).trades@
                &&& final(self).trade_aux@ == old(self).trade_aux@
                &&& spec_same_admin_stats(*final(self), *old(self))
            },
    {
        if listing_id >= self.listings.len() as u64 {
            return Err(Error::ListingNotFound);
        }
        let idx = listing_id as usize;
        let seller = self.listings[idx].seller;
        let bond = self.listings[idx].bond;
        if !(seller == who) {
            return Err(Error::NotAuthorized);
        }
        if !(matches!(self.listings[idx].status, ListingStatus::Active)) {
            return Err(Error::InvalidStatus);
        }
        ledger.unreserve(who, bond);
        let l = &mut self.listings[idx];
        l.status = ListingStatus::Cancelled;
        let count = self.user_listing_count_of(who);
        let new_count = if count > 0 {
            count - 1
        } else {
            0
        };
        self.set_user_listing_count(who, new_count);
        self.events.push(Event::ListingCancelled { listing_id, seller: who });
        proof {
            if spec_lifecycle_inv(*old(self)) {
                lemma_lifecycle_listing_nonsold_update(*old(self), *self, listing_id as int);
            }
            if spec_funds_inv(*old(self), *old(ledger)) {
                assert forall|a: AccountId| #![auto] ledger.reserved_of(a)
                    == spec_obligations(*self, a) by {
                    lemma_sum_listing_update(
                        old(self).listings@,
                        listing_id as int,
                        self.listings@[listing_id as int],
                        a,
                    );
                    assert(old(ledger).reserved_of(a) == spec_obligations(*old(self), a));
                    if a == who {
                        lemma_listing_obl_le_sum(old(self).listings@, listing_id as int, who);
                        lemma_sum_trade_nonneg(old(self).trades@, who);
                    } else {
                        assert(ledger.same_account(*old(ledger), a));
                    }
                }
            }
        }
        Ok(())
    }
}

/// An optional blob, seen as an optional byte string.
pub open spec fn spec_opt_bytes(o: Option<Vec<u8>>) -> Option<Seq<u8>> {
    match o {
        Some(v) => Some(v@),
        None => None,
    }
}

/// The exact outcome of `open_dispute`: either party, while funds are
/// held and no dispute is open yet.
pub open spec fn spec_open_dispute_result(p: Pallet, who: AccountId, trade_id: u64) -> Result<
    (),
    Error,
> {
    if trade_id >= p.trades@.len() {
        Err(Error::TradeNotFound)
    } else if p.trades@[trade_id as int].buyer != who && p.trades@[trade_id as int].seller
        != who {
        Err(Error::NotAuthorized)
    } else if p.trades@[trade_id as int].status != TradeStatus::Escrow && p.trades@[
        trade_id as int
    ].status != TradeStatus::AwaitingPayment && p.trades@[trade_id as int].status
        != TradeStatus::PaymentSent {
        Err(Error::InvalidStatus)
    } else {
        Ok(())
    }
}

/// The exact outcome of `mark_payment_sent`: the buyer of a fiat-rail
/// trade that awaits the wire.
pub open spec fn spec_mark_payment_sent_result(p: Pallet, who: AccountId, trade_id: u64) -> Result<
    (),
    Error,
> {
    if trade_id >= p.trades@.len() {
        Err(Error::TradeNotFound)
    } else if p.trades@[trade_id as int].buyer != who {
        Err(Error::NotAuthorized)
    } else if p.trades@[trade_id as int].tl_price == 0 {
        Err(Error::NotTlTrade)
    } else if p.trades@[trade_id as int].status != TradeStatus::AwaitingPayment {
        Err(Error::NotAwaitingPayment)
    } else {
        Ok(())
    }
}

/// The exact outcome of `accept_trade`: stored payloads must fit their
/// bounds, and only the seller of a trade awaiting confirmation may
/// accept.
pub open spec fn spec_accept_trade_result(
    p: Pallet,
    who: AccountId,
    trade_id: u64,
    encrypted_contract: Option<Seq<u8>>,
    buyer_enc_key: Option<Seq<u8>>,
    seller_enc_key: Option<Seq<u8>>,
    clauses_len: Option<int>,
) -> Result<(), Error> {
    if encrypted_contract matches Some(c) && c.len() > MAX_CONTRACT_BYTES {
        Err(Error::ContractDataTooLarge)
    } else if buyer_enc_key matches Some(k) && k.len() > MAX_KEY_BYTES {
        Err(Error::EncryptionKeyTooLarge)
    } else if seller_enc_key matches Some(k) && k.len() > MAX_KEY_BYTES {
        Err(Error::EncryptionKeyTooLarge)
    } else if clauses_len matches Some(n) && n > MAX_CONTRACT_CLAUSES {
        Err(Error::TooManyClauses)
    } else if trade_id >= p.trades@.len() {
        Err(Error::TradeNotFound)
    } else if p.trades@[trade_id as int].seller != who {
        Err(Error::NotAuthorized)
    } else if p.trades@[trade_id as int].status != TradeStatus::PendingSellerConfirm {
        Err(Error::NotPendingSellerConfirm)
    } else {
        Ok(())
    }
}

impl Pallet {
    /// Open a dispute: either party, from escrow or either fiat-rail
    /// waiting state. The trade freezes until root resolves it.
    pub fn open_dispute(&mut self, who: AccountId, trade_id: u64) -> (r: Result<(), Error>)
        ensures
            spec_lifecycle_inv(*old(self)) ==> spec_lifecycle_inv(*final(self)),
            forall|a: AccountId| #![auto] spec_obligations(*final(self), a) == spec_obligations(
                *old(self),
                a,
            ),
            forall|k: int| 0 <= k < old(self).trade_aux@.len() && (#[trigger] old(
                self,
            ).trade_aux@[k]).has_diagnostics ==> final(self).trade_aux@[k].has_diagnostics,
            r == spec_open_dispute_result(*old(self), who, trade_id),
            r is Err ==> *final(self) == *old(self),
            r is Ok ==> {
                let t = old(self).trades@[trade_id as int];
                &&& final(self).trades@ == old(self).trades@.update(
                    trade_id as int,
                    Trade { status: TradeStatus::Disputed, ..t },
                )
                &&& final(self).events@ == old(self).events@.push(Event::DisputeOpened {
                    trade_id,
                    opener: who,
                })
                &&& final(self).listings@ == old(self).listings@
                &&& final(self).trade_aux@ == old(self).trade_aux@
                &&& final(self).user_listing_count@ == old(self).user_listing_count@
                &&& spec_same_admin_stats(*final(self), *old(self))
            },
    {
        if trade_id >= self.trades.len() as u64 {
            return Err(Error::TradeNotFound);
        }
        let idx = trade_id as usize;
        let buyer = self.trades[idx].buyer;
        let seller = self.trades[idx].seller;
        if !(buyer == who) && !(seller == who) {
            return Err(Error::NotAuthorized);
        }
        let ok_status = matches!(
            self.trades[idx].status,
            TradeStatus::Escrow | TradeStatus::AwaitingPayment | TradeStatus::PaymentSent
        );
        if !ok_status {
            return Err(Error::InvalidStatus);
        }
        let t = &mut self.trades[idx];
        t.status = TradeStatus::Disputed;
        self.events.push(Event::DisputeOpened { trade_id, opener: who });
        proof {
            if spec_lifecycle_inv(*old(self)) {
                lemma_lifecycle_live_step(*old(self), *self, trade_id as int);
            }
            assert forall|a: AccountId| #![auto] spec_obligations(*self, a)
                == spec_obligations(*old(self), a) by {
                lemma_sum_trade_update(
                    old(self).trades@,
                    trade_id as int,
                    self.trades@[trade_id as int],
                    a,
                );
            }
        }
        Ok(())
    }

    /// The buyer reports the fiat wire as sent.
    pub fn mark_payment_sent(&mut self, who: AccountId, trade_id: u64) -> (r: Result<(), Error>)
        ensures
            spec_lifecycle_inv(*old(self)) ==> spec_lifecycle_inv(*final(self)),
            forall|a: AccountId| #![auto] spec_obligations(*final(self), a) == spec_obligations(
                *old(self),
                a,
            ),
            forall|k: int| 0 <= k < old(self).trade_aux@.len() && (#[trigger] old(
                self,
            ).trade_aux@[k]).has_diagnostics ==> final(self).trade_aux@[k].has_diagnostics,
            r == spec_mark_payment_sent_result(*old(self), who, trade_id),
            r is Err ==> *final(self) == *old(self),
            r is Ok ==> {
                let t = old(self).trades@[trade_id as int];
                &&& final(self).trades@ == old(self).trades@.update(
                    trade_id as int,
                    Trade { status: TradeStatus::PaymentSent, ..t },
                )
                &&& final(self).events@ == old(self).events@.push(Event::PaymentMarkedAsSent {
                    trade_id,
                    buyer: who,
                })
                &&& final(self).listings@ == old(self).listings@
                &&& final(self).trade_aux@ == old(self).trade_aux@
                &&& final(self).user_listing_count@ == old(self).user_listing_count@
                &&& spec_same_admin_stats(*final(self), *old(self))
            },
    {
        if trade_id >= self.trades.len() as u64 {
            return Err(Error::TradeNotFound);
        }
        let idx = trade_id as usize;
        if !(self.trades[idx].buyer == who) {
            return Err(Error::NotAuthorized);
        }
        if self.trades[idx].tl_price == 0 {
            return Err(Error::NotTlTrade);
        }
        if !(matches!(self.trades[idx].status, TradeStatus::AwaitingPayment)) {
            return Err(Error::NotAwaitingPayment);
        }
        let t = &mut self.trades[idx];
        t.status = TradeStatus::PaymentSent;
        self.events.push(Event::PaymentMarkedAsSent { trade_id, buyer: who });
        proof {
            if spec_lifecycle_inv(*old(self)) {
                lemma_lifecycle_live_step(*old(self), *self, trade_id as int);
            }
            assert forall|a: AccountId| #![auto] spec_obligations(*self, a)
                == spec_obligations(*old(self), a) by {
                lemma_sum_trade_update(
                    old(self).trades@,
                    trade_id as int,
                    self.trades@[trade_id as int],
                    a,
                );
            }
        }
        Ok(())
    }

    /// The seller accepts a pending trade. An optional encrypted contract
    /// blob and per-party key envelopes, and optional agreed clauses, are
    /// stored untouched; the trade moves to escrow on the token rail or
    /// to awaiting payment on the fiat rail.
    pub fn accept_trade(
        &mut self,
        who: AccountId,
        trade_id: u64,
        encrypted_contract: Option<Vec<u8>>,
        buyer_enc_key: Option<Vec<u8>>,
        seller_enc_key: Option<Vec<u8>>,
        clauses: Option<Vec<ContractClause>>,
        now: u32,
    ) -> (r: Result<(), Error>)
        requires
            old(self).trades@.len() == old(self).trade_aux@.len(),
        ensures
            final(self).trades@.len() == final(self).trade_aux@.len(),
            spec_lifecycle_inv(*old(self)) ==> spec_lifecycle_inv(*final(self)),
            forall|a: AccountId| #![auto] spec_obligations(*final(self), a) == spec_obligations(
                *old(self),
                a,
            ),
            forall|k: int| 0 <= k < old(self).trade_aux@.len() && (#[trigger] old(
                self,
            ).trade_aux@[k]).has_diagnostics ==> final(self).trade_aux@[k].has_diagnostics,
            r == spec_accept_trade_result(
                *old(self),
                who,
                trade_id,
                spec_opt_bytes(encrypted_contract),
                spec_opt_bytes(buyer_enc_key),
                spec_opt_bytes(seller_enc_key),
                match clauses {
                    Some(c) => Some(c@.len() as int),
                    None => None,
                },
            ),
            r is Err ==> *final(self) == *old(self),
            r is Ok ==> {
                let t = old(self).trades@[trade_id as int];
                let a0 = old(self).trade_aux@[trade_id as int];
                let a1 = final(self).trade_aux@[trade_id as int];
                let new_status = if t.tl_price > 0 {
                    TradeStatus::AwaitingPayment
                } else {
                    TradeStatus::Escrow
                };
                &&& final(self).trades@ == old(self).trades@.update(
                    trade_id as int,
                    Trade { status: new_status, ..t },
                )
                &&& final(self).trade_aux@ == old(self).trade_aux@.update(trade_id as int, a1)
                &&& a1.proofs@ == a0.proofs@
                &&& a1.diagnostic_report == a0.diagnostic_report
                &&& a1.diagnostic_tests@ == a0.diagnostic_tests@
                &&& a1.has_diagnostics == a0.has_diagnostics
                &&& a1.contract_clauses == (if clauses is Some {
                    clauses
                } else {
                    a0.contract_clauses
                })
                &&& encrypted_contract is Some ==> {
                    &&& a1.encrypted_contract == encrypted_contract
                    &&& a1.encryption_keys@ == spec_accept_keys(
                        a0.encryption_keys@,
                        t.buyer,
                        who,
                        buyer_enc_key,
                        seller_enc_key,
                    )
                }
                &&& encrypted_contract is None ==> {
                    &&& a1.encrypted_contract == a0.encrypted_contract
                    &&& a1.encryption_keys@ == a0.encryption_keys@
                }
                &&& final(self).events@ == spec_accept_events(
                    old(self).events@,
                    t,
                    trade_id,
                    who,
                    spec_opt_bytes(encrypted_contract),
                    buyer_enc_key is Some,
                    seller_enc_key is Some,
                    match clauses {
                        Some(c) => Some(c@.len() as int),
                        None => None,
                    },
                    now,
                )
                &&& final(self).listings@ == old(self).listings@
                &&& final(self).user_listing_count@ == old(self).user_listing_count@
                &&& spec_same_admin_stats(*final(self), *old(self))
            },
    {
        match &encrypted_contract {
            Some(c) => {
                if c.len() > MAX_CONTRACT_BYTES as usize {
                    return Err(Error::ContractDataTooLarge);
                }
            },
            None => {},
        }
        match &buyer_enc_key {
            Some(k) => {
                if k.len() > MAX_KEY_BYTES as usize {
                    return Err(Error::EncryptionKeyTooLarge);
                }
            },
            None => {},
        }
        match &seller_enc_key {
            Some(k) => {
                if k.len() > MAX_KEY_BYTES as usize {
                    return Err(Error::EncryptionKeyTooLarge);
                }
            },
            None => {},
        }
        match &clauses {
            Some(c) => {
                if c.len() > MAX_CONTRACT_CLAUSES as usize {
                    return Err(Error::TooManyClauses);
                }
            },
            None => {},
        }
        if trade_id >= self.trades.len() as u64 {
            return Err(Error::TradeNotFound);
        }
        let idx = trade_id as usize;
        if !(self.trades[idx].seller == who) {
            return Err(Error::NotAuthorized);
        }
        if !(matches!(self.trades[idx].status, TradeStatus::PendingSellerConfirm)) {
            return Err(Error::NotPendingSellerConfirm);
        }
        let buyer = self.trades[idx].buyer;
        let price = self.trades[idx].price;
        let tl_price = self.trades[idx].tl_price;

        let mut enc_event: Option<Event> = None;
        match encrypted_contract {
            Some(blob) => {
                let contract_size = blob.len() as u32;
                let mut parties_count: u32 = 0;
                let aux = &mut self.trade_aux[idx];
                aux.encrypted_contract = Some(blob);
                match buyer_enc_key {
                    Some(bk) => {
                        aux.encryption_keys.push((buyer, bk));
                        parties_count = parties_count + 1;
                    },
                    None => {},
                }
                match seller_enc_key {
                    Some(sk) => {
                        aux.encryption_keys.push((who, sk));
                        parties_count = parties_count + 1;
                    },
                    None => {},
                }
                enc_event = Some(Event::ContractEncrypted {
                    trade_id,
                    contract_size,
                    parties_count,
                });
            },
            None => {},
        }
        match enc_event {
            Some(e) => self.events.push(e),
            None => {},
        }
        let mut clause_event: Option<Event> = None;
        match clauses {
            Some(cl) => {
                let clause_count = cl.len() as u32;
                let aux = &mut self.trade_aux[idx];
                aux.contract_clauses = Some(cl);
                clause_event = Some(Event::ContractClausesAdded { trade_id, clause_count });
            },
            None => {},
        }
        match clause_event {
            Some(e) => self.events.push(e),
            None => {},
        }
        let t = &mut self.trades[idx];
        if tl_price > 0 {
            t.status = TradeStatus::AwaitingPayment;
        } else {
            t.status = TradeStatus::Escrow;
        }
        self.events.push(Event::TradeAccepted {
            trade_id,
            seller: who,
            buyer,
            price,
            accepted_at: now,
        });
        proof {
            if spec_lifecycle_inv(*old(self)) {
                assert forall|k: int| 0 <= k < old(self).trade_aux@.len() implies
                    spec_report_hash_opt(#[trigger] self.trade_aux@[k])
                    == spec_report_hash_opt(old(self).trade_aux@[k]) by {}
                lemma_lifecycle_live_step(*old(self), *self, trade_id as int);
            }
            assert forall|a: AccountId| #![auto] spec_obligations(*self, a)
                == spec_obligations(*old(self), a) by {
                lemma_sum_trade_update(
                    old(self).trades@,
                    trade_id as int,
                    self.trades@[trade_id as int],
                    a,
                );
            }
        }
        Ok(())
    }
}

/// The key envelopes after an acceptance that stored a contract: the
/// buyer's envelope, then the seller's, each only if it was given.
pub open spec fn spec_accept_keys(
    keys: Seq<(AccountId, Vec<u8>)>,
    buyer: AccountId,
    seller: AccountId,
    buyer_enc_key: Option<Vec<u8>>,
    seller_enc_key: Option<Vec<u8>>,
) -> Seq<(AccountId, Vec<u8>)> {
    let k1 = match buyer_enc_key {
        Some(bk) => keys.push((buyer, bk)),
        None => keys,
    };
    match seller_enc_key {
        Some(sk) => k1.push((seller, sk)),
        None => k1,
    }
}

/// The events an acceptance announces, in order: the stored contract if
/// any, the stored clauses if any, then the acceptance itself.
pub open spec fn spec_accept_events(
    events: Seq<Event>,
    t: Trade,
    trade_id: u64,
    who: AccountId,
    encrypted_contract: Option<Seq<u8>>,
    has_buyer_key: bool,
    has_seller_key: bool,
    clauses_len: Option<int>,
    now: u32,
) -> Seq<Event> {
    let e1 = match encrypted_contract {
        Some(c) => events.push(
            Event::ContractEncrypted {
                trade_id,
                contract_size: c.len() as u32,
                parties_count: ((if has_buyer_key {
                    1int
                } else {
                    0int
                }) + (if has_seller_key {
                    1int
                } else {
                    0int
                })) as u32,
            },
        ),
        None => events,
    };
    let e2 = match clauses_len {
        Some(n) => e1.push(Event::ContractClausesAdded {
            trade_id,
            clause_count: n as u32,
        }),
        None => e1,
    };
    e2.push(Event::TradeAccepted {
        trade_id,
        seller: who,
        buyer: t.buyer,
        price: t.price,
        accepted_at: now,
    })
}

/// The bond a new listing actually reserves: derived from the fiat price
/// on the fiat rail, the caller's own bond on the token rail.
pub open spec fn spec_effective_bond(p: Pallet, bond: u128, tl_price: u64) -> u128 {
    if tl_price > 0 {
        spec_bond_from_tl(tl_price, p.kod_tl_rate)
    } else {
        bond
    }
}

/// The exact outcome of `create_listing`, in the order the checks run:
/// the clause list must fit, trading must be open, the KOD-only phase
/// forbids external payment, the fiat rail needs a bank account hash,
/// the bond must reach the minimum, the seller must have room for one
/// more listing and funds for the bond.
pub open spec fn spec_create_listing_result(
    p: Pallet,
    l: Ledger,
    who: AccountId,
    bond: u128,
    accepts_external: bool,
    clauses_len: int,
    tl_price: u64,
    seller_iban_hash: Option<[u8; 32]>,
    now: u32,
) -> Result<(), Error> {
    if clauses_len > MAX_CONTRACT_CLAUSES {
        Err(Error::TooManyClauses)
    } else if p.trading_paused {
        Err(Error::TradingIsPaused)
    } else if p.spec_kod_only_active(now) && accepts_external {
        Err(Error::KodOnlyModeActive)
    } else if tl_price > 0 && seller_iban_hash is None {
        Err(Error::IbanHashRequired)
    } else if spec_effective_bond(p, bond, tl_price) < p.config.min_bond {
        Err(Error::InsufficientBond)
    } else if spec_ulc(p.user_listing_count@, who) >= p.config.max_listings_per_user {
        Err(Error::TooManyListings)
    } else if l.free_of(who) < spec_effective_bond(p, bond, tl_price) {
        Err(Error::InsufficientBalance)
    } else {
        Ok(())
    }
}

/// The exact outcome of `purchase`, in the order the checks run: trading
/// must be open, the listing must exist and be on sale, the KOD-only
/// phase forbids externally payable listings, a seller may not buy their
/// own listing, the fiat rail needs the buyer's bank account hash, and
/// the buyer must have the whole escrow free.
pub open spec fn spec_purchase_result(
    p: Pallet,
    l: Ledger,
    who: AccountId,
    listing_id: u64,
    buyer_bond: u128,
    buyer_iban_hash: Option<[u8; 32]>,
    now: u32,
) -> Result<(), Error> {
    if p.trading_paused {
        Err(Error::TradingIsPaused)
    } else if listing_id >= p.listings@.len() {
        Err(Error::ListingNotFound)
    } else {
        let li = p.listings@[listing_id as int];
        if li.status != ListingStatus::Active {
            Err(Error::ListingNotActive)
        } else if p.spec_kod_only_active(now) && li.accepts_external {
            Err(Error::KodOnlyModeActive)
        } else if li.seller == who {
            Err(Error::CannotBuyOwnListing)
        } else if li.tl_price > 0 && buyer_iban_hash is None {
            Err(Error::IbanHashRequired)
        } else if l.free_of(who) < (if li.tl_price > 0 {
            buyer_bond as int
        } else {
            li.price + buyer_bond
        }) {
            Err(Error::InsufficientBalance)
        } else {
            Ok(())
        }
    }
}

impl Pallet {
    /// Create a listing, reserving the seller's bond. On the fiat rail
    /// (`tl_price > 0`) the bond is derived from the fiat price at the
    /// current rate and the stored price mirrors it; on the token rail
    /// the given price and bond are stored as they are.
    pub fn create_listing(
        &mut self,
        ledger: &mut Ledger,
        who: AccountId,
        price: u128,
        bond: u128,
        conditions_root: [u8; 32],
        ipfs_cid_hash: Option<[u8; 32]>,
        device_attestation_hash: Option<[u8; 32]>,
        accepts_external: bool,
        clause_types: Vec<ClauseType>,
        tl_price: u64,
        seller_iban_hash: Option<[u8; 32]>,
        now: u32,
    ) -> (r: Result<(), Error>)
        requires
            old(ledger).wf(),
            old(self).listings@.len() < u64::MAX,
        ensures
            final(ledger).wf(),
            spec_lifecycle_inv(*old(self)) ==> spec_lifecycle_inv(*final(self)),
            spec_lifecycle_inv(*old(self)) && spec_funds_inv(*old(self), *old(ledger))
                ==> spec_funds_inv(*final(self), *final(ledger)),
            forall|k: int| 0 <= k < old(self).trade_aux@.len() && (#[trigger] old(
                self,
            ).trade_aux@[k]).has_diagnostics ==> final(self).trade_aux@[k].has_diagnostics,
            r == spec_create_listing_result(
                *old(self),
                *old(ledger),
                who,
                bond,
                accepts_external,
                clause_types@.len() as int,
                tl_price,
                seller_iban_hash,
                now,
            ),
            r is Err ==> *final(self) == *old(self) && *final(ledger) == *old(ledger),
            r is Ok ==> {
                let eb = spec_effective_bond(*old(self), bond, tl_price);
                let ep = if tl_price > 0 {
                    eb
                } else {
                    price
                };
                let nl = final(self).listings@.last();
                &&& final(self).listings@ == old(self).listings@.push(nl)
                &&& nl.seller == who
                &&& nl.price == ep
                &&& nl.bond == eb
                &&& nl.conditions_root == conditions_root
                &&& nl.ipfs_cid_hash == ipfs_cid_hash
                &&& nl.device_attestation_hash == device_attestation_hash
                &&& nl.accepts_external == accepts_external
                &&& nl.clause_types == clause_types
                &&& nl.tl_price == tl_price
                &&& nl.seller_iban_hash == seller_iban_hash
                &&& nl.status == ListingStatus::Active
                &&& nl.created_at == now
                &&& final(ledger).free_of(who) == old(ledger).free_of(who) - eb
                &&& final(ledger).reserved_of(who) == old(ledger).reserved_of(who) + eb
                &&& final(ledger).same_except(*old(ledger), who)
                &&& spec_ulc(final(self).user_listing_count@, who) == spec_ulc(
                    old(self).user_listing_count@,
                    who,
                ) + 1
                &&& forall|b: AccountId| b != who ==> spec_ulc(
                    final(self).user_listing_count@,
                    b,
                ) == spec_ulc(old(self).user_listing_count@, b)
                &&& final(self).events@ == spec_create_listing_events(
                    old(self).events@,
                    old(self).listings@.len() as u64,
                    who,
                    ep,
                    accepts_external,
                    device_attestation_hash,
                )
                &&& final(self).trades@ == old(self).trades@
                &&& final(self).trade_aux@ == old(self).trade_aux@
                &&& spec_same_admin_stats(*final(self), *old(self))
            },
    {
        if clause_types.len() > MAX_CONTRACT_CLAUSES as usize {
            return Err(Error::TooManyClauses);
        }
        if self.trading_paused {
            return Err(Error::TradingIsPaused);
        }
        if self.is_kod_only_active(now) && accepts_external {
            return Err(Error::KodOnlyModeActive);
        }
        let is_tl_trade = tl_price > 0;
        let effective_bond: u128;
        if is_tl_trade {
            if seller_iban_hash.is_none() {
                return Err(Error::IbanHashRequired);
            }
            effective_bond = self.calculate_bond_from_tl(tl_price);
        } else {
            effective_bond = bond;
        }
        if effective_bond < self.config.min_bond {
            return Err(Error::InsufficientBond);
        }
        let count = self.user_listing_count_of(who);
        if count >= self.config.max_listings_per_user {
            return Err(Error::TooManyListings);
        }
        match ledger.reserve(who, effective_bond) {
            Ok(()) => {},
            Err(_) => {
                return Err(Error::InsufficientBalance);
            },
        }
        let listing_id = self.listings.len() as u64;
        let effective_price = if is_tl_trade {
            effective_bond
        } else {
            price
        };
        let listing = Listing {
            seller: who,
            price: effective_price,
            bond: effective_bond,
            conditions_root,
            ipfs_cid_hash,
            device_attestation_hash,
            accepts_external,
            clause_types,
            tl_price,
            seller_iban_hash,
            status: ListingStatus::Active,
            created_at: now,
        };
        self.listings.push(listing);
        self.set_user_listing_count(who, count + 1);
        self.events.push(Event::ListingCreated {
            listing_id,
            seller: who,
            price: effective_price,
            accepts_external,
        });
        match device_attestation_hash {
            Some(attestation_hash) => {
                self.events.push(Event::DeviceAttestationAdded { listing_id, attestation_hash });
            },
            None => {},
        }
        proof {
            if spec_lifecycle_inv(*old(self)) {
                lemma_lifecycle_push_listing(*old(self), *self);
            }
            if spec_funds_inv(*old(self), *old(ledger)) {
                assert forall|a: AccountId| #![auto] ledger.reserved_of(a)
                    == spec_obligations(*self, a) by {
                    lemma_sum_listing_push(old(self).listings@, self.listings@.last(), a);
                    assert(old(ledger).reserved_of(a) == spec_obligations(*old(self), a));
                    if a != who {
                        assert(ledger.same_account(*old(ledger), a));
                    }
                }
            }
        }
        Ok(())
    }

    /// Buy a listing. The buyer's escrow — the price plus their bond on
    /// the token rail, the bond alone on the fiat rail — is reserved, a
    /// trade opens awaiting the seller's answer, and the listing is
    /// marked sold. The trade records the buyer's acceptance commitment.
    pub fn purchase(
        &mut self,
        ledger: &mut Ledger,
        who: AccountId,
        listing_id: u64,
        buyer_bond: u128,
        buyer_iban_hash: Option<[u8; 32]>,
        now: u32,
    ) -> (r: Result<(), Error>)
        requires
            old(ledger).wf(),
            old(self).trades@.len() == old(self).trade_aux@.len(),
            old(self).trades@.len() < u64::MAX,
        ensures
            final(ledger).wf(),
            final(self).trades@.len() == final(self).trade_aux@.len(),
            spec_lifecycle_inv(*old(self)) ==> spec_lifecycle_inv(*final(self)),
            spec_lifecycle_inv(*old(self)) && spec_funds_inv(*old(self), *old(ledger))
                ==> spec_funds_inv(*final(self), *final(ledger)),
            forall|k: int| 0 <= k < old(self).trade_aux@.len() && (#[trigger] old(
                self,
            ).trade_aux@[k]).has_diagnostics ==> final(self).trade_aux@[k].has_diagnostics,
            r == spec_purchase_result(
                *old(self),
                *old(ledger),
                who,
                listing_id,
                buyer_bond,
                buyer_iban_hash,
                now,
            ),
            r is Err ==> *final(self) == *old(self) && *final(ledger) == *old(ledger),
            r is Ok ==> {
                let li = old(self).listings@[listing_id as int];
                let nt = final(self).trades@.last();
                let escrow = if li.tl_price > 0 {
                    buyer_bond as int
                } else {
                    li.price + buyer_bond
                };
                &&& final(self).trades@ == old(self).trades@.push(nt)
                &&& nt.listing_id == listing_id
                &&& nt.buyer == who
                &&& nt.seller == li.seller
                &&& nt.price == li.price
                &&& nt.buyer_bond == buyer_bond
                &&& nt.seller_bond == li.bond
                &&& nt.tl_price == li.tl_price
                &&& nt.seller_iban_hash == li.seller_iban_hash
                &&& nt.buyer_iban_hash == buyer_iban_hash
                &&& nt.contract_hash@ == spec_contract_hash(li.conditions_root@, who, now as u64)
                &&& nt.delivery_attestation_hash is None
                &&& nt.final_hash is None
                &&& nt.status == TradeStatus::PendingSellerConfirm
                &&& nt.created_at == now
                &&& final(self).trade_aux@ == old(self).trade_aux@.push(
                    final(self).trade_aux@.last(),
                )
                &&& spec_empty_aux(final(self).trade_aux@.last())
                &&& final(self).listings@ == old(self).listings@.update(
                    listing_id as int,
                    Listing { status: ListingStatus::Sold, ..li },
                )
                &&& final(ledger).free_of(who) == old(ledger).free_of(who) - escrow
                &&& final(ledger).reserved_of(who) == old(ledger).reserved_of(who) + escrow
                &&& final(ledger).same_except(*old(ledger), who)
                &&& final(self).events@ == old(self).events@.push(Event::Purchased {
                    trade_id: old(self).trades@.len() as u64,
                    listing_id,
                    buyer: who,
                    seller: li.seller,
                    price: li.price,
                })
                &&& final(self).user_listing_count@ == old(self).user_listing_count@
                &&& spec_same_admin_stats(*final(self), *old(self))
            },
    {
        if self.trading_paused {
            return Err(Error::TradingIsPaused);
        }
        if listing_id >= self.listings.len() as u64 {
            return Err(Error::ListingNotFound);
        }
        let idx = listing_id as usize;
        if !(matches!(self.listings[idx].status, ListingStatus::Active)) {
            return Err(Error::ListingNotActive);
        }
        if self.is_kod_only_active(now) && self.listings[idx].accepts_external {
            return Err(Error::KodOnlyModeActive);
        }
        let seller = self.listings[idx].seller;
        if seller == who {
            return Err(Error::CannotBuyOwnListing);
        }
        let li_price = self.listings[idx].price;
        let li_bond = self.listings[idx].bond;
        let li_tl_price = self.listings[idx].tl_price;
        let li_seller_iban = self.listings[idx].seller_iban_hash;
        let conditions_root = self.listings[idx].conditions_root;
        let is_tl_trade = li_tl_price > 0;
        if is_tl_trade && buyer_iban_hash.is_none() {
            return Err(Error::IbanHashRequired);
        }
        if !is_tl_trade && buyer_bond > u128::MAX - li_price {
            // the escrow cannot even be represented, so no balance covers it
            return Err(Error::InsufficientBalance);
        }
        let total_needed: u128 = if is_tl_trade {
            buyer_bond
        } else {
            li_price + buyer_bond
        };
        if ledger.free_balance(who) < total_needed {
            return Err(Error::InsufficientBalance);
        }
        match ledger.reserve(who, total_needed) {
            Ok(()) => {},
            Err(_) => {
                return Err(Error::InsufficientBalance);
            },
        }
        let trade_id = self.trades.len() as u64;
        let contract_hash = compute_contract_hash(conditions_root, who, now as u64);
        let trade = Trade {
            listing_id,
            buyer: who,
            seller,
            price: li_price,
            buyer_bond,
            seller_bond: li_bond,
            tl_price: li_tl_price,
            seller_iban_hash: li_seller_iban,
            buyer_iban_hash,
            contract_hash,
            delivery_attestation_hash: None,
            final_hash: None,
            status: TradeStatus::PendingSellerConfirm,
            created_at: now,
        };
        self.trades.push(trade);
        self.trade_aux.push(TradeAux {
            proofs: Vec::new(),
            diagnostic_report: None,
            diagnostic_tests: Vec::new(),
            has_diagnostics: false,
            encrypted_contract: None,
            encryption_keys: Vec::new(),
            contract_clauses: None,
        });
        let l = &mut self.listings[idx];
        l.status = ListingStatus::Sold;
        self.events.push(Event::Purchased {
            trade_id,
            listing_id,
            buyer: who,
            seller,
            price: li_price,
        });
        proof {
            if spec_lifecycle_inv(*old(self)) {
                lemma_lifecycle_purchase(*old(self), *self, listing_id as int);
            }
            if spec_funds_inv(*old(self), *old(ledger)) {
                assert forall|a: AccountId| #![auto] ledger.reserved_of(a)
                    == spec_obligations(*self, a) by {
                    lemma_sum_listing_update(
                        old(self).listings@,
                        listing_id as int,
                        self.listings@[listing_id as int],
                        a,
                    );
                    lemma_sum_trade_push(old(self).trades@, self.trades@.last(), a);
                    assert(old(ledger).reserved_of(a) == spec_obligations(*old(self), a));
                    if a != who {
                        assert(ledger.same_account(*old(ledger), a));
                    }
                }
            }
        }
        Ok(())
    }
}

/// The events a new listing announces: its creation, then its device
/// attestation if it carries one.
pub open spec fn spec_create_listing_events(
    events: Seq<Event>,
    listing_id: u64,
    who: AccountId,
    price: u128,
    accepts_external: bool,
    device_attestation_hash: Option<[u8; 32]>,
) -> Seq<Event> {
    let e1 = events.push(Event::ListingCreated {
        listing_id,
        seller: who,
        price,
        accepts_external,
    });
    match device_attestation_hash {
        Some(attestation_hash) => e1.push(Event::DeviceAttestationAdded {
            listing_id,
            attestation_hash,
        }),
        None => e1,
    }
}

/// A trade's bookkeeping starts with nothing recorded.
pub open spec fn spec_empty_aux(a: TradeAux) -> bool {
    &&& a.proofs@.len() == 0
    &&& a.diagnostic_report is None
    &&& a.diagnostic_tests@.len() == 0
    &&& !a.has_diagnostics
    &&& a.encrypted_contract is None
    &&& a.encryption_keys@.len() == 0
    &&& a.contract_clauses is None
}

impl Pallet {
    /// Structural soundness of the tables: bookkeeping is index-aligned
    /// with the trades, every trade points at a real listing, no one
    /// trades with themselves, and a token-rail escrow is representable.
    pub open spec fn wf(self) -> bool {
        &&& self.trades@.len() == self.trade_aux@.len()
        &&& forall|i: int| 0 <= i < self.trades@.len() ==> {
            &&& (#[trigger] self.trades@[i]).listing_id < self.listings@.len()
            &&& self.trades@[i].buyer != self.trades@[i].seller
            &&& (self.trades@[i].tl_price == 0 ==> self.trades@[i].price
                + self.trades@[i].buyer_bond <= u128::MAX)
        }
    }
}

/// The exact outcome of `reject_trade`: only the seller, only while the
/// trade awaits their answer.
pub open spec fn spec_reject_trade_result(p: Pallet, who: AccountId, trade_id: u64) -> Result<
    (),
    Error,
> {
    if trade_id >= p.trades@.len() {
        Err(Error::TradeNotFound)
    } else if p.trades@[trade_id as int].seller != who {
        Err(Error::NotAuthorized)
    } else if p.trades@[trade_id as int].status != TradeStatus::PendingSellerConfirm {
        Err(Error::NotPendingSellerConfirm)
    } else {
        Ok(())
    }
}

/// What a rejection or a dispute resolution hands back to the buyer:
/// the whole escrow, bounded by what is actually reserved.
pub open spec fn spec_refund_moved(t: Trade, l: Ledger) -> int {
    let asked = if t.tl_price > 0 {
        t.buyer_bond as int
    } else {
        if t.price + t.buyer_bond > u128::MAX {
            u128::MAX as int
        } else {
            t.price + t.buyer_bond
        }
    };
    if asked < l.reserved_of(t.buyer) {
        asked
    } else {
        l.reserved_of(t.buyer) as int
    }
}

/// The exact outcome of `confirm_delivery`: only the buyer, only from
/// escrow, only on the token rail; and the ledger must be able to settle
/// the price.
pub open spec fn spec_confirm_delivery_result(
    p: Pallet,
    l: Ledger,
    who: AccountId,
    trade_id: u64,
) -> Result<(), Error> {
    if trade_id >= p.trades@.len() {
        Err(Error::TradeNotFound)
    } else {
        let t = p.trades@[trade_id as int];
        let m1 = spec_min_u128(t.price.saturating_add(t.buyer_bond), l.reserved_of(t.buyer));
        if t.buyer != who {
            Err(Error::NotAuthorized)
        } else if t.status != TradeStatus::Escrow {
            Err(Error::InvalidStatus)
        } else if t.tl_price > 0 {
            Err(Error::NotKodTrade)
        } else if l.free_of(t.buyer) + m1 < t.price {
            Err(Error::InsufficientBalance)
        } else if l.free_of(t.seller) + l.reserved_of(t.seller) + t.price > u128::MAX {
            Err(Error::InsufficientBalance)
        } else {
            Ok(())
        }
    }
}

/// The exact outcome of `confirm_tl_payment`: only the seller, only on
/// the fiat rail, only while the wire is awaited or marked sent.
pub open spec fn spec_confirm_tl_payment_result(p: Pallet, who: AccountId, trade_id: u64) -> Result<
    (),
    Error,
> {
    if trade_id >= p.trades@.len() {
        Err(Error::TradeNotFound)
    } else if p.trades@[trade_id as int].seller != who {
        Err(Error::NotAuthorized)
    } else if p.trades@[trade_id as int].tl_price == 0 {
        Err(Error::NotTlTrade)
    } else if p.trades@[trade_id as int].status != TradeStatus::PaymentSent && p.trades@[
        trade_id as int
    ].status != TradeStatus::AwaitingPayment {
        Err(Error::NotAwaitingOrPaymentSent)
    } else {
        Ok(())
    }
}

/// The exact outcome of `resolve_dispute` (a root call): the trade must
/// be disputed, and the ledger must be able to carry the award.
pub open spec fn spec_resolve_dispute_result(
    p: Pallet,
    l: Ledger,
    trade_id: u64,
    buyer_wins: bool,
) -> Result<(), Error> {
    if trade_id >= p.trades@.len() {
        Err(Error::TradeNotFound)
    } else {
        let t = p.trades@[trade_id as int];
        if t.status != TradeStatus::Disputed {
            Err(Error::InvalidStatus)
        } else if buyer_wins {
            let m2 = spec_min_u128(t.seller_bond, l.reserved_of(t.seller));
            if t.price + t.seller_bond > u128::MAX {
                Err(Error::InsufficientBalance)
            } else if l.free_of(t.buyer) + l.reserved_of(t.buyer) + m2 > u128::MAX {
                Err(Error::InsufficientBalance)
            } else {
                Ok(())
            }
        } else {
            let award = t.price + t.buyer_bond;
            let m1 = spec_refund_moved(t, l);
            if award > u128::MAX {
                Err(Error::InsufficientBalance)
            } else if l.free_of(t.buyer) + m1 < award {
                Err(Error::InsufficientBalance)
            } else if l.free_of(t.seller) + l.reserved_of(t.seller) + award > u128::MAX {
                Err(Error::InsufficientBalance)
            } else {
                Ok(())
            }
        }
    }
}

impl Pallet {
    /// The seller rejects a pending trade: the buyer's whole escrow is
    /// released, the trade is refunded, and the listing goes back on
    /// sale.
    pub fn reject_trade(
        &mut self,
        ledger: &mut Ledger,
        who: AccountId,
        trade_id: u64,
        reason_hash: Option<[u8; 32]>,
    ) -> (r: Result<(), Error>)
        requires
            old(ledger).wf(),
            old(self).wf(),
        ensures
            final(ledger).wf(),
            final(self).wf(),
            spec_lifecycle_inv(*old(self)) ==> spec_lifecycle_inv(*final(self)),
            spec_lifecycle_inv(*old(self)) && spec_funds_inv(*old(self), *old(ledger))
                ==> spec_funds_inv(*final(self), *final(ledger)),
            forall|k: int| 0 <= k < old(self).trade_aux@.len() && (#[trigger] old(
                self,
            ).trade_aux@[k]).has_diagnostics ==> final(self).trade_aux@[k].has_diagnostics,
            r == spec_reject_trade_result(*old(self), who, trade_id),
            r is Err ==> *final(self) == *old(self) && *final(ledger) == *old(ledger),
            r is Ok ==> {
                let t = old(self).trades@[trade_id as int];
                let moved = spec_refund_moved(t, *old(ledger));
                &&& final(self).trades@ == old(self).trades@.update(
                    trade_id as int,
                    Trade { status: TradeStatus::Refunded, ..t },
                )
                &&& final(self).listings@ == old(self).listings@.update(
                    t.listing_id as int,
                    Listing {
                        status: ListingStatus::Active,
                        ..old(self).listings@[t.listing_id as int]
                    },
                )
                &&& final(ledger).free_of(t.buyer) == old(ledger).free_of(t.buyer) + moved
                &&& final(ledger).reserved_of(t.buyer) == old(ledger).reserved_of(t.buyer)
                    - moved
                &&& final(ledger).same_except(*old(ledger), t.buyer)
                &&& final(self).events@ == old(self).events@.push(Event::TradeRejected {
                    trade_id,
                    seller: who,
                    buyer: t.buyer,
                    reason_hash,
                })
                &&& final(self).trade_aux@ == old(self).trade_aux@
                &&& final(self).user_listing_count@ == old(self).user_listing_count@
                &&& spec_same_admin_stats(*final(self), *old(self))
            },
    {
        if trade_id >= self.trades.len() as u64 {
            return Err(Error::TradeNotFound);
        }
        let idx = trade_id as usize;
        if !(self.trades[idx].seller == who) {
            return Err(Error::NotAuthorized);
        }
        if !(matches!(self.trades[idx].status, TradeStatus::PendingSellerConfirm)) {
            return Err(Error::NotPendingSellerConfirm);
        }
        let t = self.trades[idx];
        proof {
            assert(old(self).trades@[trade_id as int].listing_id
                < old(self).listings@.len());
            assert(t.buyer != t.seller);
        }
        let refund_amount = if t.tl_price > 0 {
            t.buyer_bond
        } else {
            t.price.saturating_add(t.buyer_bond)
        };
        ledger.unreserve(t.buyer, refund_amount);
        let tm = &mut self.trades[idx];
        tm.status = TradeStatus::Refunded;
        let llen = self.listings.len();
        proof {
            assert(t.listing_id < self.listings@.len());
        }
        let lidx = t.listing_id as usize;
        let lm = &mut self.listings[lidx];
        lm.status = ListingStatus::Active;
        self.events.push(Event::TradeRejected {
            trade_id,
            seller: who,
            buyer: t.buyer,
            reason_hash,
        });
        proof {
            assert forall|i: int| 0 <= i < self.trades@.len() implies {
                &&& (#[trigger] self.trades@[i]).listing_id < self.listings@.len()
                &&& self.trades@[i].buyer != self.trades@[i].seller
                &&& (self.trades@[i].tl_price == 0 ==> self.trades@[i].price
                    + self.trades@[i].buyer_bond <= u128::MAX)
            } by {
                assert(old(self).trades@[i].listing_id < old(self).listings@.len());
            }
            if spec_lifecycle_inv(*old(self)) {
                lemma_lifecycle_close(*old(self), *self, trade_id as int);
                if spec_funds_inv(*old(self), *old(ledger)) {
                    assert(old(self).listings@[t.listing_id as int].bond == t.seller_bond);
                    assert(old(self).listings@[t.listing_id as int].seller == t.seller);
                    assert forall|a: AccountId| #![auto] ledger.reserved_of(a)
                        == spec_obligations(*self, a) by {
                        lemma_sum_trade_update(
                            old(self).trades@,
                            trade_id as int,
                            self.trades@[trade_id as int],
                            a,
                        );
                        lemma_sum_listing_update(
                            old(self).listings@,
                            t.listing_id as int,
                            self.listings@[t.listing_id as int],
                            a,
                        );
                        assert(old(ledger).reserved_of(a) == spec_obligations(*old(self), a));
                        if a == t.buyer {
                            lemma_trade_obl_le_sum(old(self).trades@, trade_id as int, a);
                            lemma_sum_listing_nonneg(old(self).listings@, a);
                        } else {
                            assert(ledger.same_account(*old(ledger), a));
                        }
                    }
                }
            }
        }
        Ok(())
    }

    /// The buyer confirms delivery of a token-rail trade in escrow: the
    /// completion commitment is sealed, the escrow is released, the price
    /// moves to the seller, both bonds come free, and the listing
    /// completes.
    pub fn confirm_delivery(
        &mut self,
        ledger: &mut Ledger,
        who: AccountId,
        trade_id: u64,
        delivery_attestation_hash: Option<[u8; 32]>,
    ) -> (r: Result<(), Error>)
        requires
            old(ledger).wf(),
            old(self).wf(),
        ensures
            final(ledger).wf(),
            final(self).wf(),
            spec_lifecycle_inv(*old(self)) ==> spec_lifecycle_inv(*final(self)),
            spec_lifecycle_inv(*old(self)) && spec_funds_inv(*old(self), *old(ledger))
                ==> spec_funds_inv(*final(self), *final(ledger)),
            forall|k: int| 0 <= k < old(self).trade_aux@.len() && (#[trigger] old(
                self,
            ).trade_aux@[k]).has_diagnostics ==> final(self).trade_aux@[k].has_diagnostics,
            r == spec_confirm_delivery_result(*old(self), *old(ledger), who, trade_id),
            r is Err ==> *final(self) == *old(self) && *final(ledger) == *old(ledger),
            r is Ok ==> {
                let t = old(self).trades@[trade_id as int];
                let diag = match old(self).trade_aux@[trade_id as int].diagnostic_report {
                    Some(rep) => Some(rep.report_hash),
                    None => None,
                };
                let nt = final(self).trades@[trade_id as int];
                let m1 = spec_min_u128(
                    t.price.saturating_add(t.buyer_bond),
                    old(ledger).reserved_of(t.buyer),
                );
                let m2 = spec_min_u128(t.seller_bond, old(ledger).reserved_of(t.seller));
                &&& final(self).trades@ == old(self).trades@.update(trade_id as int, nt)
                &&& nt == Trade {
                    status: TradeStatus::Completed,
                    delivery_attestation_hash,
                    final_hash: nt.final_hash,
                    ..t
                }
                &&& nt.final_hash matches Some(h) && h@ == crate::commit::spec_final_hash(
                    t.contract_hash@,
                    delivery_attestation_hash,
                    diag,
                )
                &&& final(self).listings@ == old(self).listings@.update(
                    t.listing_id as int,
                    Listing {
                        status: ListingStatus::Completed,
                        ..old(self).listings@[t.listing_id as int]
                    },
                )
                &&& final(ledger).free_of(t.buyer) == old(ledger).free_of(t.buyer) + m1
                    - t.price
                &&& final(ledger).reserved_of(t.buyer) == old(ledger).reserved_of(t.buyer) - m1
                &&& final(ledger).free_of(t.seller) == old(ledger).free_of(t.seller) + t.price
                    + m2
                &&& final(ledger).reserved_of(t.seller) == old(ledger).reserved_of(t.seller)
                    - m2
                &&& final(ledger).same_except2(*old(ledger), t.buyer, t.seller)
                &&& spec_ulc(final(self).user_listing_count@, t.seller) == spec_sat_sub_u32(
                    spec_ulc(old(self).user_listing_count@, t.seller),
                    1,
                )
                &&& forall|b: AccountId| b != t.seller ==> spec_ulc(
                    final(self).user_listing_count@,
                    b,
                ) == spec_ulc(old(self).user_listing_count@, b)
                &&& final(self).total_trades_completed == spec_sat_add_u64(
                    old(self).total_trades_completed,
                    1,
                )
                &&& final(self).total_volume == spec_saturating_add_u128(
                    old(self).total_volume,
                    t.price,
                )
                &&& final(self).events@ == spec_confirm_delivery_events(
                    old(self).events@,
                    trade_id,
                    t,
                    delivery_attestation_hash,
                )
                &&& final(self).trade_aux@ == old(self).trade_aux@
                &&& final(self).config == old(self).config
                &&& final(self).kod_only_block_override == old(self).kod_only_block_override
                &&& final(self).kod_tl_rate == old(self).kod_tl_rate
                &&& final(self).trading_paused == old(self).trading_paused
            },
    {
        if trade_id >= self.trades.len() as u64 {
            return Err(Error::TradeNotFound);
        }
        let idx = trade_id as usize;
        let t = self.trades[idx];
        proof {
            assert(old(self).trades@[trade_id as int].listing_id
                < old(self).listings@.len());
            assert(t.buyer != t.seller);
        }
        if !(t.buyer == who) {
            return Err(Error::NotAuthorized);
        }
        if !(matches!(t.status, TradeStatus::Escrow)) {
            return Err(Error::InvalidStatus);
        }
        if t.tl_price > 0 {
            // fiat-rail trades settle through the wire, never through escrow
            return Err(Error::NotKodTrade);
        }
        let escrow = t.price.saturating_add(t.buyer_bond);
        let reserved_buyer = ledger.reserved_balance(t.buyer);
        let m1 = if escrow < reserved_buyer {
            escrow
        } else {
            reserved_buyer
        };
        let free_buyer = ledger.free_balance(t.buyer);
        if free_buyer > u128::MAX - m1 || free_buyer + m1 < t.price {
            return Err(Error::InsufficientBalance);
        }
        let free_seller = ledger.free_balance(t.seller);
        let reserved_seller = ledger.reserved_balance(t.seller);
        if t.price > u128::MAX - free_seller || free_seller + t.price
            > u128::MAX - reserved_seller {
            return Err(Error::InsufficientBalance);
        }
        let diag_report_hash: Option<[u8; 32]> = match &self.trade_aux[idx].diagnostic_report {
            Some(rep) => Some(rep.report_hash),
            None => None,
        };
        let final_hash = crate::commit::compute_final_hash_with_diagnostics(
            t.contract_hash,
            delivery_attestation_hash,
            diag_report_hash,
        );
        let ghost l0 = *ledger;
        ledger.unreserve(t.buyer, escrow);
        let ghost l1 = *ledger;
        proof {
            assert(l1.same_account(l0, t.seller));
        }
        let tr = ledger.transfer(t.buyer, t.seller, t.price);
        proof {
            assert(tr is Ok);
        }
        let ghost l2 = *ledger;
        ledger.unreserve(t.seller, t.seller_bond);
        proof {
            assert(ledger.same_account(l2, t.buyer));
            assert forall|c: AccountId| c != t.buyer && c != t.seller implies
                #[trigger] ledger.same_account(l0, c) by {
                assert(l1.same_account(l0, c));
                assert(l2.same_account(l1, c));
                assert(ledger.same_account(l2, c));
            }
        }
        let tm = &mut self.trades[idx];
        tm.delivery_attestation_hash = delivery_attestation_hash;
        tm.final_hash = Some(final_hash);
        tm.status = TradeStatus::Completed;
        match delivery_attestation_hash {
            Some(attestation_hash) => {
                self.events.push(Event::DeliveryAttestationAdded { trade_id, attestation_hash });
            },
            None => {},
        }
        let llen = self.listings.len();
        proof {
            assert(t.listing_id < self.listings@.len());
        }
        let lidx = t.listing_id as usize;
        let lm = &mut self.listings[lidx];
        lm.status = ListingStatus::Completed;
        let count = self.user_listing_count_of(t.seller);
        let new_count = if count > 0 {
            count - 1
        } else {
            0
        };
        self.set_user_listing_count(t.seller, new_count);
        self.total_trades_completed = self.total_trades_completed.saturating_add(1);
        self.total_volume = self.total_volume.saturating_add(t.price);
        self.events.push(Event::TradeCompleted {
            trade_id,
            buyer: t.buyer,
            seller: t.seller,
            price: t.price,
        });
        proof {
            lemma_wf_after_trade_update(*old(self), *self, trade_id as int);
            if spec_lifecycle_inv(*old(self)) {
                lemma_lifecycle_close(*old(self), *self, trade_id as int);
                if spec_funds_inv(*old(self), *old(ledger)) {
                    assert forall|a: AccountId| #![auto] ledger.reserved_of(a)
                        == spec_obligations(*self, a) by {
                        lemma_sum_trade_update(
                            old(self).trades@,
                            trade_id as int,
                            self.trades@[trade_id as int],
                            a,
                        );
                        lemma_sum_listing_update(
                            old(self).listings@,
                            t.listing_id as int,
                            self.listings@[t.listing_id as int],
                            a,
                        );
                        assert(old(ledger).reserved_of(a) == spec_obligations(*old(self), a));
                        if a == t.buyer || a == t.seller {
                            lemma_trade_obl_le_sum(old(self).trades@, trade_id as int, a);
                            lemma_sum_listing_nonneg(old(self).listings@, a);
                        } else {
                            assert(ledger.same_account(*old(ledger), a));
                        }
                    }
                }
            }
        }
        Ok(())
    }

    /// The seller confirms the fiat wire arrived: both bonds come free,
    /// the trade and the listing complete; no on-chain value moves.
    pub fn confirm_tl_payment(&mut self, ledger: &mut Ledger, who: AccountId, trade_id: u64) -> (r:
        Result<(), Error>)
        requires
            old(ledger).wf(),
            old(self).wf(),
        ensures
            final(ledger).wf(),
            final(self).wf(),
            spec_lifecycle_inv(*old(self)) ==> spec_lifecycle_inv(*final(self)),
            spec_lifecycle_inv(*old(self)) && spec_funds_inv(*old(self), *old(ledger))
                ==> spec_funds_inv(*final(self), *final(ledger)),
            forall|k: int| 0 <= k < old(self).trade_aux@.len() && (#[trigger] old(
                self,
            ).trade_aux@[k]).has_diagnostics ==> final(self).trade_aux@[k].has_diagnostics,
            r == spec_confirm_tl_payment_result(*old(self), who, trade_id),
            r is Err ==> *final(self) == *old(self) && *final(ledger) == *old(ledger),
            r is Ok ==> {
                let t = old(self).trades@[trade_id as int];
                let m1 = spec_min_u128(t.buyer_bond, old(ledger).reserved_of(t.buyer));
                let m2 = spec_min_u128(t.seller_bond, old(ledger).reserved_of(t.seller));
                &&& final(self).trades@ == old(self).trades@.update(
                    trade_id as int,
                    Trade { status: TradeStatus::Completed, ..t },
                )
                &&& final(self).listings@ == old(self).listings@.update(
                    t.listing_id as int,
                    Listing {
                        status: ListingStatus::Completed,
                        ..old(self).listings@[t.listing_id as int]
                    },
                )
                &&& final(ledger).free_of(t.buyer) == old(ledger).free_of(t.buyer) + m1
                &&& final(ledger).reserved_of(t.buyer) == old(ledger).reserved_of(t.buyer) - m1
                &&& final(ledger).free_of(t.seller) == old(ledger).free_of(t.seller) + m2
                &&& final(ledger).reserved_of(t.seller) == old(ledger).reserved_of(t.seller)
                    - m2
                &&& final(ledger).same_except2(*old(ledger), t.buyer, t.seller)
                &&& spec_ulc(final(self).user_listing_count@, t.seller) == spec_sat_sub_u32(
                    spec_ulc(old(self).user_listing_count@, t.seller),
                    1,
                )
                &&& forall|b: AccountId| b != t.seller ==> spec_ulc(
                    final(self).user_listing_count@,
                    b,
                ) == spec_ulc(old(self).user_listing_count@, b)
                &&& final(self).total_trades_completed == spec_sat_add_u64(
                    old(self).total_trades_completed,
                    1,
                )
                &&& final(self).total_volume == spec_saturating_add_u128(
                    old(self).total_volume,
                    t.price,
                )
                &&& final(self).events@ == old(self).events@.push(Event::TlPaymentConfirmed {
                    trade_id,
                    seller: who,
                    tl_price: t.tl_price,
                })
                &&& final(self).trade_aux@ == old(self).trade_aux@
                &&& final(self).config == old(self).config
                &&& final(self).kod_only_block_override == old(self).kod_only_block_override
                &&& final(self).kod_tl_rate == old(self).kod_tl_rate
                &&& final(self).trading_paused == old(self).trading_paused
            },
    {
        if trade_id >= self.trades.len() as u64 {
            return Err(Error::TradeNotFound);
        }
        let idx = trade_id as usize;
        let t = self.trades[idx];
        proof {
            assert(old(self).trades@[trade_id as int].listing_id
                < old(self).listings@.len());
            assert(t.buyer != t.seller);
        }
        if !(t.seller == who) {
            return Err(Error::NotAuthorized);
        }
        if t.tl_price == 0 {
            return Err(Error::NotTlTrade);
        }
        let ok_status = matches!(
            t.status,
            TradeStatus::PaymentSent | TradeStatus::AwaitingPayment
        );
        if !ok_status {
            return Err(Error::NotAwaitingOrPaymentSent);
        }
        let ghost l0 = *ledger;
        ledger.unreserve(t.buyer, t.buyer_bond);
        let ghost l1 = *ledger;
        proof {
            assert(l1.same_account(l0, t.seller));
        }
        ledger.unreserve(t.seller, t.seller_bond);
        proof {
            assert(ledger.same_account(l1, t.buyer));
            assert forall|c: AccountId| c != t.buyer && c != t.seller implies
                #[trigger] ledger.same_account(l0, c) by {
                assert(l1.same_account(l0, c));
                assert(ledger.same_account(l1, c));
            }
        }
        let tm = &mut self.trades[idx];
        tm.status = TradeStatus::Completed;
        let llen = self.listings.len();
        proof {
            assert(t.listing_id < self.listings@.len());
        }
        let lidx = t.listing_id as usize;
        let lm = &mut self.listings[lidx];
        lm.status = ListingStatus::Completed;
        let count = self.user_listing_count_of(t.seller);
        let new_count = if count > 0 {
            count - 1
        } else {
            0
        };
        self.set_user_listing_count(t.seller, new_count);
        self.total_trades_completed = self.total_trades_completed.saturating_add(1);
        self.total_volume = self.total_volume.saturating_add(t.price);
        self.events.push(Event::TlPaymentConfirmed { trade_id, seller: who, tl_price: t.tl_price });
        proof {
            lemma_wf_after_trade_update(*old(self), *self, trade_id as int);
            if spec_lifecycle_inv(*old(self)) {
                lemma_lifecycle_close(*old(self), *self, trade_id as int);
                if spec_funds_inv(*old(self), *old(ledger)) {
                    assert forall|a: AccountId| #![auto] ledger.reserved_of(a)
                        == spec_obligations(*self, a) by {
                        lemma_sum_trade_update(
                            old(self).trades@,
                            trade_id as int,
                            self.trades@[trade_id as int],
                            a,
                        );
                        lemma_sum_listing_update(
                            old(self).listings@,
                            t.listing_id as int,
                            self.listings@[t.listing_id as int],
                            a,
                        );
                        assert(old(ledger).reserved_of(a) == spec_obligations(*old(self), a));
                        if a == t.buyer || a == t.seller {
                            lemma_trade_obl_le_sum(old(self).trades@, trade_id as int, a);
                            lemma_sum_listing_nonneg(old(self).listings@, a);
                        } else {
                            assert(ledger.same_account(*old(ledger), a));
                        }
                    }
                }
            }
        }
        Ok(())
    }

    /// Root resolves a dispute (the runtime's dispatch checks the signer
    /// against the sudo key). If the buyer wins, their escrow comes free
    /// and the seller's bond is awarded to them; if the seller wins, the
    /// price and the buyer's bond move to the seller and the seller's
    /// bond comes free.
    pub fn resolve_dispute(&mut self, ledger: &mut Ledger, trade_id: u64, buyer_wins: bool) -> (r:
        Result<(), Error>)
        requires
            old(ledger).wf(),
            old(self).wf(),
        ensures
            final(ledger).wf(),
            final(self).wf(),
            spec_lifecycle_inv(*old(self)) ==> spec_lifecycle_inv(*final(self)),
            spec_lifecycle_inv(*old(self)) && spec_funds_inv(*old(self), *old(ledger))
                ==> spec_funds_inv(*final(self), *final(ledger)),
            forall|k: int| 0 <= k < old(self).trade_aux@.len() && (#[trigger] old(
                self,
            ).trade_aux@[k]).has_diagnostics ==> final(self).trade_aux@[k].has_diagnostics,
            r == spec_resolve_dispute_result(*old(self), *old(ledger), trade_id, buyer_wins),
            r is Err ==> *final(self) == *old(self) && *final(ledger) == *old(ledger),
            r is Ok && buyer_wins ==> {
                let t = old(self).trades@[trade_id as int];
                let m1 = spec_refund_moved(t, *old(ledger));
                let m2 = spec_min_u128(t.seller_bond, old(ledger).reserved_of(t.seller));
                &&& final(self).trades@ == old(self).trades@.update(
                    trade_id as int,
                    Trade { status: TradeStatus::Refunded, ..t },
                )
                &&& final(ledger).free_of(t.buyer) == old(ledger).free_of(t.buyer) + m1 + m2
                &&& final(ledger).reserved_of(t.buyer) == old(ledger).reserved_of(t.buyer) - m1
                &&& final(ledger).free_of(t.seller) == old(ledger).free_of(t.seller)
                &&& final(ledger).reserved_of(t.seller) == old(ledger).reserved_of(t.seller)
                    - m2
                &&& final(ledger).same_except2(*old(ledger), t.buyer, t.seller)
                &&& final(self).events@ == old(self).events@.push(Event::Refunded {
                    trade_id,
                    buyer: t.buyer,
                    amount: (t.price + t.seller_bond) as u128,
                }).push(Event::DisputeResolved { trade_id, winner: t.buyer })
                &&& final(self).total_trades_completed == old(self).total_trades_completed
                &&& final(self).total_volume == old(self).total_volume
                &&& spec_resolve_common(*final(self), *old(self), t.seller)
            },
            r is Ok && !buyer_wins ==> {
                let t = old(self).trades@[trade_id as int];
                let award = (t.price + t.buyer_bond) as u128;
                let m1 = spec_refund_moved(t, *old(ledger));
                let m3 = spec_min_u128(t.seller_bond, old(ledger).reserved_of(t.seller));
                &&& final(self).trades@ == old(self).trades@.update(
                    trade_id as int,
                    Trade { status: TradeStatus::Completed, ..t },
                )
                &&& final(ledger).free_of(t.buyer) == old(ledger).free_of(t.buyer) + m1 - award
                &&& final(ledger).reserved_of(t.buyer) == old(ledger).reserved_of(t.buyer) - m1
                &&& final(ledger).free_of(t.seller) == old(ledger).free_of(t.seller) + award
                    + m3
                &&& final(ledger).reserved_of(t.seller) == old(ledger).reserved_of(t.seller)
                    - m3
                &&& final(ledger).same_except2(*old(ledger), t.buyer, t.seller)
                &&& final(self).events@ == old(self).events@.push(Event::TradeCompleted {
                    trade_id,
                    buyer: t.buyer,
                    seller: t.seller,
                    price: t.price,
                }).push(Event::DisputeResolved { trade_id, winner: t.seller })
                &&& final(self).total_trades_completed == spec_sat_add_u64(
                    old(self).total_trades_completed,
                    1,
                )
                &&& final(self).total_volume == spec_saturating_add_u128(
                    old(self).total_volume,
                    t.price,
                )
                &&& spec_resolve_common(*final(self), *old(self), t.seller)
            },
    {
        if trade_id >= self.trades.len() as u64 {
            return Err(Error::TradeNotFound);
        }
        let idx = trade_id as usize;
        let t = self.trades[idx];
        proof {
            assert(old(self).trades@[trade_id as int].listing_id
                < old(self).listings@.len());
            assert(t.buyer != t.seller);
        }
        if !(matches!(t.status, TradeStatus::Disputed)) {
            return Err(Error::InvalidStatus);
        }
        let escrow = if t.tl_price > 0 {
            t.buyer_bond
        } else {
            t.price.saturating_add(t.buyer_bond)
        };
        if buyer_wins {
            if t.seller_bond > u128::MAX - t.price {
                return Err(Error::InsufficientBalance);
            }
            let free_buyer = ledger.free_balance(t.buyer);
            let reserved_buyer = ledger.reserved_balance(t.buyer);
            let reserved_seller = ledger.reserved_balance(t.seller);
            let m2 = if t.seller_bond < reserved_seller {
                t.seller_bond
            } else {
                reserved_seller
            };
            if m2 > u128::MAX - free_buyer || free_buyer + m2 > u128::MAX - reserved_buyer {
                return Err(Error::InsufficientBalance);
            }
            let ghost l0 = *ledger;
            ledger.unreserve(t.buyer, escrow);
            let ghost l1 = *ledger;
            proof {
                assert(l1.same_account(l0, t.seller));
            }
            let rr = ledger.repatriate_reserved(t.seller, t.buyer, t.seller_bond);
            proof {
                assert(rr is Ok);
                assert forall|c: AccountId| c != t.buyer && c != t.seller implies
                    #[trigger] ledger.same_account(l0, c) by {
                    assert(l1.same_account(l0, c));
                    assert(ledger.same_account(l1, c));
                }
            }
            let tm = &mut self.trades[idx];
            tm.status = TradeStatus::Refunded;
            self.events.push(Event::Refunded {
                trade_id,
                buyer: t.buyer,
                amount: t.price + t.seller_bond,
            });
            self.events.push(Event::DisputeResolved { trade_id, winner: t.buyer });
            let count = self.user_listing_count_of(t.seller);
            let new_count = if count > 0 {
                count - 1
            } else {
                0
            };
            self.set_user_listing_count(t.seller, new_count);
            proof {
                lemma_wf_after_trade_update(*old(self), *self, trade_id as int);
                if spec_lifecycle_inv(*old(self)) {
                    lemma_lifecycle_close(*old(self), *self, trade_id as int);
                    if spec_funds_inv(*old(self), *old(ledger)) {
                        assert forall|a: AccountId| #![auto] ledger.reserved_of(a)
                            == spec_obligations(*self, a) by {
                            lemma_sum_trade_update(
                                old(self).trades@,
                                trade_id as int,
                                self.trades@[trade_id as int],
                                a,
                            );
                            assert(old(ledger).reserved_of(a) == spec_obligations(
                                *old(self),
                                a,
                            ));
                            if a == t.buyer || a == t.seller {
                                lemma_trade_obl_le_sum(old(self).trades@, trade_id as int, a);
                                lemma_sum_listing_nonneg(old(self).listings@, a);
                            } else {
                                assert(ledger.same_account(*old(ledger), a));
                            }
                        }
                    }
                }
            }
            Ok(())
        } else {
            if t.buyer_bond > u128::MAX - t.price {
                return Err(Error::InsufficientBalance);
            }
            let award = t.price + t.buyer_bond;
            let free_buyer = ledger.free_balance(t.buyer);
            let reserved_buyer = ledger.reserved_balance(t.buyer);
            let m1 = if escrow < reserved_buyer {
                escrow
            } else {
                reserved_buyer
            };
            if free_buyer > u128::MAX - m1 || free_buyer + m1 < award {
                return Err(Error::InsufficientBalance);
            }
            let free_seller = ledger.free_balance(t.seller);
            let reserved_seller = ledger.reserved_balance(t.seller);
            if award > u128::MAX - free_seller || free_seller + award
                > u128::MAX - reserved_seller {
                return Err(Error::InsufficientBalance);
            }
            let ghost l0 = *ledger;
            ledger.unreserve(t.buyer, escrow);
            let ghost l1 = *ledger;
            proof {
                assert(l1.same_account(l0, t.seller));
            }
            let tr = ledger.transfer(t.buyer, t.seller, award);
            proof {
                assert(tr is Ok);
            }
            let ghost l2 = *ledger;
            ledger.unreserve(t.seller, t.seller_bond);
            proof {
                assert(ledger.same_account(l2, t.buyer));
                assert forall|c: AccountId| c != t.buyer && c != t.seller implies
                    #[trigger] ledger.same_account(l0, c) by {
                    assert(l1.same_account(l0, c));
                    assert(l2.same_account(l1, c));
                    assert(ledger.same_account(l2, c));
                }
            }
            let tm = &mut self.trades[idx];
            tm.status = TradeStatus::Completed;
            self.total_trades_completed = self.total_trades_completed.saturating_add(1);
            self.total_volume = self.total_volume.saturating_add(t.price);
            self.events.push(Event::TradeCompleted {
                trade_id,
                buyer: t.buyer,
                seller: t.seller,
                price: t.price,
            });
            self.events.push(Event::DisputeResolved { trade_id, winner: t.seller });
            let count = self.user_listing_count_of(t.seller);
            let new_count = if count > 0 {
                count - 1
            } else {
                0
            };
            self.set_user_listing_count(t.seller, new_count);
            proof {
                lemma_wf_after_trade_update(*old(self), *self, trade_id as int);
                if spec_lifecycle_inv(*old(self)) {
                    lemma_lifecycle_close(*old(self), *self, trade_id as int);
                    if spec_funds_inv(*old(self), *old(ledger)) {
                        assert forall|a: AccountId| #![auto] ledger.reserved_of(a)
                            == spec_obligations(*self, a) by {
                            lemma_sum_trade_update(
                                old(self).trades@,
                                trade_id as int,
                                self.trades@[trade_id as int],
                                a,
                            );
                            assert(old(ledger).reserved_of(a) == spec_obligations(
                                *old(self),
                                a,
                            ));
                            if a == t.buyer || a == t.seller {
                                lemma_trade_obl_le_sum(old(self).trades@, trade_id as int, a);
                                lemma_sum_listing_nonneg(old(self).listings@, a);
                            } else {
                                assert(ledger.same_account(*old(ledger), a));
                            }
                        }
                    }
                }
            }
            Ok(())
        }
    }
}

/// What both dispute outcomes share: the seller's open-listing count
/// drops, and the listings, bookkeeping and policy switches are
/// untouched.
pub open spec fn spec_resolve_common(post: Pallet, pre: Pallet, seller: AccountId) -> bool {
    &&& post.listings@ == pre.listings@
    &&& post.trade_aux@ == pre.trade_aux@
    &&& spec_ulc(post.user_listing_count@, seller) == spec_sat_sub_u32(
        spec_ulc(pre.user_listing_count@, seller),
        1,
    )
    &&& forall|b: AccountId| b != seller ==> spec_ulc(post.user_listing_count@, b) == spec_ulc(
        pre.user_listing_count@,
        b,
    )
    &&& post.config == pre.config
    &&& post.kod_only_block_override == pre.kod_only_block_override
    &&& post.kod_tl_rate == pre.kod_tl_rate
    &&& post.trading_paused == pre.trading_paused
}

/// The events a confirmed delivery announces: the delivery attestation
/// if one was given, then the completion.
pub open spec fn spec_confirm_delivery_events(
    events: Seq<Event>,
    trade_id: u64,
    t: Trade,
    delivery_attestation_hash: Option<[u8; 32]>,
) -> Seq<Event> {
    let e1 = match delivery_attestation_hash {
        Some(attestation_hash) => events.push(Event::DeliveryAttestationAdded {
            trade_id,
            attestation_hash,
        }),
        None => events,
    };
    e1.push(Event::TradeCompleted { trade_id, buyer: t.buyer, seller: t.seller, price: t.price })
}

/// Saturating increment of a completion counter.
pub open spec fn spec_sat_add_u64(a: u64, b: u64) -> u64 {
    if a + b > u64::MAX {
        u64::MAX
    } else {
        (a + b) as u64
    }
}

/// Updating one trade's status-like fields keeps the tables sound, since
/// the parties, the amounts and the listing link are untouched.
proof fn lemma_wf_after_trade_update(pre: Pallet, post: Pallet, i: int)
    requires
        pre.wf(),
        0 <= i < pre.trades@.len(),
        post.trades@.len() == pre.trades@.len(),
        post.trade_aux@.len() == pre.trade_aux@.len(),
        post.listings@.len() == pre.listings@.len(),
        forall|j: int| 0 <= j < post.trades@.len() && j != i ==> post.trades@[j]
            == pre.trades@[j],
        post.trades@[i].listing_id == pre.trades@[i].listing_id,
        post.trades@[i].buyer == pre.trades@[i].buyer,
        post.trades@[i].seller == pre.trades@[i].seller,
        post.trades@[i].price == pre.trades@[i].price,
        post.trades@[i].buyer_bond == pre.trades@[i].buyer_bond,
        post.trades@[i].tl_price == pre.trades@[i].tl_price,
    ensures
        post.wf(),
{
    assert forall|j: int| 0 <= j < post.trades@.len() implies {
        &&& (#[trigger] post.trades@[j]).listing_id < post.listings@.len()
        &&& post.trades@[j].buyer != post.trades@[j].seller
        &&& (post.trades@[j].tl_price == 0 ==> post.trades@[j].price + post.trades@[j].buyer_bond
            <= u128::MAX)
    } by {
        assert(pre.trades@[j].listing_id < pre.listings@.len());
    }
}


/// Result class for one diagnostic test byte: one means passed, zero
/// means failed, anything else means skipped.
pub open spec fn spec_classify(b: u8) -> DiagTestResult {
    if b == 1 {
        DiagTestResult::Passed
    } else if b == 0 {
        DiagTestResult::Failed
    } else {
        DiagTestResult::Skipped
    }
}

/// The recorded test entries for parallel id, result and detail lists.
pub open spec fn spec_diag_entries(
    ids: Seq<[u8; 32]>,
    results: Seq<u8>,
    details: Seq<[u8; 32]>,
) -> Seq<DiagTestEntry> {
    Seq::new(
        ids.len(),
        |i: int| DiagTestEntry {
            test_id_hash: ids[i],
            result: spec_classify(results[i]),
            detail_hash: details[i],
        },
    )
}

/// How many of the result bytes equal `v`.
pub open spec fn spec_count_result(results: Seq<u8>, v: u8) -> int
    decreases results.len(),
{
    if results.len() == 0 {
        0
    } else {
        spec_count_result(results.drop_last(), v) + if results.last() == v {
            1int
        } else {
            0int
        }
    }
}

/// The per-test events a diagnostics submission announces, in list
/// order.
pub open spec fn spec_diag_events(trade_id: u64, ids: Seq<[u8; 32]>, results: Seq<u8>) -> Seq<
    Event,
> {
    Seq::new(
        ids.len(),
        |i: int| Event::DiagnosticTestRecorded {
            trade_id,
            test_index: i as u32,
            test_id_hash: ids[i],
            result: spec_classify(results[i]),
        },
    )
}

/// The score: passed tests per hundred, rounded down; zero for an empty
/// report.
pub open spec fn spec_diag_score(passed: int, count: int) -> int {
    if count > 0 {
        passed * 100 / count
    } else {
        0
    }
}

/// The exact outcome of `submit_condition_proof`: a party to a disputed
/// trade presents a Merkle proof of bounded depth that must authenticate
/// the condition against the listing's conditions root.
pub open spec fn spec_submit_condition_proof_result(
    p: Pallet,
    who: AccountId,
    trade_id: u64,
    condition_hash: [u8; 32],
    merkle_proof: [[u8; 32]; 16],
    proof_len: u32,
    index: u32,
) -> Result<(), Error> {
    if trade_id >= p.trades@.len() {
        Err(Error::TradeNotFound)
    } else {
        let t = p.trades@[trade_id as int];
        if t.buyer != who && t.seller != who {
            Err(Error::NotAuthorized)
        } else if t.status != TradeStatus::Disputed {
            Err(Error::InvalidStatus)
        } else if proof_len > MAX_MERKLE_PROOF_DEPTH {
            Err(Error::MerkleProofTooDeep)
        } else if t.listing_id >= p.listings@.len() {
            Err(Error::ListingNotFound)
        } else if crate::merkle::spec_merkle_fold(
            condition_hash@,
            crate::merkle::spec_proof_seq(merkle_proof@.take(proof_len as int)),
            index as nat,
        ) != p.listings@[t.listing_id as int].conditions_root@ {
            Err(Error::InvalidMerkleProof)
        } else {
            Ok(())
        }
    }
}

/// The exact outcome of `submit_diagnostics`: a party to a trade in
/// escrow, at most once per trade, with at most the accepted number of
/// tests and all three lists of one length.
pub open spec fn spec_submit_diagnostics_result(
    p: Pallet,
    who: AccountId,
    trade_id: u64,
    ids_len: int,
    results_len: int,
    details_len: int,
) -> Result<(), Error> {
    if trade_id >= p.trades@.len() {
        Err(Error::TradeNotFound)
    } else {
        let t = p.trades@[trade_id as int];
        if t.buyer != who && t.seller != who {
            Err(Error::NotAuthorized)
        } else if t.status != TradeStatus::Escrow {
            Err(Error::InvalidStatus)
        } else if p.trade_aux@[trade_id as int].has_diagnostics {
            Err(Error::DiagnosticsAlreadySubmitted)
        } else if ids_len > MAX_DIAGNOSTIC_TESTS {
            Err(Error::TooManyDiagnosticTests)
        } else if results_len != ids_len {
            Err(Error::TooManyDiagnosticTests)
        } else if details_len != ids_len {
            Err(Error::TooManyDiagnosticTests)
        } else {
            Ok(())
        }
    }
}

impl Pallet {
    /// A party to a disputed trade proves one agreed condition by a
    /// Merkle membership proof against the listing's conditions root.
    /// Only an authenticating proof is stored.
    pub fn submit_condition_proof(
        &mut self,
        who: AccountId,
        trade_id: u64,
        condition_hash: [u8; 32],
        merkle_proof: [[u8; 32]; 16],
        proof_len: u32,
        index: u32,
        now: u32,
    ) -> (r: Result<(), Error>)
        requires
            old(self).wf(),
        ensures
            final(self).wf(),
            spec_lifecycle_inv(*old(self)) ==> spec_lifecycle_inv(*final(self)),
            forall|a: AccountId| #![auto] spec_obligations(*final(self), a) == spec_obligations(
                *old(self),
                a,
            ),
            forall|k: int| 0 <= k < old(self).trade_aux@.len() && (#[trigger] old(
                self,
            ).trade_aux@[k]).has_diagnostics ==> final(self).trade_aux@[k].has_diagnostics,
            r == spec_submit_condition_proof_result(
                *old(self),
                who,
                trade_id,
                condition_hash,
                merkle_proof,
                proof_len,
                index,
            ),
            r is Err ==> *final(self) == *old(self),
            r is Ok ==> {
                let a0 = old(self).trade_aux@[trade_id as int];
                let a1 = final(self).trade_aux@[trade_id as int];
                &&& final(self).trade_aux@ == old(self).trade_aux@.update(trade_id as int, a1)
                &&& a1.proofs@ == a0.proofs@.push(ProofRecord {
                    condition_hash,
                    submitter: who,
                    block_number: now,
                })
                &&& a1.diagnostic_report == a0.diagnostic_report
                &&& a1.diagnostic_tests@ == a0.diagnostic_tests@
                &&& a1.has_diagnostics == a0.has_diagnostics
                &&& a1.encrypted_contract == a0.encrypted_contract
                &&& a1.encryption_keys@ == a0.encryption_keys@
                &&& a1.contract_clauses == a0.contract_clauses
                &&& final(self).events@ == old(self).events@.push(
                    Event::ConditionProofSubmitted { trade_id, submitter: who, condition_hash },
                ).push(Event::MerkleProofVerified { trade_id, condition_hash, verified: true })
                &&& final(self).listings@ == old(self).listings@
                &&& final(self).trades@ == old(self).trades@
                &&& final(self).user_listing_count@ == old(self).user_listing_count@
                &&& spec_same_admin_stats(*final(self), *old(self))
            },
    {
        if trade_id >= self.trades.len() as u64 {
            return Err(Error::TradeNotFound);
        }
        let idx = trade_id as usize;
        let t = self.trades[idx];
        if !(t.buyer == who) && !(t.seller == who) {
            return Err(Error::NotAuthorized);
        }
        if !(matches!(t.status, TradeStatus::Disputed)) {
            return Err(Error::InvalidStatus);
        }
        if proof_len > MAX_MERKLE_PROOF_DEPTH {
            return Err(Error::MerkleProofTooDeep);
        }
        let llen = self.listings.len();
        if t.listing_id >= llen as u64 {
            return Err(Error::ListingNotFound);
        }
        let lidx = t.listing_id as usize;
        let conditions_root = self.listings[lidx].conditions_root;
        let proof_slice = vstd::slice::slice_subrange(
            merkle_proof.as_slice(),
            0,
            proof_len as usize,
        );
        proof {
            assert(proof_slice@ =~= merkle_proof@.take(proof_len as int));
        }
        let verified = crate::merkle::verify_merkle_proof_hashed(
            conditions_root,
            condition_hash,
            proof_slice,
            index,
        );
        if !verified {
            return Err(Error::InvalidMerkleProof);
        }
        let aux = &mut self.trade_aux[idx];
        aux.proofs.push(ProofRecord { condition_hash, submitter: who, block_number: now });
        self.events.push(Event::ConditionProofSubmitted {
            trade_id,
            submitter: who,
            condition_hash,
        });
        self.events.push(Event::MerkleProofVerified { trade_id, condition_hash, verified: true });
        proof {
            if spec_lifecycle_inv(*old(self)) {
                lemma_lifecycle_aux_step(*old(self), *self, trade_id as int);
            }
            assert forall|a: AccountId| #![auto] spec_obligations(*self, a)
                == spec_obligations(*old(self), a) by {}
        }
        Ok(())
    }

    /// A party to a trade in escrow records the device diagnostics: each
    /// test's outcome goes on chain, the report is scored, and further
    /// submissions for this trade are refused for good.
    pub fn submit_diagnostics(
        &mut self,
        who: AccountId,
        trade_id: u64,
        device_model_hash: [u8; 32],
        device_manufacturer_hash: [u8; 32],
        os_hash: [u8; 32],
        test_ids: Vec<[u8; 32]>,
        test_results: Vec<u8>,
        test_details: Vec<[u8; 32]>,
        report_hash: [u8; 32],
        now: u32,
    ) -> (r: Result<(), Error>)
        requires
            old(self).wf(),
        ensures
            final(self).wf(),
            spec_lifecycle_inv(*old(self)) ==> spec_lifecycle_inv(*final(self)),
            forall|a: AccountId| #![auto] spec_obligations(*final(self), a) == spec_obligations(
                *old(self),
                a,
            ),
            forall|k: int| 0 <= k < old(self).trade_aux@.len() && (#[trigger] old(
                self,
            ).trade_aux@[k]).has_diagnostics ==> final(self).trade_aux@[k].has_diagnostics,
            r == spec_submit_diagnostics_result(
                *old(self),
                who,
                trade_id,
                test_ids@.len() as int,
                test_results@.len() as int,
                test_details@.len() as int,
            ),
            r is Err ==> *final(self) == *old(self),
            r is Ok ==> {
                let a0 = old(self).trade_aux@[trade_id as int];
                let a1 = final(self).trade_aux@[trade_id as int];
                let passed = spec_count_result(test_results@, 1);
                let failed = spec_count_result(test_results@, 0);
                &&& final(self).trade_aux@ == old(self).trade_aux@.update(trade_id as int, a1)
                &&& a1.has_diagnostics
                &&& a1.diagnostic_tests@ == spec_diag_entries(
                    test_ids@,
                    test_results@,
                    test_details@,
                )
                &&& a1.diagnostic_report == Some(DiagnosticReport {
                    submitter: who,
                    device_model_hash,
                    device_manufacturer_hash,
                    os_hash,
                    test_count: test_ids@.len() as u32,
                    passed_count: passed as u32,
                    failed_count: failed as u32,
                    score: spec_diag_score(passed, test_ids@.len() as int) as u8,
                    report_hash,
                    submitted_at: now,
                })
                &&& a1.proofs@ == a0.proofs@
                &&& a1.encrypted_contract == a0.encrypted_contract
                &&& a1.encryption_keys@ == a0.encryption_keys@
                &&& a1.contract_clauses == a0.contract_clauses
                &&& final(self).events@ == old(self).events@ + spec_diag_events(
                    trade_id,
                    test_ids@,
                    test_results@,
                ) + seq![
                    Event::DiagnosticReportSubmitted {
                        trade_id,
                        submitter: who,
                        device_model_hash,
                        score: spec_diag_score(passed, test_ids@.len() as int) as u8,
                        passed_count: passed as u32,
                        failed_count: failed as u32,
                        report_hash,
                    },
                ]
                &&& final(self).listings@ == old(self).listings@
                &&& final(self).trades@ == old(self).trades@
                &&& final(self).user_listing_count@ == old(self).user_listing_count@
                &&& spec_same_admin_stats(*final(self), *old(self))
            },
    {
        if trade_id >= self.trades.len() as u64 {
            return Err(Error::TradeNotFound);
        }
        let idx = trade_id as usize;
        let t = self.trades[idx];
        if !(t.buyer == who) && !(t.seller == who) {
            return Err(Error::NotAuthorized);
        }
        if !(matches!(t.status, TradeStatus::Escrow)) {
            return Err(Error::InvalidStatus);
        }
        if self.trade_aux[idx].has_diagnostics {
            return Err(Error::DiagnosticsAlreadySubmitted);
        }
        let count = test_ids.len();
        if count > MAX_DIAGNOSTIC_TESTS as usize {
            return Err(Error::TooManyDiagnosticTests);
        }
        if test_results.len() != count {
            return Err(Error::TooManyDiagnosticTests);
        }
        if test_details.len() != count {
            return Err(Error::TooManyDiagnosticTests);
        }
        let mut passed_count: u32 = 0;
        let mut failed_count: u32 = 0;
        let mut entries: Vec<DiagTestEntry> = Vec::new();
        let mut test_events: Vec<Event> = Vec::new();
        let mut i: usize = 0;
        while i < count
            invariant
                i <= count,
                count == test_ids@.len(),
                count == test_results@.len(),
                count == test_details@.len(),
                count <= MAX_DIAGNOSTIC_TESTS,
                passed_count == spec_count_result(test_results@.take(i as int), 1),
                failed_count == spec_count_result(test_results@.take(i as int), 0),
                passed_count <= i,
                failed_count <= i,
                entries@ == spec_diag_entries(
                    test_ids@.take(i as int),
                    test_results@.take(i as int),
                    test_details@.take(i as int),
                ),
                test_events@ == spec_diag_events(trade_id, test_ids@.take(i as int),
                    test_results@.take(i as int)),
            decreases count - i,
        {
            proof {
                lemma_count_result_take_step(test_results@, i as int, 1);
                lemma_count_result_take_step(test_results@, i as int, 0);
            }
            let b = test_results[i];
            let result = if b == 1 {
                passed_count = passed_count + 1;
                DiagTestResult::Passed
            } else if b == 0 {
                failed_count = failed_count + 1;
                DiagTestResult::Failed
            } else {
                DiagTestResult::Skipped
            };
            entries.push(DiagTestEntry {
                test_id_hash: test_ids[i],
                result,
                detail_hash: test_details[i],
            });
            test_events.push(Event::DiagnosticTestRecorded {
                trade_id,
                test_index: i as u32,
                test_id_hash: test_ids[i],
                result,
            });
            i = i + 1;
            proof {
                assert(entries@ =~= spec_diag_entries(
                    test_ids@.take(i as int),
                    test_results@.take(i as int),
                    test_details@.take(i as int),
                ));
                assert(test_events@ =~= spec_diag_events(trade_id,
                    test_ids@.take(i as int), test_results@.take(i as int)));
            }
        }
        proof {
            assert(test_ids@.take(count as int) =~= test_ids@);
            assert(test_results@.take(count as int) =~= test_results@);
            assert(test_details@.take(count as int) =~= test_details@);
            assert(entries@ =~= spec_diag_entries(test_ids@, test_results@, test_details@));
            assert(test_events@ =~= spec_diag_events(trade_id, test_ids@, test_results@));
        }
        let score: u8 = if count > 0 {
            proof {
                lemma_score_bounded(passed_count as int, count as int);
            }
            (((passed_count as u64) * 100) / (count as u64)) as u8
        } else {
            0
        };
        let report = DiagnosticReport {
            submitter: who,
            device_model_hash,
            device_manufacturer_hash,
            os_hash,
            test_count: count as u32,
            passed_count,
            failed_count,
            score,
            report_hash,
            submitted_at: now,
        };
        let aux = &mut self.trade_aux[idx];
        aux.diagnostic_tests = entries;
        aux.diagnostic_report = Some(report);
        aux.has_diagnostics = true;
        let mut evs = test_events;
        self.events.append(&mut evs);
        self.events.push(Event::DiagnosticReportSubmitted {
            trade_id,
            submitter: who,
            device_model_hash,
            score,
            passed_count,
            failed_count,
            report_hash,
        });
        proof {
            if spec_lifecycle_inv(*old(self)) {
                lemma_lifecycle_aux_step(*old(self), *self, trade_id as int);
            }
            assert forall|a: AccountId| #![auto] spec_obligations(*self, a)
                == spec_obligations(*old(self), a) by {}
        }
        Ok(())
    }
}

/// One step of counting: the count over a prefix extended by its next
/// element.
proof fn lemma_count_result_take_step(results: Seq<u8>, i: int, v: u8)
    requires
        0 <= i < results.len(),
    ensures
        spec_count_result(results.take(i + 1), v) == spec_count_result(results.take(i), v)
            + if results[i] == v {
            1int
        } else {
            0int
        },
{
    assert(results.take(i + 1).drop_last() =~= results.take(i));
    assert(results.take(i + 1).last() == results[i]);
}

/// A score never exceeds one hundred: the passed tests are among the
/// counted ones.
proof fn lemma_score_bounded(passed: int, count: int)
    requires
        0 <= passed <= count,
        0 < count,
    ensures
        0 <= passed * 100 / count <= 100,
        passed * 100 / count <= u8::MAX,
{
    assert(passed * 100 <= count * 100) by (nonlinear_arith)
        requires passed <= count;
    vstd::arithmetic::div_mod::lemma_div_is_ordered(passed * 100, count * 100, count);
    assert(count * 100 / count == 100) by {
        vstd::arithmetic::div_mod::lemma_div_by_multiple(100, count);
        assert(100 * count == count * 100) by (nonlinear_arith);
    }
    vstd::arithmetic::div_mod::lemma_div_pos_is_pos(passed * 100, count);
    assert(passed * 100 >= 0) by (nonlinear_arith)
        requires passed >= 0;
}


/// The diagnostics report hash recorded for a trade, if any.
pub open spec fn spec_report_hash_opt(a: TradeAux) -> Option<[u8; 32]> {
    match a.diagnostic_report {
        Some(r) => Some(r.report_hash),
        None => None,
    }
}

/// The lifecycle invariant the pallet maintains across every call:
/// a trade holding funds sits on a listing marked sold; no two trades
/// holding funds sit on the same listing; and a completion commitment
/// appears only on a completed trade, sealing exactly the trade's stored
/// contract hash, delivery attestation and diagnostics report.
pub open spec fn spec_lifecycle_inv(p: Pallet) -> bool {
    &&& p.trades@.len() == p.trade_aux@.len()
    &&& forall|i: int| 0 <= i < p.trades@.len() && spec_trade_live(
        (#[trigger] p.trades@[i]).status,
    ) ==> p.trades@[i].listing_id < p.listings@.len() && p.listings@[
        p.trades@[i].listing_id as int
    ].status == ListingStatus::Sold && p.listings@[p.trades@[i].listing_id as int].bond
        == p.trades@[i].seller_bond && p.listings@[p.trades@[i].listing_id as int].seller
        == p.trades@[i].seller
    &&& forall|i: int, j: int| 0 <= i < j < p.trades@.len() && spec_trade_live(
        (#[trigger] p.trades@[i]).status,
    ) && spec_trade_live((#[trigger] p.trades@[j]).status) ==> p.trades@[i].listing_id
        != p.trades@[j].listing_id
    &&& forall|i: int| 0 <= i < p.trades@.len() && (#[trigger] p.trades@[i]).final_hash is Some
        ==> p.trades@[i].status == TradeStatus::Completed
        && (p.trades@[i].final_hash->0)@ == crate::commit::spec_final_hash(
        p.trades@[i].contract_hash@,
        p.trades@[i].delivery_attestation_hash,
        spec_report_hash_opt(p.trade_aux@[i]),
    )
}

/// A new listing cannot disturb the lifecycle: it starts active and no
/// existing trade points at it.
proof fn lemma_lifecycle_push_listing(pre: Pallet, post: Pallet)
    requires
        spec_lifecycle_inv(pre),
        post.trades@ == pre.trades@,
        post.trade_aux@ == pre.trade_aux@,
        post.listings@.len() == pre.listings@.len() + 1,
        forall|k: int| 0 <= k < pre.listings@.len() ==> post.listings@[k] == pre.listings@[k],
    ensures
        spec_lifecycle_inv(post),
{
}

/// A purchase keeps the lifecycle: the listing was on sale, so no trade
/// holding funds pointed at it; the new trade is its one holder and the
/// listing is now sold.
proof fn lemma_lifecycle_purchase(pre: Pallet, post: Pallet, listing_id: int)
    requires
        spec_lifecycle_inv(pre),
        0 <= listing_id < pre.listings@.len(),
        pre.listings@[listing_id].status == ListingStatus::Active,
        post.trades@.len() == pre.trades@.len() + 1,
        forall|k: int| 0 <= k < pre.trades@.len() ==> post.trades@[k] == pre.trades@[k],
        post.trades@.last().listing_id == listing_id,
        post.trades@.last().final_hash is None,
        post.trades@.last().seller_bond == pre.listings@[listing_id].bond,
        post.trades@.last().seller == pre.listings@[listing_id].seller,
        post.trade_aux@.len() == pre.trade_aux@.len() + 1,
        forall|k: int| 0 <= k < pre.trade_aux@.len() ==> post.trade_aux@[k]
            == pre.trade_aux@[k],
        post.listings@ == pre.listings@.update(
            listing_id,
            Listing { status: ListingStatus::Sold, ..pre.listings@[listing_id] },
        ),
    ensures
        spec_lifecycle_inv(post),
{
    let n = pre.trades@.len() as int;
    assert forall|i: int| 0 <= i < post.trades@.len() && spec_trade_live(
        (#[trigger] post.trades@[i]).status,
    ) implies post.trades@[i].listing_id < post.listings@.len() && post.listings@[
        post.trades@[i].listing_id as int
    ].status == ListingStatus::Sold && post.listings@[post.trades@[i].listing_id as int].bond
        == post.trades@[i].seller_bond && post.listings@[
        post.trades@[i].listing_id as int
    ].seller == post.trades@[i].seller by {
        if i < n {
            assert(pre.listings@[pre.trades@[i].listing_id as int].status
                == ListingStatus::Sold);
            assert(pre.trades@[i].listing_id != listing_id);
        }
    }
    assert forall|i: int, j: int| 0 <= i < j < post.trades@.len() && spec_trade_live(
        (#[trigger] post.trades@[i]).status,
    ) && spec_trade_live((#[trigger] post.trades@[j]).status) implies post.trades@[i].listing_id
        != post.trades@[j].listing_id by {
        if j < n {
        } else if i < n {
            assert(pre.listings@[pre.trades@[i].listing_id as int].status
                == ListingStatus::Sold);
        }
    }
}

/// A status change of one funds-holding trade to another funds-holding
/// state, leaving everything else alone, keeps the lifecycle.
proof fn lemma_lifecycle_live_step(pre: Pallet, post: Pallet, i: int)
    requires
        spec_lifecycle_inv(pre),
        0 <= i < pre.trades@.len(),
        spec_trade_live(pre.trades@[i].status),
        spec_trade_live(post.trades@[i].status),
        post.trades@[i].status != TradeStatus::Completed,
        post.trades@ == pre.trades@.update(i, post.trades@[i]),
        post.trades@[i] == (Trade { status: post.trades@[i].status, ..pre.trades@[i] }),
        post.trade_aux@.len() == pre.trade_aux@.len(),
        forall|k: int| 0 <= k < pre.trade_aux@.len() ==> spec_report_hash_opt(
            #[trigger] post.trade_aux@[k],
        ) == spec_report_hash_opt(pre.trade_aux@[k]),
        post.listings@ == pre.listings@,
    ensures
        spec_lifecycle_inv(post),
{
    assert(pre.trades@[i].final_hash is Some ==> pre.trades@[i].status
        == TradeStatus::Completed);
}

/// Closing one funds-holding trade — optionally moving its listing to a
/// new state and sealing a completion commitment — keeps the lifecycle:
/// the closed trade was the listing's only holder.
proof fn lemma_lifecycle_close(pre: Pallet, post: Pallet, i: int)
    requires
        spec_lifecycle_inv(pre),
        0 <= i < pre.trades@.len(),
        spec_trade_live(pre.trades@[i].status),
        !spec_trade_live(post.trades@[i].status),
        post.trades@ == pre.trades@.update(i, post.trades@[i]),
        post.trades@[i].listing_id == pre.trades@[i].listing_id,
        post.trade_aux@ == pre.trade_aux@,
        post.listings@ == pre.listings@ || post.listings@ == pre.listings@.update(
            pre.trades@[i].listing_id as int,
            post.listings@[pre.trades@[i].listing_id as int],
        ),
        (post.trades@[i].final_hash is Some ==> post.trades@[i].status
            == TradeStatus::Completed && (post.trades@[i].final_hash->0)@
            == crate::commit::spec_final_hash(
            post.trades@[i].contract_hash@,
            post.trades@[i].delivery_attestation_hash,
            spec_report_hash_opt(post.trade_aux@[i]),
        )),
    ensures
        spec_lifecycle_inv(post),
{
    let lid = pre.trades@[i].listing_id as int;
    assert forall|k: int| 0 <= k < post.trades@.len() && spec_trade_live(
        (#[trigger] post.trades@[k]).status,
    ) implies post.trades@[k].listing_id < post.listings@.len() && post.listings@[
        post.trades@[k].listing_id as int
    ].status == ListingStatus::Sold && post.listings@[post.trades@[k].listing_id as int].bond
        == post.trades@[k].seller_bond && post.listings@[
        post.trades@[k].listing_id as int
    ].seller == post.trades@[k].seller by {
        assert(k != i);
        assert(spec_trade_live(pre.trades@[k].status));
        assert(pre.listings@[pre.trades@[k].listing_id as int].status == ListingStatus::Sold);
        if post.listings@ != pre.listings@ {
            if k < i {
                assert(pre.trades@[k].listing_id != pre.trades@[i].listing_id);
            } else {
                assert(pre.trades@[i].listing_id != pre.trades@[k].listing_id);
            }
        }
    }
    assert forall|k: int| 0 <= k < post.trades@.len() && (#[trigger] post.trades@[
        k
    ]).final_hash is Some implies post.trades@[k].status == TradeStatus::Completed && (
    post.trades@[k].final_hash->0)@ == crate::commit::spec_final_hash(
        post.trades@[k].contract_hash@,
        post.trades@[k].delivery_attestation_hash,
        spec_report_hash_opt(post.trade_aux@[k]),
    ) by {
        if k != i {
            assert(pre.trades@[k].final_hash is Some);
        }
    }
}

/// Re-marking a listing that is not sold cannot disturb the lifecycle:
/// no funds-holding trade points at it.
proof fn lemma_lifecycle_listing_nonsold_update(pre: Pallet, post: Pallet, lid: int)
    requires
        spec_lifecycle_inv(pre),
        0 <= lid < pre.listings@.len(),
        pre.listings@[lid].status != ListingStatus::Sold,
        post.trades@ == pre.trades@,
        post.trade_aux@ == pre.trade_aux@,
        post.listings@ == pre.listings@.update(lid, post.listings@[lid]),
    ensures
        spec_lifecycle_inv(post),
{
    assert forall|k: int| 0 <= k < post.trades@.len() && spec_trade_live(
        (#[trigger] post.trades@[k]).status,
    ) implies post.trades@[k].listing_id < post.listings@.len() && post.listings@[
        post.trades@[k].listing_id as int
    ].status == ListingStatus::Sold && post.listings@[post.trades@[k].listing_id as int].bond
        == post.trades@[k].seller_bond && post.listings@[
        post.trades@[k].listing_id as int
    ].seller == post.trades@[k].seller by {
        assert(pre.listings@[pre.trades@[k].listing_id as int].status == ListingStatus::Sold);
    }
}

/// Changing only a trade's bookkeeping — without touching a recorded
/// report of a completed trade — keeps the lifecycle.
proof fn lemma_lifecycle_aux_step(pre: Pallet, post: Pallet, i: int)
    requires
        spec_lifecycle_inv(pre),
        0 <= i < pre.trade_aux@.len(),
        post.trades@ == pre.trades@,
        post.listings@ == pre.listings@,
        post.trade_aux@ == pre.trade_aux@.update(i, post.trade_aux@[i]),
        pre.trades@[i].status != TradeStatus::Completed || spec_report_hash_opt(
            post.trade_aux@[i],
        ) == spec_report_hash_opt(pre.trade_aux@[i]),
    ensures
        spec_lifecycle_inv(post),
{
    assert forall|k: int| 0 <= k < post.trades@.len() && (#[trigger] post.trades@[
        k
    ]).final_hash is Some implies post.trades@[k].status == TradeStatus::Completed && (
    post.trades@[k].final_hash->0)@ == crate::commit::spec_final_hash(
        post.trades@[k].contract_hash@,
        post.trades@[k].delivery_attestation_hash,
        spec_report_hash_opt(post.trade_aux@[k]),
    ) by {
        assert(pre.trades@[k].final_hash is Some);
        assert(pre.trades@[k].status == TradeStatus::Completed);
    }
}


/// The funds an open listing obliges its seller to keep reserved.
pub open spec fn spec_listing_obl(li: Listing, a: AccountId) -> int {
    if li.seller == a && li.status == ListingStatus::Active {
        li.bond as int
    } else {
        0
    }
}

/// The funds a trade obliges a party to keep reserved: the buyer holds
/// the escrow, the seller the bond, while the trade holds funds at all.
pub open spec fn spec_trade_obl(t: Trade, a: AccountId) -> int {
    if spec_trade_live(t.status) {
        (if t.buyer == a {
            spec_escrow_amount(t)
        } else {
            0
        }) + (if t.seller == a {
            t.seller_bond as int
        } else {
            0
        })
    } else {
        0
    }
}

/// Total listing obligations of one account.
pub open spec fn spec_sum_listing_obl(s: Seq<Listing>, a: AccountId) -> int
    decreases s.len(),
{
    if s.len() == 0 {
        0
    } else {
        spec_sum_listing_obl(s.drop_last(), a) + spec_listing_obl(s.last(), a)
    }
}

/// Total trade obligations of one account.
pub open spec fn spec_sum_trade_obl(s: Seq<Trade>, a: AccountId) -> int
    decreases s.len(),
{
    if s.len() == 0 {
        0
    } else {
        spec_sum_trade_obl(s.drop_last(), a) + spec_trade_obl(s.last(), a)
    }
}

/// Everything the pallet obliges one account to keep reserved.
pub open spec fn spec_obligations(p: Pallet, a: AccountId) -> int {
    spec_sum_listing_obl(p.listings@, a) + spec_sum_trade_obl(p.trades@, a)
}

/// The funds invariant: every account's reserved balance is exactly what
/// the pallet's open listings and funds-holding trades oblige it to
/// keep. Only the trade pallet reserves funds on this chain.
pub open spec fn spec_funds_inv(p: Pallet, l: Ledger) -> bool {
    forall|a: AccountId| #![auto] l.reserved_of(a) == spec_obligations(p, a)
}

proof fn lemma_sum_listing_push(s: Seq<Listing>, x: Listing, a: AccountId)
    ensures
        spec_sum_listing_obl(s.push(x), a) == spec_sum_listing_obl(s, a) + spec_listing_obl(
            x,
            a,
        ),
{
    assert(s.push(x).drop_last() =~= s);
    assert(s.push(x).last() == x);
}

proof fn lemma_sum_trade_push(s: Seq<Trade>, x: Trade, a: AccountId)
    ensures
        spec_sum_trade_obl(s.push(x), a) == spec_sum_trade_obl(s, a) + spec_trade_obl(x, a),
{
    assert(s.push(x).drop_last() =~= s);
    assert(s.push(x).last() == x);
}

proof fn lemma_sum_listing_update(s: Seq<Listing>, i: int, x: Listing, a: AccountId)
    requires
        0 <= i < s.len(),
    ensures
        spec_sum_listing_obl(s.update(i, x), a) == spec_sum_listing_obl(s, a)
            - spec_listing_obl(s[i], a) + spec_listing_obl(x, a),
    decreases s.len(),
{
    let s2 = s.update(i, x);
    if i == s.len() - 1 {
        assert(s2.drop_last() =~= s.drop_last());
        assert(s2.last() == x);
    } else {
        assert(s2.drop_last() =~= s.drop_last().update(i, x));
        assert(s2.last() == s.last());
        lemma_sum_listing_update(s.drop_last(), i, x, a);
    }
}

proof fn lemma_sum_trade_update(s: Seq<Trade>, i: int, x: Trade, a: AccountId)
    requires
        0 <= i < s.len(),
    ensures
        spec_sum_trade_obl(s.update(i, x), a) == spec_sum_trade_obl(s, a) - spec_trade_obl(
            s[i],
            a,
        ) + spec_trade_obl(x, a),
    decreases s.len(),
{
    let s2 = s.update(i, x);
    if i == s.len() - 1 {
        assert(s2.drop_last() =~= s.drop_last());
        assert(s2.last() == x);
    } else {
        assert(s2.drop_last() =~= s.drop_last().update(i, x));
        assert(s2.last() == s.last());
        lemma_sum_trade_update(s.drop_last(), i, x, a);
    }
}

proof fn lemma_sum_listing_nonneg(s: Seq<Listing>, a: AccountId)
    ensures
        spec_sum_listing_obl(s, a) >= 0,
    decreases s.len(),
{
    if s.len() > 0 {
        lemma_sum_listing_nonneg(s.drop_last(), a);
    }
}

proof fn lemma_sum_trade_nonneg(s: Seq<Trade>, a: AccountId)
    ensures
        spec_sum_trade_obl(s, a) >= 0,
    decreases s.len(),
{
    if s.len() > 0 {
        lemma_sum_trade_nonneg(s.drop_last(), a);
    }
}

/// One listing's obligation never exceeds the account's listing total.
proof fn lemma_listing_obl_le_sum(s: Seq<Listing>, i: int, a: AccountId)
    requires
        0 <= i < s.len(),
    ensures
        spec_listing_obl(s[i], a) <= spec_sum_listing_obl(s, a),
    decreases s.len(),
{
    if i == s.len() - 1 {
        lemma_sum_listing_nonneg(s.drop_last(), a);
    } else {
        lemma_listing_obl_le_sum(s.drop_last(), i, a);
        assert(s.drop_last()[i] == s[i]);
    }
}

/// One trade's obligation never exceeds the account's trade total.
proof fn lemma_trade_obl_le_sum(s: Seq<Trade>, i: int, a: AccountId)
    requires
        0 <= i < s.len(),
    ensures
        spec_trade_obl(s[i], a) <= spec_sum_trade_obl(s, a),
    decreases s.len(),
{
    if i == s.len() - 1 {
        lemma_sum_trade_nonneg(s.drop_last(), a);
    } else {
        lemma_trade_obl_le_sum(s.drop_last(), i, a);
        assert(s.drop_last()[i] == s[i]);
    }
}


/// Escrow coverage. Under the funds invariant, every trade that holds
/// funds is covered: the buyer keeps at least the escrow reserved and
/// the seller at least the bond.
pub proof fn lemma_live_trade_funds_covered(p: Pallet, l: Ledger, i: int)
    requires
        spec_funds_inv(p, l),
        0 <= i < p.trades@.len(),
        spec_trade_live(p.trades@[i].status),
    ensures
        l.reserved_of(p.trades@[i].buyer) >= spec_escrow_amount(p.trades@[i]),
        l.reserved_of(p.trades@[i].seller) >= p.trades@[i].seller_bond,
{
    let t = p.trades@[i];
    lemma_trade_obl_le_sum(p.trades@, i, t.buyer);
    lemma_trade_obl_le_sum(p.trades@, i, t.seller);
    lemma_sum_listing_nonneg(p.listings@, t.buyer);
    lemma_sum_listing_nonneg(p.listings@, t.seller);
    assert(l.reserved_of(t.buyer) == spec_obligations(p, t.buyer));
    assert(l.reserved_of(t.seller) == spec_obligations(p, t.seller));
}

/// Single holder. Under the lifecycle invariant, a trade holding funds
/// sits on a listing marked sold, and no other funds-holding trade sits
/// on the same listing.
pub proof fn lemma_sold_listing_single_holder(p: Pallet, i: int, j: int)
    requires
        spec_lifecycle_inv(p),
        0 <= i < p.trades@.len(),
        0 <= j < p.trades@.len(),
        i != j,
        spec_trade_live(p.trades@[i].status),
        spec_trade_live(p.trades@[j].status),
    ensures
        p.trades@[i].listing_id < p.listings@.len(),
        p.listings@[p.trades@[i].listing_id as int].status == ListingStatus::Sold,
        p.trades@[i].listing_id != p.trades@[j].listing_id,
{
    if i < j {
    } else {
        assert(p.trades@[j].listing_id != p.trades@[i].listing_id);
    }
}

/// Sealed completion. Under the lifecycle invariant, a trade carrying a
/// completion commitment is completed, and the commitment is the digest
/// of exactly its stored contract hash, delivery attestation and
/// diagnostics report.
pub proof fn lemma_final_hash_seals_completion(p: Pallet, i: int)
    requires
        spec_lifecycle_inv(p),
        0 <= i < p.trades@.len(),
        p.trades@[i].final_hash is Some,
    ensures
        p.trades@[i].status == TradeStatus::Completed,
        (p.trades@[i].final_hash->0)@ == crate::commit::spec_final_hash(
            p.trades@[i].contract_hash@,
            p.trades@[i].delivery_attestation_hash,
            spec_report_hash_opt(p.trade_aux@[i]),
        ),
{
}

/// Round trip of a listing. A creation reserves the whole bond, and a
/// cancellation of that same listing releases the whole bond and drops
/// the count it raised: the seller's balances and open-listing count
/// end where they began.
pub proof fn lemma_create_cancel_round_trip(
    l0: Ledger,
    l1: Ledger,
    l2: Ledger,
    bond: u128,
    c0: u32,
    c1: u32,
    c2: u32,
    who: AccountId,
)
    requires
        l1.free_of(who) == l0.free_of(who) - bond,
        l1.reserved_of(who) == l0.reserved_of(who) + bond,
        c1 == c0 + 1,
        l2.free_of(who) == l1.free_of(who) + spec_min_u128(bond, l1.reserved_of(who)),
        l2.reserved_of(who) == l1.reserved_of(who) - spec_min_u128(bond, l1.reserved_of(who)),
        c2 == spec_sat_sub_u32(c1, 1),
    ensures
        l2.free_of(who) == l0.free_of(who),
        l2.reserved_of(who) == l0.reserved_of(who),
        c2 == c0,
{
}

/// Round trip of a purchase. A purchase reserves the whole escrow, and
/// a rejection of that same trade releases it whole: the buyer's
/// balances end where they began (the listing itself goes back on sale
/// by the rejection's own contract).
pub proof fn lemma_purchase_reject_round_trip(
    l0: Ledger,
    l1: Ledger,
    l2: Ledger,
    t: Trade,
    buyer: AccountId,
)
    requires
        buyer == t.buyer,
        l1.free_of(buyer) == l0.free_of(buyer) - spec_escrow_amount(t),
        l1.reserved_of(buyer) == l0.reserved_of(buyer) + spec_escrow_amount(t),
        l2.free_of(buyer) == l1.free_of(buyer) + spec_refund_moved(t, l1),
        l2.reserved_of(buyer) == l1.reserved_of(buyer) - spec_refund_moved(t, l1),
    ensures
        l2.free_of(buyer) == l0.free_of(buyer),
        l2.reserved_of(buyer) == l0.reserved_of(buyer),
{
}

/// Diagnostics are recorded once. The flag that marks a recorded report
/// moves from unset to set by one submission and is never cleared: any
/// transition the pallet's calls allow keeps a set flag set.
pub proof fn lemma_has_diagnostics_monotone(pre: Seq<TradeAux>, post: Seq<TradeAux>, k: int)
    requires
        0 <= k < pre.len(),
        pre.len() <= post.len(),
        post[k] == pre[k] || (post == pre.update(k, post[k]) && post[k].has_diagnostics),
        pre[k].has_diagnostics,
    ensures
        post[k].has_diagnostics,
{
}

/// Saturating decrement of a listing count.
pub open spec fn spec_sat_sub_u32(a: u32, b: u32) -> u32 {
    if a >= b {
        (a - b) as u32
    } else {
        0u32
    }
}

/// Configuration, policy switches and statistics are as in `o`.
pub open spec fn spec_same_admin_stats(p: Pallet, o: Pallet) -> bool {
    &&& p.config == o.config
    &&& p.kod_only_block_override == o.kod_only_block_override
    &&& p.kod_tl_rate == o.kod_tl_rate
    &&& p.trading_paused == o.trading_paused
    &&& p.total_trades_completed == o.total_trades_completed
    &&& p.total_volume == o.total_volume
}

/// Everything but the events is as in `o`.
pub open spec fn spec_same_but_events(p: Pallet, o: Pallet) -> bool {
    &&& p.config == o.config
    &&& p.listings@ == o.listings@
    &&& p.trades@ == o.trades@
    &&& p.trade_aux@ == o.trade_aux@
    &&& p.user_listing_count@ == o.user_listing_count@
    &&& p.kod_only_block_override == o.kod_only_block_override
    &&& p.kod_tl_rate == o.kod_tl_rate
    &&& p.trading_paused == o.trading_paused
    &&& p.total_trades_completed == o.total_trades_completed
    &&& p.total_volume == o.total_volume
}

/// Everything but the KOD-only override and the events is as in `o`.
pub open spec fn spec_same_but_kod_block_events(p: Pallet, o: Pallet) -> bool {
    &&& p.config == o.config
    &&& p.listings@ == o.listings@
    &&& p.trades@ == o.trades@
    &&& p.trade_aux@ == o.trade_aux@
    &&& p.user_listing_count@ == o.user_listing_count@
    &&& p.kod_tl_rate == o.kod_tl_rate
    &&& p.trading_paused == o.trading_paused
    &&& p.total_trades_completed == o.total_trades_completed
    &&& p.total_volume == o.total_volume
}

/// Everything but the pause flag and the events is as in `o`.
pub open spec fn spec_same_but_paused_events(p: Pallet, o: Pallet) -> bool {
    &&& p.config == o.config
    &&& p.listings@ == o.listings@
    &&& p.trades@ == o.trades@
    &&& p.trade_aux@ == o.trade_aux@
    &&& p.user_listing_count@ == o.user_listing_count@
    &&& p.kod_only_block_override == o.kod_only_block_override
    &&& p.kod_tl_rate == o.kod_tl_rate
    &&& p.total_trades_completed == o.total_trades_completed
    &&& p.total_volume == o.total_volume
}

/// Everything but the rate and the events is as in `o`.
pub open spec fn spec_same_but_rate_events(p: Pallet, o: Pallet) -> bool {
    &&& p.config == o.config
    &&& p.listings@ == o.listings@
    &&& p.trades@ == o.trades@
    &&& p.trade_aux@ == o.trade_aux@
    &&& p.user_listing_count@ == o.user_listing_count@
    &&& p.kod_only_block_override == o.kod_only_block_override
    &&& p.trading_paused == o.trading_paused
    &&& p.total_trades_completed == o.total_trades_completed
    &&& p.total_volume == o.total_volume
}

/// The count for an account is the value at the first index that names it.
proof fn lemma_ulc_first(s: Seq<(AccountId, u32)>, i: int)
    requires
        0 <= i < s.len(),
        forall|j: int| 0 <= j < i ==> s[j].0 != s[i].0,
    ensures
        spec_ulc(s, s[i].0) == s[i].1,
    decreases s.len(),
{
    if i > 0 {
        assert forall|j: int| 0 <= j < i - 1 implies #[trigger] s.drop_first()[j].0
            != s.drop_first()[i - 1].0 by {
            assert(s[j + 1].0 != s[i].0);
        }
        lemma_ulc_first(s.drop_first(), i - 1);
    }
}

/// An account named by no pair has count zero.
proof fn lemma_ulc_absent(s: Seq<(AccountId, u32)>, a: AccountId)
    requires
        forall|i: int| 0 <= i < s.len() ==> s[i].0 != a,
    ensures
        spec_ulc(s, a) == 0,
    decreases s.len(),
{
    if s.len() > 0 {
        lemma_ulc_absent(s.drop_first(), a);
    }
}

/// Updating the first pair of an account rewrites its count and no other.
proof fn lemma_ulc_update_first(s: Seq<(AccountId, u32)>, i: int, v: u32, b: AccountId)
    requires
        0 <= i < s.len(),
        forall|j: int| 0 <= j < i ==> s[j].0 != s[i].0,
    ensures
        spec_ulc(s.update(i, (s[i].0, v)), b) == if b == s[i].0 {
            v
        } else {
            spec_ulc(s, b)
        },
    decreases s.len(),
{
    let a = s[i].0;
    let s2 = s.update(i, (a, v));
    if i == 0 {
        assert(s2[0] == (a, v));
        if b != a {
            assert(s2.drop_first() =~= s.drop_first());
        }
    } else {
        assert(s[0].0 != a);
        assert(s2[0] == s[0]);
        assert(s2.drop_first() =~= s.drop_first().update(i - 1, (a, v)));
        assert forall|j: int| 0 <= j < i - 1 implies #[trigger] s.drop_first()[j].0
            != s.drop_first()[i - 1].0 by {
            assert(s[j + 1].0 != s[i].0);
        }
        assert(s.drop_first()[i - 1] == s[i]);
        lemma_ulc_update_first(s.drop_first(), i - 1, v, b);
    }
}

/// Appending a pair for an account with no earlier pair sets its count
/// and no other.
proof fn lemma_ulc_push(s: Seq<(AccountId, u32)>, a: AccountId, v: u32, b: AccountId)
    requires
        forall|i: int| 0 <= i < s.len() ==> s[i].0 != a,
    ensures
        spec_ulc(s.push((a, v)), b) == if b == a {
            v
        } else {
            spec_ulc(s, b)
        },
    decreases s.len(),
{
    if s.len() == 0 {
        let sp = s.push((a, v));
        assert(sp[0] == (a, v));
        assert(sp.first() == (a, v));
        if b == a {
            assert(spec_ulc(sp, b) == v);
        } else {
            assert(sp.drop_first() =~= Seq::<(AccountId, u32)>::empty());
            assert(spec_ulc(sp, b) == spec_ulc(sp.drop_first(), b));
            assert(spec_ulc(sp.drop_first(), b) == 0);
            assert(spec_ulc(s, b) == 0);
        }
    } else {
        let sp = s.push((a, v));
        assert(sp[0] == s[0]);
        assert(sp.first() == s[0]);
        assert(s[0].0 != a);
        assert(sp.drop_first() =~= s.drop_first().push((a, v)));
        assert forall|j: int| 0 <= j < s.drop_first().len() implies #[trigger] s.drop_first()[
            j
        ].0 != a by {
            assert(s[j + 1].0 != a);
        }
        lemma_ulc_push(s.drop_first(), a, v, b);
        if s[0].0 == b {
            assert(spec_ulc(sp, b) == s[0].1);
            assert(spec_ulc(s, b) == s[0].1);
        } else {
            assert(spec_ulc(sp, b) == spec_ulc(sp.drop_first(), b));
            assert(spec_ulc(s, b) == spec_ulc(s.drop_first(), b));
        }
    }
}

} // verus!
