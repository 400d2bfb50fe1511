//! The composed chain state: the balances ledger and the two pallets,
//! with the genesis allocator that splits the fixed supply between the
//! mining reserve and the endowed accounts, and the per-block hooks.

use vstd::prelude::*;
use crate::{AccountId, MINING_RESERVE, INITIAL_BLOCK_REWARD, HALVING_INTERVAL, KOD_ONLY_BLOCK};
use crate::ledger::Ledger;
use crate::block_reward;
use crate::trade;
use crate::trade::{spec_lifecycle_inv, spec_funds_inv, spec_obligations};

verus! {

/// The mining reserve's account key: the ASCII bytes of the reserve tag
/// `"mineresv"`, read as one little-endian word.
pub const MINING_RESERVE_TAG: u64 = 0x7673_6572_656E_696D;

/// The account the mining rewards are drawn from, derived from the
/// reserve tag.
pub struct MiningReserveAccount;

impl MiningReserveAccount {
    /// The reserve account.
    pub fn get() -> (r: AccountId)
        ensures
            r == AccountId(MINING_RESERVE_TAG),
    {
        AccountId(MINING_RESERVE_TAG)
    }
}

/// The whole chain state the block execution works on.
pub struct Runtime {
    /// The balances ledger.
    pub balances: Ledger,
    /// The block-reward pallet.
    pub block_reward: block_reward::Pallet,
    /// The trade pallet.
    pub trade: trade::Pallet,
    /// The root key, if one is set.
    pub sudo_key: Option<AccountId>,
    /// The block currently executing.
    pub block_number: u32,
}

impl Runtime {
    /// The chain's whole-state invariant: the ledger and the trade
    /// tables are sound, trades and listings respect the lifecycle, and
    /// every reservation is accounted for by an open listing or a
    /// funds-holding trade.
    pub open spec fn inv(self) -> bool {
        &&& self.balances.wf()
        &&& self.trade.wf()
        &&& spec_lifecycle_inv(self.trade)
        &&& spec_funds_inv(self.trade, self.balances)
    }

    /// Build the chain's genesis state: each endowed account gets its
    /// free balance, the mining reserve gets its allocation, the pallets
    /// start empty, and root holds the sudo key.
    pub fn kod_genesis(
        endowed: Vec<(AccountId, u128)>,
        root: AccountId,
        reward_config: block_reward::Config,
        trade_config: trade::Config,
    ) -> (r: Runtime)
        requires
            forall|i: int, j: int| 0 <= i < j < endowed@.len() ==> endowed@[i].0
                != endowed@[j].0,
            forall|i: int| 0 <= i < endowed@.len() ==> (#[trigger] endowed@[i]).0
                != AccountId(MINING_RESERVE_TAG),
            forall|i: int| 0 <= i < endowed@.len() ==> (#[trigger] endowed@[i]).1
                <= crate::TOTAL_SUPPLY,
        ensures
            r.inv(),
            forall|i: int| 0 <= i < endowed@.len() ==> r.balances.free_of(
                (#[trigger] endowed@[i]).0,
            ) == endowed@[i].1,
            r.balances.free_of(AccountId(MINING_RESERVE_TAG)) == MINING_RESERVE,
            forall|a: AccountId| #![auto] r.balances.reserved_of(a) == 0,
            r.sudo_key == Some(root),
            r.block_reward.config == reward_config,
            r.trade.config == trade_config,
            r.block_number == 0,
    {
        let mut balances = Ledger::new();
        let ghost l0 = balances;
        balances.deposit(MiningReserveAccount::get(), MINING_RESERVE);
        proof {
            assert forall|p: int| 0 <= p < endowed@.len() implies balances.free_of(
                (#[trigger] endowed@[p]).0,
            ) == 0 by {
                assert(balances.same_account(l0, endowed@[p].0));
            }
            assert forall|a: AccountId| #![auto] balances.reserved_of(a) == 0 by {
                if a != AccountId(MINING_RESERVE_TAG) {
                    assert(balances.same_account(l0, a));
                }
            }
        }
        let n = endowed.len();
        let mut i: usize = 0;
        while i < n
            invariant
                i <= n,
                n == endowed@.len(),
                balances.wf(),
                forall|p: int, q: int| 0 <= p < q < endowed@.len() ==> endowed@[p].0
                    != endowed@[q].0,
                forall|p: int| 0 <= p < endowed@.len() ==> (#[trigger] endowed@[p]).0
                    != AccountId(MINING_RESERVE_TAG),
                forall|p: int| 0 <= p < endowed@.len() ==> (#[trigger] endowed@[p]).1
                    <= crate::TOTAL_SUPPLY,
                balances.free_of(AccountId(MINING_RESERVE_TAG)) == MINING_RESERVE,
                forall|p: int| 0 <= p < i ==> balances.free_of((#[trigger] endowed@[p]).0)
                    == endowed@[p].1,
                forall|p: int| i <= p < endowed@.len() ==> balances.free_of(
                    (#[trigger] endowed@[p]).0,
                ) == 0,
                forall|a: AccountId| #![auto] balances.reserved_of(a) == 0,
            decreases n - i,
        {
            let (who, amount) = endowed[i];
            let ghost pre = balances;
            balances.deposit(who, amount);
            i = i + 1;
            proof {
                assert forall|p: int| 0 <= p < i implies balances.free_of(
                    (#[trigger] endowed@[p]).0,
                ) == endowed@[p].1 by {
                    if p < i - 1 {
                        assert(endowed@[p].0 != who);
                        assert(balances.same_account(pre, endowed@[p].0));
                    }
                }
                assert forall|p: int| i <= p < endowed@.len() implies balances.free_of(
                    (#[trigger] endowed@[p]).0,
                ) == 0 by {
                    assert(endowed@[p].0 != who);
                    assert(balances.same_account(pre, endowed@[p].0));
                }
                assert forall|a: AccountId| #![auto] balances.reserved_of(a) == 0 by {
                    if a != who {
                        assert(balances.same_account(pre, a));
                    }
                }
                assert(balances.free_of(AccountId(MINING_RESERVE_TAG)) == MINING_RESERVE) by {
                    assert(balances.same_account(pre, AccountId(MINING_RESERVE_TAG)));
                }
            }
        }
        let runtime = Runtime {
            balances,
            block_reward: block_reward::Pallet::new(reward_config),
            trade: trade::Pallet::new(trade_config),
            sudo_key: Some(root),
            block_number: 0,
        };
        proof {
            assert forall|a: AccountId| #![auto]
                runtime.balances.reserved_of(a) == spec_obligations(runtime.trade, a) by {}
        }
        runtime
    }

    /// The default configuration of the reward pallet, as the chain
    /// ships it.
    pub fn default_reward_config() -> (r: block_reward::Config)
        ensures
            r.reward_amount == INITIAL_BLOCK_REWARD,
            r.halving_interval == HALVING_INTERVAL,
            r.mining_reserve_account == AccountId(MINING_RESERVE_TAG),
    {
        block_reward::Config {
            reward_amount: INITIAL_BLOCK_REWARD,
            halving_interval: HALVING_INTERVAL,
            mining_reserve_account: MiningReserveAccount::get(),
        }
    }

    /// The default configuration of the trade pallet, as the chain
    /// ships it.
    pub fn default_trade_config(min_bond: u128, max_listings_per_user: u32) -> (r: trade::Config)
        ensures
            r.min_bond == min_bond,
            r.max_listings_per_user == max_listings_per_user,
            r.kod_only_block == KOD_ONLY_BLOCK,
    {
        trade::Config { min_bond, max_listings_per_user, kod_only_block: KOD_ONLY_BLOCK }
    }

    /// Start a block: remember its number and run the start-of-block
    /// hooks.
    pub fn initialize_block(&mut self, n: u32)
        ensures
            final(self).block_number == n,
            final(self).balances == old(self).balances,
            final(self).block_reward == old(self).block_reward,
            final(self).sudo_key == old(self).sudo_key,
            trade::spec_same_but_events(final(self).trade, old(self).trade),
            old(self).inv() ==> final(self).inv(),
    {
        self.block_number = n;
        self.trade.on_initialize(n);
        proof {
            if old(self).inv() {
                assert(spec_lifecycle_inv(self.trade));
                assert forall|a: AccountId| #![auto] self.balances.reserved_of(a)
                    == spec_obligations(self.trade, a) by {
                    assert(old(self).balances.reserved_of(a) == spec_obligations(
                        old(self).trade,
                        a,
                    ));
                }
            }
        }
    }

    /// End a block: the reward pallet pays the pending beneficiary. The
    /// reward moves between free balances only, so every reservation
    /// stays accounted for.
    pub fn finalize_block(&mut self)
        requires
            old(self).balances.wf(),
        ensures
            final(self).balances.wf(),
            final(self).block_reward.total_rewards_paid
                >= old(self).block_reward.total_rewards_paid,
            final(self).trade == old(self).trade,
            final(self).sudo_key == old(self).sudo_key,
            final(self).block_number == old(self).block_number,
            old(self).inv() ==> final(self).inv(),
    {
        let n = self.block_number;
        let ghost pre = *self;
        let reward_state = &mut self.block_reward;
        reward_state.on_finalize(&mut self.balances, n);
        proof {
            if pre.inv() {
                assert(spec_lifecycle_inv(self.trade));
                assert forall|a: AccountId| #![auto] self.balances.reserved_of(a)
                    == spec_obligations(self.trade, a) by {
                    assert(pre.balances.reserved_of(a) == spec_obligations(pre.trade, a));
                    lemma_finalize_keeps_reserved(pre.block_reward, pre.balances,
                        self.balances, n, a);
                }
            }
        }
    }
}


/// Why a root-gated call was refused at dispatch.
#[derive(Clone, Copy, Debug, PartialEq, Eq, Structural)]
pub enum DispatchError {
    /// The signer does not hold the sudo key.
    BadOrigin,
    /// The origin was good but the call itself was refused.
    Call(trade::Error),
}

impl Runtime {
    /// Whether `who` holds the root capability: the signer must be the
    /// stored sudo key.
    pub open spec fn spec_is_root(self, who: AccountId) -> bool {
        self.sudo_key == Some(who)
    }

    /// The dispatch check behind every root-gated call.
    pub fn ensure_root(&self, who: AccountId) -> (r: bool)
        ensures
            r == self.spec_is_root(who),
    {
        match self.sudo_key {
            Some(k) => k == who,
            None => false,
        }
    }

    /// Root dispatch: set or clear the reward override.
    pub fn sudo_set_reward_override(&mut self, who: AccountId, new_reward: Option<u128>) -> (r:
        Result<(), DispatchError>)
        ensures
            old(self).inv() ==> final(self).inv(),
            !old(self).spec_is_root(who) ==> r == Result::<(), DispatchError>::Err(
                DispatchError::BadOrigin,
            ) && *final(self) == *old(self),
            old(self).spec_is_root(who) ==> {
                &&& r is Ok
                &&& final(self).block_reward.reward_override == new_reward
                &&& final(self).block_reward.events@ == old(self).block_reward.events@.push(
                    block_reward::Event::RewardOverrideSet { new_reward },
                )
                &&& final(self).block_reward.config == old(self).block_reward.config
                &&& final(self).block_reward.pending_miner == old(
                    self,
                ).block_reward.pending_miner
                &&& final(self).block_reward.rewards_paused == old(
                    self,
                ).block_reward.rewards_paused
                &&& final(self).block_reward.total_rewards_paid == old(
                    self,
                ).block_reward.total_rewards_paid
                &&& final(self).balances == old(self).balances
                &&& final(self).trade == old(self).trade
                &&& final(self).sudo_key == old(self).sudo_key
                &&& final(self).block_number == old(self).block_number
            },
    {
        if !self.ensure_root(who) {
            return Err(DispatchError::BadOrigin);
        }
        self.block_reward.set_reward_override(new_reward);
        Ok(())
    }

    /// Root dispatch: pause or resume reward payment.
    pub fn sudo_set_rewards_paused(&mut self, who: AccountId, paused: bool) -> (r: Result<
        (),
        DispatchError,
    >)
        ensures
            old(self).inv() ==> final(self).inv(),
            !old(self).spec_is_root(who) ==> r == Result::<(), DispatchError>::Err(
                DispatchError::BadOrigin,
            ) && *final(self) == *old(self),
            old(self).spec_is_root(who) ==> {
                &&& r is Ok
                &&& final(self).block_reward.rewards_paused == paused
                &&& final(self).block_reward.events@ == old(self).block_reward.events@.push(
                    block_reward::Event::RewardsPausedChanged { paused },
                )
                &&& final(self).block_reward.config == old(self).block_reward.config
                &&& final(self).block_reward.pending_miner == old(
                    self,
                ).block_reward.pending_miner
                &&& final(self).block_reward.reward_override == old(
                    self,
                ).block_reward.reward_override
                &&& final(self).block_reward.total_rewards_paid == old(
                    self,
                ).block_reward.total_rewards_paid
                &&& final(self).balances == old(self).balances
                &&& final(self).trade == old(self).trade
                &&& final(self).sudo_key == old(self).sudo_key
                &&& final(self).block_number == old(self).block_number
            },
    {
        if !self.ensure_root(who) {
            return Err(DispatchError::BadOrigin);
        }
        self.block_reward.set_rewards_paused(paused);
        Ok(())
    }

    /// Root dispatch: move the KOD-only boundary.
    pub fn sudo_set_kod_only_block(&mut self, who: AccountId, new_block: u32) -> (r: Result<
        (),
        DispatchError,
    >)
        ensures
            old(self).inv() ==> final(self).inv(),
            !old(self).spec_is_root(who) ==> r == Result::<(), DispatchError>::Err(
                DispatchError::BadOrigin,
            ) && *final(self) == *old(self),
            old(self).spec_is_root(who) ==> {
                &&& r is Ok
                &&& final(self).trade.kod_only_block_override == Some(new_block)
                &&& final(self).trade.events@ == old(self).trade.events@.push(
                    trade::Event::KodOnlyBlockChanged {
                        old_block: old(self).trade.spec_kod_only_block(),
                        new_block,
                    },
                )
                &&& trade::spec_same_but_kod_block_events(final(self).trade, old(self).trade)
                &&& final(self).balances == old(self).balances
                &&& final(self).block_reward == old(self).block_reward
                &&& final(self).sudo_key == old(self).sudo_key
                &&& final(self).block_number == old(self).block_number
            },
    {
        if !self.ensure_root(who) {
            return Err(DispatchError::BadOrigin);
        }
        self.trade.set_kod_only_block(new_block);
        proof {
            if old(self).inv() {
                lemma_inv_under_same_tables(*old(self), *self);
            }
        }
        Ok(())
    }

    /// Root dispatch: pause or resume trading.
    pub fn sudo_set_trading_paused(&mut self, who: AccountId, paused: bool) -> (r: Result<
        (),
        DispatchError,
    >)
        ensures
            old(self).inv() ==> final(self).inv(),
            !old(self).spec_is_root(who) ==> r == Result::<(), DispatchError>::Err(
                DispatchError::BadOrigin,
            ) && *final(self) == *old(self),
            old(self).spec_is_root(who) ==> {
                &&& r is Ok
                &&& final(self).trade.trading_paused == paused
                &&& final(self).trade.events@ == old(self).trade.events@.push(
                    trade::Event::TradingPausedChanged { paused },
                )
                &&& trade::spec_same_but_paused_events(final(self).trade, old(self).trade)
                &&& final(self).balances == old(self).balances
                &&& final(self).block_reward == old(self).block_reward
                &&& final(self).sudo_key == old(self).sudo_key
                &&& final(self).block_number == old(self).block_number
            },
    {
        if !self.ensure_root(who) {
            return Err(DispatchError::BadOrigin);
        }
        self.trade.set_trading_paused(paused);
        proof {
            if old(self).inv() {
                lemma_inv_under_same_tables(*old(self), *self);
            }
        }
        Ok(())
    }

    /// Root dispatch: change the exchange rate.
    pub fn sudo_set_kod_tl_rate(&mut self, who: AccountId, rate_kurus: u64) -> (r: Result<
        (),
        DispatchError,
    >)
        ensures
            old(self).inv() ==> final(self).inv(),
            !old(self).spec_is_root(who) ==> r == Result::<(), DispatchError>::Err(
                DispatchError::BadOrigin,
            ) && *final(self) == *old(self),
            old(self).spec_is_root(who) && rate_kurus == 0 ==> r == Result::<
                (),
                DispatchError,
            >::Err(DispatchError::Call(trade::Error::InvalidRate)) && *final(self)
                == *old(self),
            old(self).spec_is_root(who) && rate_kurus > 0 ==> {
                &&& r is Ok
                &&& final(self).trade.kod_tl_rate == rate_kurus
                &&& final(self).trade.events@ == old(self).trade.events@.push(
                    trade::Event::KodTlRateUpdated {
                        old_rate: old(self).trade.kod_tl_rate,
                        new_rate: rate_kurus,
                    },
                )
                &&& trade::spec_same_but_rate_events(final(self).trade, old(self).trade)
                &&& final(self).balances == old(self).balances
                &&& final(self).block_reward == old(self).block_reward
                &&& final(self).sudo_key == old(self).sudo_key
                &&& final(self).block_number == old(self).block_number
            },
    {
        if !self.ensure_root(who) {
            return Err(DispatchError::BadOrigin);
        }
        let inner = self.trade.set_kod_tl_rate(rate_kurus);
        proof {
            if old(self).inv() {
                lemma_inv_under_same_tables(*old(self), *self);
            }
        }
        match inner {
            Ok(()) => Ok(()),
            Err(e) => Err(DispatchError::Call(e)),
        }
    }

    /// Root dispatch: resolve a dispute. The award itself is the trade
    /// pallet's contract; here only the origin is decided.
    pub fn sudo_resolve_dispute(&mut self, who: AccountId, trade_id: u64, buyer_wins: bool) -> (r:
        Result<(), DispatchError>)
        requires
            old(self).balances.wf(),
            old(self).trade.wf(),
        ensures
            final(self).balances.wf(),
            final(self).trade.wf(),
            old(self).inv() ==> final(self).inv(),
            final(self).block_reward == old(self).block_reward,
            final(self).sudo_key == old(self).sudo_key,
            final(self).block_number == old(self).block_number,
            !old(self).spec_is_root(who) ==> r == Result::<(), DispatchError>::Err(
                DispatchError::BadOrigin,
            ) && *final(self) == *old(self),
            old(self).spec_is_root(who) ==> r == (match trade::spec_resolve_dispute_result(
                old(self).trade,
                old(self).balances,
                trade_id,
                buyer_wins,
            ) {
                Ok(()) => Result::<(), DispatchError>::Ok(()),
                Err(e) => Result::<(), DispatchError>::Err(DispatchError::Call(e)),
            }),
            old(self).spec_is_root(who) && r is Err ==> *final(self) == *old(self),
            old(self).spec_is_root(who) && r is Ok && buyer_wins ==> {
                let t = old(self).trade.trades@[trade_id as int];
                let m1 = trade::spec_refund_moved(t, old(self).balances);
                let m2 = crate::ledger::spec_min_u128(
                    t.seller_bond,
                    old(self).balances.reserved_of(t.seller),
                );
                &&& final(self).trade.trades@ == old(self).trade.trades@.update(
                    trade_id as int,
                    trade::Trade { status: trade::TradeStatus::Refunded, ..t },
                )
                &&& final(self).balances.free_of(t.buyer) == old(self).balances.free_of(
                    t.buyer,
                ) + m1 + m2
                &&& final(self).balances.reserved_of(t.buyer) == old(
                    self,
                ).balances.reserved_of(t.buyer) - m1
                &&& final(self).balances.free_of(t.seller) == old(self).balances.free_of(
                    t.seller,
                )
                &&& final(self).balances.reserved_of(t.seller) == old(
                    self,
                ).balances.reserved_of(t.seller) - m2
                &&& final(self).balances.same_except2(old(self).balances, t.buyer, t.seller)
                &&& final(self).trade.events@ == old(self).trade.events@.push(
                    trade::Event::Refunded {
                        trade_id,
                        buyer: t.buyer,
                        amount: (t.price + t.seller_bond) as u128,
                    },
                ).push(trade::Event::DisputeResolved { trade_id, winner: t.buyer })
                &&& trade::spec_resolve_common(final(self).trade, old(self).trade, t.seller)
            },
            old(self).spec_is_root(who) && r is Ok && !buyer_wins ==> {
                let t = old(self).trade.trades@[trade_id as int];
                let award = (t.price + t.buyer_bond) as u128;
                let m1 = trade::spec_refund_moved(t, old(self).balances);
                let m3 = crate::ledger::spec_min_u128(
                    t.seller_bond,
                    old(self).balances.reserved_of(t.seller),
                );
                &&& final(self).trade.trades@ == old(self).trade.trades@.update(
                    trade_id as int,
                    trade::Trade { status: trade::TradeStatus::Completed, ..t },
                )
                &&& final(self).balances.free_of(t.buyer) == old(self).balances.free_of(
                    t.buyer,
                ) + m1 - award
                &&& final(self).balances.reserved_of(t.buyer) == old(
                    self,
                ).balances.reserved_of(t.buyer) - m1
                &&& final(self).balances.free_of(t.seller) == old(self).balances.free_of(
                    t.seller,
                ) + award + m3
                &&& final(self).balances.reserved_of(t.seller) == old(
                    self,
                ).balances.reserved_of(t.seller) - m3
                &&& final(self).balances.same_except2(old(self).balances, t.buyer, t.seller)
                &&& final(self).trade.events@ == old(self).trade.events@.push(
                    trade::Event::TradeCompleted {
                        trade_id,
                        buyer: t.buyer,
                        seller: t.seller,
                        price: t.price,
                    },
                ).push(trade::Event::DisputeResolved { trade_id, winner: t.seller })
                &&& final(self).trade.total_trades_completed == trade::spec_sat_add_u64(
                    old(self).trade.total_trades_completed,
                    1,
                )
                &&& final(self).trade.total_volume == crate::spec_saturating_add_u128(
                    old(self).trade.total_volume,
                    t.price,
                )
                &&& trade::spec_resolve_common(final(self).trade, old(self).trade, t.seller)
            },
    {
        if !self.ensure_root(who) {
            return Err(DispatchError::BadOrigin);
        }
        let trade_state = &mut self.trade;
        let inner = trade_state.resolve_dispute(&mut self.balances, trade_id, buyer_wins);
        match inner {
            Ok(()) => Ok(()),
            Err(e) => Err(DispatchError::Call(e)),
        }
    }
}

/// A pallet change that leaves the listing, trade and bookkeeping
/// tables alone leaves the whole-state invariant alone.
proof fn lemma_inv_under_same_tables(pre: Runtime, post: Runtime)
    requires
        post.balances == pre.balances,
        post.trade.listings@ == pre.trade.listings@,
        post.trade.trades@ == pre.trade.trades@,
        post.trade.trade_aux@ == pre.trade.trade_aux@,
        pre.inv(),
    ensures
        post.inv(),
{
    assert forall|a: AccountId| #![auto] post.balances.reserved_of(a) == spec_obligations(
        post.trade,
        a,
    ) by {
        assert(pre.balances.reserved_of(a) == spec_obligations(pre.trade, a));
    }
}

/// The reward payout never touches a reserved balance: whatever branch
/// `on_finalize` took, each account's reservation is unchanged.
proof fn lemma_finalize_keeps_reserved(
    p: block_reward::Pallet,
    lpre: Ledger,
    lpost: Ledger,
    n: u32,
    a: AccountId,
)
    requires
        lpost == lpre || ({
            let reserve = p.config.mining_reserve_account;
            let miner = p.pending_miner->Some_0;
            &&& p.pending_miner is Some
            &&& lpost.same_except2(lpre, reserve, miner)
            &&& lpost.reserved_of(reserve) == lpre.reserved_of(reserve)
            &&& lpost.reserved_of(miner) == lpre.reserved_of(miner)
        }),
    ensures
        lpost.reserved_of(a) == lpre.reserved_of(a),
{
    if lpost != lpre {
        let reserve = p.config.mining_reserve_account;
        let miner = p.pending_miner->Some_0;
        if a != reserve && a != miner {
            assert(lpost.same_account(lpre, a));
        }
    }
}

} // verus!
