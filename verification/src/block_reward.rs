//! The block-reward pallet: each block, an inherent names the beneficiary;
//! at end of block the pallet pays the scheduled reward from the mining
//! reserve account, halving the amount once per elapsed interval. Root may
//! override the amount or pause payment; a depleted reserve stops payment
//! without stopping the chain.

use vstd::prelude::*;
use crate::AccountId;
use crate::ledger::Ledger;
use crate::spec_saturating_add_u128;

verus! {

/// Fixed configuration of the reward pallet.
#[derive(Clone, Copy, Debug, PartialEq, Eq, Structural)]
pub struct Config {
    /// The reward paid in the first era.
    pub reward_amount: u128,
    /// Blocks between halvings; zero disables halving.
    pub halving_interval: u32,
    /// The account the rewards are drawn from.
    pub mining_reserve_account: AccountId,
}

/// What the reward pallet announced.
#[derive(Clone, Copy, Debug, PartialEq, Eq, Structural)]
pub enum Event {
    /// A reward was paid to the block's beneficiary.
    RewardPaid {
        /// Who was paid.
        miner: AccountId,
        /// How much.
        amount: u128,
        /// The block whose reward it was.
        block_number: u32,
    },
    /// The mining reserve could not cover the scheduled reward.
    ReserveExhausted,
    /// The block crossed into a new halving era.
    HalvingOccurred {
        /// The boundary block.
        block_number: u32,
        /// The reward from this era on.
        new_reward: u128,
        /// The era just entered.
        era: u32,
    },
    /// Root set or cleared the reward override.
    RewardOverrideSet {
        /// The override now in force, if any.
        new_reward: Option<u128>,
    },
    /// Root paused or resumed reward payment.
    RewardsPausedChanged {
        /// Whether payment is now paused.
        paused: bool,
    },
}

/// The reward pallet's on-chain state.
pub struct Pallet {
    /// Fixed configuration.
    pub config: Config,
    /// The beneficiary the current block's inherent named, if any.
    pub pending_miner: Option<AccountId>,
    /// A root-set amount that bypasses the halving schedule.
    pub reward_override: Option<u128>,
    /// Whether payment is paused.
    pub rewards_paused: bool,
    /// Everything paid out so far.
    pub total_rewards_paid: u128,
    /// The events announced so far.
    pub events: Vec<Event>,
}

/// The halving era a block falls in; never capped here, a zero interval
/// means era zero.
pub open spec fn spec_era(block_number: u32, halving_interval: u32) -> u32 {
    if halving_interval == 0 {
        0u32
    } else {
        block_number / halving_interval
    }
}

impl Pallet {
    /// The reward this state pays for block `n`: the override when one is
    /// set, otherwise the configured amount halved once per elapsed
    /// interval and zero from the tenth era on.
    pub open spec fn spec_calculate_reward(self, n: u32) -> u128 {
        match self.reward_override {
            Some(r) => r,
            None => {
                if self.config.halving_interval == 0 {
                    self.config.reward_amount
                } else if spec_era(n, self.config.halving_interval) >= 10 {
                    0u128
                } else {
                    self.config.reward_amount >> spec_era(n, self.config.halving_interval)
                }
            },
        }
    }

    /// A fresh pallet with nothing pending, nothing paid, no override.
    pub fn new(config: Config) -> (r: Pallet)
        ensures
            r.config == config,
            r.pending_miner is None,
            r.reward_override is None,
            !r.rewards_paused,
            r.total_rewards_paid == 0,
            r.events@.len() == 0,
    {
        Pallet {
            config,
            pending_miner: None,
            reward_override: None,
            rewards_paused: false,
            total_rewards_paid: 0,
            events: Vec::new(),
        }
    }

    /// The beneficiary inherent: remember who this block's reward goes to.
    pub fn set_miner(&mut self, miner: AccountId)
        ensures
            final(self).pending_miner == Some(miner),
            final(self).config == old(self).config,
            final(self).reward_override == old(self).reward_override,
            final(self).rewards_paused == old(self).rewards_paused,
            final(self).total_rewards_paid == old(self).total_rewards_paid,
            final(self).events@ == old(self).events@,
    {
        self.pending_miner = Some(miner);
    }

    /// Root only, checked at the runtime's dispatch: set or clear the
    /// reward override.
    pub fn set_reward_override(&mut self, new_reward: Option<u128>)
        ensures
            final(self).reward_override == new_reward,
            final(self).config == old(self).config,
            final(self).pending_miner == old(self).pending_miner,
            final(self).rewards_paused == old(self).rewards_paused,
            final(self).total_rewards_paid == old(self).total_rewards_paid,
            final(self).events@ == old(self).events@.push(
                Event::RewardOverrideSet { new_reward },
            ),
    {
        self.reward_override = new_reward;
        self.events.push(Event::RewardOverrideSet { new_reward });
    }

    /// Root only, checked at the runtime's dispatch: pause or resume
    /// reward payment.
    pub fn set_rewards_paused(&mut self, paused: bool)
        ensures
            final(self).rewards_paused == paused,
            final(self).config == old(self).config,
            final(self).pending_miner == old(self).pending_miner,
            final(self).reward_override == old(self).reward_override,
            final(self).total_rewards_paid == old(self).total_rewards_paid,
            final(self).events@ == old(self).events@.push(
                Event::RewardsPausedChanged { paused },
            ),
    {
        self.rewards_paused = paused;
        self.events.push(Event::RewardsPausedChanged { paused });
    }

    /// Compute the reward for block `n` under the current state.
    pub fn calculate_reward(&self, block_number: u32) -> (r: u128)
        ensures
            r == self.spec_calculate_reward(block_number),
    {
        match self.reward_override {
            Some(r) => r,
            None => {
                if self.config.halving_interval == 0 {
                    return self.config.reward_amount;
                }
                let era: u32 = block_number / self.config.halving_interval;
                if era >= 10 {
                    0
                } else {
                    self.config.reward_amount >> era
                }
            },
        }
    }

    /// The halving era the given block falls in.
    pub fn current_era(&self, block_number: u32) -> (r: u32)
        ensures
            r == spec_era(block_number, self.config.halving_interval),
    {
        if self.config.halving_interval == 0 {
            0
        } else {
            block_number / self.config.halving_interval
        }
    }

    /// End-of-block payout. Consumes the pending beneficiary and pays it
    /// the scheduled reward out of the mining reserve; payment is skipped
    /// (and the beneficiary still consumed) when rewards are paused is
    /// false but the reward is zero, the reserve is short, or the ledger
    /// refuses the transfer. Paid rewards accumulate monotonically in
    /// `total_rewards_paid`.
    pub fn on_finalize(&mut self, ledger: &mut Ledger, n: u32)
        requires
            old(ledger).wf(),
        ensures
            final(ledger).wf(),
            final(self).config == old(self).config,
            final(self).reward_override == old(self).reward_override,
            final(self).rewards_paused == old(self).rewards_paused,
            final(self).total_rewards_paid >= old(self).total_rewards_paid,
            old(self).rewards_paused ==> {
                &&& *final(self) == *old(self)
                &&& *final(ledger) == *old(ledger)
            },
            !old(self).rewards_paused && old(self).pending_miner is None ==> {
                &&& *final(self) == *old(self)
                &&& *final(ledger) == *old(ledger)
            },
            !old(self).rewards_paused && old(self).pending_miner is Some ==> {
                &&& final(self).pending_miner is None
                &&& spec_finalize_outcome(
                    *old(self),
                    *final(self),
                    *old(ledger),
                    *final(ledger),
                    old(self).pending_miner->Some_0,
                    n,
                )
            },
    {
        if self.rewards_paused {
            return;
        }
        let miner = match self.pending_miner {
            Some(m) => m,
            None => {
                return;
            },
        };
        self.pending_miner = None;
        let reward = self.calculate_reward(n);
        let reserve = self.config.mining_reserve_account;
        if reward == 0 {
            return;
        }
        let reserve_balance = ledger.free_balance(reserve);
        if reserve_balance < reward {
            self.events.push(Event::ReserveExhausted);
            return;
        }
        match ledger.transfer(reserve, miner, reward) {
            Ok(()) => {
                self.total_rewards_paid = self.total_rewards_paid.saturating_add(reward);
                self.events.push(Event::RewardPaid { miner, amount: reward, block_number: n });
                let halving_interval = self.config.halving_interval;
                if halving_interval != 0 && n % halving_interval == 0 && n != 0 {
                    let era = self.current_era(n);
                    let new_reward = self.calculate_reward(n);
                    self.events.push(Event::HalvingOccurred {
                        block_number: n,
                        new_reward,
                        era,
                    });
                }
            },
            Err(_) => {},
        }
    }
}

/// What one payout attempt for `miner` at block `n` did: either nothing
/// (zero reward), or the exhaustion notice, or the payment with its
/// events — and nothing else.
pub open spec fn spec_finalize_outcome(
    pre: Pallet,
    post: Pallet,
    lpre: Ledger,
    lpost: Ledger,
    miner: AccountId,
    n: u32,
) -> bool {
    let reward = pre.spec_calculate_reward(n);
    let reserve = pre.config.mining_reserve_account;
    if reward == 0 {
        &&& lpost == lpre
        &&& post.events@ == pre.events@
        &&& post.total_rewards_paid == pre.total_rewards_paid
    } else if lpre.free_of(reserve) < reward {
        &&& lpost == lpre
        &&& post.events@ == pre.events@.push(Event::ReserveExhausted)
        &&& post.total_rewards_paid == pre.total_rewards_paid
    } else if reserve != miner && lpre.free_of(miner) + lpre.reserved_of(miner) + reward
        > u128::MAX {
        // the ledger refused to credit the miner; nothing is paid
        &&& lpost == lpre
        &&& post.events@ == pre.events@
        &&& post.total_rewards_paid == pre.total_rewards_paid
    } else {
        &&& lpost.same_except2(lpre, reserve, miner)
        &&& reserve != miner ==> {
            &&& lpost.free_of(reserve) == lpre.free_of(reserve) - reward
            &&& lpost.reserved_of(reserve) == lpre.reserved_of(reserve)
            &&& lpost.free_of(miner) == lpre.free_of(miner) + reward
            &&& lpost.reserved_of(miner) == lpre.reserved_of(miner)
        }
        &&& reserve == miner ==> lpost == lpre
        &&& post.total_rewards_paid == spec_saturating_add_u128(
            pre.total_rewards_paid,
            reward,
        )
        &&& post.events@ == if pre.config.halving_interval != 0 && n % pre.config.halving_interval
            == 0 && n != 0 {
            pre.events@.push(Event::RewardPaid { miner, amount: reward, block_number: n }).push(
                Event::HalvingOccurred {
                    block_number: n,
                    new_reward: reward,
                    era: spec_era(n, pre.config.halving_interval),
                },
            )
        } else {
            pre.events@.push(Event::RewardPaid { miner, amount: reward, block_number: n })
        }
    }
}

/// Laws of the halving schedule.
///
/// Without an override, a payout of a positive amount can only happen in
/// an era below ten, and what is paid is exactly the scheduled amount —
/// in particular never more.
pub proof fn lemma_reward_payment_bounded(p: Pallet, n: u32)
    requires
        p.reward_override is None,
        p.config.halving_interval > 0,
        p.spec_calculate_reward(n) > 0,
    ensures
        spec_era(n, p.config.halving_interval) < 10,
        p.spec_calculate_reward(n) == p.config.reward_amount >> spec_era(
            n,
            p.config.halving_interval,
        ),
{
}

/// The scheduled reward at the start of era `k` is the initial amount
/// halved `k` times, and zero from era ten on.
pub proof fn lemma_halving_schedule(p: Pallet, k: u32)
    requires
        p.reward_override is None,
        p.config.halving_interval > 0,
        k * p.config.halving_interval <= u32::MAX,
    ensures
        k < 10 ==> p.spec_calculate_reward((k * p.config.halving_interval) as u32)
            == p.config.reward_amount >> k,
        k >= 10 ==> p.spec_calculate_reward((k * p.config.halving_interval) as u32) == 0,
{
    let h = p.config.halving_interval as int;
    assert((k * h) / h == k as int) by {
        vstd::arithmetic::div_mod::lemma_div_by_multiple(k as int, h);
    }
}

/// The era boundary: one block before the start of era `k` the reward is
/// still the previous era's; at the boundary it has halved.
pub proof fn lemma_era_boundary(p: Pallet, k: u32)
    requires
        p.reward_override is None,
        p.config.halving_interval > 0,
        1 <= k < 10,
        k * p.config.halving_interval <= u32::MAX,
    ensures
        p.spec_calculate_reward((k * p.config.halving_interval - 1) as u32)
            == p.config.reward_amount >> ((k - 1) as u32),
        p.spec_calculate_reward((k * p.config.halving_interval) as u32)
            == p.config.reward_amount >> k,
{
    let h = p.config.halving_interval as int;
    assert((k * h) / h == k as int) by {
        vstd::arithmetic::div_mod::lemma_div_by_multiple(k as int, h);
    }
    assert((k * h - 1) / h == k - 1) by {
        assert((k - 1) * h == k * h - h) by (nonlinear_arith);
        vstd::arithmetic::div_mod::lemma_fundamental_div_mod_converse(
            k * h - 1,
            h,
            k - 1,
            h - 1,
        );
    }
    assert(((k * p.config.halving_interval - 1) as u32) / p.config.halving_interval
        == (k - 1) as u32);
}

} // verus!
