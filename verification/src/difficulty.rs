//! The difficulty controller. Mining nodes keep it locally: block times
//! are collected since the last retarget, and on every window boundary
//! the difficulty is scaled by the ratio of the target block time to the
//! observed average, clamped to a fixed range. The hundredfold integer
//! factor stands in for fractional arithmetic.

use vstd::prelude::*;
use crate::TARGET_BLOCK_TIME_MS;

verus! {

/// Smallest difficulty the controller will set.
pub const MIN_DIFFICULTY: u128 = 1_000;

/// Largest difficulty the controller will set.
pub const MAX_DIFFICULTY: u128 = u128::MAX / 2;

/// Difficulty a fresh chain starts with.
pub const INITIAL_DIFFICULTY: u128 = 50_000;

/// Number of blocks between difficulty adjustments.
pub const DIFFICULTY_ADJUSTMENT_WINDOW: u64 = 10;

/// The controller's state on one mining node.
pub struct DifficultyState {
    /// The difficulty the miner currently works against.
    pub current_difficulty: u128,
    /// The last block at which a retarget ran.
    pub last_adjustment_block: u64,
    /// Times, in milliseconds, of the blocks since the last retarget.
    pub block_times: Vec<u64>,
    /// The block spacing the controller steers towards, in milliseconds.
    pub target_time_ms: u64,
}

/// Sum of a sequence of block times.
pub open spec fn spec_sum(times: Seq<u64>) -> int
    decreases times.len(),
{
    if times.len() == 0 {
        0
    } else {
        times.first() + spec_sum(times.drop_first())
    }
}

/// Average block time, rounded down.
pub open spec fn spec_avg(times: Seq<u64>) -> int
    recommends
        times.len() > 0,
{
    spec_sum(times) / (times.len() as int)
}

/// `a * b`, stopping at the largest representable value.
pub open spec fn spec_sat_mul(a: u128, b: u128) -> u128 {
    if a * b > u128::MAX {
        u128::MAX
    } else {
        (a * b) as u128
    }
}

/// `d` clamped into the controller's difficulty range.
pub open spec fn spec_clamp(d: u128) -> u128 {
    if d < MIN_DIFFICULTY {
        MIN_DIFFICULTY
    } else if d > MAX_DIFFICULTY {
        MAX_DIFFICULTY
    } else {
        d
    }
}

/// The retargeted difficulty for an observed average block time `avg`
/// against target `target`: proportionally harder when blocks come too
/// fast, easier when they come too slow, clamped either way. An average
/// of zero milliseconds counts as one.
pub open spec fn spec_retarget(d: u128, avg: int, target: u64) -> u128
    recommends
        target > 0,
        0 <= avg <= u64::MAX,
{
    let avg1 = if avg == 0 {
        1
    } else {
        avg
    };
    if avg1 < target {
        let factor = (target * 100 / avg1) as u128;
        spec_clamp(spec_sat_mul(d, factor) / 100)
    } else if avg1 > target {
        let factor = (avg1 * 100 / (target as int)) as u128;
        spec_clamp(spec_sat_mul(d, 100) / factor)
    } else {
        spec_clamp(d)
    }
}

/// Multiply two difficulties, stopping at the largest representable value.
fn sat_mul_u128(a: u128, b: u128) -> (r: u128)
    ensures
        r == spec_sat_mul(a, b),
{
    match a.checked_mul(b) {
        Some(x) => x,
        None => u128::MAX,
    }
}

impl DifficultyState {
    /// The controller's invariant: the difficulty stays inside
    /// `[MIN_DIFFICULTY, MAX_DIFFICULTY]` and the target is a real
    /// duration.
    pub open spec fn wf(self) -> bool {
        &&& MIN_DIFFICULTY <= self.current_difficulty <= MAX_DIFFICULTY
        &&& self.target_time_ms > 0
    }

    /// A fresh controller at the initial difficulty, steering towards the
    /// chain's target block time.
    pub fn new() -> (r: DifficultyState)
        ensures
            r.wf(),
            r.current_difficulty == INITIAL_DIFFICULTY,
            r.last_adjustment_block == 0,
            r.block_times@.len() == 0,
            r.target_time_ms == TARGET_BLOCK_TIME_MS,
    {
        DifficultyState {
            current_difficulty: INITIAL_DIFFICULTY,
            last_adjustment_block: 0,
            block_times: Vec::new(),
            target_time_ms: TARGET_BLOCK_TIME_MS,
        }
    }

    /// A fresh controller steering towards a chosen block spacing.
    pub fn with_target(target_time_ms: u64) -> (r: DifficultyState)
        requires
            target_time_ms > 0,
        ensures
            r.wf(),
            r.current_difficulty == INITIAL_DIFFICULTY,
            r.last_adjustment_block == 0,
            r.block_times@.len() == 0,
            r.target_time_ms == target_time_ms,
    {
        DifficultyState {
            current_difficulty: INITIAL_DIFFICULTY,
            last_adjustment_block: 0,
            block_times: Vec::new(),
            target_time_ms,
        }
    }

    /// Retarget from the collected block times, then start a new window.
    /// Does nothing when no times were collected.
    pub fn adjust_difficulty(&mut self, block_number: u64)
        requires
            old(self).wf(),
        ensures
            final(self).wf(),
            final(self).target_time_ms == old(self).target_time_ms,
            old(self).block_times@.len() == 0 ==> *final(self) == *old(self),
            old(self).block_times@.len() > 0 ==> {
                &&& final(self).current_difficulty == spec_retarget(
                    old(self).current_difficulty,
                    spec_avg(old(self).block_times@),
                    old(self).target_time_ms,
                )
                &&& final(self).block_times@.len() == 0
                &&& final(self).last_adjustment_block == block_number
            },
    {
        let n = self.block_times.len();
        if n == 0 {
            return;
        }
        let ghost times = self.block_times@;
        let mut total: u128 = 0;
        let mut i: usize = 0;
        while i < n
            invariant
                i <= n,
                n == times.len(),
                self.block_times@ == times,
                total == spec_sum(times.take(i as int)),
                total <= i * (u64::MAX as int),
            decreases n - i,
        {
            proof {
                lemma_sum_take_step(times, i as int);
                assert((i + 1) * (u64::MAX as int) == i * (u64::MAX as int) + u64::MAX);
                assert(i * (u64::MAX as int) <= (n - 1) * (u64::MAX as int)) by (nonlinear_arith)
                    requires i <= n - 1, i >= 0, n >= 1;
                assert((n - 1) * (u64::MAX as int) + u64::MAX <= u128::MAX)
                    by (nonlinear_arith)
                    requires n <= usize::MAX, n >= 1;
            }
            total = total + (self.block_times[i] as u128);
            i = i + 1;
        }
        proof {
            assert(times.take(n as int) =~= times);
            lemma_sum_non_negative(times);
        }
        let avg_time_ms: u128 = total / (n as u128);
        proof {
            assert(spec_avg(times) == avg_time_ms) by {
                assert(spec_sum(times) / (times.len() as int) == total as int / (n as int));
            }
            lemma_avg_bounded(times);
        }
        let avg1: u128 = if avg_time_ms == 0 {
            1
        } else {
            avg_time_ms
        };
        let target = self.target_time_ms as u128;
        let d = self.current_difficulty;
        let new_d: u128 = if avg1 < target {
            let factor = target * 100 / avg1;
            sat_mul_u128(d, factor) / 100
        } else if avg1 > target {
            let factor = avg1 * 100 / target;
            proof {
                assert(target as int <= avg1 * 100);
                vstd::arithmetic::div_mod::lemma_div_is_ordered(
                    target as int,
                    avg1 * 100,
                    target as int,
                );
                assert(target as int / target as int == 1) by (nonlinear_arith)
                    requires target > 0;
            }
            sat_mul_u128(d, 100) / factor
        } else {
            d
        };
        let clamped = if new_d < MIN_DIFFICULTY {
            MIN_DIFFICULTY
        } else if new_d > MAX_DIFFICULTY {
            MAX_DIFFICULTY
        } else {
            new_d
        };
        self.current_difficulty = clamped;
        self.block_times.clear();
        self.last_adjustment_block = block_number;
    }

    /// Record the time one block took; on a window boundary, retarget.
    pub fn record_block(&mut self, block_number: u64, block_time_ms: u64)
        requires
            old(self).wf(),
        ensures
            final(self).wf(),
            final(self).target_time_ms == old(self).target_time_ms,
            !(block_number > 0 && block_number % DIFFICULTY_ADJUSTMENT_WINDOW == 0) ==> {
                &&& final(self).block_times@ == old(self).block_times@.push(block_time_ms)
                &&& final(self).current_difficulty == old(self).current_difficulty
                &&& final(self).last_adjustment_block == old(self).last_adjustment_block
            },
            (block_number > 0 && block_number % DIFFICULTY_ADJUSTMENT_WINDOW == 0) ==> {
                &&& final(self).current_difficulty == spec_retarget(
                    old(self).current_difficulty,
                    spec_avg(old(self).block_times@.push(block_time_ms)),
                    old(self).target_time_ms,
                )
                &&& final(self).block_times@.len() == 0
                &&& final(self).last_adjustment_block == block_number
            },
    {
        self.block_times.push(block_time_ms);
        if block_number > 0 && block_number % DIFFICULTY_ADJUSTMENT_WINDOW == 0 {
            self.adjust_difficulty(block_number);
        }
    }
}

/// One step of summing: the sum of a prefix extended by its next element.
proof fn lemma_sum_take_step(times: Seq<u64>, i: int)
    requires
        0 <= i < times.len(),
    ensures
        spec_sum(times.take(i + 1)) == spec_sum(times.take(i)) + times[i],
    decreases i,
{
    if i == 0 {
        assert(times.take(1) =~= seq![times[0]]);
        assert(times.take(0) =~= Seq::<u64>::empty());
        assert(spec_sum(times.take(1)) == times[0] + spec_sum(times.take(1).drop_first()));
        assert(times.take(1).drop_first() =~= Seq::<u64>::empty());
    } else {
        assert(times.take(i + 1).drop_first() =~= times.drop_first().take(i));
        assert(times.take(i).drop_first() =~= times.drop_first().take(i - 1));
        lemma_sum_take_step(times.drop_first(), i - 1);
    }
}

/// A sum of times is never negative.
proof fn lemma_sum_non_negative(times: Seq<u64>)
    ensures
        spec_sum(times) >= 0,
    decreases times.len(),
{
    if times.len() > 0 {
        lemma_sum_non_negative(times.drop_first());
    }
}

/// The average of times each below the largest `u64` is itself below it.
proof fn lemma_avg_bounded(times: Seq<u64>)
    requires
        times.len() > 0,
    ensures
        0 <= spec_avg(times) <= u64::MAX,
    decreases times.len(),
{
    lemma_sum_bounded(times);
    lemma_sum_non_negative(times);
    let n = times.len() as int;
    assert(spec_sum(times) <= n * (u64::MAX as int));
    assert(spec_sum(times) / n <= (n * (u64::MAX as int)) / n) by {
        vstd::arithmetic::div_mod::lemma_div_is_ordered(
            spec_sum(times),
            n * (u64::MAX as int),
            n,
        );
    }
    assert((n * (u64::MAX as int)) / n == u64::MAX as int) by {
        vstd::arithmetic::div_mod::lemma_div_by_multiple(u64::MAX as int, n);
    }
}

/// A sum of `n` times is at most `n` times the largest `u64`.
proof fn lemma_sum_bounded(times: Seq<u64>)
    ensures
        spec_sum(times) <= times.len() * (u64::MAX as int),
    decreases times.len(),
{
    if times.len() == 0 {
    } else {
        lemma_sum_bounded(times.drop_first());
        assert(times.len() * (u64::MAX as int) == (times.len() - 1) * (u64::MAX as int)
            + u64::MAX) by (nonlinear_arith);
    }
}

} // verus!
