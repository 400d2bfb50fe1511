//! The balances ledger: a flat, account-indexed record of free and
//! reserved funds, with the four primitive operations the chain's pallets
//! use. A reservation moves funds from `free` to `reserved` on the same
//! account; `repatriate_reserved` moves reserved funds of one account into
//! the free balance of another.

use vstd::prelude::*;
use crate::AccountId;

verus! {

/// Why a ledger operation was refused.
#[derive(Clone, Copy, Debug, PartialEq, Eq, Structural)]
pub enum LedgerError {
    /// The paying account's free balance is below the amount asked for.
    InsufficientBalance,
    /// Crediting the amount would push the receiving account past the
    /// largest representable balance.
    Overflow,
}

/// One account's balances.
#[derive(Clone, Copy, Debug, PartialEq, Eq, Structural)]
pub struct AccountRecord {
    /// The account these balances belong to.
    pub id: AccountId,
    /// Funds the account may spend.
    pub free: u128,
    /// Funds locked by reservations.
    pub reserved: u128,
}

/// The ledger: every account with a non-trivial balance, each at most once.
#[derive(Clone, Debug)]
pub struct Ledger {
    /// The account records; `wf()` keeps the ids unique.
    pub accounts: Vec<AccountRecord>,
}

/// No two records of `s` name the same account.
pub open spec fn unique_ids(s: Seq<AccountRecord>) -> bool {
    forall|i: int, j: int| 0 <= i < j < s.len() ==> s[i].id != s[j].id
}

/// The record of account `a` in `s`, if any (first match).
pub open spec fn spec_entry(s: Seq<AccountRecord>, a: AccountId) -> Option<AccountRecord>
    decreases s.len(),
{
    if s.len() == 0 {
        None
    } else if s[0].id == a {
        Some(s[0])
    } else {
        spec_entry(s.drop_first(), a)
    }
}

/// The smaller of two balances.
pub open spec fn spec_min_u128(a: u128, b: u128) -> u128 {
    if a < b {
        a
    } else {
        b
    }
}

impl Ledger {
    /// Free balance of `a`; zero for an account without a record.
    pub open spec fn free_of(self, a: AccountId) -> u128 {
        match spec_entry(self.accounts@, a) {
            Some(r) => r.free,
            None => 0,
        }
    }

    /// Reserved balance of `a`; zero for an account without a record.
    pub open spec fn reserved_of(self, a: AccountId) -> u128 {
        match spec_entry(self.accounts@, a) {
            Some(r) => r.reserved,
            None => 0,
        }
    }

    /// Well-formedness: ids are unique and no account's total exceeds the
    /// largest representable balance.
    pub open spec fn wf(self) -> bool {
        &&& unique_ids(self.accounts@)
        &&& forall|a: AccountId| #![auto] self.free_of(a) + self.reserved_of(a) <= u128::MAX
    }

    /// Both balances of `a` are as in `other`.
    pub open spec fn same_account(self, other: Ledger, a: AccountId) -> bool {
        &&& self.free_of(a) == other.free_of(a)
        &&& self.reserved_of(a) == other.reserved_of(a)
    }

    /// Every account but `a` has the balances it has in `other`.
    pub open spec fn same_except(self, other: Ledger, a: AccountId) -> bool {
        forall|b: AccountId| b != a ==> #[trigger] self.same_account(other, b)
    }

    /// Every account but `a` and `b` has the balances it has in `other`.
    pub open spec fn same_except2(self, other: Ledger, a: AccountId, b: AccountId) -> bool {
        forall|c: AccountId| c != a && c != b ==> #[trigger] self.same_account(other, c)
    }
}

proof fn lemma_unique_drop_first(s: Seq<AccountRecord>)
    requires
        unique_ids(s),
        s.len() > 0,
    ensures
        unique_ids(s.drop_first()),
{
    assert forall|i: int, j: int| 0 <= i < j < s.drop_first().len() implies s.drop_first()[i].id
        != s.drop_first()[j].id by {
        assert(s[i + 1].id != s[j + 1].id);
    }
}

/// The entry for an account is the record at the first index that names it.
proof fn lemma_entry_first(s: Seq<AccountRecord>, i: int)
    requires
        0 <= i < s.len(),
        forall|j: int| 0 <= j < i ==> s[j].id != s[i].id,
    ensures
        spec_entry(s, s[i].id) == Some(s[i]),
    decreases s.len(),
{
    if i > 0 {
        assert forall|j: int| 0 <= j < i - 1 implies #[trigger] s.drop_first()[j].id
            != s.drop_first()[i - 1].id by {
            assert(s[j + 1].id != s[i].id);
        }
        lemma_entry_first(s.drop_first(), i - 1);
    }
}

/// An account named by no record has no entry.
proof fn lemma_entry_absent(s: Seq<AccountRecord>, a: AccountId)
    requires
        forall|i: int| 0 <= i < s.len() ==> s[i].id != a,
    ensures
        spec_entry(s, a) is None,
    decreases s.len(),
{
    if s.len() > 0 {
        lemma_entry_absent(s.drop_first(), a);
    }
}

/// Replacing the record at `i` by one with the same id rewrites that
/// account's entry and no other.
proof fn lemma_entry_update(s: Seq<AccountRecord>, i: int, r2: AccountRecord, b: AccountId)
    requires
        unique_ids(s),
        0 <= i < s.len(),
        r2.id == s[i].id,
    ensures
        spec_entry(s.update(i, r2), b) == if b == r2.id {
            Some(r2)
        } else {
            spec_entry(s, b)
        },
    decreases s.len(),
{
    let s2 = s.update(i, r2);
    if i == 0 {
        if b != r2.id {
            assert(s2.drop_first() =~= s.drop_first());
        }
    } else {
        assert(s[0].id != s[i].id);
        assert(s2[0] == s[0]);
        lemma_unique_drop_first(s);
        assert(s2.drop_first() =~= s.drop_first().update(i - 1, r2));
        lemma_entry_update(s.drop_first(), i - 1, r2, b);
    }
}

/// Appending a record for a fresh account adds that account's entry and
/// changes no other.
proof fn lemma_entry_push(s: Seq<AccountRecord>, r: AccountRecord, b: AccountId)
    requires
        forall|i: int| 0 <= i < s.len() ==> s[i].id != r.id,
    ensures
        spec_entry(s.push(r), b) == if b == r.id {
            Some(r)
        } else {
            spec_entry(s, b)
        },
    decreases s.len(),
{
    if s.len() == 0 {
        assert(s.push(r)[0] == r);
        if b != r.id {
            lemma_entry_absent(s.push(r).drop_first(), b);
            lemma_entry_absent(s, b);
        }
    } else {
        assert(s.push(r)[0] == s[0]);
        assert(s.push(r).drop_first() =~= s.drop_first().push(r));
        lemma_entry_push(s.drop_first(), r, b);
    }
}

/// Shared closing argument: after replacing the record at `i` (same id)
/// the ledger is well formed, the touched account reads the new record,
/// and every other account is unchanged.
proof fn lemma_ledger_update(
    pre: Ledger,
    s1: Seq<AccountRecord>,
    post: Ledger,
    i: int,
    rec2: AccountRecord,
    a: AccountId,
)
    requires
        pre.wf(),
        unique_ids(s1),
        0 <= i < s1.len(),
        s1[i].id == a,
        rec2.id == a,
        rec2.free + rec2.reserved <= u128::MAX,
        post.accounts@ == s1.update(i, rec2),
        forall|b: AccountId| b != a ==> spec_entry(s1, b) == spec_entry(pre.accounts@, b),
    ensures
        post.wf(),
        post.free_of(a) == rec2.free,
        post.reserved_of(a) == rec2.reserved,
        post.same_except(pre, a),
{
    assert forall|b: AccountId| #[trigger] spec_entry(post.accounts@, b) == if b == a {
        Some(rec2)
    } else {
        spec_entry(s1, b)
    } by {
        lemma_entry_update(s1, i, rec2, b);
    }
    assert(unique_ids(post.accounts@)) by {
        assert forall|p: int, q: int| 0 <= p < q < post.accounts@.len()
            implies post.accounts@[p].id != post.accounts@[q].id by {
            assert(s1[p].id != s1[q].id);
        }
    }
    assert forall|b: AccountId| b != a implies #[trigger] post.same_account(pre, b) by {
        assert(spec_entry(post.accounts@, b) == spec_entry(s1, b));
        assert(spec_entry(s1, b) == spec_entry(pre.accounts@, b));
    }
    assert forall|b: AccountId| #![auto] post.free_of(b) + post.reserved_of(b)
        <= u128::MAX by {
        if b != a {
            assert(post.same_account(pre, b));
            assert(pre.free_of(b) + pre.reserved_of(b) <= u128::MAX);
        }
    }
}

impl Ledger {
    /// An empty ledger.
    pub fn new() -> (r: Ledger)
        ensures
            r.wf(),
            forall|a: AccountId| #![auto] r.free_of(a) == 0 && r.reserved_of(a) == 0,
    {
        let l = Ledger { accounts: Vec::new() };
        proof {
            assert forall|a: AccountId| #![auto]
                l.free_of(a) == 0 && l.reserved_of(a) == 0 by {
                lemma_entry_absent(l.accounts@, a);
            }
        }
        l
    }

    /// The index of the first record of `a`, if it has one.
    fn position_of(&self, a: AccountId) -> (r: Option<usize>)
        ensures
            match r {
                Some(i) => {
                    &&& i < self.accounts@.len()
                    &&& self.accounts@[i as int].id == a
                    &&& spec_entry(self.accounts@, a) == Some(self.accounts@[i as int])
                },
                None => spec_entry(self.accounts@, a) is None,
            },
    {
        let n = self.accounts.len();
        let mut i: usize = 0;
        while i < n
            invariant
                i <= n,
                n == self.accounts@.len(),
                forall|j: int| 0 <= j < i ==> self.accounts@[j].id != a,
            decreases n - i,
        {
            if self.accounts[i].id == a {
                proof {
                    lemma_entry_first(self.accounts@, i as int);
                }
                return Some(i);
            }
            i = i + 1;
        }
        proof {
            lemma_entry_absent(self.accounts@, a);
        }
        None
    }

    /// The index of `a`'s record, appending a zero record if it has none.
    fn entry_index(&mut self, a: AccountId) -> (i: usize)
        requires
            old(self).wf(),
        ensures
            final(self).wf(),
            i < final(self).accounts@.len(),
            final(self).accounts@[i as int].id == a,
            final(self).accounts@[i as int].free == old(self).free_of(a),
            final(self).accounts@[i as int].reserved == old(self).reserved_of(a),
            spec_entry(final(self).accounts@, a) == Some(final(self).accounts@[i as int]),
            forall|b: AccountId| b != a ==> spec_entry(final(self).accounts@, b) == spec_entry(
                old(self).accounts@,
                b,
            ),
            final(self).same_except(*old(self), a),
            final(self).same_account(*old(self), a),
    {
        let ghost s0 = self.accounts@;
        match self.position_of(a) {
            Some(i) => {
                proof {
                    assert forall|b: AccountId| b != a implies
                        #[trigger] self.same_account(*old(self), b) by {}
                }
                i
            },
            None => {
                let i = self.accounts.len();
                let rec = AccountRecord { id: a, free: 0, reserved: 0 };
                proof {
                    assert forall|j: int| 0 <= j < s0.len() implies s0[j].id != a by {
                        if s0[j].id == a {
                            lemma_entry_first_exists(s0, a);
                        }
                    }
                }
                self.accounts.push(rec);
                proof {
                    assert forall|b: AccountId| #[trigger] spec_entry(
                        self.accounts@,
                        b,
                    ) == if b == a {
                        Some(rec)
                    } else {
                        spec_entry(s0, b)
                    } by {
                        lemma_entry_push(s0, rec, b);
                    }
                    assert(unique_ids(self.accounts@)) by {
                        assert forall|p: int, q: int| 0 <= p < q < self.accounts@.len()
                            implies self.accounts@[p].id != self.accounts@[q].id by {
                            if q < s0.len() {
                                assert(s0[p].id != s0[q].id);
                            } else {
                                assert(s0[p].id != a);
                            }
                        }
                    }
                    assert forall|b: AccountId| b != a implies
                        #[trigger] self.same_account(*old(self), b) by {}
                    assert forall|b: AccountId| #![auto] self.free_of(b) + self.reserved_of(b)
                        <= u128::MAX by {
                        assert(old(self).free_of(b) + old(self).reserved_of(b) <= u128::MAX);
                    }
                    assert(self.accounts@[i as int] == rec);
                }
                i
            },
        }
    }

    /// Read `a`'s free balance.
    pub fn free_balance(&self, a: AccountId) -> (r: u128)
        ensures
            r == self.free_of(a),
    {
        match self.position_of(a) {
            Some(i) => self.accounts[i].free,
            None => 0,
        }
    }

    /// Read `a`'s reserved balance.
    pub fn reserved_balance(&self, a: AccountId) -> (r: u128)
        ensures
            r == self.reserved_of(a),
    {
        match self.position_of(a) {
            Some(i) => self.accounts[i].reserved,
            None => 0,
        }
    }

    /// Credit `amount` of new funds to `a` (genesis endowment).
    pub fn deposit(&mut self, a: AccountId, amount: u128)
        requires
            old(self).wf(),
            old(self).free_of(a) + old(self).reserved_of(a) + amount <= u128::MAX,
        ensures
            final(self).wf(),
            final(self).free_of(a) == old(self).free_of(a) + amount,
            final(self).reserved_of(a) == old(self).reserved_of(a),
            final(self).same_except(*old(self), a),
    {
        let i = self.entry_index(a);
        let ghost s1 = self.accounts@;
        let rec = self.accounts[i];
        let rec2 = AccountRecord { id: rec.id, free: rec.free + amount, reserved: rec.reserved };
        self.accounts[i] = rec2;
        proof {
            lemma_ledger_update(*old(self), s1, *self, i as int, rec2, a);
        }
    }

    /// Move `amount` of `a`'s funds from free to reserved. Fails, changing
    /// nothing, when the free balance is short.
    pub fn reserve(&mut self, a: AccountId, amount: u128) -> (r: Result<(), LedgerError>)
        requires
            old(self).wf(),
        ensures
            final(self).wf(),
            old(self).free_of(a) >= amount ==> {
                &&& r is Ok
                &&& final(self).free_of(a) == old(self).free_of(a) - amount
                &&& final(self).reserved_of(a) == old(self).reserved_of(a) + amount
            },
            old(self).free_of(a) < amount ==> {
                &&& r == Result::<(), LedgerError>::Err(LedgerError::InsufficientBalance)
                &&& *final(self) == *old(self)
            },
            final(self).same_except(*old(self), a),
    {
        let free = self.free_balance(a);
        if free < amount {
            return Err(LedgerError::InsufficientBalance);
        }
        let i = self.entry_index(a);
        let ghost s1 = self.accounts@;
        let rec = self.accounts[i];
        let rec2 = AccountRecord {
            id: rec.id,
            free: rec.free - amount,
            reserved: rec.reserved + amount,
        };
        self.accounts[i] = rec2;
        proof {
            lemma_ledger_update(*old(self), s1, *self, i as int, rec2, a);
        }
        Ok(())
    }

    /// Release up to `amount` of `a`'s reserved funds back to free.
    /// Releases the whole reservation when it is smaller than `amount`.
    pub fn unreserve(&mut self, a: AccountId, amount: u128)
        requires
            old(self).wf(),
        ensures
            final(self).wf(),
            final(self).free_of(a) == old(self).free_of(a) + spec_min_u128(
                amount,
                old(self).reserved_of(a),
            ),
            final(self).reserved_of(a) == old(self).reserved_of(a) - spec_min_u128(
                amount,
                old(self).reserved_of(a),
            ),
            final(self).same_except(*old(self), a),
    {
        let i = self.entry_index(a);
        let ghost s1 = self.accounts@;
        let rec = self.accounts[i];
        let moved = if amount < rec.reserved {
            amount
        } else {
            rec.reserved
        };
        let rec2 = AccountRecord {
            id: rec.id,
            free: rec.free + moved,
            reserved: rec.reserved - moved,
        };
        self.accounts[i] = rec2;
        proof {
            lemma_ledger_update(*old(self), s1, *self, i as int, rec2, a);
        }
    }

    /// Transfer `amount` from `from`'s free balance to `to`'s. Fails,
    /// changing nothing, when `from` is short or `to` cannot take it.
    pub fn transfer(&mut self, from: AccountId, to: AccountId, amount: u128) -> (r: Result<
        (),
        LedgerError,
    >)
        requires
            old(self).wf(),
        ensures
            final(self).wf(),
            final(self).same_except2(*old(self), from, to),
            old(self).free_of(from) < amount ==> {
                &&& r == Result::<(), LedgerError>::Err(LedgerError::InsufficientBalance)
                &&& *final(self) == *old(self)
            },
            from == to && old(self).free_of(from) >= amount ==> {
                &&& r is Ok
                &&& *final(self) == *old(self)
            },
            from != to && old(self).free_of(from) >= amount ==> {
                if old(self).free_of(to) + old(self).reserved_of(to) + amount <= u128::MAX {
                    &&& r is Ok
                    &&& final(self).free_of(from) == old(self).free_of(from) - amount
                    &&& final(self).reserved_of(from) == old(self).reserved_of(from)
                    &&& final(self).free_of(to) == old(self).free_of(to) + amount
                    &&& final(self).reserved_of(to) == old(self).reserved_of(to)
                } else {
                    &&& r == Result::<(), LedgerError>::Err(LedgerError::Overflow)
                    &&& *final(self) == *old(self)
                }
            },
    {
        let from_free = self.free_balance(from);
        if from_free < amount {
            return Err(LedgerError::InsufficientBalance);
        }
        if from == to {
            return Ok(());
        }
        let to_free = self.free_balance(to);
        let to_reserved = self.reserved_balance(to);
        if amount > u128::MAX - to_free || to_free + amount > u128::MAX - to_reserved {
            return Err(LedgerError::Overflow);
        }
        let i = self.entry_index(from);
        let ghost s1 = self.accounts@;
        let rec = self.accounts[i];
        let rec2 = AccountRecord { id: rec.id, free: rec.free - amount, reserved: rec.reserved };
        self.accounts[i] = rec2;
        proof {
            lemma_ledger_update(*old(self), s1, *self, i as int, rec2, from);
        }
        let ghost mid = *self;
        proof {
            assert(mid.same_account(*old(self), to));
        }
        let j = self.entry_index(to);
        let ghost s2 = self.accounts@;
        let rec3 = self.accounts[j];
        let rec4 = AccountRecord { id: rec3.id, free: rec3.free + amount, reserved: rec3.reserved };
        self.accounts[j] = rec4;
        proof {
            lemma_ledger_update(mid, s2, *self, j as int, rec4, to);
            assert(self.same_account(mid, from));
            assert forall|c: AccountId| c != from && c != to implies
                #[trigger] self.same_account(*old(self), c) by {
                assert(mid.same_account(*old(self), c));
                assert(self.same_account(mid, c));
            }
        }
        Ok(())
    }

    /// Move up to `amount` of `from`'s reserved funds into `to`'s free
    /// balance (the whole reservation when it is smaller). Fails, changing
    /// nothing, when `to` cannot take the moved funds.
    pub fn repatriate_reserved(&mut self, from: AccountId, to: AccountId, amount: u128) -> (r:
        Result<(), LedgerError>)
        requires
            old(self).wf(),
        ensures
            final(self).wf(),
            final(self).same_except2(*old(self), from, to),
            ({
                let moved = spec_min_u128(amount, old(self).reserved_of(from));
                if from == to {
                    &&& r is Ok
                    &&& final(self).free_of(from) == old(self).free_of(from) + moved
                    &&& final(self).reserved_of(from) == old(self).reserved_of(from) - moved
                } else if old(self).free_of(to) + old(self).reserved_of(to) + moved
                    <= u128::MAX {
                    &&& r is Ok
                    &&& final(self).free_of(from) == old(self).free_of(from)
                    &&& final(self).reserved_of(from) == old(self).reserved_of(from) - moved
                    &&& final(self).free_of(to) == old(self).free_of(to) + moved
                    &&& final(self).reserved_of(to) == old(self).reserved_of(to)
                } else {
                    &&& r == Result::<(), LedgerError>::Err(LedgerError::Overflow)
                    &&& *final(self) == *old(self)
                }
            }),
    {
        let from_reserved = self.reserved_balance(from);
        let moved = if amount < from_reserved {
            amount
        } else {
            from_reserved
        };
        if from == to {
            self.unreserve(from, moved);
            return Ok(());
        }
        let to_free = self.free_balance(to);
        let to_reserved = self.reserved_balance(to);
        if moved > u128::MAX - to_free || to_free + moved > u128::MAX - to_reserved {
            return Err(LedgerError::Overflow);
        }
        let i = self.entry_index(from);
        let ghost s1 = self.accounts@;
        let rec = self.accounts[i];
        let rec2 = AccountRecord { id: rec.id, free: rec.free, reserved: rec.reserved - moved };
        self.accounts[i] = rec2;
        proof {
            lemma_ledger_update(*old(self), s1, *self, i as int, rec2, from);
        }
        let ghost mid = *self;
        proof {
            assert(mid.same_account(*old(self), to));
        }
        let j = self.entry_index(to);
        let ghost s2 = self.accounts@;
        let rec3 = self.accounts[j];
        let rec4 = AccountRecord { id: rec3.id, free: rec3.free + moved, reserved: rec3.reserved };
        self.accounts[j] = rec4;
        proof {
            lemma_ledger_update(mid, s2, *self, j as int, rec4, to);
            assert(self.same_account(mid, from));
            assert forall|c: AccountId| c != from && c != to implies
                #[trigger] self.same_account(*old(self), c) by {
                assert(mid.same_account(*old(self), c));
                assert(self.same_account(mid, c));
            }
        }
        Ok(())
    }
}

/// If some record names `a`, the first such record is `a`'s entry.
proof fn lemma_entry_first_exists(s: Seq<AccountRecord>, a: AccountId)
    requires
        exists|j: int| 0 <= j < s.len() && s[j].id == a,
    ensures
        spec_entry(s, a) is Some,
    decreases s.len(),
{
    let j = choose|j: int| 0 <= j < s.len() && s[j].id == a;
    if s[0].id != a {
        assert(0 <= j - 1 < s.drop_first().len() && s.drop_first()[j - 1].id == a);
        lemma_entry_first_exists(s.drop_first(), a);
    }
}

} // verus!
