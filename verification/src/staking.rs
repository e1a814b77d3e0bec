//! The stake ledger: per-account stake records, their lock windows, and the
//! voting power derived from them.
//!
//! An operation runs in two steps. `stake` and `unstake` validate a request
//! against the ledger and say which transfer the token ledger must make and
//! which record the account gets once it has made it. `settle` takes the token
//! ledger's answer: it writes the record on success and leaves the ledger as
//! it was on failure.

use vstd::prelude::*;
use crate::errors::{StakingErr, TokenError};
use crate::types::{AccountId, Balance, Timestamp};

verus! {

/// The supply of tokens that is minted once, to the account that sets the
/// token ledger up: 42,000,000 tokens of 10^18 units.
pub const INITIAL_SUPPLY: Balance = 42_000_000_000_000_000_000_000_000;

/// The lock window: 30 days, in milliseconds.
pub const LOCK_PERIOD: Timestamp = 2_592_000_000;

/// What the ledger holds for one account.
#[derive(Clone, Copy, Debug, PartialEq, Eq, Structural)]
pub struct StakeRecord {
    /// The locked tokens; never zero in a stored record.
    pub amount: Balance,
    /// The start of the current lock window.
    pub lock_start: Timestamp,
}

/// A movement of tokens that the token ledger is asked to make.
#[derive(Clone, Copy, Debug, PartialEq, Eq, Structural)]
pub struct Transfer {
    pub from: AccountId,
    pub to: AccountId,
    pub amount: Balance,
}

/// A validated request: the transfer to make, and the record that `account`
/// gets when the transfer has been made (`None`: the record is deleted).
#[derive(Clone, Copy, Debug, PartialEq, Eq)]
pub struct Pending {
    pub account: AccountId,
    /// What the ledger held for `account` when the request was validated.
    pub before: Option<StakeRecord>,
    pub record: Option<StakeRecord>,
    pub transfer: Transfer,
}

impl Pending {
    /// A record that is written holds a positive amount.
    pub open spec fn wf(&self) -> bool {
        self.record matches Some(r) ==> r.amount > 0
    }

    /// The request was validated against what `ledger` holds for its
    /// account: nothing has changed that record in between.
    pub open spec fn fits(&self, ledger: Ledger) -> bool {
        self.before == record_in(ledger, self.account)
    }
}

/// The ledger as a mapping from accounts to records.
pub type Ledger = Map<AccountId, StakeRecord>;

/// The record of `account` in `ledger`, if it has one.
pub open spec fn record_in(ledger: Ledger, account: AccountId) -> Option<StakeRecord> {
    if ledger.contains_key(account) {
        Some(ledger[account])
    } else {
        None
    }
}

/// The voting power of `account` in `ledger`.
pub open spec fn power_in(ledger: Ledger, account: AccountId) -> Balance {
    if ledger.contains_key(account) {
        ledger[account].amount
    } else {
        0
    }
}

/// What a stake request of `amount` by `caller` at time `now` comes to.
pub open spec fn stake_spec(
    ledger: Ledger,
    caller: AccountId,
    custody: AccountId,
    amount: Balance,
    now: Timestamp,
) -> Result<Pending, StakingErr> {
    if amount == 0 {
        Err(StakingErr::AmountMustBeAboveZero)
    } else {
        let record = if ledger.contains_key(caller) {
            StakeRecord {
                amount: (ledger[caller].amount + amount) as u128,
                lock_start: ledger[caller].lock_start,
            }
        } else {
            StakeRecord { amount, lock_start: now }
        };
        Ok(
            Pending {
                account: caller,
                before: record_in(ledger, caller),
                record: Some(record),
                transfer: Transfer { from: caller, to: custody, amount },
            },
        )
    }
}

/// What a withdrawal request of `amount` by `caller` at time `now` comes to.
pub open spec fn unstake_spec(
    ledger: Ledger,
    caller: AccountId,
    custody: AccountId,
    amount: Balance,
    now: Timestamp,
) -> Result<Pending, StakingErr> {
    if amount == 0 {
        Err(StakingErr::AmountMustBeAboveZero)
    } else if !ledger.contains_key(caller) {
        Err(StakingErr::NothingToWithdraw)
    } else if amount >= ledger[caller].amount {
        if now - ledger[caller].lock_start >= LOCK_PERIOD {
            Ok(
                Pending {
                    account: caller,
                    before: record_in(ledger, caller),
                    record: None,
                    transfer: Transfer { from: custody, to: caller, amount: ledger[caller].amount },
                },
            )
        } else {
            Err(StakingErr::LockingPeriodNotEnded)
        }
    } else {
        Ok(
            Pending {
                account: caller,
                before: record_in(ledger, caller),
                record: Some(
                    StakeRecord {
                        amount: (ledger[caller].amount - amount) as u128,
                        lock_start: now,
                    },
                ),
                transfer: Transfer { from: custody, to: caller, amount },
            },
        )
    }
}

/// The ledger after `pending` has been written.
pub open spec fn settle_spec(ledger: Ledger, pending: Pending) -> Ledger {
    match pending.record {
        Some(r) => ledger.insert(pending.account, r),
        None => ledger.remove(pending.account),
    }
}

/// No account occurs twice in `entries`.
pub open spec fn distinct(entries: Seq<(AccountId, StakeRecord)>) -> bool {
    forall|i: int, j: int| 0 <= i < j < entries.len() ==> entries[i].0 != entries[j].0
}

/// `account` has an entry in `entries`.
pub open spec fn has_entry(entries: Seq<(AccountId, StakeRecord)>, account: AccountId) -> bool {
    exists|i: int| 0 <= i < entries.len() && #[trigger] entries[i].0 == account
}

/// The position of the entry of `account` in `entries`.
pub open spec fn entry_index(entries: Seq<(AccountId, StakeRecord)>, account: AccountId) -> int {
    choose|i: int| 0 <= i < entries.len() && #[trigger] entries[i].0 == account
}

/// The mapping that a list of entries stands for.
pub open spec fn ledger_of(entries: Seq<(AccountId, StakeRecord)>) -> Ledger {
    Map::new(
        |a: AccountId| has_entry(entries, a),
        |a: AccountId| entries[entry_index(entries, a)].1,
    )
}

/// In a list without repeats each entry is what the mapping holds for its
/// account.
pub proof fn lemma_entry(entries: Seq<(AccountId, StakeRecord)>, i: int)
    requires
        distinct(entries),
        0 <= i < entries.len(),
    ensures
        ledger_of(entries).contains_key(entries[i].0),
        ledger_of(entries)[entries[i].0] == entries[i].1,
{
    let a = entries[i].0;
    assert(has_entry(entries, a));
    let k = entry_index(entries, a);
    assert(k == i) by {
        if k < i {
            assert(entries[k].0 != entries[i].0);
        }
        if i < k {
            assert(entries[i].0 != entries[k].0);
        }
    }
}

/// Appending an entry for an account that has none inserts it.
proof fn lemma_push(entries: Seq<(AccountId, StakeRecord)>, a: AccountId, r: StakeRecord)
    requires
        distinct(entries),
        !has_entry(entries, a),
    ensures
        distinct(entries.push((a, r))),
        ledger_of(entries.push((a, r))) == ledger_of(entries).insert(a, r),
{
    let after = entries.push((a, r));
    assert(distinct(after)) by {
        assert forall|i: int, j: int| 0 <= i < j < after.len() implies after[i].0 != after[j].0 by {
            if j == entries.len() {
                assert(entries[i].0 == after[i].0);
            }
        }
    }
    assert forall|k: AccountId| #[trigger]
        ledger_of(after).contains_key(k) <==> ledger_of(entries).insert(a, r).contains_key(k) by {
        if has_entry(after, k) {
            let i = entry_index(after, k);
            if i < entries.len() {
                assert(entries[i].0 == k);
            }
        }
        if has_entry(entries, k) {
            let i = entry_index(entries, k);
            assert(after[i].0 == k);
        }
        if k == a {
            assert(after[entries.len() as int].0 == k);
        }
    }
    assert forall|k: AccountId| #[trigger] ledger_of(after).contains_key(k) implies ledger_of(
        after,
    )[k] == ledger_of(entries).insert(a, r)[k] by {
        let i = entry_index(after, k);
        lemma_entry(after, i);
        if i < entries.len() {
            lemma_entry(entries, i);
        }
    }
    assert(ledger_of(after) =~= ledger_of(entries).insert(a, r));
}

/// Replacing the record of an entry inserts the new record.
proof fn lemma_update(entries: Seq<(AccountId, StakeRecord)>, i: int, r: StakeRecord)
    requires
        distinct(entries),
        0 <= i < entries.len(),
    ensures
        distinct(entries.update(i, (entries[i].0, r))),
        ledger_of(entries.update(i, (entries[i].0, r))) == ledger_of(entries).insert(
            entries[i].0,
            r,
        ),
{
    let a = entries[i].0;
    let after = entries.update(i, (a, r));
    assert forall|j: int| 0 <= j < entries.len() implies #[trigger] after[j].0 == entries[j].0 by {}
    assert(distinct(after)) by {
        assert forall|x: int, y: int| 0 <= x < y < after.len() implies after[x].0 != after[y].0 by {
            assert(entries[x].0 != entries[y].0);
        }
    }
    assert forall|k: AccountId| #[trigger]
        ledger_of(after).contains_key(k) <==> ledger_of(entries).insert(a, r).contains_key(k) by {
        if has_entry(after, k) {
            let j = entry_index(after, k);
            assert(entries[j].0 == k);
        }
        if has_entry(entries, k) {
            let j = entry_index(entries, k);
            assert(after[j].0 == k);
        }
        if k == a {
            assert(after[i].0 == k);
        }
    }
    assert forall|k: AccountId| #[trigger] ledger_of(after).contains_key(k) implies ledger_of(
        after,
    )[k] == ledger_of(entries).insert(a, r)[k] by {
        let j = entry_index(after, k);
        lemma_entry(after, j);
        lemma_entry(entries, j);
    }
    assert(ledger_of(after) =~= ledger_of(entries).insert(a, r));
}

/// Taking an entry out removes its account.
proof fn lemma_remove(entries: Seq<(AccountId, StakeRecord)>, i: int)
    requires
        distinct(entries),
        0 <= i < entries.len(),
    ensures
        distinct(entries.remove(i)),
        ledger_of(entries.remove(i)) == ledger_of(entries).remove(entries[i].0),
{
    let a = entries[i].0;
    let after = entries.remove(i);
    assert forall|j: int| 0 <= j < after.len() implies #[trigger] after[j] == entries[if j < i {
        j
    } else {
        j + 1
    }] by {}
    assert(distinct(after)) by {
        assert forall|x: int, y: int| 0 <= x < y < after.len() implies after[x].0 != after[y].0 by {
            let x0 = if x < i { x } else { x + 1 };
            let y0 = if y < i { y } else { y + 1 };
            assert(after[x] == entries[x0]);
            assert(after[y] == entries[y0]);
            assert(entries[x0].0 != entries[y0].0);
        }
    }
    assert forall|k: AccountId| #[trigger]
        ledger_of(after).contains_key(k) <==> ledger_of(entries).remove(a).contains_key(k) by {
        if has_entry(after, k) {
            let j = entry_index(after, k);
            let j0 = if j < i { j } else { j + 1 };
            assert(after[j] == entries[j0]);
            assert(entries[j0].0 == k);
            if k == a {
                if j0 < i {
                    assert(entries[j0].0 != entries[i].0);
                } else {
                    assert(entries[i].0 != entries[j0].0);
                }
            }
        }
        if has_entry(entries, k) && k != a {
            let j = entry_index(entries, k);
            let j1 = if j < i { j } else { j - 1 };
            assert(after[j1] == entries[j]);
            assert(after[j1].0 == k);
        }
    }
    assert forall|k: AccountId| #[trigger] ledger_of(after).contains_key(k) implies ledger_of(
        after,
    )[k] == ledger_of(entries).remove(a)[k] by {
        let j = entry_index(after, k);
        let j0 = if j < i { j } else { j + 1 };
        assert(after[j] == entries[j0]);
        lemma_entry(after, j);
        lemma_entry(entries, j0);
    }
    assert(ledger_of(after) =~= ledger_of(entries).remove(a));
}

/// The rule that turns a stake record into voting power.
pub trait Internal {
    /// The power that the rule gives to `record`.
    spec fn power_of_record(record: StakeRecord) -> Balance;

    /// Computes the voting power of a record.
    fn _calculate_voting_power(&self, staking_data: &StakeRecord) -> (power: u128)
        ensures
            power == Self::power_of_record(*staking_data),
    ;
}

/// The operations of a stake ledger.
pub trait Staking {
    /// The ledger as a mapping from accounts to records.
    spec fn ledger(&self) -> Ledger;

    /// The ledger keeps its invariant.
    spec fn valid(&self) -> bool;

    /// Validates a request of `caller` to lock `amount` more tokens at time
    /// `now`. The ledger is not changed: the result is handed on with the
    /// token ledger's answer on the transfer it names.
    fn stake(&self, caller: AccountId, custody: AccountId, amount: Balance, now: Timestamp) -> (r:
        Result<Pending, StakingErr>)
        requires
            self.valid(),
            power_in(self.ledger(), caller) + amount <= u128::MAX,
        ensures
            r == stake_spec(self.ledger(), caller, custody, amount, now),
            amount == 0 ==> r == Err::<Pending, StakingErr>(StakingErr::AmountMustBeAboveZero),
            r matches Ok(p) ==> p.wf() && p.fits(self.ledger()),
    ;

    /// Validates a request of `caller` to withdraw `amount` tokens at time
    /// `now`. The ledger is not changed: the result is handed on with the
    /// token ledger's answer on the transfer it names.
    fn unstake(&self, caller: AccountId, custody: AccountId, amount: Balance, now: Timestamp) -> (r:
        Result<Pending, StakingErr>)
        requires
            self.valid(),
        ensures
            r == unstake_spec(self.ledger(), caller, custody, amount, now),
            r matches Ok(p) ==> p.wf() && p.fits(self.ledger()),
    ;

    /// The voting power of `account`: the amount it has staked, and zero
    /// where it has no record.
    fn voting_power(&self, account: AccountId) -> (power: u128)
        requires
            self.valid(),
        ensures
            power == power_in(self.ledger(), account),
    ;
}

/// The stake ledger.
#[derive(Debug)]
pub struct Data {
    /// One entry per account that has a stake.
    pub staked: Vec<(AccountId, StakeRecord)>,
}

impl Internal for Data {
    /// The power of a record is the amount it locks.
    open spec fn power_of_record(record: StakeRecord) -> Balance {
        record.amount
    }

    fn _calculate_voting_power(&self, staking_data: &StakeRecord) -> (power: u128) {
        staking_data.amount
    }
}

impl View for Data {
    type V = Ledger;

    open spec fn view(&self) -> Ledger {
        ledger_of(self.staked@)
    }
}

impl Default for Data {
    fn default() -> (r: Self)
        ensures
            r.wf(),
            r@ == Ledger::empty(),
    {
        Data::new()
    }
}

impl Data {
    /// No account has two entries, and no entry holds a zero amount.
    pub open spec fn wf(&self) -> bool {
        &&& distinct(self.staked@)
        &&& forall|i: int| 0 <= i < self.staked@.len() ==> (#[trigger] self.staked@[i]).1.amount > 0
    }

    /// A record exists only with a positive amount.
    pub proof fn law_records_positive(&self)
        requires
            self.wf(),
        ensures
            forall|a: AccountId| #[trigger] self@.contains_key(a) ==> self@[a].amount > 0,
    {
        assert forall|a: AccountId| #[trigger] self@.contains_key(a) implies self@[a].amount > 0 by {
            let i = entry_index(self.staked@, a);
            lemma_entry(self.staked@, i);
        }
    }

    /// The empty ledger.
    pub fn new() -> (r: Self)
        ensures
            r.wf(),
            r@ == Ledger::empty(),
    {
        let r = Data { staked: Vec::new() };
        assert(r@ =~= Ledger::empty());
        r
    }

    /// The position of the entry of `account`, if it has one.
    fn find(&self, account: AccountId) -> (r: Option<usize>)
        ensures
            match r {
                Some(i) => i < self.staked@.len() && self.staked@[i as int].0 == account,
                None => !has_entry(self.staked@, account),
            },
    {
        let mut i: usize = 0;
        while i < self.staked.len()
            invariant
                i <= self.staked@.len(),
                forall|k: int| 0 <= k < i ==> self.staked@[k].0 != account,
            decreases self.staked@.len() - i,
        {
            if self.staked[i].0 == account {
                return Some(i);
            }
            i += 1;
        }
        None
    }

    /// The record of `account`, if it has a stake.
    pub fn record(&self, account: AccountId) -> (r: Option<StakeRecord>)
        requires
            self.wf(),
        ensures
            r == record_in(self@, account),
    {
        match self.find(account) {
            Some(i) => {
                proof {
                    lemma_entry(self.staked@, i as int);
                }
                Some(self.staked[i].1)
            },
            None => None,
        }
    }

    /// Finishes a validated request with the token ledger's answer on its
    /// transfer. On success the record is written or deleted; on failure the
    /// ledger stays as it was and the failure is handed on. The account's
    /// record must still be the one that the request was validated against,
    /// so that no request is settled over another.
    pub fn settle(&mut self, pending: Pending, outcome: Result<(), TokenError>) -> (r: Result<
        (),
        StakingErr,
    >)
        requires
            old(self).wf(),
            pending.wf(),
            pending.fits(old(self)@),
        ensures
            final(self).wf(),
            match outcome {
                Ok(_) => r is Ok && final(self)@ == settle_spec(old(self)@, pending),
                Err(e) => r == Err::<(), StakingErr>(StakingErr::TokenTransferError(e))
                    && *final(self) == *old(self),
            },
    {
        if let Err(e) = outcome {
            return Err(StakingErr::TokenTransferError(e));
        }
        let found = self.find(pending.account);
        match (found, pending.record) {
            (Some(i), Some(record)) => {
                proof {
                    lemma_update(self.staked@, i as int, record);
                }
                self.staked.set(i, (pending.account, record));
            },
            (None, Some(record)) => {
                proof {
                    lemma_push(self.staked@, pending.account, record);
                }
                self.staked.push((pending.account, record));
            },
            (Some(i), None) => {
                proof {
                    lemma_remove(self.staked@, i as int);
                }
                self.staked.remove(i);
            },
            (None, None) => {
                assert(self@ =~= self@.remove(pending.account));
            },
        }
        Ok(())
    }
}

impl Staking for Data {
    open spec fn ledger(&self) -> Ledger {
        self@
    }

    open spec fn valid(&self) -> bool {
        self.wf()
    }

    fn voting_power(&self, account: AccountId) -> (power: u128) {
        match self.record(account) {
            Some(staking_data) => self._calculate_voting_power(&staking_data),
            None => 0,
        }
    }

    fn stake(&self, caller: AccountId, custody: AccountId, amount: Balance, now: Timestamp) -> (r:
        Result<Pending, StakingErr>) {
        if amount == 0 {
            return Err(StakingErr::AmountMustBeAboveZero);
        }
        let before = self.record(caller);
        let record = match before {
            Some(staking_data) => StakeRecord {
                amount: staking_data.amount + amount,
                lock_start: staking_data.lock_start,
            },
            None => StakeRecord { amount, lock_start: now },
        };
        Ok(
            Pending {
                account: caller,
                before,
                record: Some(record),
                transfer: Transfer { from: caller, to: custody, amount },
            },
        )
    }

    fn unstake(&self, caller: AccountId, custody: AccountId, amount: Balance, now: Timestamp) -> (r:
        Result<Pending, StakingErr>) {
        if amount == 0 {
            return Err(StakingErr::AmountMustBeAboveZero);
        }
        match self.record(caller) {
            Some(staking_data) => {
                let current_stake = staking_data.amount;
                if amount >= current_stake {
                    if now < staking_data.lock_start || now - staking_data.lock_start < LOCK_PERIOD {
                        return Err(StakingErr::LockingPeriodNotEnded);
                    }
                    Ok(
                        Pending {
                            account: caller,
                            before: Some(staking_data),
                            record: None,
                            transfer: Transfer { from: custody, to: caller, amount: current_stake },
                        },
                    )
                } else {
                    Ok(
                        Pending {
                            account: caller,
                            before: Some(staking_data),
                            record: Some(
                                StakeRecord { amount: current_stake - amount, lock_start: now },
                            ),
                            transfer: Transfer { from: custody, to: caller, amount },
                        },
                    )
                }
            },
            None => Err(StakingErr::NothingToWithdraw),
        }
    }
}

} // verus!
