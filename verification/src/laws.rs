//! What holds of the ledger and the registry over every input.

use vstd::prelude::*;
use crate::errors::StakingErr;
use crate::staking::{
    power_in, settle_spec, stake_spec, unstake_spec, Ledger, Pending, StakeRecord, LOCK_PERIOD,
};
use crate::types::{AccountId, Balance, Id, Timestamp};
use crate::voting::{
    propose_result, propose_spec, vote_error, vote_spec, Registry, MAX_OPTIONS, MIN_DURATION,
    MIN_OPTIONS, MIN_VOTING_POWER,
};

verus! {

/// One request to the stake ledger, with the token ledger's answer on the
/// transfer that it leads to.
pub enum Request {
    Stake { caller: AccountId, amount: Balance, now: Timestamp, transferred: bool },
    Unstake { caller: AccountId, amount: Balance, now: Timestamp, transferred: bool },
}

/// What the ledger decides on a request.
pub open spec fn decision(ledger: Ledger, custody: AccountId, request: Request) -> Result<
    Pending,
    StakingErr,
> {
    match request {
        Request::Stake { caller, amount, now, .. } => stake_spec(ledger, caller, custody, amount, now),
        Request::Unstake { caller, amount, now, .. } => unstake_spec(
            ledger,
            caller,
            custody,
            amount,
            now,
        ),
    }
}

/// The token ledger made the transfer of this request.
pub open spec fn transferred(request: Request) -> bool {
    match request {
        Request::Stake { transferred, .. } => transferred,
        Request::Unstake { transferred, .. } => transferred,
    }
}

/// The ledger after one request: changed where the request was accepted and
/// its transfer made, and as it was in every other case.
pub open spec fn step(ledger: Ledger, custody: AccountId, request: Request) -> Ledger {
    match decision(ledger, custody, request) {
        Ok(p) => if transferred(request) {
            settle_spec(ledger, p)
        } else {
            ledger
        },
        Err(_) => ledger,
    }
}

/// The ledger after a sequence of requests, starting from the empty ledger.
pub open spec fn run(custody: AccountId, requests: Seq<Request>) -> Ledger
    decreases requests.len(),
{
    if requests.len() == 0 {
        Ledger::empty()
    } else {
        step(run(custody, requests.drop_last()), custody, requests.last())
    }
}

/// No stake request in the sequence takes an account's stake over the
/// largest balance.
pub open spec fn within_limits(custody: AccountId, requests: Seq<Request>) -> bool
    decreases requests.len(),
{
    requests.len() == 0 || {
        &&& within_limits(custody, requests.drop_last())
        &&& requests.last() matches Request::Stake { caller, amount, .. } ==> power_in(
            run(custody, requests.drop_last()),
            caller,
        ) + amount <= u128::MAX
    }
}

/// The tokens that one request moved into the stake of `account`.
pub open spec fn staked_by(ledger: Ledger, custody: AccountId, request: Request, account: AccountId) -> int {
    match request {
        Request::Stake { caller, transferred, .. } => match decision(ledger, custody, request) {
            Ok(p) => if transferred && caller == account {
                p.transfer.amount as int
            } else {
                0
            },
            Err(_) => 0,
        },
        Request::Unstake { .. } => 0,
    }
}

/// The tokens that one request moved out of the stake of `account`.
pub open spec fn withdrawn_by(ledger: Ledger, custody: AccountId, request: Request, account: AccountId) -> int {
    match request {
        Request::Unstake { caller, transferred, .. } => match decision(ledger, custody, request) {
            Ok(p) => if transferred && caller == account {
                p.transfer.amount as int
            } else {
                0
            },
            Err(_) => 0,
        },
        Request::Stake { .. } => 0,
    }
}

/// All that a sequence of requests moved into the stake of `account`.
pub open spec fn total_staked(custody: AccountId, requests: Seq<Request>, account: AccountId) -> int
    decreases requests.len(),
{
    if requests.len() == 0 {
        0
    } else {
        total_staked(custody, requests.drop_last(), account) + staked_by(
            run(custody, requests.drop_last()),
            custody,
            requests.last(),
            account,
        )
    }
}

/// All that a sequence of requests moved out of the stake of `account`.
pub open spec fn total_withdrawn(custody: AccountId, requests: Seq<Request>, account: AccountId) -> int
    decreases requests.len(),
{
    if requests.len() == 0 {
        0
    } else {
        total_withdrawn(custody, requests.drop_last(), account) + withdrawn_by(
            run(custody, requests.drop_last()),
            custody,
            requests.last(),
            account,
        )
    }
}

/// A stake that is accepted and settled adds its amount to the caller's
/// voting power and leaves every other account's power as it was.
pub proof fn law_stake_adds(
    ledger: Ledger,
    caller: AccountId,
    custody: AccountId,
    amount: Balance,
    now: Timestamp,
    other: AccountId,
)
    requires
        amount > 0,
        power_in(ledger, caller) + amount <= u128::MAX,
        other != caller,
    ensures
        stake_spec(ledger, caller, custody, amount, now) matches Ok(p) && {
            &&& p.transfer.amount == amount
            &&& power_in(settle_spec(ledger, p), caller) == power_in(ledger, caller) + amount
            &&& power_in(settle_spec(ledger, p), other) == power_in(ledger, other)
        },
{
}

/// A withdrawal that is accepted and settled takes what it transfers, never
/// more than was asked for or than was staked, from the caller's voting power
/// and leaves every other account's power as it was.
pub proof fn law_unstake_subtracts(
    ledger: Ledger,
    caller: AccountId,
    custody: AccountId,
    amount: Balance,
    now: Timestamp,
    other: AccountId,
)
    requires
        other != caller,
    ensures
        unstake_spec(ledger, caller, custody, amount, now) matches Ok(p) ==> {
            &&& p.transfer.amount <= amount
            &&& p.transfer.amount <= power_in(ledger, caller)
            &&& power_in(settle_spec(ledger, p), caller) == power_in(ledger, caller)
                - p.transfer.amount
            &&& power_in(settle_spec(ledger, p), other) == power_in(ledger, other)
        },
{
}

/// After any sequence of requests an account's voting power is all that it
/// staked less all that it withdrew, and so never negative.
pub proof fn law_power_is_staked_less_withdrawn(
    custody: AccountId,
    requests: Seq<Request>,
    account: AccountId,
)
    requires
        within_limits(custody, requests),
    ensures
        power_in(run(custody, requests), account) == total_staked(custody, requests, account)
            - total_withdrawn(custody, requests, account),
        total_staked(custody, requests, account) >= total_withdrawn(custody, requests, account),
    decreases requests.len(),
{
    if requests.len() > 0 {
        law_power_is_staked_less_withdrawn(custody, requests.drop_last(), account);
    }
}

/// A stake of zero is refused with `AmountMustBeAboveZero`, whatever the
/// ledger holds.
pub proof fn law_zero_stake_refused(ledger: Ledger, caller: AccountId, custody: AccountId, now: Timestamp)
    ensures
        stake_spec(ledger, caller, custody, 0, now) == Err::<Pending, StakingErr>(
            StakingErr::AmountMustBeAboveZero,
        ),
{
}

/// A stake on top of an existing record keeps that record's lock start.
pub proof fn law_stake_keeps_lock_start(
    ledger: Ledger,
    caller: AccountId,
    custody: AccountId,
    amount: Balance,
    now: Timestamp,
)
    requires
        amount > 0,
        ledger.contains_key(caller),
    ensures
        stake_spec(ledger, caller, custody, amount, now) matches Ok(p) && settle_spec(
            ledger,
            p,
        )[caller].lock_start == ledger[caller].lock_start,
{
}

/// Two stakes in a row by an account without a record leave it with the lock
/// start of the first.
pub proof fn law_second_stake_keeps_first_lock_start(
    ledger: Ledger,
    caller: AccountId,
    custody: AccountId,
    first: Balance,
    first_now: Timestamp,
    second: Balance,
    second_now: Timestamp,
)
    requires
        first > 0,
        second > 0,
        !ledger.contains_key(caller),
    ensures
        stake_spec(ledger, caller, custody, first, first_now) matches Ok(p) && stake_spec(
            settle_spec(ledger, p),
            caller,
            custody,
            second,
            second_now,
        ) matches Ok(q) && settle_spec(settle_spec(ledger, p), q)[caller].lock_start == first_now,
{
}

/// A withdrawal of all that is staked, or more, is refused with
/// `LockingPeriodNotEnded` before the lock window has passed; from then on it
/// transfers the whole stake and deletes the record.
pub proof fn law_full_withdrawal(
    ledger: Ledger,
    caller: AccountId,
    custody: AccountId,
    amount: Balance,
    now: Timestamp,
)
    requires
        ledger.contains_key(caller),
        ledger[caller].amount > 0,
        amount >= ledger[caller].amount,
    ensures
        now - ledger[caller].lock_start < LOCK_PERIOD ==> unstake_spec(
            ledger,
            caller,
            custody,
            amount,
            now,
        ) == Err::<Pending, StakingErr>(StakingErr::LockingPeriodNotEnded),
        now - ledger[caller].lock_start >= LOCK_PERIOD ==> (unstake_spec(
            ledger,
            caller,
            custody,
            amount,
            now,
        ) matches Ok(p) && {
            &&& p.transfer.amount == ledger[caller].amount
            &&& !settle_spec(ledger, p).contains_key(caller)
            &&& power_in(settle_spec(ledger, p), caller) == 0
        }),
{
}

/// A withdrawal of less than is staked is accepted whatever the age of the
/// lock, and the record that remains starts its lock window anew.
pub proof fn law_partial_withdrawal(
    ledger: Ledger,
    caller: AccountId,
    custody: AccountId,
    amount: Balance,
    now: Timestamp,
)
    requires
        ledger.contains_key(caller),
        0 < amount < ledger[caller].amount,
    ensures
        unstake_spec(ledger, caller, custody, amount, now) matches Ok(p) && {
            &&& p.transfer.amount == amount
            &&& settle_spec(ledger, p)[caller] == (StakeRecord {
                amount: (ledger[caller].amount - amount) as u128,
                lock_start: now,
            })
        },
{
}

/// A proposal is refused for fewer than two options, with `MaxFourOptions`
/// for more than four, and with `AtLeastOneDay` for two to four options and a
/// duration under a day; the registry is then as it was.
pub proof fn law_propose_refusals(
    registry: Registry,
    name: Seq<char>,
    labels: Seq<String>,
    duration: Timestamp,
    now: Timestamp,
)
    ensures
        labels.len() < MIN_OPTIONS ==> propose_result(registry, labels.len(), duration) == Err::<
            Id,
            StakingErr,
        >(StakingErr::TooFewOptions),
        labels.len() > MAX_OPTIONS ==> propose_result(registry, labels.len(), duration) == Err::<
            Id,
            StakingErr,
        >(StakingErr::MaxFourOptions),
        MIN_OPTIONS <= labels.len() <= MAX_OPTIONS && duration < MIN_DURATION ==> propose_result(
            registry,
            labels.len(),
            duration,
        ) == Err::<Id, StakingErr>(StakingErr::AtLeastOneDay),
        propose_result(registry, labels.len(), duration) is Err ==> propose_spec(
            registry,
            name,
            labels,
            duration,
            now,
        ) == registry,
{
}

/// An accepted proposal gets the number of proposals before it as its id:
/// zero in an empty registry, and one more with each proposal. The proposals
/// before it stay where they are, so no id is given twice.
pub proof fn law_ids_sequential(
    registry: Registry,
    name: Seq<char>,
    labels: Seq<String>,
    duration: Timestamp,
    now: Timestamp,
)
    requires
        registry.len() < u128::MAX,
        MIN_OPTIONS <= labels.len() <= MAX_OPTIONS,
        duration >= MIN_DURATION,
    ensures
        propose_result(registry, labels.len(), duration) == Ok::<Id, StakingErr>(
            registry.len() as u128,
        ),
        propose_spec(registry, name, labels, duration, now).len() == registry.len() + 1,
        forall|id: int|
            0 <= id < registry.len() ==> propose_spec(registry, name, labels, duration, now)[id]
                == registry[id],
        propose_result(
            propose_spec(registry, name, labels, duration, now),
            labels.len(),
            duration,
        ) == Ok::<Id, StakingErr>((registry.len() + 1) as u128),
{
}

/// A vote leaves the number of proposals, and so the next id, as it was.
pub proof fn law_vote_keeps_ids(
    registry: Registry,
    power: Balance,
    proposal_id: Id,
    option: u8,
    now: Timestamp,
)
    ensures
        vote_spec(registry, power, proposal_id, option, now).len() == registry.len(),
{
}

/// A vote is refused with `NotEnoughVotingPower` below the threshold; above
/// it with `ProposalDoesNotExist` for an unknown id, with `ProposalExpired`
/// after the expiration, and with `IncorrectOption` for an index that is not
/// an option. A refused vote leaves every tally as it was.
pub proof fn law_vote_refusals(
    registry: Registry,
    power: Balance,
    proposal_id: Id,
    option: u8,
    now: Timestamp,
)
    ensures
        power < MIN_VOTING_POWER ==> vote_error(registry, power, proposal_id, option, now) == Some(
            StakingErr::NotEnoughVotingPower,
        ),
        power >= MIN_VOTING_POWER && proposal_id >= registry.len() ==> vote_error(
            registry,
            power,
            proposal_id,
            option,
            now,
        ) == Some(StakingErr::ProposalDoesNotExist),
        power >= MIN_VOTING_POWER && proposal_id < registry.len() && now
            > registry[proposal_id as int].expiration ==> vote_error(
            registry,
            power,
            proposal_id,
            option,
            now,
        ) == Some(StakingErr::ProposalExpired),
        power >= MIN_VOTING_POWER && proposal_id < registry.len() && now
            <= registry[proposal_id as int].expiration && option
            >= registry[proposal_id as int].options.len() ==> vote_error(
            registry,
            power,
            proposal_id,
            option,
            now,
        ) == Some(StakingErr::IncorrectOption),
        vote_error(registry, power, proposal_id, option, now) is Some ==> vote_spec(
            registry,
            power,
            proposal_id,
            option,
            now,
        ) == registry,
{
}

/// An accepted vote adds exactly one to the chosen option's count, whatever
/// the caller's power, and changes no other count, label or proposal.
pub proof fn law_vote_counts_one(
    registry: Registry,
    power: Balance,
    proposal_id: Id,
    option: u8,
    now: Timestamp,
)
    requires
        vote_error(registry, power, proposal_id, option, now) is None,
        registry[proposal_id as int].options[option as int].1 < u128::MAX,
    ensures
        ({
            let after = vote_spec(registry, power, proposal_id, option, now);
            &&& after.len() == registry.len()
            &&& forall|id: int| 0 <= id < registry.len() && id != proposal_id ==> after[id] == registry[id]
            &&& after[proposal_id as int].name == registry[proposal_id as int].name
            &&& after[proposal_id as int].expiration == registry[proposal_id as int].expiration
            &&& after[proposal_id as int].options.len() == registry[proposal_id as int].options.len()
            &&& after[proposal_id as int].options[option as int].1
                == registry[proposal_id as int].options[option as int].1 + 1
            &&& forall|k: int|
                0 <= k < registry[proposal_id as int].options.len() ==> {
                    &&& after[proposal_id as int].options[k].0 == registry[proposal_id as int].options[k].0
                    &&& k != option ==> after[proposal_id as int].options[k].1
                        == registry[proposal_id as int].options[k].1
                }
        }),
{
}

} // verus!
