//! The proposal registry and the guard in front of its votes.

use vstd::prelude::*;
use crate::errors::StakingErr;
use crate::staking::{power_in, Staking};
use crate::types::{AccountId, Balance, Id, Timestamp};

verus! {

/// The voting power below which a vote is refused: 100 tokens of 10^18 units.
pub const MIN_VOTING_POWER: Balance = 100_000_000_000_000_000_000;

/// The shortest duration of a proposal: one day, in milliseconds.
pub const MIN_DURATION: Timestamp = 86_400_000;

/// The smallest number of options of a proposal.
pub const MIN_OPTIONS: usize = 2;

/// The largest number of options of a proposal.
pub const MAX_OPTIONS: usize = 4;

/// A named, time-bounded choice among labelled options.
#[derive(Clone, Debug)]
pub struct Proposal {
    pub name: String,
    /// The last moment at which a vote is accepted.
    pub expiration: Timestamp,
    /// Each option's label and the votes it has.
    pub options: Vec<(String, Balance)>,
}

/// A proposal as plain mathematical values.
pub struct ProposalView {
    pub name: Seq<char>,
    pub expiration: Timestamp,
    pub options: Seq<(Seq<char>, Balance)>,
}

/// The options of a proposal as labels and counts.
pub open spec fn options_view(options: Seq<(String, Balance)>) -> Seq<(Seq<char>, Balance)> {
    options.map_values(|o: (String, Balance)| (o.0@, o.1))
}

/// The options of a new proposal: the given labels, with no votes.
pub open spec fn fresh_options(labels: Seq<String>) -> Seq<(Seq<char>, Balance)> {
    labels.map_values(|l: String| (l@, 0u128))
}

impl View for Proposal {
    type V = ProposalView;

    open spec fn view(&self) -> ProposalView {
        ProposalView {
            name: self.name@,
            expiration: self.expiration,
            options: options_view(self.options@),
        }
    }
}

/// The registry as the sequence of its proposals: a proposal's id is its
/// position.
pub type Registry = Seq<ProposalView>;

/// The error with which a proposal of `n_options` options and `duration` is
/// refused, if it is.
pub open spec fn propose_error(n_options: nat, duration: Timestamp) -> Option<StakingErr> {
    if n_options < MIN_OPTIONS {
        Some(StakingErr::TooFewOptions)
    } else if n_options > MAX_OPTIONS {
        Some(StakingErr::MaxFourOptions)
    } else if duration < MIN_DURATION {
        Some(StakingErr::AtLeastOneDay)
    } else {
        None
    }
}

/// The proposal that a successful `propose` registers.
pub open spec fn new_proposal(name: Seq<char>, labels: Seq<String>, duration: Timestamp, now: Timestamp) -> ProposalView {
    ProposalView {
        name,
        expiration: (now + duration) as u64,
        options: fresh_options(labels),
    }
}

/// The id that `propose` returns, or the error with which it refuses.
pub open spec fn propose_result(registry: Registry, n_options: nat, duration: Timestamp) -> Result<
    Id,
    StakingErr,
> {
    match propose_error(n_options, duration) {
        Some(e) => Err(e),
        None => Ok(registry.len() as u128),
    }
}

/// The registry after `propose`: one proposal longer where it succeeds, and
/// as it was where it does not.
pub open spec fn propose_spec(
    registry: Registry,
    name: Seq<char>,
    labels: Seq<String>,
    duration: Timestamp,
    now: Timestamp,
) -> Registry {
    match propose_error(labels.len(), duration) {
        Some(_) => registry,
        None => registry.push(new_proposal(name, labels, duration, now)),
    }
}

/// The error with which the guard refuses a caller of voting power `power`,
/// if it does.
pub open spec fn guard_error(power: Balance) -> Option<StakingErr> {
    if power < MIN_VOTING_POWER {
        Some(StakingErr::NotEnoughVotingPower)
    } else {
        None
    }
}

/// The error with which a vote that has passed the guard is refused, if it is.
pub open spec fn ballot_error(registry: Registry, proposal_id: Id, option: u8, now: Timestamp) -> Option<
    StakingErr,
> {
    if proposal_id >= registry.len() {
        Some(StakingErr::ProposalDoesNotExist)
    } else if now > registry[proposal_id as int].expiration {
        Some(StakingErr::ProposalExpired)
    } else if option >= registry[proposal_id as int].options.len() {
        Some(StakingErr::IncorrectOption)
    } else {
        None
    }
}

/// The error with which a vote is refused, if it is: the guard comes first.
pub open spec fn vote_error(
    registry: Registry,
    power: Balance,
    proposal_id: Id,
    option: u8,
    now: Timestamp,
) -> Option<StakingErr> {
    match guard_error(power) {
        Some(e) => Some(e),
        None => ballot_error(registry, proposal_id, option, now),
    }
}

/// The proposal after one more vote for `option`.
pub open spec fn with_vote(proposal: ProposalView, option: int) -> ProposalView {
    ProposalView {
        name: proposal.name,
        expiration: proposal.expiration,
        options: proposal.options.update(
            option,
            (proposal.options[option].0, (proposal.options[option].1 + 1) as u128),
        ),
    }
}

/// The registry after one more vote for `option` of proposal `proposal_id`.
pub open spec fn tally(registry: Registry, proposal_id: int, option: int) -> Registry {
    registry.update(proposal_id, with_vote(registry[proposal_id], option))
}

/// The registry after `vote`: one vote more where it succeeds, and as it was
/// where it does not.
pub open spec fn vote_spec(registry: Registry, power: Balance, proposal_id: Id, option: u8, now: Timestamp) -> Registry {
    match vote_error(registry, power, proposal_id, option, now) {
        Some(_) => registry,
        None => tally(registry, proposal_id as int, option as int),
    }
}

/// The governance guard: lets a caller through whose voting power reaches the
/// threshold, and refuses every other.
pub fn has_voting_power(power: Balance) -> (r: Result<(), StakingErr>)
    ensures
        match guard_error(power) {
            Some(e) => r == Err::<(), StakingErr>(e),
            None => r is Ok,
        },
{
    if power < MIN_VOTING_POWER {
        return Err(StakingErr::NotEnoughVotingPower);
    }
    Ok(())
}

/// The operations of a proposal registry.
pub trait Voting {
    /// The registry as the sequence of its proposals.
    spec fn registry(&self) -> Registry;

    /// The registry keeps its invariant.
    spec fn valid(&self) -> bool;

    /// Registers a proposal that expires `duration` after `now`, and returns
    /// its id: the number of proposals registered before it.
    fn propose(&mut self, name: String, options: Vec<String>, duration: Timestamp, now: Timestamp) -> (r:
        Result<Id, StakingErr>)
        requires
            old(self).valid(),
            now + duration <= u64::MAX,
        ensures
            final(self).valid(),
            r == propose_result(old(self).registry(), options@.len(), duration),
            final(self).registry() == propose_spec(old(self).registry(), name@, options@, duration, now),
    ;

    /// Votes for `option` of proposal `proposal_id` on behalf of a caller
    /// whose voting power is `power`. The guard decides first; a vote that
    /// passes it counts as one, whatever the power. Nothing records who has
    /// voted: a caller who votes again is counted again.
    fn vote(&mut self, power: Balance, proposal_id: Id, option: u8, now: Timestamp) -> (r: Result<
        (),
        StakingErr,
    >)
        requires
            old(self).valid(),
            vote_error(old(self).registry(), power, proposal_id, option, now) is None ==> old(
                self,
            ).registry()[proposal_id as int].options[option as int].1 < u128::MAX,
        ensures
            final(self).valid(),
            match vote_error(old(self).registry(), power, proposal_id, option, now) {
                Some(e) => r == Err::<(), StakingErr>(e),
                None => r is Ok,
            },
            final(self).registry() == vote_spec(old(self).registry(), power, proposal_id, option, now),
    ;
}

/// The proposal registry.
#[derive(Debug)]
pub struct Data {
    /// The proposals, each at the position of its id.
    pub proposals: Vec<Proposal>,
    /// The id that the next proposal gets.
    pub last_id: Id,
    /// The stake ledger whose voting power the guard asks for.
    pub staking: AccountId,
}

impl View for Data {
    type V = Registry;

    open spec fn view(&self) -> Registry {
        self.proposals@.map_values(|p: Proposal| p@)
    }
}

impl Data {
    /// The counter is the number of proposals, and each proposal has two to
    /// four options.
    pub open spec fn wf(&self) -> bool {
        &&& self.last_id == self.proposals@.len()
        &&& forall|i: int|
            0 <= i < self.proposals@.len() ==> MIN_OPTIONS <= (#[trigger] self.proposals@[i]).options@.len()
                <= MAX_OPTIONS
    }

    /// An empty registry whose guard asks the stake ledger at `staking`.
    pub fn new(staking: AccountId) -> (r: Self)
        ensures
            r.wf(),
            r@ == Registry::empty(),
            r.last_id == 0,
            r.staking == staking,
    {
        let r = Data { proposals: Vec::new(), last_id: 0, staking };
        assert(r@ =~= Registry::empty());
        r
    }

    /// Counts one vote for `option` of proposal `proposal_id`.
    fn record_vote(&mut self, proposal_id: Id, option: u8, now: Timestamp) -> (r: Result<(), StakingErr>)
        requires
            old(self).wf(),
            ballot_error(old(self)@, proposal_id, option, now) is None ==> old(self)@[proposal_id as int].options[option as int].1
                < u128::MAX,
        ensures
            final(self).wf(),
            final(self).staking == old(self).staking,
            final(self).last_id == old(self).last_id,
            match ballot_error(old(self)@, proposal_id, option, now) {
                Some(e) => r == Err::<(), StakingErr>(e) && *final(self) == *old(self),
                None => r is Ok && final(self)@ == tally(old(self)@, proposal_id as int, option as int),
            },
    {
        let count: usize = self.proposals.len();
        if proposal_id >= self.last_id {
            return Err(StakingErr::ProposalDoesNotExist);
        }
        assert(proposal_id < count);
        let at: usize = proposal_id as usize;
        let chosen: usize = option as usize;
        assert(self@[at as int] == self.proposals@[at as int]@);
        assert(self@[at as int].options.len() == self.proposals@[at as int].options@.len());
        if self.proposals[at].expiration < now {
            return Err(StakingErr::ProposalExpired);
        }
        if chosen >= self.proposals[at].options.len() {
            return Err(StakingErr::IncorrectOption);
        }
        let votes: Balance = self.proposals[at].options[chosen].1;
        self.proposals[at].options[chosen].1 = votes + 1;
        assert(self.proposals@[at as int].options@ =~= old(self).proposals@[at as int].options@.update(
            chosen as int,
            (old(self).proposals@[at as int].options@[chosen as int].0, (votes + 1) as u128),
        ));
        assert(self.proposals@[at as int]@.options =~= with_vote(old(self)@[at as int], chosen as int).options);
        assert(self@ =~= tally(old(self)@, at as int, chosen as int));
        Ok(())
    }

    /// Votes on behalf of `caller`, whose voting power is read from `ledger`.
    pub fn vote_as(
        &mut self,
        ledger: &crate::staking::Data,
        caller: AccountId,
        proposal_id: Id,
        option: u8,
        now: Timestamp,
    ) -> (r: Result<(), StakingErr>)
        requires
            old(self).wf(),
            ledger.wf(),
            vote_error(old(self)@, power_in(ledger@, caller), proposal_id, option, now) is None
                ==> old(self)@[proposal_id as int].options[option as int].1 < u128::MAX,
        ensures
            final(self).wf(),
            final(self).staking == old(self).staking,
            final(self).last_id == old(self).last_id,
            match vote_error(old(self)@, power_in(ledger@, caller), proposal_id, option, now) {
                Some(e) => r == Err::<(), StakingErr>(e) && *final(self) == *old(self),
                None => r is Ok,
            },
            final(self)@ == vote_spec(old(self)@, power_in(ledger@, caller), proposal_id, option, now),
    {
        let power = ledger.voting_power(caller);
        self.vote(power, proposal_id, option, now)
    }
}

impl Voting for Data {
    open spec fn registry(&self) -> Registry {
        self@
    }

    open spec fn valid(&self) -> bool {
        self.wf()
    }

    fn propose(&mut self, name: String, options: Vec<String>, duration: Timestamp, now: Timestamp) -> (r:
        Result<Id, StakingErr>)
        ensures
            final(self).staking == old(self).staking,
            r is Err ==> *final(self) == *old(self),
            r is Ok ==> final(self).last_id == old(self).last_id + 1,
    {
        let id: u128 = self.last_id;
        if options.len() < MIN_OPTIONS {
            return Err(StakingErr::TooFewOptions);
        }
        if options.len() > MAX_OPTIONS {
            return Err(StakingErr::MaxFourOptions);
        }
        if duration < MIN_DURATION {
            return Err(StakingErr::AtLeastOneDay);
        }
        let mut counted: Vec<(String, Balance)> = Vec::new();
        let mut i: usize = 0;
        while i < options.len()
            invariant
                i <= options@.len(),
                counted@.len() == i,
                forall|k: int| 0 <= k < i ==> (#[trigger] counted@[k]).0@ == options@[k]@ && counted@[k].1 == 0,
            decreases options@.len() - i,
        {
            counted.push((options[i].clone(), 0));
            i += 1;
        }
        assert(options_view(counted@) =~= fresh_options(options@));
        let proposal = Proposal { name, expiration: now + duration, options: counted };
        self.proposals.push(proposal);
        let count: usize = self.proposals.len();
        assert(id + 1 == count);
        self.last_id = id + 1;
        assert(self@ =~= old(self)@.push(proposal@));
        Ok(id)
    }

    fn vote(&mut self, power: Balance, proposal_id: Id, option: u8, now: Timestamp) -> (r: Result<
        (),
        StakingErr,
    >)
        ensures
            final(self).staking == old(self).staking,
            final(self).last_id == old(self).last_id,
            r is Err ==> *final(self) == *old(self),
    {
        if let Err(e) = has_voting_power(power) {
            return Err(e);
        }
        self.record_vote(proposal_id, option, now)
    }
}

} // verus!
