use stake_governance::errors::{StakingErr, TokenError};
use stake_governance::staking::{Data as Ledger, Staking};
use stake_governance::types::AccountId;
use stake_governance::voting::{
    has_voting_power, Data, Voting, MAX_OPTIONS, MIN_DURATION, MIN_OPTIONS, MIN_VOTING_POWER,
};

const UNIT: u128 = 1_000_000_000_000_000_000;
const DAY: u64 = 86_400_000;

fn ledger_address() -> AccountId {
    AccountId { hi: 9, lo: 9 }
}

fn labels(names: &[&str]) -> Vec<String> {
    names.iter().map(|n| n.to_string()).collect()
}

fn votes(registry: &Data, id: usize) -> Vec<u128> {
    registry.proposals[id].options.iter().map(|o| o.1).collect()
}

#[test]
fn constants_have_their_values() {
    assert_eq!(MIN_VOTING_POWER, 100 * 10u128.pow(18));
    assert_eq!(MIN_DURATION, 24 * 60 * 60 * 1000);
    assert_eq!(MIN_OPTIONS, 2);
    assert_eq!(MAX_OPTIONS, 4);
}

#[test]
fn new_registry_is_empty() {
    let registry = Data::new(ledger_address());
    assert_eq!(registry.last_id, 0);
    assert!(registry.proposals.is_empty());
    assert_eq!(registry.staking, ledger_address());
}

#[test]
fn propose_refuses_too_few_options() {
    let mut registry = Data::new(ledger_address());
    assert_eq!(registry.propose(String::from("P"), labels(&["yes"]), DAY, 0), Err(StakingErr::TooFewOptions));
    assert_eq!(registry.propose(String::from("P"), labels(&[]), DAY, 0), Err(StakingErr::TooFewOptions));
    assert_eq!(registry.propose(String::from("P"), labels(&["yes"]), 1, 0), Err(StakingErr::TooFewOptions));
    assert_eq!(registry.last_id, 0);
    assert!(registry.proposals.is_empty());
}

#[test]
fn propose_refuses_more_than_four_options() {
    let mut registry = Data::new(ledger_address());
    assert_eq!(
        registry.propose(String::from("P"), labels(&["a", "b", "c", "d", "e"]), DAY, 0),
        Err(StakingErr::MaxFourOptions)
    );
    assert_eq!(
        registry.propose(String::from("P"), labels(&["a", "b", "c", "d", "e"]), 0, 0),
        Err(StakingErr::MaxFourOptions)
    );
    assert_eq!(registry.last_id, 0);
    assert!(registry.proposals.is_empty());
}

#[test]
fn propose_refuses_less_than_a_day() {
    let mut registry = Data::new(ledger_address());
    assert_eq!(
        registry.propose(String::from("P"), labels(&["a", "b"]), DAY - 1, 0),
        Err(StakingErr::AtLeastOneDay)
    );
    assert_eq!(registry.last_id, 0);
    assert_eq!(registry.propose(String::from("P"), labels(&["a", "b"]), DAY, 0), Ok(0));
}

#[test]
fn propose_gives_sequential_ids() {
    let mut registry = Data::new(ledger_address());
    assert_eq!(registry.propose(String::from("first"), labels(&["a", "b"]), DAY, 10), Ok(0));
    assert_eq!(registry.propose(String::from("P"), labels(&["a"]), DAY, 10), Err(StakingErr::TooFewOptions));
    assert_eq!(registry.propose(String::from("second"), labels(&["a", "b", "c"]), DAY + 5, 20), Ok(1));
    assert_eq!(registry.propose(String::from("second"), labels(&["a", "b", "c", "d"]), 2 * DAY, 30), Ok(2));
    assert_eq!(registry.last_id, 3);
    assert_eq!(registry.proposals.len(), 3);
    assert_eq!(registry.proposals[0].name, "first");
    assert_eq!(registry.proposals[0].expiration, 10 + DAY);
    assert_eq!(registry.proposals[1].name, "second");
    assert_eq!(registry.proposals[1].expiration, 20 + DAY + 5);
    assert_eq!(
        registry.proposals[1].options,
        vec![(String::from("a"), 0), (String::from("b"), 0), (String::from("c"), 0)]
    );
    assert_eq!(registry.proposals[2].expiration, 30 + 2 * DAY);
    assert_eq!(votes(&registry, 2), vec![0, 0, 0, 0]);
}

#[test]
fn guard_is_a_threshold() {
    assert_eq!(has_voting_power(0), Err(StakingErr::NotEnoughVotingPower));
    assert_eq!(has_voting_power(100 * UNIT - 1), Err(StakingErr::NotEnoughVotingPower));
    assert_eq!(has_voting_power(100 * UNIT), Ok(()));
    assert_eq!(has_voting_power(u128::MAX), Ok(()));
}

#[test]
fn vote_refuses_low_voting_power_first() {
    let mut registry = Data::new(ledger_address());
    registry.propose(String::from("P"), labels(&["yes", "no"]), DAY, 0).unwrap();
    assert_eq!(registry.vote(100 * UNIT - 1, 0, 0, 0), Err(StakingErr::NotEnoughVotingPower));
    assert_eq!(registry.vote(0, 5, 0, DAY + 1), Err(StakingErr::NotEnoughVotingPower));
    assert_eq!(registry.vote(0, 0, 9, DAY + 1), Err(StakingErr::NotEnoughVotingPower));
    assert_eq!(votes(&registry, 0), vec![0, 0]);
}

#[test]
fn vote_refuses_unknown_proposal() {
    let mut registry = Data::new(ledger_address());
    assert_eq!(registry.vote(100 * UNIT, 0, 0, 0), Err(StakingErr::ProposalDoesNotExist));
    registry.propose(String::from("P"), labels(&["yes", "no"]), DAY, 0).unwrap();
    assert_eq!(registry.vote(100 * UNIT, 1, 0, 0), Err(StakingErr::ProposalDoesNotExist));
    assert_eq!(registry.vote(100 * UNIT, u128::MAX, 0, 0), Err(StakingErr::ProposalDoesNotExist));
    assert_eq!(votes(&registry, 0), vec![0, 0]);
}

#[test]
fn vote_refuses_expired_proposal() {
    let mut registry = Data::new(ledger_address());
    registry.propose(String::from("P"), labels(&["yes", "no"]), DAY, 100).unwrap();
    assert_eq!(registry.vote(100 * UNIT, 0, 0, 100 + DAY + 1), Err(StakingErr::ProposalExpired));
    assert_eq!(registry.vote(100 * UNIT, 0, 7, 100 + DAY + 1), Err(StakingErr::ProposalExpired));
    assert_eq!(votes(&registry, 0), vec![0, 0]);
    assert_eq!(registry.vote(100 * UNIT, 0, 1, 100 + DAY), Ok(()));
    assert_eq!(votes(&registry, 0), vec![0, 1]);
}

#[test]
fn vote_refuses_option_out_of_range() {
    let mut registry = Data::new(ledger_address());
    registry.propose(String::from("P"), labels(&["yes", "no"]), DAY, 0).unwrap();
    assert_eq!(registry.vote(100 * UNIT, 0, 2, 0), Err(StakingErr::IncorrectOption));
    assert_eq!(registry.vote(100 * UNIT, 0, 255, 0), Err(StakingErr::IncorrectOption));
    assert_eq!(votes(&registry, 0), vec![0, 0]);
}

#[test]
fn vote_counts_one_whatever_the_power() {
    let mut registry = Data::new(ledger_address());
    registry.propose(String::from("P"), labels(&["a", "b", "c", "d"]), DAY, 0).unwrap();
    registry.propose(String::from("Q"), labels(&["x", "y"]), DAY, 0).unwrap();
    assert_eq!(registry.vote(u128::MAX, 0, 3, 1), Ok(()));
    assert_eq!(registry.vote(100 * UNIT, 0, 3, 2), Ok(()));
    assert_eq!(registry.vote(500 * UNIT, 0, 1, 3), Ok(()));
    assert_eq!(votes(&registry, 0), vec![0, 1, 0, 2]);
    assert_eq!(votes(&registry, 1), vec![0, 0]);
    assert_eq!(registry.proposals[0].options[3].0, "d");
    assert_eq!(registry.proposals[0].name, "P");
    assert_eq!(registry.proposals[0].expiration, DAY);
    assert_eq!(registry.last_id, 2);
}

#[test]
fn staker_proposes_and_votes_twice() {
    let a = AccountId { hi: 0, lo: 0xA };
    let custody = AccountId { hi: 9, lo: 9 };
    let mut ledger = Ledger::new();
    let mut registry = Data::new(custody);
    let now: u64 = 1_700_000_000_000;

    let pending = ledger.stake(a, custody, 200 * UNIT, now).unwrap();
    assert_eq!(ledger.settle(pending, Ok(())), Ok(()));

    assert_eq!(registry.propose(String::from("P"), labels(&["yes", "no"]), 86_400_000, now), Ok(0));
    assert_eq!(registry.vote_as(&ledger, a, 0, 0, now), Ok(()));
    assert_eq!(registry.proposals[0].options[0].1, 1);
    assert_eq!(registry.vote_as(&ledger, a, 0, 0, now), Ok(()));
    assert_eq!(registry.proposals[0].options[0].1, 2);
    assert_eq!(registry.proposals[0].options[1].1, 0);
}

#[test]
fn account_without_stake_cannot_vote() {
    let a = AccountId { hi: 0, lo: 0xA };
    let b = AccountId { hi: 0, lo: 0xB };
    let custody = AccountId { hi: 9, lo: 9 };
    let mut ledger = Ledger::new();
    let mut registry = Data::new(custody);
    let pending = ledger.stake(a, custody, 200 * UNIT, 0).unwrap();
    ledger.settle(pending, Ok(())).unwrap();
    registry.propose(String::from("P"), labels(&["yes", "no"]), DAY, 0).unwrap();

    assert_eq!(ledger.voting_power(b), 0);
    assert_eq!(registry.vote_as(&ledger, b, 0, 0, 1), Err(StakingErr::NotEnoughVotingPower));
    assert_eq!(registry.vote_as(&ledger, b, 0, 1, 1), Err(StakingErr::NotEnoughVotingPower));
    assert_eq!(votes(&registry, 0), vec![0, 0]);
}

#[test]
fn vote_follows_the_stake() {
    let a = AccountId { hi: 0, lo: 0xA };
    let custody = AccountId { hi: 9, lo: 9 };
    let mut ledger = Ledger::new();
    let mut registry = Data::new(custody);
    registry.propose(String::from("P"), labels(&["yes", "no"]), DAY, 0).unwrap();

    let pending = ledger.stake(a, custody, 60 * UNIT, 0).unwrap();
    assert_eq!(
        ledger.settle(pending, Err(TokenError::InsufficientBalance)),
        Err(StakingErr::TokenTransferError(TokenError::InsufficientBalance))
    );
    assert_eq!(registry.vote_as(&ledger, a, 0, 0, 1), Err(StakingErr::NotEnoughVotingPower));
    let pending = ledger.stake(a, custody, 60 * UNIT, 0).unwrap();
    ledger.settle(pending, Ok(())).unwrap();
    assert_eq!(registry.vote_as(&ledger, a, 0, 0, 1), Err(StakingErr::NotEnoughVotingPower));
    let pending = ledger.stake(a, custody, 40 * UNIT, 5).unwrap();
    ledger.settle(pending, Ok(())).unwrap();
    assert_eq!(registry.vote_as(&ledger, a, 0, 1, 6), Ok(()));
    let pending = ledger.unstake(a, custody, 1, 7).unwrap();
    ledger.settle(pending, Ok(())).unwrap();
    assert_eq!(registry.vote_as(&ledger, a, 0, 1, 8), Err(StakingErr::NotEnoughVotingPower));
    assert_eq!(votes(&registry, 0), vec![0, 1]);
}
