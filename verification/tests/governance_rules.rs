use ipx_protocol::governance::{
    Dao, Execution, GovernanceError, GovernanceStats, Proposal, ProposalData, ProposalType,
};
use ipx_protocol::identity::Identity;

fn member(tag: u8) -> Identity {
    Identity::from_bytes(vec![9, tag])
}

fn data(kind: ProposalType, period: u64) -> ProposalData {
    ProposalData {
        title: String::from("title"),
        description: String::from("description"),
        proposal_type: kind,
        voting_period: period,
    }
}

fn dao_with_two_members() -> Dao {
    let mut dao = Dao::init(member(1));
    dao.member_votes.push((member(2), 250));
    dao
}

#[test]
fn founder_is_the_only_member() {
    let dao = Dao::init(member(1));
    assert_eq!(dao.member_votes, vec![(member(1), 100)]);
    assert_eq!(dao.treasury_balance, 1_000_000);
    assert!(dao.proposals.is_empty());
    assert!(!dao.ready_for_upgrade);
    assert_eq!(dao.power_of(&member(1)), 100);
    assert_eq!(dao.power_of(&member(2)), 0);
}

#[test]
fn proposals_are_numbered_from_one() {
    let mut dao = dao_with_two_members();
    let first = dao.create_proposal(member(1), data(ProposalType::Treasury, 50), 1_000);
    assert_eq!(first, Ok(1));
    let second = dao.create_proposal(member(2), data(ProposalType::CodeUpgrade, 10), 2_000);
    assert_eq!(second, Ok(2));
    assert_eq!(
        dao.proposals[0],
        Proposal {
            id: 1,
            proposer: member(1),
            data: data(ProposalType::Treasury, 50),
            votes_for: 0,
            votes_against: 0,
            created_at: 1_000,
            voting_deadline: 1_050,
            executed: false,
            voters: vec![],
        }
    );
    assert_eq!(dao.proposals[1].id, 2);
    assert_eq!(dao.proposals[1].voting_deadline, 2_010);
}

#[test]
fn only_members_propose() {
    let mut dao = dao_with_two_members();
    let before = dao.clone();
    assert_eq!(
        dao.create_proposal(member(3), data(ProposalType::Treasury, 50), 1),
        Err(GovernanceError::NoVotingPower)
    );
    assert_eq!(dao, before);
    assert_eq!(
        dao.create_proposal(member(1), data(ProposalType::Treasury, u64::MAX), 1),
        Err(GovernanceError::Overflow)
    );
    assert_eq!(dao, before);
}

#[test]
fn votes_carry_the_voting_power() {
    let mut dao = dao_with_two_members();
    dao.create_proposal(member(1), data(ProposalType::Treasury, 50), 1_000).unwrap();
    assert_eq!(dao.vote(member(1), 1, true, 1_010), Ok(()));
    assert_eq!(dao.vote(member(2), 1, false, 1_050), Ok(()));
    assert_eq!(dao.proposals[0].votes_for, 100);
    assert_eq!(dao.proposals[0].votes_against, 250);
    assert_eq!(dao.proposals[0].voters, vec![member(1), member(2)]);
}

#[test]
fn votes_are_refused_in_order() {
    let mut dao = dao_with_two_members();
    dao.create_proposal(member(1), data(ProposalType::Treasury, 50), 1_000).unwrap();
    assert_eq!(dao.vote(member(3), 7, true, 1), Err(GovernanceError::NoVotingPower));
    assert_eq!(dao.vote(member(1), 0, true, 1), Err(GovernanceError::ProposalNotFound));
    assert_eq!(dao.vote(member(1), 2, true, 1), Err(GovernanceError::ProposalNotFound));
    assert_eq!(dao.vote(member(1), 1, true, 1_051), Err(GovernanceError::VotingEnded));
    assert_eq!(dao.vote(member(1), 1, true, 1_020), Ok(()));
    let before = dao.clone();
    assert_eq!(dao.vote(member(1), 1, false, 1_021), Err(GovernanceError::AlreadyVoted));
    assert_eq!(dao, before);
    dao.proposals[0].votes_for = u64::MAX - 10;
    assert_eq!(dao.vote(member(2), 1, true, 1_021), Err(GovernanceError::Overflow));
    assert_eq!(dao.vote(member(2), 1, false, 1_021), Ok(()));
}

#[test]
fn passed_treasury_proposal_takes_the_grant_once() {
    let mut dao = dao_with_two_members();
    dao.create_proposal(member(1), data(ProposalType::Treasury, 50), 1_000).unwrap();
    dao.vote(member(2), 1, true, 1_001).unwrap();
    dao.vote(member(1), 1, false, 1_002).unwrap();
    assert_eq!(dao.execute_proposal(1, 1_050), Err(GovernanceError::VotingActive));
    assert_eq!(dao.execute_proposal(1, 1_051), Ok(Execution::Executed));
    assert_eq!(dao.treasury_balance, 999_000);
    assert!(dao.proposals[0].executed);
    assert_eq!(dao.execute_proposal(1, 1_052), Err(GovernanceError::AlreadyExecuted));
    assert_eq!(dao.treasury_balance, 999_000);
    assert_eq!(dao.execute_proposal(2, 1_052), Err(GovernanceError::ProposalNotFound));
}

#[test]
fn poor_treasury_keeps_what_it_has() {
    let mut dao = dao_with_two_members();
    dao.treasury_balance = 999;
    dao.create_proposal(member(1), data(ProposalType::Treasury, 5), 0).unwrap();
    dao.vote(member(1), 1, true, 1).unwrap();
    assert_eq!(dao.execute_proposal(1, 6), Ok(Execution::Executed));
    assert_eq!(dao.treasury_balance, 999);
    assert!(dao.proposals[0].executed);
}

#[test]
fn tied_or_lost_proposal_fails_to_pass() {
    let mut dao = dao_with_two_members();
    dao.create_proposal(member(1), data(ProposalType::CodeUpgrade, 5), 0).unwrap();
    let before = dao.clone();
    assert_eq!(dao.execute_proposal(1, 6), Ok(Execution::FailedToPass));
    assert_eq!(dao, before);
    dao.vote(member(1), 1, true, 1).unwrap();
    dao.vote(member(2), 1, false, 1).unwrap();
    assert_eq!(dao.execute_proposal(1, 6), Ok(Execution::FailedToPass));
    assert!(!dao.ready_for_upgrade);
    assert!(!dao.proposals[0].executed);
}

#[test]
fn parameter_change_and_upgrade_take_effect() {
    let mut dao = dao_with_two_members();
    dao.create_proposal(member(1), data(ProposalType::ParameterChange, 77), 0).unwrap();
    dao.create_proposal(member(1), data(ProposalType::CodeUpgrade, 5), 0).unwrap();
    dao.vote(member(1), 1, true, 1).unwrap();
    dao.vote(member(1), 2, true, 1).unwrap();
    assert_eq!(dao.execute_proposal(1, 78), Ok(Execution::Executed));
    assert_eq!(dao.default_voting_period, 77);
    assert!(!dao.ready_for_upgrade);
    assert_eq!(dao.execute_proposal(2, 78), Ok(Execution::Executed));
    assert!(dao.ready_for_upgrade);
    assert_eq!(dao.treasury_balance, 1_000_000);
}

#[test]
fn governance_words() {
    assert_eq!(GovernanceError::NoVotingPower.message(), "No voting power");
    assert_eq!(GovernanceError::ProposalNotFound.message(), "Proposal not found");
    assert_eq!(GovernanceError::VotingEnded.message(), "Voting period has ended");
    assert_eq!(GovernanceError::AlreadyVoted.message(), "Already voted");
    assert_eq!(GovernanceError::VotingActive.message(), "Voting period still active");
    assert_eq!(GovernanceError::AlreadyExecuted.message(), "Proposal already executed");
    assert_eq!(Execution::Executed.message(), "Proposal executed successfully");
    assert_eq!(Execution::FailedToPass.message(), "Proposal failed to pass");
    let stats = GovernanceStats {
        total_proposals: 1,
        active_proposals: 0,
        total_votes_cast: 2,
        treasury_balance: 3,
    };
    assert_eq!(stats.total_votes_cast, 2);
}
