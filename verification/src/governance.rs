//! Governance: members with voting power put proposals, vote on them and,
//! once voting has closed, carry out those that passed.

use vstd::prelude::*;
use vstd::string::StringExecFns;
use crate::identity::Identity;

verus! {

/// What a passed treasury proposal takes from the treasury.
pub const TREASURY_GRANT: u64 = 1000;

/// The voting power of whoever sets the governance up.
pub const FOUNDER_VOTING_POWER: u64 = 100;

/// What the treasury holds at the start.
pub const INITIAL_TREASURY: u64 = 1_000_000;

#[derive(Clone, Copy, Debug, PartialEq, Eq)]
pub enum ProposalType {
    ParameterChange,
    CodeUpgrade,
    Treasury,
}

#[derive(Clone, Debug, PartialEq, Eq)]
pub struct ProposalData {
    pub title: String,
    pub description: String,
    pub proposal_type: ProposalType,
    /// How long voting stays open, in nanoseconds.
    pub voting_period: u64,
}

#[derive(Clone, Debug, PartialEq, Eq)]
pub struct Proposal {
    pub id: u64,
    pub proposer: Identity,
    pub data: ProposalData,
    pub votes_for: u64,
    pub votes_against: u64,
    pub created_at: u64,
    pub voting_deadline: u64,
    pub executed: bool,
    pub voters: Vec<Identity>,
}

#[derive(Clone, Copy, Debug, PartialEq, Eq)]
pub struct GovernanceStats {
    pub total_proposals: u64,
    pub active_proposals: u64,
    pub total_votes_cast: u64,
    pub treasury_balance: u64,
}

/// Why governance did nothing.
#[derive(Clone, Copy, Debug, PartialEq, Eq)]
pub enum GovernanceError {
    NoVotingPower,
    ProposalNotFound,
    VotingEnded,
    AlreadyVoted,
    VotingActive,
    AlreadyExecuted,
    /// A number, a deadline or a vote count would leave its range.
    Overflow,
}

/// How the execution of a proposal ended.
#[derive(Clone, Copy, Debug, PartialEq, Eq)]
pub enum Execution {
    Executed,
    FailedToPass,
}

impl GovernanceError {
    /// The words of each refusal.
    pub open spec fn spec_message(self) -> Seq<char> {
        match self {
            GovernanceError::NoVotingPower => "No voting power"@,
            GovernanceError::ProposalNotFound => "Proposal not found"@,
            GovernanceError::VotingEnded => "Voting period has ended"@,
            GovernanceError::AlreadyVoted => "Already voted"@,
            GovernanceError::VotingActive => "Voting period still active"@,
            GovernanceError::AlreadyExecuted => "Proposal already executed"@,
            GovernanceError::Overflow => "Amount exceeds the range of the record"@,
        }
    }

    /// The refusal in words.
    pub fn message(&self) -> (text: String)
        ensures
            text@ == self.spec_message(),
    {
        match self {
            GovernanceError::NoVotingPower => String::from_str("No voting power"),
            GovernanceError::ProposalNotFound => String::from_str("Proposal not found"),
            GovernanceError::VotingEnded => String::from_str("Voting period has ended"),
            GovernanceError::AlreadyVoted => String::from_str("Already voted"),
            GovernanceError::VotingActive => String::from_str("Voting period still active"),
            GovernanceError::AlreadyExecuted => String::from_str("Proposal already executed"),
            GovernanceError::Overflow => String::from_str("Amount exceeds the range of the record"),
        }
    }
}

impl Execution {
    /// The words of each ending.
    pub open spec fn spec_message(self) -> Seq<char> {
        match self {
            Execution::Executed => "Proposal executed successfully"@,
            Execution::FailedToPass => "Proposal failed to pass"@,
        }
    }

    /// The ending in words.
    pub fn message(&self) -> (text: String)
        ensures
            text@ == self.spec_message(),
    {
        match self {
            Execution::Executed => String::from_str("Proposal executed successfully"),
            Execution::FailedToPass => String::from_str("Proposal failed to pass"),
        }
    }
}

/// The record of a governance body.
#[derive(Clone, Debug, PartialEq, Eq)]
pub struct Dao {
    /// Every proposal ever put; the one numbered `k` stands at `k - 1`.
    pub proposals: Vec<Proposal>,
    /// The members and their voting power.
    pub member_votes: Vec<(Identity, u64)>,
    pub treasury_balance: u64,
    /// The voting period that the latest passed parameter change set.
    pub default_voting_period: u64,
    pub ready_for_upgrade: bool,
}

/// The voting power of `who`: that of the first entry under that identity,
/// and none where there is no entry.
pub open spec fn voting_power(members: Seq<(Identity, u64)>, who: Seq<u8>) -> u64
    decreases members.len(),
{
    if members.len() == 0 {
        0
    } else if members[0].0@ == who {
        members[0].1
    } else {
        voting_power(members.drop_first(), who)
    }
}

/// Whether `who` is among the voters.
pub open spec fn has_voted(voters: Seq<Identity>, who: Seq<u8>) -> bool {
    exists|i: int| 0 <= i < voters.len() && (#[trigger] voters[i])@ == who
}

/// The record after a passed proposal has taken effect.
pub open spec fn enacted(dao: Dao, data: ProposalData) -> Dao {
    match data.proposal_type {
        ProposalType::Treasury => Dao {
            treasury_balance: if dao.treasury_balance >= TREASURY_GRANT {
                (dao.treasury_balance - TREASURY_GRANT) as u64
            } else {
                dao.treasury_balance
            },
            ..dao
        },
        ProposalType::ParameterChange => Dao { default_voting_period: data.voting_period, ..dao },
        ProposalType::CodeUpgrade => Dao { ready_for_upgrade: true, ..dao },
    }
}

impl Dao {
    /// Proposals are numbered from 1 in the order in which they were put.
    pub open spec fn wf(&self) -> bool {
        &&& self.proposals@.len() < u64::MAX
        &&& forall|i: int| 0 <= i < self.proposals@.len() ==> (#[trigger] self.proposals@[i]).id == i + 1
    }

    /// Whether a proposal has the number `id`.
    pub open spec fn has_proposal(&self, id: u64) -> bool {
        1 <= id <= self.proposals@.len()
    }

    /// The proposal numbered `id`.
    pub open spec fn proposal(&self, id: u64) -> Proposal {
        self.proposals@[id - 1]
    }

    /// A governance body that `founder` sets up: the founder is its only
    /// member, nothing has been proposed.
    pub fn init(founder: Identity) -> (dao: Dao)
        ensures
            dao.wf(),
            dao.proposals@.len() == 0,
            dao.member_votes@ == seq![(founder, FOUNDER_VOTING_POWER)],
            dao.treasury_balance == INITIAL_TREASURY,
            dao.default_voting_period == 0,
            !dao.ready_for_upgrade,
    {
        let mut member_votes: Vec<(Identity, u64)> = Vec::new();
        member_votes.push((founder, FOUNDER_VOTING_POWER));
        assert(member_votes@ =~= seq![(founder, FOUNDER_VOTING_POWER)]);
        Dao {
            proposals: Vec::new(),
            member_votes,
            treasury_balance: INITIAL_TREASURY,
            default_voting_period: 0,
            ready_for_upgrade: false,
        }
    }

    /// The voting power of a member, and 0 for anybody else.
    pub fn power_of(&self, who: &Identity) -> (power: u64)
        ensures
            power == voting_power(self.member_votes@, who@),
    {
        let mut i: usize = 0;
        assert(self.member_votes@.skip(0) =~= self.member_votes@);
        while i < self.member_votes.len()
            invariant
                i <= self.member_votes.len(),
                voting_power(self.member_votes@, who@) == voting_power(
                    self.member_votes@.skip(i as int),
                    who@,
                ),
            decreases self.member_votes.len() - i,
        {
            let ghost rest = self.member_votes@.skip(i as int);
            assert(rest[0] == self.member_votes@[i as int]);
            assert(rest.drop_first() =~= self.member_votes@.skip(i as int + 1));
            if self.member_votes[i].0.same(who) {
                return self.member_votes[i].1;
            }
            i += 1;
        }
        0
    }

    /// Why `caller` cannot put a proposal with this data at `now`, if so.
    pub open spec fn proposal_refusal(&self, caller: Seq<u8>, data: ProposalData, now: u64) -> Option<
        GovernanceError,
    > {
        if voting_power(self.member_votes@, caller) == 0 {
            Some(GovernanceError::NoVotingPower)
        } else if now + data.voting_period > u64::MAX || self.proposals@.len() + 1
            >= u64::MAX {
            Some(GovernanceError::Overflow)
        } else {
            None
        }
    }

    /// Puts a proposal. Only a member with voting power can; the proposal
    /// gets the next number, and voting on it closes one voting period after
    /// `now`.
    pub fn create_proposal(&mut self, caller: Identity, data: ProposalData, now: u64) -> (id: Result<
        u64,
        GovernanceError,
    >)
        requires
            old(self).wf(),
        ensures
            final(self).wf(),
            match old(self).proposal_refusal(caller@, data, now) {
                Some(e) => id == Err::<u64, GovernanceError>(e) && *final(self) == *old(self),
                None => {
                    &&& id == Ok::<u64, GovernanceError>((old(self).proposals@.len() + 1) as u64)
                    &&& final(self).proposals@ == old(self).proposals@.push(
                        Proposal {
                            id: (old(self).proposals@.len() + 1) as u64,
                            proposer: caller,
                            data,
                            votes_for: 0,
                            votes_against: 0,
                            created_at: now,
                            voting_deadline: (now + data.voting_period) as u64,
                            executed: false,
                            voters: final(self).proposals@.last().voters,
                        },
                    )
                    &&& final(self).proposals@.last().voters@.len() == 0
                    &&& *final(self) == Dao { proposals: final(self).proposals, ..*old(self) }
                },
            },
    {
        if self.power_of(&caller) == 0 {
            return Err(GovernanceError::NoVotingPower);
        }
        if data.voting_period > u64::MAX - now {
            return Err(GovernanceError::Overflow);
        }
        let count: usize = self.proposals.len();
        if count as u64 >= u64::MAX - 1 {
            return Err(GovernanceError::Overflow);
        }
        let id: u64 = count as u64 + 1;
        let voting_deadline: u64 = now + data.voting_period;
        self.proposals.push(
            Proposal {
                id,
                proposer: caller,
                data,
                votes_for: 0,
                votes_against: 0,
                created_at: now,
                voting_deadline,
                executed: false,
                voters: Vec::new(),
            },
        );
        Ok(id)
    }

    /// Why `caller` cannot vote on proposal `id` at `now`, if so.
    pub open spec fn vote_refusal(&self, caller: Seq<u8>, id: u64, support: bool, now: u64) -> Option<
        GovernanceError,
    > {
        let power = voting_power(self.member_votes@, caller);
        if power == 0 {
            Some(GovernanceError::NoVotingPower)
        } else if !self.has_proposal(id) {
            Some(GovernanceError::ProposalNotFound)
        } else if now > self.proposal(id).voting_deadline {
            Some(GovernanceError::VotingEnded)
        } else if has_voted(self.proposal(id).voters@, caller) {
            Some(GovernanceError::AlreadyVoted)
        } else if support && self.proposal(id).votes_for + power > u64::MAX {
            Some(GovernanceError::Overflow)
        } else if !support && self.proposal(id).votes_against + power > u64::MAX {
            Some(GovernanceError::Overflow)
        } else {
            None
        }
    }

    /// Casts the caller's whole voting power for or against a proposal.
    /// Each member votes once on a proposal, and only until its deadline.
    pub fn vote(&mut self, caller: Identity, id: u64, support: bool, now: u64) -> (done: Result<
        (),
        GovernanceError,
    >)
        requires
            old(self).wf(),
        ensures
            final(self).wf(),
            match old(self).vote_refusal(caller@, id, support, now) {
                Some(e) => done == Err::<(), GovernanceError>(e) && *final(self) == *old(self),
                None => {
                    let power = voting_power(old(self).member_votes@, caller@);
                    let before = old(self).proposal(id);
                    &&& done.is_ok()
                    &&& final(self).proposals@.len() == old(self).proposals@.len()
                    &&& forall|i: int|
                        0 <= i < old(self).proposals@.len() && i != id - 1 ==> final(self).proposals@[i] == old(self).proposals@[i]
                    &&& final(self).proposal(id).voters@ == before.voters@.push(caller)
                    &&& final(self).proposal(id) == Proposal {
                        votes_for: if support {
                            (before.votes_for + power) as u64
                        } else {
                            before.votes_for
                        },
                        votes_against: if support {
                            before.votes_against
                        } else {
                            (before.votes_against + power) as u64
                        },
                        voters: final(self).proposal(id).voters,
                        ..before
                    }
                    &&& *final(self) == Dao { proposals: final(self).proposals, ..*old(self) }
                },
            },
    {
        let power: u64 = self.power_of(&caller);
        if power == 0 {
            return Err(GovernanceError::NoVotingPower);
        }
        if id == 0 || id - 1 >= self.proposals.len() as u64 {
            return Err(GovernanceError::ProposalNotFound);
        }
        let at: usize = (id - 1) as usize;
        if now > self.proposals[at].voting_deadline {
            return Err(GovernanceError::VotingEnded);
        }
        let mut i: usize = 0;
        while i < self.proposals[at].voters.len()
            invariant
                *self == *old(self),
                self.wf(),
                at < self.proposals@.len(),
                at == id - 1,
                power == voting_power(self.member_votes@, caller@),
                power != 0,
                now <= self.proposals@[at as int].voting_deadline,
                i <= self.proposals@[at as int].voters@.len(),
                forall|j: int| 0 <= j < i ==> (#[trigger] self.proposals@[at as int].voters@[j])@
                    != caller@,
            decreases self.proposals@[at as int].voters@.len() - i,
        {
            if self.proposals[at].voters[i].same(&caller) {
                return Err(GovernanceError::AlreadyVoted);
            }
            i += 1;
        }
        if support {
            if power > u64::MAX - self.proposals[at].votes_for {
                return Err(GovernanceError::Overflow);
            }
            self.proposals[at].votes_for += power;
        } else {
            if power > u64::MAX - self.proposals[at].votes_against {
                return Err(GovernanceError::Overflow);
            }
            self.proposals[at].votes_against += power;
        }
        self.proposals[at].voters.push(caller);
        Ok(())
    }

    /// Why proposal `id` cannot be carried out at `now`, if so.
    pub open spec fn execution_refusal(&self, id: u64, now: u64) -> Option<GovernanceError> {
        if !self.has_proposal(id) {
            Some(GovernanceError::ProposalNotFound)
        } else if now <= self.proposal(id).voting_deadline {
            Some(GovernanceError::VotingActive)
        } else if self.proposal(id).executed {
            Some(GovernanceError::AlreadyExecuted)
        } else {
            None
        }
    }

    /// Carries a proposal out once voting on it has closed. One with more
    /// votes for than against takes effect, once: a treasury proposal takes
    /// the grant from a treasury that holds it, a parameter change sets the
    /// default voting period, a code upgrade raises the upgrade flag. Any
    /// other proposal fails to pass and leaves the record as it was.
    pub fn execute_proposal(&mut self, id: u64, now: u64) -> (done: Result<
        Execution,
        GovernanceError,
    >)
        requires
            old(self).wf(),
        ensures
            final(self).wf(),
            match old(self).execution_refusal(id, now) {
                Some(e) => done == Err::<Execution, GovernanceError>(e) && *final(self) == *old(self),
                None => {
                    let before = old(self).proposal(id);
                    if before.votes_for > before.votes_against {
                        &&& done == Ok::<Execution, GovernanceError>(Execution::Executed)
                        &&& final(self).proposals@ == old(self).proposals@.update(
                            id - 1,
                            Proposal { executed: true, ..before },
                        )
                        &&& *final(self) == enacted(
                            Dao { proposals: final(self).proposals, ..*old(self) },
                            before.data,
                        )
                    } else {
                        &&& done == Ok::<Execution, GovernanceError>(Execution::FailedToPass)
                        &&& *final(self) == *old(self)
                    }
                },
            },
    {
        if id == 0 || id - 1 >= self.proposals.len() as u64 {
            return Err(GovernanceError::ProposalNotFound);
        }
        let at: usize = (id - 1) as usize;
        if now <= self.proposals[at].voting_deadline {
            return Err(GovernanceError::VotingActive);
        }
        if self.proposals[at].executed {
            return Err(GovernanceError::AlreadyExecuted);
        }
        if self.proposals[at].votes_for > self.proposals[at].votes_against {
            self.proposals[at].executed = true;
            match self.proposals[at].data.proposal_type {
                ProposalType::Treasury => {
                    if self.treasury_balance >= TREASURY_GRANT {
                        self.treasury_balance = self.treasury_balance - TREASURY_GRANT;
                    }
                },
                ProposalType::ParameterChange => {
                    self.default_voting_period = self.proposals[at].data.voting_period;
                },
                ProposalType::CodeUpgrade => {
                    self.ready_for_upgrade = true;
                },
            }
            Ok(Execution::Executed)
        } else {
            Ok(Execution::FailedToPass)
        }
    }
}

} // verus!
