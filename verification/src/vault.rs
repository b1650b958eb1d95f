//! The vault as a service instance: a ledger that may not have been set up
//! yet, and the operations that callers reach it through.

use vstd::prelude::*;
use vstd::string::StringExecFns;
use crate::coordinator::{DistributionPlan, MintRequest};
use crate::identity::{anonymous_bytes, Identity};
use crate::ledger::{
    lookup, record_of, BackerInfo, InvestmentResult, Share, SlashingConditions, VaultError,
    VaultState,
};

verus! {

/// The ledger that a vault starts with at time `now`: a goal of one million,
/// ten percent of revenue for the contributors, an insurance fee of two
/// percent, nothing funded, nobody configured.
pub open spec fn is_initial_state(state: &VaultState, now: u64) -> bool {
    &&& state.campaign_id == 0
    &&& state.creator@ == anonymous_bytes()
    &&& state.title@ == "Default Vault"@
    &&& state.funding_goal == 1_000_000
    &&& state.current_funding == 0
    &&& state.revenue_share_percentage == 10
    &&& state.total_revenue == 0
    &&& state.oracle_endpoints@.len() == 0
    &&& state.nft_registry_canister.is_none()
    &&& state.stream_canister.is_none()
    &&& state.oracle_canister.is_none()
    &&& state.backers@.len() == 0
    &&& state.revenue_history@.len() == 0
    &&& state.created_at == now
    &&& state.insurance_pool_balance == 0
    &&& state.insurance_fee_percentage == 2
    &&& state.insurance_coverage_ratio == 80
    &&& state.insurance_claims@.len() == 0
    &&& state.slashing_conditions == SlashingConditions {
        missed_revenue_reports_threshold: 3,
        revenue_decline_threshold_percentage: 70,
        minimum_active_period_days: 30,
        governance_votes_required: 51,
    }
    &&& state.slashed_creators@.len() == 0
}

impl VaultState {
    /// The ledger that a vault starts with.
    pub fn init(now: u64) -> (state: VaultState)
        ensures
            is_initial_state(&state, now),
            state.wf(),
    {
        VaultState {
            campaign_id: 0,
            creator: Identity::anonymous(),
            title: String::from_str("Default Vault"),
            funding_goal: 1_000_000,
            current_funding: 0,
            revenue_share_percentage: 10,
            total_revenue: 0,
            oracle_endpoints: Vec::new(),
            nft_registry_canister: None,
            stream_canister: None,
            oracle_canister: None,
            backers: Vec::new(),
            revenue_history: Vec::new(),
            created_at: now,
            insurance_pool_balance: 0,
            insurance_fee_percentage: 2,
            insurance_coverage_ratio: 80,
            insurance_claims: Vec::new(),
            slashing_conditions: SlashingConditions {
                missed_revenue_reports_threshold: 3,
                revenue_decline_threshold_percentage: 70,
                minimum_active_period_days: 30,
                governance_votes_required: 51,
            },
            slashed_creators: Vec::new(),
        }
    }

    /// A contributor's record.
    pub fn get_backer_info(&self, backer: &Identity) -> (info: Option<BackerInfo>)
        ensures
            info == record_of(self.book(), backer@),
    {
        lookup(&self.backers, backer)
    }
}

/// A vault service: its ledger, once set up, and whether a distribution has
/// been staged and not yet answered.
pub struct Vault {
    pub state: Option<VaultState>,
    pub distributing: bool,
}

impl Vault {
    /// The ledger, if there is one, is well formed.
    pub open spec fn wf(&self) -> bool {
        self.state.is_some() ==> self.state.unwrap().wf()
    }

    /// A vault without a ledger.
    pub fn new() -> (vault: Vault)
        ensures
            vault.state.is_none(),
            !vault.distributing,
            vault.wf(),
    {
        Vault { state: None, distributing: false }
    }

    /// Sets the ledger up with its initial values.
    pub fn init(&mut self, now: u64)
        ensures
            final(self).state.is_some(),
            is_initial_state(&final(self).state.unwrap(), now),
            !final(self).distributing,
            final(self).wf(),
    {
        self.state = Some(VaultState::init(now));
        self.distributing = false;
    }

    /// Takes a contribution from `contributor`; without a ledger it is turned
    /// away.
    pub fn invest(&mut self, contributor: &Identity, amount: u64, now: u64) -> (result:
        InvestmentResult)
        requires
            old(self).wf(),
        ensures
            final(self).wf(),
            final(self).distributing == old(self).distributing,
            match old(self).state {
                None => {
                    &&& final(self).state.is_none()
                    &&& !result.success
                    &&& result.nft_token_id.is_none()
                    &&& result.share_percentage == Share { part: 0, whole: 1 }
                    &&& result.message@ == VaultError::Uninitialized.spec_message()
                },
                Some(before) => {
                    &&& final(self).state.is_some()
                    &&& before.invested(
                        &final(self).state.unwrap(),
                        contributor@,
                        amount,
                        now,
                        result,
                    )
                },
            },
    {
        match &mut self.state {
            None => InvestmentResult {
                success: false,
                nft_token_id: None,
                share_percentage: Share::zero(),
                message: VaultError::Uninitialized.message(),
            },
            Some(state) => state.invest(contributor, amount, now),
        }
    }

    /// Records a revenue report; without a ledger it is refused.
    pub fn update_revenue(&mut self, amount: u64, source: String, verified: bool, now: u64) -> (done:
        Result<(), VaultError>)
        ensures
            old(self).wf() ==> final(self).wf(),
            final(self).distributing == old(self).distributing,
            match old(self).state {
                None => final(self).state.is_none() && done == Err::<(), VaultError>(
                    VaultError::Uninitialized,
                ),
                Some(before) => {
                    &&& final(self).state.is_some()
                    &&& before.revenue_recorded(
                        &final(self).state.unwrap(),
                        amount,
                        source,
                        verified,
                        now,
                        done,
                    )
                },
            },
    {
        match &mut self.state {
            None => Err(VaultError::Uninitialized),
            Some(state) => state.update_revenue(amount, source, verified, now),
        }
    }

    /// Stages a distribution. While an earlier one is staged and unanswered,
    /// no other is staged. Without a ledger no payment-streaming service is
    /// configured.
    pub fn distribute_payouts(&mut self) -> (plan: Result<DistributionPlan, VaultError>)
        requires
            old(self).wf(),
        ensures
            final(self).state == old(self).state,
            if old(self).distributing {
                plan == Err::<DistributionPlan, VaultError>(VaultError::DistributionInProgress)
                    && final(self).distributing
            } else {
                &&& final(self).distributing == plan.is_ok()
                &&& match old(self).state {
                    None => plan == Err::<DistributionPlan, VaultError>(
                        VaultError::StreamNotConfigured,
                    ),
                    Some(state) => state.distribution_staged(plan),
                }
            },
    {
        if self.distributing {
            return Err(VaultError::DistributionInProgress);
        }
        let plan = match &self.state {
            None => Err(VaultError::StreamNotConfigured),
            Some(state) => state.distribute_payouts(),
        };
        self.distributing = plan.is_ok();
        plan
    }

    /// Records the answer to the staged distribution, and lets the next one
    /// be staged.
    pub fn commit_payouts(&mut self, plan: DistributionPlan, outcome: Result<(), String>) -> (done:
        Result<Vec<(Identity, u64)>, VaultError>)
        ensures
            old(self).wf() ==> final(self).wf(),
            !final(self).distributing,
            match old(self).state {
                None => {
                    &&& final(self).state.is_none()
                    &&& match outcome {
                        Ok(_) => done == Ok::<Vec<(Identity, u64)>, VaultError>(plan.payouts),
                        Err(words) => done == Err::<Vec<(Identity, u64)>, VaultError>(
                            VaultError::ExternalCallFailure(words),
                        ),
                    }
                },
                Some(before) => {
                    &&& final(self).state.is_some()
                    &&& before.plan_committed(&final(self).state.unwrap(), plan, outcome, done)
                },
            },
    {
        self.distributing = false;
        match &mut self.state {
            None => match outcome {
                Ok(_) => Ok(plan.payouts),
                Err(words) => Err(VaultError::ExternalCallFailure(words)),
            },
            Some(state) => state.commit_plan(plan, outcome),
        }
    }

    /// Stages a token issue for a contributor. Without a ledger there is no
    /// contributor.
    pub fn mint_nft_for_backer(&self, backer: &Identity) -> (request: Result<
        MintRequest,
        VaultError,
    >)
        ensures
            match self.state {
                None => request == Err::<MintRequest, VaultError>(VaultError::NotFound),
                Some(state) => state.mint_staged(backer@, request),
            },
    {
        match &self.state {
            None => Err(VaultError::NotFound),
            Some(state) => state.mint_nft_for_backer(backer),
        }
    }

    /// Records the answer to a token issue.
    pub fn record_nft_token(&mut self, backer: &Identity, outcome: Result<u64, String>) -> (done:
        Result<u64, VaultError>)
        ensures
            old(self).wf() ==> final(self).wf(),
            final(self).distributing == old(self).distributing,
            match old(self).state {
                None => {
                    &&& final(self).state.is_none()
                    &&& match outcome {
                        Ok(token) => done == Ok::<u64, VaultError>(token),
                        Err(words) => done == Err::<u64, VaultError>(
                            VaultError::ExternalCallFailure(words),
                        ),
                    }
                },
                Some(before) => {
                    &&& final(self).state.is_some()
                    &&& before.token_recorded(&final(self).state.unwrap(), backer@, outcome, done)
                },
            },
    {
        match &mut self.state {
            None => match outcome {
                Ok(token) => Ok(token),
                Err(words) => Err(VaultError::ExternalCallFailure(words)),
            },
            Some(state) => state.record_nft_token(backer, outcome),
        }
    }

    /// The campaign's number, or 0 without a ledger.
    pub fn get_campaign_id(&self) -> (id: u64)
        ensures
            id == match self.state {
                Some(state) => state.campaign_id,
                None => 0,
            },
    {
        match &self.state {
            Some(state) => state.campaign_id,
            None => 0,
        }
    }

    /// The identity-token service, if a ledger names one.
    pub fn get_nft_registry_canister(&self) -> (service: Option<Identity>)
        ensures
            service.is_some() == (self.state.is_some()
                && self.state.unwrap().nft_registry_canister.is_some()),
            service.is_some() ==> service.unwrap()@
                == self.state.unwrap().nft_registry_canister.unwrap()@,
    {
        match &self.state {
            Some(state) => match &state.nft_registry_canister {
                Some(id) => Some(id.duplicate()),
                None => None,
            },
            None => None,
        }
    }

    /// The payment-streaming service, if a ledger names one.
    pub fn get_stream_canister(&self) -> (service: Option<Identity>)
        ensures
            service.is_some() == (self.state.is_some()
                && self.state.unwrap().stream_canister.is_some()),
            service.is_some() ==> service.unwrap()@
                == self.state.unwrap().stream_canister.unwrap()@,
    {
        match &self.state {
            Some(state) => match &state.stream_canister {
                Some(id) => Some(id.duplicate()),
                None => None,
            },
            None => None,
        }
    }

    /// The whole ledger, if there is one.
    pub fn get_vault_state(&self) -> (state: Option<&VaultState>)
        ensures
            state.is_some() == self.state.is_some(),
            state.is_some() ==> *state.unwrap() == self.state.unwrap(),
    {
        self.state.as_ref()
    }

    /// A contributor's record, if there is a ledger and it has one.
    pub fn get_backer_info(&self, backer: &Identity) -> (info: Option<BackerInfo>)
        ensures
            info == match self.state {
                None => None,
                Some(state) => record_of(state.book(), backer@),
            },
    {
        match &self.state {
            None => None,
            Some(state) => state.get_backer_info(backer),
        }
    }

    /// What is funded, the goal, and the first as a share of the second.
    /// Without a ledger all three are nothing. Where the goal is zero the
    /// share has an empty whole, and no percentage.
    pub fn get_funding_progress(&self) -> (progress: (u64, u64, Share))
        ensures
            progress == match self.state {
                Some(state) => (
                    state.current_funding,
                    state.funding_goal,
                    Share { part: state.current_funding, whole: state.funding_goal },
                ),
                None => (0u64, 0u64, Share { part: 0, whole: 1 }),
            },
    {
        match &self.state {
            Some(state) => (
                state.current_funding,
                state.funding_goal,
                Share { part: state.current_funding, whole: state.funding_goal },
            ),
            None => (0, 0, Share::zero()),
        }
    }

    /// The insurance pool's balance, the fee percentage and the coverage
    /// percentage; all zero without a ledger.
    pub fn get_insurance_pool_info(&self) -> (pool: (u64, u8, u8))
        ensures
            pool == match self.state {
                Some(state) => (
                    state.insurance_pool_balance,
                    state.insurance_fee_percentage,
                    state.insurance_coverage_ratio,
                ),
                None => (0u64, 0u8, 0u8),
            },
    {
        match &self.state {
            Some(state) => (
                state.insurance_pool_balance,
                state.insurance_fee_percentage,
                state.insurance_coverage_ratio,
            ),
            None => (0, 0, 0),
        }
    }
}

} // verus!
