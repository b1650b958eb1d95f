use ipx_protocol::coordinator::{DistributionPlan, MintRequest};
use ipx_protocol::identity::Identity;
use ipx_protocol::ledger::{
    BackerInfo, ClaimStatus, InsuranceClaim, Share, SlashEvent, SlashReason, VaultError,
    VaultState,
};
use ipx_protocol::vault::Vault;

fn who(tag: u8) -> Identity {
    Identity::from_bytes(vec![tag, 7, 7])
}

fn fresh() -> VaultState {
    VaultState::init(1_000)
}

fn backer(share: Share, claimed: u64) -> BackerInfo {
    BackerInfo {
        amount_invested: 100_000,
        nft_token_id: None,
        share_percentage: share,
        total_claimed: claimed,
        investment_timestamp: 5,
    }
}

fn revenue_vault() -> VaultState {
    let mut state = fresh();
    state.total_revenue = 500_000;
    state.revenue_share_percentage = 10;
    state.stream_canister = Some(who(200));
    state.backers.push((who(1), backer(Share { part: 98_000, whole: 1_000_000 }, 0)));
    state
}

fn slash_event() -> SlashEvent {
    SlashEvent {
        creator: who(77),
        campaign_id: 99,
        reason: SlashReason::RevenueFraud,
        amount_slashed: 1,
        beneficiaries: vec![],
        executed_at: 3,
        approved_by: vec![who(78)],
    }
}

fn claim(id: u64, claimer: Identity, amount: u64, status: ClaimStatus) -> InsuranceClaim {
    InsuranceClaim {
        claim_id: id,
        claimer,
        amount,
        reason: String::from("campaign abandoned"),
        evidence: vec![String::from("report")],
        status,
        filed_at: 10,
        resolved_at: None,
        approver: None,
    }
}

#[test]
fn initial_state_has_the_documented_defaults() {
    let state = fresh();
    assert_eq!(state.campaign_id, 0);
    assert_eq!(state.creator.bytes, vec![4u8]);
    assert_eq!(state.creator.bytes, candid::Principal::anonymous().as_slice().to_vec());
    assert_eq!(state.title, "Default Vault");
    assert_eq!(state.funding_goal, 1_000_000);
    assert_eq!(state.current_funding, 0);
    assert_eq!(state.revenue_share_percentage, 10);
    assert_eq!(state.insurance_fee_percentage, 2);
    assert_eq!(state.insurance_coverage_ratio, 80);
    assert_eq!(state.created_at, 1_000);
    assert_eq!(state.slashing_conditions.missed_revenue_reports_threshold, 3);
    assert_eq!(state.slashing_conditions.revenue_decline_threshold_percentage, 70);
    assert_eq!(state.slashing_conditions.minimum_active_period_days, 30);
    assert_eq!(state.slashing_conditions.governance_votes_required, 51);
    assert!(state.backers.is_empty());
    assert!(state.stream_canister.is_none());
    assert!(state.is_well_formed());
}

#[test]
fn first_investment_skims_the_fee() {
    let mut state = fresh();
    let result = state.invest(&who(1), 100_000, 2_000);
    assert!(result.success);
    assert_eq!(result.nft_token_id, None);
    assert_eq!(result.share_percentage, Share { part: 98_000, whole: 1_000_000 });
    let percentage = result.share_percentage.part as f64 / result.share_percentage.whole as f64
        * 100.0;
    assert!((percentage - 9.8).abs() < 1e-12);
    assert_eq!(
        result.message,
        "Investment successful: 100000 contributed (98000 to campaign, 2000 to insurance pool)"
    );
    assert_eq!(state.current_funding, 98_000);
    assert_eq!(state.insurance_pool_balance, 2_000);
    assert_eq!(state.backers.len(), 1);
    assert_eq!(state.backers[0].0, who(1));
    assert_eq!(
        state.backers[0].1,
        BackerInfo {
            amount_invested: 100_000,
            nft_token_id: None,
            share_percentage: Share { part: 98_000, whole: 1_000_000 },
            total_claimed: 0,
            investment_timestamp: 2_000,
        }
    );
}

#[test]
fn second_investment_replaces_the_record() {
    let mut state = fresh();
    state.invest(&who(1), 100_000, 2_000);
    state.invest(&who(2), 10_000, 2_500);
    let result = state.invest(&who(1), 50_000, 3_000);
    assert!(result.success);
    assert_eq!(state.backers.len(), 2);
    assert_eq!(state.backers[0].0, who(1));
    assert_eq!(state.backers[0].1.amount_invested, 50_000);
    assert_eq!(state.backers[0].1.share_percentage, Share { part: 49_000, whole: 1_000_000 });
    assert_eq!(state.backers[0].1.investment_timestamp, 3_000);
    assert_eq!(state.backers[1].0, who(2));
    assert_eq!(state.current_funding, 98_000 + 9_800 + 49_000);
    assert_eq!(state.insurance_pool_balance, 2_000 + 200 + 1_000);
}

#[test]
fn investment_is_capped_at_the_goal() {
    let mut state = fresh();
    state.funding_goal = 1_000;
    state.current_funding = 900;
    let result = state.invest(&who(1), 5_000, 1);
    assert!(result.success);
    assert_eq!(state.backers[0].1.amount_invested, 100);
    assert_eq!(state.insurance_pool_balance, 2);
    assert_eq!(state.current_funding, 998);
    assert_eq!(result.share_percentage, Share { part: 98, whole: 1_000 });
    assert!(state.current_funding <= state.funding_goal);
}

#[test]
fn funding_stays_under_the_goal_over_many_investments() {
    let mut state = fresh();
    state.funding_goal = 10_000;
    let mut pool = 0;
    for round in 0..200u64 {
        state.invest(&who((round % 7) as u8), 977 + round, round);
        assert!(state.current_funding <= state.funding_goal);
        assert!(state.insurance_pool_balance >= pool);
        pool = state.insurance_pool_balance;
        assert!(state.is_well_formed());
    }
    assert!(state.current_funding > 9_000);
}

#[test]
fn fee_rounds_down() {
    let mut state = fresh();
    state.invest(&who(1), 149, 1);
    assert_eq!(state.insurance_pool_balance, 2);
    assert_eq!(state.current_funding, 147);
    state.invest(&who(2), 49, 1);
    assert_eq!(state.insurance_pool_balance, 2);
    assert_eq!(state.current_funding, 196);
}

#[test]
fn fully_funded_vault_turns_investment_away() {
    let mut state = fresh();
    state.current_funding = state.funding_goal;
    let before = state.clone();
    let result = state.invest(&who(1), 10, 1);
    assert!(!result.success);
    assert_eq!(result.message, "Campaign already fully funded");
    assert_eq!(result.share_percentage, Share { part: 0, whole: 1 });
    assert_eq!(state, before);
}

#[test]
fn investment_that_overflows_the_pool_is_turned_away() {
    let mut state = fresh();
    state.insurance_pool_balance = u64::MAX - 1;
    let before = state.clone();
    let result = state.invest(&who(1), 100_000, 1);
    assert!(!result.success);
    assert_eq!(result.message, VaultError::Overflow.message());
    assert_eq!(state, before);
}

#[test]
fn large_amounts_do_not_overflow_the_fee() {
    let mut state = fresh();
    state.funding_goal = u64::MAX;
    state.insurance_fee_percentage = 100;
    let result = state.invest(&who(1), u64::MAX, 1);
    assert!(result.success);
    assert_eq!(state.insurance_pool_balance, u64::MAX);
    assert_eq!(state.current_funding, 0);
}

#[test]
fn uninitialized_vault_turns_everything_away() {
    let mut vault = Vault::new();
    let result = vault.invest(&who(1), 10, 1);
    assert!(!result.success);
    assert_eq!(result.message, "Vault not initialized");
    assert_eq!(
        vault.update_revenue(5, String::from("ads"), true, 1),
        Err(VaultError::Uninitialized)
    );
    assert_eq!(vault.distribute_payouts(), Err(VaultError::StreamNotConfigured));
    assert_eq!(vault.mint_nft_for_backer(&who(1)), Err(VaultError::NotFound));
    assert_eq!(vault.get_funding_progress(), (0, 0, Share { part: 0, whole: 1 }));
    assert_eq!(vault.get_insurance_pool_info(), (0, 0, 0));
    assert_eq!(vault.get_campaign_id(), 0);
    assert!(vault.get_vault_state().is_none());
    assert!(vault.get_backer_info(&who(1)).is_none());
    assert!(vault.get_stream_canister().is_none());
    assert!(vault.get_nft_registry_canister().is_none());
}

#[test]
fn revenue_is_counted_whether_verified_or_not() {
    let mut state = fresh();
    assert_eq!(state.update_revenue(300, String::from("ads"), true, 11), Ok(()));
    assert_eq!(state.update_revenue(200, String::from("merch"), false, 12), Ok(()));
    assert_eq!(state.total_revenue, 500);
    assert_eq!(state.revenue_history.len(), 2);
    assert_eq!(state.revenue_history[0].amount, 300);
    assert_eq!(state.revenue_history[0].source, "ads");
    assert!(state.revenue_history[0].oracle_verification);
    assert_eq!(state.revenue_history[1].amount, 200);
    assert_eq!(state.revenue_history[1].timestamp, 12);
    assert!(!state.revenue_history[1].oracle_verification);
}

#[test]
fn revenue_out_of_range_is_refused() {
    let mut state = fresh();
    state.total_revenue = u64::MAX - 5;
    let before = state.clone();
    assert_eq!(state.update_revenue(6, String::from("ads"), true, 1), Err(VaultError::Overflow));
    assert_eq!(state, before);
    assert_eq!(state.update_revenue(5, String::from("ads"), true, 1), Ok(()));
    assert_eq!(state.total_revenue, u64::MAX);
}

#[test]
fn single_backer_gets_the_entitlement() {
    let state = revenue_vault();
    assert_eq!(state.investor_share(), 50_000);
    assert_eq!(state.compute_payouts(), Ok(vec![(who(1), 4_900)]));
}

#[test]
fn slash_event_redirects_half_of_the_creator_share() {
    let mut state = revenue_vault();
    state.slashed_creators.push(slash_event());
    assert_eq!(state.investor_share(), 275_000);
    assert_eq!(state.compute_payouts(), Ok(vec![(who(1), 26_950)]));
    state.slashed_creators.push(slash_event());
    assert_eq!(state.investor_share(), 275_000);
}

#[test]
fn pool_divisions_round_down() {
    let mut state = fresh();
    state.total_revenue = 999;
    state.revenue_share_percentage = 33;
    assert_eq!(state.investor_share(), 329);
    state.slashed_creators.push(slash_event());
    assert_eq!(state.investor_share(), 329 + 334);
}

#[test]
fn earlier_claims_are_deducted() {
    let mut state = revenue_vault();
    state.backers[0].1.total_claimed = 4_000;
    state.backers.push((who(2), backer(Share { part: 1, whole: 3 }, 16_666)));
    state.backers.push((who(3), backer(Share { part: 1, whole: 3 }, 20_000)));
    state.backers.push((who(4), backer(Share { part: 1, whole: 3 }, 16_665)));
    assert_eq!(state.compute_payouts(), Ok(vec![(who(1), 900), (who(4), 1)]));
}

#[test]
fn approved_claim_is_added_to_the_backers_payout() {
    let mut state = revenue_vault();
    state.insurance_claims.push(claim(1, who(1), 1_000, ClaimStatus::Approved));
    state.insurance_claims.push(claim(2, who(1), 50, ClaimStatus::Pending));
    state.insurance_claims.push(claim(3, who(9), 70, ClaimStatus::Approved));
    state.insurance_claims.push(claim(4, who(9), 30, ClaimStatus::Approved));
    state.insurance_claims.push(claim(5, who(1), 11, ClaimStatus::Rejected));
    state.insurance_claims.push(claim(6, who(1), 13, ClaimStatus::Paid));
    let first = state.compute_payouts().unwrap();
    assert_eq!(first, vec![(who(1), 5_900), (who(9), 100)]);

    let done = state.commit_payouts(first.clone(), Ok(()));
    assert_eq!(done, Ok(first));
    assert_eq!(state.backers[0].1.total_claimed, 5_900);
    assert_eq!(state.insurance_claims[0].status, ClaimStatus::Approved);
    assert_eq!(state.insurance_pool_balance, 0);

    let second = state.compute_payouts().unwrap();
    assert_eq!(second, vec![(who(1), 1_000), (who(9), 100)]);
}

#[test]
fn committed_distribution_is_not_paid_twice() {
    let mut state = revenue_vault();
    state.backers.push((who(2), backer(Share { part: 1, whole: 4 }, 500)));
    let first = state.compute_payouts().unwrap();
    assert_eq!(first, vec![(who(1), 4_900), (who(2), 12_000)]);
    assert_eq!(state.commit_payouts(first.clone(), Ok(())), Ok(first));
    assert_eq!(state.backers[0].1.total_claimed, 4_900);
    assert_eq!(state.backers[1].1.total_claimed, 12_500);
    assert_eq!(state.compute_payouts(), Ok(vec![]));
}

#[test]
fn failed_distribution_changes_nothing_and_repeats() {
    let mut state = revenue_vault();
    let before = state.clone();
    let first = state.compute_payouts().unwrap();
    let done = state.commit_payouts(first.clone(), Err(String::from("stream service down")));
    assert_eq!(done, Err(VaultError::ExternalCallFailure(String::from("stream service down"))));
    assert_eq!(done.unwrap_err().message(), "stream service down");
    assert_eq!(state, before);
    assert_eq!(state.compute_payouts(), Ok(first));
}

#[test]
fn commit_skips_strangers_and_sums_repeats() {
    let mut state = revenue_vault();
    let batch = vec![(who(1), 10), (who(50), 99), (who(1), 5)];
    assert_eq!(state.commit_payouts(batch.clone(), Ok(())), Ok(batch));
    assert_eq!(state.backers.len(), 1);
    assert_eq!(state.backers[0].1.total_claimed, 15);
}

#[test]
fn commit_out_of_range_changes_nothing() {
    let mut state = revenue_vault();
    state.backers[0].1.total_claimed = u64::MAX - 3;
    let before = state.clone();
    let batch = vec![(who(1), 2), (who(1), 2)];
    assert_eq!(state.commit_payouts(batch, Ok(())), Err(VaultError::Overflow));
    assert_eq!(state, before);
}

#[test]
fn batch_amount_out_of_range_gives_no_batch() {
    let mut state = revenue_vault();
    state.insurance_claims.push(claim(1, who(1), u64::MAX, ClaimStatus::Approved));
    assert_eq!(state.compute_payouts(), Err(VaultError::Overflow));
    assert_eq!(state.distribute_payouts(), Err(VaultError::Overflow));
}

#[test]
fn distribution_needs_a_stream_service() {
    let mut state = revenue_vault();
    state.stream_canister = None;
    assert_eq!(state.distribute_payouts(), Err(VaultError::StreamNotConfigured));
    state.stream_canister = Some(who(200));
    assert_eq!(
        state.distribute_payouts(),
        Ok(DistributionPlan {
            stream: who(200),
            payouts: vec![(who(1), 4_900)],
            basis: state.backers.clone(),
        })
    );
}

#[test]
fn one_distribution_at_a_time() {
    let mut vault = Vault { state: Some(revenue_vault()), distributing: false };
    let plan = vault.distribute_payouts().unwrap();
    assert!(vault.distributing);
    assert_eq!(vault.distribute_payouts(), Err(VaultError::DistributionInProgress));
    assert_eq!(
        VaultError::DistributionInProgress.message(),
        "Distribution already in progress"
    );
    let paid = vault.commit_payouts(plan, Ok(())).unwrap();
    assert_eq!(paid, vec![(who(1), 4_900)]);
    assert!(!vault.distributing);
    assert_eq!(vault.get_backer_info(&who(1)).unwrap().total_claimed, 4_900);
    let again = vault.distribute_payouts().unwrap();
    assert!(again.payouts.is_empty());
}

#[test]
fn failed_call_lets_the_next_distribution_start() {
    let mut vault = Vault { state: Some(revenue_vault()), distributing: false };
    let plan = vault.distribute_payouts().unwrap();
    let before = vault.get_vault_state().unwrap().clone();
    assert_eq!(
        vault.commit_payouts(plan.clone(), Err(String::from("timeout"))),
        Err(VaultError::ExternalCallFailure(String::from("timeout")))
    );
    assert!(!vault.distributing);
    assert_eq!(vault.get_vault_state().unwrap(), &before);
    assert_eq!(vault.distribute_payouts(), Ok(plan));
}

#[test]
fn stale_plan_is_not_applied() {
    let mut vault = Vault { state: Some(revenue_vault()), distributing: false };
    let plan = vault.distribute_payouts().unwrap();
    vault.invest(&who(1), 50_000, 9_000);
    let before = vault.get_vault_state().unwrap().clone();
    assert!(!before.plan_is_current(&plan));
    assert_eq!(vault.commit_payouts(plan, Ok(())), Err(VaultError::StaleDistribution));
    assert_eq!(vault.get_vault_state().unwrap(), &before);
    assert!(!vault.distributing);
    assert_eq!(
        VaultError::StaleDistribution.message(),
        "Ledger changed while the distribution was under way"
    );
}

#[test]
fn plan_survives_changes_to_others() {
    let mut vault = Vault { state: Some(revenue_vault()), distributing: false };
    let plan = vault.distribute_payouts().unwrap();
    vault.invest(&who(2), 50_000, 9_000);
    vault.update_revenue(1_000, String::from("ads"), true, 9_001).unwrap();
    assert!(vault.get_vault_state().unwrap().plan_is_current(&plan));
    assert_eq!(vault.commit_payouts(plan, Ok(())), Ok(vec![(who(1), 4_900)]));
    assert_eq!(vault.get_backer_info(&who(1)).unwrap().total_claimed, 4_900);
    assert_eq!(vault.get_backer_info(&who(2)).unwrap().total_claimed, 0);
}

#[test]
fn claimant_who_invests_mid_flight_makes_the_plan_stale() {
    let mut state = revenue_vault();
    state.insurance_claims.push(claim(3, who(9), 70, ClaimStatus::Approved));
    let plan = state.distribute_payouts().unwrap();
    assert_eq!(plan.payouts, vec![(who(1), 4_900), (who(9), 70)]);
    assert!(state.plan_is_current(&plan));
    state.invest(&who(9), 1_000, 5);
    assert!(!state.plan_is_current(&plan));
    let before = state.clone();
    assert_eq!(state.commit_plan(plan, Ok(())), Err(VaultError::StaleDistribution));
    assert_eq!(state, before);
}

#[test]
fn refused_distribution_does_not_block_the_next() {
    let mut state = revenue_vault();
    state.stream_canister = None;
    let mut vault = Vault { state: Some(state), distributing: false };
    assert_eq!(vault.distribute_payouts(), Err(VaultError::StreamNotConfigured));
    assert!(!vault.distributing);
    assert_eq!(vault.distribute_payouts(), Err(VaultError::StreamNotConfigured));
}

#[test]
fn token_issue_is_staged_and_recorded() {
    let mut state = fresh();
    state.campaign_id = 42;
    state.invest(&who(1), 100_000, 2_000);
    assert_eq!(state.mint_nft_for_backer(&who(2)), Err(VaultError::NotFound));
    assert_eq!(state.mint_nft_for_backer(&who(1)), Err(VaultError::RegistryNotConfigured));
    state.nft_registry_canister = Some(who(150));
    assert_eq!(
        state.mint_nft_for_backer(&who(1)),
        Ok(MintRequest {
            registry: who(150),
            to: who(1),
            campaign_id: 42,
            investment: 100_000,
            share: Share { part: 98_000, whole: 1_000_000 },
        })
    );
    let before = state.clone();
    assert_eq!(
        state.record_nft_token(&who(1), Err(String::from("registry down"))),
        Err(VaultError::ExternalCallFailure(String::from("registry down")))
    );
    assert_eq!(state, before);
    assert_eq!(state.record_nft_token(&who(1), Ok(17)), Ok(17));
    assert_eq!(state.backers[0].1.nft_token_id, Some(17));
    assert_eq!(state.backers[0].1.amount_invested, 100_000);
    assert_eq!(state.record_nft_token(&who(9), Ok(18)), Ok(18));
    assert_eq!(state.backers.len(), 1);
    assert_eq!(state.backers[0].1.nft_token_id, Some(17));
}

#[test]
fn service_reports_progress_and_pool() {
    let mut vault = Vault::new();
    vault.init(77);
    vault.invest(&who(1), 100_000, 78);
    assert_eq!(
        vault.get_funding_progress(),
        (98_000, 1_000_000, Share { part: 98_000, whole: 1_000_000 })
    );
    assert_eq!(vault.get_insurance_pool_info(), (2_000, 2, 80));
    assert_eq!(vault.get_vault_state().unwrap().created_at, 77);
    assert_eq!(vault.get_backer_info(&who(1)).unwrap().amount_invested, 100_000);
    assert!(vault.get_backer_info(&who(2)).is_none());
    assert_eq!(vault.update_revenue(9, String::from("ads"), false, 79), Ok(()));
    assert_eq!(vault.get_vault_state().unwrap().total_revenue, 9);
    assert_eq!(vault.record_nft_token(&who(1), Ok(3)), Ok(3));
    assert_eq!(vault.get_backer_info(&who(1)).unwrap().nft_token_id, Some(3));
}

#[test]
fn malformed_ledgers_are_detected() {
    let mut state = revenue_vault();
    assert!(state.is_well_formed());
    state.backers.push((who(1), backer(Share { part: 1, whole: 2 }, 0)));
    assert!(!state.is_well_formed());
    state.backers.pop();
    state.backers.push((who(2), backer(Share { part: 3, whole: 2 }, 0)));
    assert!(!state.is_well_formed());
    state.backers.pop();
    state.backers.push((who(2), backer(Share { part: 0, whole: 0 }, 0)));
    assert!(!state.is_well_formed());
    state.backers.pop();
    state.revenue_share_percentage = 101;
    assert!(!state.is_well_formed());
    state.revenue_share_percentage = 100;
    state.insurance_fee_percentage = 101;
    assert!(!state.is_well_formed());
    state.insurance_fee_percentage = 0;
    state.current_funding = state.funding_goal + 1;
    assert!(!state.is_well_formed());
}

#[test]
fn refusals_have_their_words() {
    assert_eq!(VaultError::Uninitialized.message(), "Vault not initialized");
    assert_eq!(VaultError::AlreadyFunded.message(), "Campaign already fully funded");
    assert_eq!(VaultError::NotFound.message(), "Backer not found");
    assert_eq!(VaultError::RegistryNotConfigured.message(), "NFT registry not configured");
    assert_eq!(VaultError::StreamNotConfigured.message(), "Stream canister not configured");
    assert_eq!(VaultError::ExternalCallFailure(String::from("x")).message(), "x");
}
