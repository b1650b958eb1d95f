//! The vault's durable record and the values stored in it.

use vstd::prelude::*;
use vstd::string::StringExecFns;
use crate::identity::Identity;

verus! {

/// A contributor's share of the funding goal, as the exact fraction
/// `part / whole`. Read as a percentage it is `100 * part / whole`.
#[derive(Clone, Copy, Debug, PartialEq, Eq)]
pub struct Share {
    pub part: u64,
    pub whole: u64,
}

impl Share {
    /// A share lies between nothing and the whole, and the whole is not empty.
    pub open spec fn wf(self) -> bool {
        0 < self.whole && self.part <= self.whole
    }

    /// The share of somebody who holds nothing.
    pub fn zero() -> (s: Share)
        ensures
            s == (Share { part: 0, whole: 1 }),
            s.wf(),
    {
        Share { part: 0, whole: 1 }
    }
}

/// What the vault keeps about one contributor.
#[derive(Clone, Copy, Debug, PartialEq, Eq)]
pub struct BackerInfo {
    /// Gross amount of the latest contribution, insurance fee included.
    pub amount_invested: u64,
    pub nft_token_id: Option<u64>,
    /// The latest contribution, less its fee, as a share of the funding goal.
    pub share_percentage: Share,
    /// What distributions have paid out to the contributor so far.
    pub total_claimed: u64,
    pub investment_timestamp: u64,
}

/// One revenue report.
#[derive(Clone, Debug, PartialEq, Eq)]
pub struct RevenueUpdate {
    pub amount: u64,
    pub source: String,
    pub timestamp: u64,
    pub oracle_verification: bool,
}

/// What a contributor is told about a contribution.
#[derive(Clone, Debug, PartialEq, Eq)]
pub struct InvestmentResult {
    pub success: bool,
    pub nft_token_id: Option<u64>,
    pub share_percentage: Share,
    pub message: String,
}

#[derive(Clone, Copy, Debug, PartialEq, Eq)]
pub enum ClaimStatus {
    Pending,
    Approved,
    Rejected,
    Paid,
}

#[derive(Clone, Debug, PartialEq, Eq)]
pub struct InsuranceClaim {
    pub claim_id: u64,
    pub claimer: Identity,
    pub amount: u64,
    pub reason: String,
    pub evidence: Vec<String>,
    pub status: ClaimStatus,
    pub filed_at: u64,
    pub resolved_at: Option<u64>,
    pub approver: Option<Identity>,
}

/// Thresholds that governance consults before it slashes a creator. The vault
/// stores them and enforces none of them.
#[derive(Clone, Copy, Debug, PartialEq, Eq)]
pub struct SlashingConditions {
    pub missed_revenue_reports_threshold: u8,
    pub revenue_decline_threshold_percentage: u8,
    pub minimum_active_period_days: u64,
    pub governance_votes_required: u8,
}

#[derive(Clone, Debug, PartialEq, Eq)]
pub enum SlashReason {
    MissedRevenueReports,
    RevenueFraud,
    ProjectAbandonment,
    GovernanceDecision,
    Other(String),
}

#[derive(Clone, Debug, PartialEq, Eq)]
pub struct SlashEvent {
    pub creator: Identity,
    pub campaign_id: u64,
    pub reason: SlashReason,
    pub amount_slashed: u64,
    pub beneficiaries: Vec<Identity>,
    pub executed_at: u64,
    pub approved_by: Vec<Identity>,
}

/// The terms of a campaign as its registry issues them.
#[derive(Clone, Debug, PartialEq, Eq)]
pub struct CampaignMetadata {
    pub creator: Identity,
    pub title: String,
    pub description: String,
    pub funding_goal: u64,
    pub revenue_share_percentage: u8,
    pub oracle_endpoints: Vec<String>,
}

/// Why an operation of the vault did nothing.
#[derive(Clone, Debug, PartialEq, Eq)]
pub enum VaultError {
    /// The vault's state has not been set up.
    Uninitialized,
    /// The funding goal has been met.
    AlreadyFunded,
    /// No contributor has that identity.
    NotFound,
    /// No identity-token service is configured.
    RegistryNotConfigured,
    /// No payment-streaming service is configured.
    StreamNotConfigured,
    /// A collaborating service failed; its words are carried unchanged.
    ExternalCallFailure(String),
    /// An amount would leave the range of the ledger's counters.
    Overflow,
    /// A distribution has been staged and not yet answered.
    DistributionInProgress,
    /// The record of somebody in a staged batch changed before the answer
    /// came.
    StaleDistribution,
}

impl VaultError {
    /// The words of each refusal.
    pub open spec fn spec_message(self) -> Seq<char> {
        match self {
            VaultError::Uninitialized => "Vault not initialized"@,
            VaultError::AlreadyFunded => "Campaign already fully funded"@,
            VaultError::NotFound => "Backer not found"@,
            VaultError::RegistryNotConfigured => "NFT registry not configured"@,
            VaultError::StreamNotConfigured => "Stream canister not configured"@,
            VaultError::ExternalCallFailure(words) => words@,
            VaultError::Overflow => "Amount exceeds the range of the ledger"@,
            VaultError::DistributionInProgress => "Distribution already in progress"@,
            VaultError::StaleDistribution => "Ledger changed while the distribution was under way"@,
        }
    }

    /// The refusal in words.
    pub fn message(&self) -> (text: String)
        ensures
            text@ == self.spec_message(),
    {
        match self {
            VaultError::Uninitialized => String::from_str("Vault not initialized"),
            VaultError::AlreadyFunded => String::from_str("Campaign already fully funded"),
            VaultError::NotFound => String::from_str("Backer not found"),
            VaultError::RegistryNotConfigured => String::from_str("NFT registry not configured"),
            VaultError::StreamNotConfigured => String::from_str("Stream canister not configured"),
            VaultError::ExternalCallFailure(words) => words.clone(),
            VaultError::Overflow => String::from_str("Amount exceeds the range of the ledger"),
            VaultError::DistributionInProgress => String::from_str(
                "Distribution already in progress",
            ),
            VaultError::StaleDistribution => String::from_str(
                "Ledger changed while the distribution was under way",
            ),
        }
    }
}

/// The ledger of one campaign.
#[derive(Clone, Debug, PartialEq, Eq)]
pub struct VaultState {
    pub campaign_id: u64,
    pub creator: Identity,
    pub title: String,
    pub funding_goal: u64,
    pub current_funding: u64,
    pub revenue_share_percentage: u8,
    pub total_revenue: u64,
    pub oracle_endpoints: Vec<String>,
    pub nft_registry_canister: Option<Identity>,
    pub stream_canister: Option<Identity>,
    pub oracle_canister: Option<Identity>,
    /// One entry per contributor, in the order of their first contribution.
    pub backers: Vec<(Identity, BackerInfo)>,
    pub revenue_history: Vec<RevenueUpdate>,
    pub created_at: u64,
    pub insurance_pool_balance: u64,
    pub insurance_fee_percentage: u8,
    /// Percentage of a contribution that insurance covers.
    pub insurance_coverage_ratio: u8,
    pub insurance_claims: Vec<InsuranceClaim>,
    pub slashing_conditions: SlashingConditions,
    pub slashed_creators: Vec<SlashEvent>,
}

/// The contributors' entries as plain values: identity bytes and record.
pub open spec fn book_of(backers: Seq<(Identity, BackerInfo)>) -> Seq<(Seq<u8>, BackerInfo)> {
    Seq::new(backers.len(), |i: int| (backers[i].0@, backers[i].1))
}

/// Whether some entry is filed under `who`.
pub open spec fn listed<T>(entries: Seq<(Seq<u8>, T)>, who: Seq<u8>) -> bool {
    exists|i: int| 0 <= i < entries.len() && (#[trigger] entries[i]).0 == who
}

/// Whether the first entry filed under `who` stands at `i`.
pub open spec fn first_at<T>(entries: Seq<(Seq<u8>, T)>, who: Seq<u8>, i: int) -> bool {
    &&& 0 <= i < entries.len()
    &&& entries[i].0 == who
    &&& forall|j: int| 0 <= j < i ==> (#[trigger] entries[j]).0 != who
}

/// The place of the first entry filed under `who`, where there is one.
pub open spec fn position<T>(entries: Seq<(Seq<u8>, T)>, who: Seq<u8>) -> int {
    choose|i: int| first_at(entries, who, i)
}

/// No two entries are filed under the same identity.
pub open spec fn distinct<T>(entries: Seq<(Seq<u8>, T)>) -> bool {
    forall|i: int, j: int|
        0 <= i < j < entries.len() ==> (#[trigger] entries[i]).0 != (#[trigger] entries[j]).0
}

/// The record filed under `who`, if there is one.
pub open spec fn record_of(book: Seq<(Seq<u8>, BackerInfo)>, who: Seq<u8>) -> Option<BackerInfo> {
    if listed(book, who) {
        Some(book[position(book, who)].1)
    } else {
        None
    }
}

/// The first entry under `who` is the only place that `position` can name.
pub proof fn lemma_position<T>(entries: Seq<(Seq<u8>, T)>, who: Seq<u8>, i: int)
    requires
        first_at(entries, who, i),
    ensures
        listed(entries, who),
        position(entries, who) == i,
{
    let p = position(entries, who);
    assert(first_at(entries, who, p));
    if p < i {
        assert(entries[p].0 != who);
    }
    if i < p {
        assert(entries[i].0 != who);
    }
}

/// Where an identity is listed, `position` names its first entry.
pub proof fn lemma_listed_has_position<T>(entries: Seq<(Seq<u8>, T)>, who: Seq<u8>)
    requires
        listed(entries, who),
    ensures
        first_at(entries, who, position(entries, who)),
{
    let k = choose|i: int| 0 <= i < entries.len() && (#[trigger] entries[i]).0 == who;
    lemma_first_below(entries, who, k);
}

proof fn lemma_first_below<T>(entries: Seq<(Seq<u8>, T)>, who: Seq<u8>, k: int)
    requires
        0 <= k < entries.len(),
        entries[k].0 == who,
    ensures
        exists|i: int| first_at(entries, who, i),
    decreases k,
{
    if exists|j: int| 0 <= j < k && (#[trigger] entries[j]).0 == who {
        let j = choose|j: int| 0 <= j < k && (#[trigger] entries[j]).0 == who;
        lemma_first_below(entries, who, j);
    } else {
        assert(first_at(entries, who, k));
    }
}

/// The place of the first entry filed under `who`.
pub fn find_entry(entries: &Vec<(Identity, BackerInfo)>, who: &Identity) -> (found: Option<usize>)
    ensures
        match found {
            Some(i) => first_at(book_of(entries@), who@, i as int),
            None => !listed(book_of(entries@), who@),
        },
{
    let mut i: usize = 0;
    while i < entries.len()
        invariant
            i <= entries.len(),
            forall|j: int| 0 <= j < i ==> (#[trigger] book_of(entries@)[j]).0 != who@,
        decreases entries.len() - i,
    {
        if entries[i].0.same(who) {
            return Some(i);
        }
        i += 1;
    }
    None
}

/// The record filed under `who`, if there is one.
pub fn lookup(entries: &Vec<(Identity, BackerInfo)>, who: &Identity) -> (info: Option<BackerInfo>)
    ensures
        info == record_of(book_of(entries@), who@),
{
    match find_entry(entries, who) {
        None => None,
        Some(at) => {
            proof {
                lemma_position(book_of(entries@), who@, at as int);
            }
            Some(entries[at].1)
        },
    }
}

impl BackerInfo {
    /// Whether two records hold the same values.
    pub fn same(&self, other: &BackerInfo) -> (eq: bool)
        ensures
            eq == (*self == *other),
    {
        let tokens = match (self.nft_token_id, other.nft_token_id) {
            (Some(a), Some(b)) => a == b,
            (None, None) => true,
            _ => false,
        };
        tokens && self.amount_invested == other.amount_invested && self.share_percentage.part
            == other.share_percentage.part && self.share_percentage.whole
            == other.share_percentage.whole && self.total_claimed == other.total_claimed
            && self.investment_timestamp == other.investment_timestamp
    }
}

impl VaultState {
    /// The contributors' entries as plain values.
    pub open spec fn book(&self) -> Seq<(Seq<u8>, BackerInfo)> {
        book_of(self.backers@)
    }

    /// What every operation keeps true of the ledger: funding never passes
    /// the goal, both percentages are percentages, each contributor has one
    /// entry, and each share is a fraction of a whole.
    pub open spec fn wf(&self) -> bool {
        &&& self.current_funding <= self.funding_goal
        &&& self.revenue_share_percentage <= 100
        &&& self.insurance_fee_percentage <= 100
        &&& distinct(self.book())
        &&& forall|i: int|
            0 <= i < self.backers@.len() ==> (#[trigger] self.backers@[i]).1.share_percentage.wf()
    }

    /// Tests whether the ledger is well formed.
    pub fn is_well_formed(&self) -> (ok: bool)
        ensures
            ok == self.wf(),
    {
        if self.current_funding > self.funding_goal || self.revenue_share_percentage > 100
            || self.insurance_fee_percentage > 100 {
            return false;
        }
        let mut i: usize = 0;
        while i < self.backers.len()
            invariant
                i <= self.backers.len(),
                forall|a: int|
                    0 <= a < i ==> (#[trigger] self.backers@[a]).1.share_percentage.wf(),
                forall|a: int, b: int|
                    0 <= a < b < i ==> (#[trigger] self.book()[a]).0 != (
                    #[trigger] self.book()[b]).0,
            decreases self.backers.len() - i,
        {
            let share: Share = self.backers[i].1.share_percentage;
            if share.whole == 0 || share.part > share.whole {
                return false;
            }
            let mut j: usize = 0;
            while j < i
                invariant
                    j <= i < self.backers.len(),
                    forall|a: int| 0 <= a < j ==> (#[trigger] self.book()[a]).0 != self.book()[i as int].0,
                decreases i - j,
            {
                if self.backers[j].0.same(&self.backers[i].0) {
                    assert(self.book()[j as int].0 == self.book()[i as int].0);
                    return false;
                }
                j += 1;
            }
            i += 1;
        }
        true
    }
}

} // verus!
