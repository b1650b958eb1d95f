//! Coordination with the collaborating services. Each remote call is made by
//! the caller of this library, between a step that stages what to send and a
//! step that records what came back. A failed call leaves the ledger as it
//! was.

use vstd::prelude::*;
use crate::identity::Identity;
use crate::ledger::{
    book_of, lemma_position, listed, lookup, position, record_of, BackerInfo,
    Share, VaultError, VaultState,
};
use crate::payout::{amounts_fit, payouts};

verus! {

/// A staged distribution: the payment-streaming service to call, the payout
/// list to hand it, and the contributors' entries that the list was computed
/// from.
#[derive(Clone, Debug, PartialEq, Eq)]
pub struct DistributionPlan {
    pub stream: Identity,
    pub payouts: Vec<(Identity, u64)>,
    pub basis: Vec<(Identity, BackerInfo)>,
}

/// A staged token issue: the identity-token service to call, and for whom
/// and for what the token stands.
#[derive(Clone, Debug, PartialEq, Eq)]
pub struct MintRequest {
    pub registry: Identity,
    pub to: Identity,
    pub campaign_id: u64,
    pub investment: u64,
    pub share: Share,
}

/// The sum of a batch's payouts to `who`.
pub open spec fn credited(batch: Seq<(Seq<u8>, nat)>, who: Seq<u8>) -> nat
    decreases batch.len(),
{
    if batch.len() == 0 {
        0
    } else if batch.last().0 == who {
        credited(batch.drop_last(), who) + batch.last().1
    } else {
        credited(batch.drop_last(), who)
    }
}

/// Whether every contributor's claimed total stays in range once the batch
/// is added to it.
pub open spec fn settles(book: Seq<(Seq<u8>, BackerInfo)>, batch: Seq<(Seq<u8>, nat)>) -> bool {
    forall|i: int|
        0 <= i < book.len() ==> (#[trigger] book[i]).1.total_claimed + credited(batch, book[i].0)
            <= u64::MAX
}

/// The ledger's entries after a batch is paid: each contributor's claimed
/// total grows by the batch's payouts to them, and nothing else changes.
pub open spec fn settled(book: Seq<(Seq<u8>, BackerInfo)>, batch: Seq<(Seq<u8>, nat)>) -> Seq<
    (Seq<u8>, BackerInfo),
> {
    Seq::new(
        book.len(),
        |i: int|
            (
                book[i].0,
                BackerInfo {
                    total_claimed: (book[i].1.total_claimed + credited(batch, book[i].0)) as u64,
                    ..book[i].1
                },
            ),
    )
}

/// Whether everybody whom a batch pays has the same record in `book` as in
/// `basis`, or none in either.
pub open spec fn records_unchanged(
    basis: Seq<(Seq<u8>, BackerInfo)>,
    book: Seq<(Seq<u8>, BackerInfo)>,
    batch: Seq<(Seq<u8>, nat)>,
) -> bool {
    forall|i: int|
        0 <= i < batch.len() ==> record_of(basis, (#[trigger] batch[i]).0) == record_of(
            book,
            batch[i].0,
        )
}

/// The ledger's entries after a token is recorded for `who`: the entry of
/// `who` carries the token, and an unknown `who` changes nothing.
pub open spec fn with_token(book: Seq<(Seq<u8>, BackerInfo)>, who: Seq<u8>, token: u64) -> Seq<
    (Seq<u8>, BackerInfo),
> {
    if listed(book, who) {
        let at = position(book, who);
        book.update(at, (who, BackerInfo { nft_token_id: Some(token), ..book[at].1 }))
    } else {
        book
    }
}

fn credited_to(batch: &Vec<(Identity, u64)>, who: &Identity) -> (sum: u128)
    ensures
        sum == credited(payouts(batch@), who@),
{
    let ghost list = payouts(batch@);
    let mut sum: u128 = 0;
    let mut i: usize = 0;
    while i < batch.len()
        invariant
            i <= batch.len(),
            list == payouts(batch@),
            sum == credited(list.take(i as int), who@),
            sum <= i * u64::MAX,
        decreases batch.len() - i,
    {
        proof {
            let upto = list.take(i as int + 1);
            assert(upto.drop_last() =~= list.take(i as int));
            assert(upto.last() == list[i as int]);
            assert((i + 1) * u64::MAX <= u128::MAX && i * u64::MAX + u64::MAX == (i + 1)
                * u64::MAX) by (nonlinear_arith)
                requires
                    i <= u64::MAX,
            ;
        }
        if batch[i].0.same(who) {
            sum = sum + batch[i].1 as u128;
        }
        i += 1;
    }
    assert(list.take(i as int) =~= list);
    sum
}

impl VaultState {
    /// What staging a distribution yields from the ledger as it stands.
    pub open spec fn distribution_staged(&self, plan: Result<DistributionPlan, VaultError>) -> bool {
        match plan {
            Ok(p) => {
                &&& self.stream_canister.is_some()
                &&& p.stream@ == self.stream_canister.unwrap()@
                &&& amounts_fit(self.payout_batch())
                &&& payouts(p.payouts@) == self.payout_batch()
                &&& book_of(p.basis@) == self.book()
            },
            Err(e) => if self.stream_canister.is_none() {
                e == VaultError::StreamNotConfigured
            } else {
                e == VaultError::Overflow && !amounts_fit(self.payout_batch())
            },
        }
    }

    /// What the answer to a batch does to the ledger: `self` is the ledger
    /// before it, `after` the ledger after it.
    pub open spec fn payouts_committed(
        &self,
        after: &VaultState,
        batch: Vec<(Identity, u64)>,
        outcome: Result<(), String>,
        done: Result<Vec<(Identity, u64)>, VaultError>,
    ) -> bool {
        match outcome {
            Err(words) => {
                &&& done == Err::<Vec<(Identity, u64)>, VaultError>(
                    VaultError::ExternalCallFailure(words),
                )
                &&& *after == *self
            },
            Ok(_) => if settles(self.book(), payouts(batch@)) {
                &&& done == Ok::<Vec<(Identity, u64)>, VaultError>(batch)
                &&& after.book() == settled(self.book(), payouts(batch@))
                &&& *after == VaultState { backers: after.backers, ..*self }
            } else {
                &&& done == Err::<Vec<(Identity, u64)>, VaultError>(VaultError::Overflow)
                &&& *after == *self
            },
        }
    }

    /// What the answer to a staged distribution does to the ledger: `self`
    /// is the ledger before it, `after` the ledger after it.
    pub open spec fn plan_committed(
        &self,
        after: &VaultState,
        plan: DistributionPlan,
        outcome: Result<(), String>,
        done: Result<Vec<(Identity, u64)>, VaultError>,
    ) -> bool {
        if outcome.is_ok() && !records_unchanged(
            book_of(plan.basis@),
            self.book(),
            payouts(plan.payouts@),
        ) {
            &&& done == Err::<Vec<(Identity, u64)>, VaultError>(VaultError::StaleDistribution)
            &&& *after == *self
        } else {
            self.payouts_committed(after, plan.payouts, outcome, done)
        }
    }

    /// What staging a token issue for `backer` yields from the ledger as it
    /// stands.
    pub open spec fn mint_staged(
        &self,
        backer: Seq<u8>,
        request: Result<MintRequest, VaultError>,
    ) -> bool {
        match request {
            Ok(r) => {
                &&& listed(self.book(), backer)
                &&& self.nft_registry_canister.is_some()
                &&& r.registry@ == self.nft_registry_canister.unwrap()@
                &&& r.to@ == backer
                &&& r.campaign_id == self.campaign_id
                &&& r.investment == self.book()[position(self.book(), backer)].1.amount_invested
                &&& r.share == self.book()[position(self.book(), backer)].1.share_percentage
            },
            Err(e) => if !listed(self.book(), backer) {
                e == VaultError::NotFound
            } else {
                e == VaultError::RegistryNotConfigured && self.nft_registry_canister.is_none()
            },
        }
    }

    /// What the answer to a token issue does to the ledger: `self` is the
    /// ledger before it, `after` the ledger after it.
    pub open spec fn token_recorded(
        &self,
        after: &VaultState,
        backer: Seq<u8>,
        outcome: Result<u64, String>,
        done: Result<u64, VaultError>,
    ) -> bool {
        match outcome {
            Err(words) => {
                &&& done == Err::<u64, VaultError>(VaultError::ExternalCallFailure(words))
                &&& *after == *self
            },
            Ok(token) => {
                &&& done == Ok::<u64, VaultError>(token)
                &&& after.book() == with_token(self.book(), backer, token)
                &&& *after == VaultState { backers: after.backers, ..*self }
            },
        }
    }

    /// Stages a distribution: names the payment-streaming service and
    /// computes the payout batch for it. The ledger is not touched.
    pub fn distribute_payouts(&self) -> (plan: Result<DistributionPlan, VaultError>)
        requires
            self.wf(),
        ensures
            self.distribution_staged(plan),
    {
        match &self.stream_canister {
            None => Err(VaultError::StreamNotConfigured),
            Some(stream) => {
                match self.compute_payouts() {
                    Ok(list) => Ok(
                        DistributionPlan {
                            stream: stream.duplicate(),
                            payouts: list,
                            basis: self.snapshot(),
                        },
                    ),
                    Err(e) => Err(e),
                }
            },
        }
    }

    /// Records what the payment-streaming service answered to a batch. On its
    /// success every payout of the batch is added to the claimed total of
    /// its contributor, and the batch is handed back; a payout to somebody
    /// who is no contributor changes nothing. On its failure, or where a
    /// claimed total would leave its range, the ledger stays as it was.
    pub fn commit_payouts(&mut self, batch: Vec<(Identity, u64)>, outcome: Result<(), String>) -> (done:
        Result<Vec<(Identity, u64)>, VaultError>)
        ensures
            old(self).wf() ==> final(self).wf(),
            final(self).insurance_pool_balance == old(self).insurance_pool_balance,
            final(self).current_funding == old(self).current_funding,
            old(self).payouts_committed(final(self), batch, outcome, done),
    {
        match outcome {
            Err(words) => Err(VaultError::ExternalCallFailure(words)),
            Ok(_) => {
                let ghost book = self.book();
                let ghost list = payouts(batch@);
                let mut updated: Vec<(Identity, BackerInfo)> = Vec::new();
                let mut i: usize = 0;
                while i < self.backers.len()
                    invariant
                        i <= self.backers.len(),
                        *self == *old(self),
                        outcome.is_ok(),
                        book == self.book(),
                        list == payouts(batch@),
                        updated@.len() == i,
                        book_of(updated@) == settled(book, list).take(i as int),
                        forall|j: int|
                            0 <= j < i ==> (#[trigger] book[j]).1.total_claimed + credited(
                                list,
                                book[j].0,
                            ) <= u64::MAX,
                    decreases self.backers.len() - i,
                {
                    let info: BackerInfo = self.backers[i].1;
                    let sum: u128 = credited_to(&batch, &self.backers[i].0);
                    if sum > (u64::MAX - info.total_claimed) as u128 {
                        assert(book[i as int].1.total_claimed + credited(list, book[i as int].0)
                            > u64::MAX);
                        return Err(VaultError::Overflow);
                    }
                    let ghost before = book_of(updated@);
                    updated.push(
                        (
                            self.backers[i].0.duplicate(),
                            BackerInfo {
                                amount_invested: info.amount_invested,
                                nft_token_id: info.nft_token_id,
                                share_percentage: info.share_percentage,
                                total_claimed: info.total_claimed + sum as u64,
                                investment_timestamp: info.investment_timestamp,
                            },
                        ),
                    );
                    assert(book_of(updated@) =~= before.push(settled(book, list)[i as int]));
                    assert(settled(book, list).take(i as int + 1) =~= settled(book, list).take(
                        i as int,
                    ).push(settled(book, list)[i as int]));
                    i += 1;
                }
                assert(settled(book, list).take(i as int) =~= settled(book, list));
                proof {
                    if old(self).wf() {
                        let after = book_of(updated@);
                        assert forall|a: int, b: int| 0 <= a < b < after.len() implies (
                        #[trigger] after[a]).0 != (#[trigger] after[b]).0 by {
                            assert(after[a].0 == book[a].0);
                            assert(after[b].0 == book[b].0);
                        }
                        assert forall|a: int| 0 <= a < updated@.len() implies (
                        #[trigger] updated@[a]).1.share_percentage.wf() by {
                            assert(after[a].1.share_percentage == book[a].1.share_percentage);
                            assert(old(self).backers@[a].1.share_percentage.wf());
                        }
                    }
                }
                self.backers = updated;
                Ok(batch)
            },
        }
    }

    /// A copy of the contributors' entries.
    fn snapshot(&self) -> (copy: Vec<(Identity, BackerInfo)>)
        ensures
            book_of(copy@) == self.book(),
    {
        let mut copy: Vec<(Identity, BackerInfo)> = Vec::new();
        let mut i: usize = 0;
        while i < self.backers.len()
            invariant
                i <= self.backers.len(),
                book_of(copy@) == self.book().take(i as int),
            decreases self.backers.len() - i,
        {
            let ghost before = book_of(copy@);
            copy.push((self.backers[i].0.duplicate(), self.backers[i].1));
            assert(book_of(copy@) =~= before.push(self.book()[i as int]));
            assert(self.book().take(i as int + 1) =~= self.book().take(i as int).push(
                self.book()[i as int],
            ));
            i += 1;
        }
        assert(self.book().take(i as int) =~= self.book());
        copy
    }

    /// Tests whether everybody whom the plan pays still has the record that
    /// the plan was computed from.
    pub fn plan_is_current(&self, plan: &DistributionPlan) -> (current: bool)
        ensures
            current == records_unchanged(book_of(plan.basis@), self.book(), payouts(plan.payouts@)),
    {
        let ghost batch = payouts(plan.payouts@);
        let mut i: usize = 0;
        while i < plan.payouts.len()
            invariant
                i <= plan.payouts.len(),
                batch == payouts(plan.payouts@),
                forall|j: int|
                    0 <= j < i ==> record_of(book_of(plan.basis@), (#[trigger] batch[j]).0)
                        == record_of(self.book(), batch[j].0),
            decreases plan.payouts.len() - i,
        {
            let staged = lookup(&plan.basis, &plan.payouts[i].0);
            let held = lookup(&self.backers, &plan.payouts[i].0);
            let same = match (staged, held) {
                (Some(a), Some(b)) => a.same(&b),
                (None, None) => true,
                _ => false,
            };
            if !same {
                assert(record_of(book_of(plan.basis@), batch[i as int].0) != record_of(
                    self.book(),
                    batch[i as int].0,
                ));
                return false;
            }
            i += 1;
        }
        true
    }

    /// Records what the payment-streaming service answered to a staged
    /// distribution. A failure leaves the ledger as it was. After a success
    /// the plan is held against the ledger first: where the record of
    /// somebody it pays is no longer the one it was computed from, nothing is
    /// applied and the plan is reported stale. Otherwise its payouts are
    /// committed.
    pub fn commit_plan(&mut self, plan: DistributionPlan, outcome: Result<(), String>) -> (done:
        Result<Vec<(Identity, u64)>, VaultError>)
        ensures
            old(self).wf() ==> final(self).wf(),
            final(self).insurance_pool_balance == old(self).insurance_pool_balance,
            final(self).current_funding == old(self).current_funding,
            old(self).plan_committed(final(self), plan, outcome, done),
    {
        if outcome.is_ok() && !self.plan_is_current(&plan) {
            return Err(VaultError::StaleDistribution);
        }
        self.commit_payouts(plan.payouts, outcome)
    }

    /// Stages a token issue for a contributor: names the identity-token
    /// service and what the token stands for. The ledger is not touched.
    pub fn mint_nft_for_backer(&self, backer: &Identity) -> (request: Result<
        MintRequest,
        VaultError,
    >)
        ensures
            self.mint_staged(backer@, request),
    {
        match self.find_backer(backer) {
            None => Err(VaultError::NotFound),
            Some(at) => {
                proof {
                    lemma_position(self.book(), backer@, at as int);
                }
                match &self.nft_registry_canister {
                    None => Err(VaultError::RegistryNotConfigured),
                    Some(registry) => {
                        let info: BackerInfo = self.backers[at].1;
                        Ok(
                            MintRequest {
                                registry: registry.duplicate(),
                                to: backer.duplicate(),
                                campaign_id: self.campaign_id,
                                investment: info.amount_invested,
                                share: info.share_percentage,
                            },
                        )
                    },
                }
            },
        }
    }

    /// Records what the identity-token service answered. On its success the
    /// token is stored with the contributor, if there still is such a
    /// contributor, and handed back. On its failure the ledger stays as it
    /// was.
    pub fn record_nft_token(&mut self, backer: &Identity, outcome: Result<u64, String>) -> (done:
        Result<u64, VaultError>)
        ensures
            old(self).wf() ==> final(self).wf(),
            final(self).insurance_pool_balance == old(self).insurance_pool_balance,
            final(self).current_funding == old(self).current_funding,
            old(self).token_recorded(final(self), backer@, outcome, done),
    {
        match outcome {
            Err(words) => Err(VaultError::ExternalCallFailure(words)),
            Ok(token) => {
                let ghost before = self.book();
                match self.find_backer(backer) {
                    None => {},
                    Some(at) => {
                        proof {
                            lemma_position(before, backer@, at as int);
                        }
                        let info: BackerInfo = self.backers[at].1;
                        let marked = BackerInfo {
                            amount_invested: info.amount_invested,
                            nft_token_id: Some(token),
                            share_percentage: info.share_percentage,
                            total_claimed: info.total_claimed,
                            investment_timestamp: info.investment_timestamp,
                        };
                        self.backers.set(at, (backer.duplicate(), marked));
                        assert(self.book() =~= before.update(at as int, (backer@, marked)));
                        proof {
                            if old(self).wf() {
                                let after = self.book();
                                assert forall|a: int, b: int|
                                    0 <= a < b < after.len() implies (#[trigger] after[a]).0 != (
                                #[trigger] after[b]).0 by {
                                    assert(after[a].0 == before[a].0);
                                    assert(after[b].0 == before[b].0);
                                }
                                assert forall|a: int| 0 <= a < self.backers@.len() implies (
                                #[trigger] self.backers@[a]).1.share_percentage.wf() by {
                                    assert(after[a].1.share_percentage
                                        == before[a].1.share_percentage);
                                    assert(old(self).backers@[a].1.share_percentage.wf());
                                }
                            }
                        }
                    },
                }
                Ok(token)
            },
        }
    }
}

} // verus!
