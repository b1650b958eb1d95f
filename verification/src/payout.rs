//! The distribution algorithm: what each contributor can claim from the
//! revenue received so far, and what approved insurance claims add to it.

use vstd::prelude::*;
use crate::identity::Identity;
use crate::ledger::{
    first_at, lemma_position, listed, position, BackerInfo, ClaimStatus, InsuranceClaim, Share,
    VaultError, VaultState,
};

verus! {

/// The percentage of the creator's revenue that goes to the contributors once
/// a creator has been slashed.
pub const SLASH_REDIRECT_PERCENTAGE: u64 = 50;

/// The revenue that belongs to the contributors together: their percentage of
/// the total and, once any slash event is on record, half of the creator's
/// part as well. Every division rounds down.
pub open spec fn investor_pool(total_revenue: u64, share_percentage: u8, slashed: bool) -> nat {
    let base = total_revenue as nat * (share_percentage as nat) / 100;
    if slashed {
        let creator = total_revenue as nat * ((100 - share_percentage) as nat) / 100;
        base + creator * (SLASH_REDIRECT_PERCENTAGE as nat) / 100
    } else {
        base
    }
}

/// A contributor's lifetime entitlement from the pool, rounded down.
pub open spec fn entitlement(pool: nat, share: Share) -> nat {
    pool * (share.part as nat) / (share.whole as nat)
}

/// What a contributor can still claim: the entitlement less what was claimed
/// before, and nothing where more was claimed than the entitlement.
pub open spec fn claimable(pool: nat, info: BackerInfo) -> nat {
    let due = entitlement(pool, info.share_percentage);
    if due > info.total_claimed {
        (due - info.total_claimed) as nat
    } else {
        0
    }
}

/// One payout per contributor who can claim something, in ledger order.
pub open spec fn backer_payouts(book: Seq<(Seq<u8>, BackerInfo)>, pool: nat) -> Seq<
    (Seq<u8>, nat),
>
    decreases book.len(),
{
    if book.len() == 0 {
        Seq::empty()
    } else {
        let earlier = backer_payouts(book.drop_last(), pool);
        let due = claimable(pool, book.last().1);
        if due > 0 {
            earlier.push((book.last().0, due))
        } else {
            earlier
        }
    }
}

/// Adds `amount` to the first payout of `who`, or appends one.
pub open spec fn credit(batch: Seq<(Seq<u8>, nat)>, who: Seq<u8>, amount: nat) -> Seq<
    (Seq<u8>, nat),
> {
    if listed(batch, who) {
        let at = position(batch, who);
        batch.update(at, (who, batch[at].1 + amount))
    } else {
        batch.push((who, amount))
    }
}

/// The batch after every approved claim, in filing order, has been credited
/// to its claimer. Claims in any other status add nothing.
pub open spec fn with_claims(batch: Seq<(Seq<u8>, nat)>, claims: Seq<InsuranceClaim>) -> Seq<
    (Seq<u8>, nat),
>
    decreases claims.len(),
{
    if claims.len() == 0 {
        batch
    } else {
        let earlier = with_claims(batch, claims.drop_last());
        let claim = claims.last();
        if claim.status == ClaimStatus::Approved {
            credit(earlier, claim.claimer@, claim.amount as nat)
        } else {
            earlier
        }
    }
}

/// Whether every amount of a batch can be paid out as a `u64`.
pub open spec fn amounts_fit(batch: Seq<(Seq<u8>, nat)>) -> bool {
    forall|i: int| 0 <= i < batch.len() ==> (#[trigger] batch[i]).1 <= u64::MAX
}

/// A payout list as plain values.
pub open spec fn payouts(batch: Seq<(Identity, u64)>) -> Seq<(Seq<u8>, nat)> {
    Seq::new(batch.len(), |i: int| (batch[i].0@, batch[i].1 as nat))
}

spec fn staged(work: Seq<(Identity, u128)>) -> Seq<(Seq<u8>, nat)> {
    Seq::new(work.len(), |i: int| (work[i].0@, work[i].1 as nat))
}

spec fn bounded(work: Seq<(Identity, u128)>, credits: nat) -> bool {
    forall|i: int| 0 <= i < work.len() ==> (#[trigger] work[i]).1 <= (credits + 1) * u64::MAX
}

fn find_staged(work: &Vec<(Identity, u128)>, who: &Identity) -> (found: Option<usize>)
    ensures
        match found {
            Some(i) => first_at(staged(work@), who@, i as int),
            None => !listed(staged(work@), who@),
        },
{
    let mut i: usize = 0;
    while i < work.len()
        invariant
            i <= work.len(),
            forall|j: int| 0 <= j < i ==> (#[trigger] staged(work@)[j]).0 != who@,
        decreases work.len() - i,
    {
        if work[i].0.same(who) {
            return Some(i);
        }
        i += 1;
    }
    None
}

impl VaultState {
    /// The pool that the contributors share, from the ledger as it stands.
    pub open spec fn spec_investor_share(&self) -> nat {
        investor_pool(
            self.total_revenue,
            self.revenue_share_percentage,
            self.slashed_creators@.len() > 0,
        )
    }

    /// The payout batch that the ledger calls for as it stands.
    pub open spec fn payout_batch(&self) -> Seq<(Seq<u8>, nat)> {
        with_claims(
            backer_payouts(self.book(), self.spec_investor_share()),
            self.insurance_claims@,
        )
    }

    /// The revenue that belongs to the contributors together. Any slash
    /// event on record redirects half of the creator's part, whoever was
    /// slashed and however often.
    pub fn investor_share(&self) -> (pool: u64)
        requires
            self.revenue_share_percentage <= 100,
        ensures
            pool == self.spec_investor_share(),
            pool <= self.total_revenue,
    {
        let revenue: u128 = self.total_revenue as u128;
        let percentage: u128 = self.revenue_share_percentage as u128;
        assert(revenue * percentage + revenue * (100 - percentage) == revenue * 100)
            by (nonlinear_arith);
        assert(0 <= revenue * percentage <= revenue * 100 && 0 <= revenue * (100 - percentage)
            <= revenue * 100) by (nonlinear_arith)
            requires
                0 <= revenue,
                0 <= percentage <= 100,
        ;
        let base: u128 = revenue * percentage / 100;
        if self.slashed_creators.len() > 0 {
            let creator: u128 = revenue * (100 - percentage) / 100;
            assert(creator <= revenue);
            assert(creator * 50 <= u64::MAX * 50);
            let redirected: u128 = creator * (SLASH_REDIRECT_PERCENTAGE as u128) / 100;
            (base + redirected) as u64
        } else {
            base as u64
        }
    }

    /// Computes the payout batch. Each contributor whose entitlement exceeds
    /// what they have claimed gets the difference, in ledger order. Then each
    /// approved insurance claim, in filing order, is added to its claimer's
    /// payout, or appended as a payout of its own. Claims are left as they
    /// are, so the next batch holds them again. Where an amount of the batch
    /// would not fit a `u64`, there is no batch.
    pub fn compute_payouts(&self) -> (batch: Result<Vec<(Identity, u64)>, VaultError>)
        requires
            self.wf(),
        ensures
            batch.is_ok() == amounts_fit(self.payout_batch()),
            match batch {
                Ok(list) => payouts(list@) == self.payout_batch(),
                Err(e) => e == VaultError::Overflow,
            },
    {
        let pool: u64 = self.investor_share();
        let mut work: Vec<(Identity, u128)> = Vec::new();
        let mut i: usize = 0;
        while i < self.backers.len()
            invariant
                i <= self.backers.len(),
                self.wf(),
                pool == self.spec_investor_share(),
                staged(work@) == backer_payouts(self.book().take(i as int), pool as nat),
                bounded(work@, 0),
            decreases self.backers.len() - i,
        {
            let info: BackerInfo = self.backers[i].1;
            let share: Share = info.share_percentage;
            assert(self.backers@[i as int].1.share_percentage.wf());
            assert(pool * share.part <= pool * share.whole && pool * share.whole <= u64::MAX
                * u64::MAX) by (nonlinear_arith)
                requires
                    share.part <= share.whole,
                    share.whole <= u64::MAX,
                    pool <= u64::MAX,
            ;
            let product: u128 = pool as u128 * share.part as u128;
            let due: u128 = product / (share.whole as u128);
            assert(due <= pool) by (nonlinear_arith)
                requires
                    due == product / (share.whole as u128),
                    product <= pool * share.whole,
                    share.whole > 0,
            ;
            proof {
                let upto = self.book().take(i as int + 1);
                assert(upto.drop_last() =~= self.book().take(i as int));
                assert(upto.last() == self.book()[i as int]);
                assert(due == entitlement(pool as nat, share));
            }
            let ghost before = staged(work@);
            if due > info.total_claimed as u128 {
                work.push((self.backers[i].0.duplicate(), due - info.total_claimed as u128));
                assert(staged(work@) =~= before.push(
                    (self.book()[i as int].0, claimable(pool as nat, info)),
                ));
            }
            i += 1;
        }
        assert(self.book().take(i as int) =~= self.book());
        let ghost base = backer_payouts(self.book(), pool as nat);
        let mut k: usize = 0;
        while k < self.insurance_claims.len()
            invariant
                k <= self.insurance_claims.len(),
                staged(work@) == with_claims(base, self.insurance_claims@.take(k as int)),
                bounded(work@, k as nat),
            decreases self.insurance_claims.len() - k,
        {
            let claim = &self.insurance_claims[k];
            let ghost before = staged(work@);
            proof {
                let upto = self.insurance_claims@.take(k as int + 1);
                assert(upto.drop_last() =~= self.insurance_claims@.take(k as int));
                assert(upto.last() == self.insurance_claims@[k as int]);
                assert((k + 2) * u64::MAX <= u128::MAX && (k + 1) * u64::MAX + u64::MAX == (k + 2)
                    * u64::MAX) by (nonlinear_arith)
                    requires
                        k <= u64::MAX,
                ;
            }
            match claim.status {
                ClaimStatus::Approved => {
                    match find_staged(&work, &claim.claimer) {
                        Some(at) => {
                            proof {
                                lemma_position(before, claim.claimer@, at as int);
                            }
                            let sum: u128 = work[at].1 + claim.amount as u128;
                            work.set(at, (claim.claimer.duplicate(), sum));
                            assert(staged(work@) =~= before.update(
                                at as int,
                                (claim.claimer@, before[at as int].1 + claim.amount as nat),
                            ));
                        },
                        None => {
                            work.push((claim.claimer.duplicate(), claim.amount as u128));
                            assert(staged(work@) =~= before.push(
                                (claim.claimer@, claim.amount as nat),
                            ));
                        },
                    }
                },
                _ => {},
            }
            assert(bounded(work@, (k + 1) as nat)) by {
                assert forall|j: int| 0 <= j < work@.len() implies (#[trigger] work@[j]).1 <= (k
                    + 2) * u64::MAX by {
                    if j < before.len() {
                        assert(before[j].1 <= (k + 1) * u64::MAX);
                    }
                }
            }
            k += 1;
        }
        assert(self.insurance_claims@.take(k as int) =~= self.insurance_claims@);
        let ghost planned = staged(work@);
        assert(planned == self.payout_batch());
        let mut list: Vec<(Identity, u64)> = Vec::new();
        let mut n: usize = 0;
        while n < work.len()
            invariant
                n <= work.len(),
                planned == staged(work@),
                planned == self.payout_batch(),
                payouts(list@) == planned.take(n as int),
            decreases work.len() - n,
        {
            let amount: u128 = work[n].1;
            if amount > u64::MAX as u128 {
                assert(planned[n as int].1 > u64::MAX);
                return Err(VaultError::Overflow);
            }
            let ghost before = payouts(list@);
            list.push((work[n].0.duplicate(), amount as u64));
            assert(payouts(list@) =~= before.push(planned[n as int]));
            assert(planned.take(n as int + 1) =~= planned.take(n as int).push(planned[n as int]));
            n += 1;
        }
        assert(planned.take(n as int) =~= planned);
        assert(amounts_fit(planned)) by {
            assert forall|j: int| 0 <= j < planned.len() implies (#[trigger] planned[j]).1
                <= u64::MAX by {
                assert(planned[j] == payouts(list@)[j]);
            }
        }
        Ok(list)
    }
}

} // verus!
