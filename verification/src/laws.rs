//! What holds of the vault's operations taken together.

use vstd::prelude::*;
use crate::coordinator::{credited, settled, settles, DistributionPlan};
use crate::identity::Identity;
use crate::ledger::{
    distinct, lemma_listed_has_position, listed, position, BackerInfo, ClaimStatus,
    InsuranceClaim, InvestmentResult, Share, VaultError, VaultState,
};
use crate::payout::{
    backer_payouts, claimable, credit, entitlement, investor_pool, with_claims,
};

verus! {

proof fn lemma_credited_update(batch: Seq<(Seq<u8>, nat)>, at: int, amount: nat, who: Seq<u8>)
    requires
        0 <= at < batch.len(),
    ensures
        credited(batch.update(at, (batch[at].0, batch[at].1 + amount)), who) == credited(
            batch,
            who,
        ) + if batch[at].0 == who {
            amount
        } else {
            0
        },
    decreases batch.len(),
{
    let changed = batch.update(at, (batch[at].0, batch[at].1 + amount));
    if at == batch.len() - 1 {
        assert(changed.drop_last() =~= batch.drop_last());
    } else {
        lemma_credited_update(batch.drop_last(), at, amount, who);
        assert(changed.drop_last() =~= batch.drop_last().update(
            at,
            (batch[at].0, batch[at].1 + amount),
        ));
    }
}

/// Crediting an amount adds it to the sum of its receiver and to no other.
pub proof fn lemma_credited_credit(
    batch: Seq<(Seq<u8>, nat)>,
    receiver: Seq<u8>,
    amount: nat,
    who: Seq<u8>,
)
    ensures
        credited(credit(batch, receiver, amount), who) == credited(batch, who) + if receiver
            == who {
            amount
        } else {
            0
        },
{
    if listed(batch, receiver) {
        lemma_listed_has_position(batch, receiver);
        lemma_credited_update(batch, position(batch, receiver), amount, who);
    } else {
        assert(batch.push((receiver, amount)).drop_last() =~= batch);
    }
}

proof fn lemma_claims_only_add(
    batch: Seq<(Seq<u8>, nat)>,
    claims: Seq<InsuranceClaim>,
    who: Seq<u8>,
)
    ensures
        credited(with_claims(batch, claims), who) >= credited(batch, who),
    decreases claims.len(),
{
    if claims.len() > 0 {
        lemma_claims_only_add(batch, claims.drop_last(), who);
        if claims.last().status == ClaimStatus::Approved {
            lemma_credited_credit(
                with_claims(batch, claims.drop_last()),
                claims.last().claimer@,
                claims.last().amount as nat,
                who,
            );
        }
    }
}

proof fn lemma_backer_gets_claimable(book: Seq<(Seq<u8>, BackerInfo)>, pool: nat, at: int)
    requires
        0 <= at < book.len(),
    ensures
        credited(backer_payouts(book, pool), book[at].0) >= claimable(pool, book[at].1),
    decreases book.len(),
{
    let earlier = backer_payouts(book.drop_last(), pool);
    let due = claimable(pool, book.last().1);
    if due > 0 {
        assert(earlier.push((book.last().0, due)).drop_last() =~= earlier);
    }
    if at < book.len() - 1 {
        lemma_backer_gets_claimable(book.drop_last(), pool, at);
    }
}

proof fn lemma_nothing_due(book: Seq<(Seq<u8>, BackerInfo)>, pool: nat)
    requires
        forall|i: int| 0 <= i < book.len() ==> claimable(pool, (#[trigger] book[i]).1) == 0,
    ensures
        backer_payouts(book, pool) == Seq::<(Seq<u8>, nat)>::empty(),
    decreases book.len(),
{
    if book.len() > 0 {
        assert forall|i: int| 0 <= i < book.drop_last().len() implies claimable(
            pool,
            (#[trigger] book.drop_last()[i]).1,
        ) == 0 by {
            assert(book.drop_last()[i] == book[i]);
        }
        lemma_nothing_due(book.drop_last(), pool);
        assert(claimable(pool, book[book.len() - 1].1) == 0);
    }
}

/// A distribution that was committed is not paid again. Let a batch be
/// computed from a ledger and committed to it, with no contribution, revenue
/// report, slash event or claim in between. Then no contributor can claim
/// any revenue from the ledger that results, and the batch computed from it
/// holds the approved insurance claims and nothing else: those are paid again
/// as long as they stay approved.
pub proof fn lemma_committed_distribution_is_not_repeated(before: VaultState, after: VaultState)
    requires
        before.wf(),
        settles(before.book(), before.payout_batch()),
        after.book() == settled(before.book(), before.payout_batch()),
        after.total_revenue == before.total_revenue,
        after.revenue_share_percentage == before.revenue_share_percentage,
        after.slashed_creators == before.slashed_creators,
        after.insurance_claims == before.insurance_claims,
    ensures
        forall|i: int|
            0 <= i < after.book().len() ==> claimable(
                after.spec_investor_share(),
                (#[trigger] after.book()[i]).1,
            ) == 0,
        after.payout_batch() == with_claims(
            Seq::<(Seq<u8>, nat)>::empty(),
            before.insurance_claims@,
        ),
{
    let pool = before.spec_investor_share();
    let book = before.book();
    let batch = before.payout_batch();
    assert forall|i: int| 0 <= i < after.book().len() implies claimable(
        pool,
        (#[trigger] after.book()[i]).1,
    ) == 0 by {
        lemma_backer_gets_claimable(book, pool, i);
        lemma_claims_only_add(backer_payouts(book, pool), before.insurance_claims@, book[i].0);
        assert(book[i].1.total_claimed + credited(batch, book[i].0) <= u64::MAX);
        assert(after.book()[i].1.share_percentage == book[i].1.share_percentage);
        assert(after.book()[i].1.total_claimed == book[i].1.total_claimed + credited(
            batch,
            book[i].0,
        ));
        assert(entitlement(pool, after.book()[i].1.share_percentage) <= after.book()[i].1.total_claimed);
    }
    lemma_nothing_due(after.book(), pool);
}

proof fn lemma_stranger_gets_nothing(book: Seq<(Seq<u8>, BackerInfo)>, pool: nat, who: Seq<u8>)
    requires
        !listed(book, who),
    ensures
        credited(backer_payouts(book, pool), who) == 0,
    decreases book.len(),
{
    if book.len() > 0 {
        let front = book.drop_last();
        assert(!listed(front, who)) by {
            if listed(front, who) {
                let k = choose|k: int| 0 <= k < front.len() && (#[trigger] front[k]).0 == who;
                assert(book[k].0 == who);
            }
        }
        lemma_stranger_gets_nothing(front, pool, who);
        assert(book[book.len() - 1].0 != who);
        let earlier = backer_payouts(front, pool);
        let due = claimable(pool, book.last().1);
        if due > 0 {
            assert(earlier.push((book.last().0, due)).drop_last() =~= earlier);
        }
    }
}

proof fn lemma_backer_gets_exactly_claimable(book: Seq<(Seq<u8>, BackerInfo)>, pool: nat, at: int)
    requires
        distinct(book),
        0 <= at < book.len(),
    ensures
        credited(backer_payouts(book, pool), book[at].0) == claimable(pool, book[at].1),
    decreases book.len(),
{
    let front = book.drop_last();
    let earlier = backer_payouts(front, pool);
    let due = claimable(pool, book.last().1);
    if due > 0 {
        assert(earlier.push((book.last().0, due)).drop_last() =~= earlier);
    }
    if at < book.len() - 1 {
        assert(distinct(front)) by {
            assert forall|i: int, j: int| 0 <= i < j < front.len() implies (#[trigger] front[i]).0
                != (#[trigger] front[j]).0 by {
                assert(front[i] == book[i]);
                assert(front[j] == book[j]);
            }
        }
        lemma_backer_gets_exactly_claimable(front, pool, at);
        assert(book[at].0 != book[book.len() - 1].0);
    } else {
        assert(!listed(front, book[at].0)) by {
            if listed(front, book[at].0) {
                let k = choose|k: int|
                    0 <= k < front.len() && (#[trigger] front[k]).0 == book[at].0;
                assert(book[k].0 == book[at].0);
            }
        }
        lemma_stranger_gets_nothing(front, pool, book[at].0);
    }
}

proof fn lemma_unapproved_claims_add_nothing(
    batch: Seq<(Seq<u8>, nat)>,
    claims: Seq<InsuranceClaim>,
)
    requires
        forall|k: int| 0 <= k < claims.len() ==> (#[trigger] claims[k]).status
            != ClaimStatus::Approved,
    ensures
        with_claims(batch, claims) == batch,
    decreases claims.len(),
{
    if claims.len() > 0 {
        assert forall|k: int| 0 <= k < claims.drop_last().len() implies (
        #[trigger] claims.drop_last()[k]).status != ClaimStatus::Approved by {
            assert(claims.drop_last()[k] == claims[k]);
        }
        lemma_unapproved_claims_add_nothing(batch, claims.drop_last());
        assert(claims[claims.len() - 1].status != ClaimStatus::Approved);
    }
}

/// A committed distribution brings every contributor's claimed total up to
/// their entitlement and no further. Let no insurance claim be approved, and
/// let no contributor have claimed more than their entitlement. Then, once
/// the batch computed from the ledger is committed to it, every contributor
/// has claimed exactly their entitlement.
pub proof fn lemma_committed_totals_meet_entitlement(before: VaultState, after: VaultState)
    requires
        before.wf(),
        forall|k: int|
            0 <= k < before.insurance_claims@.len() ==> (
            #[trigger] before.insurance_claims@[k]).status != ClaimStatus::Approved,
        forall|i: int|
            0 <= i < before.book().len() ==> (#[trigger] before.book()[i]).1.total_claimed
                <= entitlement(
                before.spec_investor_share(),
                before.book()[i].1.share_percentage,
            ),
        after.book() == settled(before.book(), before.payout_batch()),
    ensures
        settles(before.book(), before.payout_batch()),
        forall|i: int|
            0 <= i < before.book().len() ==> (#[trigger] after.book()[i]).1.total_claimed
                == entitlement(
                before.spec_investor_share(),
                before.book()[i].1.share_percentage,
            ),
{
    let pool = before.spec_investor_share();
    let book = before.book();
    lemma_unapproved_claims_add_nothing(backer_payouts(book, pool), before.insurance_claims@);
    assert forall|i: int| 0 <= i < book.len() implies (#[trigger] book[i]).1.total_claimed
        + credited(before.payout_batch(), book[i].0) == entitlement(
        pool,
        book[i].1.share_percentage,
    ) by {
        lemma_backer_gets_exactly_claimable(book, pool, i);
    }
    assert forall|i: int| 0 <= i < book.len() implies entitlement(
        pool,
        (#[trigger] book[i]).1.share_percentage,
    ) <= u64::MAX by {
        lemma_pool_bounded(
            before.total_revenue,
            before.revenue_share_percentage,
            before.slashed_creators@.len() > 0,
        );
        lemma_entitlement_bounded(pool, before.backers@[i].1.share_percentage);
        assert(book[i].1 == before.backers@[i].1);
    }
    assert forall|i: int| 0 <= i < before.book().len() implies (
    #[trigger] after.book()[i]).1.total_claimed == entitlement(
        pool,
        before.book()[i].1.share_percentage,
    ) by {
        assert(book[i].1.total_claimed + credited(before.payout_batch(), book[i].0)
            == entitlement(pool, book[i].1.share_percentage));
    }
}

/// The contributors' pool never exceeds the revenue received, slashed
/// creator or not.
pub proof fn lemma_pool_bounded(total_revenue: u64, share_percentage: u8, slashed: bool)
    requires
        share_percentage <= 100,
    ensures
        investor_pool(total_revenue, share_percentage, slashed) <= total_revenue,
{
    let revenue = total_revenue as nat;
    let percentage = share_percentage as nat;
    let rest = (100 - share_percentage) as nat;
    assert(revenue * percentage + revenue * rest == revenue * 100) by (nonlinear_arith)
        requires
            percentage + rest == 100,
    ;
    assert(0 <= revenue * percentage && 0 <= revenue * rest) by (nonlinear_arith);
}

/// No entitlement exceeds the pool that it is a share of.
pub proof fn lemma_entitlement_bounded(pool: nat, share: Share)
    requires
        share.wf(),
    ensures
        entitlement(pool, share) <= pool,
{
    let part = share.part as nat;
    let whole = share.whole as nat;
    assert(pool * part / whole <= pool) by (nonlinear_arith)
        requires
            part <= whole,
            whole > 0,
    ;
}

/// Funding never passes the goal and the insurance pool never shrinks:
/// whatever is offered, by whomever and whenever, a contribution to a well
/// formed ledger leaves funding at or under the goal and the pool at or
/// above what it held.
pub proof fn lemma_invest_keeps_goal_and_pool(
    before: VaultState,
    after: VaultState,
    contributor: Seq<u8>,
    amount: u64,
    now: u64,
    result: InvestmentResult,
)
    requires
        before.wf(),
        before.invested(&after, contributor, amount, now, result),
    ensures
        after.current_funding <= after.funding_goal,
        after.funding_goal == before.funding_goal,
        after.current_funding >= before.current_funding,
        after.insurance_pool_balance >= before.insurance_pool_balance,
        after.total_revenue == before.total_revenue,
        after.revenue_history == before.revenue_history,
{
}

/// A revenue report never lowers the total revenue, only ever adds to the
/// end of the history, and touches neither funding nor the insurance pool.
pub proof fn lemma_revenue_only_grows(
    before: VaultState,
    after: VaultState,
    amount: u64,
    source: String,
    verified: bool,
    now: u64,
    done: Result<(), VaultError>,
)
    requires
        before.revenue_recorded(&after, amount, source, verified, now, done),
    ensures
        after.total_revenue >= before.total_revenue,
        before.revenue_history@.is_prefix_of(after.revenue_history@),
        after.current_funding == before.current_funding,
        after.funding_goal == before.funding_goal,
        after.insurance_pool_balance == before.insurance_pool_balance,
{
}

/// The answer to a distribution touches neither funding nor the insurance
/// pool, nor the claims: paying an approved claim takes nothing from the pool
/// and leaves the claim approved.
pub proof fn lemma_distribution_leaves_funds(
    before: VaultState,
    after: VaultState,
    plan: DistributionPlan,
    outcome: Result<(), String>,
    done: Result<Vec<(Identity, u64)>, VaultError>,
)
    requires
        before.plan_committed(&after, plan, outcome, done),
    ensures
        after.current_funding == before.current_funding,
        after.funding_goal == before.funding_goal,
        after.insurance_pool_balance == before.insurance_pool_balance,
        after.insurance_claims == before.insurance_claims,
        after.total_revenue == before.total_revenue,
        after.revenue_history == before.revenue_history,
{
}

/// The answer to a token issue touches neither funding nor the insurance
/// pool.
pub proof fn lemma_token_leaves_funds(
    before: VaultState,
    after: VaultState,
    backer: Seq<u8>,
    outcome: Result<u64, String>,
    done: Result<u64, VaultError>,
)
    requires
        before.token_recorded(&after, backer, outcome, done),
    ensures
        after.current_funding == before.current_funding,
        after.funding_goal == before.funding_goal,
        after.insurance_pool_balance == before.insurance_pool_balance,
{
}

} // verus!
