//! Contributions: what is accepted, what the insurance pool keeps, and what
//! the ledger records for the contributor.

use vstd::prelude::*;
use vstd::string::StringExecFns;
use crate::identity::Identity;
use crate::ledger::{
    distinct, find_entry, first_at, lemma_listed_has_position, lemma_position, listed,
    position, BackerInfo, InvestmentResult, Share, VaultError, VaultState,
};
use crate::text::{decimal, render_decimal};

verus! {

/// The part of an offered amount that still fits under the funding goal.
pub open spec fn accepted_amount(goal: u64, current: u64, amount: u64) -> nat {
    if amount <= goal - current {
        amount as nat
    } else {
        (goal - current) as nat
    }
}

/// The insurance fee on an accepted amount, rounded down.
pub open spec fn insurance_fee(accepted: nat, fee_percentage: u8) -> nat {
    accepted * (fee_percentage as nat) / 100
}

/// The ledger's entries after `info` is filed under `who`: an entry already
/// there is replaced where it stands, a new one goes to the end.
pub open spec fn upsert(book: Seq<(Seq<u8>, BackerInfo)>, who: Seq<u8>, info: BackerInfo) -> Seq<
    (Seq<u8>, BackerInfo),
> {
    if listed(book, who) {
        book.update(position(book, who), (who, info))
    } else {
        book.push((who, info))
    }
}

/// The words that confirm a contribution.
pub open spec fn success_message(accepted: nat, net: nat, fee: nat) -> Seq<char> {
    "Investment successful: "@ + decimal(accepted) + " contributed ("@ + decimal(net)
        + " to campaign, "@ + decimal(fee) + " to insurance pool)"@
}

fn render_success(accepted: u64, net: u64, fee: u64) -> (text: String)
    ensures
        text@ == success_message(accepted as nat, net as nat, fee as nat),
{
    let mut text = String::from_str("Investment successful: ");
    text.append(render_decimal(accepted).as_str());
    text.append(" contributed (");
    text.append(render_decimal(net).as_str());
    text.append(" to campaign, ");
    text.append(render_decimal(fee).as_str());
    text.append(" to insurance pool)");
    text
}

/// Filing under an identity keeps one entry per identity.
pub proof fn lemma_upsert_distinct(book: Seq<(Seq<u8>, BackerInfo)>, who: Seq<u8>, info: BackerInfo)
    requires
        distinct(book),
    ensures
        distinct(upsert(book, who, info)),
        listed(upsert(book, who, info), who),
{
    let after = upsert(book, who, info);
    if listed(book, who) {
        lemma_listed_has_position(book, who);
        let p = position(book, who);
        assert(after[p].0 == who);
        assert forall|i: int, j: int| 0 <= i < j < after.len() implies (#[trigger] after[i]).0 != (
        #[trigger] after[j]).0 by {
            assert(after[i].0 == book[i].0);
            assert(after[j].0 == book[j].0);
        }
    } else {
        assert(after[book.len() as int].0 == who);
        assert forall|i: int, j: int| 0 <= i < j < after.len() implies (#[trigger] after[i]).0 != (
        #[trigger] after[j]).0 by {
            if j < book.len() {
                assert(after[i] == book[i]);
                assert(after[j] == book[j]);
            } else {
                assert(after[i] == book[i]);
            }
        }
    }
}

impl VaultState {
    /// The place of a contributor's entry.
    pub fn find_backer(&self, who: &Identity) -> (found: Option<usize>)
        ensures
            match found {
                Some(i) => first_at(self.book(), who@, i as int),
                None => !listed(self.book(), who@),
            },
    {
        find_entry(&self.backers, who)
    }

    /// Why a contribution of `amount` is turned away, if it is.
    pub open spec fn invest_refusal(&self, amount: u64) -> Option<VaultError> {
        if self.current_funding >= self.funding_goal {
            Some(VaultError::AlreadyFunded)
        } else if self.insurance_pool_balance + insurance_fee(
            accepted_amount(self.funding_goal, self.current_funding, amount),
            self.insurance_fee_percentage,
        ) > u64::MAX {
            Some(VaultError::Overflow)
        } else {
            None
        }
    }

    /// What a contribution does to the ledger and what the contributor is
    /// told: `self` is the ledger before it, `after` the ledger after it.
    pub open spec fn invested(
        &self,
        after: &VaultState,
        contributor: Seq<u8>,
        amount: u64,
        now: u64,
        result: InvestmentResult,
    ) -> bool {
        &&& result.nft_token_id.is_none()
        &&& match self.invest_refusal(amount) {
            Some(e) => {
                &&& !result.success
                &&& result.share_percentage == Share { part: 0, whole: 1 }
                &&& result.message@ == e.spec_message()
                &&& *after == *self
            },
            None => {
                let accepted = accepted_amount(self.funding_goal, self.current_funding, amount);
                let fee = insurance_fee(accepted, self.insurance_fee_percentage);
                let net = (accepted - fee) as nat;
                let share = Share { part: net as u64, whole: self.funding_goal };
                &&& result.success
                &&& fee <= accepted
                &&& result.share_percentage == share
                &&& result.message@ == success_message(accepted, net, fee)
                &&& after.current_funding == self.current_funding + net
                &&& after.insurance_pool_balance == self.insurance_pool_balance + fee
                &&& after.book() == upsert(
                    self.book(),
                    contributor,
                    BackerInfo {
                        amount_invested: accepted as u64,
                        nft_token_id: None,
                        share_percentage: share,
                        total_claimed: 0,
                        investment_timestamp: now,
                    },
                )
                &&& *after == VaultState {
                    current_funding: after.current_funding,
                    insurance_pool_balance: after.insurance_pool_balance,
                    backers: after.backers,
                    ..*self
                }
            },
        }
    }

    /// Takes a contribution. Once the goal is met nothing more is taken. Of
    /// the offered amount only what fits under the goal is accepted; the
    /// insurance fee on it goes to the pool, the rest to the campaign. The
    /// contributor's entry is written anew: an earlier one is replaced, not
    /// added to.
    pub fn invest(&mut self, contributor: &Identity, amount: u64, now: u64) -> (result:
        InvestmentResult)
        requires
            old(self).wf(),
        ensures
            final(self).wf(),
            final(self).current_funding <= final(self).funding_goal,
            final(self).insurance_pool_balance >= old(self).insurance_pool_balance,
            old(self).invested(final(self), contributor@, amount, now, result),
    {
        if self.current_funding >= self.funding_goal {
            return InvestmentResult {
                success: false,
                nft_token_id: None,
                share_percentage: Share::zero(),
                message: VaultError::AlreadyFunded.message(),
            };
        }
        let remaining: u64 = self.funding_goal - self.current_funding;
        let accepted: u64 = if amount <= remaining { amount } else { remaining };
        assert(accepted * self.insurance_fee_percentage <= accepted * 100) by (nonlinear_arith)
            requires
                self.insurance_fee_percentage <= 100,
        ;
        let scaled: u128 = accepted as u128 * self.insurance_fee_percentage as u128;
        let fee128: u128 = scaled / 100;
        assert(fee128 <= accepted) by (nonlinear_arith)
            requires
                fee128 == scaled / 100,
                scaled <= accepted * 100,
        ;
        let fee: u64 = fee128 as u64;
        if fee > u64::MAX - self.insurance_pool_balance {
            return InvestmentResult {
                success: false,
                nft_token_id: None,
                share_percentage: Share::zero(),
                message: VaultError::Overflow.message(),
            };
        }
        let net: u64 = accepted - fee;
        let share = Share { part: net, whole: self.funding_goal };
        let info = BackerInfo {
            amount_invested: accepted,
            nft_token_id: None,
            share_percentage: share,
            total_claimed: 0,
            investment_timestamp: now,
        };
        let ghost before = self.book();
        proof {
            lemma_upsert_distinct(before, contributor@, info);
        }
        self.insurance_pool_balance = self.insurance_pool_balance + fee;
        self.current_funding = self.current_funding + net;
        match self.find_backer(contributor) {
            Some(i) => {
                proof {
                    lemma_position(before, contributor@, i as int);
                }
                self.backers.set(i, (contributor.duplicate(), info));
                assert(self.book() =~= before.update(i as int, (contributor@, info)));
            },
            None => {
                self.backers.push((contributor.duplicate(), info));
                assert(self.book() =~= before.push((contributor@, info)));
            },
        }
        proof {
            let after = self.book();
            assert forall|i: int| 0 <= i < self.backers@.len() implies (
            #[trigger] self.backers@[i]).1.share_percentage.wf() by {
                if after[i].0 == contributor@ {
                } else {
                    assert(after[i] == before[i]);
                    assert(self.backers@[i].1 == old(self).backers@[i].1);
                }
            }
        }
        InvestmentResult {
            success: true,
            nft_token_id: None,
            share_percentage: share,
            message: render_success(accepted, net, fee),
        }
    }
}

} // verus!
