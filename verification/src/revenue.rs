//! Revenue reports: every report is recorded and counted, whether or not an
//! oracle has verified it.

use vstd::prelude::*;
use crate::ledger::{RevenueUpdate, VaultError, VaultState};

verus! {

impl VaultState {
    /// What a revenue report does to the ledger: `self` is the ledger before
    /// it, `after` the ledger after it.
    pub open spec fn revenue_recorded(
        &self,
        after: &VaultState,
        amount: u64,
        source: String,
        verified: bool,
        now: u64,
        done: Result<(), VaultError>,
    ) -> bool {
        &&& done.is_ok() == (self.total_revenue + amount <= u64::MAX)
        &&& match done {
            Ok(_) => {
                &&& after.total_revenue == self.total_revenue + amount
                &&& after.revenue_history@ == self.revenue_history@.push(
                    RevenueUpdate { amount, source, timestamp: now, oracle_verification: verified },
                )
                &&& *after == VaultState {
                    total_revenue: after.total_revenue,
                    revenue_history: after.revenue_history,
                    ..*self
                }
            },
            Err(e) => e == VaultError::Overflow && *after == *self,
        }
    }

    /// Records a revenue report and adds its amount to the total. The
    /// verification flag is stored with the report and decides nothing.
    /// A report that would take the total out of range is refused whole.
    pub fn update_revenue(&mut self, amount: u64, source: String, verified: bool, now: u64) -> (done:
        Result<(), VaultError>)
        ensures
            old(self).wf() ==> final(self).wf(),
            final(self).total_revenue >= old(self).total_revenue,
            final(self).insurance_pool_balance == old(self).insurance_pool_balance,
            final(self).current_funding == old(self).current_funding,
            old(self).revenue_recorded(final(self), amount, source, verified, now, done),
    {
        if amount > u64::MAX - self.total_revenue {
            return Err(VaultError::Overflow);
        }
        self.total_revenue = self.total_revenue + amount;
        self.revenue_history.push(
            RevenueUpdate { amount, source, timestamp: now, oracle_verification: verified },
        );
        Ok(())
    }
}

} // verus!
