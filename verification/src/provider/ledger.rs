//! Running token totals for a session.

use vstd::prelude::*;

use crate::provider::types::{usage_sum, Usage};

verus! {

/// Aggregates token usage over a session.
#[derive(Debug, Clone, Default)]
pub struct TokenLedger {
    total: Usage,
}

impl View for TokenLedger {
    type V = Usage;

    closed spec fn view(&self) -> Usage {
        self.total
    }
}

impl TokenLedger {
    pub fn new() -> (r: TokenLedger)
        ensures
            r@ == (Usage { input_tokens: 0, output_tokens: 0 }),
    {
        TokenLedger { total: Usage::zero() }
    }

    /// Adds `u` to the total (saturating).
    pub fn record(&mut self, u: Usage)
        ensures
            final(self)@ == usage_sum(old(self)@, u),
    {
        self.total = self.total.saturating_add(u);
    }

    pub fn total(&self) -> (r: Usage)
        ensures
            r == self@,
    {
        self.total
    }

    /// Back to zero.
    pub fn reset(&mut self)
        ensures
            final(self)@ == (Usage { input_tokens: 0, output_tokens: 0 }),
    {
        self.total = Usage::zero();
    }
}

/// Swapping two neighbouring records leaves the ledger's total unchanged,
/// so the total does not depend on the order of recording.
pub proof fn law_ledger_order_independent(start: Usage, a: Usage, b: Usage)
    ensures
        usage_sum(usage_sum(start, a), b) == usage_sum(usage_sum(start, b), a),
{
}

} // verus!
