//! The host-side counter behind `/healthz`, `/count` and `/incr`.

use vstd::prelude::*;

use crate::text::{decimal, decimal_string};

verus! {

/// The number of `/incr` requests served since the service started.
#[derive(Clone, Copy, Debug, PartialEq, Eq, Structural)]
pub struct Counter {
    value: u64,
}

impl Counter {
    pub closed spec fn value(self) -> u64 {
        self.value
    }

    /// A counter at zero, as the service starts.
    pub fn new() -> (c: Counter)
        ensures
            c.value() == 0,
    {
        Counter { value: 0 }
    }

    /// The current count.
    pub fn count(&self) -> (n: u64)
        ensures
            n == self.value(),
    {
        self.value
    }

    /// Counts one more request and returns the new count.
    pub fn incr(&mut self) -> (n: u64)
        requires
            old(self).value() < u64::MAX,
        ensures
            final(self).value() == old(self).value() + 1,
            n == final(self).value(),
    {
        self.value = self.value + 1;
        self.value
    }

    /// The body of `GET /count`: the count in decimal.
    pub fn count_body(&self) -> (s: String)
        ensures
            s@ == decimal(self.value() as nat),
    {
        decimal_string(self.value)
    }

    /// Serves `GET /incr`: counts the request and answers with the new count
    /// in decimal.
    pub fn incr_body(&mut self) -> (s: String)
        requires
            old(self).value() < u64::MAX,
        ensures
            final(self).value() == old(self).value() + 1,
            s@ == decimal(final(self).value() as nat),
    {
        let n = self.incr();
        decimal_string(n)
    }
}

/// The body of `GET /healthz`.
pub fn healthz() -> (s: &'static str)
    ensures
        s@ == "ok"@,
{
    "ok"
}

/// A run of the service: it starts at zero and each step serves one `/incr`.
pub open spec fn is_run(states: Seq<Counter>) -> bool {
    &&& states.len() > 0
    &&& states[0].value() == 0
    &&& forall|i: int|
        0 <= i < states.len() - 1 ==> #[trigger] states[i + 1].value() == states[i].value() + 1
}

/// After `n` increments from a fresh start the count is `n`: with one
/// request per guest, `/count` reaches the number of guests.
pub proof fn law_count_is_number_of_increments(states: Seq<Counter>)
    requires
        is_run(states),
    ensures
        forall|i: int| 0 <= i < states.len() ==> #[trigger] states[i].value() == i,
{
    assert forall|i: int| 0 <= i < states.len() implies #[trigger] states[i].value() == i by {
        lemma_run_prefix(states, i);
    }
}

proof fn lemma_run_prefix(states: Seq<Counter>, i: int)
    requires
        is_run(states),
        0 <= i < states.len(),
    ensures
        states[i].value() == i,
    decreases i,
{
    if i > 0 {
        lemma_run_prefix(states, i - 1);
        assert(states[(i - 1) + 1].value() == states[i - 1].value() + 1);
    }
}

} // verus!
