//! The request counter of the web page that greets each visitor with the
//! number of its request.

use vstd::prelude::*;
use crate::decimal::{decimal, decimal_text};

verus! {

/// The state of the web application: the number of requests answered.
pub struct AppState {
    counter: usize,
}

impl AppState {
    /// A state in which no request has been answered.
    pub fn new() -> (s: AppState)
        ensures
            s.count() == 0,
    {
        AppState { counter: 0 }
    }

    /// The number of requests answered.
    pub closed spec fn count(&self) -> nat {
        self.counter as nat
    }

    /// The number of requests answered.
    pub fn counter(&self) -> (c: usize)
        ensures
            c as nat == self.count(),
    {
        self.counter
    }
}

/// Answers a request: counts it, and greets it with its number.
pub fn index(state: &mut AppState) -> (page: String)
    requires
        old(state).count() < usize::MAX,
    ensures
        final(state).count() == old(state).count() + 1,
        page@ == "Request number: "@ + decimal(final(state).count()),
{
    let count = state.counter + 1;
    state.counter = count;
    let mut page = String::from_str("Request number: ");
    page.append(decimal_text(count as u64).as_str());
    page
}

} // verus!
