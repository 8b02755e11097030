//! Date-time literals in task scripts.
//!
//! The task parser turns each date-time token of a script into a date-time
//! and panics on one that is not valid. The check here finds the first such
//! token, so that a script holding one is reported as not parsing instead.
use vstd::prelude::*;
use crate::nadi::{date_time_parses, date_time_valid, script_tokens, token_views, tokenize};

verus! {

/// The first date-time token, from the `i`th token on, that is not a valid
/// date-time.
pub open spec fn bad_token_from(ts: Seq<(bool, Seq<char>)>, i: int) -> Option<Seq<char>>
    decreases ts.len() - i,
{
    if i < 0 || i >= ts.len() {
        None
    } else if ts[i].0 && !date_time_valid(ts[i].1) {
        Some(ts[i].1)
    } else {
        bad_token_from(ts, i + 1)
    }
}

/// The first date-time token of a task script that is not a valid date-time.
pub open spec fn bad_date(script: Seq<char>) -> Option<Seq<char>> {
    bad_token_from(script_tokens(script), 0)
}

/// The first date-time token of a task script that is not a valid
/// date-time, if there is one.
pub fn first_bad_date(script: &str) -> (r: Option<String>)
    ensures
        r matches Some(t) ==> bad_date(script@) == Some(t@),
        r is None ==> bad_date(script@) is None,
{
    let tokens = tokenize(script);
    let ghost ts = script_tokens(script@);
    let mut i: usize = 0;
    while i < tokens.len()
        invariant
            i <= tokens.len(),
            token_views(tokens@) == ts,
            ts == script_tokens(script@),
            bad_token_from(ts, i as int) == bad_date(script@),
        decreases tokens.len() - i,
    {
        assert(ts[i as int] == (tokens@[i as int].0, tokens@[i as int].1@));
        if tokens[i].0 {
            let text = tokens[i].1.as_str();
            if !date_time_parses(text) {
                return Some(tokens[i].1.clone());
            }
        }
        i += 1;
    }
    None
}

} // verus!
