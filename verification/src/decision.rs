//! The recommendation handed back to the caller.

use std::time::Duration;
use vstd::prelude::*;

verus! {

/// What the guard recommends for one event.
#[derive(Debug, Clone, Copy, PartialEq, Eq)]
pub enum Decision {
    Allow,
    Warn,
    Delay(Duration),
    Block,
}

/// How severe a decision is: allow < warn < delay < block.
pub open spec fn severity(d: Decision) -> nat {
    match d {
        Decision::Allow => 0,
        Decision::Warn => 1,
        Decision::Delay(_) => 2,
        Decision::Block => 3,
    }
}

/// The band of the risk scale a score falls into, given how it compares with
/// the three configured bounds: below `allow_below` allows, below `warn_below`
/// warns, below `delay_below` delays, anything else blocks.
pub open spec fn band_decision(
    below_allow: bool,
    below_warn: bool,
    below_delay: bool,
    delay: Duration,
) -> Decision {
    if below_allow {
        Decision::Allow
    } else if below_warn {
        Decision::Warn
    } else if below_delay {
        Decision::Delay(delay)
    } else {
        Decision::Block
    }
}

/// Maps a risk score onto a decision from the outcome of its three
/// comparisons with the configured band bounds (`risk < allow_below`,
/// `risk < warn_below`, `risk < delay_below`); a delay carries `delay`.
pub fn decide(below_allow: bool, below_warn: bool, below_delay: bool, delay: Duration) -> (d:
    Decision)
    ensures
        d == band_decision(below_allow, below_warn, below_delay, delay),
{
    if below_allow {
        Decision::Allow
    } else if below_warn {
        Decision::Warn
    } else if below_delay {
        Decision::Delay(delay)
    } else {
        Decision::Block
    }
}

/// Escalation: a score that sits below no more bounds than another one (every
/// bound the higher score is below, the lower one is below too) never gets a
/// milder decision.
pub proof fn lemma_escalation_is_monotone(
    lower: (bool, bool, bool),
    higher: (bool, bool, bool),
    delay: Duration,
)
    requires
        higher.0 ==> lower.0,
        higher.1 ==> lower.1,
        higher.2 ==> lower.2,
    ensures
        severity(band_decision(lower.0, lower.1, lower.2, delay)) <= severity(
            band_decision(higher.0, higher.1, higher.2, delay),
        ),
{
}

} // verus!
