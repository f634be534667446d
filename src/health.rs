//! The health checker: bounded polling of the primary container's health
//! status.

use vstd::prelude::*;
use crate::text::{str_eq, trim, trim_seq};

verus! {

/// What one poll of the container's health status reported.
#[derive(Clone, Copy, Debug, PartialEq, Eq, Structural)]
pub enum HealthReport {
    Healthy,
    Unhealthy,
    /// Any other value ("starting", empty, a failed query).
    Other,
}

/// The classification of a raw status text.
pub open spec fn classify(raw: Seq<char>) -> HealthReport {
    if trim_seq(raw) == "healthy"@ {
        HealthReport::Healthy
    } else if trim_seq(raw) == "unhealthy"@ {
        HealthReport::Unhealthy
    } else {
        HealthReport::Other
    }
}

/// Classifies the status text that a health query printed.
pub fn classify_status(raw: &str) -> (r: HealthReport)
    ensures
        r == classify(raw@),
{
    let t = trim(raw);
    if str_eq(t.as_str(), "healthy") {
        HealthReport::Healthy
    } else if str_eq(t.as_str(), "unhealthy") {
        HealthReport::Unhealthy
    } else {
        HealthReport::Other
    }
}

/// The state of one health check.
#[derive(Clone, Copy, Debug, PartialEq, Eq, Structural)]
pub enum HealthState {
    Pending,
    /// `polls` polls have been made, none of them terminal; the next poll
    /// is due.
    Polling { polls: u32 },
    /// Poll number `polls` reported neither healthy nor unhealthy: one
    /// interval is to be slept before the next poll (or before giving up).
    Sleeping { polls: u32 },
    Healthy,
    Unhealthy,
    TimedOut,
}

impl HealthState {
    pub open spec fn is_terminal(self) -> bool {
        self is Healthy || self is Unhealthy || self is TimedOut
    }

    /// The only successful outcome.
    pub fn is_success(&self) -> (r: bool)
        ensures
            r == (*self is Healthy),
    {
        matches!(self, HealthState::Healthy)
    }

    pub fn is_finished(&self) -> (r: bool)
        ensures
            r == self.is_terminal(),
    {
        matches!(self, HealthState::Healthy | HealthState::Unhealthy | HealthState::TimedOut)
    }
}

pub open spec fn start_spec(retries: u32) -> HealthState {
    if retries == 0 {
        HealthState::TimedOut
    } else {
        HealthState::Polling { polls: 0 }
    }
}

/// One transition. In `Polling` the report of the poll decides; in
/// `Sleeping` the report is ignored: the interval has been slept.
pub open spec fn step_spec(s: HealthState, r: HealthReport, retries: u32) -> HealthState {
    match s {
        HealthState::Pending => start_spec(retries),
        HealthState::Polling { polls } => match r {
            HealthReport::Healthy => HealthState::Healthy,
            HealthReport::Unhealthy => HealthState::Unhealthy,
            HealthReport::Other => if polls < retries {
                HealthState::Sleeping { polls: (polls + 1) as u32 }
            } else {
                HealthState::TimedOut
            },
        },
        HealthState::Sleeping { polls } => if polls < retries {
            HealthState::Polling { polls }
        } else {
            HealthState::TimedOut
        },
        _ => s,
    }
}

/// Entering the polling state: with no retries allowed the check has timed
/// out before any poll.
pub fn start(retries: u32) -> (r: HealthState)
    ensures
        r == start_spec(retries),
{
    if retries == 0 {
        HealthState::TimedOut
    } else {
        HealthState::Polling { polls: 0 }
    }
}

/// One transition: `healthy` and `unhealthy` end the check at once; any
/// other report is followed by one interval of sleep, after which the next
/// poll is due, or the check has timed out once `retries` polls were made.
pub fn step(s: HealthState, r: HealthReport, retries: u32) -> (n: HealthState)
    ensures
        n == step_spec(s, r, retries),
{
    match s {
        HealthState::Pending => start(retries),
        HealthState::Polling { polls } => match r {
            HealthReport::Healthy => HealthState::Healthy,
            HealthReport::Unhealthy => HealthState::Unhealthy,
            HealthReport::Other => if polls < retries {
                HealthState::Sleeping { polls: polls + 1 }
            } else {
                HealthState::TimedOut
            },
        },
        HealthState::Sleeping { polls } => if polls < retries {
            HealthState::Polling { polls }
        } else {
            HealthState::TimedOut
        },
        _ => s,
    }
}

/// The outcome of a whole check.
pub struct HealthRun {
    pub state: HealthState,
    /// Polls made.
    pub polls: u32,
    /// Intervals slept.
    pub sleeps: u32,
}

/// Runs a check over the status texts that successive polls print. Every
/// poll that reports neither healthy nor unhealthy is followed by one
/// interval of sleep, the last one before timing out included: a check that
/// times out has made `retries` polls and slept `retries` intervals. The
/// check stops early, at the next poll due, when the texts run out.
pub fn run_checks(statuses: &Vec<String>, retries: u32) -> (r: HealthRun)
    ensures
        r.polls <= retries,
        r.polls as int <= statuses@.len(),
        forall|i: int| 0 <= i < r.polls - 1 ==> #[trigger] classify(statuses@[i]@) == HealthReport::Other,
        r.polls > 0 && classify(statuses@[r.polls - 1]@) == HealthReport::Healthy ==> r.state
            == HealthState::Healthy && r.sleeps == r.polls - 1,
        r.polls > 0 && classify(statuses@[r.polls - 1]@) == HealthReport::Unhealthy ==> r.state
            == HealthState::Unhealthy && r.sleeps == r.polls - 1,
        (r.polls == 0 || classify(statuses@[r.polls - 1]@) == HealthReport::Other) ==> {
            &&& r.sleeps == r.polls
            &&& r.polls == retries ==> r.state == HealthState::TimedOut
            &&& r.polls < retries ==> r.polls == statuses@.len() && r.state == (HealthState::Polling {
                polls: r.polls,
            })
        },
{
    let mut state = start(retries);
    let mut polls: u32 = 0;
    let mut sleeps: u32 = 0;
    loop
        invariant
            polls <= retries,
            polls as int <= statuses@.len(),
            sleeps <= polls,
            forall|i: int| 0 <= i < polls - 1 ==> #[trigger] classify(statuses@[i]@) == HealthReport::Other,
            match state {
                HealthState::Polling { polls: p } => p == polls && polls < retries && sleeps == polls && (polls
                    > 0 ==> classify(statuses@[polls - 1]@) == HealthReport::Other),
                HealthState::Sleeping { polls: p } => p == polls && polls >= 1 && sleeps == polls - 1
                    && classify(statuses@[polls - 1]@) == HealthReport::Other,
                HealthState::Healthy => polls >= 1 && sleeps == polls - 1 && classify(statuses@[polls - 1]@)
                    == HealthReport::Healthy,
                HealthState::Unhealthy => polls >= 1 && sleeps == polls - 1 && classify(statuses@[polls
                    - 1]@) == HealthReport::Unhealthy,
                HealthState::TimedOut => polls == retries && sleeps == polls && (polls > 0 ==> classify(
                    statuses@[polls - 1]@,
                ) == HealthReport::Other),
                HealthState::Pending => false,
            },
        ensures
            polls <= retries,
            polls as int <= statuses@.len(),
            sleeps <= polls,
            forall|i: int| 0 <= i < polls - 1 ==> #[trigger] classify(statuses@[i]@) == HealthReport::Other,
            match state {
                HealthState::Polling { polls: p } => p == polls && polls < retries && sleeps == polls && (polls
                    > 0 ==> classify(statuses@[polls - 1]@) == HealthReport::Other),
                HealthState::Sleeping { polls: p } => p == polls && polls >= 1 && sleeps == polls - 1
                    && classify(statuses@[polls - 1]@) == HealthReport::Other,
                HealthState::Healthy => polls >= 1 && sleeps == polls - 1 && classify(statuses@[polls - 1]@)
                    == HealthReport::Healthy,
                HealthState::Unhealthy => polls >= 1 && sleeps == polls - 1 && classify(statuses@[polls
                    - 1]@) == HealthReport::Unhealthy,
                HealthState::TimedOut => polls == retries && sleeps == polls && (polls > 0 ==> classify(
                    statuses@[polls - 1]@,
                ) == HealthReport::Other),
                HealthState::Pending => false,
            },
            state is Polling ==> polls as int == statuses@.len(),
            !(state is Sleeping),
        decreases 2 * (retries - polls) + if state is Polling {
            1int
        } else {
            0
        } + if state is Sleeping {
            2int
        } else {
            0
        },
    {
        match state {
            HealthState::Polling { polls: p } => {
                if (polls as usize) >= statuses.len() {
                    break;
                }
                let rep = classify_status(statuses[polls as usize].as_str());
                state = step(state, rep, retries);
                polls = polls + 1;
            },
            HealthState::Sleeping { polls: p } => {
                sleeps = sleeps + 1;
                state = step(state, HealthReport::Other, retries);
            },
            _ => {
                break;
            },
        }
    }
    HealthRun { state, polls, sleeps }
}

} // verus!
