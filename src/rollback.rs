//! The rollback engine: the cutover part of the pipeline, run against a
//! release that is already on the host.

use vstd::prelude::*;
use crate::health::{start, start_spec, step, step_spec, HealthReport, HealthState};
use crate::lock::{opt_view, ShipitLock};
use crate::pipeline::{report_of, PipelineEvent};

verus! {

/// Why a rollback failed.
#[derive(Clone, Copy, Debug, PartialEq, Eq, Structural)]
pub enum RollbackError {
    /// The host has no lock record: no deploy ever completed there.
    NoLock,
    /// No release was named and the lock records no previous release.
    NoPreviousRelease,
    /// The target release has no directory on the host.
    ReleaseNotFound,
    /// The target release's containers did not start.
    StartFailed,
    /// The target release did not become healthy.
    HealthCheckFailed,
    /// The `current` link could not be repointed.
    SymlinkFailed,
    /// The new lock record could not be written.
    LockWriteFailed,
}

impl RollbackError {
    /// A sentence for the operator.
    pub fn message(&self) -> (r: &'static str)
        ensures
            r@ == match self {
                RollbackError::NoLock => "No shipit.lock found - has a deploy been done?"@,
                RollbackError::NoPreviousRelease => "No previous release found to rollback to"@,
                RollbackError::ReleaseNotFound => "Release directory not found"@,
                RollbackError::StartFailed => "Failed to start target release"@,
                RollbackError::HealthCheckFailed => "Health check failed after rollback"@,
                RollbackError::SymlinkFailed => "Failed to update the current symlink"@,
                RollbackError::LockWriteFailed => "Failed to write the lock file"@,
            },
    {
        match self {
            RollbackError::NoLock => "No shipit.lock found - has a deploy been done?",
            RollbackError::NoPreviousRelease => "No previous release found to rollback to",
            RollbackError::ReleaseNotFound => "Release directory not found",
            RollbackError::StartFailed => "Failed to start target release",
            RollbackError::HealthCheckFailed => "Health check failed after rollback",
            RollbackError::SymlinkFailed => "Failed to update the current symlink",
            RollbackError::LockWriteFailed => "Failed to write the lock file",
        }
    }
}

/// The release to roll back to: the one named, else the lock's previous
/// release. A host without a lock cannot be rolled back.
pub fn resolve_target(lock: &Option<ShipitLock>, requested: &Option<String>) -> (r: Result<
    String,
    RollbackError,
>)
    ensures
        match *lock {
            None => r == Err::<String, RollbackError>(RollbackError::NoLock),
            Some(l) => match *requested {
                Some(n) => r matches Ok(t) && t@ == n@,
                None => match l.previous_release {
                    Some(p) => r matches Ok(t) && t@ == p@,
                    None => r == Err::<String, RollbackError>(RollbackError::NoPreviousRelease),
                },
            },
        },
{
    let l = match lock {
        Some(l) => l,
        None => return Err(RollbackError::NoLock),
    };
    match requested {
        Some(n) => Ok(n.clone()),
        None => match &l.previous_release {
            Some(p) => Ok(p.clone()),
            None => Err(RollbackError::NoPreviousRelease),
        },
    }
}

/// Where a host's rollback stands.
#[derive(Clone, Copy, Debug, PartialEq, Eq, Structural)]
pub enum RollbackState {
    /// The target's directory is to be checked.
    CheckTarget,
    /// The current release is to be stopped (best effort).
    StopCurrent,
    StartTarget,
    Checking(HealthState),
    SwapSymlink,
    WriteLock,
    Done,
    Failed(RollbackError),
}

/// What the caller is to do next on the host.
#[derive(Clone, Copy, Debug, PartialEq, Eq, Structural)]
pub enum RollbackAction {
    /// Check that the target's directory exists (`Done` if so, `Error` if
    /// not).
    CheckTargetExists,
    StopCurrent,
    StartTarget,
    PollHealth,
    /// Sleep one health-check interval.
    WaitInterval,
    SwapSymlink,
    WriteLock,
    Finish,
}

pub open spec fn rb_after_health(h: HealthState) -> RollbackState {
    match h {
        HealthState::Healthy => RollbackState::SwapSymlink,
        HealthState::Unhealthy => RollbackState::Failed(RollbackError::HealthCheckFailed),
        HealthState::TimedOut => RollbackState::Failed(RollbackError::HealthCheckFailed),
        _ => RollbackState::Checking(h),
    }
}

/// One transition of a rollback.
pub open spec fn rb_next_spec(s: RollbackState, e: PipelineEvent, retries: u32) -> RollbackState {
    match s {
        RollbackState::CheckTarget => match e {
            PipelineEvent::Done => RollbackState::StopCurrent,
            PipelineEvent::Error => RollbackState::Failed(RollbackError::ReleaseNotFound),
            _ => s,
        },
        RollbackState::StopCurrent => match e {
            PipelineEvent::Health(_) => s,
            _ => RollbackState::StartTarget,
        },
        RollbackState::StartTarget => match e {
            PipelineEvent::Done => rb_after_health(start_spec(retries)),
            PipelineEvent::Error => RollbackState::Failed(RollbackError::StartFailed),
            _ => s,
        },
        RollbackState::Checking(h) => rb_after_health(step_spec(h, report_of(e), retries)),
        RollbackState::SwapSymlink => match e {
            PipelineEvent::Done => RollbackState::WriteLock,
            PipelineEvent::Error => RollbackState::Failed(RollbackError::SymlinkFailed),
            _ => s,
        },
        RollbackState::WriteLock => match e {
            PipelineEvent::Done => RollbackState::Done,
            PipelineEvent::Error => RollbackState::Failed(RollbackError::LockWriteFailed),
            _ => s,
        },
        _ => s,
    }
}

pub open spec fn rb_action_spec(s: RollbackState) -> RollbackAction {
    match s {
        RollbackState::CheckTarget => RollbackAction::CheckTargetExists,
        RollbackState::StopCurrent => RollbackAction::StopCurrent,
        RollbackState::StartTarget => RollbackAction::StartTarget,
        RollbackState::Checking(h) => if h is Sleeping {
            RollbackAction::WaitInterval
        } else {
            RollbackAction::PollHealth
        },
        RollbackState::SwapSymlink => RollbackAction::SwapSymlink,
        RollbackState::WriteLock => RollbackAction::WriteLock,
        _ => RollbackAction::Finish,
    }
}

fn rb_after_health_exec(h: HealthState) -> (r: RollbackState)
    ensures
        r == rb_after_health(h),
{
    match h {
        HealthState::Healthy => RollbackState::SwapSymlink,
        HealthState::Unhealthy => RollbackState::Failed(RollbackError::HealthCheckFailed),
        HealthState::TimedOut => RollbackState::Failed(RollbackError::HealthCheckFailed),
        _ => RollbackState::Checking(h),
    }
}

/// Moves a rollback on by what the last action gave. A missing target
/// fails before anything is stopped; stopping the current release is best
/// effort; a failed health check leaves the `current` link untouched.
pub fn rollback_next(s: RollbackState, e: PipelineEvent, retries: u32) -> (r: RollbackState)
    ensures
        r == rb_next_spec(s, e, retries),
{
    match s {
        RollbackState::CheckTarget => match e {
            PipelineEvent::Done => RollbackState::StopCurrent,
            PipelineEvent::Error => RollbackState::Failed(RollbackError::ReleaseNotFound),
            _ => s,
        },
        RollbackState::StopCurrent => match e {
            PipelineEvent::Health(_) => s,
            _ => RollbackState::StartTarget,
        },
        RollbackState::StartTarget => match e {
            PipelineEvent::Done => rb_after_health_exec(start(retries)),
            PipelineEvent::Error => RollbackState::Failed(RollbackError::StartFailed),
            _ => s,
        },
        RollbackState::Checking(h) => {
            let rep = match e {
                PipelineEvent::Health(r) => r,
                _ => HealthReport::Other,
            };
            rb_after_health_exec(step(h, rep, retries))
        },
        RollbackState::SwapSymlink => match e {
            PipelineEvent::Done => RollbackState::WriteLock,
            PipelineEvent::Error => RollbackState::Failed(RollbackError::SymlinkFailed),
            _ => s,
        },
        RollbackState::WriteLock => match e {
            PipelineEvent::Done => RollbackState::Done,
            PipelineEvent::Error => RollbackState::Failed(RollbackError::LockWriteFailed),
            _ => s,
        },
        _ => s,
    }
}

/// The action that the state asks for.
pub fn rollback_action(s: RollbackState) -> (a: RollbackAction)
    ensures
        a == rb_action_spec(s),
{
    match s {
        RollbackState::CheckTarget => RollbackAction::CheckTargetExists,
        RollbackState::StopCurrent => RollbackAction::StopCurrent,
        RollbackState::StartTarget => RollbackAction::StartTarget,
        RollbackState::Checking(h) => match h {
            HealthState::Sleeping { .. } => RollbackAction::WaitInterval,
            _ => RollbackAction::PollHealth,
        },
        RollbackState::SwapSymlink => RollbackAction::SwapSymlink,
        RollbackState::WriteLock => RollbackAction::WriteLock,
        _ => RollbackAction::Finish,
    }
}

/// The state after `events`, from the start of a rollback.
pub open spec fn run_rollback(events: Seq<PipelineEvent>, retries: u32) -> RollbackState
    decreases events.len(),
{
    if events.len() == 0 {
        RollbackState::CheckTarget
    } else {
        rb_next_spec(run_rollback(events.drop_last(), retries), events.last(), retries)
    }
}

/// A rollback whose target directory is missing fails at once: from then
/// on it stays failed with `ReleaseNotFound`, so the current release is
/// never stopped and nothing else is done.
pub proof fn lemma_missing_target_stops_nothing(events: Seq<PipelineEvent>, retries: u32)
    requires
        events.len() >= 1,
        events[0] == PipelineEvent::Error,
    ensures
        rb_action_spec(RollbackState::CheckTarget) == RollbackAction::CheckTargetExists,
        run_rollback(events, retries) == RollbackState::Failed(RollbackError::ReleaseNotFound),
        rb_action_spec(run_rollback(events, retries)) == RollbackAction::Finish,
    decreases events.len(),
{
    if events.len() == 1 {
        assert(events.drop_last().len() == 0);
    } else {
        assert(events.drop_last()[0] == events[0]);
        lemma_missing_target_stops_nothing(events.drop_last(), retries);
    }
}

} // verus!
