use shipit::health::HealthReport;
use shipit::lock::ShipitLock;
use shipit::pipeline::PipelineEvent;
use shipit::rollback::{resolve_target, rollback_action, rollback_next, RollbackAction, RollbackError, RollbackState};

fn lock(prev: Option<&str>) -> ShipitLock {
    ShipitLock::new_at("cur".to_string(), prev.map(|p| p.to_string()), "sha".to_string(), "t".to_string(), None)
}

#[test]
fn rollback_without_previous_release_fails() {
    let r = resolve_target(&Some(lock(None)), &None);
    assert_eq!(r, Err(RollbackError::NoPreviousRelease));
    assert_eq!(RollbackError::NoPreviousRelease.message(), "No previous release found to rollback to");
}

#[test]
fn rollback_target_resolution() {
    assert_eq!(resolve_target(&Some(lock(Some("prev"))), &None), Ok("prev".to_string()));
    assert_eq!(resolve_target(&Some(lock(None)), &Some("x".to_string())), Ok("x".to_string()));
    assert_eq!(resolve_target(&None, &Some("x".to_string())), Err(RollbackError::NoLock));
}

#[test]
fn rollback_to_missing_release_fails_before_stopping_current() {
    let s = RollbackState::CheckTarget;
    assert_eq!(rollback_action(s), RollbackAction::CheckTargetExists);
    let s = rollback_next(s, PipelineEvent::Error, 15);
    assert_eq!(s, RollbackState::Failed(RollbackError::ReleaseNotFound));
    assert_eq!(rollback_action(s), RollbackAction::Finish);
    assert_eq!(rollback_next(s, PipelineEvent::Done, 15), s);
}

#[test]
fn rollback_happy_path_order() {
    let mut s = RollbackState::CheckTarget;
    let mut actions = Vec::new();
    loop {
        let a = rollback_action(s);
        actions.push(a);
        if a == RollbackAction::Finish {
            break;
        }
        let e = match a {
            RollbackAction::PollHealth => PipelineEvent::Health(HealthReport::Healthy),
            _ => PipelineEvent::Done,
        };
        s = rollback_next(s, e, 15);
    }
    assert_eq!(s, RollbackState::Done);
    assert_eq!(
        actions,
        vec![
            RollbackAction::CheckTargetExists,
            RollbackAction::StopCurrent,
            RollbackAction::StartTarget,
            RollbackAction::PollHealth,
            RollbackAction::SwapSymlink,
            RollbackAction::WriteLock,
            RollbackAction::Finish,
        ]
    );
}

#[test]
fn rollback_unhealthy_target_leaves_symlink() {
    let s = rollback_next(RollbackState::StartTarget, PipelineEvent::Done, 15);
    let s = rollback_next(s, PipelineEvent::Health(HealthReport::Unhealthy), 15);
    assert_eq!(s, RollbackState::Failed(RollbackError::HealthCheckFailed));
}

#[test]
fn stopping_current_is_best_effort() {
    assert_eq!(rollback_next(RollbackState::StopCurrent, PipelineEvent::Error, 15), RollbackState::StartTarget);
}

#[test]
fn rollback_step_failures() {
    assert_eq!(
        rollback_next(RollbackState::StartTarget, PipelineEvent::Error, 15),
        RollbackState::Failed(RollbackError::StartFailed)
    );
    assert_eq!(
        rollback_next(RollbackState::SwapSymlink, PipelineEvent::Error, 15),
        RollbackState::Failed(RollbackError::SymlinkFailed)
    );
    assert_eq!(
        rollback_next(RollbackState::WriteLock, PipelineEvent::Error, 15),
        RollbackState::Failed(RollbackError::LockWriteFailed)
    );
    assert_eq!(
        rollback_next(RollbackState::StartTarget, PipelineEvent::Done, 0),
        RollbackState::Failed(RollbackError::HealthCheckFailed)
    );
}
