use shipit::health::HealthReport;
use shipit::pipeline::{
    action, begin, is_finished, next, DeployFailure, DeployStep, PipelineAction, PipelineEvent,
    PipelineState,
};

/// Runs the pipeline, answering each step with `Done` and each health poll
/// from `reports`; returns the actions taken and the final state.
fn drive(reports: &[HealthReport], fail_at: Option<DeployStep>, retries: u32) -> (Vec<PipelineAction>, PipelineState) {
    let mut s = begin(&None, "n");
    let mut actions = Vec::new();
    let mut polls = 0;
    while !is_finished(s) {
        let a = action(s);
        actions.push(a);
        let e = match a {
            PipelineAction::Run(st) if Some(st) == fail_at => PipelineEvent::Error,
            PipelineAction::Run(_) => PipelineEvent::Done,
            PipelineAction::WaitInterval => PipelineEvent::Done,
            PipelineAction::PollHealth => {
                let r = reports.get(polls).copied().unwrap_or(HealthReport::Other);
                polls += 1;
                PipelineEvent::Health(r)
            }
            PipelineAction::StopNewRelease => PipelineEvent::Done,
            PipelineAction::Finish => break,
        };
        s = next(s, e, retries);
    }
    actions.push(action(s));
    (actions, s)
}

#[test]
fn healthy_after_three_starting_reaches_cutover() {
    let reports = [HealthReport::Other, HealthReport::Other, HealthReport::Other, HealthReport::Healthy];
    let (actions, end) = drive(&reports, None, 15);
    assert_eq!(end, PipelineState::Succeeded);
    let polls = actions.iter().filter(|a| matches!(a, PipelineAction::PollHealth)).count();
    assert_eq!(polls, 4);
    let waits = actions.iter().filter(|a| matches!(a, PipelineAction::WaitInterval)).count();
    assert_eq!(waits, 3);
    let pos = |x: PipelineAction| actions.iter().position(|a| *a == x).unwrap();
    assert!(pos(PipelineAction::Run(DeployStep::StopPrevious)) > pos(PipelineAction::Run(DeployStep::StartNew)));
    assert!(pos(PipelineAction::Run(DeployStep::UpdateSymlink)) > pos(PipelineAction::Run(DeployStep::StopPrevious)));
    assert!(pos(PipelineAction::Run(DeployStep::UpdateLock)) > pos(PipelineAction::Run(DeployStep::UpdateSymlink)));
}

#[test]
fn unhealthy_first_poll_stops_only_the_new_release() {
    let (actions, end) = drive(&[HealthReport::Unhealthy], None, 15);
    assert_eq!(end, PipelineState::Failed(DeployFailure::Unhealthy));
    assert!(actions.contains(&PipelineAction::StopNewRelease));
    assert!(!actions.contains(&PipelineAction::Run(DeployStep::StopPrevious)));
    assert!(!actions.contains(&PipelineAction::Run(DeployStep::UpdateSymlink)));
    assert!(!actions.contains(&PipelineAction::Run(DeployStep::UpdateLock)));
}

#[test]
fn timeout_compensates_like_unhealthy() {
    let (actions, end) = drive(&[], None, 2);
    assert_eq!(end, PipelineState::Failed(DeployFailure::TimedOut));
    assert_eq!(actions.iter().filter(|a| matches!(a, PipelineAction::PollHealth)).count(), 2);
    assert_eq!(actions.iter().filter(|a| matches!(a, PipelineAction::WaitInterval)).count(), 2);
    assert!(actions.contains(&PipelineAction::StopNewRelease));
    assert!(!actions.contains(&PipelineAction::Run(DeployStep::StopPrevious)));
}

#[test]
fn fatal_step_fails_without_compensation() {
    let (actions, end) = drive(&[HealthReport::Healthy], Some(DeployStep::BuildImages), 15);
    assert_eq!(end, PipelineState::Failed(DeployFailure::Step(DeployStep::BuildImages)));
    assert!(!actions.contains(&PipelineAction::Run(DeployStep::StartNew)));
    assert!(!actions.contains(&PipelineAction::StopNewRelease));
}

#[test]
fn cleanup_and_stop_previous_failures_are_best_effort() {
    let (_, end) = drive(&[HealthReport::Healthy], Some(DeployStep::Cleanup), 15);
    assert_eq!(end, PipelineState::Succeeded);
    let (_, end) = drive(&[HealthReport::Healthy], Some(DeployStep::StopPrevious), 15);
    assert_eq!(end, PipelineState::Succeeded);
}

#[test]
fn steps_are_numbered_one_to_twelve() {
    assert_eq!(DeployStep::CreateReleaseDir.number(), 1);
    assert_eq!(DeployStep::HealthCheck.number(), 8);
    assert_eq!(DeployStep::Cleanup.number(), 12);
    assert_eq!(DeployStep::UpdateSymlink.title(), "Updating current symlink");
}

#[test]
fn some_release_runs_after_every_attempt() {
    // The previous release "p" runs; "n" is the new one.
    for fail_at in [None, Some(DeployStep::StartNew), Some(DeployStep::UpdateLock)] {
        for reports in [vec![HealthReport::Healthy], vec![HealthReport::Unhealthy], vec![]] {
            let mut running = vec!["p"];
            let mut s = begin(&Some("p".to_string()), "n");
            let mut polls = 0;
            while !is_finished(s) {
                let a = action(s);
                let e = match a {
                    PipelineAction::Run(st) if Some(st) == fail_at => PipelineEvent::Error,
                    PipelineAction::WaitInterval => PipelineEvent::Done,
            PipelineAction::PollHealth => {
                        let r = reports.get(polls).copied().unwrap_or(HealthReport::Other);
                        polls += 1;
                        PipelineEvent::Health(r)
                    }
                    _ => PipelineEvent::Done,
                };
                match a {
                    PipelineAction::Run(DeployStep::StartNew) if e == PipelineEvent::Done => running.push("n"),
                    PipelineAction::Run(DeployStep::StopPrevious) => running.retain(|r| *r != "p"),
                    PipelineAction::StopNewRelease => running.retain(|r| *r != "n"),
                    _ => {}
                }
                s = next(s, e, 3);
                assert!(!running.is_empty());
            }
        }
    }
}

#[test]
fn deploying_the_current_release_again_is_refused() {
    let s = begin(&Some("20250101-000000".to_string()), "20250101-000000");
    assert_eq!(s, PipelineState::Failed(DeployFailure::ReleaseExists));
    assert_eq!(action(s), PipelineAction::Finish);
    assert_eq!(begin(&Some("a".to_string()), "b"), PipelineState::Running(DeployStep::CreateReleaseDir));
}
