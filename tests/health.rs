use shipit::health::{classify_status, run_checks, start, step, HealthReport, HealthState};

fn texts(v: &[&str]) -> Vec<String> {
    v.iter().map(|s| s.to_string()).collect()
}

#[test]
fn healthy_on_fourth_poll_after_three_starting() {
    let statuses = texts(&["starting", "starting", "starting", "healthy", "healthy"]);
    let run = run_checks(&statuses, 15);
    assert_eq!(run.state, HealthState::Healthy);
    assert_eq!(run.polls, 4);
    assert_eq!(run.sleeps, 3);
}

#[test]
fn unhealthy_first_poll_stops_at_once() {
    let statuses = texts(&["unhealthy", "healthy"]);
    let run = run_checks(&statuses, 15);
    assert_eq!(run.state, HealthState::Unhealthy);
    assert_eq!(run.polls, 1);
    assert_eq!(run.sleeps, 0);
}

#[test]
fn times_out_after_retries() {
    let statuses = texts(&["starting", "", "starting", "starting"]);
    let run = run_checks(&statuses, 3);
    assert_eq!(run.state, HealthState::TimedOut);
    assert_eq!(run.polls, 3);
    assert_eq!(run.sleeps, 3);
}

#[test]
fn timeout_sleeps_after_the_last_poll() {
    let run = run_checks(&texts(&["starting"]), 1);
    assert_eq!(run.state, HealthState::TimedOut);
    assert_eq!((run.polls, run.sleeps), (1, 1));
}

#[test]
fn statuses_running_out_stop_before_the_next_poll() {
    let run = run_checks(&texts(&["starting"]), 5);
    assert_eq!(run.state, HealthState::Polling { polls: 1 });
    assert_eq!((run.polls, run.sleeps), (1, 1));
}

#[test]
fn zero_retries_times_out_without_polling() {
    assert_eq!(start(0), HealthState::TimedOut);
    let run = run_checks(&texts(&["healthy"]), 0);
    assert_eq!(run.state, HealthState::TimedOut);
    assert_eq!(run.polls, 0);
}

#[test]
fn status_text_is_trimmed() {
    assert_eq!(classify_status("healthy\n"), HealthReport::Healthy);
    assert_eq!(classify_status("  unhealthy "), HealthReport::Unhealthy);
    assert_eq!(classify_status("starting"), HealthReport::Other);
    assert_eq!(classify_status(""), HealthReport::Other);
    assert_eq!(classify_status("Healthy"), HealthReport::Other);
}

#[test]
fn terminal_states_absorb() {
    assert_eq!(step(HealthState::Healthy, HealthReport::Unhealthy, 5), HealthState::Healthy);
    assert_eq!(
        step(HealthState::Polling { polls: 0 }, HealthReport::Other, 5),
        HealthState::Sleeping { polls: 1 }
    );
    assert_eq!(
        step(HealthState::Sleeping { polls: 1 }, HealthReport::Other, 5),
        HealthState::Polling { polls: 1 }
    );
    assert_eq!(step(HealthState::Polling { polls: 4 }, HealthReport::Other, 5), HealthState::Sleeping { polls: 5 });
    assert_eq!(step(HealthState::Sleeping { polls: 5 }, HealthReport::Other, 5), HealthState::TimedOut);
}
