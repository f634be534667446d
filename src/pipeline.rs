//! The per-host deploy pipeline as a state machine: the caller performs each
//! action on the host and hands back what happened.

use vstd::prelude::*;
use crate::health::{classify, start, start_spec, step, step_spec, HealthReport, HealthState};

verus! {

/// The number of steps of the deploy pipeline.
pub const TOTAL_STEPS: u32 = 12;

/// The steps of the deploy pipeline, in order.
#[derive(Clone, Copy, Debug, PartialEq, Eq, Structural)]
pub enum DeployStep {
    CreateReleaseDir,
    PushCode,
    CheckoutCode,
    GenerateOverride,
    LinkSharedEnv,
    BuildImages,
    StartNew,
    HealthCheck,
    StopPrevious,
    UpdateSymlink,
    UpdateLock,
    Cleanup,
}

impl DeployStep {
    /// Position in the pipeline, from 1.
    pub open spec fn position(self) -> nat {
        match self {
            DeployStep::CreateReleaseDir => 1,
            DeployStep::PushCode => 2,
            DeployStep::CheckoutCode => 3,
            DeployStep::GenerateOverride => 4,
            DeployStep::LinkSharedEnv => 5,
            DeployStep::BuildImages => 6,
            DeployStep::StartNew => 7,
            DeployStep::HealthCheck => 8,
            DeployStep::StopPrevious => 9,
            DeployStep::UpdateSymlink => 10,
            DeployStep::UpdateLock => 11,
            DeployStep::Cleanup => 12,
        }
    }

    /// The step's position in the pipeline, from 1 to `TOTAL_STEPS`.
    pub fn number(&self) -> (n: u32)
        ensures
            n as nat == self.position(),
            1 <= n <= TOTAL_STEPS,
    {
        match self {
            DeployStep::CreateReleaseDir => 1,
            DeployStep::PushCode => 2,
            DeployStep::CheckoutCode => 3,
            DeployStep::GenerateOverride => 4,
            DeployStep::LinkSharedEnv => 5,
            DeployStep::BuildImages => 6,
            DeployStep::StartNew => 7,
            DeployStep::HealthCheck => 8,
            DeployStep::StopPrevious => 9,
            DeployStep::UpdateSymlink => 10,
            DeployStep::UpdateLock => 11,
            DeployStep::Cleanup => 12,
        }
    }

    /// What the step does, for progress reports.
    pub fn title(&self) -> (r: &'static str)
        ensures
            r@ == match self {
                DeployStep::CreateReleaseDir => "Creating release directory"@,
                DeployStep::PushCode => "Pushing code to remote"@,
                DeployStep::CheckoutCode => "Checking out code"@,
                DeployStep::GenerateOverride => "Generating docker-compose.override.yml"@,
                DeployStep::LinkSharedEnv => "Linking shared .env"@,
                DeployStep::BuildImages => "Building Docker images"@,
                DeployStep::StartNew => "Starting new release"@,
                DeployStep::HealthCheck => "Running health check"@,
                DeployStep::StopPrevious => "Stopping previous release"@,
                DeployStep::UpdateSymlink => "Updating current symlink"@,
                DeployStep::UpdateLock => "Updating shipit.lock"@,
                DeployStep::Cleanup => "Cleaning up old releases"@,
            },
    {
        match self {
            DeployStep::CreateReleaseDir => "Creating release directory",
            DeployStep::PushCode => "Pushing code to remote",
            DeployStep::CheckoutCode => "Checking out code",
            DeployStep::GenerateOverride => "Generating docker-compose.override.yml",
            DeployStep::LinkSharedEnv => "Linking shared .env",
            DeployStep::BuildImages => "Building Docker images",
            DeployStep::StartNew => "Starting new release",
            DeployStep::HealthCheck => "Running health check",
            DeployStep::StopPrevious => "Stopping previous release",
            DeployStep::UpdateSymlink => "Updating current symlink",
            DeployStep::UpdateLock => "Updating shipit.lock",
            DeployStep::Cleanup => "Cleaning up old releases",
        }
    }

    /// Whether a failure of the step is only reported and the deploy goes
    /// on.
    pub open spec fn is_best_effort(self) -> bool {
        self is StopPrevious || self is Cleanup
    }
}

/// Why a host's deploy failed.
#[derive(Clone, Copy, Debug, PartialEq, Eq, Structural)]
pub enum DeployFailure {
    /// A fatal step failed.
    Step(DeployStep),
    /// The new release reported unhealthy.
    Unhealthy,
    /// The new release did not become healthy within the retries.
    TimedOut,
    /// The release name is already the host's current release: deploying
    /// it would stop and replace the live release in place.
    ReleaseExists,
}

/// Where a host's deploy stands.
#[derive(Clone, Copy, Debug, PartialEq, Eq, Structural)]
pub enum PipelineState {
    /// The step is to be run.
    Running(DeployStep),
    /// The new release is being health-checked.
    Checking(HealthState),
    /// The health check failed: the new release is to be stopped.
    Compensating(DeployFailure),
    Succeeded,
    Failed(DeployFailure),
}

/// What happened when the last action was performed.
#[derive(Clone, Copy, Debug, PartialEq, Eq, Structural)]
pub enum PipelineEvent {
    Done,
    Error,
    Health(HealthReport),
}

/// What the caller is to do next on the host.
#[derive(Clone, Copy, Debug, PartialEq, Eq, Structural)]
pub enum PipelineAction {
    Run(DeployStep),
    /// Query the health status.
    PollHealth,
    /// Sleep one health-check interval.
    WaitInterval,
    /// Stop the new release's containers (compensation).
    StopNewRelease,
    Finish,
}

/// The state in which every host's deploy starts.
pub open spec fn initial_spec() -> PipelineState {
    PipelineState::Running(DeployStep::CreateReleaseDir)
}

pub fn initial() -> (s: PipelineState)
    ensures
        s == initial_spec(),
{
    PipelineState::Running(DeployStep::CreateReleaseDir)
}

/// Where a host's deploy of release `new` starts, given the host's current
/// release: refused when `new` is already current.
pub open spec fn begin_spec(current: Option<Seq<char>>, new: Seq<char>) -> PipelineState {
    if current == Some(new) {
        PipelineState::Failed(DeployFailure::ReleaseExists)
    } else {
        initial_spec()
    }
}

/// Where a host's deploy of `release` starts, given the host's current
/// release (from its lock record): refused when it is the same release.
pub fn begin(current: &Option<String>, release: &str) -> (s: PipelineState)
    ensures
        s == begin_spec(crate::lock::opt_view(*current), release@),
{
    match current {
        Some(c) => if crate::text::str_eq(c.as_str(), release) {
            PipelineState::Failed(DeployFailure::ReleaseExists)
        } else {
            initial()
        },
        None => initial(),
    }
}

pub open spec fn after_step(s: DeployStep) -> PipelineState {
    match s {
        DeployStep::CreateReleaseDir => PipelineState::Running(DeployStep::PushCode),
        DeployStep::PushCode => PipelineState::Running(DeployStep::CheckoutCode),
        DeployStep::CheckoutCode => PipelineState::Running(DeployStep::GenerateOverride),
        DeployStep::GenerateOverride => PipelineState::Running(DeployStep::LinkSharedEnv),
        DeployStep::LinkSharedEnv => PipelineState::Running(DeployStep::BuildImages),
        DeployStep::BuildImages => PipelineState::Running(DeployStep::StartNew),
        DeployStep::StartNew => PipelineState::Running(DeployStep::HealthCheck),
        DeployStep::HealthCheck => PipelineState::Running(DeployStep::StopPrevious),
        DeployStep::StopPrevious => PipelineState::Running(DeployStep::UpdateSymlink),
        DeployStep::UpdateSymlink => PipelineState::Running(DeployStep::UpdateLock),
        DeployStep::UpdateLock => PipelineState::Running(DeployStep::Cleanup),
        DeployStep::Cleanup => PipelineState::Succeeded,
    }
}

/// The state after the health checker moved to `h`.
pub open spec fn after_health(h: HealthState) -> PipelineState {
    match h {
        HealthState::Healthy => PipelineState::Running(DeployStep::StopPrevious),
        HealthState::Unhealthy => PipelineState::Compensating(DeployFailure::Unhealthy),
        HealthState::TimedOut => PipelineState::Compensating(DeployFailure::TimedOut),
        _ => PipelineState::Checking(h),
    }
}

pub open spec fn report_of(e: PipelineEvent) -> HealthReport {
    match e {
        PipelineEvent::Health(r) => r,
        _ => HealthReport::Other,
    }
}

/// One transition of a host's deploy.
pub open spec fn next_spec(s: PipelineState, e: PipelineEvent, retries: u32) -> PipelineState {
    match s {
        PipelineState::Running(st) => match e {
            PipelineEvent::Done => if st is StartNew || st is HealthCheck {
                after_health(start_spec(retries))
            } else {
                after_step(st)
            },
            PipelineEvent::Error => if st.is_best_effort() {
                after_step(st)
            } else {
                PipelineState::Failed(DeployFailure::Step(st))
            },
            PipelineEvent::Health(_) => s,
        },
        PipelineState::Checking(h) => after_health(step_spec(h, report_of(e), retries)),
        PipelineState::Compensating(f) => PipelineState::Failed(f),
        _ => s,
    }
}

pub open spec fn action_spec(s: PipelineState) -> PipelineAction {
    match s {
        PipelineState::Running(st) => PipelineAction::Run(st),
        PipelineState::Checking(h) => if h is Sleeping {
            PipelineAction::WaitInterval
        } else {
            PipelineAction::PollHealth
        },
        PipelineState::Compensating(_) => PipelineAction::StopNewRelease,
        _ => PipelineAction::Finish,
    }
}

fn after_step_exec(s: DeployStep) -> (r: PipelineState)
    ensures
        r == after_step(s),
{
    match s {
        DeployStep::CreateReleaseDir => PipelineState::Running(DeployStep::PushCode),
        DeployStep::PushCode => PipelineState::Running(DeployStep::CheckoutCode),
        DeployStep::CheckoutCode => PipelineState::Running(DeployStep::GenerateOverride),
        DeployStep::GenerateOverride => PipelineState::Running(DeployStep::LinkSharedEnv),
        DeployStep::LinkSharedEnv => PipelineState::Running(DeployStep::BuildImages),
        DeployStep::BuildImages => PipelineState::Running(DeployStep::StartNew),
        DeployStep::StartNew => PipelineState::Running(DeployStep::HealthCheck),
        DeployStep::HealthCheck => PipelineState::Running(DeployStep::StopPrevious),
        DeployStep::StopPrevious => PipelineState::Running(DeployStep::UpdateSymlink),
        DeployStep::UpdateSymlink => PipelineState::Running(DeployStep::UpdateLock),
        DeployStep::UpdateLock => PipelineState::Running(DeployStep::Cleanup),
        DeployStep::Cleanup => PipelineState::Succeeded,
    }
}

fn after_health_exec(h: HealthState) -> (r: PipelineState)
    ensures
        r == after_health(h),
{
    match h {
        HealthState::Healthy => PipelineState::Running(DeployStep::StopPrevious),
        HealthState::Unhealthy => PipelineState::Compensating(DeployFailure::Unhealthy),
        HealthState::TimedOut => PipelineState::Compensating(DeployFailure::TimedOut),
        _ => PipelineState::Checking(h),
    }
}

/// Moves a host's deploy on by what the last action gave. A failed fatal
/// step fails the host with the previous release untouched; a failed health
/// check first stops the new release; failures of stopping the previous
/// release and of cleanup are only reported.
pub fn next(s: PipelineState, e: PipelineEvent, retries: u32) -> (r: PipelineState)
    ensures
        r == next_spec(s, e, retries),
{
    match s {
        PipelineState::Running(st) => match e {
            PipelineEvent::Done => {
                if matches!(st, DeployStep::StartNew | DeployStep::HealthCheck) {
                    after_health_exec(start(retries))
                } else {
                    after_step_exec(st)
                }
            },
            PipelineEvent::Error => {
                if matches!(st, DeployStep::StopPrevious | DeployStep::Cleanup) {
                    after_step_exec(st)
                } else {
                    PipelineState::Failed(DeployFailure::Step(st))
                }
            },
            PipelineEvent::Health(_) => s,
        },
        PipelineState::Checking(h) => {
            let rep = match e {
                PipelineEvent::Health(r) => r,
                _ => HealthReport::Other,
            };
            after_health_exec(step(h, rep, retries))
        },
        PipelineState::Compensating(f) => PipelineState::Failed(f),
        _ => s,
    }
}

/// The action that the state asks for.
pub fn action(s: PipelineState) -> (a: PipelineAction)
    ensures
        a == action_spec(s),
{
    match s {
        PipelineState::Running(st) => PipelineAction::Run(st),
        PipelineState::Checking(h) => match h {
            HealthState::Sleeping { .. } => PipelineAction::WaitInterval,
            _ => PipelineAction::PollHealth,
        },
        PipelineState::Compensating(_) => PipelineAction::StopNewRelease,
        _ => PipelineAction::Finish,
    }
}

/// Whether the host's deploy is over.
pub fn is_finished(s: PipelineState) -> (r: bool)
    ensures
        r == (s is Succeeded || s is Failed),
{
    matches!(s, PipelineState::Succeeded | PipelineState::Failed(_))
}

/// The event for a health status text.
pub fn health_event(raw: &str) -> (e: PipelineEvent)
    ensures
        e == PipelineEvent::Health(classify(raw@)),
{
    PipelineEvent::Health(crate::health::classify_status(raw))
}

// ---------------------------------------------------------------------------
// What runs on the host
// ---------------------------------------------------------------------------

/// The releases whose containers run after `a` was performed with outcome
/// `e`: starting adds the new release (when it succeeded), stopping the
/// previous or the new release takes it away whatever the outcome, and
/// cleanup takes away the releases that retention removes.
pub open spec fn host_effect(
    running: Set<Seq<char>>,
    a: PipelineAction,
    e: PipelineEvent,
    prev: Option<Seq<char>>,
    new: Seq<char>,
    removed: Set<Seq<char>>,
) -> Set<Seq<char>> {
    match a {
        PipelineAction::Run(DeployStep::StartNew) => if e is Done {
            running.insert(new)
        } else {
            running
        },
        PipelineAction::Run(DeployStep::StopPrevious) => match prev {
            Some(p) => running.remove(p),
            None => running,
        },
        PipelineAction::Run(DeployStep::Cleanup) => running.difference(removed),
        PipelineAction::StopNewRelease => running.remove(new),
        _ => running,
    }
}

/// The releases running before the deploy: the current one, if any.
pub open spec fn running_before(prev: Option<Seq<char>>) -> Set<Seq<char>> {
    match prev {
        Some(p) => set![p],
        None => Set::empty(),
    }
}

/// The pipeline state and the running releases after `events`, for a host
/// whose current (running) release is `prev`.
pub open spec fn run_host(
    events: Seq<PipelineEvent>,
    retries: u32,
    prev: Option<Seq<char>>,
    new: Seq<char>,
    removed: Set<Seq<char>>,
) -> (PipelineState, Set<Seq<char>>)
    decreases events.len(),
{
    if events.len() == 0 {
        (begin_spec(prev, new), running_before(prev))
    } else {
        let p = run_host(events.drop_last(), retries, prev, new, removed);
        let e = events.last();
        (next_spec(p.0, e, retries), host_effect(p.1, action_spec(p.0), e, prev, new, removed))
    }
}

pub open spec fn before_cutover(st: DeployStep) -> bool {
    st.position() <= 7
}

/// The previous release, if there is one, runs.
pub open spec fn prev_runs(running: Set<Seq<char>>, prev: Option<Seq<char>>) -> bool {
    match prev {
        Some(p) => running.contains(p),
        None => true,
    }
}

/// Which release is sure to run in each state.
pub open spec fn serving_inv(
    s: PipelineState,
    running: Set<Seq<char>>,
    prev: Option<Seq<char>>,
    new: Seq<char>,
) -> bool {
    if s == PipelineState::Failed(DeployFailure::ReleaseExists) {
        prev_runs(running, prev)
    } else {
        &&& prev != Some(new)
        &&& match s {
            PipelineState::Running(st) => if st is HealthCheck {
                false
            } else if before_cutover(st) {
                prev_runs(running, prev)
            } else {
                running.contains(new)
            },
            PipelineState::Checking(_) => prev_runs(running, prev) && running.contains(new),
            PipelineState::Compensating(f) => !(f is Step) && !(f is ReleaseExists) && prev_runs(running, prev),
            PipelineState::Succeeded => running.contains(new),
            PipelineState::Failed(f) => match f {
                DeployFailure::Step(st) => if before_cutover(st) {
                    prev_runs(running, prev)
                } else {
                    running.contains(new)
                },
                _ => prev_runs(running, prev),
            },
        }
    }
}

proof fn lemma_serving_step(
    s: PipelineState,
    running: Set<Seq<char>>,
    e: PipelineEvent,
    retries: u32,
    prev: Option<Seq<char>>,
    new: Seq<char>,
    removed: Set<Seq<char>>,
)
    requires
        serving_inv(s, running, prev, new),
        !removed.contains(new),
    ensures
        serving_inv(
            next_spec(s, e, retries),
            host_effect(running, action_spec(s), e, prev, new, removed),
            prev,
            new,
        ),
{
    let r2 = host_effect(running, action_spec(s), e, prev, new, removed);
    if s == PipelineState::Failed(DeployFailure::ReleaseExists) {
        assert(r2 == running);
    } else {
        match s {
            PipelineState::Running(st) => {
                if st is StartNew && e is Done {
                    assert(r2 == running.insert(new));
                } else if st is StopPrevious {
                    if let Some(p) = prev {
                        assert(r2 == running.remove(p));
                    }
                } else if st is Cleanup {
                    assert(r2 == running.difference(removed));
                }
            },
            PipelineState::Compensating(f) => {
                assert(r2 == running.remove(new));
            },
            _ => {},
        }
    }
}

proof fn lemma_serving_run(
    events: Seq<PipelineEvent>,
    retries: u32,
    prev: Option<Seq<char>>,
    new: Seq<char>,
    removed: Set<Seq<char>>,
)
    requires
        !removed.contains(new),
    ensures
        serving_inv(
            run_host(events, retries, prev, new, removed).0,
            run_host(events, retries, prev, new, removed).1,
            prev,
            new,
        ),
    decreases events.len(),
{
    if events.len() > 0 {
        lemma_serving_run(events.drop_last(), retries, prev, new, removed);
        let p = run_host(events.drop_last(), retries, prev, new, removed);
        lemma_serving_step(p.0, p.1, events.last(), retries, prev, new, removed);
    }
}

/// The releases whose containers cleanup stops: the views of what
/// retention removes.
pub open spec fn removed_set(removed: Seq<String>) -> Set<Seq<char>> {
    Set::new(|x: Seq<char>| exists|i: int| 0 <= i < removed.len() && #[trigger] removed[i]@ == x)
}

/// Whatever the steps report, a host that had a release running still has
/// one: before the cutover the previous release, after it the new one.
/// Cleanup removes what the retention policy selects from the host's
/// listing `names` with `new` as the current release. A deploy that fails
/// before the cutover, or is refused because `new` is already current,
/// leaves the previous release running.
pub proof fn lemma_some_release_running(
    events: Seq<PipelineEvent>,
    retries: u32,
    prev: Option<Seq<char>>,
    new: Seq<char>,
    names: Seq<String>,
    keep: nat,
    removed: Seq<String>,
)
    requires
        crate::retention::is_removal(names, keep, new, removed),
    ensures
        ({
            let p = run_host(events, retries, prev, new, removed_set(removed));
            &&& prev is Some ==> !p.1.is_empty()
            &&& (p.0 matches PipelineState::Failed(f) && !(f matches DeployFailure::Step(st)
                && !before_cutover(st))) ==> prev_runs(p.1, prev)
        }),
{
    crate::retention::lemma_retention_law(names, keep, new, removed);
    assert(!removed_set(removed).contains(new));
    lemma_serving_run(events, retries, prev, new, removed_set(removed));
    let p = run_host(events, retries, prev, new, removed_set(removed));
    if let Some(x) = prev {
        if p.1.contains(x) {
            assert(!p.1.is_empty());
        } else {
            assert(p.1.contains(new));
            assert(!p.1.is_empty());
        }
    }
}

/// A health check that fails stops only the new release: from the checking
/// state, an `unhealthy` report leads to stopping the new release and then
/// to failure, and the previous release is never stopped on the way.
pub proof fn lemma_unhealthy_compensates(h: HealthState, retries: u32)
    requires
        h is Polling,
    ensures
        next_spec(PipelineState::Checking(h), PipelineEvent::Health(HealthReport::Unhealthy), retries)
            == PipelineState::Compensating(DeployFailure::Unhealthy),
        action_spec(PipelineState::Compensating(DeployFailure::Unhealthy))
            == PipelineAction::StopNewRelease,
        forall|e: PipelineEvent|
            next_spec(PipelineState::Compensating(DeployFailure::Unhealthy), e, retries)
                == PipelineState::Failed(DeployFailure::Unhealthy),
        action_spec(PipelineState::Failed(DeployFailure::Unhealthy)) == PipelineAction::Finish,
{
}

/// Whether the run has got as far as stopping the previous release.
pub open spec fn reached_cutover(s: PipelineState) -> bool {
    match s {
        PipelineState::Running(st) => st.position() >= 9,
        PipelineState::Succeeded => true,
        PipelineState::Failed(DeployFailure::Step(st)) => st.position() >= 9,
        _ => false,
    }
}

proof fn lemma_cutover_stays(s: PipelineState, e: PipelineEvent, retries: u32)
    requires
        reached_cutover(s),
    ensures
        reached_cutover(next_spec(s, e, retries)),
{
}

/// The pipeline state after the first `k` events.
pub open spec fn state_after(events: Seq<PipelineEvent>, retries: u32, k: int) -> PipelineState
    decreases k,
{
    if k <= 0 {
        initial_spec()
    } else {
        next_spec(state_after(events, retries, k - 1), events[k - 1], retries)
    }
}

proof fn lemma_cutover_persists(events: Seq<PipelineEvent>, retries: u32, k: int, n: int)
    requires
        0 <= k <= n,
        reached_cutover(state_after(events, retries, k)),
    ensures
        reached_cutover(state_after(events, retries, n)),
    decreases n - k,
{
    if k < n {
        lemma_cutover_persists(events, retries, k, n - 1);
        lemma_cutover_stays(state_after(events, retries, n - 1), events[n - 1], retries);
    }
}

/// A deploy that ends in a failed health check never got as far as
/// stopping the previous release: no state on the way asked to stop it, to
/// repoint the `current` link or to write the lock.
pub proof fn lemma_failed_health_check_touches_nothing(events: Seq<PipelineEvent>, retries: u32)
    requires
        state_after(events, retries, events.len() as int) == PipelineState::Failed(DeployFailure::Unhealthy)
            || state_after(events, retries, events.len() as int) == PipelineState::Failed(DeployFailure::TimedOut),
    ensures
        forall|k: int| 0 <= k <= events.len() ==> {
            let s = #[trigger] state_after(events, retries, k);
            &&& action_spec(s) != PipelineAction::Run(DeployStep::StopPrevious)
            &&& action_spec(s) != PipelineAction::Run(DeployStep::UpdateSymlink)
            &&& action_spec(s) != PipelineAction::Run(DeployStep::UpdateLock)
        },
{
    assert forall|k: int| 0 <= k <= events.len() implies {
        let s = #[trigger] state_after(events, retries, k);
        &&& action_spec(s) != PipelineAction::Run(DeployStep::StopPrevious)
        &&& action_spec(s) != PipelineAction::Run(DeployStep::UpdateSymlink)
        &&& action_spec(s) != PipelineAction::Run(DeployStep::UpdateLock)
    } by {
        if reached_cutover(state_after(events, retries, k)) {
            lemma_cutover_persists(events, retries, k, events.len() as int);
        }
    }
}

// ---------------------------------------------------------------------------
// Fan-out over the hosts of a stage
// ---------------------------------------------------------------------------

/// Where a stage's deploy stands: hosts are deployed one at a time, in
/// order.
#[derive(Clone, Copy, Debug, PartialEq, Eq, Structural)]
pub enum FleetState {
    /// The host at this index is next.
    Next(usize),
    /// Every host succeeded.
    AllDone,
    /// The host at this index failed; the hosts after it were not touched.
    FailedAt(usize),
}

/// The state after the host at `index` finished, of `hosts` hosts.
pub open spec fn fleet_next_spec(index: usize, succeeded: bool, hosts: usize) -> FleetState {
    if !succeeded {
        FleetState::FailedAt(index)
    } else if index + 1 < hosts {
        FleetState::Next((index + 1) as usize)
    } else {
        FleetState::AllDone
    }
}

/// The state before any host of `hosts` was deployed.
pub fn fleet_start(hosts: usize) -> (r: FleetState)
    ensures
        r == if hosts == 0 {
            FleetState::AllDone
        } else {
            FleetState::Next(0)
        },
{
    if hosts == 0 {
        FleetState::AllDone
    } else {
        FleetState::Next(0)
    }
}

/// Moves the fan-out on after the host at `index` finished: the first
/// failure stops it, with no compensation on the hosts already done.
pub fn fleet_next(index: usize, succeeded: bool, hosts: usize) -> (r: FleetState)
    ensures
        r == fleet_next_spec(index, succeeded, hosts),
{
    if !succeeded {
        FleetState::FailedAt(index)
    } else if index < hosts && hosts - index > 1 {
        FleetState::Next(index + 1)
    } else {
        FleetState::AllDone
    }
}

/// The hosts deployed, in order, when the outcomes are `results`.
pub open spec fn fleet_run(results: Seq<bool>, hosts: usize, index: usize) -> Seq<usize>
    decreases hosts - index,
{
    if index >= hosts || index >= results.len() {
        seq![]
    } else if !results[index as int] {
        seq![index]
    } else {
        seq![index] + fleet_run(results, hosts, (index + 1) as usize)
    }
}

/// Hosts are deployed in order and the first failure stops the fan-out:
/// a host is deployed only if every host before it succeeded.
pub proof fn lemma_fleet_stops_at_first_failure(results: Seq<bool>, hosts: usize, index: usize)
    ensures
        forall|k: int| 0 <= k < fleet_run(results, hosts, index).len() ==> {
            let h = #[trigger] fleet_run(results, hosts, index)[k];
            &&& h == index + k
            &&& forall|j: int| index <= j < h ==> results[j]
        },
    decreases hosts - index,
{
    if index >= hosts || index >= results.len() {
    } else if !results[index as int] {
    } else {
        lemma_fleet_stops_at_first_failure(results, hosts, (index + 1) as usize);
        let rest = fleet_run(results, hosts, (index + 1) as usize);
        assert forall|k: int| 0 <= k < fleet_run(results, hosts, index).len() implies {
            let h = #[trigger] fleet_run(results, hosts, index)[k];
            &&& h == index + k
            &&& forall|j: int| index <= j < h ==> results[j]
        } by {
            if k > 0 {
                assert(fleet_run(results, hosts, index)[k] == rest[k - 1]);
            }
        }
    }
}

} // verus!
