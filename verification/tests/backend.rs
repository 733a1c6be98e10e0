//! The life of the backend: starts, stops, and what comes in between.
use alas_launcher::backend::{
    is_leaked_child, scheduler_alive, scheduler_intent_after_scan, spawn_args, termination,
    toggle_decision, webui_url, BackendLifecycle, BackendStateSnapshot, BackendStatus, GroupKill,
    Installed, ManagedBackend, ReadyWait, SchedulerIntent, StartAction, StartError, StartEvent,
    StartRun, StartStage, TermAction, TermEvent, ToggleAction, WaitAction, WaitEvent, WaitFailure,
    START_INTENT_TTL_MS, STOP_INTERVENED, TERM_GRACE_MS,
};
use alas_launcher::platform::Platform;

type Lifecycle = BackendLifecycle<&'static str>;
type Child = ManagedBackend<&'static str>;

/// The processes that were spawned, and those that are still there.
#[derive(Default)]
struct Processes {
    spawned: Vec<u32>,
    living: Vec<u32>,
    log: Vec<&'static str>,
}

impl Processes {
    fn spawn(&mut self) -> Child {
        let pid = 100 + self.spawned.len() as u32;
        self.spawned.push(pid);
        self.living.push(pid);
        self.log.push("spawn");
        ManagedBackend::from_child("gui", pid)
    }

    fn end(&mut self, child: Option<Child>) {
        if let Some(mut child) = child {
            if let Some((pid, _)) = child.terminate() {
                self.living.retain(|p| *p != pid);
                self.log.push("end");
            }
            assert_eq!(child.pid(), None);
        }
    }

    fn is_alive(&self, pid: u32) -> bool {
        self.living.contains(&pid)
    }
}

/// A step of the outside work of a start, which may see and change the lifecycle.
type Work<'a> = &'a mut dyn FnMut(&mut Lifecycle, &mut Processes) -> Result<(), String>;

/// Runs a whole start: `cleanup` and `wait` stand for the work that is done meanwhile, and
/// `before_spawn` for what comes in between while a child is spawned.
fn run_start(
    lc: &mut Lifecycle,
    ps: &mut Processes,
    cleanup: Work,
    before_spawn: Work,
    wait: Work,
    now: u64,
) -> Result<(), String> {
    let (mut run, mut action): (StartRun<String>, _) = lc.start();
    loop {
        let event = match action {
            StartAction::End(child) => {
                ps.end(child);
                StartEvent::Ended
            }
            StartAction::CleanUp => StartEvent::CleanedUp(cleanup(lc, ps)),
            StartAction::Spawn => match before_spawn(lc, ps) {
                Ok(()) => StartEvent::Spawned(Ok(ps.spawn())),
                Err(e) => StartEvent::Spawned(Err(e)),
            },
            StartAction::Wait { .. } => StartEvent::Waited { result: wait(lc, ps), now },
            StartAction::Finish(Ok(())) => return Ok(()),
            StartAction::Finish(Err(StartError::StopIntervened)) => {
                return Err(STOP_INTERVENED.to_string())
            }
            StartAction::Finish(Err(StartError::Failed(e))) => return Err(e),
        };
        let (next, todo) = lc.advance_start(run, event);
        run = next;
        action = todo;
    }
}

fn nothing(_: &mut Lifecycle, _: &mut Processes) -> Result<(), String> {
    Ok(())
}

fn boom(_: &mut Lifecycle, _: &mut Processes) -> Result<(), String> {
    Err("boom".to_string())
}

fn stop(lc: &mut Lifecycle, ps: &mut Processes) -> BackendStatus {
    let (status, child) = lc.stop();
    ps.end(child);
    status
}

fn start(lc: &mut Lifecycle, ps: &mut Processes) -> Result<(), String> {
    run_start(lc, ps, &mut nothing, &mut nothing, &mut nothing, 0)
}

#[test]
fn start_success_sets_running() {
    let (mut lc, mut ps) = (Lifecycle::default(), Processes::default());
    start(&mut lc, &mut ps).unwrap();
    assert_eq!(lc.status(), BackendStatus::Running);
    assert!(!lc.snapshot().start_failed);
}

#[test]
fn cleanup_runs_before_spawn() {
    let (mut lc, mut ps) = (Lifecycle::default(), Processes::default());
    run_start(
        &mut lc,
        &mut ps,
        &mut |_, ps| {
            ps.log.push("cleanup");
            Ok(())
        },
        &mut nothing,
        &mut nothing,
        0,
    )
    .unwrap();
    assert_eq!(ps.log, vec!["cleanup", "spawn"]);
}

#[test]
fn start_failure_sets_stopped_start_failed() {
    let (mut lc, mut ps) = (Lifecycle::default(), Processes::default());
    let err =
        run_start(&mut lc, &mut ps, &mut nothing, &mut boom, &mut nothing, 0).unwrap_err();
    assert_eq!(err.to_string(), "boom");
    assert_eq!(lc.status(), BackendStatus::Stopped);
    assert!(lc.snapshot().start_failed);
}

#[test]
fn begin_start_sets_initializing_and_clears_failed() {
    let (mut lc, mut ps) = (Lifecycle::default(), Processes::default());
    let _ = run_start(&mut lc, &mut ps, &mut nothing, &mut boom, &mut nothing, 0);
    lc.begin_start(0);
    let s = lc.snapshot();
    assert_eq!(s.status, BackendStatus::Initializing);
    assert!(!s.start_failed);
}

#[test]
fn stop_with_no_backend_is_stopped_without_panic() {
    let (mut lc, mut ps) = (Lifecycle::default(), Processes::default());
    assert_eq!(stop(&mut lc, &mut ps), BackendStatus::Stopped);
    assert!(!lc.snapshot().start_failed);
}

#[test]
fn stop_terminates_the_backend() {
    let (mut lc, mut ps) = (Lifecycle::default(), Processes::default());
    start(&mut lc, &mut ps).unwrap();
    let pid = ps.spawned[0];
    assert!(ps.is_alive(pid), "child alive right after start");
    stop(&mut lc, &mut ps);
    assert_eq!(lc.status(), BackendStatus::Stopped);
    assert!(!ps.is_alive(pid), "stop must terminate the child");
}

#[test]
fn mark_stopped_clears_initializing_without_start_failed() {
    let mut lc = Lifecycle::default();
    lc.begin_start(0);
    lc.mark_stopped();
    let s = lc.snapshot();
    assert_eq!(s.status, BackendStatus::Stopped);
    assert!(!s.start_failed);
}

#[test]
fn mark_stopped_crashed_marks_abnormal_stop() {
    let mut lc = Lifecycle::default();
    lc.begin_start(0);
    lc.mark_stopped_crashed();
    let s = lc.snapshot();
    assert_eq!(s.status, BackendStatus::Stopped);
    assert!(!s.start_failed);
    assert!(s.crashed);
    assert_eq!(s.scheduler_intent, SchedulerIntent::Nothing);
}

#[test]
fn scheduler_intent_roundtrip_and_clearing() {
    let (mut lc, mut ps) = (Lifecycle::default(), Processes::default());
    lc.set_scheduler_intent(SchedulerIntent::Stop);
    assert_eq!(lc.snapshot().scheduler_intent, SchedulerIntent::Stop);
    lc.set_scheduler_intent(SchedulerIntent::Start);
    assert_eq!(lc.snapshot().scheduler_intent, SchedulerIntent::Start);
    lc.begin_start(0);
    assert_eq!(lc.snapshot().scheduler_intent, SchedulerIntent::Start);
    stop(&mut lc, &mut ps);
    assert_eq!(lc.snapshot().scheduler_intent, SchedulerIntent::Nothing);
    lc.set_scheduler_intent(SchedulerIntent::Stop);
    lc.mark_stopped_crashed();
    assert_eq!(lc.snapshot().scheduler_intent, SchedulerIntent::Nothing);
}

#[test]
fn start_arms_start_intent_and_success_keeps_it() {
    let (mut lc, mut ps) = (Lifecycle::default(), Processes::default());
    start(&mut lc, &mut ps).unwrap();
    let s = lc.snapshot();
    assert_eq!(s.status, BackendStatus::Running);
    assert_eq!(s.scheduler_intent, SchedulerIntent::Start);
    assert!(!s.crashed);
}

#[test]
fn ready_skip_path_still_marks_running() {
    let (mut lc, mut ps) = (Lifecycle::default(), Processes::default());
    start(&mut lc, &mut ps).unwrap();
    assert_eq!(lc.status(), BackendStatus::Running);
    assert_eq!(lc.snapshot().scheduler_intent, SchedulerIntent::Start);
}

#[test]
fn backend_pid_tracks_the_live_child() {
    let (mut lc, mut ps) = (Lifecycle::default(), Processes::default());
    assert_eq!(lc.backend_pid(), None, "no backend before start");
    start(&mut lc, &mut ps).unwrap();
    let pid = lc.backend_pid().expect("backend pid after start");
    assert!(ps.is_alive(pid), "recorded pid is the live child");
    stop(&mut lc, &mut ps);
    assert_eq!(lc.backend_pid(), None, "no handle after stop");
}

#[test]
fn backend_pid_uses_the_recording_spawner_child() {
    let (mut lc, mut ps) = (Lifecycle::default(), Processes::default());
    start(&mut lc, &mut ps).unwrap();
    assert_eq!(lc.backend_pid(), Some(ps.spawned[0]));
}

#[test]
fn ordering_contract_second_start_kills_first_child_before_spawn() {
    let (mut lc, mut ps) = (Lifecycle::default(), Processes::default());
    start(&mut lc, &mut ps).unwrap();
    start(&mut lc, &mut ps).unwrap();
    assert_eq!(ps.spawned.len(), 2, "two spawns happened");
    assert_ne!(ps.spawned[0], ps.spawned[1], "second spawn is a distinct process");
    assert!(
        !ps.is_alive(ps.spawned[0]),
        "first child must be terminated before the second spawn"
    );
    assert!(ps.is_alive(ps.spawned[1]), "second child stays up");
    assert_eq!(ps.log, vec!["spawn", "end", "spawn"]);
}

#[test]
fn stop_during_start_disposes_child_and_restores_stopped() {
    let (mut lc, mut ps) = (Lifecycle::default(), Processes::default());
    lc.begin_start(0);
    let err = run_start(
        &mut lc,
        &mut ps,
        &mut nothing,
        &mut |lc, ps| {
            stop(lc, ps);
            Ok(())
        },
        &mut nothing,
        0,
    )
    .unwrap_err();
    assert!(
        err.contains("stop intervened"),
        "start must report the interruption, got: {err}"
    );
    let s = lc.snapshot();
    assert_eq!(s.status, BackendStatus::Stopped, "state restored to Stopped");
    assert!(!s.start_failed, "an interruption is not a start failure");
    assert_eq!(lc.backend_pid(), None, "interrupted child is not installed");
    assert!(
        !ps.is_alive(ps.spawned[0]),
        "interrupted child must be disposed, not orphaned"
    );
}

#[test]
fn stop_between_begin_start_and_start_aborts_without_spawning() {
    let (mut lc, mut ps) = (Lifecycle::default(), Processes::default());
    lc.begin_start(0);
    stop(&mut lc, &mut ps);
    let err = start(&mut lc, &mut ps).unwrap_err();
    assert!(
        err.contains("stop intervened"),
        "start must report the interruption, got: {err}"
    );
    assert_eq!(ps.spawned.len(), 0, "no spawn may happen after a stop");
    assert_eq!(lc.status(), BackendStatus::Stopped);
}

#[test]
fn start_installs_child_before_ready() {
    let (mut lc, mut ps) = (Lifecycle::default(), Processes::default());
    let r = run_start(
        &mut lc,
        &mut ps,
        &mut nothing,
        &mut nothing,
        &mut |lc, _| {
            let s = lc.snapshot();
            assert_eq!(
                s.status,
                BackendStatus::Initializing,
                "still initializing during the wait"
            );
            assert!(lc.backend_pid().is_some(), "child installed before ready");
            Ok(())
        },
        0,
    );
    assert!(r.is_ok(), "start completes after the wait");
    assert_eq!(lc.status(), BackendStatus::Running);
}

#[test]
fn stop_during_wait_terminates_installed_child() {
    let (mut lc, mut ps) = (Lifecycle::default(), Processes::default());
    let err = run_start(
        &mut lc,
        &mut ps,
        &mut nothing,
        &mut nothing,
        &mut |lc, ps| {
            stop(lc, ps);
            Ok(())
        },
        0,
    )
    .unwrap_err();
    assert!(err.contains("stop intervened"), "got: {err}");
    let s = lc.snapshot();
    assert_eq!(s.status, BackendStatus::Stopped);
    assert!(!s.start_failed, "stop intervention is not a start failure");
    assert!(!ps.is_alive(ps.spawned[0]), "stop must terminate the installed child");
    assert_eq!(lc.backend_pid(), None);
}

#[test]
fn wait_failure_marks_start_failed_and_disposes() {
    let (mut lc, mut ps) = (Lifecycle::default(), Processes::default());
    let err =
        run_start(&mut lc, &mut ps, &mut nothing, &mut nothing, &mut boom, 0).unwrap_err();
    assert_eq!(err.to_string(), "boom");
    let s = lc.snapshot();
    assert_eq!(s.status, BackendStatus::Stopped);
    assert!(s.start_failed, "genuine wait failure is a start failure");
    assert_eq!(lc.backend_pid(), None);
    assert!(!ps.is_alive(ps.spawned[0]), "failed wait must dispose the child");
}

#[test]
fn stop_during_wait_with_wait_error_is_intervention_not_failure() {
    let (mut lc, mut ps) = (Lifecycle::default(), Processes::default());
    let err = run_start(
        &mut lc,
        &mut ps,
        &mut nothing,
        &mut nothing,
        &mut |lc, ps| {
            stop(lc, ps);
            Err("boom".to_string())
        },
        0,
    )
    .unwrap_err();
    assert!(err.contains("stop intervened"), "got: {err}");
    assert!(!lc.snapshot().start_failed, "intervention beats wait failure");
    assert_eq!(lc.backend_pid(), None);
}

#[test]
fn second_start_during_first_wait_first_wait_never_kills_new_child() {
    let (mut lc, mut ps) = (Lifecycle::default(), Processes::default());
    let mut err2 = String::new();
    let err1 = run_start(
        &mut lc,
        &mut ps,
        &mut nothing,
        &mut nothing,
        &mut |lc, ps| {
            let wait = ReadyWait::wait_for_ready(22267, lc.backend_pid(), 0);
            err2 = run_start(
                lc,
                ps,
                &mut nothing,
                &mut nothing,
                &mut |lc, ps| {
                    assert!(!ps.is_alive(ps.spawned[0]), "first child terminated before second spawn");
                    assert!(ps.is_alive(ps.spawned[1]), "second child survives the stale first wait");
                    stop(lc, ps);
                    Err("boom".to_string())
                },
                0,
            )
            .unwrap_err();
            match wait.step(WaitEvent::Owner { number: lc.backend_pid() }) {
                WaitAction::Fail(f) => Err(wait.failure_text(f)),
                other => panic!("the stale wait goes on: {other:?}"),
            }
        },
        0,
    )
    .unwrap_err();
    assert_eq!(ps.spawned.len(), 2, "two spawns happened");
    assert!(err1.contains("stop intervened"), "stale wait aborts, got: {err1}");
    assert!(err2.contains("stop intervened"), "got: {err2}");
    assert!(!ps.is_alive(ps.spawned[1]), "final stop terminates the second child");
    assert_eq!(lc.status(), BackendStatus::Stopped);
    assert!(!lc.snapshot().start_failed);
}

#[test]
fn advance_intent_disarms_start_on_confirmed_alive() {
    let mut lc = Lifecycle::default();
    lc.set_scheduler_intent(SchedulerIntent::Start);
    let next = lc.advance_intent_if_changed(Some(true), 0);
    assert_eq!(next, SchedulerIntent::Nothing, "confirmed alive disarms Start");
    assert_eq!(
        lc.snapshot().scheduler_intent,
        SchedulerIntent::Nothing,
        "the write lands inside the same lock"
    );
}

#[test]
fn advance_intent_keeps_intent_on_dead_or_unknown_scans() {
    let mut lc = Lifecycle::default();
    lc.set_scheduler_intent(SchedulerIntent::Start);
    assert_eq!(lc.advance_intent_if_changed(Some(false), 0), SchedulerIntent::Start);
    assert_eq!(lc.advance_intent_if_changed(None, 0), SchedulerIntent::Start);
    assert_eq!(lc.advance_intent_if_changed(Some(true), 0), SchedulerIntent::Nothing);
    lc.set_scheduler_intent(SchedulerIntent::Stop);
    assert_eq!(lc.advance_intent_if_changed(Some(true), 0), SchedulerIntent::Stop);
    assert_eq!(lc.advance_intent_if_changed(Some(false), 0), SchedulerIntent::Stop);
    assert_eq!(lc.advance_intent_if_changed(None, 0), SchedulerIntent::Stop);
}

#[test]
fn start_intent_ttl_matrix() {
    let below_ttl = 1_000;
    let at_ttl = START_INTENT_TTL_MS;
    let past_ttl = START_INTENT_TTL_MS + 3_600_000;
    assert_eq!(
        scheduler_intent_after_scan(SchedulerIntent::Start, None, below_ttl),
        SchedulerIntent::Start
    );
    assert_eq!(
        scheduler_intent_after_scan(SchedulerIntent::Start, Some(false), below_ttl),
        SchedulerIntent::Start
    );
    assert_eq!(
        scheduler_intent_after_scan(SchedulerIntent::Start, None, at_ttl),
        SchedulerIntent::Nothing
    );
    assert_eq!(
        scheduler_intent_after_scan(SchedulerIntent::Start, Some(false), past_ttl),
        SchedulerIntent::Nothing
    );
    assert_eq!(
        scheduler_intent_after_scan(SchedulerIntent::Start, Some(true), below_ttl),
        SchedulerIntent::Nothing
    );
    assert_eq!(
        scheduler_intent_after_scan(SchedulerIntent::Start, Some(true), past_ttl),
        SchedulerIntent::Nothing
    );
    for alive in [None, Some(false), Some(true)] {
        for elapsed in [below_ttl, at_ttl, past_ttl] {
            assert_eq!(
                scheduler_intent_after_scan(SchedulerIntent::Stop, alive, elapsed),
                SchedulerIntent::Stop,
                "Stop must never be TTL'd (alive {alive:?}, elapsed {elapsed:?})"
            );
        }
    }
}

#[test]
fn advance_intent_ttl_disarms_stale_start_via_lifecycle() {
    let (mut lc, mut ps) = (Lifecycle::default(), Processes::default());
    lc.begin_start(0);
    start(&mut lc, &mut ps).unwrap();
    assert_eq!(lc.advance_intent_if_changed(Some(false), 0), SchedulerIntent::Start);
    assert_eq!(
        lc.advance_intent_if_changed(Some(false), START_INTENT_TTL_MS + 1_000),
        SchedulerIntent::Nothing,
        "unconfirmed Start past the TTL disarms"
    );
    assert_eq!(lc.snapshot().scheduler_intent, SchedulerIntent::Nothing);
    assert!(lc.state.start_intent_at.is_none(), "disarm clears the TTL clock");
}

#[test]
fn scheduler_intent_after_scan_only_disarms_start_on_confirmed_alive() {
    for (intent, alive) in [
        (SchedulerIntent::Nothing, None),
        (SchedulerIntent::Nothing, Some(false)),
        (SchedulerIntent::Nothing, Some(true)),
        (SchedulerIntent::Stop, None),
        (SchedulerIntent::Stop, Some(false)),
        (SchedulerIntent::Stop, Some(true)),
        (SchedulerIntent::Start, None),
        (SchedulerIntent::Start, Some(false)),
    ] {
        assert_eq!(
            scheduler_intent_after_scan(intent, alive, 0),
            intent,
            "intent {intent:?} alive {alive:?}"
        );
    }
    assert_eq!(
        scheduler_intent_after_scan(SchedulerIntent::Start, Some(true), 0),
        SchedulerIntent::Nothing
    );
}

#[test]
fn scheduler_alive_count_boundaries() {
    assert!(!scheduler_alive(0), "no children");
    assert!(!scheduler_alive(1), "Manager baseline only");
    assert!(scheduler_alive(2), "Manager + scheduler");
    assert!(scheduler_alive(3), "any extra child counts alive");
}

#[test]
fn begin_start_disables_toggle_so_a_second_click_cannot_spawn() {
    let mut lc = Lifecycle::default();
    lc.begin_start(0);
    let s = lc.snapshot();
    assert_eq!(s.status, BackendStatus::Initializing);
    for alive in [false, true] {
        for ws in [false, true] {
            assert_eq!(toggle_decision(&s, alive, ws), ToggleAction::NoOp);
        }
    }
}

#[test]
fn webui_url_format() {
    assert_eq!(webui_url(22267), "http://127.0.0.1:22267/");
}

#[test]
fn toggle_decision_matrix() {
    let snapshot = |status| BackendStateSnapshot {
        status,
        start_failed: false,
        crashed: false,
        scheduler_intent: SchedulerIntent::Nothing,
    };
    let stopped = snapshot(BackendStatus::Stopped);
    let running = snapshot(BackendStatus::Running);
    let initializing = snapshot(BackendStatus::Initializing);

    for alive in [false, true] {
        for ws in [false, true] {
            assert_eq!(toggle_decision(&initializing, alive, ws), ToggleAction::NoOp);
        }
    }
    assert_eq!(toggle_decision(&stopped, false, true), ToggleAction::StartBackend);
    assert_eq!(toggle_decision(&stopped, true, true), ToggleAction::StartBackend);
    assert_eq!(toggle_decision(&stopped, false, false), ToggleAction::StartBackend);
    assert_eq!(toggle_decision(&running, true, true), ToggleAction::StopScheduler);
    assert_eq!(toggle_decision(&running, false, true), ToggleAction::StartScheduler);
    assert_eq!(toggle_decision(&running, true, false), ToggleAction::StopBackend);
    assert_eq!(toggle_decision(&running, false, false), ToggleAction::StopBackend);
}

/// Runs the wait for the port with the given answers, and hands back how it ends.
fn wait_outcome(wait: &ReadyWait, answers: &[WaitEvent]) -> WaitAction {
    let mut last = WaitAction::Pause;
    for answer in answers {
        last = wait.step(*answer);
    }
    last
}

#[test]
fn wait_ready_rejects_stale_server() {
    let (mut lc, mut ps) = (Lifecycle::default(), Processes::default());
    let err = run_start(
        &mut lc,
        &mut ps,
        &mut nothing,
        &mut nothing,
        &mut |lc, _| {
            let number = lc.backend_pid();
            let wait = ReadyWait::wait_for_ready(40_000, number, 0);
            let end = wait_outcome(
                &wait,
                &[
                    WaitEvent::Owner { number },
                    WaitEvent::Child { exited: false },
                    WaitEvent::Port { connected: true, number, now: 1 },
                    WaitEvent::PortOwner {
                        spawned: number.unwrap(),
                        owner: Some(7),
                        same_group: false,
                    },
                ],
            );
            match end {
                WaitAction::Fail(f) => Err(wait.failure_text(f)),
                other => panic!("a stranger owns the port: {other:?}"),
            }
        },
        0,
    )
    .unwrap_err();
    assert!(err.contains("occupied by pid"), "got: {err}");
    assert_eq!(
        err,
        "Port 40000 is occupied by pid 7 (our backend is 100); refusing to start over a stale server"
    );
    let s = lc.snapshot();
    assert_eq!(s.status, BackendStatus::Stopped);
    assert!(s.start_failed);
    assert_eq!(lc.backend_pid(), None);
}

#[test]
fn wait_ready_detects_early_exit() {
    let (mut lc, mut ps) = (Lifecycle::default(), Processes::default());
    let err = run_start(
        &mut lc,
        &mut ps,
        &mut nothing,
        &mut nothing,
        &mut |lc, _| {
            let number = lc.backend_pid();
            let wait = ReadyWait::wait_for_ready(40_000, number, 0);
            assert_eq!(wait.step(WaitEvent::Owner { number }), WaitAction::CheckChild);
            match wait.step(WaitEvent::Child { exited: true }) {
                WaitAction::Fail(f) => Err(wait.failure_text(f)),
                other => panic!("the child is gone: {other:?}"),
            }
        },
        0,
    )
    .unwrap_err();
    assert!(err.contains("exited before becoming ready"), "got: {err}");
    assert_eq!(lc.status(), BackendStatus::Stopped);
    assert!(lc.snapshot().start_failed);
    assert_eq!(lc.backend_pid(), None);
}

#[test]
fn a_wait_goes_on_until_its_deadline() {
    let wait = ReadyWait::wait_for_ready(22267, Some(5), 1_000);
    let closed = |now| wait.step(WaitEvent::Port { connected: false, number: Some(5), now });
    assert_eq!(closed(1_000), WaitAction::Pause);
    assert_eq!(closed(60_999), WaitAction::Pause);
    assert_eq!(closed(61_000), WaitAction::Fail(WaitFailure::Timeout));
    assert_eq!(
        wait.failure_text(WaitFailure::Timeout),
        "Timeout waiting for port 22267 to be ready"
    );
    assert_eq!(wait.failure_text(WaitFailure::Intervened), STOP_INTERVENED);
    assert_eq!(
        wait.step(WaitEvent::Port { connected: true, number: Some(6), now: 0 }),
        WaitAction::Fail(WaitFailure::Intervened)
    );
    assert_eq!(
        wait.step(WaitEvent::PortOwner { spawned: 5, owner: None, same_group: false }),
        WaitAction::Ready
    );
    assert_eq!(
        wait.step(WaitEvent::PortOwner { spawned: 5, owner: Some(9), same_group: true }),
        WaitAction::Ready
    );
    assert_eq!(ReadyWait::wait_for_ready(1, None, u64::MAX).deadline, u64::MAX);
}

#[test]
fn a_cleanup_that_fails_spawns_nothing() {
    let (mut lc, mut ps) = (Lifecycle::default(), Processes::default());
    let err =
        run_start(&mut lc, &mut ps, &mut boom, &mut nothing, &mut nothing, 0).unwrap_err();
    assert_eq!(err, "boom");
    assert!(ps.spawned.is_empty());
    assert!(lc.snapshot().start_failed);
}

#[test]
fn a_stop_during_a_failing_cleanup_is_no_failure() {
    let (mut lc, mut ps) = (Lifecycle::default(), Processes::default());
    let err = run_start(
        &mut lc,
        &mut ps,
        &mut |lc, ps| {
            stop(lc, ps);
            Err("boom".to_string())
        },
        &mut nothing,
        &mut nothing,
        0,
    )
    .unwrap_err();
    assert_eq!(err, STOP_INTERVENED);
    assert!(!lc.snapshot().start_failed);
}

#[test]
fn the_child_that_comes_later_wins() {
    let (mut lc, mut ps) = (Lifecycle::default(), Processes::default());
    let err = run_start(
        &mut lc,
        &mut ps,
        &mut nothing,
        &mut |lc, ps| start(lc, ps),
        &mut nothing,
        0,
    );
    assert!(err.is_ok());
    assert_eq!(lc.backend_pid(), Some(ps.spawned[1]));
    assert!(!ps.is_alive(ps.spawned[0]));
    assert_eq!(ps.log, vec!["spawn", "spawn", "end"]);
}

#[test]
fn a_failing_spawn_leaves_the_winner_alone() {
    let (mut lc, mut ps) = (Lifecycle::default(), Processes::default());
    let err = run_start(
        &mut lc,
        &mut ps,
        &mut nothing,
        &mut |lc, ps| {
            start(lc, ps)?;
            Err("boom".to_string())
        },
        &mut nothing,
        0,
    )
    .unwrap_err();
    assert_eq!(err, STOP_INTERVENED);
    assert_eq!(lc.status(), BackendStatus::Running);
    assert!(ps.is_alive(ps.spawned[0]));
}

#[test]
fn a_start_keeps_its_epoch_and_ends_after_six_answers() {
    let mut lc = Lifecycle::default();
    let (run, action): (StartRun<String>, _) = lc.start();
    assert_eq!(run.epoch, 0);
    assert!(matches!(action, StartAction::End(None)));
    let (run, action) = lc.advance_start(run, StartEvent::Ended);
    assert!(matches!(action, StartAction::CleanUp));
    let (run, action) = lc.advance_start(run, StartEvent::CleanedUp(Ok(())));
    assert!(matches!(action, StartAction::Spawn));
    let (run, action) =
        lc.advance_start(run, StartEvent::Spawned(Ok(ManagedBackend::from_child("gui", 9))));
    assert!(matches!(action, StartAction::End(None)));
    let (run, action) = lc.advance_start(run, StartEvent::Ended);
    assert!(matches!(action, StartAction::Wait { number: Some(9) }));
    let (run, action) =
        lc.advance_start(run, StartEvent::Waited { result: Err("boom".to_string()), now: 3 });
    assert!(matches!(&run.stage, StartStage::Disposing { took: true, .. }));
    assert!(matches!(action, StartAction::End(Some(_))));
    let (run, action) = lc.advance_start(run, StartEvent::Ended);
    assert!(matches!(run.stage, StartStage::Over));
    assert!(matches!(action, StartAction::Finish(Err(StartError::Failed(e))) if e == "boom"));
}

#[test]
fn the_steps_of_a_start_respect_who_owns_the_state() {
    let mut lc = Lifecycle::default();
    assert!(matches!(
        lc.install(1, ManagedBackend::from_child("late", 3)),
        Installed::Refused { late } if late.pid() == Some(3)
    ));
    assert!(matches!(
        lc.install(0, ManagedBackend::from_child("first", 4)),
        Installed::Here { replaced: None }
    ));
    assert!(matches!(lc.fail_before_spawn(0, "e"), StartError::StopIntervened));
    assert!(lc.finish_start(0, Some(5), 0).is_err());
    assert!(lc.dispose_backend(Some(5)).is_none());
    assert!(lc.finish_start(0, Some(4), 7).is_ok());
    assert_eq!(lc.state.start_intent_at, Some(7));
    assert!(lc.dispose_backend(Some(4)).is_some());
    assert!(matches!(lc.fail_after_wait(0, false, "e"), StartError::StopIntervened));
    assert!(matches!(lc.fail_after_wait(0, true, "e"), StartError::Failed("e")));
    assert!(lc.snapshot().start_failed);
}

#[test]
fn a_child_is_asked_to_exit_before_it_is_killed() {
    assert_eq!(termination(TermEvent::Begin { platform: Platform::Linux }), TermAction::Ask);
    assert_eq!(termination(TermEvent::Begin { platform: Platform::Windows }), TermAction::Force);
    assert_eq!(termination(TermEvent::Asked { elapsed: 0 }), TermAction::Poll);
    assert_eq!(termination(TermEvent::Asked { elapsed: TERM_GRACE_MS }), TermAction::Force);
    assert_eq!(termination(TermEvent::Polled { exited: false }), TermAction::Pause);
    assert_eq!(termination(TermEvent::Polled { exited: true }), TermAction::Sweep);
    assert_eq!(
        termination(TermEvent::Swept(GroupKill::NoSuchGroup)),
        TermAction::Done { unregister: true }
    );
    assert_eq!(
        termination(TermEvent::Swept(GroupKill::Failed)),
        TermAction::Done { unregister: false }
    );
    assert_eq!(termination(TermEvent::Forced(GroupKill::Killed)), TermAction::Collect);
    assert_eq!(termination(TermEvent::Forced(GroupKill::NoSuchGroup)), TermAction::Fail);
}

#[test]
fn leaked_children_carry_the_mark_of_their_launcher() {
    let environ = vec!["PATH=/bin".to_string(), "ALAS_LAUNCHER_PID=42".to_string()];
    assert!(is_leaked_child(7, &environ, 42));
    assert!(!is_leaked_child(42, &environ, 42));
    assert!(!is_leaked_child(7, &environ, 4));
}

#[test]
fn a_backend_is_spawned_on_the_loopback_interface() {
    assert_eq!(spawn_args(22267), vec!["gui.py", "--host", "127.0.0.1", "--port", "22267"]);
}

/// Walks through a wait, turn by turn. Returns how it ends and when.
fn walk(wait: &ReadyWait, answers_at: u64, pause: u64) -> (WaitAction, u64) {
    let number = wait.number;
    let mut now = 0;
    loop {
        assert_eq!(wait.step(WaitEvent::Owner { number }), WaitAction::CheckChild);
        assert_eq!(wait.step(WaitEvent::Child { exited: false }), WaitAction::TryPort);
        match wait.step(WaitEvent::Port { connected: now >= answers_at, number, now }) {
            WaitAction::Pause => now += pause,
            WaitAction::FindPortOwner { spawned } => {
                assert_eq!(Some(spawned), number);
                let event = WaitEvent::PortOwner { spawned, owner: Some(7), same_group: true };
                return (wait.step(event), now);
            }
            end => return (end, now),
        }
    }
}

#[test]
fn a_port_that_stays_silent_times_out_at_the_first_look_past_the_deadline() {
    let wait = ReadyWait::wait_for_ready(22267, Some(5), 0);
    assert_eq!(wait.deadline, 60_000);
    assert_eq!(
        walk(&wait, u64::MAX, 700),
        (WaitAction::Fail(WaitFailure::Timeout), 60_200)
    );
    assert_eq!(walk(&wait, u64::MAX, 600), (WaitAction::Fail(WaitFailure::Timeout), 60_000));
}

#[test]
fn a_port_that_answers_makes_a_living_child_ready() {
    let wait = ReadyWait::wait_for_ready(22267, Some(5), 0);
    assert_eq!(walk(&wait, 1_500, 500), (WaitAction::Ready, 1_500));
}
