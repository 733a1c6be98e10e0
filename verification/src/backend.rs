//! The life of the backend process: who owns it, when a start counts, and what a stop undoes.
//!
//! A start takes long: an old child is put to an end, the leftovers of earlier runs are cleaned up,
//! a child is spawned, and its port is awaited. No lock is held meanwhile, so a stop or another
//! start may come in between. Each start therefore carries the epoch in which it began, and each of
//! its steps looks at the state again before it changes anything. Points in time are milliseconds
//! on a clock that never runs backwards.
use vstd::prelude::*;

use crate::platform::Platform;
use crate::text;

verus! {

/// How long a start that nothing has confirmed counts as one that is still under way.
pub const START_INTENT_TTL_MS: u64 = 90_000;

/// How long a child may take until its port answers.
pub const READY_TIMEOUT_MS: u64 = 60_000;

/// How long a child may take to exit by itself.
pub const TERM_GRACE_MS: u64 = 500;

/// The pause between two looks at a child or its port.
pub const POLL_PAUSE_MS: u64 = 100;

/// How far the backend has come.
#[derive(Clone, Copy, Debug, PartialEq, Eq, Structural)]
pub enum BackendStatus {
    Initializing,
    Running,
    Stopped,
}

/// What the user last asked of the scheduler, as long as that explains that it is not running.
#[derive(Clone, Copy, Debug, PartialEq, Eq, Structural)]
pub enum SchedulerIntent {
    Nothing,
    Stop,
    Start,
}

impl Default for SchedulerIntent {
    fn default() -> (r: SchedulerIntent)
        ensures
            r == SchedulerIntent::Nothing,
    {
        SchedulerIntent::Nothing
    }
}

/// A child process, by the handle that the caller keeps it with, and its number.
#[derive(Debug)]
pub struct ManagedBackend<C> {
    pub child: Option<C>,
    pub id: u32,
}

impl<C> ManagedBackend<C> {
    /// The number of the child, while it is held.
    pub open spec fn number(self) -> Option<u32> {
        match self.child {
            Some(_) => Some(self.id),
            None => None,
        }
    }

    /// A child that was just spawned.
    pub fn from_child(child: C, id: u32) -> (r: ManagedBackend<C>)
        ensures
            r == (ManagedBackend { child: Some(child), id }),
    {
        ManagedBackend { child: Some(child), id }
    }

    /// Takes the child out, to be put to an end as `termination` says.
    pub fn terminate(&mut self) -> (r: Option<(u32, C)>)
        ensures
            final(self).child is None,
            final(self).id == old(self).id,
            r == (match old(self).child {
                Some(c) => Some((old(self).id, c)),
                None => None,
            }),
    {
        match self.child.take() {
            Some(c) => Some((self.id, c)),
            None => None,
        }
    }

    /// The number of the child, while it is held.
    pub fn pid(&self) -> (r: Option<u32>)
        ensures
            r == self.number(),
    {
        match &self.child {
            Some(_) => Some(self.id),
            None => None,
        }
    }
}

/// The state of the backend.
#[derive(Debug)]
pub struct BackendState<C> {
    pub status: BackendStatus,
    /// The child, from the moment it is spawned.
    pub backend: Option<ManagedBackend<C>>,
    pub start_failed: bool,
    pub crashed: bool,
    pub scheduler_intent: SchedulerIntent,
    /// When the start was made that the intent speaks of.
    pub start_intent_at: Option<u64>,
    /// Counts the stops.
    pub epoch: u64,
    /// The epoch in which the next start was announced.
    pub pending_start_epoch: Option<u64>,
}

/// What the menu shows of the state.
#[derive(Clone, Copy, Debug, PartialEq, Eq, Structural)]
pub struct BackendStateSnapshot {
    pub status: BackendStatus,
    pub start_failed: bool,
    pub crashed: bool,
    pub scheduler_intent: SchedulerIntent,
}

impl<C> BackendState<C> {
    /// The state before anything was started.
    pub open spec fn initial() -> BackendState<C> {
        BackendState {
            status: BackendStatus::Stopped,
            backend: None,
            start_failed: false,
            crashed: false,
            scheduler_intent: SchedulerIntent::Nothing,
            start_intent_at: None,
            epoch: 0,
            pending_start_epoch: None,
        }
    }

    /// The number of the child in the state.
    pub open spec fn child_number(self) -> Option<u32> {
        match self.backend {
            Some(b) => b.number(),
            None => None,
        }
    }

    /// What the menu shows of this state.
    pub open spec fn shown(self) -> BackendStateSnapshot {
        BackendStateSnapshot {
            status: self.status,
            start_failed: self.start_failed,
            crashed: self.crashed,
            scheduler_intent: self.scheduler_intent,
        }
    }

    /// A start is announced.
    pub open spec fn announced(self, now: u64) -> BackendState<C> {
        BackendState {
            status: BackendStatus::Initializing,
            start_failed: false,
            crashed: false,
            scheduler_intent: SchedulerIntent::Start,
            start_intent_at: Some(now),
            pending_start_epoch: Some(self.epoch),
            ..self
        }
    }

    /// A stop came after the start was announced.
    pub open spec fn start_is_void(self) -> bool {
        self.pending_start_epoch is Some && self.pending_start_epoch->0 != self.epoch
    }

    /// A start begins: the old child leaves the state, unless the start is void.
    pub open spec fn entered(self) -> BackendState<C> {
        if self.start_is_void() {
            BackendState { pending_start_epoch: None, ..self }
        } else {
            BackendState {
                status: BackendStatus::Initializing,
                start_failed: false,
                backend: None,
                pending_start_epoch: None,
                ..self
            }
        }
    }

    /// The state after a start that failed for a reason of its own.
    pub open spec fn failed(self) -> BackendState<C> {
        BackendState {
            status: BackendStatus::Stopped,
            start_failed: true,
            crashed: false,
            scheduler_intent: SchedulerIntent::Nothing,
            start_intent_at: None,
            ..self
        }
    }

    /// A start of the epoch `epoch` no longer owns the state before its child is there: a stop
    /// came in between, or another start has put its child there.
    pub open spec fn lost_before_spawn(self, epoch: u64) -> bool {
        self.epoch != epoch || self.backend is Some
    }

    /// A start of the epoch `epoch` with the child `number` no longer owns the state.
    pub open spec fn lost(self, epoch: u64, number: Option<u32>) -> bool {
        self.epoch != epoch || self.child_number() != number
    }

    /// A child is put into the state.
    pub open spec fn with_child(self, backend: ManagedBackend<C>) -> BackendState<C> {
        BackendState { backend: Some(backend), ..self }
    }

    /// The child leaves the state.
    pub open spec fn without_child(self) -> BackendState<C> {
        BackendState { backend: None, ..self }
    }

    /// The backend is up.
    pub open spec fn up(self, now: u64) -> BackendState<C> {
        BackendState {
            status: BackendStatus::Running,
            start_failed: false,
            crashed: false,
            scheduler_intent: SchedulerIntent::Start,
            start_intent_at: Some(now),
            ..self
        }
    }

    /// The backend is stopped on request.
    pub open spec fn stopped(self) -> BackendState<C> {
        BackendState {
            status: BackendStatus::Stopped,
            backend: None,
            start_failed: false,
            crashed: false,
            scheduler_intent: SchedulerIntent::Nothing,
            start_intent_at: None,
            epoch: (self.epoch + 1) as u64,
            ..self
        }
    }

    /// The backend is not there; that is no failure of a start.
    pub open spec fn absent(self) -> BackendState<C> {
        BackendState {
            status: BackendStatus::Stopped,
            crashed: false,
            scheduler_intent: SchedulerIntent::Nothing,
            start_intent_at: None,
            ..self
        }
    }

    /// The backend has gone away by itself.
    pub open spec fn gone(self) -> BackendState<C> {
        BackendState {
            status: BackendStatus::Stopped,
            start_failed: false,
            crashed: true,
            scheduler_intent: SchedulerIntent::Nothing,
            start_intent_at: None,
            ..self
        }
    }

    /// The user has asked something of the scheduler.
    pub open spec fn asked(self, intent: SchedulerIntent) -> BackendState<C> {
        BackendState {
            scheduler_intent: intent,
            start_intent_at: if intent == SchedulerIntent::Start {
                self.start_intent_at
            } else {
                None
            },
            ..self
        }
    }

    /// How long ago the start was made that the intent speaks of.
    pub open spec fn intent_age(self, now: u64) -> u64 {
        match self.start_intent_at {
            Some(t) if t <= now => (now - t) as u64,
            _ => 0,
        }
    }
}

impl<C> Default for BackendState<C> {
    fn default() -> (r: BackendState<C>)
        ensures
            r == BackendState::<C>::initial(),
    {
        BackendState {
            status: BackendStatus::Stopped,
            backend: None,
            start_failed: false,
            crashed: false,
            scheduler_intent: SchedulerIntent::Nothing,
            start_intent_at: None,
            epoch: 0,
            pending_start_epoch: None,
        }
    }
}

/// Why a start did not succeed.
#[derive(Debug)]
pub enum StartError<E> {
    /// A stop or another start has taken over; nothing has failed.
    StopIntervened,
    /// The start itself failed.
    Failed(E),
}

/// The message for a start that a stop or another start has taken over from.
pub const STOP_INTERVENED: &'static str = "stop intervened during backend start";

/// What became of a child that was to be put into the state.
#[derive(Debug)]
pub enum Installed<C> {
    /// It is there. The child that was there before is to be put to an end.
    Here { replaced: Option<ManagedBackend<C>> },
    /// A stop has intervened. The child is to be put to an end.
    Refused { late: ManagedBackend<C> },
}

/// How far a start has come.
#[derive(Debug)]
pub enum StartStage<E> {
    /// The old child is put to an end.
    Ending,
    /// The leftovers of earlier runs are cleaned up.
    CleaningUp,
    /// The new child is spawned.
    Spawning,
    /// The new child is in the state; the child of another start is put to an end.
    Replacing { number: Option<u32> },
    /// The new child has come too late, and is put to an end.
    Refusing,
    /// The port of the new child is awaited.
    Waiting { number: Option<u32> },
    /// The wait has failed, and the new child is put to an end if it was still there.
    Disposing { took: bool, err: E },
    Over,
}

/// A start that is under way.
#[derive(Debug)]
pub struct StartRun<E> {
    pub epoch: u64,
    pub stage: StartStage<E>,
}

/// What was done for a start.
#[derive(Debug)]
pub enum StartEvent<C, E> {
    /// The child that was handed out has been put to an end, if there was one.
    Ended,
    CleanedUp(Result<(), E>),
    Spawned(Result<ManagedBackend<C>, E>),
    /// What the wait for the port has come to, and the time.
    Waited { result: Result<(), E>, now: u64 },
}

/// What is to be done next for a start.
#[derive(Debug)]
pub enum StartAction<C, E> {
    /// Put this child to an end, if there is one.
    End(Option<ManagedBackend<C>>),
    /// Clean up the leftovers of earlier runs.
    CleanUp,
    /// Spawn a child.
    Spawn,
    /// Wait until the port of the child `number` answers.
    Wait { number: Option<u32> },
    /// The start is over.
    Finish(Result<(), StartError<E>>),
}

impl<E> StartRun<E> {
    /// Whether this is what the start waits for.
    pub open spec fn awaits<C>(self, event: StartEvent<C, E>) -> bool {
        match event {
            StartEvent::Ended => self.stage is Ending || self.stage is Replacing || self.stage
                is Refusing || self.stage is Disposing,
            StartEvent::CleanedUp(_) => self.stage is CleaningUp,
            StartEvent::Spawned(_) => self.stage is Spawning,
            StartEvent::Waited { .. } => self.stage is Waiting,
        }
    }
}

/// What a step of a start leaves: how far it has come, the state, and what is to be done next.
pub struct StartStep<C, E> {
    pub run: StartRun<E>,
    pub state: BackendState<C>,
    pub action: StartAction<C, E>,
}

/// How a start begins in the state `s`, which then becomes `s.entered()`.
pub open spec fn start_begun<C, E>(s: BackendState<C>) -> (StartRun<E>, StartAction<C, E>) {
    if s.start_is_void() {
        (
            StartRun { epoch: s.epoch, stage: StartStage::Over },
            StartAction::Finish(Err(StartError::StopIntervened)),
        )
    } else {
        (StartRun { epoch: s.epoch, stage: StartStage::Ending }, StartAction::End(s.backend))
    }
}

/// How a start ends that has failed: `lost` says that the state is no longer its own.
pub open spec fn start_failed<C, E>(
    epoch: u64,
    s: BackendState<C>,
    lost: bool,
    err: E,
) -> StartStep<C, E> {
    StartStep {
        run: StartRun { epoch, stage: StartStage::Over },
        state: if lost {
            s
        } else {
            s.failed()
        },
        action: StartAction::Finish(
            Err(
                if lost {
                    StartError::StopIntervened
                } else {
                    StartError::Failed(err)
                },
            ),
        ),
    }
}

/// What a start does after something was done for it, in the state `s` that it then finds.
pub open spec fn start_step<C, E>(
    run: StartRun<E>,
    s: BackendState<C>,
    event: StartEvent<C, E>,
) -> StartStep<C, E> {
    let epoch = run.epoch;
    match event {
        StartEvent::Ended => match run.stage {
            StartStage::Ending => StartStep {
                run: StartRun { epoch, stage: StartStage::CleaningUp },
                state: s,
                action: StartAction::CleanUp,
            },
            StartStage::Replacing { number } => StartStep {
                run: StartRun { epoch, stage: StartStage::Waiting { number } },
                state: s,
                action: StartAction::Wait { number },
            },
            StartStage::Disposing { took, err } => start_failed(
                epoch,
                s,
                s.epoch != epoch || !took,
                err,
            ),
            _ => StartStep {
                run: StartRun { epoch, stage: StartStage::Over },
                state: s,
                action: StartAction::Finish(Err(StartError::StopIntervened)),
            },
        },
        StartEvent::CleanedUp(Ok(_)) => StartStep {
            run: StartRun { epoch, stage: StartStage::Spawning },
            state: s,
            action: StartAction::Spawn,
        },
        StartEvent::CleanedUp(Err(e)) => start_failed(epoch, s, s.lost_before_spawn(epoch), e),
        StartEvent::Spawned(Err(e)) => start_failed(epoch, s, s.lost_before_spawn(epoch), e),
        StartEvent::Spawned(Ok(child)) => if s.epoch == epoch {
            StartStep {
                run: StartRun { epoch, stage: StartStage::Replacing { number: child.number() } },
                state: s.with_child(child),
                action: StartAction::End(s.backend),
            }
        } else {
            StartStep {
                run: StartRun { epoch, stage: StartStage::Refusing },
                state: s,
                action: StartAction::End(Some(child)),
            }
        },
        StartEvent::Waited { result: Ok(_), now } => {
            let lost = s.lost(epoch, run.stage->Waiting_number);
            StartStep {
                run: StartRun { epoch, stage: StartStage::Over },
                state: if lost {
                    s
                } else {
                    s.up(now)
                },
                action: StartAction::Finish(
                    if lost {
                        Err(StartError::StopIntervened)
                    } else {
                        Ok(())
                    },
                ),
            }
        },
        StartEvent::Waited { result: Err(err), .. } => {
            let own = s.child_number() == run.stage->Waiting_number;
            let child = if own {
                s.backend
            } else {
                None
            };
            StartStep {
                run: StartRun { epoch, stage: StartStage::Disposing { took: child is Some, err } },
                state: if own {
                    s.without_child()
                } else {
                    s
                },
                action: StartAction::End(child),
            }
        },
    }
}

/// The backend, as the launcher sees it.
#[derive(Debug)]
pub struct BackendLifecycle<C> {
    pub state: BackendState<C>,
}

impl<C> Default for BackendLifecycle<C> {
    fn default() -> (r: BackendLifecycle<C>)
        ensures
            r.state == BackendState::<C>::initial(),
    {
        BackendLifecycle { state: BackendState::default() }
    }
}

impl<C> BackendLifecycle<C> {
    /// How far the backend has come.
    pub fn status(&self) -> (r: BackendStatus)
        ensures
            r == self.state.status,
    {
        self.state.status
    }

    /// What the menu shows of the state.
    pub fn snapshot(&self) -> (r: BackendStateSnapshot)
        ensures
            r == self.state.shown(),
    {
        BackendStateSnapshot {
            status: self.state.status,
            start_failed: self.state.start_failed,
            crashed: self.state.crashed,
            scheduler_intent: self.state.scheduler_intent,
        }
    }

    /// Announces a start, before the long work of it begins.
    pub fn begin_start(&mut self, now: u64)
        ensures
            final(self).state == old(self).state.announced(now),
    {
        self.state.status = BackendStatus::Initializing;
        self.state.start_failed = false;
        self.state.crashed = false;
        self.state.scheduler_intent = SchedulerIntent::Start;
        self.state.start_intent_at = Some(now);
        self.state.pending_start_epoch = Some(self.state.epoch);
    }

    /// Begins a start, unless it is void. Hands out the epoch that it belongs to, and the old child,
    /// which is to be put to an end before another is spawned.
    fn enter(&mut self) -> (r: Option<(u64, Option<ManagedBackend<C>>)>)
        ensures
            final(self).state == old(self).state.entered(),
            r == (if old(self).state.start_is_void() {
                None
            } else {
                Some((old(self).state.epoch, old(self).state.backend))
            }),
    {
        if let Some(pending) = self.state.pending_start_epoch {
            self.state.pending_start_epoch = None;
            if pending != self.state.epoch {
                return None;
            }
        }
        self.state.status = BackendStatus::Initializing;
        self.state.start_failed = false;
        let replaced = self.state.backend.take();
        Some((self.state.epoch, replaced))
    }

    /// Begins a start. What is to be done next is done without holding the state, and what came of
    /// it is handed to `advance_start`.
    pub fn start<E>(&mut self) -> (r: (StartRun<E>, StartAction<C, E>))
        ensures
            final(self).state == old(self).state.entered(),
            r == start_begun::<C, E>(old(self).state),
    {
        match self.enter() {
            Some((epoch, replaced)) => (
                StartRun { epoch, stage: StartStage::Ending },
                StartAction::End(replaced),
            ),
            None => (
                StartRun { epoch: self.state.epoch, stage: StartStage::Over },
                StartAction::Finish(Err(StartError::StopIntervened)),
            ),
        }
    }

    /// Goes on with a start after something was done for it.
    pub fn advance_start<E>(&mut self, run: StartRun<E>, event: StartEvent<C, E>) -> (r: (
        StartRun<E>,
        StartAction<C, E>,
    ))
        requires
            run.awaits(event),
        ensures
            (StartStep { run: r.0, state: final(self).state, action: r.1 }) == start_step(
                run,
                old(self).state,
                event,
            ),
    {
        let epoch = run.epoch;
        match event {
            StartEvent::Ended => match run.stage {
                StartStage::Ending => (
                    StartRun { epoch, stage: StartStage::CleaningUp },
                    StartAction::CleanUp,
                ),
                StartStage::Replacing { number } => (
                    StartRun { epoch, stage: StartStage::Waiting { number } },
                    StartAction::Wait { number },
                ),
                StartStage::Disposing { took, err } => (
                    StartRun { epoch, stage: StartStage::Over },
                    StartAction::Finish(Err(self.fail_after_wait(epoch, took, err))),
                ),
                _ => (
                    StartRun { epoch, stage: StartStage::Over },
                    StartAction::Finish(Err(StartError::StopIntervened)),
                ),
            },
            StartEvent::CleanedUp(Ok(_)) => (
                StartRun { epoch, stage: StartStage::Spawning },
                StartAction::Spawn,
            ),
            StartEvent::CleanedUp(Err(e)) => (
                StartRun { epoch, stage: StartStage::Over },
                StartAction::Finish(Err(self.fail_before_spawn(epoch, e))),
            ),
            StartEvent::Spawned(Err(e)) => (
                StartRun { epoch, stage: StartStage::Over },
                StartAction::Finish(Err(self.fail_before_spawn(epoch, e))),
            ),
            StartEvent::Spawned(Ok(child)) => {
                let number = child.pid();
                match self.install(epoch, child) {
                    Installed::Here { replaced } => (
                        StartRun { epoch, stage: StartStage::Replacing { number } },
                        StartAction::End(replaced),
                    ),
                    Installed::Refused { late } => (
                        StartRun { epoch, stage: StartStage::Refusing },
                        StartAction::End(Some(late)),
                    ),
                }
            },
            StartEvent::Waited { result, now } => {
                let number = match run.stage {
                    StartStage::Waiting { number } => number,
                    _ => None,
                };
                match result {
                    Ok(_) => {
                        let r = match self.finish_start(epoch, number, now) {
                            Ok(_) => Ok(()),
                            Err(_) => Err(StartError::StopIntervened),
                        };
                        (StartRun { epoch, stage: StartStage::Over }, StartAction::Finish(r))
                    },
                    Err(err) => {
                        let child = self.dispose_backend(number);
                        let took = child.is_some();
                        (
                            StartRun { epoch, stage: StartStage::Disposing { took, err } },
                            StartAction::End(child),
                        )
                    },
                }
            },
        }
    }

    /// The start of `epoch` failed before it had a child: the cleanup or the spawn did not succeed.
    pub fn fail_before_spawn<E>(&mut self, epoch: u64, err: E) -> (r: StartError<E>)
        ensures
            final(self).state == (if old(self).state.lost_before_spawn(epoch) {
                old(self).state
            } else {
                old(self).state.failed()
            }),
            r == (if old(self).state.lost_before_spawn(epoch) {
                StartError::StopIntervened
            } else {
                StartError::Failed(err)
            }),
    {
        if self.state.epoch != epoch || self.state.backend.is_some() {
            return StartError::StopIntervened;
        }
        self.mark_start_failed();
        StartError::Failed(err)
    }

    fn mark_start_failed(&mut self)
        ensures
            final(self).state == old(self).state.failed(),
    {
        self.state.status = BackendStatus::Stopped;
        self.state.start_failed = true;
        self.state.crashed = false;
        self.state.scheduler_intent = SchedulerIntent::Nothing;
        self.state.start_intent_at = None;
    }

    /// Puts the child that the start of `epoch` has spawned into the state, before its port is
    /// awaited, so that a stop finds it. The child of another start gives way.
    pub fn install(&mut self, epoch: u64, backend: ManagedBackend<C>) -> (r: Installed<C>)
        ensures
            old(self).state.epoch == epoch ==> final(self).state == old(self).state.with_child(
                backend,
            ) && r == (Installed::Here { replaced: old(self).state.backend }),
            old(self).state.epoch != epoch ==> final(self).state == old(self).state && r == (
            Installed::Refused { late: backend }),
    {
        if self.state.epoch != epoch {
            return Installed::Refused { late: backend };
        }
        let replaced = self.state.backend.take();
        self.state.backend = Some(backend);
        Installed::Here { replaced }
    }

    /// The wait for the child `number` has failed: takes it out of the state to be put to an end,
    /// if it is still there.
    pub fn dispose_backend(&mut self, number: Option<u32>) -> (r: Option<ManagedBackend<C>>)
        ensures
            old(self).state.child_number() == number ==> final(self).state
                == old(self).state.without_child() && r == old(self).state.backend,
            old(self).state.child_number() != number ==> final(self).state == old(self).state && r
                is None,
    {
        if self.backend_pid() != number {
            None
        } else {
            self.state.backend.take()
        }
    }

    /// Ends the start of `epoch` whose wait has failed, after `dispose_backend`. `took` says
    /// whether that handed out a child.
    pub fn fail_after_wait<E>(&mut self, epoch: u64, took: bool, err: E) -> (r: StartError<E>)
        ensures
            final(self).state == (if old(self).state.epoch != epoch || !took {
                old(self).state
            } else {
                old(self).state.failed()
            }),
            r == (if old(self).state.epoch != epoch || !took {
                StartError::StopIntervened
            } else {
                StartError::Failed(err)
            }),
    {
        if self.state.epoch != epoch || !took {
            return StartError::StopIntervened;
        }
        self.mark_start_failed();
        StartError::Failed(err)
    }

    /// Ends the start of `epoch` whose child `number` answers: the backend runs, unless a stop or
    /// another start has taken over.
    pub fn finish_start(&mut self, epoch: u64, number: Option<u32>, now: u64) -> (r: Result<
        (),
        StartError<()>,
    >)
        ensures
            final(self).state == (if old(self).state.lost(epoch, number) {
                old(self).state
            } else {
                old(self).state.up(now)
            }),
            match r {
                Ok(_) => !old(self).state.lost(epoch, number),
                Err(e) => old(self).state.lost(epoch, number) && e is StopIntervened,
            },
    {
        if self.state.epoch != epoch || self.backend_pid() != number {
            return Err(StartError::StopIntervened);
        }
        self.state.status = BackendStatus::Running;
        self.state.start_failed = false;
        self.state.crashed = false;
        self.state.scheduler_intent = SchedulerIntent::Start;
        self.state.start_intent_at = Some(now);
        Ok(())
    }

    /// Stops the backend. Hands out the child, which is to be put to an end.
    pub fn stop(&mut self) -> (r: (BackendStatus, Option<ManagedBackend<C>>))
        requires
            old(self).state.epoch < u64::MAX,
        ensures
            final(self).state == old(self).state.stopped(),
            r == (BackendStatus::Stopped, old(self).state.backend),
    {
        self.state.status = BackendStatus::Stopped;
        self.state.start_failed = false;
        self.state.crashed = false;
        self.state.scheduler_intent = SchedulerIntent::Nothing;
        self.state.start_intent_at = None;
        self.state.epoch = self.state.epoch + 1;
        let child = self.state.backend.take();
        (BackendStatus::Stopped, child)
    }

    /// The setup has failed: there is no backend, and that is no failure of a start.
    pub fn mark_stopped(&mut self)
        ensures
            final(self).state == old(self).state.absent(),
    {
        self.state.status = BackendStatus::Stopped;
        self.state.crashed = false;
        self.state.scheduler_intent = SchedulerIntent::Nothing;
        self.state.start_intent_at = None;
    }

    /// The backend has gone away by itself.
    pub fn mark_stopped_crashed(&mut self)
        ensures
            final(self).state == old(self).state.gone(),
    {
        self.state.status = BackendStatus::Stopped;
        self.state.start_failed = false;
        self.state.crashed = true;
        self.state.scheduler_intent = SchedulerIntent::Nothing;
        self.state.start_intent_at = None;
    }

    /// Takes down what the user has asked of the scheduler.
    pub fn set_scheduler_intent(&mut self, intent: SchedulerIntent)
        ensures
            final(self).state == old(self).state.asked(intent),
    {
        self.state.scheduler_intent = intent;
        if intent != SchedulerIntent::Start {
            self.state.start_intent_at = None;
        }
    }

    /// Takes a look at the scheduler into account: `alive` is none where the backend does not run.
    /// Returns the intent that is left.
    pub fn advance_intent_if_changed(&mut self, alive: Option<bool>, now: u64) -> (r:
        SchedulerIntent)
        ensures
            r == intent_after_scan(
                old(self).state.scheduler_intent,
                alive,
                old(self).state.intent_age(now),
            ),
            final(self).state == old(self).state.asked(r),
    {
        let age: u64 = match self.state.start_intent_at {
            Some(t) => if t <= now {
                now - t
            } else {
                0
            },
            None => 0,
        };
        let next = scheduler_intent_after_scan(self.state.scheduler_intent, alive, age);
        self.set_scheduler_intent(next);
        next
    }

    /// The number of the child in the state.
    pub fn backend_pid(&self) -> (r: Option<u32>)
        ensures
            r == self.state.child_number(),
    {
        match &self.state.backend {
            Some(b) => b.pid(),
            None => None,
        }
    }
}

/// The intent that is left after a look at the scheduler: a start counts until the scheduler is
/// seen running, or until it is `START_INTENT_TTL_MS` old. Everything else stays.
pub open spec fn intent_after_scan(
    intent: SchedulerIntent,
    alive: Option<bool>,
    age: u64,
) -> SchedulerIntent {
    if intent == SchedulerIntent::Start && (alive == Some(true) || age >= START_INTENT_TTL_MS) {
        SchedulerIntent::Nothing
    } else {
        intent
    }
}

/// The intent that is left after a look at the scheduler.
pub fn scheduler_intent_after_scan(
    intent: SchedulerIntent,
    scheduler_alive: Option<bool>,
    elapsed_ms: u64,
) -> (r: SchedulerIntent)
    ensures
        r == intent_after_scan(intent, scheduler_alive, elapsed_ms),
{
    match (intent, scheduler_alive) {
        (SchedulerIntent::Start, Some(true)) => SchedulerIntent::Nothing,
        (SchedulerIntent::Start, _) if elapsed_ms >= START_INTENT_TTL_MS => SchedulerIntent::Nothing,
        _ => intent,
    }
}

/// Whether the scheduler runs: the web server always has one child, and the scheduler is another.
pub fn scheduler_alive(alive_child_count: usize) -> (r: bool)
    ensures
        r == (alive_child_count > 1),
{
    alive_child_count > 1
}

/// The address of the web interface.
pub open spec fn webui_address(port: u16) -> Seq<char> {
    "http://127.0.0.1:"@ + text::decimal_of(port as nat) + "/"@
}

/// The address of the web interface.
pub fn webui_url(port: u16) -> (r: String)
    ensures
        r@ == webui_address(port),
{
    let p = text::decimal(port as u64);
    let mut r = String::from_str("http://127.0.0.1:");
    r.append(p.as_str());
    r.append("/");
    r
}

/// What a click on the start and stop item does.
#[derive(Clone, Copy, Debug, PartialEq, Eq, Structural)]
pub enum ToggleAction {
    NoOp,
    StartBackend,
    /// The scheduler cannot be reached: the whole backend is stopped.
    StopBackend,
    StopScheduler,
    StartScheduler,
}

/// What a click on the start and stop item does.
pub open spec fn toggled(status: BackendStatus, alive: bool, reachable: bool) -> ToggleAction {
    match status {
        BackendStatus::Initializing => ToggleAction::NoOp,
        BackendStatus::Stopped => ToggleAction::StartBackend,
        BackendStatus::Running => if !reachable {
            ToggleAction::StopBackend
        } else if alive {
            ToggleAction::StopScheduler
        } else {
            ToggleAction::StartScheduler
        },
    }
}

/// Decides what a click on the start and stop item does. `ws_available` says whether the scheduler
/// can be reached through the web interface.
pub fn toggle_decision(
    snapshot: &BackendStateSnapshot,
    scheduler_alive: bool,
    ws_available: bool,
) -> (r: ToggleAction)
    ensures
        r == toggled(snapshot.status, scheduler_alive, ws_available),
{
    match snapshot.status {
        BackendStatus::Initializing => ToggleAction::NoOp,
        BackendStatus::Stopped => ToggleAction::StartBackend,
        BackendStatus::Running => {
            if !ws_available {
                ToggleAction::StopBackend
            } else if scheduler_alive {
                ToggleAction::StopScheduler
            } else {
                ToggleAction::StartScheduler
            }
        },
    }
}

/// A stop undoes a start that is under way, whatever step it has reached: its child is refused, it
/// never makes the backend run, and it leaves the state as the stop made it, with no failure
/// marked.
pub proof fn stop_wins_over_a_start<C>(s: BackendState<C>, epoch: u64, number: Option<u32>)
    requires
        epoch <= s.epoch < u64::MAX,
    ensures
        s.stopped().epoch != epoch,
        s.stopped().lost_before_spawn(epoch),
        s.stopped().lost(epoch, number),
        s.stopped().status == BackendStatus::Stopped,
        !s.stopped().start_failed,
        s.stopped().backend is None,
{
}

/// A start that was announced before a stop does nothing when it comes: no child leaves the state,
/// and the state stays stopped.
pub proof fn stop_voids_an_announced_start<C>(s: BackendState<C>, now: u64)
    requires
        s.epoch < u64::MAX,
    ensures
        s.announced(now).stopped().start_is_void(),
        s.announced(now).stopped().entered().status == BackendStatus::Stopped,
        s.announced(now).stopped().entered().backend is None,
        !s.announced(now).stopped().entered().start_failed,
{
}

/// Without a stop in between, an announced start begins in the epoch in which it was announced.
pub proof fn announced_start_begins<C>(s: BackendState<C>, now: u64)
    ensures
        !s.announced(now).start_is_void(),
        s.announced(now).entered().epoch == s.epoch,
        s.announced(now).entered().status == BackendStatus::Initializing,
        s.announced(now).entered().backend is None,
{
}

/// While a start is announced a click does nothing, so that there are never two of them.
pub proof fn announced_start_disables_the_toggle<C>(
    s: BackendState<C>,
    now: u64,
    alive: bool,
    reachable: bool,
)
    ensures
        toggled(s.announced(now).shown().status, alive, reachable) == ToggleAction::NoOp,
{
}

/// Of two starts in one epoch the one that puts its child there later wins: the other does not own
/// the state any more, and can neither mark it running nor failed.
pub proof fn later_child_wins<C>(
    s: BackendState<C>,
    first: ManagedBackend<C>,
    second: ManagedBackend<C>,
)
    requires
        first.number() != second.number(),
    ensures
        ({
            let both = s.with_child(first).with_child(second);
            &&& both.lost(s.epoch, first.number())
            &&& !both.lost(s.epoch, second.number())
            &&& both.lost_before_spawn(s.epoch)
            &&& both.child_number() != first.number()
        }),
{
}

/// A start that nothing comes in between of puts the old child to an end, cleans up, spawns a child,
/// waits for it, and makes the backend run with it.
pub proof fn undisturbed_start_succeeds<C, E>(
    s: BackendState<C>,
    begun: u64,
    done: u64,
    child: ManagedBackend<C>,
)
    ensures
        ({
            let announced = s.announced(begun);
            let (run, first) = start_begun::<C, E>(announced);
            let ended = start_step(run, announced.entered(), StartEvent::Ended);
            let clean = start_step(ended.run, ended.state, StartEvent::CleanedUp(Ok(())));
            let there = start_step(clean.run, clean.state, StartEvent::Spawned(Ok(child)));
            let alone = start_step(there.run, there.state, StartEvent::Ended);
            let up = start_step(
                alone.run,
                alone.state,
                StartEvent::Waited { result: Ok(()), now: done },
            );
            &&& first == StartAction::<C, E>::End(s.backend)
            &&& ended.action is CleanUp
            &&& clean.action is Spawn
            &&& there.action == StartAction::<C, E>::End(None)
            &&& alone.action == (StartAction::<C, E>::Wait { number: child.number() })
            &&& up.action == StartAction::<C, E>::Finish(Ok(()))
            &&& up.state.status == BackendStatus::Running
            &&& up.state.backend == Some(child)
            &&& up.state.scheduler_intent == SchedulerIntent::Start
            &&& !up.state.start_failed
        }),
{
}

/// A start that fails undisturbed, in its cleanup, its spawn or its wait, reports its own failure,
/// marks it, and leaves the backend stopped without a child.
pub proof fn undisturbed_failure_is_marked<C, E>(
    s: BackendState<C>,
    begun: u64,
    child: ManagedBackend<C>,
    done: u64,
    err: E,
)
    ensures
        ({
            let announced = s.announced(begun);
            let (run, _) = start_begun::<C, E>(announced);
            let ended = start_step(run, announced.entered(), StartEvent::Ended);
            let clean = start_step(ended.run, ended.state, StartEvent::CleanedUp(Ok(())));
            let there = start_step(clean.run, clean.state, StartEvent::Spawned(Ok(child)));
            let alone = start_step(there.run, there.state, StartEvent::Ended);
            let broken = start_step(
                alone.run,
                alone.state,
                StartEvent::Waited { result: Err(err), now: done },
            );
            let not_clean = start_step(ended.run, ended.state, StartEvent::CleanedUp(Err(err)));
            let not_there = start_step(clean.run, clean.state, StartEvent::Spawned(Err(err)));
            let not_ready = start_step(broken.run, broken.state, StartEvent::Ended);
            &&& broken.action == StartAction::<C, E>::End(Some(child))
            &&& failure_is_marked(not_clean, err)
            &&& failure_is_marked(not_there, err)
            &&& failure_is_marked(not_ready, err)
        }),
{
}

/// A start has ended with its own failure, which is marked in a state without a child.
pub open spec fn failure_is_marked<C, E>(last: StartStep<C, E>, err: E) -> bool {
    &&& last.action == StartAction::<C, E>::Finish(Err(StartError::Failed(err)))
    &&& last.state.status == BackendStatus::Stopped
    &&& last.state.start_failed
    &&& last.state.backend is None
}

/// How far a start has come after the given answers, each with the state that it then found.
pub open spec fn start_after<C, E>(
    run: StartRun<E>,
    answers: Seq<(BackendState<C>, StartEvent<C, E>)>,
) -> StartRun<E>
    decreases answers.len(),
{
    if answers.len() == 0 {
        run
    } else {
        start_step(
            start_after(run, answers.drop_last()),
            answers.last().0,
            answers.last().1,
        ).run
    }
}

/// Each answer is one that the start was waiting for.
pub open spec fn answers_fit<C, E>(
    run: StartRun<E>,
    answers: Seq<(BackendState<C>, StartEvent<C, E>)>,
) -> bool
    decreases answers.len(),
{
    answers.len() == 0 || (answers_fit(run, answers.drop_last()) && start_after(
        run,
        answers.drop_last(),
    ).awaits(answers.last().1))
}

/// The cleanup has succeeded.
pub open spec fn was_cleaned_up<C, E>(event: StartEvent<C, E>) -> bool {
    event matches StartEvent::CleanedUp(Ok(_))
}

/// How many answers a start has had when it has come so far.
proof fn stage_counts_answers<C, E>(
    run: StartRun<E>,
    answers: Seq<(BackendState<C>, StartEvent<C, E>)>,
)
    requires
        run.stage is Ending,
        answers_fit(run, answers),
    ensures
        answers.len() <= 6,
        start_after(run, answers).epoch == run.epoch,
        match start_after(run, answers).stage {
            StartStage::Ending => answers.len() == 0,
            StartStage::CleaningUp => answers.len() == 1 && answers[0].1 is Ended,
            StartStage::Spawning => answers.len() == 2 && answers[0].1 is Ended
                && was_cleaned_up(answers[1].1),
            StartStage::Replacing { .. } | StartStage::Refusing => answers.len() == 3,
            StartStage::Waiting { .. } => answers.len() == 4,
            StartStage::Disposing { .. } => answers.len() == 5,
            StartStage::Over => true,
        },
    decreases answers.len(),
{
    if answers.len() > 0 {
        stage_counts_answers(run, answers.drop_last());
    }
}

/// A start asks for a child only after the old one was put to an end and the cleanup has succeeded,
/// and it asks for it once. This holds whatever comes in between its steps.
pub proof fn a_child_is_spawned_last<C, E>(
    run: StartRun<E>,
    answers: Seq<(BackendState<C>, StartEvent<C, E>)>,
    s: BackendState<C>,
    event: StartEvent<C, E>,
)
    requires
        run.stage is Ending,
        answers_fit(run, answers),
        start_after(run, answers).awaits(event),
        start_step(start_after(run, answers), s, event).action is Spawn,
    ensures
        answers.len() == 1,
        answers[0].1 is Ended,
        was_cleaned_up(event),
{
    stage_counts_answers(run, answers);
}

/// A start is over after at most six answers.
pub proof fn a_start_comes_to_an_end<C, E>(
    run: StartRun<E>,
    answers: Seq<(BackendState<C>, StartEvent<C, E>)>,
)
    requires
        run.stage is Ending,
        answers_fit(run, answers),
    ensures
        answers.len() <= 6,
        answers.len() == 6 ==> start_after(run, answers).stage is Over,
{
    stage_counts_answers(run, answers);
}

/// A start that finds another epoch than its own changes nothing but that it takes out its own
/// child, and ends by reporting that a stop has intervened: it is never taken for a failure.
pub proof fn a_late_start_only_withdraws<C, E>(
    run: StartRun<E>,
    s: BackendState<C>,
    event: StartEvent<C, E>,
)
    requires
        run.awaits(event),
        s.epoch != run.epoch,
    ensures
        ({
            let next = start_step(run, s, event);
            &&& next.state == s || (next.state == s.without_child() && s.child_number()
                == run.stage->Waiting_number && next.action == StartAction::<C, E>::End(s.backend))
            &&& next.action is Finish ==> next.action == StartAction::<C, E>::Finish(
                Err(StartError::StopIntervened),
            )
        }),
{
}

/// A stop request outlives every look at the scheduler, and only a start can lose its effect.
pub proof fn only_a_start_intent_expires(intent: SchedulerIntent, alive: Option<bool>, age: u64)
    ensures
        intent != SchedulerIntent::Start ==> intent_after_scan(intent, alive, age) == intent,
        intent_after_scan(intent, alive, age) != intent ==> intent_after_scan(intent, alive, age)
            == SchedulerIntent::Nothing,
        intent_after_scan(SchedulerIntent::Start, Some(true), age) == SchedulerIntent::Nothing,
        alive != Some(true) && age < START_INTENT_TTL_MS ==> intent_after_scan(intent, alive, age)
            == intent,
{
}

/// One step of the launcher on the state: what is done, and what the step carries with it.
pub enum LifecycleStep<C> {
    Announce { now: u64 },
    Enter,
    FailBeforeSpawn { epoch: u64 },
    Install { epoch: u64, backend: ManagedBackend<C> },
    Dispose { number: Option<u32> },
    FailAfterWait { epoch: u64, took: bool },
    Finish { epoch: u64, number: Option<u32>, now: u64 },
    Stop,
    MarkStopped,
    MarkCrashed,
    Ask { intent: SchedulerIntent },
    Scan { alive: Option<bool>, now: u64 },
}

/// The state after one step.
pub open spec fn stepped<C>(s: BackendState<C>, step: LifecycleStep<C>) -> BackendState<C> {
    match step {
        LifecycleStep::Announce { now } => s.announced(now),
        LifecycleStep::Enter => s.entered(),
        LifecycleStep::FailBeforeSpawn { epoch } => if s.lost_before_spawn(epoch) {
            s
        } else {
            s.failed()
        },
        LifecycleStep::Install { epoch, backend } => if s.epoch == epoch {
            s.with_child(backend)
        } else {
            s
        },
        LifecycleStep::Dispose { number } => if s.child_number() == number {
            s.without_child()
        } else {
            s
        },
        LifecycleStep::FailAfterWait { epoch, took } => if s.epoch != epoch || !took {
            s
        } else {
            s.failed()
        },
        LifecycleStep::Finish { epoch, number, now } => if s.lost(epoch, number) {
            s
        } else {
            s.up(now)
        },
        LifecycleStep::Stop => s.stopped(),
        LifecycleStep::MarkStopped => s.absent(),
        LifecycleStep::MarkCrashed => s.gone(),
        LifecycleStep::Ask { intent } => s.asked(intent),
        LifecycleStep::Scan { alive, now } => s.asked(
            intent_after_scan(s.scheduler_intent, alive, s.intent_age(now)),
        ),
    }
}

/// The state after a number of steps, of whatever starts and stops they are.
pub open spec fn run<C>(s: BackendState<C>, steps: Seq<LifecycleStep<C>>) -> BackendState<C>
    decreases steps.len(),
{
    if steps.len() == 0 {
        s
    } else {
        stepped(run(s, steps.drop_last()), steps.last())
    }
}

/// A backend that runs has neither failed nor crashed; no backend has both failed and crashed; a
/// start that failed leaves the backend stopped; and a point in time is kept only for the intent to
/// start.
pub open spec fn consistent<C>(s: BackendState<C>) -> bool {
    &&& s.status == BackendStatus::Running ==> !s.start_failed && !s.crashed
    &&& !(s.start_failed && s.crashed)
    &&& s.start_failed ==> s.status == BackendStatus::Stopped
    &&& s.start_intent_at is Some ==> s.scheduler_intent == SchedulerIntent::Start
}

/// Every state that is reached from the initial one is consistent, however many starts and stops
/// come in between each other.
pub proof fn reached_states_are_consistent<C>(steps: Seq<LifecycleStep<C>>)
    ensures
        consistent(run(BackendState::<C>::initial(), steps)),
    decreases steps.len(),
{
    if steps.len() > 0 {
        reached_states_are_consistent(steps.drop_last());
    }
}

/// No step counts the epoch down, as long as the counter does not run over.
pub proof fn epochs_never_fall<C>(s: BackendState<C>, steps: Seq<LifecycleStep<C>>)
    requires
        s.epoch + steps.len() <= u64::MAX,
    ensures
        s.epoch <= run(s, steps).epoch <= s.epoch + steps.len(),
    decreases steps.len(),
{
    if steps.len() > 0 {
        epochs_never_fall(s, steps.drop_last());
    }
}

/// Once a stop has come, a start that began before it stays lost whatever else happens: none of its
/// later steps changes the state.
pub proof fn a_stopped_start_stays_lost<C>(
    s: BackendState<C>,
    epoch: u64,
    steps: Seq<LifecycleStep<C>>,
    backend: ManagedBackend<C>,
    now: u64,
)
    requires
        epoch <= s.epoch,
        s.epoch + 1 + steps.len() <= u64::MAX,
    ensures
        ({
            let later = run(s.stopped(), steps);
            &&& stepped(later, LifecycleStep::FailBeforeSpawn { epoch }) == later
            &&& stepped(later, LifecycleStep::Install { epoch, backend }) == later
            &&& stepped(later, LifecycleStep::FailAfterWait { epoch, took: true }) == later
            &&& stepped(
                later,
                LifecycleStep::Finish { epoch, number: backend.number(), now },
            ) == later
        }),
{
    epochs_never_fall(s.stopped(), steps);
}

/// What was seen while a child was awaited.
#[derive(Clone, Copy, Debug, PartialEq, Eq, Structural)]
pub enum WaitEvent {
    /// The child that is in the state now.
    Owner { number: Option<u32> },
    /// Whether the child has exited.
    Child { exited: bool },
    /// Whether the port answers, the child that is in the state now, and the time.
    Port { connected: bool, number: Option<u32>, now: u64 },
    /// Who owns the port, and whether that belongs to the process group of the child.
    PortOwner { spawned: u32, owner: Option<u32>, same_group: bool },
}

/// Why a child is no longer awaited.
#[derive(Clone, Copy, Debug, PartialEq, Eq, Structural)]
pub enum WaitFailure {
    Intervened,
    Exited,
    Timeout,
    Occupied { owner: u32, spawned: u32 },
}

/// What is to be done next while a child is awaited.
#[derive(Clone, Copy, Debug, PartialEq, Eq, Structural)]
pub enum WaitAction {
    /// See whether the child has exited.
    CheckChild,
    /// Try the port.
    TryPort,
    /// Find out who owns the port.
    FindPortOwner { spawned: u32 },
    /// Wait for `POLL_PAUSE_MS`, and look at the state again.
    Pause,
    Ready,
    Fail(WaitFailure),
}

/// The wait for a child.
#[derive(Clone, Copy, Debug, PartialEq, Eq, Structural)]
pub struct ReadyWait {
    pub port: u16,
    pub number: Option<u32>,
    pub deadline: u64,
}

/// What is to be done after something was seen.
pub open spec fn wait_action(w: ReadyWait, event: WaitEvent) -> WaitAction {
    match event {
        WaitEvent::Owner { number } => if number != w.number {
            WaitAction::Fail(WaitFailure::Intervened)
        } else {
            WaitAction::CheckChild
        },
        WaitEvent::Child { exited } => if exited {
            WaitAction::Fail(WaitFailure::Exited)
        } else {
            WaitAction::TryPort
        },
        WaitEvent::Port { connected, number, now } => if connected {
            if number is Some && number == w.number {
                WaitAction::FindPortOwner { spawned: number->0 }
            } else {
                WaitAction::Fail(WaitFailure::Intervened)
            }
        } else if now >= w.deadline {
            WaitAction::Fail(WaitFailure::Timeout)
        } else {
            WaitAction::Pause
        },
        WaitEvent::PortOwner { spawned, owner, same_group } => if owner is Some && !same_group {
            WaitAction::Fail(WaitFailure::Occupied { owner: owner->0, spawned })
        } else {
            WaitAction::Ready
        },
    }
}

/// The message for a wait that failed.
pub open spec fn wait_failure_text(f: WaitFailure, port: u16) -> Seq<char> {
    let p = text::decimal_of(port as nat);
    match f {
        WaitFailure::Intervened => STOP_INTERVENED@,
        WaitFailure::Exited => "gui.py exited before becoming ready"@,
        WaitFailure::Timeout => "Timeout waiting for port "@ + p + " to be ready"@,
        WaitFailure::Occupied { owner, spawned } => "Port "@ + p + " is occupied by pid "@
            + text::decimal_of(owner as nat) + " (our backend is "@ + text::decimal_of(
            spawned as nat,
        ) + "); refusing to start over a stale server"@,
    }
}

impl ReadyWait {
    /// Begins to wait for the child `number`. The first thing to do is to look at the state.
    pub fn wait_for_ready(port: u16, number: Option<u32>, now: u64) -> (r: ReadyWait)
        ensures
            r.port == port,
            r.number == number,
            r.deadline == (if now + READY_TIMEOUT_MS <= u64::MAX {
                now + READY_TIMEOUT_MS
            } else {
                u64::MAX as int
            }),
    {
        let deadline: u64 = if now <= u64::MAX - READY_TIMEOUT_MS {
            now + READY_TIMEOUT_MS
        } else {
            u64::MAX
        };
        ReadyWait { port, number, deadline }
    }

    /// Decides what is to be done after something was seen.
    pub fn step(&self, event: WaitEvent) -> (r: WaitAction)
        ensures
            r == wait_action(*self, event),
    {
        match event {
            WaitEvent::Owner { number } => {
                if number != self.number {
                    WaitAction::Fail(WaitFailure::Intervened)
                } else {
                    WaitAction::CheckChild
                }
            },
            WaitEvent::Child { exited } => {
                if exited {
                    WaitAction::Fail(WaitFailure::Exited)
                } else {
                    WaitAction::TryPort
                }
            },
            WaitEvent::Port { connected, number, now } => {
                if connected {
                    match (number, self.number) {
                        (Some(p), Some(m)) if p == m => WaitAction::FindPortOwner { spawned: p },
                        _ => WaitAction::Fail(WaitFailure::Intervened),
                    }
                } else if now >= self.deadline {
                    WaitAction::Fail(WaitFailure::Timeout)
                } else {
                    WaitAction::Pause
                }
            },
            WaitEvent::PortOwner { spawned, owner, same_group } => {
                match owner {
                    Some(o) if !same_group => WaitAction::Fail(
                        WaitFailure::Occupied { owner: o, spawned },
                    ),
                    _ => WaitAction::Ready,
                }
            },
        }
    }

    /// The message for a wait that failed.
    pub fn failure_text(&self, f: WaitFailure) -> (r: String)
        ensures
            r@ == wait_failure_text(f, self.port),
    {
        let p = text::decimal(self.port as u64);
        match f {
            WaitFailure::Intervened => String::from_str(STOP_INTERVENED),
            WaitFailure::Exited => String::from_str("gui.py exited before becoming ready"),
            WaitFailure::Timeout => {
                let mut r = String::from_str("Timeout waiting for port ");
                r.append(p.as_str());
                r.append(" to be ready");
                r
            },
            WaitFailure::Occupied { owner, spawned } => {
                let o = text::decimal(owner as u64);
                let s = text::decimal(spawned as u64);
                let mut r = String::from_str("Port ");
                r.append(p.as_str());
                r.append(" is occupied by pid ");
                r.append(o.as_str());
                r.append(" (our backend is ");
                r.append(s.as_str());
                r.append("); refusing to start over a stale server");
                r
            },
        }
    }
}

/// A wait ends well only where the port answers and is not owned by a stranger: it belongs to the
/// process group of the child, or its owner is not known.
pub proof fn ready_means_the_port_is_ours(w: ReadyWait, event: WaitEvent)
    requires
        wait_action(w, event) is Ready,
    ensures
        event is PortOwner,
        event->owner is None || event->same_group,
{
}

/// What was seen answers what was to be done.
pub open spec fn wait_answered(action: WaitAction, event: WaitEvent) -> bool {
    match action {
        WaitAction::Pause => event is Owner,
        WaitAction::CheckChild => event is Child,
        WaitAction::TryPort => event is Port,
        WaitAction::FindPortOwner { spawned } => event is PortOwner && event->spawned == spawned,
        WaitAction::Ready => false,
        WaitAction::Fail(_) => false,
    }
}

/// These things were seen one after another in a wait, from its beginning: first the state, and then
/// each time what was to be looked at. Nothing is seen after its end.
pub open spec fn wait_history(w: ReadyWait, events: Seq<WaitEvent>) -> bool {
    &&& events.len() > 0 ==> events[0] is Owner
    &&& forall|i: int|
        1 <= i < events.len() ==> wait_answered(wait_action(w, events[i - 1]), #[trigger] events[i])
}

/// A wait that ends well has just seen, in its last turn, that its child is the one in the state and
/// is alive, then that the port answers and the child is still the same one, and last that no
/// stranger owns the port.
pub proof fn ready_means_a_living_child(w: ReadyWait, events: Seq<WaitEvent>)
    requires
        wait_history(w, events),
        events.len() > 0,
        wait_action(w, events.last()) is Ready,
    ensures
        ({
            let n = events.len() as int;
            &&& n >= 4
            &&& w.number is Some
            &&& events[n - 4] == WaitEvent::Owner { number: w.number }
            &&& events[n - 3] == WaitEvent::Child { exited: false }
            &&& events[n - 2] matches WaitEvent::Port { connected, number, now }
            &&& connected && number == w.number
            &&& events[n - 1] matches WaitEvent::PortOwner { spawned, owner, same_group }
            &&& spawned == w.number->0
            &&& owner is None || same_group
        }),
{
    let n = events.len() as int;
    assert(n > 1);
    assert(wait_answered(wait_action(w, events[n - 2]), events[n - 1]));
    assert(n > 2);
    assert(wait_answered(wait_action(w, events[n - 3]), events[n - 2]));
    assert(n > 3);
    assert(wait_answered(wait_action(w, events[n - 4]), events[n - 3]));
}

/// A wait whose port never answers does not end well. It goes on after each look at the port before
/// its deadline, and the first look at the port at the deadline or after it is its last: it fails
/// with a timeout. It fails otherwise only where the child has exited, or is not the one in the
/// state any more.
pub proof fn a_silent_port_times_out(w: ReadyWait, events: Seq<WaitEvent>)
    requires
        wait_history(w, events),
        forall|i: int| 0 <= i < events.len() && #[trigger] events[i] is Port ==> !events[i]->connected,
    ensures
        forall|i: int|
            0 <= i < events.len() ==> {
                let action = wait_action(w, #[trigger] events[i]);
                &&& action !is Ready
                &&& action is Fail ==> i == events.len() - 1
                &&& match events[i] {
                    WaitEvent::Owner { number } => action == (if number == w.number {
                        WaitAction::CheckChild
                    } else {
                        WaitAction::Fail(WaitFailure::Intervened)
                    }),
                    WaitEvent::Child { exited } => action == (if exited {
                        WaitAction::Fail(WaitFailure::Exited)
                    } else {
                        WaitAction::TryPort
                    }),
                    WaitEvent::Port { connected, number, now } => action == (if now >= w.deadline {
                        WaitAction::Fail(WaitFailure::Timeout)
                    } else {
                        WaitAction::Pause
                    }),
                    WaitEvent::PortOwner { .. } => false,
                }
            },
{
    assert forall|i: int| 0 <= i < events.len() implies {
        let action = wait_action(w, #[trigger] events[i]);
        &&& events[i] !is PortOwner
        &&& action is Fail ==> i == events.len() - 1
    } by {
        if i > 0 {
            assert(wait_answered(wait_action(w, events[i - 1]), events[i]));
        }
        if i < events.len() - 1 {
            assert(wait_answered(wait_action(w, events[i + 1 - 1]), events[i + 1]));
        }
    }
}

/// What became of an attempt to kill a process group.
#[derive(Clone, Copy, Debug, PartialEq, Eq, Structural)]
pub enum GroupKill {
    Killed,
    /// There is no such group any more.
    NoSuchGroup,
    Failed,
}

/// What was seen while a child was put to an end.
#[derive(Clone, Copy, Debug, PartialEq, Eq, Structural)]
pub enum TermEvent {
    /// Nothing was done yet.
    Begin { platform: Platform },
    /// It has been asked to exit, and so much time has passed since.
    Asked { elapsed: u64 },
    /// Whether it has exited.
    Polled { exited: bool },
    /// It has exited, and the rest of its group was killed.
    Swept(GroupKill),
    /// It has not exited in time, and its group was killed.
    Forced(GroupKill),
}

/// What is to be done next while a child is put to an end.
#[derive(Clone, Copy, Debug, PartialEq, Eq, Structural)]
pub enum TermAction {
    /// Ask its group to exit.
    Ask,
    /// See whether it has exited.
    Poll,
    /// Wait for `POLL_PAUSE_MS`.
    Pause,
    /// Kill what is left of its group.
    Sweep,
    /// Kill its group.
    Force,
    /// It is over. `unregister` says whether the group is known to be gone.
    Done { unregister: bool },
    /// Wait for the exit of the child, whose group is gone.
    Collect,
    /// The group could not be killed.
    Fail,
}

/// What is to be done after something was seen.
pub open spec fn term_action(event: TermEvent) -> TermAction {
    match event {
        TermEvent::Begin { platform } => if platform == Platform::Windows {
            TermAction::Force
        } else {
            TermAction::Ask
        },
        TermEvent::Asked { elapsed } => if elapsed < TERM_GRACE_MS {
            TermAction::Poll
        } else {
            TermAction::Force
        },
        TermEvent::Polled { exited } => if exited {
            TermAction::Sweep
        } else {
            TermAction::Pause
        },
        TermEvent::Swept(k) => TermAction::Done { unregister: k != GroupKill::Failed },
        TermEvent::Forced(k) => if k == GroupKill::Killed {
            TermAction::Collect
        } else {
            TermAction::Fail
        },
    }
}

/// Decides how a child is put to an end: it is asked to exit, where that can be done, given
/// `TERM_GRACE_MS`, and then killed; what is left of its group is killed in any case.
pub fn termination(event: TermEvent) -> (r: TermAction)
    ensures
        r == term_action(event),
{
    match event {
        TermEvent::Begin { platform } => {
            if platform == Platform::Windows {
                TermAction::Force
            } else {
                TermAction::Ask
            }
        },
        TermEvent::Asked { elapsed } => {
            if elapsed < TERM_GRACE_MS {
                TermAction::Poll
            } else {
                TermAction::Force
            }
        },
        TermEvent::Polled { exited } => {
            if exited {
                TermAction::Sweep
            } else {
                TermAction::Pause
            }
        },
        TermEvent::Swept(k) => TermAction::Done { unregister: k != GroupKill::Failed },
        TermEvent::Forced(k) => {
            if k == GroupKill::Killed {
                TermAction::Collect
            } else {
                TermAction::Fail
            }
        },
    }
}

/// A group is forgotten only when it is known to be gone: where killing it has failed it stays
/// registered, to be killed when the launcher exits.
pub proof fn living_groups_stay_registered(event: TermEvent)
    requires
        event == TermEvent::Swept(GroupKill::Failed) || event == TermEvent::Forced(
            GroupKill::Failed,
        ),
    ensures
        term_action(event) == (TermAction::Done { unregister: false }) || term_action(event)
            == TermAction::Fail,
{
}

/// The mark that the launcher `pid` leaves in the environment of its children.
pub open spec fn launcher_mark(pid: u32) -> Seq<char> {
    "ALAS_LAUNCHER_PID="@ + text::decimal_of(pid as nat)
}

/// Whether the process `pid` with the environment `environ` is a child of the launcher that was
/// left over: it carries the launcher's mark, and is not the launcher itself.
pub fn is_leaked_child(pid: u32, environ: &Vec<String>, launcher_pid: u32) -> (r: bool)
    ensures
        r == (pid != launcher_pid && text::texts(environ@).contains(launcher_mark(launcher_pid))),
{
    let n = text::decimal(launcher_pid as u64);
    let mut mark = String::from_str("ALAS_LAUNCHER_PID=");
    mark.append(n.as_str());
    pid != launcher_pid && text::is_among(environ, mark.as_str())
}

/// The arguments that the backend is spawned with.
pub open spec fn spawn_arguments(port: u16) -> Seq<Seq<char>> {
    seq!["gui.py"@, "--host"@, "127.0.0.1"@, "--port"@, text::decimal_of(port as nat)]
}

/// The arguments that the backend is spawned with.
pub fn spawn_args(port: u16) -> (r: Vec<String>)
    ensures
        text::texts(r@) == spawn_arguments(port),
{
    let mut r: Vec<String> = Vec::new();
    r.push(String::from_str("gui.py"));
    r.push(String::from_str("--host"));
    r.push(String::from_str("127.0.0.1"));
    r.push(String::from_str("--port"));
    r.push(text::decimal(port as u64));
    assert(text::texts(r@) =~= spawn_arguments(port));
    r
}

/// A backend that the launcher has spawned is one that a later cleanup on that port suspects,
/// whatever program runs it.
pub proof fn spawned_backend_is_suspected(
    c: crate::stale_cleanup::CandidateView,
    program: Seq<char>,
    port: u16,
)
    requires
        c.cmd == seq![program] + spawn_arguments(port),
    ensures
        crate::stale_cleanup::suspected(c, port),
{
    assert(c.cmd[1] == "gui.py"@);
    assert(text::occurs_at("gui.py"@, "gui.py"@, 0)) by {
        assert("gui.py"@.subrange(0, "gui.py"@.len() as int) =~= "gui.py"@);
    }
    assert(text::has_text(c.cmd[1], "gui.py"@));
    assert(c.cmd[4] == "--port"@ && c.cmd[5] == text::decimal_of(port as nat));
}

/// What a click on the start and stop item does: it starts a backend that is stopped, does nothing
/// while one starts, and in one that runs it stops or starts the scheduler, or stops the whole backend
/// where the scheduler cannot be reached.
pub proof fn what_a_click_does(status: BackendStatus, alive: bool, reachable: bool)
    ensures
        toggled(status, alive, reachable) == ToggleAction::NoOp <==> status
            == BackendStatus::Initializing,
        toggled(status, alive, reachable) == ToggleAction::StartBackend <==> status
            == BackendStatus::Stopped,
        toggled(status, alive, reachable) == ToggleAction::StopBackend <==> status
            == BackendStatus::Running && !reachable,
        toggled(status, alive, reachable) == ToggleAction::StopScheduler <==> status
            == BackendStatus::Running && reachable && alive,
        toggled(status, alive, reachable) == ToggleAction::StartScheduler <==> status
            == BackendStatus::Running && reachable && !alive,
{
}

/// A start that was asked for is forgotten once the scheduler runs or a minute and a half has passed;
/// until then it stays, and so does everything else that was asked for.
pub proof fn when_a_request_is_forgotten(intent: SchedulerIntent, alive: Option<bool>, age: u64)
    ensures
        intent_after_scan(intent, alive, age) != intent <==> intent == SchedulerIntent::Start && (
        alive == Some(true) || age >= 90_000),
        intent_after_scan(intent, alive, age) == intent || intent_after_scan(intent, alive, age)
            == SchedulerIntent::Nothing,
{
}

/// The step belongs to a start that still owns the state, or to none.
pub open spec fn owns_the_state<C>(s: BackendState<C>, step: LifecycleStep<C>) -> bool {
    match step {
        LifecycleStep::Enter => s.pending_start_epoch is None || s.pending_start_epoch
            == Some(s.epoch),
        LifecycleStep::FailBeforeSpawn { epoch } => s.epoch == epoch && s.backend is None,
        LifecycleStep::Install { epoch, .. } => s.epoch == epoch,
        LifecycleStep::Dispose { number } => number == (if s.backend is Some
            && s.backend->0.child is Some {
            Some(s.backend->0.id)
        } else {
            None
        }),
        LifecycleStep::FailAfterWait { epoch, took } => s.epoch == epoch && took,
        LifecycleStep::Finish { epoch, number, .. } => s.epoch == epoch && number == (if s.backend
            is Some && s.backend->0.child is Some {
            Some(s.backend->0.id)
        } else {
            None
        }),
        _ => true,
    }
}

/// The child is there from its installation until the next start begins, the backend is stopped, or
/// its wait has failed; no other step touches it. Only a stop counts as one, and only an announcement
/// makes a start pending, until a start begins.
pub proof fn which_steps_touch_the_child<C>(s: BackendState<C>, step: LifecycleStep<C>)
    requires
        s.epoch < u64::MAX,
    ensures
        ({
            let t = stepped(s, step);
            let own = owns_the_state(s, step);
            &&& t.backend == (match step {
                LifecycleStep::Install { backend, .. } if own => Some(backend),
                LifecycleStep::Enter if own => None,
                LifecycleStep::Dispose { .. } if own => None,
                LifecycleStep::Stop => None,
                _ => s.backend,
            })
            &&& t.epoch == (if step is Stop {
                s.epoch + 1
            } else {
                s.epoch as int
            })
            &&& t.pending_start_epoch == (match step {
                LifecycleStep::Announce { .. } => Some(s.epoch),
                LifecycleStep::Enter => None,
                _ => s.pending_start_epoch,
            })
        }),
{
}

/// The backend is said to start from an announcement or the beginning of a start on, to run once a
/// start has come to its end, and to be stopped after a failure, a stop or a crash. That a start has
/// failed is said until another one begins or the backend is stopped or crashes; that it has crashed
/// is said until a start is announced or comes to an end, or the backend is stopped.
pub proof fn which_steps_touch_the_status<C>(s: BackendState<C>, step: LifecycleStep<C>)
    ensures
        ({
            let t = stepped(s, step);
            let own = owns_the_state(s, step);
            let fails = own && (step is FailBeforeSpawn || step is FailAfterWait);
            let comes_up = own && step is Finish;
            &&& t.status == (if step is Announce || (step is Enter && own) {
                BackendStatus::Initializing
            } else if comes_up {
                BackendStatus::Running
            } else if fails || step is Stop || step is MarkStopped || step is MarkCrashed {
                BackendStatus::Stopped
            } else {
                s.status
            })
            &&& t.start_failed <==> fails || (s.start_failed && !comes_up && !(step is Announce
                || (step is Enter && own) || step is Stop || step is MarkCrashed))
            &&& t.crashed <==> step is MarkCrashed || (s.crashed && !fails && !comes_up && !(step
                is Announce || step is Stop || step is MarkStopped))
        }),
{
}

/// What is asked of the scheduler changes with what the user asks, with a start, which asks for one,
/// and with a look that finds a start fulfilled or too old; when the backend fails, stops or crashes
/// nothing is asked any more. The time of a start is kept as long as a start is asked for.
pub proof fn which_steps_touch_the_request<C>(s: BackendState<C>, step: LifecycleStep<C>)
    ensures
        ({
            let t = stepped(s, step);
            let own = owns_the_state(s, step);
            let ends = (own && (step is FailBeforeSpawn || step is FailAfterWait)) || step is Stop
                || step is MarkStopped || step is MarkCrashed;
            &&& ends ==> t.scheduler_intent == SchedulerIntent::Nothing && t.start_intent_at is None
            &&& step is Announce ==> t.scheduler_intent == SchedulerIntent::Start
                && t.start_intent_at == Some(step->Announce_now)
            &&& step is Finish && own ==> t.scheduler_intent == SchedulerIntent::Start
                && t.start_intent_at == Some(step->Finish_now)
            &&& step is Ask ==> t.scheduler_intent == step->intent && t.start_intent_at == (
            if step->intent == SchedulerIntent::Start {
                s.start_intent_at
            } else {
                None
            })
            &&& step is Scan ==> {
                let seen = step->alive == Some(true);
                let old = s.start_intent_at is Some && step->Scan_now >= s.start_intent_at->0
                    + 90_000;
                let forgotten = s.scheduler_intent == SchedulerIntent::Start && (seen || old);
                &&& t.scheduler_intent == (if forgotten {
                    SchedulerIntent::Nothing
                } else {
                    s.scheduler_intent
                })
                &&& t.start_intent_at == (if t.scheduler_intent == SchedulerIntent::Start {
                    s.start_intent_at
                } else {
                    None
                })
            }
            &&& !ends && !(step is Announce) && !(step is Finish && own) && !(step is Ask) && !(step
                is Scan) ==> t.scheduler_intent == s.scheduler_intent && t.start_intent_at
                == s.start_intent_at
        }),
{
}

/// What a wait comes to: it is over as soon as another child is in the state or its own has exited;
/// the port is ready if it answers while the child is there, unless it is known to belong to a process
/// outside the group of the child, which is named; and a silent port is given up at the deadline.
pub proof fn what_a_wait_comes_to(w: ReadyWait, event: WaitEvent)
    ensures
        ({
            let a = wait_action(w, event);
            &&& event is Owner ==> a == (if event->Owner_number == w.number {
                WaitAction::CheckChild
            } else {
                WaitAction::Fail(WaitFailure::Intervened)
            })
            &&& event is Child ==> a == (if event->exited {
                WaitAction::Fail(WaitFailure::Exited)
            } else {
                WaitAction::TryPort
            })
            &&& event is Port && !event->connected ==> a == (if event->now < w.deadline {
                WaitAction::Pause
            } else {
                WaitAction::Fail(WaitFailure::Timeout)
            })
            &&& event is Port && event->connected ==> a == (if w.number is Some
                && event->Port_number == w.number {
                WaitAction::FindPortOwner { spawned: w.number->0 }
            } else {
                WaitAction::Fail(WaitFailure::Intervened)
            })
            &&& event is PortOwner ==> (a == WaitAction::Ready <==> event->owner is None
                || event->same_group)
            &&& event is PortOwner && a != WaitAction::Ready ==> a == WaitAction::Fail(
                WaitFailure::Occupied { owner: event->owner->0, spawned: event->spawned },
            )
        }),
{
}

/// How a child is put to an end: on a system where it can be asked it is asked first and looked at
/// until half a second has passed, and what is left of its group is killed once it has exited; else,
/// and where it has not exited by then, its group is killed.
pub proof fn how_a_child_is_put_to_an_end(event: TermEvent)
    ensures
        term_action(event) == TermAction::Ask <==> event is Begin && event->platform
            != Platform::Windows,
        term_action(event) == TermAction::Force <==> (event is Begin && event->platform
            == Platform::Windows) || (event is Asked && event->elapsed >= 500),
        term_action(event) == TermAction::Poll <==> event is Asked && event->elapsed < 500,
        term_action(event) == TermAction::Sweep <==> event is Polled && event->exited,
        term_action(event) == TermAction::Pause <==> event is Polled && !event->exited,
        term_action(event) == TermAction::Collect <==> event == TermEvent::Forced(
            GroupKill::Killed,
        ),
        term_action(event) == TermAction::Fail <==> event is Forced && event != TermEvent::Forced(
            GroupKill::Killed,
        ),
        event is Swept ==> term_action(event) == (TermAction::Done {
            unregister: event != TermEvent::Swept(GroupKill::Failed),
        }),
{
}

/// How a start ends: well, exactly if its wait has ended well while its own child is in the state and
/// no stop has come; by its own failure, exactly if the cleanup, the spawn or the wait has failed
/// while the state was still its own; and in every other case because another has taken over.
pub proof fn how_a_start_ends<C, E>(
    run: StartRun<E>,
    s: BackendState<C>,
    event: StartEvent<C, E>,
)
    requires
        run.awaits(event),
    ensures
        ({
            let next = start_step(run, s, event);
            let held = if s.backend is Some && s.backend->0.child is Some {
                Some(s.backend->0.id)
            } else {
                None
            };
            let waited_well = event is Waited && event->Waited_result is Ok;
            let waited_in_vain = event is Waited && event->Waited_result is Err;
            let failed_early = (event is CleanedUp && event->CleanedUp_0 is Err) || (event
                is Spawned && event->Spawned_0 is Err);
            let disposed = event is Ended && run.stage is Disposing;
            &&& next.run.epoch == run.epoch
            &&& next.action is Finish <==> waited_well || failed_early || disposed || (event
                is Ended && run.stage is Refusing)
            &&& next.action is Finish <==> next.run.stage is Over
            &&& next.action == StartAction::<C, E>::Finish(Ok(())) <==> waited_well && s.epoch
                == run.epoch && held == run.stage->Waiting_number
            &&& next.action is Finish && next.action->Finish_0 is Err
                && next.action->Finish_0->Err_0 is Failed <==> (failed_early && s.epoch == run.epoch
                && s.backend is None) || (disposed && s.epoch == run.epoch
                && run.stage->Disposing_took)
            &&& next.state.status == BackendStatus::Running ==> s.status == BackendStatus::Running
                || next.action == StartAction::<C, E>::Finish(Ok(()))
            &&& next.action == StartAction::<C, E>::Finish(Ok(())) ==> next.state.status
                == BackendStatus::Running && next.state.backend == s.backend
            &&& waited_in_vain ==> next.action == StartAction::<C, E>::End(
                if held == run.stage->Waiting_number {
                    s.backend
                } else {
                    None
                },
            )
            &&& waited_in_vain && held == run.stage->Waiting_number ==> next.state.backend is None
            &&& waited_in_vain ==> next.run.stage == (StartStage::<E>::Disposing {
                took: held == run.stage->Waiting_number && s.backend is Some,
                err: event->Waited_result->Err_0,
            })
        }),
{
}

/// The child that a start has spawned comes into the state, and the one that is there is put to an
/// end; after a stop it is the new child that is put to an end, and the state stays as it is.
pub proof fn where_a_child_goes<C, E>(
    run: StartRun<E>,
    s: BackendState<C>,
    child: ManagedBackend<C>,
)
    ensures
        ({
            let next = start_step(run, s, StartEvent::Spawned(Ok(child)));
            &&& s.epoch == run.epoch ==> {
                &&& next.state == (BackendState { backend: Some(child), ..s })
                &&& next.action == StartAction::<C, E>::End(s.backend)
                &&& next.run.stage == (StartStage::<E>::Replacing {
                    number: if child.child is Some {
                        Some(child.id)
                    } else {
                        None
                    },
                })
            }
            &&& s.epoch != run.epoch ==> {
                &&& next.state == s
                &&& next.action == StartAction::<C, E>::End(Some(child))
                &&& next.run.stage is Refusing
            }
        }),
{
}

/// The message of a wait that failed names the port where it was silent or in other hands, and in the
/// latter case both processes.
pub proof fn what_a_failed_wait_says(port: u16, owner: u32, spawned: u32)
    ensures
        wait_failure_text(WaitFailure::Timeout, port) == "Timeout waiting for port "@
            + text::decimal_of(port as nat) + " to be ready"@,
        wait_failure_text(WaitFailure::Occupied { owner, spawned }, port) == "Port "@
            + text::decimal_of(port as nat) + " is occupied by pid "@ + text::decimal_of(
            owner as nat,
        ) + " (our backend is "@ + text::decimal_of(spawned as nat)
            + "); refusing to start over a stale server"@,
        wait_failure_text(WaitFailure::Intervened, port) == "stop intervened during backend start"@,
        wait_failure_text(WaitFailure::Exited, port) == "gui.py exited before becoming ready"@,
{
}

/// The backend is spawned with the web interface on the loopback address and the given port, and with
/// the launcher's number as its mark.
pub proof fn how_a_backend_is_spawned(port: u16, pid: u32)
    ensures
        text::joined(spawn_arguments(port), " "@) == "gui.py --host 127.0.0.1 --port "@
            + text::decimal_of(port as nat),
        launcher_mark(pid) == "ALAS_LAUNCHER_PID="@ + text::decimal_of(pid as nat),
{
    reveal_strlit("gui.py");
    reveal_strlit("--host");
    reveal_strlit("127.0.0.1");
    reveal_strlit("--port");
    reveal_strlit(" ");
    reveal_strlit("gui.py --host 127.0.0.1 --port ");
    let p = text::decimal_of(port as nat);
    let all = spawn_arguments(port);
    assert(all.drop_last() =~= seq!["gui.py"@, "--host"@, "127.0.0.1"@, "--port"@]);
    assert(all.drop_last().drop_last() =~= seq!["gui.py"@, "--host"@, "127.0.0.1"@]);
    assert(all.drop_last().drop_last().drop_last() =~= seq!["gui.py"@, "--host"@]);
    assert(all.drop_last().drop_last().drop_last().drop_last() =~= seq!["gui.py"@]);
    reveal_with_fuel(text::joined, 6);
    assert(text::joined(all, " "@) =~= "gui.py --host 127.0.0.1 --port "@ + p);
}

/// What the menu shows of a state follows its steps: that it has crashed after a crash, that a start
/// has failed after a failure, and what is asked of the scheduler after the user has asked it.
pub proof fn what_is_shown_of_a_state<C>(s: BackendState<C>, intent: SchedulerIntent)
    ensures
        s.shown().status == s.status,
        s.gone().shown().crashed && !s.gone().shown().start_failed,
        s.failed().shown().start_failed && !s.failed().shown().crashed,
        !s.stopped().shown().crashed && !s.stopped().shown().start_failed,
        s.asked(intent).shown().scheduler_intent == intent,
        s.asked(intent).shown().status == s.shown().status,
        s.asked(intent).shown().crashed == s.shown().crashed,
{
}

} // verus!
