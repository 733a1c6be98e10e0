//! What the user is notified of: tasks that were completed, and a scheduler that ended by itself.
//!
//! The end of the scheduler is seen in two ways: it was running and then twice in a row was not, or
//! its instance went from running to failed. Either way it is notified once, until the scheduler is
//! seen running again or the backend stops.
use vstd::prelude::*;

use crate::alas_tasks::{task_views, Task, TaskView};
use crate::shell_settings::{ShellSettings, ShellSettingsView};
use crate::text;

verus! {

/// Something that the user may be notified of.
#[derive(Debug, PartialEq, Eq)]
pub enum NotifyEvent {
    SchedulerDeath { name: String },
    TaskComplete { name: String, command: String, next_time: String },
}

/// Something that the user may be notified of.
pub enum NotifyEventView {
    SchedulerDeath { name: Seq<char> },
    TaskComplete { name: Seq<char>, command: Seq<char>, next_time: Seq<char> },
}

impl View for NotifyEvent {
    type V = NotifyEventView;

    open spec fn view(&self) -> NotifyEventView {
        match self {
            NotifyEvent::SchedulerDeath { name } => NotifyEventView::SchedulerDeath { name: name@ },
            NotifyEvent::TaskComplete { name, command, next_time } => {
                NotifyEventView::TaskComplete {
                    name: name@,
                    command: command@,
                    next_time: next_time@,
                }
            },
        }
    }
}

/// What the events of a list say.
pub open spec fn event_views(v: Seq<NotifyEvent>) -> Seq<NotifyEventView> {
    v.map_values(|e: NotifyEvent| e@)
}

/// The first task with the command `command`.
pub open spec fn task_with(tasks: Seq<TaskView>, command: Seq<char>) -> Option<TaskView>
    decreases tasks.len(),
{
    if tasks.len() == 0 {
        None
    } else if tasks[0].command == command {
        Some(tasks[0])
    } else {
        task_with(tasks.skip(1), command)
    }
}

/// The completion that shows in a task: the time of its next run has moved on.
pub open spec fn completion(before: TaskView, now: Seq<TaskView>) -> Option<NotifyEventView> {
    match task_with(now, before.command) {
        Some(t) => if before.next_time is Some && t.next_time is Some && !text::precedes(
            t.next_time->0,
            before.next_time->0,
        ) {
            Some(
                NotifyEventView::TaskComplete {
                    name: t.name,
                    command: t.command,
                    next_time: t.next_time->0,
                },
            )
        } else {
            None
        },
        None => None,
    }
}

/// The completions that show in the tasks of a list, in their order.
pub open spec fn completions(prev: Seq<TaskView>, now: Seq<TaskView>) -> Seq<NotifyEventView>
    decreases prev.len(),
{
    if prev.len() == 0 {
        Seq::empty()
    } else {
        let before = completions(prev.drop_last(), now);
        match completion(prev.last(), now) {
            Some(e) => before.push(e),
            None => before,
        }
    }
}

/// The first task with the command `command`.
fn find_task<'a>(tasks: &'a [Task], command: &str) -> (r: Option<&'a Task>)
    ensures
        match r {
            Some(t) => task_with(task_views(tasks@), command@) == Some(t@),
            None => task_with(task_views(tasks@), command@) is None,
        },
{
    let ghost all = task_views(tasks@);
    let mut i: usize = 0;
    assert(all.skip(0) =~= all);
    while i < tasks.len()
        invariant
            i <= tasks@.len(),
            all == task_views(tasks@),
            task_with(all, command@) == task_with(all.skip(i as int), command@),
        decreases tasks@.len() - i,
    {
        proof {
            assert(all[i as int] == tasks@[i as int]@);
            assert(all.skip(i as int)[0] == all[i as int]);
            assert(all.skip(i as int).skip(1) =~= all.skip(i + 1));
        }
        if text::same(tasks[i].command.as_str(), command) {
            return Some(&tasks[i]);
        }
        i = i + 1;
    }
    None
}

/// Finds the tasks that were completed between two looks at the list.
pub fn diff_tasks(prev: &[Task], now: &[Task]) -> (r: Vec<NotifyEvent>)
    ensures
        event_views(r@) == completions(task_views(prev@), task_views(now@)),
{
    let mut out: Vec<NotifyEvent> = Vec::new();
    let ghost old_list = task_views(prev@);
    let ghost new_list = task_views(now@);
    let mut i: usize = 0;
    assert(old_list.take(0) =~= Seq::<TaskView>::empty());
    assert(event_views(out@) =~= Seq::<NotifyEventView>::empty());
    while i < prev.len()
        invariant
            i <= prev@.len(),
            old_list == task_views(prev@),
            new_list == task_views(now@),
            event_views(out@) == completions(old_list.take(i as int), new_list),
        decreases prev@.len() - i,
    {
        let p = &prev[i];
        proof {
            assert(old_list.take(i + 1).drop_last() =~= old_list.take(i as int));
            assert(old_list[i as int] == prev@[i as int]@);
            assert(old_list.take(i + 1).last() == old_list[i as int]);
        }
        if let Some(before) = &p.next_time {
            if let Some(cur) = find_task(now, p.command.as_str()) {
                if let Some(next) = &cur.next_time {
                    if !text::not_after(next.as_str(), before.as_str()) {
                        let ghost done = out@;
                        let e = NotifyEvent::TaskComplete {
                            name: cur.name.clone(),
                            command: cur.command.clone(),
                            next_time: next.clone(),
                        };
                        out.push(e);
                        assert(event_views(out@) =~= event_views(done).push(e@));
                    }
                }
            }
        }
        i = i + 1;
    }
    assert(old_list.take(old_list.len() as int) =~= old_list);
    out
}

/// A list in which no command stands twice has no completion against itself.
pub proof fn unchanged_list_has_no_completions(tasks: Seq<TaskView>)
    requires
        forall|i: int, j: int|
            0 <= i < j < tasks.len() ==> (#[trigger] tasks[i]).command != (
            #[trigger] tasks[j]).command,
    ensures
        completions(tasks, tasks) == Seq::<NotifyEventView>::empty(),
{
    no_completions_up_to(tasks, tasks.len() as int);
    assert(tasks.take(tasks.len() as int) =~= tasks);
}

proof fn task_with_finds(tasks: Seq<TaskView>, k: int)
    requires
        0 <= k < tasks.len(),
        forall|j: int| 0 <= j < k ==> (#[trigger] tasks[j]).command != tasks[k].command,
    ensures
        task_with(tasks, tasks[k].command) == Some(tasks[k]),
    decreases k,
{
    if k > 0 {
        let rest = tasks.skip(1);
        assert(rest[k - 1] == tasks[k]);
        assert forall|j: int| 0 <= j < k - 1 implies (#[trigger] rest[j]).command
            != rest[k - 1].command by {
            assert(rest[j] == tasks[j + 1]);
        }
        task_with_finds(rest, k - 1);
    }
}

proof fn no_completions_up_to(tasks: Seq<TaskView>, n: int)
    requires
        0 <= n <= tasks.len(),
        forall|i: int, j: int|
            0 <= i < j < tasks.len() ==> (#[trigger] tasks[i]).command != (
            #[trigger] tasks[j]).command,
    ensures
        completions(tasks.take(n), tasks) == Seq::<NotifyEventView>::empty(),
    decreases n,
{
    if n > 0 {
        no_completions_up_to(tasks, n - 1);
        assert(tasks.take(n).drop_last() =~= tasks.take(n - 1));
        assert(tasks.take(n).last() == tasks[n - 1]);
        task_with_finds(tasks, n - 1);
        if tasks[n - 1].next_time is Some {
            text::precedes_total(tasks[n - 1].next_time->0, tasks[n - 1].next_time->0);
        }
    }
}

/// Whether the instance went from running to failed.
pub fn death_by_state(prev_state: Option<u8>, new_state: Option<u8>) -> (r: bool)
    ensures
        r == (prev_state == Some(1u8) && new_state == Some(3u8)),
{
    match (prev_state, new_state) {
        (Some(a), Some(b)) => a == 1 && b == 3,
        _ => false,
    }
}

/// How many looks in a row must find the scheduler dead.
pub const PERSIST_SCANS: u8 = 2;

/// The number of looks in a row that have found the scheduler dead since it was last seen running.
pub open spec fn streak_after(prev: Option<bool>, now: Option<bool>, streak: u8) -> u8 {
    if prev == Some(true) && now == Some(false) {
        1
    } else if prev == Some(false) && now == Some(false) && streak > 0 {
        if streak < u8::MAX {
            (streak + 1) as u8
        } else {
            streak
        }
    } else {
        0
    }
}

/// Counts the looks in a row that have found the scheduler dead, and says whether there are now
/// just enough of them.
pub fn liveness_death(prev: Option<bool>, now: Option<bool>, dead_streak: &mut u8) -> (r: bool)
    ensures
        *final(dead_streak) == streak_after(prev, now, *old(dead_streak)),
        r == (*final(dead_streak) == PERSIST_SCANS),
{
    match (prev, now) {
        (Some(true), Some(false)) => {
            *dead_streak = 1;
        },
        (Some(false), Some(false)) if *dead_streak > 0 => {
            if *dead_streak < u8::MAX {
                *dead_streak = *dead_streak + 1;
            }
        },
        _ => {
            *dead_streak = 0;
        },
    }
    *dead_streak == PERSIST_SCANS
}

/// The count after a number of looks, before the first of which nothing was known.
pub open spec fn streak_of(scans: Seq<Option<bool>>) -> u8
    decreases scans.len(),
{
    if scans.len() == 0 {
        0
    } else {
        let prev = if scans.len() > 1 {
            scans[scans.len() - 2]
        } else {
            None
        };
        streak_after(prev, scans.last(), streak_of(scans.drop_last()))
    }
}

/// The end of the scheduler is seen exactly at the second look in a row that finds it dead after
/// one that found it running: once for every time that it ends, and never where it was not seen
/// running before.
pub proof fn death_is_seen_once(scans: Seq<Option<bool>>)
    ensures
        streak_of(scans) == PERSIST_SCANS <==> {
            let n = scans.len() as int;
            &&& n >= 3
            &&& scans[n - 3] == Some(true)
            &&& scans[n - 2] == Some(false)
            &&& scans[n - 1] == Some(false)
        },
{
    let n = scans.len() as int;
    if n > 0 {
        let front = scans.drop_last();
        if n > 1 {
            assert(front.last() == scans[n - 2]);
            if n > 2 {
                assert(front[front.len() - 2] == scans[n - 3]);
            }
            assert(streak_of(front) == 1 <==> n >= 3 && scans[n - 3] == Some(true) && scans[n - 2]
                == Some(false));
        } else {
            assert(streak_of(front) == 0);
        }
    }
}

/// The user wants to be notified of the event.
pub open spec fn wanted(event: NotifyEventView, settings: ShellSettingsView) -> bool {
    settings.notify_enabled && match event {
        NotifyEventView::SchedulerDeath { .. } => settings.notify_scheduler_death,
        NotifyEventView::TaskComplete { .. } => settings.notify_task_complete,
    }
}

/// Whether the user wants to be notified of the event.
pub fn should_notify(event: &NotifyEvent, settings: &ShellSettings) -> (r: bool)
    ensures
        r == wanted(event@, settings@),
{
    if !settings.notify_enabled {
        return false;
    }
    match event {
        NotifyEvent::SchedulerDeath { .. } => settings.notify_scheduler_death,
        NotifyEvent::TaskComplete { .. } => settings.notify_task_complete,
    }
}

/// Whether the end of the scheduler is still to be notified. Once it was, it is not until the
/// scheduler is seen running or the backend does not run; the look that sees so does not notify.
fn death_notify_allowed(now_alive: Option<bool>, backend_running: bool, fired: &mut bool) -> (r:
    bool)
    ensures
        r == !*old(fired),
        *final(fired) == (*old(fired) && now_alive != Some(true) && backend_running),
{
    if *fired {
        if now_alive == Some(true) || !backend_running {
            *fired = false;
        }
        return false;
    }
    true
}

/// What is seen in one look.
pub struct DeathCycle {
    pub prev_alive: Option<bool>,
    pub now_alive: Option<bool>,
    pub gates_ok: bool,
    pub backend_running: bool,
    pub state_died: bool,
}

/// Whether a look notifies the end of the scheduler.
pub open spec fn notifies(c: DeathCycle, streak: u8, notified: bool) -> bool {
    !notified && ((c.gates_ok && streak_after(c.prev_alive, c.now_alive, streak) == PERSIST_SCANS)
        || c.state_died)
}

/// The count after a look: it stands still while nothing is to be notified.
pub open spec fn streak_kept(c: DeathCycle, streak: u8, notified: bool) -> u8 {
    if !notified && c.gates_ok {
        streak_after(c.prev_alive, c.now_alive, streak)
    } else {
        streak
    }
}

/// Whether the end of the scheduler counts as notified after a look.
pub open spec fn notified_after(c: DeathCycle, streak: u8, notified: bool) -> bool {
    if notified {
        c.now_alive != Some(true) && c.backend_running
    } else {
        notifies(c, streak, notified)
    }
}

/// Decides whether a look notifies the end of the scheduler. `gates_ok` says that the backend runs
/// and the user has asked nothing of the scheduler; `state_died` that the instance has failed.
pub fn death_notify_decision(
    prev_alive: Option<bool>,
    now_alive: Option<bool>,
    gates_ok: bool,
    backend_running: bool,
    state_died: bool,
    dead_streak: &mut u8,
    death_notified: &mut bool,
) -> (r: bool)
    ensures
        ({
            let c = DeathCycle { prev_alive, now_alive, gates_ok, backend_running, state_died };
            &&& r == notifies(c, *old(dead_streak), *old(death_notified))
            &&& *final(dead_streak) == streak_kept(c, *old(dead_streak), *old(death_notified))
            &&& *final(death_notified) == notified_after(
                c,
                *old(dead_streak),
                *old(death_notified),
            )
        }),
{
    let allowed = death_notify_allowed(now_alive, backend_running, death_notified);
    let mut died = false;
    if allowed && gates_ok {
        died = liveness_death(prev_alive, now_alive, dead_streak);
    }
    if allowed && state_died {
        died = true;
    }
    if died {
        *death_notified = true;
    }
    died
}

/// The count and the latch after a number of looks.
pub open spec fn death_run(cycles: Seq<DeathCycle>, streak: u8, notified: bool) -> (u8, bool)
    decreases cycles.len(),
{
    if cycles.len() == 0 {
        (streak, notified)
    } else {
        let (s, n) = death_run(cycles.drop_last(), streak, notified);
        (streak_kept(cycles.last(), s, n), notified_after(cycles.last(), s, n))
    }
}

/// Once the end of the scheduler was notified, no later look notifies it again as long as none has
/// found the scheduler running and the backend runs, whatever the user asks of the scheduler
/// meanwhile.
pub proof fn one_notification_per_episode(cycles: Seq<DeathCycle>, streak: u8, next: DeathCycle)
    requires
        forall|i: int|
            0 <= i < cycles.len() ==> (#[trigger] cycles[i]).now_alive != Some(true)
                && cycles[i].backend_running,
    ensures
        death_run(cycles, streak, true).1,
        !notifies(next, death_run(cycles, streak, true).0, death_run(cycles, streak, true).1),
    decreases cycles.len(),
{
    if cycles.len() > 0 {
        let front = cycles.drop_last();
        assert forall|i: int| 0 <= i < front.len() implies (#[trigger] front[i]).now_alive != Some(
            true,
        ) && front[i].backend_running by {
            assert(front[i] == cycles[i]);
        }
        one_notification_per_episode(front, streak, next);
        assert(cycles.last() == cycles[cycles.len() - 1]);
    }
}

/// A later end of the scheduler is notified again: after the notification the scheduler was seen
/// running, and then twice in a row was not.
pub proof fn a_later_death_is_notified(streak: u8)
    ensures
        ({
            let seen = |prev: Option<bool>, now: Option<bool>| DeathCycle {
                prev_alive: prev,
                now_alive: now,
                gates_ok: true,
                backend_running: true,
                state_died: false,
            };
            let alive = seen(Some(false), Some(true));
            let dead = seen(Some(true), Some(false));
            let still_dead = seen(Some(false), Some(false));
            let (s, n) = death_run(seq![alive, dead], streak, true);
            notifies(still_dead, s, n)
        }),
{
    let seen = |prev: Option<bool>, now: Option<bool>| DeathCycle {
        prev_alive: prev,
        now_alive: now,
        gates_ok: true,
        backend_running: true,
        state_died: false,
    };
    let alive = seen(Some(false), Some(true));
    let dead = seen(Some(true), Some(false));
    reveal_with_fuel(death_run, 3);
    assert(seq![alive, dead].drop_last() =~= seq![alive]);
    assert(seq![alive].drop_last() =~= Seq::<DeathCycle>::empty());
}

/// The task `p` of an older list has moved on in the list `now`: the first task with its command,
/// the `j`th, is to run later than `p` was.
pub open spec fn has_moved_on(p: TaskView, now: Seq<TaskView>, j: int) -> bool {
    &&& 0 <= j < now.len()
    &&& now[j].command == p.command
    &&& forall|m: int| 0 <= m < j ==> (#[trigger] now[m]).command != p.command
    &&& p.next_time is Some
    &&& now[j].next_time is Some
    &&& text::precedes(p.next_time->0, now[j].next_time->0)
    &&& p.next_time->0 != now[j].next_time->0
}

/// Exactly the tasks that have moved on are reported as completed, in the order of the older list,
/// with the name, the command and the time that they have now. Nothing else of a task plays a part.
pub proof fn completed_tasks_are_reported(prev: Seq<TaskView>, now: Seq<TaskView>)
    ensures
        ({
            let done = prev.filter(|p: TaskView| exists|j: int| has_moved_on(p, now, j));
            let events = completions(prev, now);
            &&& events.len() == done.len()
            &&& forall|k: int, j: int|
                0 <= k < done.len() && #[trigger] has_moved_on(done[k], now, j) ==> events[k] == (
                NotifyEventView::TaskComplete {
                    name: now[j].name,
                    command: now[j].command,
                    next_time: now[j].next_time->0,
                })
        }),
        forall|i: int, j: int|
            0 <= i < prev.len() && #[trigger] has_moved_on(prev[i], now, j) ==> completions(
                prev,
                now,
            ).contains(
                NotifyEventView::TaskComplete {
                    name: now[j].name,
                    command: now[j].command,
                    next_time: now[j].next_time->0,
                },
            ),
    decreases prev.len(),
{
    reveal(Seq::filter);
    let moved = |p: TaskView| exists|j: int| has_moved_on(p, now, j);
    if prev.len() > 0 {
        let front = prev.drop_last();
        completed_tasks_are_reported(front, now);
        let before = completions(front, now);
        let events = completions(prev, now);
        let done = prev.filter(moved);
        let p = prev.last();
        completion_is_seen(p, now);
        assert forall|k: int, j: int|
            0 <= k < done.len() && #[trigger] has_moved_on(done[k], now, j) implies events[k] == (
        NotifyEventView::TaskComplete {
            name: now[j].name,
            command: now[j].command,
            next_time: now[j].next_time->0,
        }) by {
            if k < front.filter(moved).len() {
                assert(done[k] == front.filter(moved)[k]);
                assert(events[k] == before[k]);
            } else {
                assert(done[k] == p);
                assert(has_moved_on(p, now, j));
            }
        }
        assert forall|i: int, j: int|
            0 <= i < prev.len() && #[trigger] has_moved_on(prev[i], now, j) implies events.contains(
            NotifyEventView::TaskComplete {
                name: now[j].name,
                command: now[j].command,
                next_time: now[j].next_time->0,
            },
        ) by {
            let e = NotifyEventView::TaskComplete {
                name: now[j].name,
                command: now[j].command,
                next_time: now[j].next_time->0,
            };
            if i < front.len() {
                assert(front[i] == prev[i]);
                assert(has_moved_on(front[i], now, j));
                assert(before.contains(e));
                let m = choose|m: int| 0 <= m < before.len() && before[m] == e;
                assert(events[m] == e);
            } else {
                assert(has_moved_on(p, now, j));
                assert(events[events.len() - 1] == e);
            }
        }
    }
}

proof fn completion_is_seen(p: TaskView, now: Seq<TaskView>)
    ensures
        completion(p, now) is Some <==> exists|j: int| has_moved_on(p, now, j),
        forall|j: int|
            #[trigger] has_moved_on(p, now, j) ==> completion(p, now) == Some(
                NotifyEventView::TaskComplete {
                    name: now[j].name,
                    command: now[j].command,
                    next_time: now[j].next_time->0,
                },
            ),
{
    task_with_is_first(now, p.command);
    assert forall|j: int| #[trigger] has_moved_on(p, now, j) implies completion(p, now) == Some(
        NotifyEventView::TaskComplete {
            name: now[j].name,
            command: now[j].command,
            next_time: now[j].next_time->0,
        },
    ) by {
        task_with_finds(now, j);
        if text::precedes(now[j].next_time->0, p.next_time->0) {
            text::precedes_antisymmetric(now[j].next_time->0, p.next_time->0);
        }
    }
    if completion(p, now) is Some {
        let j = choose|j: int|
            0 <= j < now.len() && now[j] == task_with(now, p.command)->0 && now[j].command
                == p.command && forall|m: int|
                0 <= m < j ==> (#[trigger] now[m]).command != p.command;
        text::precedes_total(now[j].next_time->0, p.next_time->0);
        if now[j].next_time->0 == p.next_time->0 {
            text::precedes_total(p.next_time->0, p.next_time->0);
        }
        assert(has_moved_on(p, now, j));
    }
}

proof fn task_with_is_first(tasks: Seq<TaskView>, command: Seq<char>)
    ensures
        match task_with(tasks, command) {
            Some(t) => exists|j: int|
                0 <= j < tasks.len() && tasks[j] == t && tasks[j].command == command && forall|
                    m: int,
                |
                    0 <= m < j ==> (#[trigger] tasks[m]).command != command,
            None => forall|j: int| 0 <= j < tasks.len() ==> (#[trigger] tasks[j]).command != command,
        },
    decreases tasks.len(),
{
    if tasks.len() > 0 {
        let rest = tasks.skip(1);
        if tasks[0].command == command {
            assert(task_with(tasks, command) == Some(tasks[0]));
            assert(0 <= 0 < tasks.len() && tasks[0] == tasks[0] && tasks[0].command == command);
        } else {
            task_with_is_first(rest, command);
            assert(forall|m: int| 0 < m < tasks.len() ==> #[trigger] tasks[m] == rest[m - 1]);
            match task_with(rest, command) {
                Some(t) => {
                    let j = choose|j: int|
                        0 <= j < rest.len() && rest[j] == t && rest[j].command == command && forall|
                            m: int,
                        |
                            0 <= m < j ==> (#[trigger] rest[m]).command != command;
                    assert(tasks[j + 1] == t);
                    assert forall|m: int| 0 <= m < j + 1 implies (#[trigger] tasks[m]).command
                        != command by {
                        if m > 0 {
                            assert(rest[m - 1] == tasks[m]);
                        }
                    }
                },
                None => {},
            }
        }
    }
}

/// How a task stands, and whether it is enabled, plays no part in whether it was completed.
pub proof fn the_state_of_a_task_plays_no_part(
    prev: Seq<TaskView>,
    now: Seq<TaskView>,
    prev_other: Seq<TaskView>,
    now_other: Seq<TaskView>,
)
    requires
        prev.len() == prev_other.len(),
        now.len() == now_other.len(),
        forall|i: int|
            0 <= i < prev.len() ==> (#[trigger] prev[i]).command == prev_other[i].command
                && prev[i].next_time == prev_other[i].next_time,
        forall|i: int|
            0 <= i < now.len() ==> (#[trigger] now[i]).command == now_other[i].command
                && now[i].next_time == now_other[i].next_time && now[i].name == now_other[i].name,
    ensures
        completions(prev, now) == completions(prev_other, now_other),
    decreases prev.len(),
{
    if prev.len() > 0 {
        let a = prev.drop_last();
        let b = prev_other.drop_last();
        assert forall|i: int| 0 <= i < a.len() implies (#[trigger] a[i]).command == b[i].command
            && a[i].next_time == b[i].next_time by {
            assert(a[i] == prev[i] && b[i] == prev_other[i]);
        }
        the_state_of_a_task_plays_no_part(a, now, b, now_other);
        assert(prev[prev.len() - 1] == prev.last());
        same_task_is_found(now, now_other, prev.last().command);
    }
}

proof fn same_task_is_found(now: Seq<TaskView>, other: Seq<TaskView>, command: Seq<char>)
    requires
        now.len() == other.len(),
        forall|i: int|
            0 <= i < now.len() ==> (#[trigger] now[i]).command == other[i].command
                && now[i].next_time == other[i].next_time && now[i].name == other[i].name,
    ensures
        match (task_with(now, command), task_with(other, command)) {
            (Some(a), Some(b)) => a.name == b.name && a.command == b.command && a.next_time
                == b.next_time,
            (None, None) => true,
            _ => false,
        },
    decreases now.len(),
{
    if now.len() > 0 {
        let a = now.skip(1);
        let b = other.skip(1);
        assert(now[0].command == other[0].command);
        assert forall|i: int| 0 <= i < a.len() implies (#[trigger] a[i]).command == b[i].command
            && a[i].next_time == b[i].next_time && a[i].name == b[i].name by {
            assert(a[i] == now[i + 1] && b[i] == other[i + 1]);
        }
        same_task_is_found(a, b, command);
    }
}

/// A scheduler that was seen running and then in two looks in a row was not is notified at the second
/// of them, whatever was counted before, and not at the first, if nobody has asked anything of it
/// and its end was not notified yet.
pub proof fn a_death_is_notified_at_the_second_look(
    first: DeathCycle,
    second: DeathCycle,
    streak: u8,
)
    requires
        first.prev_alive == Some(true) && first.now_alive == Some(false) && first.gates_ok,
        second.prev_alive == Some(false) && second.now_alive == Some(false) && second.gates_ok,
        !first.state_died,
    ensures
        !notifies(first, streak, false),
        !notified_after(first, streak, false),
        notifies(second, streak_kept(first, streak, false), false),
        notified_after(second, streak_kept(first, streak, false), false),
{
}

/// An instance that goes from running to failed is notified at once, even while the user has asked
/// something of the scheduler, unless its end was notified already.
pub proof fn a_failed_instance_is_notified(c: DeathCycle, streak: u8, notified: bool)
    requires
        c.state_died,
    ensures
        notifies(c, streak, notified) == !notified,
        !notified ==> notified_after(c, streak, notified),
{
}

/// Nothing is notified of a scheduler that runs, of which nothing is known, or that has just been
/// asked something, as long as its instance has not failed.
pub proof fn no_death_is_made_up(c: DeathCycle, streak: u8, notified: bool)
    requires
        !c.state_died,
        c.now_alive != Some(false) || c.prev_alive is None || !c.gates_ok,
    ensures
        !notifies(c, streak, notified),
        !c.gates_ok ==> streak_kept(c, streak, notified) == streak,
        c.gates_ok && !notified ==> streak_kept(c, streak, notified) == 0,
{
}

/// An end that was notified may be notified again as soon as the scheduler is seen running, or the
/// backend does not run.
pub proof fn an_episode_is_over(c: DeathCycle, streak: u8)
    requires
        c.now_alive == Some(true) || !c.backend_running,
    ensures
        !notified_after(c, streak, true),
{
}

/// What the user wants to be notified of: nothing where notifications are off, else each kind by its
/// own switch, and by no other.
pub proof fn each_kind_has_its_switch(
    death: NotifyEventView,
    done: NotifyEventView,
    settings: ShellSettingsView,
)
    requires
        death is SchedulerDeath,
        done is TaskComplete,
    ensures
        !settings.notify_enabled ==> !wanted(death, settings) && !wanted(done, settings),
        settings.notify_enabled ==> wanted(death, settings) == settings.notify_scheduler_death,
        settings.notify_enabled ==> wanted(done, settings) == settings.notify_task_complete,
{
}

/// The end of the scheduler is notified exactly if it was not notified before, and either the instance
/// has failed by its own account, or the scheduler is found dead at the second look in a row while
/// nothing else explains that.
pub proof fn exactly_when_a_death_is_notified(c: DeathCycle, streak: u8, notified: bool)
    ensures
        notifies(c, streak, notified) <==> !notified && (c.state_died || (c.gates_ok && c.prev_alive
            == Some(false) && c.now_alive == Some(false) && streak == 1)),
        notified_after(c, streak, notified) <==> notifies(c, streak, notified) || (notified
            && c.now_alive != Some(true) && c.backend_running),
        notified || !c.gates_ok ==> streak_kept(c, streak, notified) == streak,
        !notified && c.gates_ok && c.now_alive != Some(false) ==> streak_kept(c, streak, notified)
            == 0,
        !notified && c.gates_ok && c.now_alive == Some(false) && c.prev_alive is None
            ==> streak_kept(c, streak, notified) == 0,
        !notified && c.gates_ok && c.now_alive == Some(false) && c.prev_alive == Some(true)
            ==> streak_kept(c, streak, notified) == 1,
        !notified && c.gates_ok && c.now_alive == Some(false) && c.prev_alive == Some(false) && 0
            < streak < 255 ==> streak_kept(c, streak, notified) == streak + 1,
        !notified && c.gates_ok && c.now_alive == Some(false) && c.prev_alive == Some(false)
            && streak == 0 ==> streak_kept(c, streak, notified) == 0,
{
}

} // verus!
