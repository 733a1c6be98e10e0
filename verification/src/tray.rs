//! The tray: what its menu holds, what a click does, and what is done at each look at the backend.
use vstd::prelude::*;

use crate::alas_tasks::{copy_tasks, task_views, Task, TaskView};
use crate::backend::{
    scheduler_alive, toggle_decision, toggled, BackendStateSnapshot, BackendStatus, SchedulerIntent,
    ToggleAction,
};
use crate::control_api::SchedulerAction;
use crate::menu_model::{
    commands_differ, item_views, poll_decision, poll_needs_rebuild, read_count, section_for,
    section_rows, task_section_items, toggle_enabled, toggle_text, ControlLabels, ShellMenuLabels,
    TaskMenuItem, TaskMenuItemView, TaskSection,
};
use crate::notify::{
    completions, death_by_state, death_notify_decision, diff_tasks, event_views, notified_after,
    notifies, should_notify, streak_kept, wanted, DeathCycle, NotifyEvent, NotifyEventView,
};
use crate::shell_settings::{ShellSettings, ShellSettingsView};
use crate::text;

verus! {

/// The time between two looks at the backend.
pub const TRAY_POLL_INTERVAL_MS: u64 = 3_000;

/// How long the port of the backend is given to answer a look.
pub const PORT_PROBE_MS: u64 = 100;

/// How long the start of the scheduler is tried after that of the backend.
pub const START_RETRY_MS: u64 = 15_000;

/// The pause between two tries to start the scheduler.
pub const START_RETRY_PAUSE_MS: u64 = 1_500;

/// A row of the menu.
#[derive(Debug, PartialEq, Eq)]
pub enum MenuRow {
    Item { id: String, text: String, enabled: bool },
    Separator,
}

/// A row of the menu.
pub enum MenuRowView {
    Item { id: Seq<char>, text: Seq<char>, enabled: bool },
    Separator,
}

impl View for MenuRow {
    type V = MenuRowView;

    open spec fn view(&self) -> MenuRowView {
        match self {
            MenuRow::Item { id, text, enabled } => MenuRowView::Item {
                id: id@,
                text: text@,
                enabled: *enabled,
            },
            MenuRow::Separator => MenuRowView::Separator,
        }
    }
}

/// What the rows of a menu show.
pub open spec fn row_views(v: Seq<MenuRow>) -> Seq<MenuRowView> {
    v.map_values(|r: MenuRow| r@)
}

/// A row of the task section as a row of the menu: none of them can be clicked.
pub open spec fn read_only(item: TaskMenuItemView) -> MenuRowView {
    match item {
        TaskMenuItemView::GroupHeader { id, text } => MenuRowView::Item { id, text, enabled: false },
        TaskMenuItemView::TaskItem { id, text } => MenuRowView::Item { id, text, enabled: false },
        TaskMenuItemView::Separator => MenuRowView::Separator,
    }
}

/// The rows of the task section.
pub open spec fn task_part(section: TaskSection, tasks: Seq<TaskView>) -> Seq<MenuRowView> {
    match section {
        TaskSection::Degraded => seq![
            MenuRowView::Item {
                id: "tasks-degraded"@,
                text: "Tasks: unavailable"@,
                enabled: false,
            },
        ],
        TaskSection::Empty => seq![
            MenuRowView::Item { id: "tasks-empty"@, text: "No tasks"@, enabled: false },
        ],
        TaskSection::Tasks => section_rows(tasks).map_values(|i: TaskMenuItemView| read_only(i)),
    }
}

/// The rows above the task section.
pub open spec fn upper_part(
    status_line: Seq<char>,
    toggle_text: Seq<char>,
    toggle_on: bool,
) -> Seq<MenuRowView> {
    seq![
        MenuRowView::Item { id: "tray-status"@, text: status_line, enabled: false },
        MenuRowView::Item { id: "tray-toggle"@, text: toggle_text, enabled: toggle_on },
        MenuRowView::Separator,
    ]
}

/// The rows below the task section.
pub open spec fn lower_part() -> Seq<MenuRowView> {
    seq![
        MenuRowView::Item { id: "tray-refresh"@, text: "Refresh"@, enabled: true },
        MenuRowView::Separator,
        MenuRowView::Item { id: "tray-show"@, text: "Show Window"@, enabled: true },
        MenuRowView::Item { id: "tray-quit"@, text: "Quit"@, enabled: true },
    ]
}

/// A row with a text.
fn row(id: &str, text: &str, enabled: bool) -> (r: MenuRow)
    ensures
        r@ == (MenuRowView::Item { id: id@, text: text@, enabled }),
{
    MenuRow::Item { id: String::from_str(id), text: String::from_str(text), enabled }
}

/// Puts a row behind those that are there.
fn push_row(rows: &mut Vec<MenuRow>, new_row: MenuRow)
    ensures
        row_views(final(rows)@) == row_views(old(rows)@).push(new_row@),
{
    let ghost before = rows@;
    rows.push(new_row);
    assert(row_views(rows@) =~= row_views(before).push(new_row@));
}

/// Makes the menu. While a click is being processed the start and stop item says so and cannot be
/// clicked; it cannot be clicked either while the backend starts.
pub fn build_menu(
    snapshot: &BackendStateSnapshot,
    tasks: &[Task],
    section: TaskSection,
    labels: &ControlLabels,
    scheduler_alive: Option<bool>,
    status_line: &str,
    processing: bool,
) -> (r: Vec<MenuRow>)
    ensures
        row_views(r@) == upper_part(
            status_line@,
            if processing {
                labels.processing@
            } else {
                toggle_text(snapshot.status, scheduler_alive, labels@)
            },
            snapshot.status != BackendStatus::Initializing && !processing,
        ) + task_part(section, task_views(tasks@)) + lower_part(),
{
    let shown = if processing {
        labels.processing.as_str()
    } else if snapshot.status == BackendStatus::Running && scheduler_alive == Some(true) {
        labels.stop.as_str()
    } else {
        labels.start.as_str()
    };
    let on = toggle_enabled(snapshot.status) && !processing;
    let ghost upper = upper_part(status_line@, shown@, on);
    let mut rows: Vec<MenuRow> = Vec::new();
    assert(row_views(rows@) =~= Seq::<MenuRowView>::empty());
    push_row(&mut rows, row("tray-status", status_line, false));
    push_row(&mut rows, row("tray-toggle", shown, on));
    push_row(&mut rows, MenuRow::Separator);
    assert(row_views(rows@) =~= upper);
    let ghost part = task_part(section, task_views(tasks@));
    match section {
        TaskSection::Degraded => {
            push_row(&mut rows, row("tasks-degraded", "Tasks: unavailable", false));
        },
        TaskSection::Empty => {
            push_row(&mut rows, row("tasks-empty", "No tasks", false));
        },
        TaskSection::Tasks => {
            let items = task_section_items(tasks);
            let ghost shown_items = item_views(items@);
            let mut i: usize = 0;
            assert(upper + part.take(0) =~= upper);
            while i < items.len()
                invariant
                    i <= items@.len(),
                    shown_items == item_views(items@),
                    part == shown_items.map_values(|i: TaskMenuItemView| read_only(i)),
                    row_views(rows@) == upper + part.take(i as int),
                decreases items@.len() - i,
            {
                let next = match &items[i] {
                    TaskMenuItem::GroupHeader { id, text } => row(id.as_str(), text, false),
                    TaskMenuItem::TaskItem { id, text } => row(id.as_str(), text.as_str(), false),
                    TaskMenuItem::Separator => MenuRow::Separator,
                };
                proof {
                    assert(shown_items[i as int] == items@[i as int]@);
                    assert(part[i as int] == next@);
                    assert(part.take(i + 1) =~= part.take(i as int).push(next@));
                    assert((upper + part.take(i as int)).push(next@) =~= upper + part.take(i + 1));
                }
                push_row(&mut rows, next);
                i = i + 1;
            }
            assert(part.take(part.len() as int) =~= part);
        },
    }
    assert(row_views(rows@) =~= upper + part);
    push_row(&mut rows, row("tray-refresh", "Refresh", true));
    push_row(&mut rows, MenuRow::Separator);
    push_row(&mut rows, row("tray-show", "Show Window", true));
    push_row(&mut rows, row("tray-quit", "Quit", true));
    assert(row_views(rows@) =~= upper + part + lower_part());
    rows
}

/// No row of the task section can be clicked.
pub proof fn tasks_are_read_only(section: TaskSection, tasks: Seq<TaskView>, i: int)
    requires
        0 <= i < task_part(section, tasks).len(),
    ensures
        task_part(section, tasks)[i] is Separator || !task_part(section, tasks)[i]->enabled,
{
}

/// What a click in the menu asks for.
#[derive(Clone, Copy, Debug, PartialEq, Eq, Structural)]
pub enum TrayClick {
    Toggle,
    Refresh,
    Show,
    Quit,
    Other,
}

/// What a click on the row `id` asks for.
pub fn tray_click(id: &str) -> (r: TrayClick)
    ensures
        r == (if id@ == "tray-toggle"@ {
            TrayClick::Toggle
        } else if id@ == "tray-refresh"@ {
            TrayClick::Refresh
        } else if id@ == "tray-show"@ {
            TrayClick::Show
        } else if id@ == "tray-quit"@ {
            TrayClick::Quit
        } else {
            TrayClick::Other
        }),
{
    if text::same(id, "tray-toggle") {
        TrayClick::Toggle
    } else if text::same(id, "tray-refresh") {
        TrayClick::Refresh
    } else if text::same(id, "tray-show") {
        TrayClick::Show
    } else if text::same(id, "tray-quit") {
        TrayClick::Quit
    } else {
        TrayClick::Other
    }
}

/// Why the thread that looks at the backend has woken up.
#[derive(Clone, Copy, Debug, PartialEq, Eq, Structural)]
pub enum Wake {
    /// A look is requested.
    Requested,
    /// `TRAY_POLL_INTERVAL_MS` have passed.
    Timeout,
    /// Nobody can request a look any more.
    Disconnected,
}

/// Decides whether the thread takes a look, and whether that makes the menu anew in any case; none
/// where the thread ends.
pub fn next_poll(wake: Wake) -> (r: Option<bool>)
    ensures
        r == (match wake {
            Wake::Requested => Some(true),
            Wake::Timeout => Some(false),
            Wake::Disconnected => None,
        }),
{
    match wake {
        Wake::Requested => Some(true),
        Wake::Timeout => Some(false),
        Wake::Disconnected => None,
    }
}

/// Takes the flag that a click is being processed. Fails if another click has it.
pub fn try_acquire_in_flight(flag: &mut bool) -> (r: bool)
    ensures
        r == !*old(flag),
        *final(flag),
{
    if *flag {
        return false;
    }
    *flag = true;
    true
}

/// Gives the flag back.
pub fn release_in_flight(flag: &mut bool)
    ensures
        !*final(flag),
{
    *flag = false;
}

/// What a click on the start and stop item brings about.
#[derive(Clone, Copy, Debug, PartialEq, Eq, Structural)]
pub struct TogglePlan {
    /// The backend has gone away by itself, and that is to be noted first.
    pub crashed: bool,
    pub scheduler_alive: bool,
    pub action: ToggleAction,
    /// What is taken down as asked of the scheduler.
    pub intent: Option<SchedulerIntent>,
    /// What is asked of the scheduler.
    pub call: Option<SchedulerAction>,
    /// The scheduler is to be started once the backend runs.
    pub then_start: bool,
}

/// The scheduler runs, as far as can be seen: the number of children of the web server is known and
/// large enough.
pub open spec fn seen_running(children: Option<usize>) -> bool {
    children is Some && children->0 > 1
}

/// What a click on the start and stop item brings about. Where the backend should run but its port
/// is dead, it has gone away, and is started.
pub open spec fn toggle_plan(
    status: BackendStatus,
    port_alive: bool,
    children: Option<usize>,
    available: bool,
) -> TogglePlan {
    let crashed = status == BackendStatus::Running && !port_alive;
    let alive = status == BackendStatus::Running && port_alive && seen_running(children);
    let action = toggled(
        if crashed {
            BackendStatus::Stopped
        } else {
            status
        },
        alive,
        available,
    );
    TogglePlan {
        crashed,
        scheduler_alive: alive,
        action,
        intent: match action {
            ToggleAction::StopScheduler => Some(SchedulerIntent::Stop),
            ToggleAction::StartScheduler => Some(SchedulerIntent::Start),
            _ => None,
        },
        call: match action {
            ToggleAction::StopScheduler => Some(SchedulerAction::Stop),
            ToggleAction::StartScheduler => Some(SchedulerAction::Start),
            _ => None,
        },
        then_start: action == ToggleAction::StartBackend && available,
    }
}

/// Decides what a click on the start and stop item brings about. `children` is the number of
/// children of the web server, where the number of the backend is known; `ws_available` says that
/// the backend lets itself be controlled, and `patch_failed` that it was not prepared for that.
pub fn handle_toggle(
    snapshot: &BackendStateSnapshot,
    port_alive: bool,
    children: Option<usize>,
    ws_available: bool,
    patch_failed: bool,
) -> (r: TogglePlan)
    ensures
        r == toggle_plan(snapshot.status, port_alive, children, ws_available && !patch_failed),
{
    let mut now = *snapshot;
    let running = snapshot.status == BackendStatus::Running;
    let alive = running && port_alive && match children {
        Some(n) => scheduler_alive(n),
        None => false,
    };
    let crashed = running && !port_alive;
    if crashed {
        now.status = BackendStatus::Stopped;
    }
    let action = toggle_decision(&now, alive, ws_available && !patch_failed);
    let (intent, call) = match action {
        ToggleAction::StopScheduler => (Some(SchedulerIntent::Stop), Some(SchedulerAction::Stop)),
        ToggleAction::StartScheduler => (
            Some(SchedulerIntent::Start),
            Some(SchedulerAction::Start),
        ),
        _ => (None, None),
    };
    let then_start = action == ToggleAction::StartBackend && ws_available && !patch_failed;
    TogglePlan { crashed, scheduler_alive: alive, action, intent, call, then_start }
}

/// What the user asked of the scheduler is taken down exactly when it is asked of the scheduler, and
/// that is only done to a backend that runs, answers and lets itself be controlled.
pub proof fn intents_match_calls(
    status: BackendStatus,
    port_alive: bool,
    children: Option<usize>,
    available: bool,
)
    ensures
        ({
            let p = toggle_plan(status, port_alive, children, available);
            &&& p.intent is Some <==> p.call is Some
            &&& p.call == Some(SchedulerAction::Stop) <==> p.intent == Some(SchedulerIntent::Stop)
            &&& p.call is Some ==> status == BackendStatus::Running && port_alive && available
            &&& p.call == Some(SchedulerAction::Stop) ==> seen_running(children)
            &&& p.crashed ==> p.action == ToggleAction::StartBackend
        }),
{
}

/// What is to be done after a try to start the scheduler.
#[derive(Clone, Copy, Debug, PartialEq, Eq, Structural)]
pub enum RetryStep {
    Done,
    /// Try again after `START_RETRY_PAUSE_MS`.
    Pause,
    GiveUp,
}

/// Decides what is to be done after a try to start the scheduler behind the backend.
pub fn start_retry(ok: bool, now: u64, deadline: u64) -> (r: RetryStep)
    ensures
        r == (if ok {
            RetryStep::Done
        } else if now < deadline {
            RetryStep::Pause
        } else {
            RetryStep::GiveUp
        }),
{
    if ok {
        RetryStep::Done
    } else if now < deadline {
        RetryStep::Pause
    } else {
        RetryStep::GiveUp
    }
}

/// Whether the main window shows a page of the launcher, which a change of the language renews.
pub fn refresh_stopped_page(status: BackendStatus) -> (r: bool)
    ensures
        r == (status != BackendStatus::Running),
{
    status != BackendStatus::Running
}

/// Whether so many looks in a row that found the port dead mean that the backend has gone away.
pub fn should_mark_crashed(fail_count: u8) -> (r: bool)
    ensures
        r == (fail_count >= 2),
{
    fail_count >= 2
}

/// A process, as far as the scheduler is looked for among them.
#[derive(Debug)]
pub struct ProcessRow {
    pub pid: u32,
    pub parent: Option<u32>,
    pub zombie: bool,
    pub cmd: Vec<String>,
}

/// The process keeps track of the resources of others: it is always there, and is not counted.
pub open spec fn is_tracker(p: ProcessRow) -> bool {
    text::some_has(text::texts(p.cmd@), "multiprocessing.resource_tracker"@)
}

/// Whether the process keeps track of the resources of others.
pub fn is_resource_tracker(p: &ProcessRow) -> (r: bool)
    ensures
        r == is_tracker(*p),
{
    text::any_contains(&p.cmd, "multiprocessing.resource_tracker")
}

/// The first child of `pid` that is counted.
pub open spec fn first_child(rows: Seq<ProcessRow>, pid: u32) -> Option<u32>
    decreases rows.len(),
{
    if rows.len() == 0 {
        None
    } else if rows[0].parent == Some(pid) && !is_tracker(rows[0]) {
        Some(rows[0].pid)
    } else {
        first_child(rows.skip(1), pid)
    }
}

/// The process is a child of `pid` that is alive and counted.
pub open spec fn is_live_child(p: ProcessRow, pid: u32) -> bool {
    p.parent == Some(pid) && !p.zombie && !is_tracker(p)
}

/// How many children of `pid` are alive and counted.
pub open spec fn live_children(rows: Seq<ProcessRow>, pid: u32) -> nat
    decreases rows.len(),
{
    if rows.len() == 0 {
        0
    } else {
        live_children(rows.drop_last(), pid) + (if is_live_child(rows.last(), pid) {
            1nat
        } else {
            0nat
        })
    }
}

/// How many children the web server has: it is the backend itself, or where that reloads itself a
/// child of it. Where there is none, there are no children either.
pub open spec fn server_children(rows: Seq<ProcessRow>, backend_pid: u32, reload: bool) -> nat {
    if reload {
        match first_child(rows, backend_pid) {
            Some(pid) => live_children(rows, pid),
            None => 0,
        }
    } else {
        live_children(rows, backend_pid)
    }
}

/// The first child of `pid` that is counted.
fn find_child(rows: &[ProcessRow], pid: u32) -> (r: Option<u32>)
    ensures
        r == first_child(rows@, pid),
{
    let mut i: usize = 0;
    assert(rows@.skip(0) =~= rows@);
    while i < rows.len()
        invariant
            i <= rows@.len(),
            first_child(rows@, pid) == first_child(rows@.skip(i as int), pid),
        decreases rows@.len() - i,
    {
        assert(rows@.skip(i as int)[0] == rows@[i as int]);
        assert(rows@.skip(i as int).skip(1) =~= rows@.skip(i + 1));
        let is_child = match rows[i].parent {
            Some(p) => p == pid,
            None => false,
        };
        if is_child && !is_resource_tracker(&rows[i]) {
            return Some(rows[i].pid);
        }
        i = i + 1;
    }
    None
}

/// Counts the children of the web server in a listing of the processes.
pub fn uvicorn_alive_child_count(rows: &[ProcessRow], backend_pid: u32, enable_reload: bool) -> (r:
    usize)
    ensures
        r == server_children(rows@, backend_pid, enable_reload),
{
    let server: u32 = if enable_reload {
        match find_child(rows, backend_pid) {
            Some(p) => p,
            None => {
                return 0;
            },
        }
    } else {
        backend_pid
    };
    let mut n: usize = 0;
    let mut i: usize = 0;
    assert(rows@.take(0) =~= Seq::<ProcessRow>::empty());
    while i < rows.len()
        invariant
            i <= rows@.len(),
            n <= i,
            n == live_children(rows@.take(i as int), server),
        decreases rows@.len() - i,
    {
        assert(rows@.take(i + 1).drop_last() =~= rows@.take(i as int));
        assert(rows@.take(i + 1).last() == rows@[i as int]);
        let is_child = match rows[i].parent {
            Some(p) => p == server,
            None => false,
        };
        if is_child && !rows[i].zombie && !is_resource_tracker(&rows[i]) {
            n = n + 1;
        }
        i = i + 1;
    }
    assert(rows@.take(rows@.len() as int) =~= rows@);
    n
}

/// A process that is not a live child of `pid` does not change how many there are, wherever it
/// stands in the listing.
pub proof fn strangers_do_not_count(
    before: Seq<ProcessRow>,
    p: ProcessRow,
    after: Seq<ProcessRow>,
    pid: u32,
)
    requires
        !is_live_child(p, pid),
    ensures
        live_children(before.push(p) + after, pid) == live_children(before + after, pid),
    decreases after.len(),
{
    if after.len() == 0 {
        assert(before.push(p) + after =~= before.push(p));
        assert(before + after =~= before);
        assert(before.push(p).drop_last() =~= before);
    } else {
        strangers_do_not_count(before, p, after.drop_last(), pid);
        assert((before.push(p) + after).drop_last() =~= before.push(p) + after.drop_last());
        assert((before + after).drop_last() =~= before + after.drop_last());
        assert((before.push(p) + after).last() == after.last());
        assert((before + after).last() == after.last());
    }
}

/// The text of a notification.
pub open spec fn notification_text(e: NotifyEventView, labels: ShellMenuLabels) -> Seq<char> {
    match e {
        NotifyEventView::TaskComplete { name, command, next_time } => text::replaced(
            text::replaced(labels.notify_task_done@, "{name}"@, name),
            "{next_time}"@,
            next_time,
        ),
        NotifyEventView::SchedulerDeath { name } => text::replaced(
            labels.notify_death_body@,
            "{name}"@,
            name,
        ),
    }
}

/// The text of a notification.
pub fn notification_body(e: &NotifyEvent, labels: &ShellMenuLabels) -> (r: String)
    ensures
        r@ == notification_text(e@, *labels),
{
    proof {
        reveal_strlit("{name}");
        reveal_strlit("{next_time}");
    }
    match e {
        NotifyEvent::TaskComplete { name, command: _, next_time } => {
            let named = text::replace(labels.notify_task_done.as_str(), "{name}", name.as_str());
            text::replace(named.as_str(), "{next_time}", next_time.as_str())
        },
        NotifyEvent::SchedulerDeath { name } => text::replace(
            labels.notify_death_body.as_str(),
            "{name}",
            name.as_str(),
        ),
    }
}

/// The texts of the notifications that the user wants, for these events.
pub open spec fn wanted_texts(
    events: Seq<NotifyEventView>,
    settings: ShellSettingsView,
    labels: ShellMenuLabels,
) -> Seq<Seq<char>>
    decreases events.len(),
{
    if events.len() == 0 {
        Seq::empty()
    } else {
        let before = wanted_texts(events.drop_last(), settings, labels);
        if wanted(events.last(), settings) {
            before.push(notification_text(events.last(), labels))
        } else {
            before
        }
    }
}

/// The texts of the notifications that the user wants, for these events.
fn notifications_for(
    events: &Vec<NotifyEvent>,
    settings: &ShellSettings,
    labels: &ShellMenuLabels,
) -> (r: Vec<String>)
    ensures
        text::texts(r@) == wanted_texts(event_views(events@), settings@, *labels),
{
    let mut out: Vec<String> = Vec::new();
    let ghost all = event_views(events@);
    let mut i: usize = 0;
    assert(all.take(0) =~= Seq::<NotifyEventView>::empty());
    assert(text::texts(out@) =~= Seq::<Seq<char>>::empty());
    while i < events.len()
        invariant
            i <= events@.len(),
            all == event_views(events@),
            text::texts(out@) == wanted_texts(all.take(i as int), settings@, *labels),
        decreases events@.len() - i,
    {
        proof {
            assert(all.take(i + 1).drop_last() =~= all.take(i as int));
            assert(all[i as int] == events@[i as int]@);
            assert(all.take(i + 1).last() == all[i as int]);
        }
        if should_notify(&events[i], settings) {
            let body = notification_body(&events[i], labels);
            let ghost before = out@;
            out.push(body);
            assert(text::texts(out@) =~= text::texts(before).push(body@));
        }
        i = i + 1;
    }
    assert(all.take(all.len() as int) =~= all);
    out
}

/// What is remembered from one look at the backend to the next.
#[derive(Debug)]
pub struct PollState {
    /// How many looks in a row have found the port dead.
    pub port_fails: u8,
    /// How the task section is shown.
    pub last_section: TaskSection,
    /// Whether the scheduler was seen running.
    pub last_scheduler: Option<bool>,
    /// The tasks at the last look.
    pub last_tasks: Option<Vec<Task>>,
    /// How the instance of the scheduler stood.
    pub last_instance_state: Option<u8>,
    pub dead_streak: u8,
    pub death_notified: bool,
}

/// What is remembered from one look at the backend to the next.
pub struct PollStateView {
    pub port_fails: u8,
    pub last_section: TaskSection,
    pub last_scheduler: Option<bool>,
    pub last_tasks: Option<Seq<TaskView>>,
    pub last_instance_state: Option<u8>,
    pub dead_streak: u8,
    pub death_notified: bool,
}

impl View for PollState {
    type V = PollStateView;

    open spec fn view(&self) -> PollStateView {
        PollStateView {
            port_fails: self.port_fails,
            last_section: self.last_section,
            last_scheduler: self.last_scheduler,
            last_tasks: match self.last_tasks {
                Some(t) => Some(task_views(t@)),
                None => None,
            },
            last_instance_state: self.last_instance_state,
            dead_streak: self.dead_streak,
            death_notified: self.death_notified,
        }
    }
}

/// What is remembered before the first look.
pub open spec fn fresh_poll() -> PollStateView {
    PollStateView {
        port_fails: 0,
        last_section: TaskSection::Empty,
        last_scheduler: None,
        last_tasks: None,
        last_instance_state: None,
        dead_streak: 0,
        death_notified: false,
    }
}

impl Default for PollState {
    fn default() -> (r: PollState)
        ensures
            r@ == fresh_poll(),
    {
        PollState {
            port_fails: 0,
            last_section: TaskSection::Empty,
            last_scheduler: None,
            last_tasks: None,
            last_instance_state: None,
            dead_streak: 0,
            death_notified: false,
        }
    }
}

/// What a look at the backend has found.
#[derive(Debug)]
pub struct PollInput {
    /// The state of the backend, after its port was looked at.
    pub status: BackendStatus,
    /// The tasks that were read; an error where the backend does not run, or the clock or the files
    /// could not be read.
    pub fetched: Result<Vec<Task>, ()>,
    /// The number of children of the web server, where the number of the backend is known.
    pub children: Option<usize>,
    /// The state of the backend now.
    pub snapshot: BackendStateSnapshot,
    /// How the instance of the scheduler stands, if the control interface has answered.
    pub instance: Option<Option<u8>>,
    /// The menu is to be made anew in any case.
    pub force_rebuild: bool,
}

/// What follows from a look at the backend.
#[derive(Debug)]
pub struct PollOutput {
    /// The texts to notify the user with.
    pub notifications: Vec<String>,
    pub section: TaskSection,
    /// The menu is to be made anew.
    pub rebuild: bool,
    pub scheduler: Option<bool>,
    /// The tasks to be kept from now on.
    pub replace_cache: Option<Vec<Task>>,
}

/// Whether the scheduler runs; nothing is known of it where the backend does not run or its number
/// is not known.
pub open spec fn scheduler_state(input: PollInput) -> Option<bool> {
    if input.status == BackendStatus::Running && input.children is Some {
        Some(seen_running(input.children))
    } else {
        None
    }
}

/// What a look shows of the end of the scheduler.
pub open spec fn death_cycle(s: PollStateView, input: PollInput) -> DeathCycle {
    DeathCycle {
        prev_alive: s.last_scheduler,
        now_alive: scheduler_state(input),
        gates_ok: input.snapshot.status == BackendStatus::Running && input.snapshot.scheduler_intent
            == SchedulerIntent::Nothing,
        backend_running: input.status == BackendStatus::Running,
        state_died: s.last_instance_state == Some(1u8) && input.instance == Some(Some(3u8)),
    }
}

/// The end of the scheduler, as an event.
pub open spec fn death_event() -> NotifyEventView {
    NotifyEventView::SchedulerDeath { name: "alas"@ }
}

/// The texts that a look notifies the user with: the completed tasks, and then the end of the
/// scheduler.
pub open spec fn poll_notifications(
    s: PollStateView,
    input: PollInput,
    cache: Seq<TaskView>,
    settings: ShellSettingsView,
    labels: ShellMenuLabels,
) -> Seq<Seq<char>> {
    let done = match s.last_tasks {
        Some(prev) => wanted_texts(completions(prev, cache), settings, labels),
        None => Seq::empty(),
    };
    if notifies(death_cycle(s, input), s.dead_streak, s.death_notified) && wanted(
        death_event(),
        settings,
    ) {
        done.push(notification_text(death_event(), labels))
    } else {
        done
    }
}

/// The menu is made anew after a look: on request, or where the section, its tasks or the state of
/// the scheduler have changed.
pub open spec fn poll_rebuilds(s: PollStateView, input: PollInput, cache: Seq<TaskView>) -> bool {
    let section = section_for(input.status, read_count(input.fetched));
    ||| input.force_rebuild
    ||| section != s.last_section
    ||| (section != TaskSection::Degraded && commands_differ(cache, task_views(input.fetched->Ok_0@)))
    ||| scheduler_state(input) != s.last_scheduler
}

/// What is remembered after a look.
pub open spec fn poll_state_after(s: PollStateView, input: PollInput, cache: Seq<TaskView>) ->
    PollStateView {
    let cycle = death_cycle(s, input);
    PollStateView {
        port_fails: s.port_fails,
        last_section: if poll_rebuilds(s, input, cache) {
            section_for(input.status, read_count(input.fetched))
        } else {
            s.last_section
        },
        last_scheduler: scheduler_state(input),
        last_tasks: Some(cache),
        last_instance_state: match input.instance {
            Some(state) => state,
            None => s.last_instance_state,
        },
        dead_streak: streak_kept(cycle, s.dead_streak, s.death_notified),
        death_notified: notified_after(cycle, s.dead_streak, s.death_notified),
    }
}

impl PollState {
    /// Takes a look at the port of the backend. Says whether the backend has gone away: it should
    /// run, and at least two looks in a row have found its port dead.
    pub fn probe(&mut self, status: BackendStatus, port_alive: bool) -> (r: bool)
        requires
            old(self).port_fails < u8::MAX,
        ensures
            final(self)@ == (PollStateView {
                port_fails: fails_after(old(self).port_fails, status, port_alive),
                ..old(self)@
            }),
            r == (status == BackendStatus::Running && !port_alive && final(self).port_fails >= 2),
    {
        if status == BackendStatus::Running && !port_alive {
            self.port_fails = self.port_fails + 1;
            should_mark_crashed(self.port_fails)
        } else {
            self.port_fails = 0;
            false
        }
    }

    /// Takes what a look at the backend has found. `cache` are the tasks that are kept.
    pub fn poll_once(
        &mut self,
        input: PollInput,
        cache: &[Task],
        settings: &ShellSettings,
        labels: &ShellMenuLabels,
    ) -> (r: PollOutput)
        ensures
            final(self)@ == poll_state_after(old(self)@, input, task_views(cache@)),
            text::texts(r.notifications@) == poll_notifications(
                old(self)@,
                input,
                task_views(cache@),
                settings@,
                *labels,
            ),
            r.section == section_for(input.status, read_count(input.fetched)),
            r.rebuild == poll_rebuilds(old(self)@, input, task_views(cache@)),
            r.scheduler == scheduler_state(input),
            r.replace_cache == (if r.section == TaskSection::Degraded {
                None
            } else {
                input.fetched.ok()
            }),
    {
        let ghost before = self@;
        let running = input.status == BackendStatus::Running;
        let scheduler: Option<bool> = match input.children {
            Some(n) => if running {
                Some(scheduler_alive(n))
            } else {
                None
            },
            None => None,
        };
        let mut notifications: Vec<String> = match &self.last_tasks {
            Some(prev) => {
                let events = diff_tasks(prev, cache);
                notifications_for(&events, settings, labels)
            },
            None => Vec::new(),
        };
        assert(before.last_tasks is None ==> text::texts(notifications@) =~= Seq::<
            Seq<char>,
        >::empty());
        self.last_tasks = Some(copy_tasks(cache));
        let gates_ok = input.snapshot.status == BackendStatus::Running
            && input.snapshot.scheduler_intent == SchedulerIntent::Nothing;
        let state_died = match input.instance {
            Some(state) => {
                let died = death_by_state(self.last_instance_state, state);
                self.last_instance_state = state;
                died
            },
            None => false,
        };
        let mut streak: u8 = self.dead_streak;
        let mut notified = self.death_notified;
        let died = death_notify_decision(
            self.last_scheduler,
            scheduler,
            gates_ok,
            running,
            state_died,
            &mut streak,
            &mut notified,
        );
        self.dead_streak = streak;
        self.death_notified = notified;
        if died {
            let event = NotifyEvent::SchedulerDeath { name: String::from_str("alas") };
            if should_notify(&event, settings) {
                let body = notification_body(&event, labels);
                let ghost done = notifications@;
                notifications.push(body);
                assert(text::texts(notifications@) =~= text::texts(done).push(body@));
            }
        }
        let outcome = poll_decision(input.status, input.fetched, self.last_section, cache);
        let line_changed = scheduler != self.last_scheduler;
        self.last_scheduler = scheduler;
        let rebuild = poll_needs_rebuild(input.force_rebuild, outcome.changed, line_changed);
        if rebuild {
            self.last_section = outcome.section;
        }
        PollOutput {
            notifications,
            section: outcome.section,
            rebuild,
            scheduler,
            replace_cache: outcome.replace_cache,
        }
    }
}

/// How many looks in a row have found the port dead, after another look.
pub open spec fn fails_after(fails: u8, status: BackendStatus, port_alive: bool) -> u8 {
    if status == BackendStatus::Running && !port_alive {
        (fails + 1) as u8
    } else {
        0
    }
}

/// One look that finds the port dead is forgiven: after one that does not, it takes two in a row.
pub proof fn one_dead_look_is_forgiven(fails: u8, status: BackendStatus)
    ensures
        ({
            let well = fails_after(fails, BackendStatus::Running, true);
            let once = fails_after(well, BackendStatus::Running, false);
            let twice = fails_after(once, BackendStatus::Running, false);
            &&& once < 2
            &&& twice >= 2
        }),
        status != BackendStatus::Running ==> fails_after(fails, status, false) == 0,
{
}

/// A look that finds what the one before has found, with the same tasks, leaves the menu alone and
/// notifies of no task.
pub proof fn an_unchanged_look_changes_nothing(
    s: PollStateView,
    input: PollInput,
    cache: Seq<TaskView>,
    settings: ShellSettingsView,
    labels: ShellMenuLabels,
)
    requires
        !input.force_rebuild,
        section_for(input.status, read_count(input.fetched)) == s.last_section,
        s.last_section != TaskSection::Degraded ==> task_views(input.fetched->Ok_0@) == cache,
        scheduler_state(input) == s.last_scheduler,
        s.last_scheduler != Some(false),
        input.instance != Some(Some(3u8)),
        s.last_tasks == Some(cache),
        forall|i: int, j: int|
            0 <= i < j < cache.len() ==> (#[trigger] cache[i]).command != (
            #[trigger] cache[j]).command,
    ensures
        !poll_rebuilds(s, input, cache),
        poll_notifications(s, input, cache, settings, labels) == Seq::<Seq<char>>::empty(),
{
    crate::menu_model::diff_sees_commands_only(cache, cache);
    crate::notify::unchanged_list_has_no_completions(cache);
}

/// A look on request always makes the menu anew.
pub proof fn a_requested_look_rebuilds(s: PollStateView, input: PollInput, cache: Seq<TaskView>)
    requires
        input.force_rebuild,
    ensures
        poll_rebuilds(s, input, cache),
        poll_state_after(s, input, cache).last_section == section_for(
            input.status,
            read_count(input.fetched),
        ),
{
}

/// What a click on the start and stop item does: nothing while the backend starts; it starts the
/// backend where that is stopped or has gone away; it stops the whole backend where the scheduler
/// cannot be controlled; and else it stops the scheduler if that was seen running, or starts it.
pub proof fn what_a_click_brings_about(
    status: BackendStatus,
    port_alive: bool,
    children: Option<usize>,
    available: bool,
)
    ensures
        ({
            let p = toggle_plan(status, port_alive, children, available);
            let up = status == BackendStatus::Running && port_alive;
            let runs = up && children is Some && children->0 >= 2;
            &&& p.crashed <==> status == BackendStatus::Running && !port_alive
            &&& p.scheduler_alive <==> runs
            &&& p.action == ToggleAction::NoOp <==> status == BackendStatus::Initializing
            &&& p.action == ToggleAction::StartBackend <==> status == BackendStatus::Stopped || (
            status == BackendStatus::Running && !port_alive)
            &&& p.action == ToggleAction::StopBackend <==> up && !available
            &&& p.action == ToggleAction::StopScheduler <==> up && available && runs
            &&& p.action == ToggleAction::StartScheduler <==> up && available && !runs
            &&& p.call == Some(SchedulerAction::Stop) <==> up && available && runs
            &&& p.call == Some(SchedulerAction::Start) <==> up && available && !runs
            &&& p.call is None <==> !(up && available)
            &&& p.intent == Some(SchedulerIntent::Stop) <==> up && available && runs
            &&& p.intent == Some(SchedulerIntent::Start) <==> up && available && !runs
            &&& p.intent is None <==> !(up && available)
            &&& p.then_start <==> available && (status == BackendStatus::Stopped || (status
                == BackendStatus::Running && !port_alive))
        }),
{
}

/// The children of a process that count are those that are alive, whose parent it is, and no argument
/// of which speaks of the resource tracker; each of them counts once.
pub proof fn which_children_count(rows: Seq<ProcessRow>, pid: u32)
    ensures
        live_children(rows, pid) == rows.filter(
            |p: ProcessRow|
                p.parent == Some(pid) && !p.zombie && !(exists|k: int|
                    0 <= k < p.cmd@.len() && text::has_text(
                        (#[trigger] p.cmd@[k])@,
                        "multiprocessing.resource_tracker"@,
                    )),
        ).len(),
    decreases rows.len(),
{
    reveal(Seq::filter);
    if rows.len() > 0 {
        which_children_count(rows.drop_last(), pid);
        tracker_is_named(rows.last());
    }
}

proof fn tracker_is_named(p: ProcessRow)
    ensures
        is_tracker(p) <==> exists|k: int|
            0 <= k < p.cmd@.len() && text::has_text(
                (#[trigger] p.cmd@[k])@,
                "multiprocessing.resource_tracker"@,
            ),
{
    let args = text::texts(p.cmd@);
    if is_tracker(p) {
        let k = choose|k: int|
            0 <= k < args.len() && text::has_text(
                #[trigger] args[k],
                "multiprocessing.resource_tracker"@,
            );
        assert(args[k] == p.cmd@[k]@);
    }
    if exists|k: int|
        0 <= k < p.cmd@.len() && text::has_text(
            (#[trigger] p.cmd@[k])@,
            "multiprocessing.resource_tracker"@,
        ) {
        let k = choose|k: int|
            0 <= k < p.cmd@.len() && text::has_text(
                (#[trigger] p.cmd@[k])@,
                "multiprocessing.resource_tracker"@,
            );
        assert(args[k] == p.cmd@[k]@);
    }
}

/// Where the backend reloads itself, the children of its first child count that is not the resource
/// tracker; none where it has no such child. Where it does not, its own children count.
pub proof fn whose_children_count(
    before: Seq<ProcessRow>,
    server: ProcessRow,
    after: Seq<ProcessRow>,
    backend_pid: u32,
)
    requires
        forall|i: int|
            0 <= i < before.len() ==> (#[trigger] before[i]).parent != Some(backend_pid)
                || is_tracker(before[i]),
    ensures
        server_children(before, backend_pid, true) == 0,
        server.parent == Some(backend_pid) && !is_tracker(server) ==> server_children(
            before + seq![server] + after,
            backend_pid,
            true,
        ) == live_children(before + seq![server] + after, server.pid),
        server_children(before, backend_pid, false) == live_children(before, backend_pid),
{
    child_is_the_first(before, server, after, backend_pid);
}

proof fn child_is_the_first(
    before: Seq<ProcessRow>,
    server: ProcessRow,
    after: Seq<ProcessRow>,
    pid: u32,
)
    requires
        forall|i: int|
            0 <= i < before.len() ==> (#[trigger] before[i]).parent != Some(pid) || is_tracker(
                before[i],
            ),
    ensures
        first_child(before, pid) is None,
        server.parent == Some(pid) && !is_tracker(server) ==> first_child(
            before + seq![server] + after,
            pid,
        ) == Some(server.pid),
    decreases before.len(),
{
    let whole = before + seq![server] + after;
    if before.len() == 0 {
        assert(whole[0] == server);
    } else {
        assert(whole[0] == before[0]);
        assert(whole.skip(1) =~= before.skip(1) + seq![server] + after);
        assert forall|i: int| 0 <= i < before.skip(1).len() implies (#[trigger] before.skip(
            1,
        )[i]).parent != Some(pid) || is_tracker(before.skip(1)[i]) by {
            assert(before.skip(1)[i] == before[i + 1]);
        }
        child_is_the_first(before.skip(1), server, after, pid);
    }
}

/// Every event that the user wants to hear of is notified, in the order of the events, and no other.
pub proof fn every_wanted_event_is_notified(
    events: Seq<NotifyEventView>,
    settings: ShellSettingsView,
    labels: ShellMenuLabels,
)
    ensures
        wanted_texts(events, settings, labels) == events.filter(
            |e: NotifyEventView| wanted(e, settings),
        ).map_values(|e: NotifyEventView| notification_text(e, labels)),
    decreases events.len(),
{
    reveal(Seq::filter);
    let pred = |e: NotifyEventView| wanted(e, settings);
    let f = |e: NotifyEventView| notification_text(e, labels);
    if events.len() > 0 {
        every_wanted_event_is_notified(events.drop_last(), settings, labels);
        let before = events.drop_last().filter(pred);
        if wanted(events.last(), settings) {
            assert(events.filter(pred) == before.push(events.last()));
            assert(before.push(events.last()).map_values(f) =~= before.map_values(f).push(
                f(events.last()),
            ));
        }
    } else {
        assert(events.filter(pred).map_values(f) =~= Seq::<Seq<char>>::empty());
    }
}

/// A notification of a completed task names the task and its next time where its text has marks for
/// them, and one of the end of the scheduler names the scheduler.
pub proof fn notifications_are_filled_in(
    labels: ShellMenuLabels,
    a: Seq<char>,
    b: Seq<char>,
    c: Seq<char>,
    name: Seq<char>,
    command: Seq<char>,
    next_time: Seq<char>,
)
    requires
        !a.contains('{'),
        !b.contains('{'),
        !c.contains('{'),
        !name.contains('{'),
    ensures
        labels.notify_task_done@ == a + "{name}"@ + b + "{next_time}"@ + c ==> notification_text(
            NotifyEventView::TaskComplete { name, command, next_time },
            labels,
        ) == a + name + b + next_time + c,
        labels.notify_death_body@ == a + "{name}"@ + b ==> notification_text(
            NotifyEventView::SchedulerDeath { name },
            labels,
        ) == a + name + b,
{
    reveal_strlit("{name}");
    reveal_strlit("{next_time}");
    let n = "{name}"@;
    let t = "{next_time}"@;
    if labels.notify_task_done@ == a + n + b + t + c {
        let rest = b + t + c;
        assert(labels.notify_task_done@ =~= a + n + rest);
        text::a_mark_is_filled_in(a, n, rest, name);
        other_mark_stays(b, c, name);
        let named = a + name + b + t + c;
        assert(a + name + rest =~= named);
        let front = a + name + b;
        assert(named =~= front + t + c);
        assert(!front.contains('{')) by {
            if front.contains('{') {
                let k = choose|k: int| 0 <= k < front.len() && front[k] == '{';
                if k < a.len() {
                    assert(a[k] == '{');
                } else if k < a.len() + name.len() {
                    assert(name[k - a.len()] == '{');
                } else {
                    assert(b[k - a.len() - name.len()] == '{');
                }
            }
        }
        text::a_mark_is_filled_in(front, t, c, next_time);
        text::a_mark_is_filled_in(c, t, c, next_time);
    }
    if labels.notify_death_body@ == a + n + b {
        text::a_mark_is_filled_in(a, n, b, name);
        text::a_mark_is_filled_in(b, n, b, name);
    }
}

proof fn other_mark_stays(b: Seq<char>, c: Seq<char>, with: Seq<char>)
    requires
        !b.contains('{'),
        !c.contains('{'),
    ensures
        text::replaced(b + "{next_time}"@ + c, "{name}"@, with) == b + "{next_time}"@ + c,
{
    reveal_strlit("{name}");
    reveal_strlit("{next_time}");
    let n = "{name}"@;
    let t = "{next_time}"@;
    let s = b + t + c;
    assert(!text::has_text(s, n)) by {
        if text::has_text(s, n) {
            let j = choose|j: int| text::occurs_at(s, n, j);
            assert(s.subrange(j, j + n.len())[0] == s[j]);
            assert(s.subrange(j, j + n.len())[2] == s[j + 2]);
            if j < b.len() {
                assert(b[j] == '{');
            } else if j < b.len() + t.len() {
                assert(s[j] == t[j - b.len()]);
                assert(j == b.len());
                assert(s[j + 2] == t[2]);
            } else {
                assert(c[j - b.len() - t.len()] == '{');
            }
        }
    }
    text::replacing_from_the_beginning(s, n, with);
}

/// What a look tells of the scheduler: it runs if the web server has a second child; nothing is known
/// where the backend does not run or its number is not known.
pub proof fn what_a_look_tells_of_the_scheduler(input: PollInput)
    ensures
        scheduler_state(input) == Some(true) <==> input.status == BackendStatus::Running
            && input.children is Some && input.children->0 >= 2,
        scheduler_state(input) == Some(false) <==> input.status == BackendStatus::Running
            && input.children is Some && input.children->0 < 2,
        scheduler_state(input) is None <==> input.status != BackendStatus::Running
            || input.children is None,
{
}

/// A scheduler that ran and is seen dead at two looks in a row, while the backend runs and nobody has
/// asked for that, is notified at the second look, once, behind the tasks that are completed.
pub proof fn the_end_of_the_scheduler_is_notified(
    s: PollStateView,
    first: PollInput,
    second: PollInput,
    cache: Seq<TaskView>,
    later_cache: Seq<TaskView>,
    settings: ShellSettingsView,
    labels: ShellMenuLabels,
)
    requires
        s.last_scheduler == Some(true),
        !s.death_notified,
        settings.notify_enabled && settings.notify_scheduler_death,
        first.status == BackendStatus::Running && second.status == BackendStatus::Running,
        first.children is Some && first.children->0 < 2,
        second.children is Some && second.children->0 < 2,
        first.snapshot.status == BackendStatus::Running && first.snapshot.scheduler_intent
            == SchedulerIntent::Nothing,
        second.snapshot.status == BackendStatus::Running && second.snapshot.scheduler_intent
            == SchedulerIntent::Nothing,
        first.instance is None || first.instance->0 != Some(3u8),
    ensures
        ({
            let done = |prev: Seq<TaskView>, now: Seq<TaskView>|
                wanted_texts(completions(prev, now), settings, labels);
            let after = poll_state_after(s, first, cache);
            let last = poll_state_after(after, second, later_cache);
            let text = notification_text(NotifyEventView::SchedulerDeath { name: "alas"@ }, labels);
            &&& s.last_tasks is Some ==> poll_notifications(s, first, cache, settings, labels)
                == done(s.last_tasks->0, cache)
            &&& s.last_tasks is None ==> poll_notifications(s, first, cache, settings, labels)
                == Seq::<Seq<char>>::empty()
            &&& poll_notifications(after, second, later_cache, settings, labels) == done(
                cache,
                later_cache,
            ).push(text)
            &&& last.death_notified
        }),
{
    crate::notify::a_death_is_notified_at_the_second_look(
        death_cycle(s, first),
        death_cycle(poll_state_after(s, first, cache), second),
        s.dead_streak,
    );
}

/// An instance that ran and has failed by its own account is notified at once; one that has ended in
/// any other way is not.
pub proof fn a_failed_instance_is_notified_at_once(
    s: PollStateView,
    input: PollInput,
    cache: Seq<TaskView>,
    settings: ShellSettingsView,
    labels: ShellMenuLabels,
)
    requires
        s.last_tasks is None,
        !s.death_notified,
        settings.notify_enabled && settings.notify_scheduler_death,
        scheduler_state(input) != Some(false),
    ensures
        s.last_instance_state == Some(1u8) && input.instance == Some(Some(3u8))
            ==> poll_notifications(s, input, cache, settings, labels) == seq![
            notification_text(NotifyEventView::SchedulerDeath { name: "alas"@ }, labels),
        ],
        s.last_instance_state != Some(1u8) || input.instance != Some(Some(3u8))
            ==> poll_notifications(s, input, cache, settings, labels) == Seq::<Seq<char>>::empty(),
{
    if s.last_instance_state != Some(1u8) || input.instance != Some(Some(3u8)) {
        crate::notify::no_death_is_made_up(death_cycle(s, input), s.dead_streak, s.death_notified);
    }
    assert(Seq::<Seq<char>>::empty().push(notification_text(death_event(), labels)) =~= seq![
        notification_text(NotifyEventView::SchedulerDeath { name: "alas"@ }, labels),
    ]);
}

/// The end of the scheduler is not notified while the user has asked something of it, nor while the
/// backend does not run, nor a second time, nor against the user's wish.
pub proof fn no_end_is_notified_without_need(
    s: PollStateView,
    input: PollInput,
    cache: Seq<TaskView>,
    settings: ShellSettingsView,
    labels: ShellMenuLabels,
)
    requires
        s.last_tasks is None,
        s.death_notified || !settings.notify_enabled || !settings.notify_scheduler_death || (
        input.instance != Some(Some(3u8)) && (input.snapshot.scheduler_intent
            != SchedulerIntent::Nothing || input.snapshot.status != BackendStatus::Running
            || scheduler_state(input) != Some(false) || s.last_scheduler == Some(true))),
    ensures
        poll_notifications(s, input, cache, settings, labels) == Seq::<Seq<char>>::empty(),
{
}

/// When the menu is made anew: where it is asked for, where the task section is shown in another way,
/// where the scheduler has started, ended or gone out of sight, and where a task has come or gone.
pub proof fn when_the_menu_is_made_anew(s: PollStateView, input: PollInput, cache: Seq<TaskView>)
    ensures
        ({
            let readable = input.status == BackendStatus::Running && input.fetched is Ok;
            let section = if !readable {
                TaskSection::Degraded
            } else if input.fetched->Ok_0@.len() == 0 {
                TaskSection::Empty
            } else {
                TaskSection::Tasks
            };
            let tasks = task_views(input.fetched->Ok_0@);
            let after = poll_state_after(s, input, cache);
            &&& poll_rebuilds(s, input, cache) <==> {
                ||| input.force_rebuild
                ||| s.last_section != section
                ||| scheduler_state(input) != s.last_scheduler
                ||| (readable && commands_differ(cache, tasks))
            }
            &&& after.last_section == section || !poll_rebuilds(s, input, cache)
            &&& !poll_rebuilds(s, input, cache) ==> after.last_section == s.last_section
            &&& after.last_scheduler == scheduler_state(input)
            &&& after.last_tasks == Some(cache)
            &&& after.last_instance_state == (match input.instance {
                Some(state) => state,
                None => s.last_instance_state,
            })
            &&& after.port_fails == s.port_fails
        }),
{
}

/// What the task section shows: its rows where there are tasks, and one row that says so where there
/// are none or they could not be read.
pub proof fn what_the_task_part_shows(tasks: Seq<TaskView>, i: int)
    requires
        0 <= i < section_rows(tasks).len(),
    ensures
        task_part(TaskSection::Tasks, tasks).len() == section_rows(tasks).len(),
        (match section_rows(tasks)[i] {
            TaskMenuItemView::GroupHeader { id, text } => task_part(TaskSection::Tasks, tasks)[i]
                == (MenuRowView::Item { id, text, enabled: false }),
            TaskMenuItemView::TaskItem { id, text } => task_part(TaskSection::Tasks, tasks)[i] == (
            MenuRowView::Item { id, text, enabled: false }),
            TaskMenuItemView::Separator => (task_part(TaskSection::Tasks, tasks)[i] is Separator),
        }),
        task_part(TaskSection::Degraded, tasks).len() == 1,
        task_part(TaskSection::Empty, tasks).len() == 1,
        task_part(TaskSection::Degraded, tasks)[0]->text == "Tasks: unavailable"@,
        task_part(TaskSection::Empty, tasks)[0]->text == "No tasks"@,
{
}

/// The menu is framed by the same rows at all times: the state and the start and stop item above, and
/// the items that refresh, show and quit below, which can always be clicked.
pub proof fn what_frames_the_menu(line: Seq<char>, text: Seq<char>, on: bool)
    ensures
        ({
            let upper = upper_part(line, text, on);
            let lower = lower_part();
            &&& upper.len() == 3 && lower.len() == 4
            &&& upper[0]->text == line && !upper[0]->enabled
            &&& upper[1]->text == text && upper[1]->enabled == on && upper[1]->id == "tray-toggle"@
            &&& upper[2] is Separator && lower[1] is Separator
            &&& lower[0]->id == "tray-refresh"@ && lower[2]->id == "tray-show"@ && lower[3]->id
                == "tray-quit"@
            &&& lower[0]->enabled && lower[2]->enabled && lower[3]->enabled
        }),
{
}

/// An end that was notified is forgotten as soon as the scheduler runs again or the backend does not
/// run any more, and not before; one that was not is remembered from the look on that notifies it.
pub proof fn when_a_notified_end_is_forgotten(
    s: PollStateView,
    input: PollInput,
    cache: Seq<TaskView>,
)
    ensures
        ({
            let after = poll_state_after(s, input, cache);
            let now = scheduler_state(input);
            let unasked = input.snapshot.status == BackendStatus::Running
                && input.snapshot.scheduler_intent == SchedulerIntent::Nothing;
            let failed = s.last_instance_state == Some(1u8) && input.instance == Some(Some(3u8));
            &&& s.death_notified ==> (after.death_notified <==> input.status
                == BackendStatus::Running && now != Some(true))
            &&& s.death_notified || !unasked ==> after.dead_streak == s.dead_streak
            &&& !s.death_notified ==> (after.death_notified <==> failed || (unasked
                && s.last_scheduler == Some(false) && now == Some(false) && s.dead_streak == 1))
            &&& !s.death_notified && unasked && now != Some(false) ==> after.dead_streak == 0
            &&& !s.death_notified && unasked && now == Some(false) && s.last_scheduler == Some(true)
                ==> after.dead_streak == 1
        }),
{
    crate::notify::exactly_when_a_death_is_notified(
        death_cycle(s, input),
        s.dead_streak,
        s.death_notified,
    );
}

} // verus!
