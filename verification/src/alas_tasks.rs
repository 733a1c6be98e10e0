//! The task list that the menu shows, read from the scheduler's file.
//!
//! Every member of that file with a `Scheduler` group is a task; it is listed if it is enabled.
//! Times are written `YYYY-MM-DD HH:MM:SS`, so that the order of the texts is the order in time.
use vstd::prelude::*;

use crate::json::{
    json_document, members_view, object_model, parse_json, str_view, text_view, Json, JsonView,
};
use crate::text;

verus! {

/// How a task stands.
#[derive(Clone, Copy, Debug, PartialEq, Eq, Structural)]
pub enum TaskStatus {
    /// It is due, and the first of those.
    Running,
    /// It is due, behind the first.
    Queued,
    /// It is not due yet, or no time is known.
    Waiting,
}

/// A task of the scheduler.
#[derive(Debug, PartialEq, Eq)]
pub struct Task {
    /// The name that is shown.
    pub name: String,
    /// The name that stays the same in every language.
    pub command: String,
    pub enabled: bool,
    pub status: TaskStatus,
    /// When it is to run next.
    pub next_time: Option<String>,
}

/// What is known of a task.
pub struct TaskView {
    pub name: Seq<char>,
    pub command: Seq<char>,
    pub enabled: bool,
    pub status: TaskStatus,
    pub next_time: Option<Seq<char>>,
}

impl View for Task {
    type V = TaskView;

    open spec fn view(&self) -> TaskView {
        TaskView {
            name: self.name@,
            command: self.command@,
            enabled: self.enabled,
            status: self.status,
            next_time: text_view(self.next_time),
        }
    }
}

impl Default for Task {
    fn default() -> (r: Task)
        ensures
            r@ == (TaskView {
                name: Seq::empty(),
                command: Seq::empty(),
                enabled: false,
                status: TaskStatus::Waiting,
                next_time: None,
            }),
    {
        let r = Task {
            name: String::new(),
            command: String::new(),
            enabled: false,
            status: TaskStatus::Waiting,
            next_time: None,
        };
        assert(r@.name =~= Seq::<char>::empty());
        assert(r@.command =~= Seq::<char>::empty());
        r
    }
}

impl Clone for Task {
    fn clone(&self) -> (r: Task)
        ensures
            r@ == self@,
    {
        Task {
            name: self.name.clone(),
            command: self.command.clone(),
            enabled: self.enabled,
            status: self.status,
            next_time: copy_text(&self.next_time),
        }
    }
}

/// A copy of an optional string.
fn copy_text(s: &Option<String>) -> (r: Option<String>)
    ensures
        text_view(r) == text_view(*s),
{
    match s {
        Some(t) => Some(t.clone()),
        None => None,
    }
}

/// What is known of the tasks of a list.
pub open spec fn task_views(v: Seq<Task>) -> Seq<TaskView> {
    v.map_values(|t: Task| t@)
}

/// A copy of a list of tasks.
pub fn copy_tasks(v: &[Task]) -> (r: Vec<Task>)
    ensures
        task_views(r@) == task_views(v@),
{
    let mut r: Vec<Task> = Vec::new();
    let mut i: usize = 0;
    while i < v.len()
        invariant
            i <= v@.len(),
            r@.len() == i,
            forall|j: int| 0 <= j < i ==> (#[trigger] r@[j])@ == v@[j]@,
        decreases v@.len() - i,
    {
        r.push(v[i].clone());
        i = i + 1;
    }
    assert(task_views(r@) =~= task_views(v@));
    r
}

/// A task is due when its time has come.
pub open spec fn is_due(next_time: Option<Seq<char>>, now: Seq<char>) -> bool {
    next_time is Some && text::precedes(next_time->0, now)
}

/// How a task stands by itself.
pub open spec fn classified(next_time: Option<Seq<char>>, now: Seq<char>) -> TaskStatus {
    if is_due(next_time, now) {
        TaskStatus::Running
    } else {
        TaskStatus::Waiting
    }
}

/// How a task stands by itself: a task that is due counts as running. That only the first of those
/// does is seen to in `fetch_tasks`.
pub fn classify(next_time: Option<&str>, now_str: &str) -> (r: TaskStatus)
    ensures
        r == classified(str_view(next_time), now_str@),
{
    match next_time {
        Some(t) => {
            if text::not_after(t, now_str) {
                TaskStatus::Running
            } else {
                TaskStatus::Waiting
            }
        },
        None => TaskStatus::Waiting,
    }
}

/// Why a task list could not be read.
#[derive(Clone, Copy, Debug, PartialEq, Eq, Structural)]
pub enum TasksError {
    /// The scheduler's file is no JSON text.
    InvalidJson,
    /// The scheduler's file is not an object.
    RootNotObject,
    /// The file with the names is no JSON text.
    InvalidI18n,
}

/// The document of an empty file with names.
pub open spec fn no_names() -> JsonView {
    JsonView::Object(Seq::empty())
}

/// Reads the file with the names of the tasks. An empty one has no names in it.
pub fn parse_i18n(content: &str) -> (r: Result<Json, TasksError>)
    ensures
        match r {
            Ok(j) => if text::trimmed(content@).len() == 0 {
                j@ == no_names()
            } else {
                json_document(content@) == Some(j@)
            },
            Err(e) => text::trimmed(content@).len() > 0 && json_document(content@) is None && e
                == TasksError::InvalidI18n,
        },
{
    let t = text::trim(content);
    if t.as_str().unicode_len() == 0 {
        return Ok(empty_object());
    }
    match parse_json(content) {
        Some(j) => Ok(j),
        None => Err(TasksError::InvalidI18n),
    }
}

/// A document without members.
fn empty_object() -> (r: Json)
    ensures
        r@ == no_names(),
{
    let members: Vec<(String, Json)> = Vec::new();
    proof {
        object_model(members);
        assert(members_view(members@) =~= Seq::<(Seq<char>, JsonView)>::empty());
    }
    Json::Object(members)
}

/// The names of the tasks, from the content of the file if there is one. A file that cannot be read
/// has no names in it.
pub open spec fn names_in(content: Option<Seq<char>>) -> JsonView {
    match content {
        Some(c) => if text::trimmed(c).len() == 0 || json_document(c) is None {
            no_names()
        } else {
            json_document(c)->0
        },
        None => no_names(),
    }
}

/// The names of the tasks, from the content of the file if there is one.
pub fn load_i18n(content: Option<&str>) -> (r: Json)
    ensures
        r@ == names_in(str_view(content)),
{
    match content {
        Some(c) => match parse_i18n(c) {
            Ok(j) => j,
            Err(_) => empty_object(),
        },
        None => empty_object(),
    }
}

/// The name that is shown for a task.
pub open spec fn shown_name(i18n: JsonView, command: Seq<char>) -> Seq<char> {
    match i18n.member("Task"@) {
        Some(names) => match names.member(command) {
            Some(entry) => match entry.member_text("name"@) {
                Some(name) => name,
                None => command,
            },
            None => command,
        },
        None => command,
    }
}

/// The name that is shown for a task.
fn show_name(i18n: &Json, command: &str) -> (r: String)
    ensures
        r@ == shown_name(i18n@, command@),
{
    if let Some(names) = i18n.get("Task") {
        if let Some(entry) = names.get(command) {
            if let Some(name) = entry.get_str("name") {
                return String::from_str(name);
            }
        }
    }
    String::from_str(command)
}

/// The task that a member of the scheduler's file stands for, if it is one and is enabled.
pub open spec fn task_of(
    command: Seq<char>,
    value: JsonView,
    i18n: JsonView,
    now: Seq<char>,
) -> Option<TaskView> {
    match value.member("Scheduler"@) {
        Some(s) => if s.member_truth("Enable"@) == Some(true) {
            Some(
                TaskView {
                    name: shown_name(i18n, command),
                    command,
                    enabled: true,
                    status: classified(s.member_text("NextRun"@), now),
                    next_time: s.member_text("NextRun"@),
                },
            )
        } else {
            None
        },
        None => None,
    }
}

/// The tasks that the members of the scheduler's file stand for, in their order.
pub open spec fn tasks_of(
    members: Seq<(Seq<char>, JsonView)>,
    i18n: JsonView,
    now: Seq<char>,
) -> Seq<TaskView>
    decreases members.len(),
{
    if members.len() == 0 {
        Seq::empty()
    } else {
        let before = tasks_of(members.drop_last(), i18n, now);
        match task_of(members.last().0, members.last().1, i18n, now) {
            Some(t) => before.push(t),
            None => before,
        }
    }
}

/// The task that a member of the scheduler's file stands for, if it is one and is enabled.
fn read_task(command: &str, value: &Json, i18n: &Json, now_str: &str) -> (r: Option<Task>)
    ensures
        match r {
            Some(t) => task_of(command@, value@, i18n@, now_str@) == Some(t@),
            None => task_of(command@, value@, i18n@, now_str@) is None,
        },
{
    let scheduler = match value.get("Scheduler") {
        Some(s) => s,
        None => {
            return None;
        },
    };
    let enabled = match scheduler.get_bool("Enable") {
        Some(b) => b,
        None => false,
    };
    if !enabled {
        return None;
    }
    let next = scheduler.get_str("NextRun");
    let status = classify(next, now_str);
    let next_time = match next {
        Some(t) => Some(String::from_str(t)),
        None => None,
    };
    Some(
        Task {
            name: show_name(i18n, command),
            command: String::from_str(command),
            enabled: true,
            status,
            next_time,
        },
    )
}

/// The enabled tasks of the scheduler's document.
pub fn tasks_in(root: &Json, i18n: &Json, now_str: &str) -> (r: Result<Vec<Task>, TasksError>)
    ensures
        match r {
            Ok(tasks) => root@ matches JsonView::Object(members) && task_views(tasks@) == tasks_of(
                members,
                i18n@,
                now_str@,
            ),
            Err(e) => root@ !is Object && e == TasksError::RootNotObject,
        },
{
    match root {
        Json::Object(members) => {
            proof {
                object_model(*members);
            }
            let ghost all = members_view(members@);
            let mut tasks: Vec<Task> = Vec::new();
            let mut i: usize = 0;
            assert(all.take(0) =~= Seq::<(Seq<char>, JsonView)>::empty());
            assert(task_views(tasks@) =~= Seq::<TaskView>::empty());
            while i < members.len()
                invariant
                    i <= members@.len(),
                    all == members_view(members@),
                    task_views(tasks@) == tasks_of(all.take(i as int), i18n@, now_str@),
                decreases members@.len() - i,
            {
                proof {
                    assert(all.take(i + 1).drop_last() =~= all.take(i as int));
                    assert(all[i as int] == (members@[i as int].0@, members@[i as int].1@));
                    assert(all.take(i + 1).last() == all[i as int]);
                }
                if let Some(t) = read_task(members[i].0.as_str(), &members[i].1, i18n, now_str) {
                    let ghost before = tasks@;
                    tasks.push(t);
                    assert(task_views(tasks@) =~= task_views(before).push(t@));
                }
                i = i + 1;
            }
            assert(all.take(all.len() as int) =~= all);
            Ok(tasks)
        },
        _ => Err(TasksError::RootNotObject),
    }
}

/// Reads the scheduler's file into the list of the enabled tasks.
pub fn parse_tasks_alas_json(content: &str, i18n: &Json, now_str: &str) -> (r: Result<
    Vec<Task>,
    TasksError,
>)
    ensures
        match json_document(content@) {
            None => r == Err::<Vec<Task>, TasksError>(TasksError::InvalidJson),
            Some(JsonView::Object(members)) => r matches Ok(tasks) && task_views(tasks@) == tasks_of(
                members,
                i18n@,
                now_str@,
            ),
            Some(_) => r == Err::<Vec<Task>, TasksError>(TasksError::RootNotObject),
        },
{
    match parse_json(content) {
        Some(root) => tasks_in(&root, i18n, now_str),
        None => Err(TasksError::InvalidJson),
    }
}

/// The order in the list: by the time of the next run, those without one last.
pub open spec fn runs_no_later(a: Option<Seq<char>>, b: Option<Seq<char>>) -> bool {
    match (a, b) {
        (Some(x), Some(y)) => text::precedes(x, y),
        (Some(_), None) => true,
        (None, Some(_)) => false,
        (None, None) => true,
    }
}

/// A task put into a list in order, behind those that run no later.
pub open spec fn inserted(s: Seq<TaskView>, t: TaskView) -> Seq<TaskView>
    decreases s.len(),
{
    if s.len() == 0 || runs_no_later(s.last().next_time, t.next_time) {
        s.push(t)
    } else {
        inserted(s.drop_last(), t).push(s.last())
    }
}

/// A list in order.
pub open spec fn in_order(s: Seq<TaskView>) -> Seq<TaskView>
    decreases s.len(),
{
    if s.len() == 0 {
        s
    } else {
        inserted(in_order(s.drop_last()), s.last())
    }
}

/// The position that a task takes in a list.
proof fn inserted_at(s: Seq<TaskView>, t: TaskView, k: int)
    requires
        0 <= k <= s.len(),
        k == 0 || runs_no_later(s[k - 1].next_time, t.next_time),
        forall|j: int| k <= j < s.len() ==> !runs_no_later(#[trigger] s[j].next_time, t.next_time),
    ensures
        inserted(s, t) == s.insert(k, t),
    decreases s.len(),
{
    if k == s.len() {
        if s.len() > 0 {
            assert(s.last() == s[k - 1]);
        }
        assert(inserted(s, t) =~= s.insert(k, t));
    } else {
        assert(s.last() == s[s.len() - 1]);
        assert forall|j: int| k <= j < s.drop_last().len() implies !runs_no_later(
            #[trigger] s.drop_last()[j].next_time,
            t.next_time,
        ) by {
            assert(s.drop_last()[j] == s[j]);
        }
        if k > 0 {
            assert(s.drop_last()[k - 1] == s[k - 1]);
        }
        inserted_at(s.drop_last(), t, k);
        assert(inserted(s, t) =~= s.insert(k, t));
    }
}

/// Whether a task with the time `a` comes before one with the time `b` or is due with it.
fn not_later(a: &Option<String>, b: &Option<String>) -> (r: bool)
    ensures
        r == runs_no_later(text_view(*a), text_view(*b)),
{
    match (a, b) {
        (Some(x), Some(y)) => text::not_after(x.as_str(), y.as_str()),
        (Some(_), None) => true,
        (None, Some(_)) => false,
        (None, None) => true,
    }
}

/// Puts a list of tasks in order.
pub fn sort_tasks(tasks: &[Task]) -> (r: Vec<Task>)
    ensures
        task_views(r@) == in_order(task_views(tasks@)),
{
    let ghost all = task_views(tasks@);
    let mut out: Vec<Task> = Vec::new();
    let mut i: usize = 0;
    assert(all.take(0) =~= Seq::<TaskView>::empty());
    assert(task_views(out@) =~= Seq::<TaskView>::empty());
    while i < tasks.len()
        invariant
            i <= tasks@.len(),
            all == task_views(tasks@),
            task_views(out@) == in_order(all.take(i as int)),
        decreases tasks@.len() - i,
    {
        let t = tasks[i].clone();
        let ghost sorted = task_views(out@);
        let mut k: usize = out.len();
        while k > 0 && !not_later(&out[k - 1].next_time, &t.next_time)
            invariant
                k <= out@.len(),
                sorted == task_views(out@),
                forall|j: int|
                    k <= j < sorted.len() ==> !runs_no_later(
                        #[trigger] sorted[j].next_time,
                        t@.next_time,
                    ),
            decreases k,
        {
            assert(sorted[k - 1] == out@[k - 1]@);
            k = k - 1;
        }
        proof {
            if k > 0 {
                assert(sorted[k - 1] == out@[k - 1]@);
            }
            inserted_at(sorted, t@, k as int);
            assert(all.take(i + 1).drop_last() =~= all.take(i as int));
            assert(all[i as int] == tasks@[i as int]@);
            assert(all.take(i + 1).last() == all[i as int]);
        }
        out.insert(k, t);
        assert(task_views(out@) =~= sorted.insert(k as int, t@));
        i = i + 1;
    }
    assert(all.take(all.len() as int) =~= all);
    out
}

/// A list whose first task runs has the others that are due queued behind it.
pub open spec fn queued_up(s: Seq<TaskView>) -> Seq<TaskView> {
    s.map(
        |i: int, t: TaskView|
            if i > 0 && s[0].status == TaskStatus::Running && t.status == TaskStatus::Running {
                TaskView { status: TaskStatus::Queued, ..t }
            } else {
                t
            },
    )
}

/// Queues the tasks that are due behind the first, if that is due too.
pub fn queue_up(tasks: &[Task]) -> (r: Vec<Task>)
    ensures
        task_views(r@) == queued_up(task_views(tasks@)),
{
    let mut out: Vec<Task> = Vec::new();
    let ghost want = queued_up(task_views(tasks@));
    let first_runs = tasks.len() > 0 && tasks[0].status == TaskStatus::Running;
    let mut i: usize = 0;
    while i < tasks.len()
        invariant
            i <= tasks@.len(),
            out@.len() == i,
            want == queued_up(task_views(tasks@)),
            tasks@.len() > 0 ==> first_runs == (tasks@[0].status == TaskStatus::Running),
            forall|j: int| 0 <= j < i ==> (#[trigger] out@[j])@ == want[j],
        decreases tasks@.len() - i,
    {
        let mut t = tasks[i].clone();
        assert(task_views(tasks@)[i as int] == tasks@[i as int]@);
        if i > 0 && first_runs && t.status == TaskStatus::Running {
            t.status = TaskStatus::Queued;
        }
        assert(want[i as int] == t@);
        out.push(t);
        i = i + 1;
    }
    assert(task_views(out@) =~= want);
    out
}

/// The local time, from what the clock has printed. A clock that failed gives none, so that no task
/// is taken for one that waits.
pub fn now_str(printed: Option<&str>) -> (r: Option<String>)
    ensures
        match (r, printed) {
            (Some(t), Some(p)) => t@ == text::trimmed(p@),
            (None, None) => true,
            _ => false,
        },
{
    match printed {
        Some(p) => Some(text::trim(p)),
        None => None,
    }
}

/// The list that is shown, from the content of the scheduler's file and of the file with the names.
/// Where there is no scheduler's file there are no tasks.
pub fn fetch_tasks(alas_json: Option<&str>, i18n_json: Option<&str>, now_str: &str) -> (r: Result<
    Vec<Task>,
    TasksError,
>)
    ensures
        match alas_json {
            None => r matches Ok(tasks) && tasks@.len() == 0,
            Some(content) => match json_document(content@) {
                None => r == Err::<Vec<Task>, TasksError>(TasksError::InvalidJson),
                Some(JsonView::Object(members)) => r matches Ok(tasks) && task_views(tasks@)
                    == task_list(members, names_in(str_view(i18n_json)), now_str@),
                Some(_) => r == Err::<Vec<Task>, TasksError>(TasksError::RootNotObject),
            },
        },
{
    let content = match alas_json {
        Some(c) => c,
        None => {
            return Ok(Vec::new());
        },
    };
    let i18n = load_i18n(i18n_json);
    match parse_tasks_alas_json(content, &i18n, now_str) {
        Ok(tasks) => Ok(arrange(&tasks)),
        Err(e) => Err(e),
    }
}

/// Puts the tasks in order, and queues those that are due behind the first.
pub fn arrange(tasks: &[Task]) -> (r: Vec<Task>)
    ensures
        task_views(r@) == queued_up(in_order(task_views(tasks@))),
{
    let sorted = sort_tasks(tasks);
    queue_up(&sorted)
}

/// The list that is shown for the members of the scheduler's file.
pub open spec fn task_list(
    members: Seq<(Seq<char>, JsonView)>,
    i18n: JsonView,
    now: Seq<char>,
) -> Seq<TaskView> {
    queued_up(in_order(tasks_of(members, i18n, now)))
}

/// The order in the list is total.
pub proof fn runs_no_later_total(a: Option<Seq<char>>, b: Option<Seq<char>>)
    ensures
        runs_no_later(a, b) || runs_no_later(b, a),
{
    if a is Some && b is Some {
        text::precedes_total(a->0, b->0);
    }
}

/// The order in the list is transitive.
pub proof fn runs_no_later_transitive(
    a: Option<Seq<char>>,
    b: Option<Seq<char>>,
    c: Option<Seq<char>>,
)
    requires
        runs_no_later(a, b),
        runs_no_later(b, c),
    ensures
        runs_no_later(a, c),
{
    if a is Some && b is Some && c is Some {
        text::precedes_transitive(a->0, b->0, c->0);
    }
}

/// Every task of the list runs no later than those behind it.
pub open spec fn is_in_order(s: Seq<TaskView>) -> bool {
    forall|i: int, j: int|
        0 <= i < j < s.len() ==> runs_no_later(
            (#[trigger] s[i]).next_time,
            (#[trigger] s[j]).next_time,
        )
}

proof fn inserted_is_in_order(s: Seq<TaskView>, t: TaskView)
    requires
        is_in_order(s),
    ensures
        is_in_order(inserted(s, t)),
        inserted(s, t).len() == s.len() + 1,
        forall|e: TaskView| #[trigger] inserted(s, t).contains(e) ==> s.contains(e) || e == t,
    decreases s.len(),
{
    let out = inserted(s, t);
    if s.len() == 0 || runs_no_later(s.last().next_time, t.next_time) {
        assert forall|i: int, j: int| 0 <= i < j < out.len() implies runs_no_later(
            (#[trigger] out[i]).next_time,
            (#[trigger] out[j]).next_time,
        ) by {
            if j == s.len() && i < s.len() - 1 {
                assert(runs_no_later(s[i].next_time, s[s.len() - 1].next_time));
                runs_no_later_transitive(
                    s[i].next_time,
                    s[s.len() - 1].next_time,
                    t.next_time,
                );
            }
        }
        assert forall|e: TaskView| #[trigger] out.contains(e) implies s.contains(e) || e == t by {
            let k = choose|k: int| 0 <= k < out.len() && out[k] == e;
            if k < s.len() {
                assert(s[k] == e);
            }
        }
    } else {
        let front = s.drop_last();
        assert forall|i: int, j: int| 0 <= i < j < front.len() implies runs_no_later(
            (#[trigger] front[i]).next_time,
            (#[trigger] front[j]).next_time,
        ) by {
            assert(front[i] == s[i] && front[j] == s[j]);
        }
        inserted_is_in_order(front, t);
        let head = inserted(front, t);
        runs_no_later_total(s.last().next_time, t.next_time);
        assert forall|i: int, j: int| 0 <= i < j < out.len() implies runs_no_later(
            (#[trigger] out[i]).next_time,
            (#[trigger] out[j]).next_time,
        ) by {
            if j < head.len() {
                assert(head[i] == out[i] && head[j] == out[j]);
            } else {
                assert(out[j] == s.last());
                assert(head[i] == out[i]);
                assert(head.contains(out[i]));
                if out[i] != t {
                    let k = choose|k: int| 0 <= k < front.len() && front[k] == out[i];
                    assert(s[k] == out[i]);
                    assert(s[s.len() - 1] == s.last());
                }
            }
        }
        assert forall|e: TaskView| #[trigger] out.contains(e) implies s.contains(e) || e == t by {
            let k = choose|k: int| 0 <= k < out.len() && out[k] == e;
            if k < head.len() {
                assert(head[k] == e);
                assert(head.contains(e));
                if e != t {
                    let m = choose|m: int| 0 <= m < front.len() && front[m] == e;
                    assert(s[m] == e);
                }
            } else {
                assert(s[s.len() - 1] == e);
            }
        }
    }
}

/// The list that is shown is in order, and holds nothing that was not read.
pub proof fn list_is_in_order(s: Seq<TaskView>)
    ensures
        is_in_order(in_order(s)),
        in_order(s).len() == s.len(),
        forall|e: TaskView| #[trigger] in_order(s).contains(e) ==> s.contains(e),
    decreases s.len(),
{
    if s.len() > 0 {
        list_is_in_order(s.drop_last());
        inserted_is_in_order(in_order(s.drop_last()), s.last());
        assert forall|e: TaskView| #[trigger] in_order(s).contains(e) implies s.contains(e) by {
            if e == s.last() {
                assert(s[s.len() - 1] == e);
            } else {
                assert(in_order(s.drop_last()).contains(e));
                let m = choose|m: int| 0 <= m < s.drop_last().len() && s.drop_last()[m] == e;
                assert(s[m] == e);
            }
        }
    }
}

/// The tasks of a list with the time `next`, in their order.
pub open spec fn with_time(s: Seq<TaskView>, next: Option<Seq<char>>) -> Seq<TaskView>
    decreases s.len(),
{
    if s.len() == 0 {
        s
    } else {
        let before = with_time(s.drop_last(), next);
        if s.last().next_time == next {
            before.push(s.last())
        } else {
            before
        }
    }
}

proof fn inserted_keeps_groups(s: Seq<TaskView>, t: TaskView, next: Option<Seq<char>>)
    ensures
        with_time(inserted(s, t), next) == with_time(s.push(t), next),
    decreases s.len(),
{
    assert(s.push(t).drop_last() =~= s);
    if s.len() == 0 || runs_no_later(s.last().next_time, t.next_time) {
    } else {
        inserted_keeps_groups(s.drop_last(), t, next);
        assert(inserted(s, t).drop_last() =~= inserted(s.drop_last(), t));
        assert(s.drop_last().push(t).drop_last() =~= s.drop_last());
        if t.next_time is Some {
            text::precedes_total(t.next_time->0, t.next_time->0);
        }
        assert(s.last().next_time != t.next_time);
        let front = with_time(s.drop_last(), next);
        assert(with_time(s.push(t), next) == if t.next_time == next {
            with_time(s, next).push(t)
        } else {
            with_time(s, next)
        });
        assert(with_time(s.drop_last().push(t), next) == if t.next_time == next {
            front.push(t)
        } else {
            front
        });
    }
}

/// Putting a list in order loses no task and adds none, and tasks with the same time stay in the
/// order in which they were read.
pub proof fn order_is_stable(s: Seq<TaskView>, next: Option<Seq<char>>)
    ensures
        with_time(in_order(s), next) == with_time(s, next),
    decreases s.len(),
{
    if s.len() > 0 {
        order_is_stable(s.drop_last(), next);
        let sorted = in_order(s.drop_last());
        inserted_keeps_groups(sorted, s.last(), next);
        assert(sorted.push(s.last()).drop_last() =~= sorted);
    }
}

proof fn read_tasks_are_classified(
    members: Seq<(Seq<char>, JsonView)>,
    i18n: JsonView,
    now: Seq<char>,
)
    ensures
        forall|i: int|
            0 <= i < tasks_of(members, i18n, now).len() ==> {
                let t = #[trigger] tasks_of(members, i18n, now)[i];
                t.enabled && t.status == classified(t.next_time, now)
            },
    decreases members.len(),
{
    if members.len() > 0 {
        read_tasks_are_classified(members.drop_last(), i18n, now);
    }
}

/// The list that is shown holds enabled tasks only, in the order of their times. A task waits if
/// and only if it is not due; the first that is due runs, and every other one is queued.
pub proof fn shown_list(members: Seq<(Seq<char>, JsonView)>, i18n: JsonView, now: Seq<char>)
    ensures
        is_in_order(task_list(members, i18n, now)),
        forall|i: int|
            0 <= i < task_list(members, i18n, now).len() ==> {
                let t = #[trigger] task_list(members, i18n, now)[i];
                &&& t.enabled
                &&& (t.status == TaskStatus::Waiting <==> !is_due(t.next_time, now))
                &&& (t.status == TaskStatus::Running <==> i == 0 && is_due(t.next_time, now))
            },
{
    let read = tasks_of(members, i18n, now);
    let sorted = in_order(read);
    let shown = task_list(members, i18n, now);
    read_tasks_are_classified(members, i18n, now);
    list_is_in_order(read);
    assert forall|i: int| 0 <= i < sorted.len() implies {
        let t = #[trigger] sorted[i];
        t.enabled && t.status == classified(t.next_time, now)
    } by {
        assert(sorted.contains(sorted[i]));
        let k = choose|k: int| 0 <= k < read.len() && read[k] == sorted[i];
        assert(read[k] == sorted[i]);
    }
    assert forall|i: int| 0 <= i < shown.len() implies {
        let t = #[trigger] shown[i];
        &&& t.enabled
        &&& (t.status == TaskStatus::Waiting <==> !is_due(t.next_time, now))
        &&& (t.status == TaskStatus::Running <==> i == 0 && is_due(t.next_time, now))
    } by {
        assert(sorted[i].next_time == shown[i].next_time);
        if i > 0 && is_due(sorted[i].next_time, now) {
            assert(runs_no_later(sorted[0].next_time, sorted[i].next_time));
            text::precedes_transitive(
                sorted[0].next_time->0,
                sorted[i].next_time->0,
                now,
            );
            assert(sorted[0].status == TaskStatus::Running);
        }
    }
    assert forall|i: int, j: int| 0 <= i < j < shown.len() implies runs_no_later(
        (#[trigger] shown[i]).next_time,
        (#[trigger] shown[j]).next_time,
    ) by {
        assert(sorted[i].next_time == shown[i].next_time);
        assert(sorted[j].next_time == shown[j].next_time);
    }
}

/// A member of the scheduler's file is an enabled task: it has a group `Scheduler`, whose `Enable` is
/// true.
pub open spec fn is_enabled_task(m: (Seq<char>, JsonView)) -> bool {
    match m.1.member("Scheduler"@) {
        Some(group) => group.member("Enable"@) == Some(JsonView::Bool(true)),
        None => false,
    }
}

/// The time of the next run of a member of the scheduler's file, if it is written as a text.
pub open spec fn written_time(m: (Seq<char>, JsonView)) -> Option<Seq<char>> {
    match m.1.member("Scheduler"@) {
        Some(group) => match group.member("NextRun"@) {
            Some(JsonView::Str(t)) => Some(t),
            _ => None,
        },
        None => None,
    }
}

/// Nothing is left out of what was read: there is one task for every enabled member of the file, in
/// their order, with its command, the time that is written there, and the name that is shown.
pub proof fn every_enabled_task_is_read(
    members: Seq<(Seq<char>, JsonView)>,
    i18n: JsonView,
    now: Seq<char>,
)
    ensures
        ({
            let enabled = members.filter(|m: (Seq<char>, JsonView)| is_enabled_task(m));
            let tasks = tasks_of(members, i18n, now);
            &&& tasks.len() == enabled.len()
            &&& forall|k: int|
                0 <= k < enabled.len() ==> {
                    let t = #[trigger] tasks[k];
                    &&& t.command == enabled[k].0
                    &&& t.next_time == written_time(enabled[k])
                    &&& t.name == shown_name(i18n, enabled[k].0)
                    &&& t.enabled
                }
        }),
    decreases members.len(),
{
    reveal(Seq::filter);
    let pred = |m: (Seq<char>, JsonView)| is_enabled_task(m);
    if members.len() > 0 {
        let front = members.drop_last();
        every_enabled_task_is_read(front, i18n, now);
        let before = tasks_of(front, i18n, now);
        let tasks = tasks_of(members, i18n, now);
        let enabled = members.filter(pred);
        let m = members.last();
        assert(is_enabled_task(m) <==> task_of(m.0, m.1, i18n, now) is Some);
        assert forall|k: int| 0 <= k < enabled.len() implies {
            let t = #[trigger] tasks[k];
            &&& t.command == enabled[k].0
            &&& t.next_time == written_time(enabled[k])
            &&& t.name == shown_name(i18n, enabled[k].0)
            &&& t.enabled
        } by {
            if k < front.filter(pred).len() {
                assert(enabled[k] == front.filter(pred)[k]);
                assert(tasks[k] == before[k]);
            } else {
                assert(enabled[k] == m);
            }
        }
    }
}

/// A task without what its state is.
pub open spec fn identity(t: TaskView) -> (Seq<char>, Seq<char>, Option<Seq<char>>) {
    (t.command, t.name, t.next_time)
}

/// The list that is shown holds the tasks that were read, each as often as it was read, and no
/// others: so there are as many as there are enabled members in the file, and each of these is there
/// with its command and its time.
pub proof fn the_list_is_complete(
    members: Seq<(Seq<char>, JsonView)>,
    i18n: JsonView,
    now: Seq<char>,
)
    ensures
        ({
            let shown = task_list(members, i18n, now);
            let read = tasks_of(members, i18n, now);
            let enabled = members.filter(|m: (Seq<char>, JsonView)| is_enabled_task(m));
            &&& shown.len() == enabled.len()
            &&& shown.map_values(|t: TaskView| identity(t)).to_multiset() == read.map_values(
                |t: TaskView| identity(t),
            ).to_multiset()
            &&& forall|k: int|
                0 <= k < members.len() && is_enabled_task(#[trigger] members[k]) ==> exists|i: int|
                    {
                        &&& 0 <= i < shown.len()
                        &&& (#[trigger] shown[i]).command == members[k].0
                        &&& shown[i].next_time == written_time(members[k])
                        &&& shown[i].name == shown_name(i18n, members[k].0)
                    }
        }),
{
    let read = tasks_of(members, i18n, now);
    let sorted = in_order(read);
    let shown = task_list(members, i18n, now);
    let key = |t: TaskView| identity(t);
    every_enabled_task_is_read(members, i18n, now);
    list_is_in_order(read);
    order_keeps_tasks(read);
    assert(shown.map_values(key) =~= sorted.map_values(key));
    assert forall|k: int| 0 <= k < members.len() && is_enabled_task(
        #[trigger] members[k],
    ) implies exists|i: int|
        {
            &&& 0 <= i < shown.len()
            &&& (#[trigger] shown[i]).command == members[k].0
            &&& shown[i].next_time == written_time(members[k])
            &&& shown[i].name == shown_name(i18n, members[k].0)
        } by {
        enabled_task_is_among(members, i18n, now, k);
        let j = choose|j: int|
            0 <= j < read.len() && (#[trigger] read[j]).command == members[k].0
                && read[j].next_time == written_time(members[k]) && read[j].name == shown_name(
                i18n,
                members[k].0,
            );
        let e = identity(read[j]);
        let a = read.map_values(key);
        let b = shown.map_values(key);
        assert(a[j] == e);
        a.to_multiset_ensures();
        b.to_multiset_ensures();
        assert(a.contains(e));
        assert(a.to_multiset().count(e) > 0);
        assert(b.to_multiset().count(e) > 0);
        assert(b.contains(e));
        let i = choose|i: int| 0 <= i < b.len() && b[i] == e;
        assert(identity(shown[i]) == e);
    }
}

proof fn enabled_task_is_among(
    members: Seq<(Seq<char>, JsonView)>,
    i18n: JsonView,
    now: Seq<char>,
    k: int,
)
    requires
        0 <= k < members.len(),
        is_enabled_task(members[k]),
    ensures
        exists|j: int|
            0 <= j < tasks_of(members, i18n, now).len() && (#[trigger] tasks_of(
                members,
                i18n,
                now,
            )[j]).command == members[k].0 && tasks_of(members, i18n, now)[j].next_time
                == written_time(members[k]) && tasks_of(members, i18n, now)[j].name == shown_name(
                i18n,
                members[k].0,
            ),
    decreases members.len(),
{
    let front = members.drop_last();
    let before = tasks_of(front, i18n, now);
    let tasks = tasks_of(members, i18n, now);
    if k < front.len() {
        assert(front[k] == members[k]);
        enabled_task_is_among(front, i18n, now, k);
        let j = choose|j: int|
            0 <= j < before.len() && (#[trigger] before[j]).command == members[k].0
                && before[j].next_time == written_time(members[k]) && before[j].name == shown_name(
                i18n,
                members[k].0,
            );
        assert(tasks[j] == before[j]);
    } else {
        let t = tasks[tasks.len() - 1];
        assert(t.command == members[k].0);
    }
}

proof fn order_keeps_tasks(s: Seq<TaskView>)
    ensures
        in_order(s).map_values(|t: TaskView| identity(t)).to_multiset() == s.map_values(
            |t: TaskView| identity(t),
        ).to_multiset(),
    decreases s.len(),
{
    let key = |t: TaskView| identity(t);
    if s.len() > 0 {
        let front = s.drop_last();
        order_keeps_tasks(front);
        inserted_keeps_tasks(in_order(front), s.last());
        assert(s.map_values(key) =~= front.map_values(key).push(identity(s.last())));
        front.map_values(key).to_multiset_ensures();
    } else {
        assert(in_order(s).map_values(key) =~= s.map_values(key));
    }
}

proof fn inserted_keeps_tasks(s: Seq<TaskView>, t: TaskView)
    ensures
        inserted(s, t).map_values(|t: TaskView| identity(t)).to_multiset() == s.map_values(
            |t: TaskView| identity(t),
        ).to_multiset().insert(identity(t)),
    decreases s.len(),
{
    let key = |t: TaskView| identity(t);
    let m = s.map_values(key);
    m.to_multiset_ensures();
    if s.len() == 0 || runs_no_later(s.last().next_time, t.next_time) {
        assert(s.push(t).map_values(key) =~= m.push(identity(t)));
    } else {
        let front = s.drop_last();
        inserted_keeps_tasks(front, t);
        let head = inserted(front, t).map_values(key);
        head.to_multiset_ensures();
        front.map_values(key).to_multiset_ensures();
        assert(m =~= front.map_values(key).push(identity(s.last())));
        assert(inserted(s, t).map_values(key) =~= head.push(identity(s.last())));
        assert(front.map_values(key).to_multiset().insert(identity(t)).insert(identity(s.last()))
            =~= front.map_values(key).to_multiset().insert(identity(s.last())).insert(identity(t)));
    }
}

/// The list is in the order of the times that are written: a task with a time stands before every one
/// without, and before every one with a later time. A task waits exactly if it has no time or one
/// that comes later than now; of those that are due the first of the list runs, and the others are
/// queued.
pub proof fn the_list_is_in_the_order_of_time(
    members: Seq<(Seq<char>, JsonView)>,
    i18n: JsonView,
    now: Seq<char>,
)
    ensures
        ({
            let shown = task_list(members, i18n, now);
            &&& forall|i: int, j: int|
                0 <= i < j < shown.len() && (#[trigger] shown[j]).next_time is Some ==> (
                #[trigger] shown[i]).next_time is Some && text::precedes(
                    shown[i].next_time->0,
                    shown[j].next_time->0,
                )
            &&& forall|i: int|
                0 <= i < shown.len() ==> {
                    let t = #[trigger] shown[i];
                    let later = t.next_time is None || (text::precedes(now, t.next_time->0) && now
                        != t.next_time->0);
                    &&& t.status == TaskStatus::Waiting <==> later
                    &&& t.status == TaskStatus::Running <==> !later && i == 0
                    &&& t.status == TaskStatus::Queued <==> !later && i > 0
                }
        }),
{
    let shown = task_list(members, i18n, now);
    shown_list(members, i18n, now);
    assert forall|i: int| 0 <= i < shown.len() implies {
        let t = #[trigger] shown[i];
        is_due(t.next_time, now) <==> !(t.next_time is None || (text::precedes(now, t.next_time->0)
            && now != t.next_time->0))
    } by {
        let t = shown[i];
        if t.next_time is Some {
            text::precedes_total(now, t.next_time->0);
            if text::precedes(now, t.next_time->0) && text::precedes(t.next_time->0, now) {
                text::precedes_antisymmetric(now, t.next_time->0);
            }
        }
    }
    assert forall|i: int, j: int|
        0 <= i < j < shown.len() && (#[trigger] shown[j]).next_time is Some implies (
    #[trigger] shown[i]).next_time is Some && text::precedes(
        shown[i].next_time->0,
        shown[j].next_time->0,
    ) by {
        assert(runs_no_later(shown[i].next_time, shown[j].next_time));
    }
}

/// A task is called by the text `name` of its entry in the group `Task` of the names, or else by its
/// command.
pub proof fn what_a_task_is_called(
    i18n: JsonView,
    command: Seq<char>,
    names: JsonView,
    entry: JsonView,
)
    ensures
        i18n.member("Task"@) == Some(names) && names.member(command) == Some(entry)
            && entry.member("name"@) is Some && entry.member("name"@)->0 is Str ==> shown_name(
            i18n,
            command,
        ) == entry.member("name"@)->0->Str_0,
        i18n.member("Task"@) is None ==> shown_name(i18n, command) == command,
        i18n.member("Task"@) == Some(names) && names.member(command) is None ==> shown_name(
            i18n,
            command,
        ) == command,
        i18n.member("Task"@) == Some(names) && names.member(command) == Some(entry) && (
        entry.member("name"@) is None || entry.member("name"@)->0 !is Str) ==> shown_name(
            i18n,
            command,
        ) == command,
{
}

/// The names are those of the document where the file holds one; a file that is not there, is blank or
/// cannot be read gives no names.
pub proof fn where_names_come_from(content: Seq<char>)
    ensures
        text::trimmed(content).len() > 0 && json_document(content) is Some ==> names_in(
            Some(content),
        ) == json_document(content)->0,
        text::trimmed(content).len() == 0 || json_document(content) is None ==> names_in(
            Some(content),
        ) == JsonView::Object(Seq::empty()),
        names_in(None) == JsonView::Object(Seq::empty()),
{
}

} // verus!
