//! What the tray menu shows: its rows, their texts, and when they have to be made anew.
use vstd::prelude::*;

use crate::alas_tasks::{task_views, Task, TaskStatus, TaskView};
use crate::backend::{BackendStateSnapshot, BackendStatus, SchedulerIntent};
use crate::json::{Json, JsonView};
use crate::text;

verus! {

/// The texts for the control of the scheduler in one language.
#[derive(Debug, PartialEq, Eq)]
pub struct ControlLabels {
    pub scheduler: String,
    /// What stands between a name and its value.
    pub sep: String,
    pub stopped: String,
    pub start: String,
    pub stop: String,
    pub processing: String,
    pub failed: String,
    pub running: String,
    pub initializing: String,
    /// What the state is called where nobody has asked for the stop.
    pub abnormal: String,
    /// The hint that the scheduler cannot be controlled on its own.
    pub degraded: String,
}

/// The texts for the control of the scheduler.
pub struct ControlLabelsView {
    pub scheduler: Seq<char>,
    pub sep: Seq<char>,
    pub stopped: Seq<char>,
    pub start: Seq<char>,
    pub stop: Seq<char>,
    pub processing: Seq<char>,
    pub failed: Seq<char>,
    pub running: Seq<char>,
    pub initializing: Seq<char>,
    pub abnormal: Seq<char>,
    pub degraded: Seq<char>,
}

impl View for ControlLabels {
    type V = ControlLabelsView;

    open spec fn view(&self) -> ControlLabelsView {
        ControlLabelsView {
            scheduler: self.scheduler@,
            sep: self.sep@,
            stopped: self.stopped@,
            start: self.start@,
            stop: self.stop@,
            processing: self.processing@,
            failed: self.failed@,
            running: self.running@,
            initializing: self.initializing@,
            abnormal: self.abnormal@,
            degraded: self.degraded@,
        }
    }
}

/// The launcher's own texts for the control of the scheduler in a language; one that is not known
/// gets those in simplified Chinese.
pub open spec fn own_control_texts(language: Seq<char>) -> ControlLabelsView {
    if language == "zh-TW"@ {
        ControlLabelsView {
            scheduler: "調度器"@,
            sep: "："@,
            stopped: "已停止"@,
            start: "啟動"@,
            stop: "停止"@,
            processing: "處理中…"@,
            failed: "啟動失敗"@,
            running: "運行中"@,
            initializing: "啟動中…"@,
            abnormal: "異常停止"@,
            degraded: "密碼/SSL 已配置，僅進程級控制"@,
        }
    } else if language == "en-US"@ {
        ControlLabelsView {
            scheduler: "Scheduler"@,
            sep: ": "@,
            stopped: "stopped"@,
            start: "Start"@,
            stop: "Stop"@,
            processing: "Processing…"@,
            failed: "start failed"@,
            running: "running"@,
            initializing: "starting…"@,
            abnormal: "stopped abnormally"@,
            degraded: "password/SSL configured, process-level control only"@,
        }
    } else if language == "ja-JP"@ {
        ControlLabelsView {
            scheduler: "スケジューラー"@,
            sep: ": "@,
            stopped: "停止済み"@,
            start: "実行"@,
            stop: "停止"@,
            processing: "処理中…"@,
            failed: "起動失敗"@,
            running: "実行中"@,
            initializing: "起動中…"@,
            abnormal: "異常停止"@,
            degraded: "パスワード/SSL 設定済み、プロセス単位の制御のみ"@,
        }
    } else {
        ControlLabelsView {
            scheduler: "调度器"@,
            sep: "："@,
            stopped: "已停止"@,
            start: "启动"@,
            stop: "停止"@,
            processing: "处理中…"@,
            failed: "启动失败"@,
            running: "运行中"@,
            initializing: "启动中…"@,
            abnormal: "异常停止"@,
            degraded: "密码/SSL 已配置，仅进程级控制"@,
        }
    }
}

/// The launcher's own texts for the control of the scheduler in a language.
fn own_control_labels(language: &str) -> (r: ControlLabels)
    ensures
        r@ == own_control_texts(language@),
{
    if text::same(language, "zh-TW") {
        ControlLabels {
            scheduler: String::from_str("調度器"),
            sep: String::from_str("："),
            stopped: String::from_str("已停止"),
            start: String::from_str("啟動"),
            stop: String::from_str("停止"),
            processing: String::from_str("處理中…"),
            failed: String::from_str("啟動失敗"),
            running: String::from_str("運行中"),
            initializing: String::from_str("啟動中…"),
            abnormal: String::from_str("異常停止"),
            degraded: String::from_str("密碼/SSL 已配置，僅進程級控制"),
        }
    } else if text::same(language, "en-US") {
        ControlLabels {
            scheduler: String::from_str("Scheduler"),
            sep: String::from_str(": "),
            stopped: String::from_str("stopped"),
            start: String::from_str("Start"),
            stop: String::from_str("Stop"),
            processing: String::from_str("Processing…"),
            failed: String::from_str("start failed"),
            running: String::from_str("running"),
            initializing: String::from_str("starting…"),
            abnormal: String::from_str("stopped abnormally"),
            degraded: String::from_str("password/SSL configured, process-level control only"),
        }
    } else if text::same(language, "ja-JP") {
        ControlLabels {
            scheduler: String::from_str("スケジューラー"),
            sep: String::from_str(": "),
            stopped: String::from_str("停止済み"),
            start: String::from_str("実行"),
            stop: String::from_str("停止"),
            processing: String::from_str("処理中…"),
            failed: String::from_str("起動失敗"),
            running: String::from_str("実行中"),
            initializing: String::from_str("起動中…"),
            abnormal: String::from_str("異常停止"),
            degraded: String::from_str("パスワード/SSL 設定済み、プロセス単位の制御のみ"),
        }
    } else {
        ControlLabels {
            scheduler: String::from_str("调度器"),
            sep: String::from_str("："),
            stopped: String::from_str("已停止"),
            start: String::from_str("启动"),
            stop: String::from_str("停止"),
            processing: String::from_str("处理中…"),
            failed: String::from_str("启动失败"),
            running: String::from_str("运行中"),
            initializing: String::from_str("启动中…"),
            abnormal: String::from_str("异常停止"),
            degraded: String::from_str("密码/SSL 已配置，仅进程级控制"),
        }
    }
}

/// A text of the web interface in its translation.
pub open spec fn interface_text(i18n: JsonView, group: Seq<char>, key: Seq<char>) -> Option<
    Seq<char>,
> {
    match i18n.member("Gui"@) {
        Some(gui) => match gui.member(group) {
            Some(texts) => texts.member_text(key),
            None => None,
        },
        None => None,
    }
}

/// A text of the web interface in its translation; where that lacks it, the launcher's own.
fn interface_label(i18n: &Json, group: &str, key: &str, own: String) -> (r: String)
    ensures
        r@ == (match interface_text(i18n@, group@, key@) {
            Some(t) => t,
            None => own@,
        }),
{
    if let Some(gui) = i18n.get("Gui") {
        if let Some(texts) = gui.get(group) {
            if let Some(t) = texts.get_str(key) {
                return String::from_str(t);
            }
        }
    }
    own
}

/// The texts for the control of the scheduler in a language. What the web interface shows too is
/// called as in its translation `i18n`: the scheduler, and the buttons that start and stop it. All
/// else, and what the translation lacks, is called by the launcher's own texts.
pub open spec fn control_texts(language: Seq<char>, i18n: JsonView) -> ControlLabelsView {
    let own = own_control_texts(language);
    ControlLabelsView {
        scheduler: match interface_text(i18n, "Overview"@, "Scheduler"@) {
            Some(t) => t,
            None => own.scheduler,
        },
        start: match interface_text(i18n, "Button"@, "Start"@) {
            Some(t) => t,
            None => own.start,
        },
        stop: match interface_text(i18n, "Button"@, "Stop"@) {
            Some(t) => t,
            None => own.stop,
        },
        ..own
    }
}

/// The texts for the control of the scheduler in a language, with the translation of the web
/// interface into it.
pub fn control_labels(language: &str, i18n: &Json) -> (r: ControlLabels)
    ensures
        r@ == control_texts(language@, i18n@),
{
    let own = own_control_labels(language);
    ControlLabels {
        scheduler: interface_label(i18n, "Overview", "Scheduler", own.scheduler),
        sep: own.sep,
        stopped: own.stopped,
        start: interface_label(i18n, "Button", "Start", own.start),
        stop: interface_label(i18n, "Button", "Stop", own.stop),
        processing: own.processing,
        failed: own.failed,
        running: own.running,
        initializing: own.initializing,
        abnormal: own.abnormal,
        degraded: own.degraded,
    }
}

/// Without a translation of the web interface everything is called by the launcher's own texts.
pub proof fn missing_translation_has_the_own_texts(language: Seq<char>, i18n: JsonView)
    requires
        i18n.member("Gui"@) is None,
    ensures
        control_texts(language, i18n) == own_control_texts(language),
{
}

/// The texts for the settings, the update check and the notifications in one language.
#[derive(Debug, PartialEq, Eq)]
pub struct ShellMenuLabels {
    pub settings: String,
    pub language: String,
    pub follow_alas: String,
    /// The names of the languages that can be chosen.
    pub lang_names: [String; 4],
    pub auto_start: String,
    pub check_update: String,
    pub notify_master: String,
    pub notify_death: String,
    pub notify_task: String,
    pub check_failed: String,
    pub update_available: String,
    pub up_to_date: String,
    pub notify_task_done: String,
    pub notify_death_body: String,
}

/// The texts for the settings, the update check and the notifications.
pub struct ShellMenuLabelsView {
    pub settings: Seq<char>,
    pub language: Seq<char>,
    pub follow_alas: Seq<char>,
    pub lang_names: Seq<Seq<char>>,
    pub auto_start: Seq<char>,
    pub check_update: Seq<char>,
    pub notify_master: Seq<char>,
    pub notify_death: Seq<char>,
    pub notify_task: Seq<char>,
    pub check_failed: Seq<char>,
    pub update_available: Seq<char>,
    pub up_to_date: Seq<char>,
    pub notify_task_done: Seq<char>,
    pub notify_death_body: Seq<char>,
}

impl View for ShellMenuLabels {
    type V = ShellMenuLabelsView;

    open spec fn view(&self) -> ShellMenuLabelsView {
        ShellMenuLabelsView {
            settings: self.settings@,
            language: self.language@,
            follow_alas: self.follow_alas@,
            lang_names: text::texts(self.lang_names@),
            auto_start: self.auto_start@,
            check_update: self.check_update@,
            notify_master: self.notify_master@,
            notify_death: self.notify_death@,
            notify_task: self.notify_task@,
            check_failed: self.check_failed@,
            update_available: self.update_available@,
            up_to_date: self.up_to_date@,
            notify_task_done: self.notify_task_done@,
            notify_death_body: self.notify_death_body@,
        }
    }
}

/// The names of the languages that can be chosen, each in that language.
pub open spec fn language_names() -> Seq<Seq<char>> {
    seq!["简体中文"@, "繁體中文"@, "English"@, "日本語"@]
}

/// The texts for the settings, the update check and the notifications in a language; one that is
/// not known gets those in simplified Chinese.
pub open spec fn shell_menu_texts(language: Seq<char>) -> ShellMenuLabelsView {
    if language == "zh-TW"@ {
        ShellMenuLabelsView {
            settings: "外殼設定"@,
            language: "語言"@,
            follow_alas: "跟隨 ALAS"@,
            auto_start: "自動啟動後端"@,
            check_update: "檢查更新"@,
            notify_master: "通知"@,
            notify_death: "調度器異常退出通知"@,
            notify_task: "任務完成通知"@,
            check_failed: "檢查失敗"@,
            update_available: "有可用更新"@,
            up_to_date: "已是最新"@,
            notify_task_done: "{name} 已完成，下次運行 {next_time}"@,
            notify_death_body: "調度器 {name} 異常退出"@,
            lang_names: language_names(),
        }
    } else if language == "en-US"@ {
        ShellMenuLabelsView {
            settings: "Launcher Settings"@,
            language: "Language"@,
            follow_alas: "Follow ALAS"@,
            auto_start: "Start backend automatically"@,
            check_update: "Check for Updates"@,
            notify_master: "Notifications"@,
            notify_death: "Notify on scheduler death"@,
            notify_task: "Notify on task completion"@,
            check_failed: "Check failed"@,
            update_available: "Update available"@,
            up_to_date: "Up to date"@,
            notify_task_done: "{name} finished, next run {next_time}"@,
            notify_death_body: "Scheduler {name} exited unexpectedly"@,
            lang_names: language_names(),
        }
    } else if language == "ja-JP"@ {
        ShellMenuLabelsView {
            settings: "シェル設定"@,
            language: "言語"@,
            follow_alas: "ALAS に従う"@,
            auto_start: "バックエンドを自動起動"@,
            check_update: "更新を確認"@,
            notify_master: "通知"@,
            notify_death: "スケジューラー異常終了の通知"@,
            notify_task: "タスク完了の通知"@,
            check_failed: "確認に失敗しました"@,
            update_available: "更新があります"@,
            up_to_date: "最新です"@,
            notify_task_done: "{name} 完了、次回 {next_time}"@,
            notify_death_body: "スケジューラー {name} が異常終了しました"@,
            lang_names: language_names(),
        }
    } else {
        ShellMenuLabelsView {
            settings: "外壳设置"@,
            language: "语言"@,
            follow_alas: "跟随 ALAS"@,
            auto_start: "自动启动后端"@,
            check_update: "检查更新"@,
            notify_master: "通知"@,
            notify_death: "调度器异常退出通知"@,
            notify_task: "任务完成通知"@,
            check_failed: "检查失败"@,
            update_available: "有可用更新"@,
            up_to_date: "已是最新"@,
            notify_task_done: "{name} 已完成，下次运行 {next_time}"@,
            notify_death_body: "调度器 {name} 异常退出"@,
            lang_names: language_names(),
        }
    }
}

/// The texts for the settings, the update check and the notifications in a language.
pub fn shell_menu_labels(language: &str) -> (r: ShellMenuLabels)
    ensures
        r@ == shell_menu_texts(language@),
{
    let lang_names: [String; 4] = [
        String::from_str("简体中文"),
        String::from_str("繁體中文"),
        String::from_str("English"),
        String::from_str("日本語"),
    ];
    assert(text::texts(lang_names@) =~= language_names());
    if text::same(language, "zh-TW") {
        ShellMenuLabels {
            settings: String::from_str("外殼設定"),
            language: String::from_str("語言"),
            follow_alas: String::from_str("跟隨 ALAS"),
            auto_start: String::from_str("自動啟動後端"),
            check_update: String::from_str("檢查更新"),
            notify_master: String::from_str("通知"),
            notify_death: String::from_str("調度器異常退出通知"),
            notify_task: String::from_str("任務完成通知"),
            check_failed: String::from_str("檢查失敗"),
            update_available: String::from_str("有可用更新"),
            up_to_date: String::from_str("已是最新"),
            notify_task_done: String::from_str("{name} 已完成，下次運行 {next_time}"),
            notify_death_body: String::from_str("調度器 {name} 異常退出"),
            lang_names,
        }
    } else if text::same(language, "en-US") {
        ShellMenuLabels {
            settings: String::from_str("Launcher Settings"),
            language: String::from_str("Language"),
            follow_alas: String::from_str("Follow ALAS"),
            auto_start: String::from_str("Start backend automatically"),
            check_update: String::from_str("Check for Updates"),
            notify_master: String::from_str("Notifications"),
            notify_death: String::from_str("Notify on scheduler death"),
            notify_task: String::from_str("Notify on task completion"),
            check_failed: String::from_str("Check failed"),
            update_available: String::from_str("Update available"),
            up_to_date: String::from_str("Up to date"),
            notify_task_done: String::from_str("{name} finished, next run {next_time}"),
            notify_death_body: String::from_str("Scheduler {name} exited unexpectedly"),
            lang_names,
        }
    } else if text::same(language, "ja-JP") {
        ShellMenuLabels {
            settings: String::from_str("シェル設定"),
            language: String::from_str("言語"),
            follow_alas: String::from_str("ALAS に従う"),
            auto_start: String::from_str("バックエンドを自動起動"),
            check_update: String::from_str("更新を確認"),
            notify_master: String::from_str("通知"),
            notify_death: String::from_str("スケジューラー異常終了の通知"),
            notify_task: String::from_str("タスク完了の通知"),
            check_failed: String::from_str("確認に失敗しました"),
            update_available: String::from_str("更新があります"),
            up_to_date: String::from_str("最新です"),
            notify_task_done: String::from_str("{name} 完了、次回 {next_time}"),
            notify_death_body: String::from_str("スケジューラー {name} が異常終了しました"),
            lang_names,
        }
    } else {
        ShellMenuLabels {
            settings: String::from_str("外壳设置"),
            language: String::from_str("语言"),
            follow_alas: String::from_str("跟随 ALAS"),
            auto_start: String::from_str("自动启动后端"),
            check_update: String::from_str("检查更新"),
            notify_master: String::from_str("通知"),
            notify_death: String::from_str("调度器异常退出通知"),
            notify_task: String::from_str("任务完成通知"),
            check_failed: String::from_str("检查失败"),
            update_available: String::from_str("有可用更新"),
            up_to_date: String::from_str("已是最新"),
            notify_task_done: String::from_str("{name} 已完成，下次运行 {next_time}"),
            notify_death_body: String::from_str("调度器 {name} 异常退出"),
            lang_names,
        }
    }
}

/// How the task section of the menu is shown.
#[derive(Clone, Copy, Debug, PartialEq, Eq, Structural)]
pub enum TaskSection {
    /// There is no backend, or the tasks could not be read.
    Degraded,
    /// There are no tasks.
    Empty,
    Tasks,
}

/// How many tasks of a group are shown.
pub const TASK_GROUP_MAX: usize = 3;

/// A row of the task section.
#[allow(inconsistent_fields)]
#[derive(Debug, PartialEq, Eq)]
pub enum TaskMenuItem {
    GroupHeader { id: String, text: &'static str },
    TaskItem { id: String, text: String },
    Separator,
}

/// A row of the task section.
pub enum TaskMenuItemView {
    GroupHeader { id: Seq<char>, text: Seq<char> },
    TaskItem { id: Seq<char>, text: Seq<char> },
    Separator,
}

impl View for TaskMenuItem {
    type V = TaskMenuItemView;

    open spec fn view(&self) -> TaskMenuItemView {
        match self {
            TaskMenuItem::GroupHeader { id, text } => TaskMenuItemView::GroupHeader {
                id: id@,
                text: text@,
            },
            TaskMenuItem::TaskItem { id, text } => TaskMenuItemView::TaskItem {
                id: id@,
                text: text@,
            },
            TaskMenuItem::Separator => TaskMenuItemView::Separator,
        }
    }
}

/// What the rows of a list show.
pub open spec fn item_views(v: Seq<TaskMenuItem>) -> Seq<TaskMenuItemView> {
    v.map_values(|i: TaskMenuItem| i@)
}

/// The tasks of a list that stand as `status`, in their order.
pub open spec fn group_of(tasks: Seq<TaskView>, status: TaskStatus) -> Seq<TaskView>
    decreases tasks.len(),
{
    if tasks.len() == 0 {
        tasks
    } else {
        let before = group_of(tasks.drop_last(), status);
        if tasks.last().status == status {
            before.push(tasks.last())
        } else {
            before
        }
    }
}

/// How many of so many tasks are shown.
pub open spec fn shown_count(n: nat) -> nat {
    if n < TASK_GROUP_MAX {
        n
    } else {
        TASK_GROUP_MAX as nat
    }
}

/// The row of a task, the `index`th in the menu.
pub open spec fn task_row(t: TaskView, index: nat) -> TaskMenuItemView {
    TaskMenuItemView::TaskItem {
        id: "task-"@ + text::decimal_of(index),
        text: t.name + " — "@ + (match t.next_time {
            Some(time) => time,
            None => Seq::empty(),
        }),
    }
}

/// The rows of the tasks of a group, the first of which is the `index`th in the menu.
pub open spec fn task_rows(group: Seq<TaskView>, index: nat) -> Seq<TaskMenuItemView> {
    Seq::new(shown_count(group.len()), |i: int| task_row(group[i], (index + i) as nat))
}

/// The rows of a section with another group behind them: a group without tasks adds nothing; else a
/// header and the first tasks follow, behind a separator if there is a group before.
pub open spec fn with_group(
    rows: Seq<TaskMenuItemView>,
    index: nat,
    id: Seq<char>,
    header: Seq<char>,
    group: Seq<TaskView>,
) -> Seq<TaskMenuItemView> {
    if group.len() == 0 {
        rows
    } else {
        let parted = if rows.len() > 0 {
            rows.push(TaskMenuItemView::Separator)
        } else {
            rows
        };
        parted.push(TaskMenuItemView::GroupHeader { id, text: header }) + task_rows(group, index)
    }
}

/// The rows of the task section: the tasks that run, that are queued and that wait.
pub open spec fn section_rows(tasks: Seq<TaskView>) -> Seq<TaskMenuItemView> {
    let running = group_of(tasks, TaskStatus::Running);
    let queued = group_of(tasks, TaskStatus::Queued);
    let waiting = group_of(tasks, TaskStatus::Waiting);
    let first = with_group(Seq::empty(), 0, "group-running"@, "运行中"@, running);
    let second = with_group(
        first,
        shown_count(running.len()),
        "group-queued"@,
        "队列中"@,
        queued,
    );
    with_group(
        second,
        shown_count(running.len()) + shown_count(queued.len()),
        "group-waiting"@,
        "等待中"@,
        waiting,
    )
}

/// The positions of the tasks that stand as `status`.
fn positions_of(tasks: &[Task], status: TaskStatus) -> (r: Vec<usize>)
    ensures
        r@.len() == group_of(task_views(tasks@), status).len(),
        forall|i: int|
            0 <= i < r@.len() ==> (#[trigger] r@[i]) < tasks@.len() && tasks@[r@[i] as int]@
                == group_of(task_views(tasks@), status)[i],
{
    let ghost all = task_views(tasks@);
    let mut r: Vec<usize> = Vec::new();
    let mut i: usize = 0;
    assert(all.take(0) =~= Seq::<TaskView>::empty());
    while i < tasks.len()
        invariant
            i <= tasks@.len(),
            all == task_views(tasks@),
            r@.len() == group_of(all.take(i as int), status).len(),
            forall|k: int|
                0 <= k < r@.len() ==> (#[trigger] r@[k]) < tasks@.len() && tasks@[r@[k] as int]@
                    == group_of(all.take(i as int), status)[k],
        decreases tasks@.len() - i,
    {
        proof {
            assert(all.take(i + 1).drop_last() =~= all.take(i as int));
            assert(all[i as int] == tasks@[i as int]@);
            assert(all.take(i + 1).last() == all[i as int]);
        }
        if tasks[i].status == status {
            r.push(i);
        }
        i = i + 1;
    }
    assert(all.take(all.len() as int) =~= all);
    r
}

/// Puts the rows of a group behind those that are there. Returns the index of the next task.
fn push_group(
    items: &mut Vec<TaskMenuItem>,
    index: usize,
    tasks: &[Task],
    status: TaskStatus,
    id: &str,
    header: &'static str,
) -> (r: usize)
    requires
        index <= 100,
    ensures
        item_views(final(items)@) == with_group(
            item_views(old(items)@),
            index as nat,
            id@,
            header@,
            group_of(task_views(tasks@), status),
        ),
        r == index + shown_count(group_of(task_views(tasks@), status).len()),
{
    let group = positions_of(tasks, status);
    let ghost views = group_of(task_views(tasks@), status);
    let ghost start = item_views(items@);
    if group.len() == 0 {
        return index;
    }
    if items.len() > 0 {
        items.push(TaskMenuItem::Separator);
        assert(item_views(items@) =~= start.push(TaskMenuItemView::Separator));
    }
    let ghost parted = item_views(items@);
    let head = TaskMenuItem::GroupHeader { id: String::from_str(id), text: header };
    items.push(head);
    let ghost led = parted.push(TaskMenuItemView::GroupHeader { id: id@, text: header@ });
    assert(item_views(items@) =~= led);
    let ghost rows = task_rows(views, index as nat);
    let n: usize = if group.len() < TASK_GROUP_MAX {
        group.len()
    } else {
        TASK_GROUP_MAX
    };
    let mut i: usize = 0;
    assert(led + rows.take(0) =~= led);
    while i < n
        invariant
            i <= n <= group@.len(),
            n <= TASK_GROUP_MAX,
            index <= 100,
            n == shown_count(views.len()),
            views == group_of(task_views(tasks@), status),
            group@.len() == views.len(),
            rows == task_rows(views, index as nat),
            forall|k: int|
                0 <= k < group@.len() ==> (#[trigger] group@[k]) < tasks@.len()
                    && tasks@[group@[k] as int]@ == views[k],
            item_views(items@) == led + rows.take(i as int),
        decreases n - i,
    {
        let t = &tasks[group[i]];
        let number = text::decimal((index + i) as u64);
        let mut row_id = String::from_str("task-");
        row_id.append(number.as_str());
        let mut row_text = t.name.clone();
        row_text.append(" — ");
        if let Some(time) = &t.next_time {
            row_text.append(time.as_str());
        }
        let ghost before = items@;
        let row = TaskMenuItem::TaskItem { id: row_id, text: row_text };
        proof {
            assert(rows[i as int] == task_row(views[i as int], (index + i) as nat));
            if views[i as int].next_time is None {
                assert(row_text@ =~= views[i as int].name + " — "@ + Seq::<char>::empty());
            }
            assert(row@ == rows[i as int]);
        }
        items.push(row);
        proof {
            assert(item_views(items@) =~= item_views(before).push(row@));
            assert(rows.take(i + 1) =~= rows.take(i as int).push(rows[i as int]));
            assert((led + rows.take(i as int)).push(row@) =~= led + rows.take(i + 1));
        }
        i = i + 1;
    }
    assert(rows.take(n as int) =~= rows);
    index + n
}

/// Makes the rows of the task section.
pub fn task_section_items(tasks: &[Task]) -> (r: Vec<TaskMenuItem>)
    ensures
        item_views(r@) == section_rows(task_views(tasks@)),
{
    let mut items: Vec<TaskMenuItem> = Vec::new();
    assert(item_views(items@) =~= Seq::<TaskMenuItemView>::empty());
    let after_running: usize = push_group(
        &mut items,
        0,
        tasks,
        TaskStatus::Running,
        "group-running",
        "运行中",
    );
    let after_queued: usize = push_group(
        &mut items,
        after_running,
        tasks,
        TaskStatus::Queued,
        "group-queued",
        "队列中",
    );
    let _done: usize = push_group(
        &mut items,
        after_queued,
        tasks,
        TaskStatus::Waiting,
        "group-waiting",
        "等待中",
    );
    items
}

/// The rows of tasks in a section, without headers and separators.
pub open spec fn only_tasks(rows: Seq<TaskMenuItemView>) -> Seq<TaskMenuItemView>
    decreases rows.len(),
{
    if rows.len() == 0 {
        rows
    } else {
        let before = only_tasks(rows.drop_last());
        if rows.last() is TaskItem {
            before.push(rows.last())
        } else {
            before
        }
    }
}

proof fn only_tasks_of_rows(rows: Seq<TaskMenuItemView>, more: Seq<TaskMenuItemView>)
    requires
        forall|i: int| 0 <= i < more.len() ==> (#[trigger] more[i]) is TaskItem,
    ensures
        only_tasks(rows + more) == only_tasks(rows) + more,
    decreases more.len(),
{
    if more.len() == 0 {
        assert(rows + more =~= rows);
        assert(only_tasks(rows) + more =~= only_tasks(rows));
    } else {
        let front = more.drop_last();
        assert forall|i: int| 0 <= i < front.len() implies (#[trigger] front[i]) is TaskItem by {
            assert(front[i] == more[i]);
        }
        only_tasks_of_rows(rows, front);
        assert((rows + more).drop_last() =~= rows + front);
        assert((rows + more).last() == more[more.len() - 1]);
        assert(only_tasks(rows) + more =~= (only_tasks(rows) + front).push(more.last()));
    }
}

proof fn only_tasks_of_group(
    rows: Seq<TaskMenuItemView>,
    index: nat,
    id: Seq<char>,
    header: Seq<char>,
    group: Seq<TaskView>,
)
    ensures
        only_tasks(with_group(rows, index, id, header, group)) == only_tasks(rows) + task_rows(
            group,
            index,
        ),
{
    let more = task_rows(group, index);
    if group.len() == 0 {
        assert(only_tasks(rows) + more =~= only_tasks(rows));
    } else {
        let parted = if rows.len() > 0 {
            rows.push(TaskMenuItemView::Separator)
        } else {
            rows
        };
        let led = parted.push(TaskMenuItemView::GroupHeader { id, text: header });
        assert(rows.push(TaskMenuItemView::Separator).drop_last() =~= rows);
        assert(led.drop_last() =~= parted);
        assert(led.last() is GroupHeader);
        assert(only_tasks(led) == only_tasks(parted));
        if rows.len() > 0 {
            assert(parted.drop_last() =~= rows);
            assert(parted.last() is Separator);
        }
        assert(only_tasks(parted) == only_tasks(rows));
        only_tasks_of_rows(led, more);
    }
}

/// The tasks of the section carry the numbers 0, 1, 2 and so on in their rows, across the groups;
/// there are at most `TASK_GROUP_MAX` of each group.
pub proof fn task_rows_are_numbered(tasks: Seq<TaskView>)
    ensures
        ({
            let rows = only_tasks(section_rows(tasks));
            &&& rows.len() <= 3 * TASK_GROUP_MAX
            &&& rows.len() == shown_count(group_of(tasks, TaskStatus::Running).len()) + shown_count(
                group_of(tasks, TaskStatus::Queued).len(),
            ) + shown_count(group_of(tasks, TaskStatus::Waiting).len())
            &&& forall|i: int|
                0 <= i < rows.len() ==> (#[trigger] rows[i]) is TaskItem && rows[i]->TaskItem_id
                    == "task-"@ + text::decimal_of(i as nat)
        }),
{
    let running = group_of(tasks, TaskStatus::Running);
    let queued = group_of(tasks, TaskStatus::Queued);
    let waiting = group_of(tasks, TaskStatus::Waiting);
    let empty = Seq::<TaskMenuItemView>::empty();
    let a = shown_count(running.len());
    let b = shown_count(queued.len());
    let first = with_group(empty, 0, "group-running"@, "运行中"@, running);
    let second = with_group(first, a, "group-queued"@, "队列中"@, queued);
    only_tasks_of_group(empty, 0, "group-running"@, "运行中"@, running);
    only_tasks_of_group(first, a, "group-queued"@, "队列中"@, queued);
    only_tasks_of_group(second, a + b, "group-waiting"@, "等待中"@, waiting);
    let rows = only_tasks(section_rows(tasks));
    let x = task_rows(running, 0);
    let y = task_rows(queued, a);
    let z = task_rows(waiting, a + b);
    assert(only_tasks(empty) == empty);
    assert(rows =~= x + y + z);
    assert forall|i: int| 0 <= i < rows.len() implies (#[trigger] rows[i]) is TaskItem
        && rows[i]->TaskItem_id == "task-"@ + text::decimal_of(i as nat) by {
        if i < a {
            assert(rows[i] == x[i]);
        } else if i < a + b {
            assert(rows[i] == y[i - a]);
        } else {
            assert(rows[i] == z[i - a - b]);
        }
    }
}

/// A separator stands between two groups only: never first, never last, and never beside another.
pub open spec fn separators_stand_between(rows: Seq<TaskMenuItemView>) -> bool {
    &&& rows.len() > 0 ==> rows[0] is GroupHeader && rows.last() is TaskItem
    &&& forall|i: int|
        0 < i < rows.len() && (#[trigger] rows[i]) is Separator ==> i + 1 < rows.len() && rows[i - 1]
            is TaskItem && rows[i + 1] is GroupHeader
}

proof fn group_keeps_separators(
    rows: Seq<TaskMenuItemView>,
    index: nat,
    id: Seq<char>,
    header: Seq<char>,
    group: Seq<TaskView>,
)
    requires
        separators_stand_between(rows),
    ensures
        separators_stand_between(with_group(rows, index, id, header, group)),
{
    if group.len() > 0 {
        let out = with_group(rows, index, id, header, group);
        let n = rows.len() as int;
        assert(out.last() is TaskItem);
        assert forall|i: int| 0 < i < out.len() && (#[trigger] out[i]) is Separator implies i + 1
            < out.len() && out[i - 1] is TaskItem && out[i + 1] is GroupHeader by {
            if i < n {
                assert(out[i] == rows[i]);
                assert(out[i - 1] == rows[i - 1]);
                assert(out[i + 1] == rows[i + 1]);
            } else if n > 0 && i == n {
                assert(out[i - 1] == rows[n - 1]);
            }
        }
        if n > 0 {
            assert(out[0] == rows[0]);
        }
    }
}

/// The section begins with a header and ends in a task, and each separator stands between the last
/// task of a group and the header of the next.
pub proof fn separators_part_groups(tasks: Seq<TaskView>)
    ensures
        separators_stand_between(section_rows(tasks)),
        section_rows(tasks).len() == 0 <==> group_of(tasks, TaskStatus::Running).len() == 0
            && group_of(tasks, TaskStatus::Queued).len() == 0 && group_of(
            tasks,
            TaskStatus::Waiting,
        ).len() == 0,
{
    let running = group_of(tasks, TaskStatus::Running);
    let queued = group_of(tasks, TaskStatus::Queued);
    let waiting = group_of(tasks, TaskStatus::Waiting);
    let empty = Seq::<TaskMenuItemView>::empty();
    let a = shown_count(running.len());
    let b = shown_count(queued.len());
    let first = with_group(empty, 0, "group-running"@, "运行中"@, running);
    let second = with_group(first, a, "group-queued"@, "队列中"@, queued);
    group_keeps_separators(empty, 0, "group-running"@, "运行中"@, running);
    group_keeps_separators(first, a, "group-queued"@, "队列中"@, queued);
    group_keeps_separators(second, a + b, "group-waiting"@, "等待中"@, waiting);
}

/// How the task section is shown.
pub open spec fn section_for(status: BackendStatus, tasks: Option<nat>) -> TaskSection {
    match tasks {
        Some(n) if status == BackendStatus::Running => if n == 0 {
            TaskSection::Empty
        } else {
            TaskSection::Tasks
        },
        _ => TaskSection::Degraded,
    }
}

/// How many tasks were read, if they could be.
pub open spec fn read_count(fetch: Result<Vec<Task>, ()>) -> Option<nat> {
    match fetch {
        Ok(tasks) => Some(tasks@.len()),
        Err(_) => None,
    }
}

/// How the task section is shown, where `count` tasks were read.
fn section_of(status: BackendStatus, count: Option<usize>) -> (r: TaskSection)
    ensures
        r == section_for(
            status,
            match count {
                Some(n) => Some(n as nat),
                None => None,
            },
        ),
{
    match count {
        Some(n) if status == BackendStatus::Running => {
            if n == 0 {
                TaskSection::Empty
            } else {
                TaskSection::Tasks
            }
        },
        _ => TaskSection::Degraded,
    }
}

/// How the task section is shown, from the state of the backend and what was read.
pub fn task_section(status: BackendStatus, fetch: Result<Vec<Task>, ()>) -> (r: TaskSection)
    ensures
        r == section_for(status, read_count(fetch)),
{
    match fetch {
        Ok(tasks) => section_of(status, Some(tasks.len())),
        Err(_) => section_of(status, None),
    }
}

/// A task of the list has the command `command`.
pub open spec fn lists_command(tasks: Seq<TaskView>, command: Seq<char>) -> bool {
    exists|i: int| 0 <= i < tasks.len() && (#[trigger] tasks[i]).command == command
}

/// Every command of the one list is in the other.
pub open spec fn commands_within(a: Seq<TaskView>, b: Seq<TaskView>) -> bool {
    forall|i: int| 0 <= i < a.len() ==> lists_command(b, (#[trigger] a[i]).command)
}

/// The two lists have different commands.
pub open spec fn commands_differ(a: Seq<TaskView>, b: Seq<TaskView>) -> bool {
    !commands_within(a, b) || !commands_within(b, a)
}

/// Whether a task of the list has the command `command`.
fn has_command(tasks: &[Task], command: &str) -> (r: bool)
    ensures
        r == lists_command(task_views(tasks@), command@),
{
    let mut i: usize = 0;
    while i < tasks.len()
        invariant
            i <= tasks@.len(),
            forall|j: int| 0 <= j < i ==> (#[trigger] task_views(tasks@)[j]).command != command@,
        decreases tasks@.len() - i,
    {
        assert(task_views(tasks@)[i as int] == tasks@[i as int]@);
        if text::same(tasks[i].command.as_str(), command) {
            return true;
        }
        i = i + 1;
    }
    false
}

/// Whether every command of the one list is in the other.
fn within(a: &[Task], b: &[Task]) -> (r: bool)
    ensures
        r == commands_within(task_views(a@), task_views(b@)),
{
    let mut i: usize = 0;
    while i < a.len()
        invariant
            i <= a@.len(),
            forall|j: int|
                0 <= j < i ==> lists_command(
                    task_views(b@),
                    (#[trigger] task_views(a@)[j]).command,
                ),
        decreases a@.len() - i,
    {
        assert(task_views(a@)[i as int] == a@[i as int]@);
        if !has_command(b, a[i].command.as_str()) {
            return false;
        }
        i = i + 1;
    }
    true
}

/// Whether the two lists have different commands, so that the menu must be made anew.
pub fn menu_diff_changed(old_tasks: &[Task], new_tasks: &[Task]) -> (r: bool)
    ensures
        r == commands_differ(task_views(old_tasks@), task_views(new_tasks@)),
{
    !within(old_tasks, new_tasks) || !within(new_tasks, old_tasks)
}

/// It does not matter which of the lists is the old one.
pub proof fn diff_is_symmetric(a: Seq<TaskView>, b: Seq<TaskView>)
    ensures
        commands_differ(a, b) == commands_differ(b, a),
{
}

/// A list does not differ from itself, nor from one with the same commands under other names, times
/// or states.
pub proof fn diff_sees_commands_only(a: Seq<TaskView>, b: Seq<TaskView>)
    requires
        a.len() == b.len(),
        forall|i: int| 0 <= i < a.len() ==> (#[trigger] a[i]).command == b[i].command,
    ensures
        !commands_differ(a, b),
{
    assert forall|i: int| 0 <= i < a.len() implies lists_command(b, (#[trigger] a[i]).command) by {
        assert(b[i].command == a[i].command);
    }
    assert forall|i: int| 0 <= i < b.len() implies lists_command(a, (#[trigger] b[i]).command) by {
        assert(a[i].command == b[i].command);
    }
}

/// The text of the state of the backend.
pub open spec fn status_label(status: BackendStatus) -> Seq<char> {
    match status {
        BackendStatus::Initializing => "Backend: initializing…"@,
        BackendStatus::Running => "Backend: running"@,
        BackendStatus::Stopped => "Backend: stopped"@,
    }
}

/// The text of the state of the backend.
pub fn label_for(status: BackendStatus) -> (r: &'static str)
    ensures
        r@ == status_label(status),
{
    match status {
        BackendStatus::Initializing => "Backend: initializing…",
        BackendStatus::Running => "Backend: running",
        BackendStatus::Stopped => "Backend: stopped",
    }
}

/// The text of the start and stop item.
pub fn toggle_label(status: BackendStatus) -> (r: &'static str)
    ensures
        r@ == (if status == BackendStatus::Running {
            "Stop Backend"@
        } else {
            "Start Backend"@
        }),
{
    match status {
        BackendStatus::Running => "Stop Backend",
        BackendStatus::Stopped => "Start Backend",
        BackendStatus::Initializing => "Start Backend",
    }
}

/// Whether the start and stop item can be clicked.
pub fn toggle_enabled(status: BackendStatus) -> (r: bool)
    ensures
        r == (status != BackendStatus::Initializing),
{
    match status {
        BackendStatus::Initializing => false,
        _ => true,
    }
}

/// The text of the row on the state of the backend: that a start failed comes before the state.
pub fn status_text(snapshot: &BackendStateSnapshot) -> (r: String)
    ensures
        r@ == (if snapshot.start_failed {
            "Backend: start failed"@
        } else {
            status_label(snapshot.status)
        }),
{
    if snapshot.start_failed {
        String::from_str("Backend: start failed")
    } else {
        String::from_str(label_for(snapshot.status))
    }
}

/// What the state of the scheduler is called. A start that failed comes first. A scheduler that does
/// not run is called abnormal where it has ended without having been asked to: the backend has died,
/// or it runs and the user has neither stopped nor just started the scheduler. Where nothing is known
/// of the scheduler it counts as stopped.
pub open spec fn state_text(
    snapshot: BackendStateSnapshot,
    scheduler_alive: Option<bool>,
    labels: ControlLabelsView,
) -> Seq<char> {
    if snapshot.start_failed {
        labels.failed
    } else {
        match snapshot.status {
            BackendStatus::Initializing => labels.initializing,
            BackendStatus::Stopped => if snapshot.crashed {
                labels.abnormal
            } else {
                labels.stopped
            },
            BackendStatus::Running => match scheduler_alive {
                Some(true) => labels.running,
                Some(false) => if snapshot.scheduler_intent == SchedulerIntent::Nothing {
                    labels.abnormal
                } else {
                    labels.stopped
                },
                None => labels.stopped,
            },
        }
    }
}

/// The row on the state of the scheduler, with a hint where the scheduler cannot be controlled on
/// its own.
pub open spec fn status_line(
    snapshot: BackendStateSnapshot,
    scheduler_alive: Option<bool>,
    labels: ControlLabelsView,
    ws_available: bool,
) -> Seq<char> {
    let line = labels.scheduler + labels.sep + state_text(snapshot, scheduler_alive, labels);
    if ws_available {
        line
    } else {
        line + " — "@ + labels.degraded
    }
}

/// The row on the state of the scheduler.
pub fn status_line_for(
    snapshot: &BackendStateSnapshot,
    scheduler_alive: Option<bool>,
    labels: &ControlLabels,
    ws_available: bool,
) -> (r: String)
    ensures
        r@ == status_line(*snapshot, scheduler_alive, labels@, ws_available),
{
    let state = if snapshot.start_failed {
        labels.failed.as_str()
    } else {
        match snapshot.status {
            BackendStatus::Initializing => labels.initializing.as_str(),
            BackendStatus::Stopped => if snapshot.crashed {
                labels.abnormal.as_str()
            } else {
                labels.stopped.as_str()
            },
            BackendStatus::Running => match scheduler_alive {
                Some(alive) => if alive {
                    labels.running.as_str()
                } else if snapshot.scheduler_intent == SchedulerIntent::Nothing {
                    labels.abnormal.as_str()
                } else {
                    labels.stopped.as_str()
                },
                None => labels.stopped.as_str(),
            },
        }
    };
    let mut r = labels.scheduler.clone();
    r.append(labels.sep.as_str());
    r.append(state);
    if !ws_available {
        r.append(" — ");
        r.append(labels.degraded.as_str());
    }
    r
}

/// Where a password or SSL keeps the scheduler from being controlled, the row says what it says
/// otherwise, with the hint behind it.
pub proof fn the_hint_is_appended(
    snapshot: BackendStateSnapshot,
    scheduler_alive: Option<bool>,
    labels: ControlLabelsView,
)
    ensures
        status_line(snapshot, scheduler_alive, labels, false) == status_line(
            snapshot,
            scheduler_alive,
            labels,
            true,
        ) + (" — "@ + labels.degraded),
{
    let line = status_line(snapshot, scheduler_alive, labels, true);
    assert(line + " — "@ + labels.degraded =~= line + (" — "@ + labels.degraded));
}

/// What was found of the scheduler plays no part in the row, nor in the start and stop item, unless
/// the backend runs.
pub proof fn the_scheduler_shows_only_while_the_backend_runs(
    snapshot: BackendStateSnapshot,
    a: Option<bool>,
    b: Option<bool>,
    labels: ControlLabelsView,
    ws_available: bool,
)
    requires
        snapshot.status != BackendStatus::Running,
    ensures
        status_line(snapshot, a, labels, ws_available) == status_line(
            snapshot,
            b,
            labels,
            ws_available,
        ),
        toggle_text(snapshot.status, a, labels) == toggle_text(snapshot.status, b, labels),
{
}

/// While the backend runs, a scheduler that the user has asked to stop or to start is never called
/// abnormal: it runs, or counts as stopped.
pub proof fn a_request_is_no_abnormal_stop(
    snapshot: BackendStateSnapshot,
    scheduler_alive: Option<bool>,
    labels: ControlLabelsView,
)
    requires
        snapshot.status == BackendStatus::Running,
        !snapshot.start_failed,
        snapshot.scheduler_intent != SchedulerIntent::Nothing,
    ensures
        state_text(snapshot, scheduler_alive, labels) == (if scheduler_alive == Some(true) {
            labels.running
        } else {
            labels.stopped
        }),
{
}

/// What the start and stop item says: what it does to the scheduler.
pub open spec fn toggle_text(
    status: BackendStatus,
    scheduler_alive: Option<bool>,
    labels: ControlLabelsView,
) -> Seq<char> {
    if status == BackendStatus::Running && scheduler_alive == Some(true) {
        labels.stop
    } else {
        labels.start
    }
}

/// What a look at the backend changes in the menu.
#[derive(Debug)]
pub struct PollOutcome {
    pub section: TaskSection,
    /// The section or its tasks are others than those that are shown.
    pub changed: bool,
    /// The tasks to be kept from now on.
    pub replace_cache: Option<Vec<Task>>,
}

/// What a look at the backend changes: the section follows from the state and what was read; tasks
/// that were read while the backend runs replace those that were kept.
pub fn poll_decision(
    status: BackendStatus,
    fetched: Result<Vec<Task>, ()>,
    last_section: TaskSection,
    cache: &[Task],
) -> (r: PollOutcome)
    ensures
        r.section == section_for(status, read_count(fetched)),
        r.section == TaskSection::Degraded ==> r.replace_cache is None && r.changed == (last_section
            != r.section),
        r.section != TaskSection::Degraded ==> r.replace_cache == fetched.ok() && r.changed == (
        last_section != r.section || commands_differ(task_views(cache@), task_views(fetched->Ok_0@))),
{
    match fetched {
        Ok(tasks) if status == BackendStatus::Running => {
            let section = section_of(status, Some(tasks.len()));
            let changed = last_section != section || menu_diff_changed(cache, &tasks);
            PollOutcome { section, changed, replace_cache: Some(tasks) }
        },
        _ => {
            let section = TaskSection::Degraded;
            PollOutcome { section, changed: last_section != section, replace_cache: None }
        },
    }
}

/// Whether the menu is made anew: on request, or where the section or the state has changed.
pub fn poll_needs_rebuild(force_rebuild: bool, changed: bool, status_line_changed: bool) -> (r: bool)
    ensures
        r == (force_rebuild || changed || status_line_changed),
{
    force_rebuild || changed || status_line_changed
}

/// Each status that tasks of the list have is shown as a group: a header, and below it the first
/// tasks of that status in the list, at most three, each with its name and its time. A status that
/// no task has is not shown.
pub proof fn a_group_shows_its_first_tasks(tasks: Seq<TaskView>, status: TaskStatus)
    ensures
        ({
            let rows = section_rows(tasks);
            let group = tasks.filter(|t: TaskView| t.status == status);
            let n: int = if group.len() < 3 {
                group.len() as int
            } else {
                3
            };
            let (id, header) = match status {
                TaskStatus::Running => ("group-running"@, "运行中"@),
                TaskStatus::Queued => ("group-queued"@, "队列中"@),
                TaskStatus::Waiting => ("group-waiting"@, "等待中"@),
            };
            group.len() > 0 ==> exists|h: int|
                {
                    &&& 0 <= h && h + n < rows.len()
                    &&& #[trigger] rows[h] == (TaskMenuItemView::GroupHeader { id, text: header })
                    &&& forall|k: int|
                        0 <= k < n ==> {
                            &&& (#[trigger] rows[h + 1 + k]) is TaskItem
                            &&& rows[h + 1 + k]->TaskItem_text == group[k].name + " — "@ + (
                            match group[k].next_time {
                                Some(time) => time,
                                None => Seq::empty(),
                            })
                        }
                    &&& h + 1 + n == rows.len() || rows[h + 1 + n] is Separator
                }
        }),
{
    let running = group_of(tasks, TaskStatus::Running);
    let queued = group_of(tasks, TaskStatus::Queued);
    let waiting = group_of(tasks, TaskStatus::Waiting);
    group_is_filtered(tasks, TaskStatus::Running);
    group_is_filtered(tasks, TaskStatus::Queued);
    group_is_filtered(tasks, TaskStatus::Waiting);
    let empty = Seq::<TaskMenuItemView>::empty();
    let a = shown_count(running.len());
    let b = shown_count(queued.len());
    let first = with_group(empty, 0, "group-running"@, "运行中"@, running);
    let second = with_group(first, a, "group-queued"@, "队列中"@, queued);
    let rows = section_rows(tasks);
    let n = shown_count(group_of(tasks, status).len()) as int;
    match status {
        TaskStatus::Running => {
            if running.len() > 0 {
                let h = 0int;
                assert(first[h] == rows[h]);
                assert forall|k: int| 0 <= k < n implies (#[trigger] rows[h + 1 + k]) == task_row(
                    running[k],
                    k as nat,
                ) by {
                    assert(first[h + 1 + k] == task_rows(running, 0)[k]);
                    assert(rows[h + 1 + k] == first[h + 1 + k]);
                }
                assert(h + 1 + n == rows.len() || rows[h + 1 + n] is Separator);
            }
        },
        TaskStatus::Queued => {
            if queued.len() > 0 {
                let h: int = if first.len() > 0 {
                    first.len() as int + 1
                } else {
                    0
                };
                assert(second[h] == rows[h]);
                assert forall|k: int| 0 <= k < n implies (#[trigger] rows[h + 1 + k]) == task_row(
                    queued[k],
                    (a + k) as nat,
                ) by {
                    assert(second[h + 1 + k] == task_rows(queued, a)[k]);
                    assert(rows[h + 1 + k] == second[h + 1 + k]);
                }
                assert(h + 1 + n == rows.len() || rows[h + 1 + n] is Separator);
            }
        },
        TaskStatus::Waiting => {
            if waiting.len() > 0 {
                let h: int = if second.len() > 0 {
                    second.len() as int + 1
                } else {
                    0
                };
                assert(rows[h] is GroupHeader);
                assert forall|k: int| 0 <= k < n implies (#[trigger] rows[h + 1 + k]) == task_row(
                    waiting[k],
                    (a + b + k) as nat,
                ) by {
                    assert(rows[h + 1 + k] == task_rows(waiting, a + b)[k]);
                }
            }
        },
    }
}

proof fn group_is_filtered(tasks: Seq<TaskView>, status: TaskStatus)
    ensures
        group_of(tasks, status) == tasks.filter(|t: TaskView| t.status == status),
    decreases tasks.len(),
{
    reveal(Seq::filter);
    if tasks.len() > 0 {
        group_is_filtered(tasks.drop_last(), status);
    }
}

/// The section holds nothing but these groups: so many headers as there are statuses that tasks have,
/// at most three tasks of each, and a separator between any two groups.
pub proof fn a_section_holds_nothing_else(tasks: Seq<TaskView>)
    ensures
        ({
            let count = |status: TaskStatus| tasks.filter(|t: TaskView| t.status == status).len();
            let rows_of = |n: nat|
                if n == 0 {
                    0int
                } else if n < 3 {
                    n as int + 1
                } else {
                    4
                };
            let r = rows_of(count(TaskStatus::Running));
            let q = rows_of(count(TaskStatus::Queued));
            let w = rows_of(count(TaskStatus::Waiting));
            let between: int = if r > 0 && q > 0 && w > 0 {
                2
            } else if (r > 0 && q > 0) || (r > 0 && w > 0) || (q > 0 && w > 0) {
                1
            } else {
                0
            };
            section_rows(tasks).len() == r + q + w + between
        }),
{
    group_is_filtered(tasks, TaskStatus::Running);
    group_is_filtered(tasks, TaskStatus::Queued);
    group_is_filtered(tasks, TaskStatus::Waiting);
}

/// Where the list is in the order of time, no task that is left out of its group is to run before one
/// that is shown.
pub proof fn the_soonest_tasks_are_shown(
    tasks: Seq<TaskView>,
    status: TaskStatus,
    shown: int,
    left_out: int,
)
    requires
        forall|i: int, j: int|
            0 <= i < j < tasks.len() && (#[trigger] tasks[j]).next_time is Some ==> (
            #[trigger] tasks[i]).next_time is Some && text::precedes(
                tasks[i].next_time->0,
                tasks[j].next_time->0,
            ),
        0 <= shown < 3 <= left_out < tasks.filter(|t: TaskView| t.status == status).len(),
    ensures
        ({
            let group = tasks.filter(|t: TaskView| t.status == status);
            group[left_out].next_time is Some ==> group[shown].next_time is Some && text::precedes(
                group[shown].next_time->0,
                group[left_out].next_time->0,
            )
        }),
{
    filtered_stays_in_order(tasks, status, shown, left_out);
}

proof fn filtered_stays_in_order(tasks: Seq<TaskView>, status: TaskStatus, a: int, b: int)
    requires
        forall|i: int, j: int|
            0 <= i < j < tasks.len() && (#[trigger] tasks[j]).next_time is Some ==> (
            #[trigger] tasks[i]).next_time is Some && text::precedes(
                tasks[i].next_time->0,
                tasks[j].next_time->0,
            ),
        0 <= a < b < tasks.filter(|t: TaskView| t.status == status).len(),
    ensures
        ({
            let group = tasks.filter(|t: TaskView| t.status == status);
            group[b].next_time is Some ==> group[a].next_time is Some && text::precedes(
                group[a].next_time->0,
                group[b].next_time->0,
            )
        }),
    decreases tasks.len(),
{
    reveal(Seq::filter);
    let pred = |t: TaskView| t.status == status;
    let front = tasks.drop_last();
    let group = tasks.filter(pred);
    let before = front.filter(pred);
    assert forall|i: int, j: int|
        0 <= i < j < front.len() && (#[trigger] front[j]).next_time is Some implies (
    #[trigger] front[i]).next_time is Some && text::precedes(
        front[i].next_time->0,
        front[j].next_time->0,
    ) by {
        assert(front[i] == tasks[i] && front[j] == tasks[j]);
    }
    if b < before.len() {
        filtered_stays_in_order(front, status, a, b);
    } else {
        assert(group[b] == tasks.last());
        assert(group[a] == before[a]);
        front.lemma_filter_contains_rev(pred, before[a]);
        let k = choose|k: int| 0 <= k < front.len() && front[k] == before[a];
        assert(tasks[k] == group[a]);
        assert(tasks[tasks.len() - 1] == group[b]);
    }
}

/// The section speaks of tasks only where the backend runs and they could be read; it says that there
/// are none exactly if none were read.
pub proof fn what_the_section_says(status: BackendStatus, tasks: Option<nat>)
    ensures
        section_for(status, tasks) == TaskSection::Degraded <==> status != BackendStatus::Running
            || tasks is None,
        section_for(status, tasks) == TaskSection::Empty <==> status == BackendStatus::Running
            && tasks == Some(0nat),
        section_for(status, tasks) == TaskSection::Tasks <==> status == BackendStatus::Running
            && tasks is Some && tasks->0 > 0,
{
}

/// Two lists differ exactly if one of them has a command that the other lacks.
pub proof fn lists_differ_by_a_command(a: Seq<TaskView>, b: Seq<TaskView>)
    ensures
        commands_differ(a, b) <==> {
            ||| exists|i: int|
                0 <= i < a.len() && forall|j: int|
                    0 <= j < b.len() ==> (#[trigger] b[j]).command != (#[trigger] a[i]).command
            ||| exists|i: int|
                0 <= i < b.len() && forall|j: int|
                    0 <= j < a.len() ==> (#[trigger] a[j]).command != (#[trigger] b[i]).command
        },
{
    if !commands_within(a, b) {
        let i = choose|i: int| 0 <= i < a.len() && !lists_command(b, (#[trigger] a[i]).command);
        assert(forall|j: int| 0 <= j < b.len() ==> (#[trigger] b[j]).command != a[i].command);
    }
    if !commands_within(b, a) {
        let i = choose|i: int| 0 <= i < b.len() && !lists_command(a, (#[trigger] b[i]).command);
        assert(forall|j: int| 0 <= j < a.len() ==> (#[trigger] a[j]).command != b[i].command);
    }
}

/// The row on the scheduler names its state behind its name: that a start failed before all else,
/// that the backend starts, that the scheduler runs, that it has ended by itself or with the backend,
/// or that it is stopped.
pub proof fn what_the_status_line_says(
    snapshot: BackendStateSnapshot,
    scheduler_alive: Option<bool>,
    labels: ControlLabelsView,
    state: Seq<char>,
)
    requires
        state == status_line(snapshot, scheduler_alive, labels, true).skip(
            (labels.scheduler + labels.sep).len() as int,
        ),
    ensures
        status_line(snapshot, scheduler_alive, labels, true) == labels.scheduler + labels.sep
            + state,
        snapshot.start_failed ==> state == labels.failed,
        !snapshot.start_failed && snapshot.status == BackendStatus::Initializing ==> state
            == labels.initializing,
        !snapshot.start_failed && snapshot.status == BackendStatus::Stopped ==> state == (
        if snapshot.crashed {
            labels.abnormal
        } else {
            labels.stopped
        }),
        !snapshot.start_failed && snapshot.status == BackendStatus::Running && scheduler_alive
            == Some(true) ==> state == labels.running,
        !snapshot.start_failed && snapshot.status == BackendStatus::Running && scheduler_alive
            == Some(false) ==> state == (if snapshot.scheduler_intent == SchedulerIntent::Nothing {
            labels.abnormal
        } else {
            labels.stopped
        }),
        !snapshot.start_failed && snapshot.status == BackendStatus::Running && scheduler_alive
            is None ==> state == labels.stopped,
{
    let head = labels.scheduler + labels.sep;
    let line = status_line(snapshot, scheduler_alive, labels, true);
    assert(line.skip(head.len() as int) =~= state_text(snapshot, scheduler_alive, labels));
}

/// The start and stop item offers to stop the scheduler exactly while it runs.
pub proof fn what_the_toggle_offers(
    status: BackendStatus,
    scheduler_alive: Option<bool>,
    labels: ControlLabelsView,
)
    requires
        labels.start != labels.stop,
    ensures
        toggle_text(status, scheduler_alive, labels) == labels.stop <==> status
            == BackendStatus::Running && scheduler_alive == Some(true),
        toggle_text(status, scheduler_alive, labels) == labels.start <==> !(status
            == BackendStatus::Running && scheduler_alive == Some(true)),
{
}

/// The rows of the tasks in a section are those of the first tasks that run, the first that are queued
/// and the first that wait, in this order, each with its number in the section.
pub proof fn the_tasks_of_a_section(tasks: Seq<TaskView>)
    ensures
        ({
            let rows = section_rows(tasks).filter(|r: TaskMenuItemView| r is TaskItem);
            let first = |status: TaskStatus|
                {
                    let group = tasks.filter(|t: TaskView| t.status == status);
                    if group.len() < 3 {
                        group
                    } else {
                        group.take(3)
                    }
                };
            let shown = first(TaskStatus::Running) + first(TaskStatus::Queued) + first(
                TaskStatus::Waiting,
            );
            &&& rows.len() == shown.len()
            &&& forall|i: int|
                0 <= i < rows.len() ==> (#[trigger] rows[i]) == (TaskMenuItemView::TaskItem {
                    id: "task-"@ + text::decimal_of(i as nat),
                    text: shown[i].name + " — "@ + (match shown[i].next_time {
                        Some(time) => time,
                        None => Seq::empty(),
                    }),
                })
        }),
{
    let running = group_of(tasks, TaskStatus::Running);
    let queued = group_of(tasks, TaskStatus::Queued);
    let waiting = group_of(tasks, TaskStatus::Waiting);
    group_is_filtered(tasks, TaskStatus::Running);
    group_is_filtered(tasks, TaskStatus::Queued);
    group_is_filtered(tasks, TaskStatus::Waiting);
    let empty = Seq::<TaskMenuItemView>::empty();
    let a = shown_count(running.len());
    let b = shown_count(queued.len());
    let first = with_group(empty, 0, "group-running"@, "运行中"@, running);
    let second = with_group(first, a, "group-queued"@, "队列中"@, queued);
    only_tasks_of_group(empty, 0, "group-running"@, "运行中"@, running);
    only_tasks_of_group(first, a, "group-queued"@, "队列中"@, queued);
    only_tasks_of_group(second, a + b, "group-waiting"@, "等待中"@, waiting);
    only_tasks_are_filtered(section_rows(tasks));
    let rows = only_tasks(section_rows(tasks));
    let x = task_rows(running, 0);
    let y = task_rows(queued, a);
    let z = task_rows(waiting, a + b);
    assert(only_tasks(empty) == empty);
    assert(rows =~= x + y + z);
    assert forall|i: int| 0 <= i < rows.len() implies #[trigger] rows[i] == task_row(
        if i < a {
            running[i]
        } else if i < a + b {
            queued[i - a]
        } else {
            waiting[i - a - b]
        },
        i as nat,
    ) by {
        if i < a {
            assert(rows[i] == x[i]);
        } else if i < a + b {
            assert(rows[i] == y[i - a]);
        } else {
            assert(rows[i] == z[i - a - b]);
        }
    }
}

proof fn only_tasks_are_filtered(rows: Seq<TaskMenuItemView>)
    ensures
        only_tasks(rows) == rows.filter(|r: TaskMenuItemView| r is TaskItem),
    decreases rows.len(),
{
    reveal(Seq::filter);
    if rows.len() > 0 {
        only_tasks_are_filtered(rows.drop_last());
    }
}

/// The texts that the web interface shows too are taken from its translation, each where it is there;
/// all other texts do not depend on it.
pub proof fn a_translation_names_three_texts(language: Seq<char>, i18n: JsonView, gui: JsonView)
    requires
        i18n.member("Gui"@) == Some(gui),
    ensures
        ({
            let texts = control_texts(language, i18n);
            let own = own_control_texts(language);
            let found = |group: Seq<char>, key: Seq<char>|
                gui.member(group) is Some && gui.member(group)->0.member(key) is Some
                    && gui.member(group)->0.member(key)->0 is Str;
            let text_of = |group: Seq<char>, key: Seq<char>|
                gui.member(group)->0.member(key)->0->Str_0;
            &&& texts.scheduler == (if found("Overview"@, "Scheduler"@) {
                text_of("Overview"@, "Scheduler"@)
            } else {
                own.scheduler
            })
            &&& texts.start == (if found("Button"@, "Start"@) {
                text_of("Button"@, "Start"@)
            } else {
                own.start
            })
            &&& texts.stop == (if found("Button"@, "Stop"@) {
                text_of("Button"@, "Stop"@)
            } else {
                own.stop
            })
            &&& texts == (ControlLabelsView {
                scheduler: texts.scheduler,
                start: texts.start,
                stop: texts.stop,
                ..own
            })
        }),
{
}

/// A language that is not known has the texts of simplified Chinese.
pub proof fn an_unknown_language_is_chinese(language: Seq<char>)
    requires
        language != "zh-TW"@ && language != "en-US"@ && language != "ja-JP"@,
    ensures
        own_control_texts(language) == own_control_texts("zh-CN"@),
        shell_menu_texts(language) == shell_menu_texts("zh-CN"@),
{
    reveal_strlit("zh-CN");
    reveal_strlit("zh-TW");
    reveal_strlit("en-US");
    reveal_strlit("ja-JP");
    assert("zh-CN"@[3] != "zh-TW"@[3]);
    assert("zh-CN"@[0] != "en-US"@[0] && "zh-CN"@[0] != "ja-JP"@[0]);
}

/// The text has the two marks that stand for a task and for its next time, in this order, each once.
pub open spec fn names_a_task(t: Seq<char>) -> bool {
    exists|a: Seq<char>, b: Seq<char>, c: Seq<char>|
        {
            &&& t == #[trigger] (a + "{name}"@ + b + "{next_time}"@ + c)
            &&& !a.contains('{') && !b.contains('{') && !c.contains('{')
        }
}

/// In every language the text on a completed task has a mark for the task and one for its next time.
pub proof fn every_language_names_the_task(language: Seq<char>)
    ensures
        names_a_task(shell_menu_texts(language).notify_task_done),
{
    reveal_strlit("{name}");
    reveal_strlit("{next_time}");
    reveal_strlit("{name} 已完成，下次運行 {next_time}");
    reveal_strlit("{name} finished, next run {next_time}");
    reveal_strlit("{name} 完了、次回 {next_time}");
    reveal_strlit("{name} 已完成，下次运行 {next_time}");
    reveal_strlit(" 已完成，下次運行 ");
    reveal_strlit(" finished, next run ");
    reveal_strlit(" 完了、次回 ");
    reveal_strlit(" 已完成，下次运行 ");
    let none = Seq::<char>::empty();
    let b = if language == "zh-TW"@ {
        " 已完成，下次運行 "@
    } else if language == "en-US"@ {
        " finished, next run "@
    } else if language == "ja-JP"@ {
        " 完了、次回 "@
    } else {
        " 已完成，下次运行 "@
    };
    let t = shell_menu_texts(language).notify_task_done;
    assert(t =~= none + "{name}"@ + b + "{next_time}"@ + none);
}

} // verus!
