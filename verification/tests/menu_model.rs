//! What the menu shows.
use alas_launcher::alas_tasks::{Task, TaskStatus};
use alas_launcher::backend::{BackendStateSnapshot, BackendStatus, SchedulerIntent};
use alas_launcher::json::{parse_json, Json};
use alas_launcher::menu_model::{
    control_labels, label_for, menu_diff_changed, poll_decision, poll_needs_rebuild,
    shell_menu_labels, status_line_for, status_text, task_section, task_section_items,
    toggle_enabled, toggle_label, TaskMenuItem, TaskSection, TASK_GROUP_MAX,
};

fn task(name: &str, command: &str, status: TaskStatus, next: &str) -> Task {
    Task {
        name: name.into(),
        command: command.into(),
        enabled: true,
        status,
        next_time: Some(next.into()),
    }
}

fn plain(name: &str, command: &str) -> Task {
    Task { name: name.into(), command: command.into(), ..Default::default() }
}

fn tactical() -> Task {
    task("战术学院", "Tactical", TaskStatus::Running, "2026-08-10 20:14:24")
}

fn guild() -> Task {
    task("大舰队", "Guild", TaskStatus::Queued, "2026-08-10 21:00:00")
}

fn exercise() -> Task {
    task("演习", "Exercise", TaskStatus::Waiting, "2026-08-11 00:00:00")
}

fn snapshot(status: BackendStatus, start_failed: bool) -> BackendStateSnapshot {
    BackendStateSnapshot {
        status,
        start_failed,
        crashed: false,
        scheduler_intent: SchedulerIntent::Nothing,
    }
}

fn task_ids(items: &[TaskMenuItem]) -> Vec<&str> {
    items
        .iter()
        .filter_map(|item| match item {
            TaskMenuItem::TaskItem { id, .. } => Some(id.as_str()),
            TaskMenuItem::GroupHeader { .. } | TaskMenuItem::Separator => None,
        })
        .collect()
}

#[test]
fn label_for_matrix() {
    assert_eq!(label_for(BackendStatus::Initializing), "Backend: initializing…");
    assert_eq!(label_for(BackendStatus::Running), "Backend: running");
    assert_eq!(label_for(BackendStatus::Stopped), "Backend: stopped");
}

#[test]
fn toggle_label_matrix() {
    assert_eq!(toggle_label(BackendStatus::Running), "Stop Backend");
    assert_eq!(toggle_label(BackendStatus::Stopped), "Start Backend");
    assert_eq!(toggle_label(BackendStatus::Initializing), "Start Backend");
}

#[test]
fn toggle_enabled_matrix() {
    assert!(toggle_enabled(BackendStatus::Running));
    assert!(toggle_enabled(BackendStatus::Stopped));
    assert!(!toggle_enabled(BackendStatus::Initializing));
}

#[test]
fn status_text_prefers_start_failed() {
    let stopped_failed = snapshot(BackendStatus::Stopped, true);
    assert_eq!(status_text(&stopped_failed), "Backend: start failed");
    let stopped_clean = snapshot(BackendStatus::Stopped, false);
    assert_eq!(status_text(&stopped_clean), "Backend: stopped");
    let running_clean = snapshot(BackendStatus::Running, false);
    assert_eq!(status_text(&running_clean), "Backend: running");
}

#[test]
fn task_section_items_all_three_groups() {
    let tasks = vec![tactical(), guild(), exercise()];
    let items = task_section_items(&tasks);
    assert_eq!(
        items,
        vec![
            TaskMenuItem::GroupHeader { id: "group-running".into(), text: "运行中" },
            TaskMenuItem::TaskItem {
                id: "task-0".into(),
                text: "战术学院 — 2026-08-10 20:14:24".into(),
            },
            TaskMenuItem::Separator,
            TaskMenuItem::GroupHeader { id: "group-queued".into(), text: "队列中" },
            TaskMenuItem::TaskItem {
                id: "task-1".into(),
                text: "大舰队 — 2026-08-10 21:00:00".into(),
            },
            TaskMenuItem::Separator,
            TaskMenuItem::GroupHeader { id: "group-waiting".into(), text: "等待中" },
            TaskMenuItem::TaskItem {
                id: "task-2".into(),
                text: "演习 — 2026-08-11 00:00:00".into(),
            },
        ]
    );
}

#[test]
fn task_section_items_only_waiting_renders_one_header() {
    let tasks = vec![
        exercise(),
        task("主线图-2", "Main2", TaskStatus::Waiting, "2026-08-11 06:00:00"),
    ];
    let items = task_section_items(&tasks);
    assert_eq!(
        items,
        vec![
            TaskMenuItem::GroupHeader { id: "group-waiting".into(), text: "等待中" },
            TaskMenuItem::TaskItem {
                id: "task-0".into(),
                text: "演习 — 2026-08-11 00:00:00".into(),
            },
            TaskMenuItem::TaskItem {
                id: "task-1".into(),
                text: "主线图-2 — 2026-08-11 06:00:00".into(),
            },
        ]
    );
}

#[test]
fn task_section_items_empty_is_empty_vec() {
    assert_eq!(task_section_items(&[]), vec![]);
}

#[test]
fn task_section_items_ids_sequential_across_groups() {
    let tasks = vec![tactical(), guild(), exercise()];
    let items = task_section_items(&tasks);
    assert_eq!(task_ids(&items), vec!["task-0", "task-1", "task-2"]);
}

#[test]
fn task_section_items_caps_group_at_three() {
    let tasks: Vec<Task> = (0..5)
        .map(|i| {
            task(
                &format!("任务-{i}"),
                &format!("Task{i}"),
                TaskStatus::Waiting,
                &format!("2026-08-11 0{i}:00:00"),
            )
        })
        .collect();
    let items = task_section_items(&tasks);
    assert_eq!(items.len(), 1 + TASK_GROUP_MAX);
    assert_eq!(
        items[0],
        TaskMenuItem::GroupHeader { id: "group-waiting".into(), text: "等待中" }
    );
    assert_eq!(task_ids(&items), vec!["task-0", "task-1", "task-2"]);
}

#[test]
fn task_section_items_separator_only_between_groups() {
    let items = task_section_items(&vec![tactical(), exercise()]);
    assert_eq!(
        items,
        vec![
            TaskMenuItem::GroupHeader { id: "group-running".into(), text: "运行中" },
            TaskMenuItem::TaskItem {
                id: "task-0".into(),
                text: "战术学院 — 2026-08-10 20:14:24".into(),
            },
            TaskMenuItem::Separator,
            TaskMenuItem::GroupHeader { id: "group-waiting".into(), text: "等待中" },
            TaskMenuItem::TaskItem {
                id: "task-1".into(),
                text: "演习 — 2026-08-11 00:00:00".into(),
            },
        ]
    );

    let items = task_section_items(&vec![tactical(), guild(), exercise()]);
    let separator_count = items.iter().filter(|i| **i == TaskMenuItem::Separator).count();
    assert_eq!(separator_count, 2);
    assert_ne!(items.first(), Some(&TaskMenuItem::Separator));
    assert_ne!(items.last(), Some(&TaskMenuItem::Separator));
}

#[test]
fn menu_diff_changed_unchanged_is_false() {
    let old = vec![plain("每日任务", "Daily")];
    let new = vec![task("每日任务", "Daily", TaskStatus::Waiting, "2026-08-11 00:00:00")];
    assert!(!menu_diff_changed(&old, &new));
    assert!(!menu_diff_changed(&[], &[]));
}

#[test]
fn menu_diff_changed_add_scenario() {
    let old: Vec<Task> = vec![];
    let new = vec![plain("每日任务", "Daily"), plain("困难图", "Hard")];
    assert!(menu_diff_changed(&old, &new));
}

#[test]
fn menu_diff_changed_remove_scenario() {
    let old = vec![
        plain("每日任务", "Daily"),
        plain("战术学院", "Tactical"),
        plain("大舰队", "Guild"),
    ];
    let new = vec![plain("战术学院", "Tactical")];
    assert!(menu_diff_changed(&old, &new));
}

#[test]
fn menu_diff_changed_same_commands_different_names_no_change() {
    let old = vec![plain("主线图", "Main")];
    let new = vec![plain("Main", "Main")];
    assert!(!menu_diff_changed(&old, &new));
}

#[test]
fn task_section_matrix() {
    let one = vec![plain("每日任务", "Daily")];
    assert_eq!(task_section(BackendStatus::Running, Ok(one.clone())), TaskSection::Tasks);
    assert_eq!(task_section(BackendStatus::Running, Ok(vec![])), TaskSection::Empty);
    assert_eq!(task_section(BackendStatus::Running, Err(())), TaskSection::Degraded);
    assert_eq!(task_section(BackendStatus::Stopped, Ok(one.clone())), TaskSection::Degraded);
    assert_eq!(task_section(BackendStatus::Initializing, Err(())), TaskSection::Degraded);
}

#[test]
fn a_task_without_a_time_is_shown_by_its_name() {
    let items = task_section_items(&[Task {
        name: "演习".into(),
        command: "Exercise".into(),
        enabled: true,
        status: TaskStatus::Running,
        next_time: None,
    }]);
    match &items[1] {
        TaskMenuItem::TaskItem { id, text } => {
            assert_eq!(id, "task-0");
            assert_eq!(text, "演习 — ");
        }
        other => panic!("expected a task, got {other:?}"),
    }
}

#[test]
fn a_diff_goes_by_the_set_of_commands() {
    let ab = vec![plain("a", "A"), plain("b", "B")];
    let ba = vec![plain("b", "B"), plain("a", "A")];
    assert!(!menu_diff_changed(&ab, &ba));
    assert_eq!(menu_diff_changed(&ab, &[]), menu_diff_changed(&[], &ab));
}

#[test]
fn a_poll_replaces_the_tasks_it_has_read() {
    let tasks = vec![plain("每日任务", "Daily")];
    let first = poll_decision(BackendStatus::Running, Ok(tasks.clone()), TaskSection::Empty, &[]);
    assert_eq!(first.section, TaskSection::Tasks);
    assert!(first.changed);
    assert_eq!(first.replace_cache, Some(tasks.clone()));

    let again =
        poll_decision(BackendStatus::Running, Ok(tasks.clone()), TaskSection::Tasks, &tasks);
    assert!(!again.changed);

    let failed = poll_decision(BackendStatus::Running, Err(()), TaskSection::Tasks, &tasks);
    assert_eq!(failed.section, TaskSection::Degraded);
    assert!(failed.changed);
    assert_eq!(failed.replace_cache, None);
}

#[test]
fn a_menu_is_made_anew_for_any_reason() {
    assert!(!poll_needs_rebuild(false, false, false));
    assert!(poll_needs_rebuild(true, false, false));
    assert!(poll_needs_rebuild(false, true, false));
    assert!(poll_needs_rebuild(false, false, true));
}

#[test]
fn the_status_line_names_the_state_of_the_scheduler() {
    let labels = control_labels("zh-CN", &Json::Null);
    let line = |s: &BackendStateSnapshot, alive| status_line_for(s, alive, &labels, true);
    let running = snapshot(BackendStatus::Running, false);
    assert_eq!(line(&running, Some(true)), "调度器：运行中");
    assert_eq!(line(&running, Some(false)), "调度器：异常停止");
    assert_eq!(line(&running, None), "调度器：已停止");
    for scheduler_intent in [SchedulerIntent::Start, SchedulerIntent::Stop] {
        let asked = BackendStateSnapshot { scheduler_intent, ..running };
        assert_eq!(line(&asked, Some(false)), "调度器：已停止");
        assert_eq!(line(&asked, Some(true)), "调度器：运行中");
    }
    for alive in [None, Some(false), Some(true)] {
        let stopped = snapshot(BackendStatus::Stopped, false);
        assert_eq!(line(&stopped, alive), "调度器：已停止");
        let crashed = BackendStateSnapshot { crashed: true, ..stopped };
        assert_eq!(line(&crashed, alive), "调度器：异常停止");
        assert_eq!(line(&snapshot(BackendStatus::Stopped, true), alive), "调度器：启动失败");
        assert_eq!(line(&snapshot(BackendStatus::Initializing, false), alive), "调度器：启动中…");
    }
}

#[test]
fn a_password_or_ssl_adds_a_hint_to_the_status_line() {
    let stopped = snapshot(BackendStatus::Stopped, false);
    assert_eq!(
        status_line_for(&stopped, None, &control_labels("zh-CN", &Json::Null), false),
        "调度器：已停止 — 密码/SSL 已配置，仅进程级控制"
    );
    assert_eq!(
        status_line_for(&stopped, None, &control_labels("en-US", &Json::Null), false),
        "Scheduler: stopped — password/SSL configured, process-level control only"
    );
}

#[test]
fn every_language_has_its_texts() {
    let settings: Vec<String> =
        ["zh-CN", "zh-TW", "en-US", "ja-JP"].map(|l| shell_menu_labels(l).settings).to_vec();
    assert_eq!(settings, ["外壳设置", "外殼設定", "Launcher Settings", "シェル設定"]);
    let starts: Vec<String> =
        ["zh-CN", "zh-TW", "en-US", "ja-JP"].map(|l| control_labels(l, &Json::Null).start).to_vec();
    assert_eq!(starts, ["启动", "啟動", "Start", "実行"]);
    assert_eq!(shell_menu_labels("en-US").lang_names, ["简体中文", "繁體中文", "English", "日本語"]);
    assert_eq!(shell_menu_labels("fr-FR"), shell_menu_labels("zh-CN"));
}

#[test]
fn the_translation_of_the_web_interface_comes_first() {
    let i18n = parse_json(
        r#"{"Gui": {"Overview": {"Scheduler": "排程"}, "Button": {"Start": "开", "Stop": 7}}}"#,
    )
    .unwrap();
    let labels = control_labels("zh-CN", &i18n);
    assert_eq!((labels.scheduler.as_str(), labels.start.as_str()), ("排程", "开"));
    let own = control_labels("zh-CN", &parse_json("{}").unwrap());
    assert_eq!(labels.stop, own.stop);
    assert_eq!(labels.stopped, own.stopped);
    assert_eq!(own, control_labels("zh-CN", &Json::Null));
    assert_eq!(own.scheduler, "调度器");
}
