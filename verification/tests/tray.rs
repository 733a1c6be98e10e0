//! The tray: its menu, its clicks, and the looks it takes at the backend.
use alas_launcher::alas_tasks::{load_i18n, Task, TaskStatus};
use alas_launcher::backend::{
    scheduler_alive, BackendStateSnapshot, BackendStatus, SchedulerIntent, ToggleAction,
};
use alas_launcher::control_api::SchedulerAction;
use alas_launcher::json::Json;
use alas_launcher::menu_model::{
    control_labels, status_line_for, ControlLabels, ShellMenuLabels, TaskSection,
};
use alas_launcher::notify::NotifyEvent;
use alas_launcher::page::{main_page_url, stopped_page_url};
use alas_launcher::shell_settings::ShellSettings;
use alas_launcher::tray::{
    build_menu, handle_toggle, is_resource_tracker, next_poll, notification_body,
    refresh_stopped_page, release_in_flight, should_mark_crashed, start_retry, tray_click,
    try_acquire_in_flight, uvicorn_alive_child_count, MenuRow, PollInput, PollState, ProcessRow,
    RetryStep, TrayClick, Wake,
};
use base64::prelude::BASE64_STANDARD;
use base64::Engine;

fn zh_labels() -> ControlLabels {
    control_labels("zh-CN", &Json::Null)
}

fn shell_labels() -> ShellMenuLabels {
    ShellMenuLabels {
        settings: String::new(),
        language: String::new(),
        follow_alas: String::new(),
        lang_names: [String::new(), String::new(), String::new(), String::new()],
        auto_start: String::new(),
        check_update: String::new(),
        notify_master: String::new(),
        notify_death: String::new(),
        notify_task: String::new(),
        check_failed: String::new(),
        update_available: String::new(),
        up_to_date: String::new(),
        notify_task_done: "{name} done, next {next_time}".to_string(),
        notify_death_body: "{name} died".to_string(),
    }
}

fn snapshot(status: BackendStatus) -> BackendStateSnapshot {
    BackendStateSnapshot {
        status,
        start_failed: false,
        crashed: false,
        scheduler_intent: SchedulerIntent::Nothing,
    }
}

#[test]
fn main_page_url_running_is_webui() {
    let labels = zh_labels();
    assert_eq!(
        main_page_url(BackendStatus::Running, 22267, &labels),
        "http://127.0.0.1:22267/"
    );
}

#[test]
fn main_page_url_stopped_and_initializing_are_data_pages() {
    let labels = zh_labels();
    let stopped = main_page_url(BackendStatus::Stopped, 22267, &labels);
    assert!(stopped.starts_with("data:text/html"));
    let initializing = main_page_url(BackendStatus::Initializing, 22267, &labels);
    assert!(initializing.starts_with("data:text/html"));
}

#[test]
fn stopped_page_url_localizes_template_by_sep() {
    let decode = |url: &str| {
        let b64 = url.split(',').nth(1).unwrap();
        String::from_utf8(BASE64_STANDARD.decode(b64).unwrap()).unwrap()
    };
    let zh = decode(&stopped_page_url(&zh_labels()));
    assert!(zh.contains("调度器：已停止。点击菜单栏「启动」。"));
    let en = decode(&stopped_page_url(&control_labels("en-US", &Json::Null)));
    assert!(en.contains("Scheduler: stopped. Click \"Start\" in the menu bar."));
    let ja = decode(&stopped_page_url(&control_labels("ja-JP", &Json::Null)));
    assert!(ja.contains("スケジューラー: 停止済み. Click \"実行\" in the menu bar."));
}

#[test]
fn in_flight_acquire_rejects_second_toggle_until_released() {
    let mut flag = false;
    assert!(try_acquire_in_flight(&mut flag), "first toggle acquires");
    assert!(!try_acquire_in_flight(&mut flag), "second toggle ignored");
    assert!(flag, "flag set while held");
    release_in_flight(&mut flag);
    assert!(!flag, "drop clears the flag");
    assert!(try_acquire_in_flight(&mut flag), "re-acquire after release");
    release_in_flight(&mut flag);
}

#[test]
fn should_mark_crashed_requires_two_consecutive_failures() {
    assert!(!should_mark_crashed(0), "no failures -> healthy");
    assert!(!should_mark_crashed(1), "one failure -> keep Running");
    assert!(should_mark_crashed(2), "two failures -> crashed");
    assert!(should_mark_crashed(3), "more failures stay crashed");
}

#[test]
fn port_fail_counter_state_machine() {
    let mut poll = PollState::default();
    assert!(!poll.probe(BackendStatus::Running, false));
    assert!(!poll.probe(BackendStatus::Running, true));
    assert_eq!(poll.port_fails, 0, "success resets the streak");
    assert!(!poll.probe(BackendStatus::Running, false));
    assert!(poll.probe(BackendStatus::Running, false));
    assert!(!poll.probe(BackendStatus::Stopped, false));
    assert_eq!(poll.port_fails, 0);
}

fn process(pid: u32, parent: Option<u32>, cmd: &[&str]) -> ProcessRow {
    ProcessRow {
        pid,
        parent,
        zombie: false,
        cmd: cmd.iter().map(|c| c.to_string()).collect(),
    }
}

fn tracker(pid: u32, parent: u32) -> ProcessRow {
    process(
        pid,
        Some(parent),
        &["python3", "-c", "from multiprocessing.resource_tracker import main"],
    )
}

#[test]
fn uvicorn_count_reload_off_baseline_and_scheduler() {
    let empty = vec![process(1, None, &["sleep"])];
    assert_eq!(uvicorn_alive_child_count(&empty, 1, false), 0);
    let baseline = vec![process(1, None, &["sh"]), process(2, Some(1), &["sleep"])];
    assert_eq!(uvicorn_alive_child_count(&baseline, 1, false), 1);
    let running = vec![
        process(1, None, &["sh"]),
        process(2, Some(1), &["sleep"]),
        process(3, Some(1), &["sleep"]),
    ];
    assert_eq!(uvicorn_alive_child_count(&running, 1, false), 2);
    assert!(scheduler_alive(2));
}

#[test]
fn uvicorn_count_reload_off_excludes_tracker_and_unreaped_children() {
    let watched =
        vec![process(1, None, &["sh"]), tracker(2, 1), process(3, Some(1), &["sleep"])];
    assert_eq!(uvicorn_alive_child_count(&watched, 1, false), 1);
    let mut with_dead = vec![
        process(1, None, &["sh"]),
        process(2, Some(1), &["sleep"]),
        process(3, Some(1), &["sleep"]),
        process(4, Some(1), &["sleep"]),
    ];
    assert_eq!(uvicorn_alive_child_count(&with_dead, 1, false), 3);
    with_dead[1].zombie = true;
    assert_eq!(uvicorn_alive_child_count(&with_dead, 1, false), 2);
}

#[test]
fn uvicorn_count_reload_on_uses_wrapper_child() {
    let empty = vec![process(1, None, &["sleep"])];
    assert_eq!(uvicorn_alive_child_count(&empty, 1, true), 0);
    let baseline = vec![
        process(1, None, &["sh"]),
        process(2, Some(1), &["sh"]),
        process(3, Some(2), &["sleep"]),
    ];
    assert_eq!(uvicorn_alive_child_count(&baseline, 1, true), 1);
    let running = vec![
        process(1, None, &["sh"]),
        process(2, Some(1), &["sh"]),
        process(3, Some(2), &["sleep"]),
        process(4, Some(2), &["sleep"]),
    ];
    assert_eq!(uvicorn_alive_child_count(&running, 1, true), 2);
}

#[test]
fn uvicorn_count_reload_on_ignores_tracker_sibling_of_wrapper() {
    let root = vec![
        process(1, None, &["sh"]),
        tracker(2, 1),
        process(3, Some(1), &["sh"]),
        process(4, Some(3), &["sleep"]),
    ];
    assert_eq!(uvicorn_alive_child_count(&root, 1, true), 1);
    assert!(is_resource_tracker(&root[1]));
    assert!(!is_resource_tracker(&root[2]));
}

fn item(id: &str, text: &str, enabled: bool) -> MenuRow {
    MenuRow::Item { id: id.to_string(), text: text.to_string(), enabled }
}

fn daily() -> Task {
    Task {
        name: "日常".to_string(),
        command: "Daily".to_string(),
        enabled: true,
        status: TaskStatus::Waiting,
        next_time: Some("2026-08-13 05:00:00".to_string()),
    }
}

#[test]
fn a_menu_has_all_its_rows() {
    let menu = build_menu(
        &snapshot(BackendStatus::Running),
        &[daily()],
        TaskSection::Tasks,
        &zh_labels(),
        Some(true),
        &status_line_for(
            &snapshot(BackendStatus::Running),
            Some(true),
            &zh_labels(),
            true,
        ),
        false,
    );
    assert_eq!(
        menu,
        vec![
            item("tray-status", "调度器：运行中", false),
            item("tray-toggle", "停止", true),
            MenuRow::Separator,
            item("group-waiting", "等待中", false),
            item("task-0", "日常 — 2026-08-13 05:00:00", false),
            item("tray-refresh", "Refresh", true),
            MenuRow::Separator,
            item("tray-show", "Show Window", true),
            item("tray-quit", "Quit", true),
        ]
    );
}

#[test]
fn the_start_and_stop_item_follows_the_scheduler() {
    for (status, alive, text) in [
        (BackendStatus::Running, Some(true), "Stop"),
        (BackendStatus::Running, Some(false), "Start"),
        (BackendStatus::Running, None, "Start"),
        (BackendStatus::Stopped, Some(true), "Start"),
    ] {
        let menu = build_menu(
            &snapshot(status),
            &[],
            TaskSection::Empty,
            &control_labels("en-US", &Json::Null),
            alive,
            "s",
            false,
        );
        assert_eq!(menu[1], item("tray-toggle", text, true));
    }
}

#[test]
fn load_control_labels_missing_payload_falls_back_to_zh_cn() {
    assert!(matches!(load_i18n(None), Json::Object(members) if members.is_empty()));
    let labels = control_labels("zh-CN", &load_i18n(None));
    assert_eq!(labels.scheduler, "调度器");
    assert_eq!(labels.failed, "启动失败");
    assert_eq!(labels.sep, "：");
    let live = control_labels(&ShellSettings::default().resolved_language(None), &Json::Null);
    assert!(!live.scheduler.is_empty());
    assert_eq!(live, labels);
    assert_eq!(control_labels("fr-FR", &Json::Null), labels);
}

#[test]
fn a_menu_without_tasks_says_so() {
    let menu = |section, status, processing| {
        build_menu(&snapshot(status), &[], section, &zh_labels(), Some(true), "s", processing)
    };
    let degraded = menu(TaskSection::Degraded, BackendStatus::Stopped, false);
    assert_eq!(degraded[3], item("tasks-degraded", "Tasks: unavailable", false));
    let empty = menu(TaskSection::Empty, BackendStatus::Running, true);
    assert_eq!(empty[3], item("tasks-empty", "No tasks", false));
    assert_eq!(empty[1], item("tray-toggle", "处理中…", false));
    let starting = menu(TaskSection::Degraded, BackendStatus::Initializing, false);
    assert_eq!(starting[1], item("tray-toggle", "启动", false));
}

#[test]
fn clicks_and_wakes_are_told_apart() {
    assert_eq!(tray_click("tray-toggle"), TrayClick::Toggle);
    assert_eq!(tray_click("tray-refresh"), TrayClick::Refresh);
    assert_eq!(tray_click("tray-show"), TrayClick::Show);
    assert_eq!(tray_click("tray-quit"), TrayClick::Quit);
    assert_eq!(tray_click("task-0"), TrayClick::Other);
    assert_eq!(next_poll(Wake::Requested), Some(true));
    assert_eq!(next_poll(Wake::Timeout), Some(false));
    assert_eq!(next_poll(Wake::Disconnected), None);
}

#[test]
fn a_click_on_a_running_backend_goes_to_the_scheduler() {
    let running = snapshot(BackendStatus::Running);
    let plan = handle_toggle(&running, true, Some(2), true, false);
    assert_eq!(plan.action, ToggleAction::StopScheduler);
    assert_eq!(plan.intent, Some(SchedulerIntent::Stop));
    assert_eq!(plan.call, Some(SchedulerAction::Stop));
    let plan = handle_toggle(&running, true, Some(1), true, false);
    assert_eq!(plan.action, ToggleAction::StartScheduler);
    assert_eq!(plan.call, Some(SchedulerAction::Start));
    let plan = handle_toggle(&running, true, None, true, false);
    assert_eq!(plan.action, ToggleAction::StartScheduler);
}

#[test]
fn a_click_on_a_backend_that_cannot_be_controlled_stops_it() {
    let running = snapshot(BackendStatus::Running);
    for (ws, failed) in [(false, false), (true, true), (false, true)] {
        let plan = handle_toggle(&running, true, Some(2), ws, failed);
        assert_eq!(plan.action, ToggleAction::StopBackend);
        assert_eq!(plan.call, None);
        assert_eq!(plan.intent, None);
    }
}

#[test]
fn a_click_on_a_backend_that_is_gone_starts_it() {
    let plan = handle_toggle(&snapshot(BackendStatus::Running), false, Some(2), true, false);
    assert!(plan.crashed);
    assert!(!plan.scheduler_alive);
    assert_eq!(plan.action, ToggleAction::StartBackend);
    assert!(plan.then_start);
    let plan = handle_toggle(&snapshot(BackendStatus::Stopped), false, None, true, true);
    assert_eq!(plan.action, ToggleAction::StartBackend);
    assert!(!plan.then_start);
    let plan = handle_toggle(&snapshot(BackendStatus::Initializing), false, None, true, false);
    assert!(!plan.crashed);
    assert_eq!(plan.action, ToggleAction::NoOp);
}

#[test]
fn the_start_of_the_scheduler_is_tried_for_a_while() {
    assert_eq!(start_retry(true, 100, 50), RetryStep::Done);
    assert_eq!(start_retry(false, 49, 50), RetryStep::Pause);
    assert_eq!(start_retry(false, 50, 50), RetryStep::GiveUp);
    assert!(refresh_stopped_page(BackendStatus::Stopped));
    assert!(refresh_stopped_page(BackendStatus::Initializing));
    assert!(!refresh_stopped_page(BackendStatus::Running));
}

#[test]
fn a_notification_names_what_it_is_about() {
    let labels = shell_labels();
    let done = NotifyEvent::TaskComplete {
        name: "日常".to_string(),
        command: "Daily".to_string(),
        next_time: "05:00".to_string(),
    };
    assert_eq!(notification_body(&done, &labels), "日常 done, next 05:00");
    let death = NotifyEvent::SchedulerDeath { name: "alas".to_string() };
    assert_eq!(notification_body(&death, &labels), "alas died");
}

fn seen(fetched: Result<Vec<Task>, ()>, children: usize, instance: Option<u8>) -> PollInput {
    PollInput {
        status: BackendStatus::Running,
        fetched,
        children: Some(children),
        snapshot: snapshot(BackendStatus::Running),
        instance: Some(instance),
        force_rebuild: false,
    }
}

#[test]
fn a_look_remembers_what_it_has_seen() {
    let (settings, labels) = (ShellSettings::default(), shell_labels());
    let mut poll = PollState::default();
    let first = poll.poll_once(seen(Ok(vec![daily()]), 2, Some(1)), &[], &settings, &labels);
    assert!(first.rebuild);
    assert_eq!(first.section, TaskSection::Tasks);
    assert_eq!(first.scheduler, Some(true));
    assert_eq!(first.replace_cache, Some(vec![daily()]));
    assert!(first.notifications.is_empty());
    let cache = vec![daily()];
    let again = poll.poll_once(seen(Ok(vec![daily()]), 2, Some(1)), &cache, &settings, &labels);
    assert!(!again.rebuild);
    let mut asked = seen(Ok(vec![daily()]), 2, Some(1));
    asked.force_rebuild = true;
    assert!(poll.poll_once(asked, &cache, &settings, &labels).rebuild);
}

#[test]
fn the_death_of_the_scheduler_is_notified_once() {
    let (settings, labels) = (ShellSettings::default(), shell_labels());
    let mut poll = PollState::default();
    let mut look = |children: usize, instance: Option<u8>| {
        poll.poll_once(seen(Ok(vec![]), children, instance), &[], &settings, &labels).notifications
    };
    assert!(look(2, Some(1)).is_empty());
    assert!(look(1, Some(1)).is_empty());
    assert_eq!(look(1, Some(1)), vec!["alas died"]);
    assert!(look(1, Some(3)).is_empty());
    assert!(look(2, Some(1)).is_empty());
    assert_eq!(look(1, Some(3)), vec!["alas died"]);
}

#[test]
fn a_completed_task_is_notified_where_that_is_wanted() {
    let labels = shell_labels();
    let settings = ShellSettings { notify_task_complete: true, ..Default::default() };
    let mut later = daily();
    later.next_time = Some("2026-08-14 05:00:00".to_string());
    for (wanted, expected) in [(true, 1), (false, 0)] {
        let settings = ShellSettings { notify_task_complete: wanted, ..settings.clone() };
        let mut poll = PollState::default();
        poll.poll_once(seen(Ok(vec![daily()]), 2, None), &[daily()], &settings, &labels);
        let out =
            poll.poll_once(seen(Ok(vec![daily()]), 2, None), &[later.clone()], &settings, &labels);
        assert_eq!(out.notifications.len(), expected);
    }
}

#[test]
fn a_look_at_a_stopped_backend_degrades() {
    let mut poll = PollState::default();
    let out = poll.poll_once(
        PollInput {
            status: BackendStatus::Stopped,
            fetched: Err(()),
            children: None,
            snapshot: snapshot(BackendStatus::Stopped),
            instance: None,
            force_rebuild: false,
        },
        &[daily()],
        &ShellSettings::default(),
        &shell_labels(),
    );
    assert_eq!(out.section, TaskSection::Degraded);
    assert_eq!(out.scheduler, None);
    assert_eq!(out.replace_cache, None);
    assert!(out.rebuild);
}
