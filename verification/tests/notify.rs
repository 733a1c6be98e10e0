//! When the user is notified.
use alas_launcher::alas_tasks::{Task, TaskStatus};
use alas_launcher::notify::{
    death_by_state, death_notify_decision, diff_tasks, liveness_death, should_notify, NotifyEvent,
    PERSIST_SCANS,
};
use alas_launcher::shell_settings::ShellSettings;

fn task(name: &str, next: Option<&str>) -> Task {
    Task {
        name: name.into(),
        command: name.into(),
        enabled: true,
        status: TaskStatus::Waiting,
        next_time: next.map(String::from),
    }
}

#[test]
fn next_run_forward_detects_task_complete() {
    let prev = vec![task("Daily", Some("2026-08-13 05:00:00"))];
    let now = vec![task("Daily", Some("2026-08-13 05:05:00"))];
    let events = diff_tasks(&prev, &now);
    assert_eq!(events.len(), 1);
    match &events[0] {
        NotifyEvent::TaskComplete { command, next_time, .. } => {
            assert_eq!(command, "Daily");
            assert_eq!(next_time, "2026-08-13 05:05:00");
        }
        other => panic!("expected TaskComplete, got {other:?}"),
    }
}

#[test]
fn unchanged_or_backwards_next_run_is_not_complete() {
    let prev = vec![task("Daily", Some("2026-08-13 05:00:00"))];
    assert!(diff_tasks(&prev, &prev).is_empty());
    let backwards = vec![task("Daily", Some("2026-08-13 04:00:00"))];
    assert!(diff_tasks(&prev, &backwards).is_empty());
}

#[test]
fn state_3_is_death_state_1_2_4_are_not() {
    assert!(death_by_state(Some(1), Some(3)));
    assert!(!death_by_state(Some(1), Some(1)));
    assert!(!death_by_state(Some(1), Some(2)));
    assert!(!death_by_state(Some(1), Some(4)));
    assert!(!death_by_state(Some(3), Some(3)));
}

#[test]
fn liveness_death_fires_once_on_persisted_flip() {
    let mut streak = 0u8;
    assert!(!liveness_death(Some(true), Some(false), &mut streak));
    assert_eq!(streak, 1);
    assert!(liveness_death(Some(false), Some(false), &mut streak));
    assert!(!liveness_death(Some(false), Some(false), &mut streak));
    assert!(!liveness_death(Some(false), Some(false), &mut streak));
    assert!(!liveness_death(Some(false), Some(true), &mut streak));
    assert_eq!(streak, 0);
    assert!(!liveness_death(Some(true), Some(false), &mut streak));
    assert!(liveness_death(Some(false), Some(false), &mut streak));
}

#[test]
fn liveness_death_never_fires_without_alive_baseline() {
    let mut streak = 0u8;
    assert!(!liveness_death(None, Some(false), &mut streak));
    assert!(!liveness_death(Some(false), Some(false), &mut streak));
    assert!(!liveness_death(Some(false), Some(false), &mut streak));
    assert_eq!(streak, 0);
    let mut s2 = 0u8;
    assert!(!liveness_death(Some(false), None, &mut s2));
    assert!(!liveness_death(None, None, &mut s2));
}

#[test]
fn notification_default_matrix() {
    let s = ShellSettings::default();
    assert!(should_notify(&NotifyEvent::SchedulerDeath { name: "alas".into() }, &s));
    assert!(!should_notify(
        &NotifyEvent::TaskComplete {
            name: "日常".into(),
            command: "Daily".into(),
            next_time: "x".into(),
        },
        &s
    ));
    let off = ShellSettings { notify_enabled: false, ..Default::default() };
    assert!(!should_notify(&NotifyEvent::SchedulerDeath { name: "alas".into() }, &off));
}

#[test]
fn death_notify_decision_scheduler_child_death_fires_via_liveness() {
    let mut streak = 0u8;
    let mut fired = false;
    assert!(!death_notify_decision(
        Some(true), Some(false), true, true, false, &mut streak, &mut fired
    ));
    assert_eq!(streak, 1);
    assert!(!fired);
    assert!(death_notify_decision(
        Some(false), Some(false), true, true, false, &mut streak, &mut fired
    ));
    assert!(fired);
    assert!(!death_notify_decision(
        Some(false), Some(false), true, true, false, &mut streak, &mut fired
    ));
    assert!(fired, "latch stays set while the episode continues");
}

#[test]
fn death_notify_decision_state_channel_fire_suppresses_liveness_duplicate() {
    let mut streak = 0u8;
    let mut fired = false;
    assert!(death_notify_decision(
        Some(true), Some(false), true, true, true, &mut streak, &mut fired
    ));
    assert!(fired);
    assert!(!death_notify_decision(
        Some(false), Some(false), true, true, false, &mut streak, &mut fired
    ));
    assert!(fired);
}

#[test]
fn death_notify_decision_whole_backend_death_never_fires() {
    let mut streak = 0u8;
    let mut fired = false;
    assert!(!death_notify_decision(
        Some(true), Some(false), true, true, false, &mut streak, &mut fired
    ));
    assert!(!death_notify_decision(
        Some(false), None, false, false, false, &mut streak, &mut fired
    ));
    assert!(!fired);
}

#[test]
fn death_notify_decision_revival_resets_latch_and_reenables() {
    let mut streak = 0u8;
    let mut fired = false;
    assert!(death_notify_decision(
        Some(true), Some(false), true, true, true, &mut streak, &mut fired
    ));
    assert!(!death_notify_decision(
        Some(false), Some(true), true, true, false, &mut streak, &mut fired
    ));
    assert_eq!(streak, 1, "streak reset deferred while the latch suppresses");
    assert!(!death_notify_decision(
        Some(true), Some(true), true, true, false, &mut streak, &mut fired
    ));
    assert_eq!(streak, 0, "alive scan resets the streak");
    assert!(!death_notify_decision(
        Some(true), Some(false), true, true, false, &mut streak, &mut fired
    ));
    assert!(death_notify_decision(
        Some(false), Some(false), true, true, false, &mut streak, &mut fired
    ));
}

#[test]
fn death_notify_decision_backend_restart_resets_latch() {
    let mut streak = 0u8;
    let mut fired = false;
    assert!(death_notify_decision(
        Some(true), Some(false), true, true, true, &mut streak, &mut fired
    ));
    assert!(!death_notify_decision(
        Some(false), None, false, false, false, &mut streak, &mut fired
    ));
    assert!(!death_notify_decision(
        None, Some(false), true, true, false, &mut streak, &mut fired
    ));
    assert!(!fired);
}

#[test]
fn death_notify_decision_intent_change_does_not_reatm_latched_episode() {
    let mut streak = 0u8;
    let mut fired = false;
    assert!(death_notify_decision(
        Some(true), Some(false), true, true, true, &mut streak, &mut fired
    ));
    assert!(!death_notify_decision(
        Some(false), Some(false), false, true, false, &mut streak, &mut fired
    ));
    assert!(fired, "latch survives the intent change");
    assert!(!death_notify_decision(
        Some(false), Some(false), true, true, false, &mut streak, &mut fired
    ));
    assert!(fired);
}

#[test]
fn completions_need_a_time_before_and_after() {
    let known = vec![task("Daily", Some("2026-08-13 05:00:00"))];
    let unknown = vec![task("Daily", None)];
    assert!(diff_tasks(&unknown, &known).is_empty());
    assert!(diff_tasks(&known, &unknown).is_empty());
    assert!(diff_tasks(&[], &known).is_empty());
    assert!(diff_tasks(&known, &[]).is_empty());
}

#[test]
fn completions_come_in_the_order_of_the_old_list() {
    let prev = vec![task("A", Some("1")), task("B", Some("1")), task("C", Some("1"))];
    let now = vec![task("C", Some("2")), task("B", Some("1")), task("A", Some("2"))];
    let commands: Vec<String> = diff_tasks(&prev, &now)
        .into_iter()
        .map(|e| match e {
            NotifyEvent::TaskComplete { command, .. } => command,
            NotifyEvent::SchedulerDeath { name } => panic!("unexpected death of {name}"),
        })
        .collect();
    assert_eq!(commands, vec!["A", "C"]);
}

#[test]
fn a_long_death_never_overflows_the_streak() {
    let mut streak = 0u8;
    let mut prev = Some(true);
    let mut fired = 0;
    for _ in 0..600 {
        if liveness_death(prev, Some(false), &mut streak) {
            fired += 1;
        }
        prev = Some(false);
    }
    assert_eq!(fired, 1);
    assert!(streak >= PERSIST_SCANS);
}

#[test]
fn every_switch_is_respected() {
    let death = NotifyEvent::SchedulerDeath { name: "alas".into() };
    let done = NotifyEvent::TaskComplete {
        name: "n".into(),
        command: "c".into(),
        next_time: "t".into(),
    };
    let quiet = ShellSettings { notify_scheduler_death: false, ..Default::default() };
    assert!(!should_notify(&death, &quiet));
    let tasks = ShellSettings { notify_task_complete: true, ..Default::default() };
    assert!(should_notify(&done, &tasks));
    let off = ShellSettings {
        notify_enabled: false,
        notify_task_complete: true,
        ..Default::default()
    };
    assert!(!should_notify(&done, &off));
}
