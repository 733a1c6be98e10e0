//! Tasks of the scheduler: reading, classifying and ordering them.
use alas_launcher::alas_tasks::{
    arrange, classify, copy_tasks, fetch_tasks, load_i18n, now_str, parse_i18n,
    parse_tasks_alas_json, queue_up, sort_tasks, tasks_in, Task, TaskStatus, TasksError,
};
use alas_launcher::json::Json;

const I18N_FIXTURE: &str = r#"{
    "Task": {
        "Main":     { "name": "主线图" },
        "Exercise": { "name": "演习" },
        "Tactical": { "name": "战术学院" },
        "Guild":    { "name": "大舰队" }
    }
}"#;

/// Main and GemsFarming are disabled, General has no scheduler, Exercise lies ahead, and Tactical
/// and Guild are due.
const ALAS_JSON_FIXTURE: &str = r#"{
    "General":    { "Retirement": {}, "Storage": {} },
    "Main":       { "Scheduler": { "Enable": false, "NextRun": "2026-06-01 23:18:00", "Command": "Main", "SuccessInterval": 0, "FailureInterval": 120 }, "Campaign": {} },
    "Exercise":   { "Scheduler": { "Enable": true, "NextRun": "2026-08-11 00:00:00", "Command": "Exercise", "SuccessInterval": 30, "FailureInterval": 30 } },
    "Tactical":   { "Scheduler": { "Enable": true, "NextRun": "2026-08-10 20:14:24", "Command": "Tactical", "SuccessInterval": "30-60", "FailureInterval": "120-240" } },
    "Guild":      { "Scheduler": { "Enable": true, "NextRun": "2026-08-10 21:00:00", "Command": "Guild", "SuccessInterval": 30, "FailureInterval": 30 } },
    "GemsFarming": { "Scheduler": { "Enable": false, "NextRun": "2026-08-09 08:33:32", "Command": "GemsFarming", "SuccessInterval": 0, "FailureInterval": 120 } }
}"#;

const NOW_FIXTURE: &str = "2026-08-10 22:00:00";

fn empty_object() -> Json {
    Json::Object(vec![])
}

fn is_empty_object(v: &Json) -> bool {
    match v {
        Json::Object(members) => members.is_empty(),
        _ => false,
    }
}

fn named<'a>(tasks: &'a [Task], command: &str) -> &'a Task {
    tasks.iter().find(|t| t.command == command).unwrap()
}

fn due(command: &str, next: Option<&str>) -> Task {
    Task {
        name: command.into(),
        command: command.into(),
        enabled: true,
        status: TaskStatus::Running,
        next_time: next.map(String::from),
    }
}

#[test]
fn parse_i18n_valid_object() {
    let v = parse_i18n(I18N_FIXTURE).unwrap();
    let name = v.get("Task").unwrap().get("Main").unwrap().get("name").unwrap();
    assert_eq!(name.as_str(), Some("主线图"));
}

#[test]
fn parse_i18n_empty_is_empty_object() {
    assert!(is_empty_object(&parse_i18n("").unwrap()));
    assert!(is_empty_object(&parse_i18n("  \n ").unwrap()));
}

#[test]
fn parse_i18n_garbage_is_err() {
    assert!(parse_i18n("{not json").is_err());
}

#[test]
fn parse_tasks_alas_json_happy_path() {
    let i18n = parse_i18n(I18N_FIXTURE).unwrap();
    let tasks = parse_tasks_alas_json(ALAS_JSON_FIXTURE, &i18n, NOW_FIXTURE).unwrap();
    assert_eq!(tasks.len(), 3);

    let exercise = named(&tasks, "Exercise");
    assert_eq!(
        exercise,
        &Task {
            name: "演习".into(),
            command: "Exercise".into(),
            enabled: true,
            status: TaskStatus::Waiting,
            next_time: Some("2026-08-11 00:00:00".into()),
        }
    );

    let tactical = named(&tasks, "Tactical");
    assert_eq!(tactical.name, "战术学院");
    assert_eq!(tactical.next_time.as_deref(), Some("2026-08-10 20:14:24"));
    assert_eq!(tactical.status, TaskStatus::Running);

    let guild = named(&tasks, "Guild");
    assert_eq!(guild.name, "大舰队");
    assert_eq!(guild.next_time.as_deref(), Some("2026-08-10 21:00:00"));
    assert_eq!(guild.status, TaskStatus::Running);

    assert!(tasks.iter().all(|t| t.enabled));
    assert!(!tasks.iter().any(|t| t.command == "Main" || t.command == "GemsFarming"));
}

#[test]
fn parse_tasks_alas_json_fallback_name_without_i18n() {
    let tasks = parse_tasks_alas_json(ALAS_JSON_FIXTURE, &empty_object(), NOW_FIXTURE).unwrap();
    assert_eq!(tasks.len(), 3);
    assert!(tasks.iter().all(|t| t.name == t.command));
    let partial = parse_i18n(r#"{ "Task": { "Exercise": { "name": "演习" } } }"#).unwrap();
    let tasks = parse_tasks_alas_json(ALAS_JSON_FIXTURE, &partial, NOW_FIXTURE).unwrap();
    assert_eq!(named(&tasks, "Exercise").name, "演习");
    assert_eq!(named(&tasks, "Tactical").name, "Tactical");
}

#[test]
fn parse_tasks_alas_json_malformed_is_err() {
    let i18n = parse_i18n(I18N_FIXTURE).unwrap();
    assert!(parse_tasks_alas_json("{not json", &i18n, NOW_FIXTURE).is_err());
    assert!(parse_tasks_alas_json("", &i18n, NOW_FIXTURE).is_err());
    assert!(parse_tasks_alas_json("[1,2,3]", &i18n, NOW_FIXTURE).is_err());
}

#[test]
fn parse_tasks_alas_json_empty_is_empty_list() {
    let i18n = parse_i18n(I18N_FIXTURE).unwrap();
    assert_eq!(parse_tasks_alas_json("{}", &i18n, NOW_FIXTURE).unwrap(), vec![]);
    let all_disabled = r#"{ "Main": { "Scheduler": { "Enable": false, "NextRun": "2026-06-01 23:18:00", "Command": "Main" } } }"#;
    assert_eq!(parse_tasks_alas_json(all_disabled, &i18n, NOW_FIXTURE).unwrap(), vec![]);
}

#[test]
fn classify_matrix() {
    assert_eq!(classify(Some("2026-08-10 20:14:24"), "2026-08-10 22:00:00"), TaskStatus::Running);
    assert_eq!(classify(Some("2026-08-11 00:00:00"), "2026-08-10 22:00:00"), TaskStatus::Waiting);
    assert_eq!(classify(Some("2026-08-10 22:00:00"), "2026-08-10 22:00:00"), TaskStatus::Running);
    assert_eq!(classify(None, "2026-08-10 22:00:00"), TaskStatus::Waiting);
    assert_eq!(classify(Some("2026-08-09 23:59:59"), "2026-08-10 00:00:00"), TaskStatus::Running);
}

#[test]
fn fetch_tasks_sorted_with_running_queued_waiting() {
    let tasks = fetch_tasks(Some(ALAS_JSON_FIXTURE), Some(I18N_FIXTURE), NOW_FIXTURE).unwrap();
    assert_eq!(
        tasks.iter().map(|t| t.command.as_str()).collect::<Vec<_>>(),
        vec!["Tactical", "Guild", "Exercise"]
    );
    assert_eq!(tasks[0].status, TaskStatus::Running);
    assert_eq!(tasks[0].name, "战术学院");
    assert_eq!(tasks[1].status, TaskStatus::Queued);
    assert_eq!(tasks[2].status, TaskStatus::Waiting);
    assert_eq!(tasks[2].name, "演习");
}

#[test]
fn fetch_tasks_missing_alas_json_is_empty() {
    let tasks = fetch_tasks(None, None, NOW_FIXTURE).unwrap();
    assert_eq!(tasks, vec![]);
}

#[test]
fn fetch_tasks_missing_i18n_falls_back_to_command_keys() {
    let tasks = fetch_tasks(Some(ALAS_JSON_FIXTURE), None, NOW_FIXTURE).unwrap();
    assert_eq!(tasks.len(), 3);
    assert!(tasks.iter().all(|t| t.name == t.command));
    assert_eq!(tasks[0].status, TaskStatus::Running);
    assert_eq!(tasks[1].status, TaskStatus::Queued);
    assert_eq!(tasks[2].status, TaskStatus::Waiting);
}

#[test]
fn fetch_tasks_malformed_alas_json_is_err() {
    assert!(fetch_tasks(Some("{not json"), None, NOW_FIXTURE).is_err());
}

#[test]
fn fetch_tasks_nothing_past_due_all_waiting() {
    let tasks = fetch_tasks(Some(ALAS_JSON_FIXTURE), None, "2026-08-09 00:00:00").unwrap();
    assert!(tasks.iter().all(|t| t.status == TaskStatus::Waiting));
}

#[test]
fn each_way_to_fail_has_its_own_error() {
    let i18n = empty_object();
    assert_eq!(parse_i18n("{not json").unwrap_err(), TasksError::InvalidI18n);
    assert_eq!(
        parse_tasks_alas_json("{not json", &i18n, NOW_FIXTURE).unwrap_err(),
        TasksError::InvalidJson
    );
    assert_eq!(
        parse_tasks_alas_json("[1,2,3]", &i18n, NOW_FIXTURE).unwrap_err(),
        TasksError::RootNotObject
    );
    assert_eq!(fetch_tasks(Some(""), None, NOW_FIXTURE).unwrap_err(), TasksError::InvalidJson);
}

#[test]
fn names_that_cannot_be_read_are_left_out() {
    assert!(is_empty_object(&load_i18n(None)));
    assert!(is_empty_object(&load_i18n(Some("{bad"))));
    let broken = fetch_tasks(Some(ALAS_JSON_FIXTURE), Some("{bad"), NOW_FIXTURE).unwrap();
    assert!(broken.iter().all(|t| t.name == t.command));
}

#[test]
fn incomplete_entries_get_what_they_lack() {
    let root = Json::Object(vec![
        (
            "A".to_string(),
            Json::Object(vec![(
                "Scheduler".to_string(),
                Json::Object(vec![("Enable".to_string(), Json::Bool(true))]),
            )]),
        ),
        (
            "B".to_string(),
            Json::Object(vec![("Scheduler".to_string(), Json::Str("no".to_string()))]),
        ),
        (
            "C".to_string(),
            Json::Object(vec![(
                "Scheduler".to_string(),
                Json::Object(vec![("Enable".to_string(), Json::Str("true".to_string()))]),
            )]),
        ),
    ]);
    let tasks = tasks_in(&root, &empty_object(), NOW_FIXTURE).unwrap();
    assert_eq!(tasks.len(), 1);
    assert_eq!(tasks[0].command, "A");
    assert_eq!(tasks[0].next_time, None);
    assert_eq!(tasks[0].status, TaskStatus::Waiting);
    assert_eq!(tasks_in(&Json::Null, &root, NOW_FIXTURE).unwrap_err(), TasksError::RootNotObject);
}

#[test]
fn sorting_keeps_equal_times_in_place_and_puts_unknown_times_last() {
    let tasks = vec![
        due("B", Some("2")),
        due("A", Some("2")),
        due("N", None),
        due("C", Some("1")),
    ];
    let sorted = sort_tasks(&tasks);
    let order: Vec<&str> = sorted.iter().map(|t| t.command.as_str()).collect();
    assert_eq!(order, vec!["C", "B", "A", "N"]);
}

#[test]
fn only_the_first_task_that_is_due_runs() {
    let queued = queue_up(&[due("A", Some("1")), due("B", Some("2")), due("C", Some("3"))]);
    let states: Vec<TaskStatus> = queued.iter().map(|t| t.status).collect();
    assert_eq!(states, vec![TaskStatus::Running, TaskStatus::Queued, TaskStatus::Queued]);
}

#[test]
fn arranging_sorts_before_it_queues() {
    let tasks = arrange(&[due("B", Some("2")), due("A", Some("1"))]);
    assert_eq!(tasks[0].command, "A");
    assert_eq!(tasks[0].status, TaskStatus::Running);
    assert_eq!(tasks[1].status, TaskStatus::Queued);
    assert_eq!(copy_tasks(&tasks), tasks);
}

#[test]
fn a_clock_that_failed_gives_no_time() {
    assert_eq!(now_str(Some("2026-08-13 05:00:00\n")).as_deref(), Some("2026-08-13 05:00:00"));
    assert_eq!(now_str(None), None);
}
