//! The control of the scheduler through the web interface.
use alas_launcher::json::{parse_json, Json};
use alas_launcher::menu_model::{control_labels, ControlLabels};
use alas_launcher::pywebio::{
    callback_event, check_pywebio_version, collect_buttons, js_yield_event, js_yield_reply,
    locate_buttons, parse_server_message, pywebio_version, server_message, socket_origin,
    socket_url, ClickAction, ClickError, ClickSession, JsReply, LocatedButtons, MessageError,
    Phase, SchedulerAction, ServerMessage, SocketEvent, CONFIRM_WINDOW_MS, HOME_QUIESCE_MS,
};

const REAL_SAMPLE: &str = "pywebio==1.6.2            # via -r requirements-in.txt";

const PIN_ONCHANGE: &str = r##"{"command": "pin_onchange", "spec": {"name": "Alas_Emulator_Serial", "callback_id": "CB-put_queue-869zT0OrZy", "clear": false}, "task_id": "index-4419903296"}"##;

const RUN_SCRIPT_LOCALSTORAGE: &str = r##"{"command": "run_script", "spec": {"code": "localStorage.getItem(key)", "args": {"key": "aside"}, "eval": true}, "task_id": "index-4419903296"}"##;

const RUN_SCRIPT_RELOAD: &str = r##"{"command": "run_script", "spec": {"code": "\n        reload = 1;\n        WebIO._state.CurrentSession.on_session_close(\n            ()=>{\n                setTimeout(\n                    ()=>{\n                        if (reload == 1){\n                            location.reload();\n                        }\n                    }, 4000\n                )\n            }\n        );\n        ", "args": {}}, "task_id": "index-4419903296"}"##;

const ASIDE_BUTTON: &str = r##"{"command": "output", "spec": {"type": "custom_widget", "template": "<div style=\"display: grid; grid-auto-flow: row; grid-template-rows: 0;\">\n        {{#contents}}\n            {{& pywebio_output_parse}}\n        {{/contents}}\n    </div>", "data": {"contents": [{"type": "custom_widget", "template": "<div class=\"{{dom_class_name}}\">\n            {{#contents}}\n                {{#.}}\n                    {{& pywebio_output_parse}}\n                {{/.}}\n            {{/contents}}\n        </div>", "data": {"contents": [{"type": "html", "content": "<svg class=\"aside-icon icon-run\" viewBox=\"0 0 1024 1024\" version=\"1.1\" xmlns=\"http://www.w3.org/2000/svg\"><path d=\"M213.333333 65.386667a85.333333 85.333333 0 0 1 43.904 12.16L859.370667 438.826667a85.333333 85.333333 0 0 1 0 146.346666L257.237333 946.453333A85.333333 85.333333 0 0 1 128 873.28V150.72a85.333333 85.333333 0 0 1 85.333333-85.333333z m0 64a21.333333 21.333333 0 0 0-21.184 18.837333L192 150.72v722.56a21.333333 21.333333 0 0 0 30.101333 19.456l2.197334-1.152L826.453333 530.282667a21.333333 21.333333 0 0 0 2.048-35.178667l-2.048-1.386667L224.298667 132.416A21.333333 21.333333 0 0 0 213.333333 129.386667z\"></path></svg>", "sanitize": false, "scope": "#pywebio-scope-alas-instance-0", "position": -1}], "dom_class_name": "pywebio-scope-cQKM2JaRa2"}, "scope": "#pywebio-scope-alas-instance-0", "position": -1, "style": ";z-index: 1; margin-left: 8px;text-align: center"}, {"type": "buttons", "callback_id": "CB-click_callback-PytyyOxVgc", "buttons": [{"label": "alas", "value": 0, "color": "aside"}], "link": false, "outline": false, "group": false, "scope": "#pywebio-scope-alas-instance-0", "position": -1, "style": ";z-index: 2; --aside-alas--;"}]}, "scope": "#pywebio-scope-alas-instance-0", "position": -1}, "task_id": "index-4419903296"}"##;

const MENU_BUTTON: &str = r##"{"command": "output", "spec": {"type": "buttons", "callback_id": "CB-click_callback-G1ZkGUcbfK", "buttons": [{"label": "\u603b\u89c8", "value": 0, "color": "menu"}], "link": false, "outline": false, "group": false, "scope": "#pywebio-scope-menu", "position": -1, "style": ";--menu-Overview--"}, "task_id": "click_callback-4419689392"}"##;

const SCHEDULER_BAR: &str = r##"{"command": "output", "spec": {"type": "scope", "dom_id": "pywebio-scope-scheduler-bar", "contents": [{"type": "text", "content": "\u8c03\u5ea6\u5668", "inline": false, "scope": "#pywebio-scope-schedulers", "position": -1, "style": ";font-size: 1.25rem; margin: auto .5rem auto;"}, {"type": "scope", "dom_id": "pywebio-scope-scheduler_btn", "contents": [], "scope": "#pywebio-scope-schedulers", "position": -1}], "scope": "#pywebio-scope-schedulers", "position": -1}, "task_id": "click_callback-4419689392"}"##;

const SCHEDULER_BUTTON_START: &str = r##"{"command": "output", "spec": {"type": "buttons", "callback_id": "CB-click_callback-schedSynth1", "buttons": [{"label": "\u542f\u52a8", "value": 0, "color": "on"}], "link": false, "outline": false, "group": false, "scope": "#pywebio-scope-scheduler_btn", "position": -1, "style": ""}, "task_id": "click_callback-4419689392"}"##;

const SCHEDULER_BUTTON_STOPPED: &str = r##"{"command": "output", "spec": {"type": "buttons", "callback_id": "CB-click_callback-schedSynth2", "buttons": [{"label": "\u505c\u6b62", "value": 0, "color": "off"}], "link": false, "outline": false, "group": false, "scope": "#pywebio-scope-scheduler_btn", "position": -1, "style": ""}, "task_id": "click_callback-4419689392"}"##;

const MENU_BUTTON_EN: &str = r##"{"command": "output", "spec": {"type": "buttons", "callback_id": "CB-click_callback-ENmenuXYZ", "buttons": [{"label": "Overview", "value": 0, "color": "menu"}], "link": false, "outline": false, "group": false, "scope": "#pywebio-scope-menu", "position": -1, "style": ";--menu-Overview--"}, "task_id": "click_callback-4419689392"}"##;

const SCHEDULER_BUTTON_DRIFT: &str = r##"{"command": "output", "spec": {"type": "buttons", "callback_id": "CB-click_callback-driftXYZ", "buttons": [{"label": "\u5b9f\u884c", "value": 0, "color": "on"}], "link": false, "outline": false, "group": false, "scope": "#pywebio-scope-scheduler_btn", "position": -1, "style": ""}, "task_id": "click_callback-4419689392"}"##;

const MENU_BUTTON_OTHER_SECTION: &str = r##"{"command": "output", "spec": {"type": "buttons", "callback_id": "CB-click_callback-sectXYZ", "buttons": [{"label": "\u51fa\u51fb", "value": 0, "color": "menu"}], "link": false, "outline": false, "group": false, "scope": "#pywebio-scope-menu", "position": -1, "style": ";--menu-Main--"}, "task_id": "click_callback-4419689392"}"##;

fn labels_zh() -> ControlLabels {
    control_labels("zh-CN", &Json::Null)
}

fn parse(frame: &str) -> ServerMessage {
    parse_server_message(frame).expect("fixture frame must parse")
}

fn field<'a>(m: &'a ServerMessage, name: &str) -> &'a str {
    m.spec.get(name).unwrap().as_str().unwrap()
}

fn script(spec: &str, task_id: &str) -> ServerMessage {
    ServerMessage {
        command: "run_script".into(),
        spec: parse_json(spec).unwrap(),
        task_id: task_id.into(),
    }
}

fn value(text: &str) -> serde_json::Value {
    serde_json::from_str(text).unwrap()
}

#[test]
fn parses_real_payload_line_with_trailing_comment() {
    assert_eq!(pywebio_version(REAL_SAMPLE).as_deref(), Some("1.6.2"));
}

#[test]
fn parses_plain_line() {
    assert_eq!(pywebio_version("pywebio==1.6.2\n").as_deref(), Some("1.6.2"));
}

#[test]
fn parses_multiline_file() {
    let txt = "tornado==6.1\npywebio==1.6.2\nuser-agents==2.2.0\n";
    assert_eq!(pywebio_version(txt).as_deref(), Some("1.6.2"));
}

#[test]
fn is_case_sensitive() {
    assert_eq!(pywebio_version("PyWebIO==1.6.2"), None);
    assert_eq!(pywebio_version("PYWEBIO==1.6.2"), None);
}

#[test]
fn missing_pywebio_line_yields_none() {
    assert_eq!(pywebio_version("tornado==6.1\nuser-agents==2.2.0\n"), None);
    assert_eq!(pywebio_version(""), None);
}

#[test]
fn malformed_lines_yield_none() {
    assert_eq!(pywebio_version("pywebio==\n"), None);
    assert_eq!(pywebio_version("pywebio 1.6.2\n"), None);
    assert_eq!(pywebio_version("pywebio>=1.6.2\n"), None);
}

#[test]
fn guard_matrix() {
    assert!(check_pywebio_version(Some("1.6.2")));
    assert!(!check_pywebio_version(Some("1.6.3")));
    assert!(!check_pywebio_version(Some("2.0.0")));
    assert!(!check_pywebio_version(None));
    assert!(check_pywebio_version(pywebio_version(REAL_SAMPLE).as_deref()));
}

#[test]
fn parse_real_pin_onchange_frame() {
    let m = parse(PIN_ONCHANGE);
    assert_eq!(m.command, "pin_onchange");
    assert_eq!(m.task_id, "index-4419903296");
    assert_eq!(field(&m, "name"), "Alas_Emulator_Serial");
    assert_eq!(field(&m, "callback_id"), "CB-put_queue-869zT0OrZy");
}

#[test]
fn parse_menu_frame_exposes_scope_and_style() {
    let m = parse(MENU_BUTTON);
    assert_eq!(m.command, "output");
    assert_eq!(field(&m, "scope"), "#pywebio-scope-menu");
    assert_eq!(field(&m, "style"), ";--menu-Overview--");
    assert_eq!(field(&m, "callback_id"), "CB-click_callback-G1ZkGUcbfK");
}

#[test]
fn parse_rejects_malformed_frames_without_panicking() {
    assert!(parse_server_message("not json").is_err());
    assert!(parse_server_message("").is_err());
    assert!(parse_server_message(r#"{"command": 1, "spec": {}, "task_id": "x"}"#).is_err());
    assert!(parse_server_message(r#"{"command": "output", "task_id": "x"}"#).is_err());
    assert!(parse_server_message(r#"{"command": "output", "spec": {}}"#).is_err());
}

#[test]
fn locate_all_three_buttons_from_captured_frames() {
    let frames = [PIN_ONCHANGE, ASIDE_BUTTON, MENU_BUTTON, SCHEDULER_BAR, SCHEDULER_BUTTON_START]
        .map(parse);
    let loc = locate_buttons(&frames, &labels_zh());
    assert_eq!(loc.aside_callback_id.as_deref(), Some("CB-click_callback-PytyyOxVgc"));
    assert_eq!(loc.menu_callback_id.as_deref(), Some("CB-click_callback-G1ZkGUcbfK"));
    assert_eq!(loc.scheduler_callback_id.as_deref(), Some("CB-click_callback-schedSynth1"));
    assert_eq!(loc.scheduler_label.as_deref(), Some("启动"));
}

#[test]
fn empty_scope_container_is_not_a_clickable_button() {
    let frames = [SCHEDULER_BAR].map(parse);
    let loc = locate_buttons(&frames, &labels_zh());
    assert_eq!(loc.scheduler_callback_id, None);
    assert_eq!(loc, LocatedButtons::default());
}

#[test]
fn pin_flood_and_run_script_alone_locate_nothing() {
    let frames = [PIN_ONCHANGE, RUN_SCRIPT_LOCALSTORAGE, RUN_SCRIPT_RELOAD].map(parse);
    assert_eq!(locate_buttons(&frames, &labels_zh()), LocatedButtons::default());
}

#[test]
fn language_drift_still_locates_by_scope_and_style() {
    let frames = [MENU_BUTTON_EN, SCHEDULER_BUTTON_DRIFT].map(parse);
    let loc = locate_buttons(&frames, &labels_zh());
    assert_eq!(loc.menu_callback_id.as_deref(), Some("CB-click_callback-ENmenuXYZ"));
    assert_eq!(loc.scheduler_callback_id.as_deref(), Some("CB-click_callback-driftXYZ"));
    assert_eq!(loc.scheduler_label.as_deref(), Some("実行"));
}

#[test]
fn latest_rerender_wins_for_callback_id() {
    let frames = [SCHEDULER_BUTTON_START, SCHEDULER_BUTTON_STOPPED].map(parse);
    let loc = locate_buttons(&frames, &labels_zh());
    assert_eq!(loc.scheduler_callback_id.as_deref(), Some("CB-click_callback-schedSynth2"));
    assert_eq!(loc.scheduler_label.as_deref(), Some("停止"));
}

#[test]
fn menu_button_requires_overview_style_marker() {
    let frames = [MENU_BUTTON_OTHER_SECTION].map(parse);
    assert_eq!(locate_buttons(&frames, &labels_zh()).menu_callback_id, None);
}

#[test]
fn eval_localstorage_requires_null_js_yield() {
    let m = parse(RUN_SCRIPT_LOCALSTORAGE);
    assert_eq!(js_yield_reply(&m), Some(JsReply::Null));
}

#[test]
fn eval_visibility_state_replies_visible() {
    let m = script(
        r#"{"code": "document.visibilityState", "args": {}, "eval": true}"#,
        "loop-4419745488",
    );
    assert_eq!(js_yield_reply(&m), Some(JsReply::Text("visible".to_string())));
}

#[test]
fn non_eval_and_non_script_commands_need_no_reply() {
    let reload = parse(RUN_SCRIPT_RELOAD);
    assert_eq!(js_yield_reply(&reload), None);
    let pin = parse(PIN_ONCHANGE);
    assert_eq!(js_yield_reply(&pin), None);
    let no_eval_flag = script(r#"{"code": "doSomething()"}"#, "t");
    assert_eq!(js_yield_reply(&no_eval_flag), None);
    let unknown_eval = script(r#"{"code": "doSomething()", "eval": true}"#, "t");
    assert_eq!(js_yield_reply(&unknown_eval), Some(JsReply::Null));
}

#[test]
fn callback_event_matches_captured_sent_event() {
    let sent =
        value(r#"{"event": "callback", "task_id": "CB-click_callback-PytyyOxVgc", "data": 0}"#);
    let encoded = value(&callback_event("CB-click_callback-PytyyOxVgc", 0));
    assert_eq!(encoded, sent);
}

#[test]
fn js_yield_event_echoes_task_id_and_data() {
    let sent = value(r#"{"event": "js_yield", "task_id": "loop-4419745488", "data": "visible"}"#);
    let encoded =
        value(&js_yield_event("loop-4419745488", &JsReply::Text("visible".to_string())));
    assert_eq!(encoded, sent);

    let sent_null = value(r#"{"event": "js_yield", "task_id": "index-4419903296", "data": null}"#);
    let encoded_null = value(&js_yield_event("index-4419903296", &JsReply::Null));
    assert_eq!(encoded_null, sent_null);
}

#[test]
fn action_expected_labels_follow_action() {
    let labels = labels_zh();
    assert_eq!(SchedulerAction::Start.label_before(&labels), "启动");
    assert_eq!(SchedulerAction::Start.label_after(&labels), "停止");
    assert_eq!(SchedulerAction::Stop.label_before(&labels), "停止");
    assert_eq!(SchedulerAction::Stop.label_after(&labels), "启动");
}

#[test]
fn events_are_encoded_with_every_character_escaped() {
    let id = "a\"b\\c\n舰\u{1}";
    let mut fields = serde_json::Map::new();
    fields.insert("event".to_string(), "callback".into());
    fields.insert("task_id".to_string(), id.into());
    fields.insert("data".to_string(), (-7i64).into());
    assert_eq!(callback_event(id, -7), serde_json::Value::Object(fields).to_string());
    let reply = value(&js_yield_event(id, &JsReply::Text(id.to_string())));
    assert_eq!(reply["task_id"], id);
    assert_eq!(reply["data"], id);
    assert_eq!(value(&callback_event("x", i64::MIN))["data"], i64::MIN);
}

#[test]
fn an_event_has_this_very_text() {
    assert_eq!(
        callback_event("a\"b\\c\u{8}\t\n\u{c}\r\u{1}\u{1f}\u{7f}/舰", 0),
        r#"{"data":0,"event":"callback","task_id":"a\"b\\c\b\t\n\f\r\u0001\u001f"#.to_string()
            + "\u{7f}/舰\"}"
    );
}

#[test]
fn each_broken_message_has_its_own_error() {
    assert_eq!(parse_server_message("not json").unwrap_err(), MessageError::NotJson);
    let error = |text: &str| server_message(&parse_json(text).unwrap()).unwrap_err();
    assert_eq!(error(r#"{"command": 1, "spec": {}, "task_id": "x"}"#), MessageError::MissingCommand);
    assert_eq!(error(r#"{"command": "output", "task_id": "x"}"#), MessageError::MissingSpec);
    assert_eq!(error(r#"{"command": "output", "spec": {}}"#), MessageError::MissingTaskId);
    assert_eq!(error("[]"), MessageError::MissingCommand);
}

#[test]
fn buttons_are_found_at_any_depth() {
    let message = parse(ASIDE_BUTTON);
    let mut found = LocatedButtons::default();
    collect_buttons(&Json::Array(vec![Json::Null, message.spec]), &mut found);
    assert_eq!(found.aside_callback_id.as_deref(), Some("CB-click_callback-PytyyOxVgc"));
    assert_eq!(found.scheduler_button(), None);
    collect_buttons(&parse(SCHEDULER_BUTTON_START).spec, &mut found);
    assert_eq!(
        found.scheduler_button(),
        Some(("CB-click_callback-schedSynth1".to_string(), "启动".to_string()))
    );
    assert_eq!(found.aside_callback_id.as_deref(), Some("CB-click_callback-PytyyOxVgc"));
}

#[test]
fn the_socket_is_that_of_the_web_interface() {
    assert_eq!(socket_url(22267), "ws://127.0.0.1:22267/?app=index");
    assert_eq!(socket_origin(22267), "http://127.0.0.1:22267");
}

fn click(id: &str) -> ClickAction {
    ClickAction::Click(callback_event(id, 0))
}

#[test]
fn a_session_clicks_its_way_to_the_scheduler() {
    let mut s = ClickSession::click_scheduler(SchedulerAction::Start, labels_zh(), 0, 60_000);
    assert_eq!(s.advance(0), ClickAction::Read);
    assert_eq!(s.take_text(ASIDE_BUTTON), ClickAction::Next);
    assert_eq!(s.advance(HOME_QUIESCE_MS - 1), ClickAction::Read);
    assert_eq!(s.advance(HOME_QUIESCE_MS), click("CB-click_callback-PytyyOxVgc"));
    s.sent(HOME_QUIESCE_MS);
    assert_eq!(s.phase, Phase::Menu);
    assert_eq!(s.advance(HOME_QUIESCE_MS), ClickAction::Read);
    assert_eq!(s.take_text(MENU_BUTTON), ClickAction::Next);
    assert_eq!(s.advance(7_000), click("CB-click_callback-G1ZkGUcbfK"));
    s.sent(7_000);
    assert_eq!(s.phase, Phase::Scheduler);
    assert_eq!(s.take_text(SCHEDULER_BUTTON_START), ClickAction::Next);
    assert_eq!(s.advance(7_500), click("CB-click_callback-schedSynth1"));
    s.sent(7_500);
    assert_eq!(s.phase, Phase::Confirm);
    assert_eq!(s.advance(7_500), ClickAction::Read);
    assert_eq!(s.take_text(SCHEDULER_BUTTON_STOPPED), ClickAction::Next);
    assert_eq!(s.advance(7_600), ClickAction::Done);
}

#[test]
fn a_click_that_nothing_confirms_still_counts() {
    let mut s = ClickSession::click_scheduler(SchedulerAction::Start, labels_zh(), 0, 60_000);
    for frame in [ASIDE_BUTTON, MENU_BUTTON, SCHEDULER_BUTTON_DRIFT] {
        s.take_text(frame);
    }
    for now in [HOME_QUIESCE_MS, HOME_QUIESCE_MS, HOME_QUIESCE_MS] {
        assert!(matches!(s.advance(now), ClickAction::Click(_)));
        s.sent(now);
    }
    assert_eq!(s.phase, Phase::Confirm);
    assert_eq!(s.advance(HOME_QUIESCE_MS + CONFIRM_WINDOW_MS - 1), ClickAction::Read);
    assert_eq!(s.advance(HOME_QUIESCE_MS + CONFIRM_WINDOW_MS), ClickAction::Done);
}

#[test]
fn a_session_that_finds_nothing_gives_up() {
    let mut s = ClickSession::click_scheduler(SchedulerAction::Stop, labels_zh(), 0, 15_000);
    assert_eq!(s.advance(14_999), ClickAction::Read);
    assert_eq!(s.advance(15_000), ClickAction::Fail(ClickError::Timeout(Phase::Home)));
}

#[test]
fn questions_of_the_server_are_answered() {
    let mut s = ClickSession::click_scheduler(SchedulerAction::Stop, labels_zh(), 0, 15_000);
    assert_eq!(
        s.take_text(RUN_SCRIPT_LOCALSTORAGE),
        ClickAction::Reply(js_yield_event("index-4419903296", &JsReply::Null))
    );
    let visibility = script(
        r#"{"code": "document.visibilityState", "args": {}, "eval": true}"#,
        "loop-4419745488",
    );
    assert_eq!(
        s.take_message(visibility),
        ClickAction::Reply(js_yield_event(
            "loop-4419745488",
            &JsReply::Text("visible".to_string())
        ))
    );
    assert_eq!(s.take_text("not json"), ClickAction::Next);
}

#[test]
fn a_socket_that_breaks_ends_the_session() {
    let s = ClickSession::click_scheduler(SchedulerAction::Stop, labels_zh(), 0, 15_000);
    assert_eq!(s.take_event(SocketEvent::Idle), ClickAction::Next);
    assert_eq!(s.take_event(SocketEvent::Binary), ClickAction::Fail(ClickError::BinaryFrame));
    assert_eq!(s.take_event(SocketEvent::Closed), ClickAction::Fail(ClickError::Closed));
    assert_eq!(s.take_event(SocketEvent::Broken), ClickAction::Fail(ClickError::ReadFailed));
}

/// A session that has handed out its click on the scheduler button.
fn session_at_the_scheduler() -> ClickSession {
    let mut s = ClickSession::click_scheduler(SchedulerAction::Start, labels_zh(), 0, 60_000);
    for frame in [ASIDE_BUTTON, MENU_BUTTON, SCHEDULER_BUTTON_START] {
        s.take_text(frame);
    }
    for _ in 0..2 {
        assert!(matches!(s.advance(HOME_QUIESCE_MS), ClickAction::Click(_)));
        s.sent(HOME_QUIESCE_MS);
    }
    assert_eq!(s.advance(HOME_QUIESCE_MS), click("CB-click_callback-schedSynth1"));
    s
}

#[test]
fn a_delivered_click_outlives_a_reply_that_cannot_be_written() {
    let mut s = session_at_the_scheduler();
    s.sent(HOME_QUIESCE_MS);
    assert!(matches!(s.take_text(RUN_SCRIPT_LOCALSTORAGE), ClickAction::Reply(_)));
    assert_eq!(s.write_failed(), ClickAction::Done);
    for event in [SocketEvent::Binary, SocketEvent::Closed, SocketEvent::Broken] {
        assert_eq!(s.take_event(event), ClickAction::Done);
    }
    assert_eq!(s.advance(60_000), ClickAction::Done);
}

#[test]
fn a_click_that_cannot_be_written_fails() {
    let mut s = session_at_the_scheduler();
    assert_eq!(s.write_failed(), ClickAction::Fail(ClickError::WriteFailed));
    assert_eq!(s.take_event(SocketEvent::Closed), ClickAction::Fail(ClickError::Closed));
    assert_eq!(s.advance(HOME_QUIESCE_MS + CONFIRM_WINDOW_MS), ClickAction::Read);
    assert_eq!(s.advance(60_000), ClickAction::Fail(ClickError::Timeout(Phase::Confirm)));

    let mut early = ClickSession::click_scheduler(SchedulerAction::Stop, labels_zh(), 0, 15_000);
    assert!(matches!(early.take_text(RUN_SCRIPT_LOCALSTORAGE), ClickAction::Reply(_)));
    assert_eq!(early.write_failed(), ClickAction::Fail(ClickError::WriteFailed));
}
