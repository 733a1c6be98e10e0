//! The control interface of the backend.
use alas_launcher::control_api::{
    api_instances, api_scheduler_start, api_scheduler_stop, instance_state, read_answer, request,
    ApiError, InstanceState,
};
use alas_launcher::json::parse_json;

const OK_INSTANCES: &str = "HTTP/1.1 200 OK\r\nContent-Type: application/json\r\nContent-Length: 27\r\n\r\n[{\"name\":\"alas\",\"state\":1}]";
const LOCKED: &str = "HTTP/1.1 401 Unauthorized\r\nContent-Length: 18\r\n\r\n{\"error\":\"locked\"}";

#[test]
fn instances_parses_json_array() {
    let body = read_answer(OK_INSTANCES).unwrap();
    assert_eq!(body, "[{\"name\":\"alas\",\"state\":1}]");
    let answer = parse_json(&body).unwrap();
    let first = answer.first().unwrap();
    let list = vec![InstanceState {
        name: first.get_str("name").unwrap().to_string(),
        state: first.get("state").unwrap().as_u64().unwrap() as u8,
    }];
    assert_eq!(list, vec![InstanceState { name: "alas".into(), state: 1 }]);
}

#[test]
fn locked_returns_api_error_locked() {
    assert!(matches!(read_answer(LOCKED), Err(ApiError::Locked)));
}

#[test]
fn requests_are_sent_to_the_loopback_interface() {
    assert_eq!(
        request(22267, "GET", "/x"),
        "GET /x HTTP/1.1\r\nHost: 127.0.0.1:22267\r\nConnection: close\r\n\r\n"
    );
    assert!(api_instances(22267).starts_with("GET /api/alas/instances HTTP/1.1\r\n"));
    assert!(api_scheduler_start(1, "alas")
        .starts_with("POST /api/alas/alas/scheduler/start HTTP/1.1\r\nHost: 127.0.0.1:1\r\n"));
    assert!(api_scheduler_stop(1, "alas").starts_with("POST /api/alas/alas/scheduler/stop "));
}

#[test]
fn each_way_an_answer_fails_has_its_own_error() {
    assert_eq!(
        read_answer("HTTP/1.1 500 Oops\r\n\r\nx").unwrap_err(),
        ApiError::Http(500)
    );
    assert_eq!(
        read_answer("HTTP/1.1 200 OK\r\n").unwrap_err(),
        ApiError::Protocol("no header/body separator".to_string())
    );
    assert_eq!(
        read_answer("nonsense\r\n\r\nx").unwrap_err(),
        ApiError::Protocol("malformed status line".to_string())
    );
    assert_eq!(
        read_answer("HTTP/1.1 70000 X\r\n\r\nx").unwrap_err(),
        ApiError::Protocol("malformed status line".to_string())
    );
    assert_eq!(read_answer("HTTP/1.1 200 OK\r\n\r\n").unwrap(), "");
    assert_eq!(read_answer("HTTP/1.1 200 OK\r\n\r\na\r\n\r\nb").unwrap(), "a\r\n\r\nb");
}

#[test]
fn errors_have_texts() {
    assert_eq!(ApiError::Locked.to_string(), "control API locked (password/SSL)");
    assert_eq!(ApiError::Http(404).to_string(), "control API HTTP 404");
    assert_eq!(ApiError::Io("x".to_string()).to_string(), "control API io: x");
    assert_eq!(ApiError::Protocol("y".to_string()).to_string(), "control API protocol: y");
}

#[test]
fn an_instance_is_found_by_its_name() {
    let list = [
        InstanceState { name: "a".to_string(), state: 1 },
        InstanceState { name: "b".to_string(), state: 3 },
        InstanceState { name: "b".to_string(), state: 4 },
    ];
    assert_eq!(instance_state(&list, "b"), Some(3));
    assert_eq!(instance_state(&list, "c"), None);
}
