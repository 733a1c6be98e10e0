//! The pages of the launcher.
use alas_launcher::backend::BackendStatus;
use alas_launcher::json::Json;
use alas_launcher::menu_model::control_labels;
use alas_launcher::page::{
    data_url, escape, failure_text, loading_text, main_page_url, save_as, splash_has_room,
    stopped_page_has_room, stopped_page_url, text_to_splash, SPLASH_HEAD, SPLASH_TAIL,
};
use base64::prelude::BASE64_STANDARD;
use base64::Engine;

fn decode(url: &str) -> String {
    let b64 = url.split(',').nth(1).unwrap();
    String::from_utf8(BASE64_STANDARD.decode(b64).unwrap()).unwrap()
}

#[test]
fn a_page_is_carried_in_its_address() {
    let url = data_url("<p>舰 & co</p>");
    assert!(url.starts_with("data:text/html;charset=utf-8;base64,"));
    assert_eq!(decode(&url), "<p>舰 & co</p>");
    let encoded = url.split(',').nth(1).unwrap();
    assert_eq!(encoded, BASE64_STANDARD.encode("<p>舰 & co</p>"));
}

#[test]
fn what_was_encoded_is_decoded() {
    let bytes: Vec<u8> = (0..=255).collect();
    assert_eq!(save_as(&BASE64_STANDARD.encode(&bytes)), Some(bytes));
    assert_eq!(save_as(""), Some(vec![]));
    assert_eq!(save_as("***"), None);
    assert_eq!(save_as("YQ"), None);
}

#[test]
fn markup_is_escaped() {
    assert_eq!(escape("<a>&\"\r\n</a>"), "&lt;a&gt;&amp;\"\n&lt;/a&gt;");
    assert_eq!(escape("plain 舰"), "plain 舰");
    let page = decode(&text_to_splash("1 < 2"));
    assert!(page.contains(&escape("1 < 2")));
    assert!(page.starts_with(SPLASH_HEAD));
    assert!(page.ends_with(SPLASH_TAIL));
}

#[test]
fn texts_of_the_splash_say_what_happens() {
    assert_eq!(
        loading_text("Updating ALAS"),
        "Loading ALAS, please wait..\n\nUpdating ALAS"
    );
    assert_eq!(
        failure_text("no port"),
        "Failed loading ALAS, reason: no port\n\nPlease run alas-launcher from terminal for detailed logs"
    );
}

#[test]
fn a_stopped_backend_has_a_page_of_its_own() {
    let labels = control_labels("en-US", &Json::Null);
    assert_eq!(
        main_page_url(BackendStatus::Stopped, 1, &labels),
        stopped_page_url(&labels)
    );
    assert_eq!(main_page_url(BackendStatus::Running, 1, &labels), "http://127.0.0.1:1/");
}

#[test]
fn a_page_is_carried_in_base64() {
    let head = "data:text/html;charset=utf-8;base64,";
    for (page, text) in [
        ("", ""),
        ("f", "Zg=="),
        ("fo", "Zm8="),
        ("foo", "Zm9v"),
        ("foobar", "Zm9vYmFy"),
        ("?>~\u{7f}", "Pz5+fw=="),
        ("舰", "6Iiw"),
    ] {
        assert_eq!(data_url(page), format!("{head}{text}"));
    }
}

#[test]
fn pages_of_a_real_size_have_room() {
    assert!(splash_has_room("Loading ALAS"));
    assert!(stopped_page_has_room(&control_labels("zh-CN", &Json::Null)));
}
