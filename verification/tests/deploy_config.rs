//! The configuration of the backend.
use alas_launcher::deploy_config::{
    enable_reload, language, webui_port, ws_control_available, DeployConfig, DEFAULT_PORT,
};
use alas_launcher::json::{parse_json, Json};
use alas_launcher::setup::get_deploy_config;

fn json(text: &str) -> Json {
    parse_json(text).expect("the fixture is JSON")
}

fn typed(text: &str) -> DeployConfig {
    DeployConfig::from_value(Some(&json(text)))
}

#[test]
fn load_without_payload_file_never_panics() {
    let cfg = DeployConfig::load(None);
    assert_eq!(cfg.webui_port(), DEFAULT_PORT);
    assert_eq!(cfg.language(), None);
    assert!(cfg.enable_reload());
    assert!(cfg.ws_control_available());
}

#[test]
fn missing_config_falls_back_to_all_defaults() {
    let cfg = DeployConfig::from_value(None);
    assert_eq!(cfg.webui_port(), DEFAULT_PORT);
    assert_eq!(cfg.language(), None);
    assert!(cfg.enable_reload());
    assert!(cfg.ws_control_available());
}

#[test]
fn missing_keys_fall_back_to_all_defaults() {
    let cfg = typed("{}");
    assert_eq!(cfg.webui_port(), DEFAULT_PORT);
    assert_eq!(cfg.language(), None);
    assert!(cfg.enable_reload());
    assert!(cfg.ws_control_available());
}

#[test]
fn null_values_fall_back_to_all_defaults() {
    let cfg = typed(
        r#"{
            "Deploy": {"Webui": {"WebuiPort": null}, "Update": {"EnableReload": null}},
            "Gui": {"Language": null}
        }"#,
    );
    assert_eq!(cfg.webui_port(), DEFAULT_PORT);
    assert_eq!(cfg.language(), None);
    assert!(cfg.enable_reload());
    assert!(cfg.ws_control_available());
}

#[test]
fn non_string_port_language_and_non_bool_reload_fall_back() {
    let cfg = typed(
        r#"{
            "Deploy": {"Webui": {"WebuiPort": "22267"}, "Update": {"EnableReload": "true"}},
            "Gui": {"Language": 42}
        }"#,
    );
    assert_eq!(cfg.webui_port(), DEFAULT_PORT);
    assert_eq!(cfg.language(), None);
    assert!(cfg.enable_reload());
}

#[test]
fn float_port_falls_back_to_default() {
    let cfg = typed(r#"{"Deploy": {"Webui": {"WebuiPort": 22267.5}}}"#);
    assert_eq!(cfg.webui_port(), DEFAULT_PORT);
}

#[test]
fn empty_strings_keep_some_language_and_available_ws() {
    let cfg = typed(
        r#"{
            "Gui": {"Language": ""},
            "Deploy": {"Webui": {"Password": ""}}
        }"#,
    );
    assert_eq!(cfg.language(), Some(String::new()));
    assert!(cfg.ws_control_available());
}

#[test]
fn full_valid_values_are_extracted() {
    let cfg = typed(
        r#"{
            "Deploy": {
                "Webui": {"WebuiPort": 22268},
                "Update": {"EnableReload": false}
            },
            "Gui": {"Language": "zh-CN"}
        }"#,
    );
    assert_eq!(cfg.webui_port(), 22268);
    assert_eq!(cfg.language(), Some("zh-CN".to_string()));
    assert!(!cfg.enable_reload());
    assert!(cfg.ws_control_available());
}

#[test]
fn non_empty_password_degrades_ws_control() {
    let cfg = typed(r#"{"Deploy": {"Webui": {"Password": "secret"}}}"#);
    assert!(!cfg.ws_control_available());
}

#[test]
fn non_empty_ssl_key_or_cert_degrades_ws_control() {
    let key = typed(r#"{"Deploy": {"Webui": {"WebuiSSLKey": "/tmp/k.pem"}}}"#);
    assert!(!key.ws_control_available());
    let cert = typed(r#"{"Deploy": {"Webui": {"WebuiSSLCert": "/tmp/c.pem"}}}"#);
    assert!(!cert.ws_control_available());
}

#[test]
fn non_string_credential_values_do_not_degrades_ws_control() {
    let cfg = typed(r#"{"Deploy": {"Webui": {"Password": 123}}}"#);
    assert!(cfg.ws_control_available());
}

#[test]
fn a_file_is_read_as_yaml() {
    let yaml = "Deploy:\n  Webui:\n    WebuiPort: 22300\n    Password: null\n  Update:\n    EnableReload: false\nGui:\n  Language: en-US\n";
    let cfg = DeployConfig::load(Some(yaml));
    assert_eq!(cfg.webui_port(), 22300);
    assert_eq!(cfg.language(), Some("en-US".to_string()));
    assert!(!cfg.enable_reload());
    assert!(cfg.ws_control_available());
    assert_eq!(webui_port(Some(yaml)), 22300);
    assert_eq!(language(Some(yaml)), Some("en-US".to_string()));
    assert!(!enable_reload(Some(yaml)));
    assert!(ws_control_available(Some(yaml)));
}

#[test]
fn a_file_that_is_no_yaml_means_the_defaults() {
    let broken = "Deploy: [\n";
    assert!(get_deploy_config(Some(broken)).is_none());
    assert!(get_deploy_config(None).is_none());
    let cfg = DeployConfig::load(Some(broken));
    assert_eq!(cfg.webui_port(), DEFAULT_PORT);
    assert_eq!(webui_port(None), 22267);
}

#[test]
fn a_port_keeps_its_lower_sixteen_bits() {
    assert_eq!(typed(r#"{"Deploy": {"Webui": {"WebuiPort": 65535}}}"#).webui_port(), 65535);
    assert_eq!(typed(r#"{"Deploy": {"Webui": {"WebuiPort": 0}}}"#).webui_port(), 0);
    assert_eq!(
        typed(r#"{"Deploy": {"Webui": {"WebuiPort": 87803}}}"#).webui_port(),
        87803u64 as u16
    );
    assert_eq!(typed(r#"{"Deploy": {"Webui": {"WebuiPort": -1}}}"#).webui_port(), DEFAULT_PORT);
}
