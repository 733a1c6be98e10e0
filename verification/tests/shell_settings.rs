//! The settings of the launcher.
use alas_launcher::platform::Platform;
use alas_launcher::shell_settings::{
    load, save_step, settings_path, staging_path, SaveAction, SaveError, SaveEvent, ShellSettings,
};

fn defaults() -> ShellSettings {
    ShellSettings::default()
}

/// Runs a whole save; `works` says which steps succeed. Hands back how it ends, and whether a file
/// was left beside the real one and whether the real one was written.
fn save(settings: &ShellSettings, path: &str, works: [bool; 4]) -> (SaveAction, bool, bool) {
    let mut staged = false;
    let mut written = false;
    let mut action = settings.save(path);
    loop {
        let event = match action {
            SaveAction::MakeDirectory => SaveEvent::DirectoryMade { ok: works[0] },
            SaveAction::Stage => {
                staged = true;
                SaveEvent::Staged { ok: works[1] }
            }
            SaveAction::Rename => {
                if works[2] {
                    staged = false;
                    written = true;
                }
                SaveEvent::Renamed { ok: works[2] }
            }
            SaveAction::WriteDirectly => {
                staged = false;
                written = works[3];
                SaveEvent::Written { ok: works[3] }
            }
            SaveAction::Done | SaveAction::Fail(_) => return (action, staged, written),
        };
        action = save_step(event);
    }
}

#[test]
fn settings_path_points_at_config_dir() {
    let path = settings_path(Some("/home/me/.config"), Platform::Linux);
    assert_eq!(path, "/home/me/.config/alas-launcher/settings.json");
    let path = settings_path(Some("C:\\Users\\me"), Platform::Windows);
    assert_eq!(path, "C:\\Users\\me\\alas-launcher\\settings.json");
}

#[test]
fn missing_file_returns_defaults() {
    assert_eq!(load("/s/settings.json", None, None), defaults());
}

#[test]
fn empty_file_returns_defaults() {
    assert_eq!(load("/s/settings.json", Some(""), None), defaults());
}

#[test]
fn corrupt_json_returns_defaults() {
    assert_eq!(load("/s/settings.json", Some("{bad"), None), defaults());
}

#[test]
fn resolved_language_setting_wins() {
    let settings = ShellSettings {
        language: Some("ja-JP".to_string()),
        auto_start_backend: true,
        ..Default::default()
    };
    assert_eq!(settings.resolved_language(Some("en-US")), "ja-JP");
}

#[test]
fn resolved_language_falls_back_to_deploy() {
    let settings = defaults();
    assert_eq!(settings.resolved_language(Some("zh-TW")), "zh-TW");
}

#[test]
fn resolved_language_both_none_falls_back_zh_cn() {
    let settings = defaults();
    assert_eq!(settings.resolved_language(None), "zh-CN");
}

#[test]
fn atomic_save_leaves_no_tmp_residue() {
    let (end, staged, written) = save(&defaults(), "/s/settings.json", [true; 4]);
    assert_eq!(end, SaveAction::Done);
    assert!(!staged, "no file is left beside the real one");
    assert!(written);
}

#[test]
fn save_to_rename_failure_falls_back_and_errors() {
    let (end, staged, written) = save(&defaults(), "/s/settings.json", [true, true, false, false]);
    assert_eq!(end, SaveAction::Fail(SaveError::Write));
    assert!(!staged);
    assert!(!written);
    let (end, staged, written) = save(&defaults(), "/s/settings.json", [true, true, false, true]);
    assert_eq!(end, SaveAction::Done);
    assert!(!staged);
    assert!(written);
}

#[test]
fn what_was_understood_is_taken_over() {
    let chosen = ShellSettings { language: Some("en-US".to_string()), ..Default::default() };
    assert_eq!(load("/s/settings.json", Some("{}"), Some(chosen.clone())), chosen);
    assert_eq!(load("", Some("{}"), Some(chosen.clone())), defaults());
    assert_eq!(load("/s/settings.json", Some(" \n"), Some(chosen.clone())), defaults());
    assert_eq!(load("/s/settings.json", None, Some(chosen)), defaults());
}

#[test]
fn a_first_run_starts_the_backend_and_notifies_of_deaths_only() {
    let s = defaults();
    assert_eq!(s.language, None);
    assert!(s.auto_start_backend);
    assert!(s.notify_enabled);
    assert!(s.notify_scheduler_death);
    assert!(!s.notify_task_complete);
}

#[test]
fn a_directory_that_cannot_be_made_ends_the_save() {
    let (end, staged, written) = save(&defaults(), "/s/settings.json", [false, true, true, true]);
    assert_eq!(end, SaveAction::Fail(SaveError::Directory));
    assert!(!staged);
    assert!(!written);
}

#[test]
fn without_a_place_nothing_is_kept() {
    assert_eq!(settings_path(None, Platform::Mac), "");
    assert_eq!(defaults().save(""), SaveAction::Done);
    assert_eq!(staging_path("/s/settings.json"), "/s/settings.json.tmp");
}
