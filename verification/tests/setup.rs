//! The setup of the repository.
use alas_launcher::patch::PatchOutcome;
use alas_launcher::platform::{join_path, OsPath, Platform};
use alas_launcher::setup::{
    bundle_repo_dir, library_path_prepend, payload_path_prepend, search_path, setup_alas_repo,
    setup_environment, sparse_checkout_args, sparse_checkout_patterns, try_alas_repo_dir, SetupAction, SetupEvent,
};

fn path(text: &str) -> OsPath {
    OsPath::from_slashes(text)
}

#[test]
fn test_payload_path_prepend_includes_venv() {
    for (platform, venv) in
        [(Platform::Linux, "\"/repo/.venv/bin\""), (Platform::Mac, "\"/repo/.venv/bin\"")]
    {
        let entries = payload_path_prepend("/repo", platform);
        let rendered = format!("{:?}", entries);
        assert!(rendered.contains(venv), "{rendered}");
        let venv_pos = rendered.find(".venv").expect("venv entry present");
        let toolkit_pos = rendered.find("toolkit").expect("toolkit entries present");
        assert!(toolkit_pos < venv_pos, "toolkit must precede .venv: {rendered}");
    }
    let windows = payload_path_prepend("/repo", Platform::Windows);
    assert!(windows.iter().any(|e| e.ends_with("Scripts") && e.contains(".venv")), "{windows:?}");
    let venv_pos = windows.iter().position(|e| e.contains(".venv")).unwrap();
    let toolkit_pos = windows.iter().position(|e| e.contains("toolkit")).unwrap();
    assert!(toolkit_pos < venv_pos, "toolkit must precede .venv: {windows:?}");
}

#[test]
fn test_sparse_checkout_patterns() {
    let patterns = sparse_checkout_patterns();
    assert_eq!(patterns.first(), Some(&"/*"));
    assert!(patterns.contains(&"!webapp/"), "dead Electron launcher must stay excluded");
    assert!(
        patterns.contains(&"!webapp-tauri/src-tauri/"),
        "PR #5885 Tauri shell's Rust side must be excluded"
    );
    assert!(
        !patterns.iter().any(|p| p.contains("webapp-tauri") && !p.contains("src-tauri")),
        "webapp-tauri/ frontend sources must not be excluded"
    );
}

#[test]
fn a_checkout_is_limited_by_its_patterns() {
    let args = sparse_checkout_args();
    assert_eq!(args[..3], ["sparse-checkout", "set", "--no-cone"]);
    assert_eq!(args[3..], sparse_checkout_patterns()[..]);
}

#[test]
fn the_entries_of_the_toolkit_come_first_in_the_search_path() {
    let entries = payload_path_prepend("/repo", Platform::Linux);
    let before = vec!["/usr/bin".to_string(), "/bin".to_string()];
    let all = search_path(&entries, &before);
    assert_eq!(all.len(), entries.len() + 2);
    assert_eq!(all[..entries.len()], entries[..]);
    assert_eq!(all[entries.len()..], before[..]);
}

#[test]
fn the_environment_names_the_programs_and_libraries_of_the_repository() {
    let path = vec!["/usr/bin".to_string()];
    let libraries = vec!["/usr/lib".to_string()];
    assert_eq!(library_path_prepend("/repo", Platform::Mac), ["/repo/toolkit/lib"]);
    assert!(library_path_prepend("C:\\repo", Platform::Windows).is_empty());

    let unix = setup_environment("/repo", Platform::Linux, &path, &libraries);
    assert_eq!(
        unix.path,
        ["/repo/toolkit/libexec/git-core", "/repo/toolkit/bin", "/repo/.venv/bin", "/usr/bin"]
    );
    assert_eq!(unix.library_path.unwrap(), ["/repo/toolkit/lib", "/usr/lib"]);

    let windows = setup_environment("C:\\repo", Platform::Windows, &path, &libraries);
    assert_eq!(
        windows.path,
        [
            "C:\\repo\\toolkit\\git\\cmd",
            "C:\\repo\\toolkit\\Scripts",
            "C:\\repo\\toolkit",
            "C:\\repo\\.venv\\Scripts",
            "/usr/bin"
        ]
    );
    assert_eq!(windows.library_path, None);
}

#[test]
fn a_name_behind_a_bare_drive_has_no_separator() {
    assert_eq!(join_path("C:", "name", Platform::Windows), "C:name");
    assert_eq!(join_path("C:\\", "name", Platform::Windows), "C:\\name");
    assert_eq!(join_path("CC:", "name", Platform::Windows), "CC:\\name");
    assert_eq!(join_path("1:", "name", Platform::Windows), "1:\\name");
    assert_eq!(join_path("C:", "name", Platform::Linux), "C:/name");
    assert_eq!(join_path("", "name", Platform::Mac), "name");
}

#[test]
fn a_repository_is_found_beside_the_launcher_or_in_its_bundle() {
    let exe = "/Applications/AzurLaneAutoScript.app/Contents/MacOS";
    let bundle = bundle_repo_dir(&path(exe), Platform::Mac).unwrap();
    assert_eq!(bundle.text, "/Applications/AzurLaneAutoScript.app/Contents/AzurLaneAutoScript");
    assert!(bundle_repo_dir(&path(exe), Platform::Linux).is_none());
    assert!(bundle_repo_dir(&path("/opt/alas"), Platform::Mac).is_none());

    let here = try_alas_repo_dir(path(exe), true, Some(bundle.clone()), true).unwrap();
    assert_eq!(here.text, exe);
    let there = try_alas_repo_dir(path(exe), false, Some(bundle.clone()), true).unwrap();
    assert_eq!(there.text, bundle.text);
    assert!(try_alas_repo_dir(path(exe), false, Some(bundle), false).is_none());
    assert!(try_alas_repo_dir(path(exe), false, None, false).is_none());
}

#[test]
fn a_setup_goes_through_its_steps() {
    assert_eq!(
        setup_alas_repo(SetupEvent::Begin),
        (SetupAction::CleanUp, Some("Cleaning up config files"))
    );
    assert_eq!(
        setup_alas_repo(SetupEvent::CleanedUp { ok: true }),
        (SetupAction::Update, Some("Updating ALAS"))
    );
    assert_eq!(
        setup_alas_repo(SetupEvent::Updated { ok: true }),
        (
            SetupAction::Limit,
            Some("Excluding webapp and webapp-tauri/src-tauri (dead shells)")
        )
    );
    assert_eq!(
        setup_alas_repo(SetupEvent::Limited),
        (SetupAction::Patch, Some("Applying control API patch"))
    );
    let patched = |outcome| setup_alas_repo(SetupEvent::Patched { outcome });
    assert_eq!(
        patched(Some(PatchOutcome::Applied)),
        (SetupAction::Done, Some("Control API patch applied"))
    );
    assert_eq!(
        patched(Some(PatchOutcome::AlreadyApplied)),
        (SetupAction::Done, Some("Control API patch already applied"))
    );
    assert_eq!(
        patched(Some(PatchOutcome::AnchorMismatch)),
        (
            SetupAction::Done,
            Some("Control API patch skipped (anchor mismatch; degraded mode)")
        )
    );
    assert_eq!(
        patched(None),
        (SetupAction::Done, Some("Control API patch failed (degraded mode)"))
    );
}

#[test]
fn a_setup_ends_where_cleanup_or_update_fail() {
    assert_eq!(setup_alas_repo(SetupEvent::CleanedUp { ok: false }), (SetupAction::Fail, None));
    assert_eq!(setup_alas_repo(SetupEvent::Updated { ok: false }), (SetupAction::Fail, None));
}
