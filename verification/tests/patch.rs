//! The patch of the backend.
use alas_launcher::patch::{
    inject_api_init, is_already_patched, verify_anchor, InjectError, PatchAction, PatchEvent,
    PatchOutcome, Patcher, ANCHOR_DEF, ANCHOR_INCLUDE, INJECT_INCLUDE, MARKER,
};

const PRISTINE: &str = r#""""FastAPI-based REST + SSE API for the Svelte SPA frontend."""

import os
import threading

from fastapi import FastAPI

from module.webui.api.routers import config, control, events, i18n, remote, scheduler, schema, status, theme, updater
from module.webui.setting import State


def create_api_app() -> FastAPI:
    app = FastAPI(title="Alas API")

    app.include_router(status.router)
    app.include_router(events.router)

    return app
"#;

/// The two files that a patch touches, and whether they can be written.
struct Files {
    api_init: Option<String>,
    module: bool,
    module_writable: bool,
    init_writable: bool,
}

impl Files {
    fn with(api_init: Option<&str>) -> Files {
        Files {
            api_init: api_init.map(String::from),
            module: false,
            module_writable: true,
            init_writable: true,
        }
    }
}

/// Runs a whole patch on the files.
fn apply(patcher: &mut Patcher, files: &mut Files) -> Result<PatchOutcome, ()> {
    let mut event = PatchEvent::Read { api_init: files.api_init.clone() };
    loop {
        event = match patcher.apply_patch(event) {
            PatchAction::WriteModule => {
                files.module = files.module_writable;
                PatchEvent::ModuleWritten { ok: files.module_writable }
            }
            PatchAction::WriteInit { content } => {
                if files.init_writable {
                    files.api_init = Some(content);
                }
                PatchEvent::InitWritten { ok: files.init_writable }
            }
            PatchAction::Done(outcome) => return Ok(outcome),
            PatchAction::Fail => return Err(()),
        };
    }
}

#[test]
fn pristine_api_init_passes_anchor() {
    assert!(verify_anchor(PRISTINE));
}

#[test]
fn missing_anchor_fails_verify() {
    assert!(!verify_anchor("def something_else():\n    pass\n"));
}

#[test]
fn missing_include_anchor_fails_injection() {
    let partial = PRISTINE.replace("    app.include_router(events.router)\n", "");
    assert!(!partial.contains(ANCHOR_INCLUDE));
    assert!(inject_api_init(&partial).is_err());
}

#[test]
fn patched_api_init_is_detected_already_applied() {
    let patched = format!("{PRISTINE}\n{MARKER}\nfrom module.webui.control_api import router as alas_control_router\n");
    assert!(is_already_patched(&patched));
}

#[test]
fn injected_content_registers_router_before_return() {
    let out = inject_api_init(PRISTINE).unwrap();
    assert!(out.contains("from module.webui.control_api import router as alas_control_router"));
    assert!(out.contains(INJECT_INCLUDE));
    let include_pos = out.find("app.include_router(alas_control_router)").unwrap();
    let return_pos = out.find("    return app").unwrap();
    assert!(include_pos < return_pos);
    let import_pos = out.find("from module.webui.control_api import router").unwrap();
    let def_pos = out.find(ANCHOR_DEF).unwrap();
    assert!(import_pos < def_pos);
}

#[test]
fn apply_patch_is_idempotent_and_writes_both_files() {
    let mut patcher = Patcher::new();
    let mut files = Files::with(Some(PRISTINE));
    let first = apply(&mut patcher, &mut files).expect("first apply");
    assert_eq!(first, PatchOutcome::Applied);
    assert!(files.module);
    assert!(files.api_init.as_ref().unwrap().contains(MARKER));

    let second = apply(&mut patcher, &mut files).expect("second apply");
    assert_eq!(second, PatchOutcome::AlreadyApplied);
    assert_eq!(files.api_init.unwrap().matches(MARKER).count(), 1);
}

#[test]
fn apply_patch_on_mismatched_anchor_degrades_not_blocks() {
    let mut patcher = Patcher::new();
    let mut files = Files::with(Some("def something_else():\n    pass\n"));
    assert_eq!(apply(&mut patcher, &mut files).unwrap(), PatchOutcome::AnchorMismatch);
    assert!(patcher.patch_failed());
    assert!(!files.module);
}

#[test]
fn apply_patch_write_failure_is_fail_closed() {
    let mut patcher = Patcher::new();
    let mut files = Files::with(Some(PRISTINE));
    files.module_writable = false;
    assert!(apply(&mut patcher, &mut files).is_err());
    assert!(patcher.patch_failed());
    assert_eq!(files.api_init.as_deref(), Some(PRISTINE));

    let mut patcher = Patcher::new();
    let mut files = Files::with(Some(PRISTINE));
    files.init_writable = false;
    assert!(apply(&mut patcher, &mut files).is_err());
    assert!(patcher.patch_failed());
}

#[test]
fn apply_patch_read_failure_is_fail_closed() {
    let mut patcher = Patcher::new();
    let mut files = Files::with(None);
    assert!(apply(&mut patcher, &mut files).is_err());
    assert!(patcher.patch_failed());
}

#[test]
fn an_injection_says_why_it_fails() {
    let partial = PRISTINE.replace("    app.include_router(events.router)\n", "");
    assert_eq!(inject_api_init(&partial).unwrap_err(), InjectError::AnchorMismatch);
    assert_eq!(inject_api_init("").unwrap_err(), InjectError::AnchorMismatch);
    let once = inject_api_init(PRISTINE).unwrap();
    assert_eq!(inject_api_init(&once).unwrap_err(), InjectError::AlreadyPatched);
}

#[test]
fn an_injection_goes_below_the_last_registration_and_only_adds() {
    let twice = PRISTINE.replace(
        "    app.include_router(events.router)\n",
        "    app.include_router(events.router)\n    x = 1\n    app.include_router(events.router)\n",
    );
    let out = inject_api_init(&twice).unwrap();
    let added = out.find(INJECT_INCLUDE).unwrap();
    assert!(added > out.rfind(ANCHOR_INCLUDE).unwrap());
    let without: Vec<&str> = out
        .lines()
        .filter(|l| !l.contains("alas_control_router") && !l.contains(MARKER))
        .filter(|l| !l.is_empty())
        .collect();
    let before: Vec<&str> = twice.lines().filter(|l| !l.is_empty()).collect();
    assert_eq!(without, before);
}

#[test]
fn a_failure_stays_marked() {
    let mut patcher = Patcher::new();
    assert!(!patcher.patch_failed());
    assert!(apply(&mut patcher, &mut Files::with(None)).is_err());
    assert!(patcher.patch_failed());
    let mut files = Files::with(Some(PRISTINE));
    assert_eq!(apply(&mut patcher, &mut files).unwrap(), PatchOutcome::Applied);
    assert!(patcher.patch_failed());
    let mut fresh = Patcher::new();
    assert_eq!(apply(&mut fresh, &mut files).unwrap(), PatchOutcome::AlreadyApplied);
    assert!(!fresh.patch_failed());
}
