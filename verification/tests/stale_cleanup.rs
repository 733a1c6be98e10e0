//! Leftover backends: which processes count, and how they are stopped.
use alas_launcher::platform::{OsPath, Platform};
use alas_launcher::stale_cleanup::{
    collect_raw_candidates, is_stale_candidate, is_suspected, kill_stale_alas,
    needs_second_listing, plan_round, truncate_cmd, Candidate, EvidenceKind, RoundPlan,
    StaleCleanupError, StaleProcessInfo, Surroundings, Sweep, SweepAction, CLEANUP_ROUNDS,
};

const REPO: &str = "/tmp/fake/AzurLaneAutoScript";
const PORT: u16 = 22267;

fn path(text: &str) -> OsPath {
    OsPath::from_slashes(text)
}

fn repo() -> OsPath {
    path(REPO)
}

fn toolkit_python() -> OsPath {
    path("/tmp/fake/AzurLaneAutoScript/toolkit/bin/python")
}

fn texts(items: &[&str]) -> Vec<String> {
    items.iter().map(|t| t.to_string()).collect()
}

fn cand(pid: u32, pgid: Option<u32>) -> Candidate {
    Candidate { pid, pgid, exe: None, cwd: None, environ: vec![], cmd: vec![], cmd_debug: "[]".into() }
}

fn gui_cmd() -> Vec<String> {
    texts(&["python", "gui.py", "--port", "22267"])
}

fn judge(
    c: &Candidate,
    repo: Option<&OsPath>,
    launcher_pid: u32,
    launcher_pgid: Option<u32>,
    registered: &[u32],
) -> Option<EvidenceKind> {
    is_stale_candidate(
        c,
        repo,
        PORT,
        launcher_pid,
        launcher_pgid,
        &registered.to_vec(),
        Platform::Linux,
    )
}

#[test]
fn f_anchor_blocks_shell_in_repo() {
    let r = repo();
    let c = Candidate {
        exe: Some(path("/bin/zsh")),
        cwd: Some(r.clone()),
        cmd: texts(&["zsh"]),
        ..cand(999, Some(1))
    };
    assert!(judge(&c, Some(&r), 1, None, &[]).is_none());
}

#[test]
fn e2_plus_f_passes() {
    let r = repo();
    let c = Candidate {
        exe: Some(toolkit_python()),
        cwd: Some(r.clone()),
        environ: texts(&["ALAS_LAUNCHER_PID=123"]),
        cmd: gui_cmd(),
        ..cand(100, Some(10))
    };
    assert_eq!(judge(&c, Some(&r), 1, None, &[]), Some(EvidenceKind::E2));
}

#[test]
fn x3_veto_overrides_f_e() {
    let r = repo();
    let c = Candidate {
        exe: Some(toolkit_python()),
        cwd: Some(r.clone()),
        cmd: gui_cmd(),
        ..cand(50, Some(10))
    };
    assert!(judge(&c, Some(&r), 1, None, &[50]).is_none());
}

#[test]
fn e1_cmdline_mentions_repo_wins_first() {
    let r = repo();
    let c = Candidate {
        exe: Some(toolkit_python()),
        cwd: Some(r.clone()),
        environ: texts(&["ALAS_LAUNCHER_PID=7"]),
        cmd: texts(&["python", REPO, "gui.py"]),
        ..cand(101, Some(11))
    };
    assert_eq!(judge(&c, Some(&r), 1, None, &[]), Some(EvidenceKind::E1));
}

#[test]
fn e3_cwd_equals_repo_when_no_cmdline_evidence() {
    let r = repo();
    let c = Candidate {
        exe: Some(toolkit_python()),
        cwd: Some(r.clone()),
        cmd: texts(&["python", "-c", "print(1)"]),
        ..cand(102, Some(12))
    };
    assert_eq!(judge(&c, Some(&r), 1, None, &[]), Some(EvidenceKind::E3));
}

#[test]
fn e4_environ_marker_alone_suffices() {
    let r = repo();
    let c = Candidate {
        exe: Some(toolkit_python()),
        cwd: Some(path("/elsewhere")),
        environ: texts(&["PATH=/usr/bin", "ALAS_LAUNCHER_PID=42"]),
        cmd: texts(&["python", "-m", "http.server"]),
        ..cand(103, Some(13))
    };
    assert_eq!(judge(&c, Some(&r), 1, None, &[]), Some(EvidenceKind::E4));
}

#[test]
fn x1_launcher_pid_never_killed() {
    let r = repo();
    let c = Candidate {
        exe: Some(toolkit_python()),
        cwd: Some(r.clone()),
        environ: texts(&["ALAS_LAUNCHER_PID=1"]),
        cmd: gui_cmd(),
        ..cand(77, Some(7))
    };
    assert!(judge(&c, Some(&r), 77, Some(7), &[]).is_none());
}

#[test]
fn x2_same_pgid_never_killed() {
    let r = repo();
    let c = Candidate {
        exe: Some(toolkit_python()),
        cwd: Some(r.clone()),
        environ: texts(&["ALAS_LAUNCHER_PID=1"]),
        cmd: gui_cmd(),
        ..cand(78, Some(5))
    };
    assert!(judge(&c, Some(&r), 1, Some(5), &[]).is_none());
}

#[test]
fn registered_pid_vetoed_even_with_evidence() {
    let r = repo();
    let c = Candidate {
        exe: Some(toolkit_python()),
        cwd: Some(r.clone()),
        environ: texts(&["ALAS_LAUNCHER_PID=1"]),
        cmd: gui_cmd(),
        ..cand(300, Some(30))
    };
    assert!(judge(&c, Some(&r), 1, None, &[300]).is_none());
}

#[test]
fn truncated_or_detached_port_args_do_not_match_e2() {
    let r = repo();
    let glued = Candidate {
        exe: Some(toolkit_python()),
        cwd: Some(path("/elsewhere")),
        cmd: texts(&["python", "gui.py", "--port=22267"]),
        ..cand(104, Some(14))
    };
    assert!(judge(&glued, Some(&r), 1, None, &[]).is_none());

    let wrong_value = Candidate {
        exe: Some(toolkit_python()),
        cwd: Some(path("/elsewhere")),
        cmd: texts(&["python", "gui.py", "--port", "9999"]),
        ..cand(105, Some(15))
    };
    assert!(judge(&wrong_value, Some(&r), 1, None, &[]).is_none());

    let truncated = Candidate {
        exe: Some(toolkit_python()),
        cwd: Some(path("/elsewhere")),
        cmd: texts(&["python", "gui.py", "--port"]),
        ..cand(106, Some(16))
    };
    assert!(judge(&truncated, Some(&r), 1, None, &[]).is_none());
}

#[test]
fn degraded_repo_mode_keeps_only_strong_e2() {
    let c = Candidate {
        exe: Some(path("/opt/other/python")),
        cmd: texts(&["python", "-x", "gui.py", "22267"]),
        ..cand(107, Some(17))
    };
    assert_eq!(judge(&c, None, 1, None, &[]), Some(EvidenceKind::E2));

    let r = repo();
    assert!(judge(&c, Some(&r), 1, None, &[]).is_none());

    let own = Candidate {
        exe: Some(path("/opt/other/python")),
        cmd: texts(&["python", "gui.py", "22267"]),
        ..cand(1, None)
    };
    assert!(judge(&own, None, 1, None, &[]).is_none());
}

#[test]
fn no_evidence_toolkit_exe_without_markers_is_spared() {
    let r = repo();
    let c = Candidate {
        exe: Some(toolkit_python()),
        cwd: Some(path("/home/user")),
        cmd: texts(&["python", "repl"]),
        ..cand(108, Some(18))
    };
    assert!(judge(&c, Some(&r), 1, None, &[]).is_none());
}

#[test]
fn collect_with_port_owner_none_uses_lb_lc_only() {
    let c = Candidate {
        exe: Some(toolkit_python()),
        cwd: Some(repo()),
        cmd: gui_cmd(),
        ..cand(100, Some(10))
    };
    let raw = collect_raw_candidates(22267, &vec![c], None, &vec![]);
    assert_eq!(raw.len(), 1);
    assert_eq!(raw[0].pid, 100);
}

#[test]
fn t4b_spoofed_cmdline_identity_via_injection() {
    let r = repo();
    let cand_ok = Candidate {
        exe: Some(toolkit_python()),
        cwd: Some(r.clone()),
        cmd: gui_cmd(),
        ..cand(1, Some(1))
    };
    assert!(judge(&cand_ok, Some(&r), 99, None, &[]).is_some());
    let cand_bad = Candidate {
        exe: Some(path("/usr/bin/python3")),
        cwd: Some(r.clone()),
        cmd: gui_cmd(),
        ..cand(2, Some(2))
    };
    assert!(judge(&cand_bad, Some(&r), 99, None, &[]).is_none());
}

fn lb_candidate(pid: u32, pgid: u32, exe: &str) -> Candidate {
    Candidate { exe: Some(path(exe)), cmd: gui_cmd(), ..cand(pid, Some(pgid)) }
}

fn surroundings(repo: &str) -> Surroundings {
    Surroundings {
        port: PORT,
        repo: Some(path(repo)),
        launcher_pid: 1,
        launcher_pgid: None,
        platform: Platform::Linux,
    }
}

/// What a whole cleanup has come to.
struct Outcome {
    result: Result<(), StaleCleanupError>,
    listings: usize,
    kills: usize,
    progress: Vec<String>,
}

/// Runs a cleanup against a table of processes that depends on the number of the listing.
fn run_sweep(
    at: Surroundings,
    max_rounds: u8,
    registered: &[u32],
    owner: Option<u32>,
    list: &dyn Fn(usize) -> Vec<Candidate>,
) -> Outcome {
    let registered = registered.to_vec();
    let (mut sweep, mut action) = Sweep::begin(at, max_rounds);
    let mut out = Outcome { result: Ok(()), listings: 0, kills: 0, progress: vec![] };
    loop {
        match action {
            SweepAction::Scan => {
                out.listings += 1;
                let all = list(out.listings);
                let fresh = if needs_second_listing(PORT, &all, owner) {
                    out.listings += 1;
                    list(out.listings)
                } else {
                    vec![]
                };
                let raw = collect_raw_candidates(PORT, &all, owner, &fresh);
                action = sweep.on_scan(&raw, owner, &registered);
            }
            SweepAction::Strike { pids, progress } => {
                out.kills += pids.len();
                out.progress.push(progress);
                action = sweep.on_strike();
            }
            SweepAction::Finish(result) => {
                out.result = result;
                return out;
            }
        }
    }
}

#[test]
fn raw_nonempty_all_filtered_no_port_owner_immediate_ok() {
    let out = run_sweep(surroundings("/tmp/fake"), 10, &[], None, &|_| {
        vec![Candidate {
            exe: Some(path("/bin/zsh")),
            cwd: Some(path("/tmp/fake")),
            cmd: texts(&["zsh"]),
            ..cand(10, Some(10))
        }]
    });
    assert!(out.result.is_ok());
    assert_eq!(out.kills, 0);
}

#[test]
fn first_round_empty_returns_ok_without_kills() {
    let out = run_sweep(surroundings(REPO), 10, &[], None, &|_| vec![]);
    assert!(out.result.is_ok());
    assert_eq!(out.listings, 1);
    assert_eq!(out.kills, 0);
    assert_eq!(out.progress.len(), 0);
}

#[test]
fn ten_round_survivors_x_veto_reports_survivors_error() {
    let out = run_sweep(surroundings(REPO), 10, &[300], Some(300), &|_| {
        vec![Candidate {
            exe: Some(toolkit_python()),
            cwd: Some(repo()),
            environ: texts(&["ALAS_LAUNCHER_PID=1"]),
            cmd: gui_cmd(),
            ..cand(300, Some(30))
        }]
    });
    match out.result {
        Err(StaleCleanupError::Survivors(v, rounds)) => {
            assert_eq!(rounds, 10);
            assert_eq!(v.len(), 1);
            assert_eq!(v[0].pid, 300);
            assert!(v[0].evidence.contains("X3 registered"));
        }
        other => panic!("expected Survivors, got {:?}", other.err().map(|e| e.to_string())),
    }
    assert_eq!(out.kills, 0);
}

#[test]
fn foreign_port_owner_zero_kill() {
    let out = run_sweep(surroundings(REPO), 10, &[], Some(500), &|_| {
        vec![lb_candidate(500, 50, "/usr/bin/python3")]
    });
    match out.result {
        Err(StaleCleanupError::ForeignPortOwner { port, pid, cmdline }) => {
            assert_eq!(port, 22267);
            assert_eq!(pid, 500);
            assert!(cmdline.contains("gui.py"));
            assert!(cmdline.chars().count() <= 200);
        }
        other => panic!("expected ForeignPortOwner, got {:?}", other.err().map(|e| e.to_string())),
    }
    assert_eq!(out.kills, 0);
}

#[test]
fn kill_err_retries_until_max_rounds_then_survivors() {
    let out = run_sweep(surroundings(REPO), 10, &[], None, &|_| {
        vec![lb_candidate(600, 60, "/tmp/fake/AzurLaneAutoScript/toolkit/bin/python")]
    });
    match out.result {
        Err(StaleCleanupError::Survivors(v, rounds)) => {
            assert_eq!(rounds, 10);
            assert_eq!(v.len(), 1);
            assert_eq!(v[0].pid, 600);
            assert_eq!(v[0].evidence, "verified survivor");
        }
        other => panic!("expected Survivors, got {:?}", other.err().map(|e| e.to_string())),
    }
    assert_eq!(out.kills, 10);
}

#[test]
fn second_round_vanish_returns_ok() {
    let out = run_sweep(surroundings(REPO), 10, &[], None, &|listing| {
        if listing == 1 {
            vec![lb_candidate(700, 70, "/tmp/fake/AzurLaneAutoScript/toolkit/bin/python")]
        } else {
            vec![]
        }
    });
    assert!(out.result.is_ok());
    assert_eq!(out.kills, 1);
}

#[test]
fn cmdline_truncated_to_200_chars() {
    let long = "x".repeat(500);
    let info =
        StaleProcessInfo { pid: 1, cmdline: truncate_cmd(&long), evidence: "E2".to_string() };
    assert!(info.cmdline.chars().count() <= 200);
    assert_eq!(info.cmdline.chars().count(), 200);

    let short = "gui.py --port 22267";
    assert_eq!(truncate_cmd(short), short);

    let multibyte = "舰".repeat(300);
    assert_eq!(truncate_cmd(&multibyte).chars().count(), 200);
}

#[test]
fn stale_cleanup_error_display_and_anyhow_conversion() {
    let survivors = StaleCleanupError::Survivors(
        vec![StaleProcessInfo {
            pid: 9,
            cmdline: "python gui.py".into(),
            evidence: "E4".into(),
        }],
        10,
    );
    assert!(survivors
        .to_string()
        .contains("Failed to clean up stale ALAS processes after 10 attempts"));
    assert!(survivors.to_string().contains("pid 9"));

    let foreign =
        StaleCleanupError::ForeignPortOwner { port: 22267, pid: 5, cmdline: "nginx".into() };
    assert!(foreign.to_string().contains("Port 22267 is occupied"));
    assert!(foreign.to_string().contains("pid 5"));

    fn takes_anyhow(e: StaleCleanupError) -> String {
        anyhow::Error::msg(e.to_string()).to_string()
    }
    assert!(takes_anyhow(foreign).contains("nginx"));
}

#[test]
fn command_lines_are_shown_with_spaces_and_raw_in_the_evidence() {
    let cmd_debug = r#"["a\"b", "it\'s\xFF"]"#;
    let raw = vec![Candidate {
        cmd: texts(&["a\"b", "it's\u{fffd}"]),
        cmd_debug: cmd_debug.into(),
        ..cand(300, Some(50))
    }];
    match plan_round(&raw, Some(300), &surroundings(REPO), &vec![300]) {
        RoundPlan::Strike { targets, blocked } => {
            assert!(targets.is_empty());
            let blocked = blocked.unwrap();
            assert_eq!(blocked.cmdline, "a\"b it's\u{fffd}");
            assert_eq!(blocked.evidence, format!("X3 registered F/E {cmd_debug}"));
        }
        other => panic!("expected a strike, got {other:?}"),
    }
}

#[test]
fn only_processes_of_the_web_interface_or_of_a_launcher_are_suspected() {
    assert!(is_suspected(&Candidate { cmd: gui_cmd(), ..cand(2, None) }, PORT));
    assert!(!is_suspected(&Candidate { cmd: gui_cmd(), ..cand(2, None) }, 9999));
    assert!(is_suspected(
        &Candidate { environ: texts(&["ALAS_LAUNCHER_PID=3"]), ..cand(2, None) },
        PORT
    ));
    assert!(!is_suspected(&Candidate { cmd: texts(&["zsh"]), ..cand(2, None) }, PORT));
}

#[test]
fn a_hidden_port_owner_is_looked_for_once_more() {
    let seen = vec![Candidate { cmd: texts(&["nginx"]), ..cand(5, None) }];
    assert!(!needs_second_listing(PORT, &seen, None));
    let unseen: Vec<Candidate> = vec![];
    assert!(needs_second_listing(PORT, &unseen, Some(5)));
    let raw = collect_raw_candidates(PORT, &unseen, Some(5), &seen);
    assert_eq!(raw.len(), 1);
    assert_eq!(raw[0].pid, 5);
    assert!(collect_raw_candidates(PORT, &unseen, Some(5), &unseen).is_empty());
}

#[test]
fn a_round_is_planned_from_what_is_there() {
    let at = surroundings(REPO);
    let none: Vec<Candidate> = vec![];
    assert!(matches!(plan_round(&none, None, &at, &vec![]), RoundPlan::Clear));
    let stale = vec![lb_candidate(600, 60, "/tmp/fake/AzurLaneAutoScript/toolkit/bin/python")];
    match plan_round(&stale, Some(600), &at, &vec![]) {
        RoundPlan::Strike { targets, blocked } => {
            assert_eq!(targets.len(), 1);
            assert!(blocked.is_none());
        }
        other => panic!("expected a strike, got {other:?}"),
    }
}

#[test]
fn a_cleanup_has_ten_rounds() {
    let (sweep, action) = kill_stale_alas(surroundings(REPO));
    assert_eq!(sweep.max_rounds, CLEANUP_ROUNDS);
    assert_eq!(CLEANUP_ROUNDS, 10);
    assert!(matches!(action, SweepAction::Scan));
}

#[test]
fn vetoes_are_named_in_the_report() {
    let own = |pid: u32, pgid: Option<u32>| {
        vec![Candidate { exe: Some(toolkit_python()), cmd: gui_cmd(), ..cand(pid, pgid) }]
    };
    let mut at = surroundings(REPO);
    at.launcher_pgid = Some(40);
    match plan_round(&own(1, None), Some(1), &at, &vec![]) {
        RoundPlan::Strike { targets, blocked } => {
            assert!(targets.is_empty());
            assert!(blocked.unwrap().evidence.contains("X1"));
        }
        other => panic!("expected a strike, got {other:?}"),
    }
    match plan_round(&own(8, Some(40)), Some(8), &at, &vec![]) {
        RoundPlan::Strike { blocked, .. } => assert!(blocked.unwrap().evidence.contains("X2")),
        other => panic!("expected a strike, got {other:?}"),
    }
}

#[test]
fn the_program_alone_is_evidence_on_windows() {
    let r = repo();
    let c = Candidate {
        exe: Some(toolkit_python()),
        cwd: Some(path("/elsewhere")),
        cmd: texts(&["python", "-c", "print(1)"]),
        ..cand(102, Some(12))
    };
    assert_eq!(
        is_stale_candidate(&c, Some(&r), PORT, 1, None, &vec![], Platform::Windows),
        Some(EvidenceKind::E3)
    );
    assert_eq!(judge(&c, Some(&r), 1, None, &[]), None);
}
