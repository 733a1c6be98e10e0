//! Process groups, and who owns a port.
use alas_launcher::backend::{termination, GroupKill, TermAction, TermEvent};
use alas_launcher::child_process::port::{
    is_same_process_group, parse_lsof_owner, parse_netstat_owner, parse_ss_owner, port_owner_pid,
    probe_command, Kinship, ANCESTORS_MAX,
};
use alas_launcher::child_process::{
    is_registered, kill_process_group, kill_registered_groups, register_for_exit,
    unregister_for_exit, wait_with_timeout, KillEvent, KillStep, WaitStep, WAIT_PAUSE_MS,
};
use alas_launcher::platform::Platform;

#[test]
fn parse_lsof_owner_lines() {
    assert_eq!(parse_lsof_owner("12345\n"), Some(12345));
    assert_eq!(parse_lsof_owner("12345\n67890\n"), Some(12345));
    assert_eq!(parse_lsof_owner(""), None);
    assert_eq!(parse_lsof_owner("garbage\n"), None);
}

#[test]
fn parse_ss_owner_ports() {
    let line = "LISTEN 0 128 127.0.0.1:22267 0.0.0.0:* users:((\"python\",pid=12345,fd=5))";
    assert_eq!(parse_ss_owner(line, 22267), Some(12345));
    assert_eq!(parse_ss_owner(line, 22268), None);
    assert_eq!(parse_ss_owner("LISTEN 0 128 127.0.0.1:22267 0.0.0.0:*", 22267), None);
    assert_eq!(parse_ss_owner("", 22267), None);
}

#[test]
fn parse_netstat_owner_rows() {
    let listening = "  TCP    127.0.0.1:22267    0.0.0.0:0    LISTENING    12345";
    assert_eq!(parse_netstat_owner(listening, 22267), Some(12345));
    let time_wait = "  TCP    127.0.0.1:22267    127.0.0.1:54321    TIME_WAIT    0";
    assert_eq!(parse_netstat_owner(time_wait, 22267), None);
    assert_eq!(parse_netstat_owner(listening, 22266), None);
    assert_eq!(parse_netstat_owner("", 22267), None);
}

#[test]
fn is_same_process_group_membership() {
    let me = 4711;
    let pgid = 4700;
    let unknown = Kinship::Groups { own: None, leader: None };
    assert!(is_same_process_group(me, me, &unknown));
    assert!(is_same_process_group(
        me,
        pgid,
        &Kinship::Groups { own: Some(pgid), leader: Some(pgid) }
    ));
    assert!(!is_same_process_group(
        99_999_999,
        me,
        &Kinship::Groups { own: None, leader: Some(pgid) }
    ));
}

#[test]
fn exit_registry_register_and_unregister() {
    let mut registry = vec![];
    register_for_exit(&mut registry, 10);
    assert_eq!(kill_registered_groups(&mut registry), vec![10]);
    assert!(registry.is_empty());
    register_for_exit(&mut registry, 11);
    unregister_for_exit(&mut registry, 11);
    assert!(
        kill_registered_groups(&mut registry).is_empty(),
        "unregistered group must survive kill_registered_groups()"
    );
}

#[test]
fn registry_wiring_spawn_terminate() {
    let pid = 4711;
    let mut registry = vec![];
    register_for_exit(&mut registry, pid);
    assert!(
        is_registered(&registry, pid),
        "registered child must appear in the exit registry"
    );
    match termination(TermEvent::Swept(GroupKill::NoSuchGroup)) {
        TermAction::Done { unregister: true } => unregister_for_exit(&mut registry, pid),
        other => panic!("the group is gone: {other:?}"),
    }
    assert!(
        !is_registered(&registry, pid),
        "terminate must unregister the child after a successful group kill"
    );
}

#[test]
fn a_registry_keeps_the_others() {
    let mut registry = vec![1, 2, 1, 3];
    unregister_for_exit(&mut registry, 1);
    assert_eq!(registry, vec![2, 3]);
    unregister_for_exit(&mut registry, 1);
    assert_eq!(registry, vec![2, 3]);
    assert!(is_registered(&registry, 3));
    assert!(!is_registered(&registry, 1));
}

#[test]
fn descent_stands_in_for_a_group() {
    let kin = Kinship::Parents(vec![(5, 4), (4, 3), (3, 1)]);
    assert!(is_same_process_group(5, 3, &kin));
    assert!(is_same_process_group(5, 1, &kin));
    assert!(!is_same_process_group(5, 9, &kin));
    assert!(!is_same_process_group(1, 5, &kin));
    let ring = Kinship::Parents(vec![(7, 8), (8, 7)]);
    assert!(!is_same_process_group(7, 9, &ring));
    let chain: Vec<(u32, u32)> = (0..200).map(|i| (i + 1, i)).collect();
    let start = ANCESTORS_MAX + 10;
    let kin = Kinship::Parents(chain);
    assert!(is_same_process_group(start, start - ANCESTORS_MAX, &kin));
    assert!(!is_same_process_group(start, start - ANCESTORS_MAX - 1, &kin));
}

#[test]
fn each_platform_has_its_own_probe() {
    assert_eq!(
        probe_command(22267, Platform::Mac),
        vec!["lsof", "-tiTCP:22267", "-sTCP:LISTEN"]
    );
    assert_eq!(
        probe_command(22267, Platform::Linux),
        vec!["ss", "-ltnp", "sport = :22267"]
    );
    assert_eq!(probe_command(22267, Platform::Windows), vec!["netstat", "-ano"]);
    assert_eq!(port_owner_pid(22267, Platform::Mac, Some("12\n")), Some(12));
    let ss = "LISTEN 0 1 127.0.0.1:22267 0.0.0.0:* users:((\"p\",pid=13,fd=5))";
    assert_eq!(port_owner_pid(22267, Platform::Linux, Some(ss)), Some(13));
    let netstat = "  TCP    127.0.0.1:22267    0.0.0.0:0    LISTENING    14";
    assert_eq!(port_owner_pid(22267, Platform::Windows, Some(netstat)), Some(14));
    assert_eq!(port_owner_pid(22267, Platform::Windows, None), None);
}

#[test]
fn numbers_that_are_no_process_are_refused() {
    assert_eq!(parse_lsof_owner("4294967295\n"), Some(u32::MAX));
    assert_eq!(parse_lsof_owner("4294967296\n"), None);
    assert_eq!(parse_lsof_owner("-1\n"), None);
    assert_eq!(parse_ss_owner("x:1 y pid=,fd", 1), None);
}

#[test]
fn wait_with_timeout_returns_status_when_child_exits() {
    let mut looks = vec![false, false, true].into_iter();
    let mut now = 0;
    let end = loop {
        match wait_with_timeout(looks.next().unwrap(), now, 5_000) {
            WaitStep::Pause => now += WAIT_PAUSE_MS,
            end => break end,
        }
    };
    assert_eq!(end, WaitStep::Exited);
    assert_eq!(now, 2 * WAIT_PAUSE_MS);
}

#[test]
fn wait_with_timeout_kills_group_and_errors() {
    let mut now = 0;
    let end = loop {
        match wait_with_timeout(false, now, 300) {
            WaitStep::Pause => now += WAIT_PAUSE_MS,
            end => break end,
        }
    };
    assert_eq!(end, WaitStep::Kill);
    assert_eq!(now, 300);
}

#[test]
fn a_child_is_waited_for_until_its_time_is_up() {
    assert_eq!(wait_with_timeout(true, 100, 50), WaitStep::Exited);
    assert_eq!(wait_with_timeout(false, 49, 50), WaitStep::Pause);
    assert_eq!(wait_with_timeout(false, 50, 50), WaitStep::Kill);
}

#[test]
fn a_group_is_signalled_until_that_is_accepted() {
    assert_eq!(kill_process_group(KillEvent::Looked { gone: true }, 50), KillStep::Over);
    assert_eq!(kill_process_group(KillEvent::Looked { gone: false }, 50), KillStep::Signal);
    let signalled = |accepted, now| kill_process_group(KillEvent::Signalled { accepted, now }, 50);
    assert_eq!(signalled(true, 60), KillStep::Settle);
    assert_eq!(signalled(false, 49), KillStep::Pause);
    assert_eq!(signalled(false, 50), KillStep::Over);
}
