//! The update of the repository: its output, and what is made of it.
use alas_launcher::update::{
    bar_has_room, find_percentage, git_update_message, LineSplitter, Silence, UpdateRun, BAR,
    UPDATE_TIMED_OUT,
};

#[test]
fn test_find_percentage() {
    assert_eq!(Some(8), find_percentage("8%"));
    assert_eq!(Some(25), find_percentage("loading 25%..."));
    assert_eq!(Some(100), find_percentage("100%..."));
    assert_eq!(None, find_percentage("%1"));
}

/// The number at the end of what stands before the first percent sign, in single precision.
fn by_floats(s: &str) -> Option<u8> {
    let before = s.split('%').next().unwrap();
    let number = before.rsplit(|c: char| !c.is_ascii_digit() && c != '.').next().unwrap();
    number.parse::<f32>().ok().map(|v| v.round().clamp(0.0, 255.0) as u8)
}

#[test]
fn percentages_are_rounded_in_single_precision() {
    for text in [
        "0%", "0.4%", "0.5%", "1.5%", "2.5%", "99.5%", "99.49%", "99.4999999%", "49.99999999%",
        "0.49999997%", "0.49999999%", "254.5%", "255%", "256%", "1000%", "12.%", "007%",
        "33.333333333333333333333333333333%", "16777216.5%", "0.000000000000000000000000001%",
        "99999999999999999999999999999999999999999999%",
    ] {
        assert_eq!(find_percentage(text), by_floats(text), "{text}");
    }
    for text in [".5%", ".%", "1.2.3%", "", "%", "12", "a-3%", "x 7.25", "1e3%"] {
        assert_eq!(find_percentage(text), by_floats(text), "{text}");
    }
    for i in 0..3000u32 {
        let text = format!("{}.{:08}%", i / 10, 49_999_990 + i % 20);
        assert_eq!(find_percentage(&text), by_floats(&text), "{text}");
    }
}

#[test]
fn lines_end_at_either_sign() {
    let mut s = LineSplitter::new();
    assert_eq!(s.pipe_lines(b"one\ntwo\rthr"), vec!["one", "two"]);
    assert_eq!(s.pipe_lines(b"ee\n"), vec!["three"]);
    assert_eq!(s.finish(), None);
}

#[test]
fn what_stands_behind_the_last_line_is_not_lost() {
    let mut s = LineSplitter::new();
    assert!(s.pipe_lines(b"almost").is_empty());
    assert_eq!(s.finish(), Some("almost".to_string()));
}

#[test]
fn reading_in_parts_makes_no_difference() {
    let all = b"a\r\nb\n\nc 50%\rd";
    let mut whole = LineSplitter::new();
    let lines = whole.pipe_lines(all);
    for cut in 0..all.len() {
        let mut parts = LineSplitter::new();
        let mut seen = parts.pipe_lines(&all[..cut]);
        seen.extend(parts.pipe_lines(&all[cut..]));
        assert_eq!(seen, lines);
    }
}

#[test]
fn a_report_that_is_written_over_the_last_one_is_a_line_of_its_own() {
    let mut s = LineSplitter::new();
    let lines = s.pipe_lines(b"Receiving objects: 1%Receiving objects: 2%\r");
    assert_eq!(lines, vec!["Receiving objects: 1%", "Receiving objects: 2%"]);
}

#[test]
fn a_bar_shows_how_far_the_update_has_come() {
    assert_eq!(
        git_update_message("Receiving objects:  50% (5/10) "),
        Some(format!(
            "Updating ALAS: Receiving objects:  50% (5/10)\n[{}{}]",
            "=".repeat(25),
            " ".repeat(25)
        ))
    );
    assert_eq!(
        git_update_message("Resolving deltas: 100%"),
        Some(format!("Updating ALAS: Resolving deltas: 100%\n[{}]", "=".repeat(BAR)))
    );
    assert_eq!(
        git_update_message("===== Update ====="),
        Some("Updating ALAS: Update".to_string())
    );
    assert_eq!(git_update_message("nothing of interest"), None);
    assert!(bar_has_room("Updating files: 101%"));
    assert!(bar_has_room("no percentage"));
    assert!(bar_has_room("150%"));
    assert!(!bar_has_room("Updating files: 102%"));
}

#[test]
fn an_update_that_fails_reports_its_last_error() {
    let mut run = UpdateRun::new();
    run.on_line(false, "fine".to_string());
    run.on_line(true, "first".to_string());
    run.on_line(true, "second".to_string());
    run.on_line(false, "fine again".to_string());
    assert_eq!(run.on_exit(false).unwrap_err(), "second");
    assert_eq!(UpdateRun::new().on_exit(false).unwrap_err(), "Failed to update repository");
    let mut run = UpdateRun::new();
    run.on_line(true, "warning".to_string());
    assert!(run.on_exit(true).is_ok());
}

#[test]
fn an_update_that_stays_silent_is_killed() {
    let run = UpdateRun::new();
    assert_eq!(run.on_deadline(true), Silence::Collect);
    assert_eq!(run.on_deadline(false), Silence::Kill);
    assert_eq!(UPDATE_TIMED_OUT, "Repository update timed out after 600s");
}
