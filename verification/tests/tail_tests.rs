use ocean_tui::state::{apply_events, init_state, Event};
use ocean_tui::tail::{
    approvals_of, backlog_event, backlog_summary, select_latest_log, tail_events, tail_window,
};
use ocean_tui::text::{split_lines, split_ws, str_trim};

#[test]
fn window_keeps_last_lines() {
    let lines: Vec<String> = (0..250).map(|i| format!("line {}", i)).collect();
    let w = tail_window(&lines);
    assert_eq!(w.len(), 200);
    assert_eq!(w[0], "line 50");
    assert_eq!(w[199], "line 249");
}

#[test]
fn window_of_short_input_is_unchanged() {
    let lines = vec!["a".to_string(), "b".to_string()];
    assert_eq!(tail_window(&lines), lines);
}

#[test]
fn approvals_picks_marked_lines_in_order() {
    let lines = vec![
        "ok".to_string(),
        "[ASK] may I?".to_string(),
        "noise".to_string(),
        "x [APPROVAL] y".to_string(),
    ];
    let a = approvals_of(&lines);
    assert_eq!(a, vec!["[ASK] may I?".to_string(), "x [APPROVAL] y".to_string()]);
}

#[test]
fn approvals_empty_when_nothing_marked() {
    let lines = vec!["plain".to_string(), "ASK without brackets".to_string()];
    assert!(approvals_of(&lines).is_empty());
}

#[test]
fn poll_without_markers_keeps_previous_approvals() {
    // Poll one finds two marked lines, poll two finds none: the approvals
    // list after poll two still equals poll one's list.
    let mut s = init_state();
    let poll1 = "[ASK] first\nmiddle\n[APPROVAL] second\n";
    let poll2 = "quiet\nnothing here\n";
    apply_events(&mut s, tail_events(poll1));
    assert_eq!(
        s.approvals,
        vec!["[ASK] first".to_string(), "[APPROVAL] second".to_string()]
    );
    apply_events(&mut s, tail_events(poll2));
    assert_eq!(
        s.approvals,
        vec!["[ASK] first".to_string(), "[APPROVAL] second".to_string()]
    );
    assert_eq!(s.logs, vec!["quiet".to_string(), "nothing here".to_string()]);
}

#[test]
fn poll_without_markers_emits_single_event() {
    let evs = tail_events("a\nb\n");
    assert_eq!(evs.len(), 1);
    assert!(matches!(evs[0], Event::ReplaceLogs(_)));
}

#[test]
fn latest_log_is_lexicographically_greatest() {
    let names = vec![
        "session-2021.log".to_string(),
        "notes.txt".to_string(),
        "session-2023.log".to_string(),
        "session-2022.log".to_string(),
    ];
    assert_eq!(select_latest_log(&names), Some("session-2023.log".to_string()));

    // The same names in another order select the same file.
    let mut rev = names.clone();
    rev.reverse();
    assert_eq!(select_latest_log(&rev), Some("session-2023.log".to_string()));
}

#[test]
fn no_matching_name_selects_none() {
    let names = vec!["other.log".to_string(), "session-x.txt".to_string()];
    assert_eq!(select_latest_log(&names), None);
    assert_eq!(select_latest_log(&Vec::new()), None);
}

#[test]
fn summary_counts_bytes() {
    assert_eq!(backlog_summary(0), "0 bytes loaded");
    assert_eq!(backlog_summary(1234), "1234 bytes loaded");
    match backlog_event(17) {
        Event::ReplaceBacklog(lines) => assert_eq!(lines, vec!["17 bytes loaded".to_string()]),
        _ => panic!("wrong event kind"),
    }
}

#[test]
fn lines_split_and_strip_carriage_returns() {
    assert_eq!(
        split_lines("a\nb\r\nc"),
        vec!["a".to_string(), "b".to_string(), "c".to_string()]
    );
    assert_eq!(split_lines("a\n\nb\n"), vec!["a".to_string(), "".to_string(), "b".to_string()]);
    assert_eq!(split_lines(""), Vec::<String>::new());
}

#[test]
fn trim_and_split_ws() {
    assert_eq!(str_trim("  padded  "), "padded");
    assert_eq!(str_trim("\t\n"), "");
    assert_eq!(
        split_ws("  one  two\tthree "),
        vec!["one".to_string(), "two".to_string(), "three".to_string()]
    );
    assert_eq!(split_ws("   "), Vec::<String>::new());
}

#[test]
fn unicode_whitespace_is_recognized() {
    // No-break space, em space and ideographic space trim and split like
    // ASCII whitespace does.
    assert_eq!(str_trim("\u{A0}x\u{3000}"), "x");
    assert_eq!(
        split_ws("a\u{A0}b\u{2003}c"),
        vec!["a".to_string(), "b".to_string(), "c".to_string()]
    );
    let inv = ocean_tui::router::route("prd:\u{A0}Build X\u{A0}");
    assert_eq!(inv.prd_write, Some("Build X\n".to_string()));
}
