use ocean_tui::input::{handle_key, Action, Key};
use ocean_tui::process::{exit_event, tag_stderr};
use ocean_tui::state::{init_state, Event, InputMode};
use ocean_tui::text::{i64_to_string, u64_to_string};

fn type_text(s: &mut ocean_tui::state::AppState, text: &str, read_only: bool) -> Action {
    let mut last = handle_key(s, Key::Char(':'), read_only);
    for c in text.chars() {
        last = handle_key(s, Key::Char(c), read_only);
    }
    let _ = last;
    handle_key(s, Key::Enter, read_only)
}

#[test]
fn quit_only_in_normal_mode() {
    let mut s = init_state();
    assert!(matches!(handle_key(&mut s, Key::Char('q'), false), Action::Quit));
    handle_key(&mut s, Key::Char(':'), false);
    assert!(matches!(handle_key(&mut s, Key::Char('q'), false), Action::Continue));
    assert_eq!(s.input, "q");
}

#[test]
fn toggles_flip_visibility() {
    let mut s = init_state();
    handle_key(&mut s, Key::Char('s'), false);
    assert!(!s.show_sidebar);
    handle_key(&mut s, Key::Char('s'), false);
    assert!(s.show_sidebar);
    handle_key(&mut s, Key::Char('b'), false);
    assert!(!s.show_backlog);
    handle_key(&mut s, Key::Char('l'), false);
    assert!(!s.show_logs);
}

#[test]
fn help_appends_chat_line() {
    let mut s = init_state();
    let before = s.chat.len();
    handle_key(&mut s, Key::Char('?'), false);
    assert_eq!(s.chat.len(), before + 1);
    assert!(s.chat[before].contains("q quit"));
}

#[test]
fn pagedown_from_zero_stays_zero() {
    let mut s = init_state();
    for _ in 0..10 {
        handle_key(&mut s, Key::PageDown, false);
        assert_eq!(s.chat_scroll, 0);
    }
}

#[test]
fn pageup_grows_without_cap() {
    let mut s = init_state();
    for i in 1..=50usize {
        handle_key(&mut s, Key::PageUp, false);
        assert_eq!(s.chat_scroll, 3 * i);
    }
    handle_key(&mut s, Key::PageDown, false);
    assert_eq!(s.chat_scroll, 147);
}

#[test]
fn buffer_editing() {
    let mut s = init_state();
    handle_key(&mut s, Key::Char(':'), false);
    assert_eq!(s.input_mode, InputMode::CommandEntry);
    assert_eq!(s.input, "");
    handle_key(&mut s, Key::Char('a'), false);
    handle_key(&mut s, Key::Char('b'), false);
    assert_eq!(s.input, "ab");
    handle_key(&mut s, Key::Backspace, false);
    assert_eq!(s.input, "a");
    handle_key(&mut s, Key::Backspace, false);
    handle_key(&mut s, Key::Backspace, false);
    assert_eq!(s.input, "");
}

#[test]
fn escape_discards_buffer_and_resets_status() {
    let mut s = init_state();
    s.status = "Running: x".to_string();
    handle_key(&mut s, Key::Char(':'), false);
    handle_key(&mut s, Key::Char('z'), false);
    handle_key(&mut s, Key::Esc, false);
    assert_eq!(s.input_mode, InputMode::Normal);
    assert_eq!(s.input, "");
    assert_eq!(s.status, "Ready");
}

#[test]
fn submit_dispatches_and_echoes() {
    let mut s = init_state();
    let a = type_text(&mut s, "stage", false);
    match a {
        Action::Dispatch(inv) => {
            assert_eq!(inv.program, "ocean");
            assert_eq!(inv.args, vec!["deploy".to_string(), "--no-dry-run".to_string()]);
        },
        _ => panic!("expected a dispatch"),
    }
    assert_eq!(s.input_mode, InputMode::Normal);
    assert_eq!(s.input, "");
    assert_eq!(s.status, "Running: stage");
    assert_eq!(s.chat.last().unwrap(), "\u{2192} stage");
}

#[test]
fn read_only_never_dispatches() {
    let mut s = init_state();
    for text in ["stage", "plan", "release --push", "rm -rf /tmp/x", "prd: doc"] {
        let a = type_text(&mut s, text, true);
        assert!(matches!(a, Action::Continue));
        assert_eq!(s.input_mode, InputMode::Normal);
        assert_eq!(s.input, "");
        assert_eq!(s.chat.last().unwrap(), "(read-only)");
    }
}

#[test]
fn exit_event_formats_code() {
    match exit_event(Some(0)) {
        Event::SetStatus(msg) => assert_eq!(msg, "Command exited with status 0"),
        _ => panic!("wrong event kind"),
    }
    match exit_event(None) {
        Event::SetStatus(msg) => assert_eq!(msg, "Command exited with status -1"),
        _ => panic!("wrong event kind"),
    }
    match exit_event(Some(127)) {
        Event::SetStatus(msg) => assert_eq!(msg, "Command exited with status 127"),
        _ => panic!("wrong event kind"),
    }
}

#[test]
fn stderr_lines_are_tagged() {
    assert_eq!(tag_stderr("boom"), "[stderr] boom");
}

#[test]
fn decimal_rendering() {
    assert_eq!(u64_to_string(0), "0");
    assert_eq!(u64_to_string(10), "10");
    assert_eq!(u64_to_string(987654321), "987654321");
    assert_eq!(i64_to_string(-42), "-42");
    assert_eq!(i64_to_string(7), "7");
    assert_eq!(i64_to_string(i64::MIN), "-9223372036854775808");
}
