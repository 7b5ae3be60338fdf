use ocean_tui::state::{apply_event, apply_events, init_state, Event, InputMode};

#[test]
fn initial_placeholders() {
    let s = init_state();
    assert_eq!(s.backlog, vec!["(empty)".to_string()]);
    assert!(s.logs.is_empty());
    assert!(s.approvals.is_empty());
    assert_eq!(s.status, "Ready");
    assert_eq!(s.input, "");
    assert_eq!(s.input_mode, InputMode::Normal);
    assert_eq!(s.chat_scroll, 0);
    assert_eq!(s.spinner, 0);
    assert!(s.show_sidebar && s.show_backlog && s.show_logs);
    assert_eq!(s.queues.len(), 3);
}

#[test]
fn no_events_change_nothing() {
    // With nothing delivered, backlog, logs and approvals keep their
    // initial placeholder values.
    let mut s = init_state();
    apply_events(&mut s, Vec::new());
    assert_eq!(s.backlog, vec!["(empty)".to_string()]);
    assert!(s.logs.is_empty());
    assert!(s.approvals.is_empty());
    assert_eq!(s.status, "Ready");
}

#[test]
fn append_chat_appends() {
    let mut s = init_state();
    let before = s.chat.len();
    apply_event(&mut s, Event::AppendChat("hello".to_string()));
    assert_eq!(s.chat.len(), before + 1);
    assert_eq!(s.chat[before], "hello");
}

#[test]
fn set_status_overwrites() {
    let mut s = init_state();
    apply_event(&mut s, Event::SetStatus("Busy".to_string()));
    assert_eq!(s.status, "Busy");
    apply_event(&mut s, Event::SetStatus("Done".to_string()));
    assert_eq!(s.status, "Done");
}

#[test]
fn replace_events_replace_wholesale() {
    let mut s = init_state();
    apply_event(&mut s, Event::ReplaceBacklog(vec!["12 bytes loaded".to_string()]));
    assert_eq!(s.backlog, vec!["12 bytes loaded".to_string()]);
    apply_event(&mut s, Event::ReplaceLogs(vec!["l1".to_string(), "l2".to_string()]));
    assert_eq!(s.logs, vec!["l1".to_string(), "l2".to_string()]);
    apply_event(&mut s, Event::ReplaceApprovals(vec!["[ASK] go?".to_string()]));
    assert_eq!(s.approvals, vec!["[ASK] go?".to_string()]);
}

#[test]
fn tick_cycles_phase_within_bounds() {
    let mut s = init_state();
    assert_eq!(s.spinner, 0);
    let mut seen = Vec::new();
    for _ in 0..9 {
        apply_event(&mut s, Event::Tick);
        assert!(s.spinner <= 3);
        seen.push(s.spinner);
    }
    assert_eq!(seen, vec![1, 2, 3, 0, 1, 2, 3, 0, 1]);
}

#[test]
fn fold_is_batch_insensitive() {
    // Delivering the same events in one batch or two gives the same state.
    let evs = || {
        vec![
            Event::AppendChat("a".to_string()),
            Event::Tick,
            Event::SetStatus("x".to_string()),
            Event::ReplaceLogs(vec!["l".to_string()]),
        ]
    };
    let mut one = init_state();
    apply_events(&mut one, evs());

    let mut two = init_state();
    let mut batch = evs();
    let second = batch.split_off(2);
    apply_events(&mut two, batch);
    apply_events(&mut two, second);

    assert_eq!(one.chat, two.chat);
    assert_eq!(one.status, two.status);
    assert_eq!(one.logs, two.logs);
    assert_eq!(one.spinner, two.spinner);
}
