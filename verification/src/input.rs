use vstd::prelude::*;

use crate::router::{route, route_model, Invocation, InvocationModel};
use crate::state::{AppState, InputMode, StateModel};
use crate::text::string_push;
use vstd::string::StringExecFns;

verus! {

/// How far one PageUp or PageDown moves the chat scroll offset.
pub const SCROLL_STEP: usize = 3;

/// A raw key press, as the input controller sees it.
#[derive(Clone, Copy, PartialEq, Eq, Structural)]
pub enum Key {
    Char(char),
    Enter,
    Esc,
    Backspace,
    PageUp,
    PageDown,
    Other,
}

/// What the caller must do after a key was handled: nothing beyond redrawing,
/// terminate the application, or perform the resolved invocation.
pub enum Action {
    Continue,
    Quit,
    Dispatch(Invocation),
}

/// The mathematical value of an `Action`.
pub enum ActionModel {
    Continue,
    Quit,
    Dispatch(InvocationModel),
}

impl View for Action {
    type V = ActionModel;

    open spec fn view(&self) -> ActionModel {
        match self {
            Action::Continue => ActionModel::Continue,
            Action::Quit => ActionModel::Quit,
            Action::Dispatch(inv) => ActionModel::Dispatch(inv@),
        }
    }
}

pub open spec fn help_line() -> Seq<char> {
    "Keys: q quit \u{2022} : command \u{2022} s sidebar \u{2022} b backlog \u{2022} l logs \u{2022} PgUp/PgDn scroll"@
}

pub open spec fn idle_status() -> Seq<char> {
    "Ready"@
}

/// The input controller: one key press against one state.
///
/// In Normal mode `q` quits, `s`/`b`/`l` toggle a panel, `?` appends the help
/// line to the chat, `:` clears the buffer and enters CommandEntry, Escape
/// resets the status to idle, PageUp/PageDown move the scroll offset by a
/// fixed step, floored at zero and saturating at the machine maximum.
///
/// In CommandEntry a printable character extends the buffer, Backspace drops
/// its last character, Escape discards the buffer and returns to Normal, and
/// Enter submits: the buffer is captured and cleared, the mode returns to
/// Normal, a running status and an echo line appear, and the routed
/// invocation is handed back — unless the read-only configuration is set, in
/// which case a notice is appended instead and nothing is ever dispatched.
pub open spec fn key_step(m: StateModel, k: Key, read_only: bool) -> (StateModel, ActionModel) {
    match m.input_mode {
        InputMode::Normal => match k {
            Key::Char(c) => {
                if c == 'q' {
                    (m, ActionModel::Quit)
                } else if c == 's' {
                    (StateModel { show_sidebar: !m.show_sidebar, ..m }, ActionModel::Continue)
                } else if c == 'b' {
                    (StateModel { show_backlog: !m.show_backlog, ..m }, ActionModel::Continue)
                } else if c == 'l' {
                    (StateModel { show_logs: !m.show_logs, ..m }, ActionModel::Continue)
                } else if c == '?' {
                    (StateModel { chat: m.chat.push(help_line()), ..m }, ActionModel::Continue)
                } else if c == ':' {
                    (
                        StateModel {
                            input: Seq::empty(),
                            input_mode: InputMode::CommandEntry,
                            ..m
                        },
                        ActionModel::Continue,
                    )
                } else {
                    (m, ActionModel::Continue)
                }
            },
            Key::Esc => (StateModel { status: idle_status(), ..m }, ActionModel::Continue),
            Key::PageUp => (
                StateModel {
                    chat_scroll: if m.chat_scroll + SCROLL_STEP <= usize::MAX {
                        (m.chat_scroll + SCROLL_STEP) as nat
                    } else {
                        usize::MAX as nat
                    },
                    ..m
                },
                ActionModel::Continue,
            ),
            Key::PageDown => (
                StateModel {
                    chat_scroll: if m.chat_scroll >= SCROLL_STEP {
                        (m.chat_scroll - SCROLL_STEP) as nat
                    } else {
                        0
                    },
                    ..m
                },
                ActionModel::Continue,
            ),
            _ => (m, ActionModel::Continue),
        },
        InputMode::CommandEntry => match k {
            Key::Char(c) => (StateModel { input: m.input.push(c), ..m }, ActionModel::Continue),
            Key::Backspace => (
                StateModel {
                    input: if m.input.len() > 0 {
                        m.input.drop_last()
                    } else {
                        m.input
                    },
                    ..m
                },
                ActionModel::Continue,
            ),
            Key::Esc => (
                StateModel {
                    input: Seq::empty(),
                    input_mode: InputMode::Normal,
                    status: idle_status(),
                    ..m
                },
                ActionModel::Continue,
            ),
            Key::Enter => {
                let cmd = m.input;
                let base = StateModel {
                    input: Seq::empty(),
                    input_mode: InputMode::Normal,
                    status: "Running: "@ + cmd,
                    chat: m.chat.push("\u{2192} "@ + cmd),
                    ..m
                };
                if read_only {
                    (
                        StateModel { chat: base.chat.push("(read-only)"@), ..base },
                        ActionModel::Continue,
                    )
                } else {
                    (base, ActionModel::Dispatch(route_model(cmd)))
                }
            },
            _ => (m, ActionModel::Continue),
        },
    }
}

/// Handle one key press: the state changes and the action returned are
/// exactly those of `key_step`.
pub fn handle_key(s: &mut AppState, k: Key, read_only: bool) -> (a: Action)
    requires
        old(s)@.wf(),
    ensures
        final(s)@ == key_step(old(s)@, k, read_only).0,
        a@ == key_step(old(s)@, k, read_only).1,
        final(s)@.wf(),
{
    match s.input_mode {
        InputMode::Normal => match k {
            Key::Char(c) => {
                if c == 'q' {
                    Action::Quit
                } else if c == 's' {
                    s.show_sidebar = !s.show_sidebar;
                    Action::Continue
                } else if c == 'b' {
                    s.show_backlog = !s.show_backlog;
                    Action::Continue
                } else if c == 'l' {
                    s.show_logs = !s.show_logs;
                    Action::Continue
                } else if c == '?' {
                    let ghost old_chat = s.chat.deep_view();
                    s.chat.push(
                        "Keys: q quit \u{2022} : command \u{2022} s sidebar \u{2022} b backlog \u{2022} l logs \u{2022} PgUp/PgDn scroll".to_owned(),
                    );
                    proof {
                        assert(s.chat.deep_view() =~= old_chat.push(help_line()));
                    }
                    Action::Continue
                } else if c == ':' {
                    s.input = String::new();
                    s.input_mode = InputMode::CommandEntry;
                    Action::Continue
                } else {
                    Action::Continue
                }
            },
            Key::Esc => {
                s.status = "Ready".to_owned();
                Action::Continue
            },
            Key::PageUp => {
                s.chat_scroll = if s.chat_scroll <= usize::MAX - SCROLL_STEP {
                    s.chat_scroll + SCROLL_STEP
                } else {
                    usize::MAX
                };
                Action::Continue
            },
            Key::PageDown => {
                s.chat_scroll = if s.chat_scroll >= SCROLL_STEP {
                    s.chat_scroll - SCROLL_STEP
                } else {
                    0
                };
                Action::Continue
            },
            _ => Action::Continue,
        },
        InputMode::CommandEntry => match k {
            Key::Char(c) => {
                string_push(&mut s.input, c);
                Action::Continue
            },
            Key::Backspace => {
                let _ = crate::text::string_pop(&mut s.input);
                Action::Continue
            },
            Key::Esc => {
                s.input = String::new();
                s.input_mode = InputMode::Normal;
                s.status = "Ready".to_owned();
                Action::Continue
            },
            Key::Enter => {
                let cmd = s.input.clone();
                s.input = String::new();
                s.input_mode = InputMode::Normal;
                let mut st = "Running: ".to_owned();
                st.append(cmd.as_str());
                s.status = st;
                let mut echo = "\u{2192} ".to_owned();
                echo.append(cmd.as_str());
                let ghost old_chat = s.chat.deep_view();
                s.chat.push(echo);
                proof {
                    assert(s.chat.deep_view() =~= old_chat.push("\u{2192} "@ + cmd@));
                }
                if read_only {
                    let ghost base_chat = s.chat.deep_view();
                    s.chat.push("(read-only)".to_owned());
                    proof {
                        assert(s.chat.deep_view() =~= base_chat.push("(read-only)"@));
                    }
                    Action::Continue
                } else {
                    Action::Dispatch(route(cmd.as_str()))
                }
            },
            _ => Action::Continue,
        },
    }
}

// ===== Laws =====

/// In the read-only configuration no key — in particular no command
/// submission — ever yields a dispatch, and submitting returns the machine
/// to Normal mode with an empty buffer.
pub proof fn lemma_read_only_never_dispatches(m: StateModel, k: Key)
    ensures
        !(key_step(m, k, true).1 matches ActionModel::Dispatch(_)),
        m.input_mode == InputMode::CommandEntry && k == Key::Enter ==> key_step(
            m,
            k,
            true,
        ).0.input_mode == InputMode::Normal && key_step(m, k, true).0.input.len() == 0,
{
}

/// The state after a whole sequence of key presses, the actions disregarded.
pub open spec fn fold_keys(m: StateModel, ks: Seq<Key>, read_only: bool) -> StateModel
    decreases ks.len(),
{
    if ks.len() == 0 {
        m
    } else {
        fold_keys(key_step(m, ks[0], read_only).0, ks.drop_first(), read_only)
    }
}

pub open spec fn key_rep(k: Key, n: nat) -> Seq<Key> {
    Seq::new(n, |i: int| k)
}

/// Repeated PageDown from offset zero stays at zero: the offset is floored,
/// never negative, and nothing else changes.
pub proof fn lemma_pagedown_floor(m: StateModel, n: nat, read_only: bool)
    requires
        m.input_mode == InputMode::Normal,
        m.chat_scroll == 0,
    ensures
        fold_keys(m, key_rep(Key::PageDown, n), read_only) == m,
    decreases n,
{
    if n > 0 {
        assert(key_rep(Key::PageDown, n)[0] == Key::PageDown);
        assert(key_step(m, Key::PageDown, read_only).0 == m);
        assert(key_rep(Key::PageDown, n).drop_first() =~= key_rep(Key::PageDown, (n - 1) as nat));
        lemma_pagedown_floor(m, (n - 1) as nat, read_only);
    }
}

/// Repeated PageUp raises the offset by the step each time, saturating only
/// at the machine maximum: it grows without any lower cap.
pub proof fn lemma_pageup_growth(m: StateModel, n: nat, read_only: bool)
    requires
        m.input_mode == InputMode::Normal,
        m.chat_scroll <= usize::MAX,
    ensures
        fold_keys(m, key_rep(Key::PageUp, n), read_only).chat_scroll == (if m.chat_scroll
            + SCROLL_STEP * n <= usize::MAX {
            (m.chat_scroll + SCROLL_STEP * n) as nat
        } else {
            usize::MAX as nat
        }),
    decreases n,
{
    if n == 0 {
        assert(SCROLL_STEP * n == 0) by (nonlinear_arith)
            requires n == 0;
        assert(fold_keys(m, key_rep(Key::PageUp, n), read_only) == m);
    } else {
        let m1 = key_step(m, Key::PageUp, read_only).0;
        assert(key_rep(Key::PageUp, n)[0] == Key::PageUp);
        assert(key_rep(Key::PageUp, n).drop_first() =~= key_rep(Key::PageUp, (n - 1) as nat));
        lemma_pageup_growth(m1, (n - 1) as nat, read_only);
        assert(fold_keys(m, key_rep(Key::PageUp, n), read_only) == fold_keys(
            m1,
            key_rep(Key::PageUp, (n - 1) as nat),
            read_only,
        ));
        assert(SCROLL_STEP * n == SCROLL_STEP + SCROLL_STEP * (n - 1)) by (nonlinear_arith)
            requires n >= 1;
        let s0 = m.chat_scroll;
        let res = fold_keys(m, key_rep(Key::PageUp, n), read_only);
        if s0 + SCROLL_STEP <= usize::MAX {
            assert(m1.chat_scroll == s0 + SCROLL_STEP);
            assert(m1.chat_scroll + SCROLL_STEP * ((n - 1) as nat) == s0 + SCROLL_STEP * n);
            assert(res.chat_scroll == (if s0 + SCROLL_STEP * n <= usize::MAX {
                (s0 + SCROLL_STEP * n) as nat
            } else {
                usize::MAX as nat
            }));
        } else {
            assert(m1.chat_scroll == usize::MAX as nat);
            assert(s0 + SCROLL_STEP * n > usize::MAX);
            assert(res.chat_scroll == usize::MAX as nat);
        }
    }
}

/// From offset zero, `t` PageUp presses reach an offset of at least `t`, for
/// any target up to the machine maximum — in particular up to the chat
/// length, which a vector's length never exceeds.
pub proof fn lemma_pageup_reaches(m: StateModel, t: nat, read_only: bool)
    requires
        m.input_mode == InputMode::Normal,
        m.chat_scroll == 0,
        t <= usize::MAX,
    ensures
        fold_keys(m, key_rep(Key::PageUp, t), read_only).chat_scroll >= t,
{
    lemma_pageup_growth(m, t, read_only);
    assert(SCROLL_STEP * t >= t) by (nonlinear_arith);
}

} // verus!
