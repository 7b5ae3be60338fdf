use vstd::prelude::*;

verus! {

/// Number of lines kept in the log tail window.
pub const TAIL_WINDOW: usize = 200;

/// Number of animation phases the spinner cycles through.
pub const PHASES: u8 = 4;

// ===== Events =====

/// A state-mutation message sent by a background producer to the single
/// consuming loop. Immutable once constructed; ownership moves on send.
pub enum Event {
    AppendChat(String),
    SetStatus(String),
    ReplaceBacklog(Vec<String>),
    ReplaceLogs(Vec<String>),
    ReplaceApprovals(Vec<String>),
    Tick,
}

/// The mathematical value of an `Event`.
pub enum EventModel {
    AppendChat(Seq<char>),
    SetStatus(Seq<char>),
    ReplaceBacklog(Seq<Seq<char>>),
    ReplaceLogs(Seq<Seq<char>>),
    ReplaceApprovals(Seq<Seq<char>>),
    Tick,
}

impl View for Event {
    type V = EventModel;

    open spec fn view(&self) -> EventModel {
        match self {
            Event::AppendChat(s) => EventModel::AppendChat(s@),
            Event::SetStatus(s) => EventModel::SetStatus(s@),
            Event::ReplaceBacklog(v) => EventModel::ReplaceBacklog(v.deep_view()),
            Event::ReplaceLogs(v) => EventModel::ReplaceLogs(v.deep_view()),
            Event::ReplaceApprovals(v) => EventModel::ReplaceApprovals(v.deep_view()),
            Event::Tick => EventModel::Tick,
        }
    }
}

pub open spec fn events_view(evs: Seq<Event>) -> Seq<EventModel> {
    evs.map_values(|e: Event| e@)
}

// ===== Application state =====

#[derive(Clone, Copy, Debug, PartialEq, Eq, Structural)]
pub enum InputMode {
    Normal,
    CommandEntry,
}

/// The canonical application state, owned exclusively by the event-consuming
/// loop; every other task communicates mutations only through `Event`s.
pub struct AppState {
    pub chat: Vec<String>,
    pub chat_scroll: usize,
    pub backlog: Vec<String>,
    pub queues: Vec<String>,
    pub approvals: Vec<String>,
    pub logs: Vec<String>,
    pub status: String,
    pub input: String,
    pub input_mode: InputMode,
    pub show_sidebar: bool,
    pub show_backlog: bool,
    pub show_logs: bool,
    pub spinner: u8,
}

/// The mathematical value of an `AppState`.
pub struct StateModel {
    pub chat: Seq<Seq<char>>,
    pub chat_scroll: nat,
    pub backlog: Seq<Seq<char>>,
    pub queues: Seq<Seq<char>>,
    pub approvals: Seq<Seq<char>>,
    pub logs: Seq<Seq<char>>,
    pub status: Seq<char>,
    pub input: Seq<char>,
    pub input_mode: InputMode,
    pub show_sidebar: bool,
    pub show_backlog: bool,
    pub show_logs: bool,
    pub spinner: nat,
}

impl View for AppState {
    type V = StateModel;

    open spec fn view(&self) -> StateModel {
        StateModel {
            chat: self.chat.deep_view(),
            chat_scroll: self.chat_scroll as nat,
            backlog: self.backlog.deep_view(),
            queues: self.queues.deep_view(),
            approvals: self.approvals.deep_view(),
            logs: self.logs.deep_view(),
            status: self.status@,
            input: self.input@,
            input_mode: self.input_mode,
            show_sidebar: self.show_sidebar,
            show_backlog: self.show_backlog,
            show_logs: self.show_logs,
            spinner: self.spinner as nat,
        }
    }
}

impl StateModel {
    /// Well-formedness: the animation phase stays within its cycle and the
    /// scroll offset fits the machine word that holds it.
    pub open spec fn wf(self) -> bool {
        self.spinner < PHASES && self.chat_scroll <= usize::MAX
    }
}

/// The state every run starts from.
pub open spec fn init_model() -> StateModel {
    StateModel {
        chat: seq!["\u{1F30A} Ocean TUI \u{2014} type : to enter command mode, q to quit"@],
        chat_scroll: 0,
        backlog: seq!["(empty)"@],
        queues: seq!["Codex Queue: idle"@, "Ocean Queue: idle"@, "Approvals: none"@],
        approvals: Seq::empty(),
        logs: Seq::empty(),
        status: "Ready"@,
        input: Seq::empty(),
        input_mode: InputMode::Normal,
        show_sidebar: true,
        show_backlog: true,
        show_logs: true,
        spinner: 0,
    }
}

pub fn init_state() -> (s: AppState)
    ensures
        s@ == init_model(),
        s@.wf(),
{
    let mut chat: Vec<String> = Vec::new();
    chat.push("\u{1F30A} Ocean TUI \u{2014} type : to enter command mode, q to quit".to_owned());
    let mut backlog: Vec<String> = Vec::new();
    backlog.push("(empty)".to_owned());
    let mut queues: Vec<String> = Vec::new();
    queues.push("Codex Queue: idle".to_owned());
    queues.push("Ocean Queue: idle".to_owned());
    queues.push("Approvals: none".to_owned());
    let s = AppState {
        chat,
        chat_scroll: 0,
        backlog,
        queues,
        approvals: Vec::new(),
        logs: Vec::new(),
        status: "Ready".to_owned(),
        input: String::new(),
        input_mode: InputMode::Normal,
        show_sidebar: true,
        show_backlog: true,
        show_logs: true,
        spinner: 0,
    };
    proof {
        assert(s@.chat =~= init_model().chat);
        assert(s@.backlog =~= init_model().backlog);
        assert(s@.queues =~= init_model().queues);
        assert(s@.approvals =~= init_model().approvals);
        assert(s@.logs =~= init_model().logs);
        assert(s@ == init_model());
    }
    s
}

// ===== The fold =====

/// How one event changes the state: the whole effect of the consuming loop on
/// one message.
pub open spec fn step_model(m: StateModel, e: EventModel) -> StateModel {
    match e {
        EventModel::AppendChat(s) => StateModel { chat: m.chat.push(s), ..m },
        EventModel::SetStatus(s) => StateModel { status: s, ..m },
        EventModel::ReplaceBacklog(v) => StateModel { backlog: v, ..m },
        EventModel::ReplaceLogs(v) => StateModel { logs: v, ..m },
        EventModel::ReplaceApprovals(v) => StateModel { approvals: v, ..m },
        EventModel::Tick => StateModel { spinner: (m.spinner + 1) % (PHASES as nat), ..m },
    }
}

/// The state after a whole sequence of events: a left fold of `step_model`.
/// The result depends on the starting state and the event sequence alone —
/// never on when or by whom the events were produced.
pub open spec fn fold_model(m: StateModel, evs: Seq<EventModel>) -> StateModel
    decreases evs.len(),
{
    if evs.len() == 0 {
        m
    } else {
        fold_model(step_model(m, evs[0]), evs.drop_first())
    }
}

/// Well-formedness — the animation phase within its cycle — is an invariant
/// of the fold: it holds after any event sequence from any well-formed state.
pub proof fn lemma_fold_wf(m: StateModel, evs: Seq<EventModel>)
    requires
        m.wf(),
    ensures
        fold_model(m, evs).wf(),
    decreases evs.len(),
{
    if evs.len() > 0 {
        lemma_fold_wf(step_model(m, evs[0]), evs.drop_first());
    }
}

/// The chat log is append-only under events: whatever is delivered, the old
/// chat is a prefix of the new one.
pub proof fn lemma_chat_append_only(m: StateModel, evs: Seq<EventModel>)
    ensures
        m.chat.is_prefix_of(fold_model(m, evs).chat),
    decreases evs.len(),
{
    if evs.len() > 0 {
        let m1 = step_model(m, evs[0]);
        lemma_chat_append_only(m1, evs.drop_first());
        let res = fold_model(m, evs).chat;
        assert(m.chat =~= res.subrange(0, m.chat.len() as int));
    } else {
        assert(m.chat =~= m.chat.subrange(0, m.chat.len() as int));
    }
}

/// Events mutate only the fields the producers own: the queue-status lines,
/// the input buffer and mode, the visibility flags and the scroll offset are
/// the input controller's alone and no event sequence changes them.
pub proof fn lemma_events_leave_input_fields(m: StateModel, evs: Seq<EventModel>)
    ensures
        fold_model(m, evs).queues == m.queues,
        fold_model(m, evs).input == m.input,
        fold_model(m, evs).input_mode == m.input_mode,
        fold_model(m, evs).show_sidebar == m.show_sidebar,
        fold_model(m, evs).show_backlog == m.show_backlog,
        fold_model(m, evs).show_logs == m.show_logs,
        fold_model(m, evs).chat_scroll == m.chat_scroll,
    decreases evs.len(),
{
    if evs.len() > 0 {
        lemma_events_leave_input_fields(step_model(m, evs[0]), evs.drop_first());
    }
}

/// Delivering events in two batches gives the same state as delivering them
/// in one: how a sequence is cut into frames does not matter, only its order.
pub proof fn lemma_fold_split(m: StateModel, a: Seq<EventModel>, b: Seq<EventModel>)
    ensures
        fold_model(m, a + b) == fold_model(fold_model(m, a), b),
    decreases a.len(),
{
    if a.len() == 0 {
        assert(a + b =~= b);
    } else {
        assert((a + b).drop_first() =~= a.drop_first() + b);
        lemma_fold_split(step_model(m, a[0]), a.drop_first(), b);
    }
}

/// Apply one event to the state. This is the single writer of the
/// application state; the change is exactly `step_model`.
pub fn apply_event(s: &mut AppState, e: Event)
    requires
        old(s)@.wf(),
    ensures
        final(s)@ == step_model(old(s)@, e@),
        final(s)@.wf(),
{
    match e {
        Event::AppendChat(line) => {
            s.chat.push(line);
            proof {
                assert(s@.chat =~= old(s)@.chat.push(s.chat@[s.chat@.len() - 1]@));
            }
        },
        Event::SetStatus(t) => {
            s.status = t;
        },
        Event::ReplaceBacklog(v) => {
            s.backlog = v;
        },
        Event::ReplaceLogs(v) => {
            s.logs = v;
        },
        Event::ReplaceApprovals(v) => {
            s.approvals = v;
        },
        Event::Tick => {
            s.spinner = if s.spinner >= 3 {
                0
            } else {
                s.spinner + 1
            };
        },
    }
}

/// Drain one batch of events into the state, front to back: the consuming
/// loop's whole effect for one frame. The result is the deterministic fold
/// of the batch over the starting state.
pub fn apply_events(s: &mut AppState, evs: Vec<Event>)
    requires
        old(s)@.wf(),
    ensures
        final(s)@ == fold_model(old(s)@, events_view(evs@)),
        final(s)@.wf(),
{
    let mut rest = evs;
    let ghost m0 = s@;
    while rest.len() > 0
        invariant
            s@.wf(),
            fold_model(m0, events_view(evs@)) == fold_model(s@, events_view(rest@)),
        decreases rest.len(),
    {
        let ghost before = rest@;
        let e = rest.remove(0);
        proof {
            assert(events_view(before)[0] == e@);
            assert(events_view(before).drop_first() =~= events_view(rest@));
        }
        apply_event(s, e);
    }
    proof {
        assert(events_view(rest@) =~= Seq::<EventModel>::empty());
    }
}

// ===== Animation phase =====

pub open spec fn ticks(n: nat) -> Seq<EventModel> {
    Seq::new(n, |i: int| EventModel::Tick)
}

/// Under repeated ticks the animation phase advances modulo the cycle length:
/// it visits 0, 1, 2, 3, 0, ... and never leaves that range, and nothing else
/// in the state changes.
pub proof fn lemma_ticks_cycle(m: StateModel, n: nat)
    requires
        m.wf(),
    ensures
        fold_model(m, ticks(n)).spinner == (m.spinner + n) % (PHASES as nat),
        fold_model(m, ticks(n)).wf(),
        fold_model(m, ticks(n)) == (StateModel {
            spinner: (m.spinner + n) % (PHASES as nat),
            ..m
        }),
    decreases n,
{
    if n == 0 {
        assert(ticks(0).len() == 0);
        assert(m.spinner % (PHASES as nat) == m.spinner);
    } else {
        let m1 = step_model(m, EventModel::Tick);
        assert(ticks(n)[0] == EventModel::Tick);
        assert(ticks(n).drop_first() =~= ticks((n - 1) as nat));
        lemma_ticks_cycle(m1, (n - 1) as nat);
        assert((m.spinner + 1) % 4 + (n - 1) == m.spinner + n - (if m.spinner + 1 == 4 {
            4int
        } else {
            0int
        }));
    }
}

} // verus!
