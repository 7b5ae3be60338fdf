use vstd::prelude::*;

use crate::state::{events_view, fold_model, step_model, Event, EventModel, StateModel, TAIL_WINDOW};
use crate::text::{
    contains_sub, dec_of, is_prefix, is_suffix, lemma_lex_le_total, lemma_lex_le_trans, lex_le,
    lines_spec, split_lines, str_contains, str_ends_with, str_lex_le, str_starts_with,
    u64_to_string,
};
use vstd::string::StringExecFns;

verus! {

// ===== Tail window =====

/// The most recent `TAIL_WINDOW` lines, the oldest discarded.
pub open spec fn window_model(lines: Seq<Seq<char>>) -> Seq<Seq<char>> {
    if lines.len() <= TAIL_WINDOW {
        lines
    } else {
        lines.subrange(lines.len() - TAIL_WINDOW, lines.len() as int)
    }
}

pub fn tail_window(lines: &Vec<String>) -> (r: Vec<String>)
    ensures
        r.deep_view() == window_model(lines.deep_view()),
{
    let n = lines.len();
    let start = if n > TAIL_WINDOW {
        n - TAIL_WINDOW
    } else {
        0
    };
    let mut r: Vec<String> = Vec::new();
    let mut j = start;
    proof {
        assert(r.deep_view() =~= lines.deep_view().subrange(start as int, start as int));
    }
    while j < n
        invariant
            n == lines@.len(),
            start <= j <= n,
            r.deep_view() == lines.deep_view().subrange(start as int, j as int),
        decreases n - j,
    {
        let ghost old_r = r.deep_view();
        let line = lines[j].clone();
        r.push(line);
        proof {
            assert(r.deep_view() =~= old_r.push(lines.deep_view()[j as int]));
            assert(r.deep_view() =~= lines.deep_view().subrange(start as int, j + 1));
        }
        j += 1;
    }
    proof {
        if n <= TAIL_WINDOW {
            assert(lines.deep_view().subrange(0, n as int) =~= lines.deep_view());
        }
    }
    r
}

// ===== Approvals =====

/// A line that carries one of the two literal approval markers.
pub open spec fn marked(l: Seq<char>) -> bool {
    contains_sub(l, "[ASK]"@) || contains_sub(l, "[APPROVAL]"@)
}

/// The marked lines of the window, in order.
pub open spec fn approvals_model(lines: Seq<Seq<char>>) -> Seq<Seq<char>> {
    lines.filter(|l: Seq<char>| marked(l))
}

pub fn line_marked(l: &str) -> (r: bool)
    ensures
        r == marked(l@),
{
    str_contains(l, "[ASK]") || str_contains(l, "[APPROVAL]")
}

pub fn approvals_of(lines: &Vec<String>) -> (r: Vec<String>)
    ensures
        r.deep_view() == approvals_model(lines.deep_view()),
{
    let n = lines.len();
    let mut r: Vec<String> = Vec::new();
    let mut i: usize = 0;
    proof {
        reveal(Seq::filter);
        assert(r.deep_view() =~= approvals_model(lines.deep_view().subrange(0, 0)));
    }
    while i < n
        invariant
            n == lines@.len(),
            i <= n,
            r.deep_view() == approvals_model(lines.deep_view().subrange(0, i as int)),
        decreases n - i,
    {
        let ghost dv = lines.deep_view();
        let ghost old_r = r.deep_view();
        if line_marked(lines[i].as_str()) {
            let line = lines[i].clone();
            r.push(line);
            proof {
                assert(r.deep_view() =~= old_r.push(dv[i as int]));
            }
        }
        proof {
            reveal(Seq::filter);
            assert(dv.subrange(0, i + 1).drop_last() =~= dv.subrange(0, i as int));
            assert(dv.subrange(0, i + 1).last() == dv[i as int]);
        }
        i += 1;
    }
    proof {
        assert(lines.deep_view().subrange(0, n as int) =~= lines.deep_view());
    }
    r
}

// ===== Latest session log =====

/// A file name of the watched naming convention.
pub open spec fn is_session_log(n: Seq<char>) -> bool {
    is_prefix("session-"@, n) && is_suffix(".log"@, n)
}

pub fn name_matches(n: &str) -> (r: bool)
    ensures
        r == is_session_log(n@),
{
    str_starts_with(n, "session-") && str_ends_with(n, ".log")
}

/// Pick the candidate to tail: of the names that match the session-log
/// convention, the lexicographically greatest; `None` when none matches.
/// The choice depends only on the set of names handed in, never on the
/// order a directory listing produced them in.
pub fn select_latest_log(names: &Vec<String>) -> (r: Option<String>)
    ensures
        (r matches Option::None) ==> (forall|i: int|
            0 <= i < names.deep_view().len() ==> !is_session_log(names.deep_view()[i])),
        (r matches Option::Some(m) ==> is_session_log(m@) && names.deep_view().contains(m@)
            && (forall|i: int|
            0 <= i < names.deep_view().len() && is_session_log(#[trigger] names.deep_view()[i])
                ==> lex_le(names.deep_view()[i], m@))),
{
    let n = names.len();
    let mut best: Option<String> = Option::None;
    let mut i: usize = 0;
    while i < n
        invariant
            n == names@.len(),
            i <= n,
            (best matches Option::None) ==> (forall|j: int|
                0 <= j < i ==> !is_session_log(names.deep_view()[j])),
            (best matches Option::Some(b) ==> is_session_log(b@) && names.deep_view().contains(b@)
                && (forall|j: int|
                0 <= j < i && is_session_log(#[trigger] names.deep_view()[j]) ==> lex_le(
                    names.deep_view()[j],
                    b@,
                ))),
        decreases n - i,
    {
        let ghost dv = names.deep_view();
        let cand_matches = name_matches(names[i].as_str());
        if cand_matches {
            match best {
                Option::None => {
                    let c = names[i].clone();
                    proof {
                        assert(dv[i as int] == c@);
                        crate::text::lemma_lex_le_refl(c@);
                    }
                    best = Option::Some(c);
                },
                Option::Some(b) => {
                    if str_lex_le(b.as_str(), names[i].as_str()) {
                        let c = names[i].clone();
                        proof {
                            assert(dv[i as int] == c@);
                            crate::text::lemma_lex_le_refl(c@);
                            assert forall|j: int|
                                0 <= j < i && is_session_log(#[trigger] dv[j]) implies lex_le(
                                dv[j],
                                c@,
                            ) by {
                                lemma_lex_le_trans(dv[j], b@, c@);
                            }
                        }
                        best = Option::Some(c);
                    } else {
                        proof {
                            lemma_lex_le_total(b@, dv[i as int]);
                        }
                        best = Option::Some(b);
                    }
                },
            }
        }
        i += 1;
    }
    best
}

/// The selection is deterministic: any two names that both match, both occur
/// among the candidates and both bound every matching candidate from above
/// are one and the same — so the choice depends only on which names exist,
/// never on the order a directory listing produced them in.
pub proof fn lemma_selection_deterministic(names: Seq<Seq<char>>, m1: Seq<char>, m2: Seq<char>)
    requires
        is_session_log(m1),
        names.contains(m1),
        forall|i: int| 0 <= i < names.len() && is_session_log(#[trigger] names[i]) ==> lex_le(
            names[i],
            m1,
        ),
        is_session_log(m2),
        names.contains(m2),
        forall|i: int| 0 <= i < names.len() && is_session_log(#[trigger] names[i]) ==> lex_le(
            names[i],
            m2,
        ),
    ensures
        m1 == m2,
{
    let i1 = choose|i: int| 0 <= i < names.len() && names[i] == m1;
    let i2 = choose|i: int| 0 <= i < names.len() && names[i] == m2;
    assert(lex_le(names[i1], m2));
    assert(lex_le(names[i2], m1));
    crate::text::lemma_lex_le_antisym(m1, m2);
}

// ===== One poll of the tailer =====

/// The events one successful poll of the log tailer emits for the given file
/// content: the bounded tail window always, the marked lines only when at
/// least one line is marked — a poll that finds none emits nothing for the
/// approvals list, which therefore keeps its previous value.
pub open spec fn tail_events_model(content: Seq<char>) -> Seq<EventModel> {
    let w = window_model(lines_spec(content));
    let a = approvals_model(w);
    if a.len() == 0 {
        seq![EventModel::ReplaceLogs(w)]
    } else {
        seq![EventModel::ReplaceLogs(w), EventModel::ReplaceApprovals(a)]
    }
}

pub fn tail_events(content: &str) -> (evs: Vec<Event>)
    ensures
        events_view(evs@) == tail_events_model(content@),
{
    let lines = split_lines(content);
    let w = tail_window(&lines);
    let a = approvals_of(&w);
    let mut evs: Vec<Event> = Vec::new();
    if a.len() == 0 {
        evs.push(Event::ReplaceLogs(w));
        proof {
            assert(events_view(evs@) =~= tail_events_model(content@));
        }
    } else {
        evs.push(Event::ReplaceLogs(w));
        evs.push(Event::ReplaceApprovals(a));
        proof {
            assert(events_view(evs@) =~= tail_events_model(content@));
        }
    }
    evs
}

// ===== Laws =====

/// A batch that holds no approvals replacement leaves the approvals list as
/// it was.
pub proof fn lemma_no_replace_keeps_approvals(m: StateModel, evs: Seq<EventModel>)
    requires
        forall|i: int|
            0 <= i < evs.len() ==> !(#[trigger] evs[i] matches EventModel::ReplaceApprovals(_)),
    ensures
        fold_model(m, evs).approvals == m.approvals,
    decreases evs.len(),
{
    if evs.len() > 0 {
        lemma_no_replace_keeps_approvals(step_model(m, evs[0]), evs.drop_first());
    }
}

/// Approvals monotonicity: after a poll whose window holds marked lines, the
/// approvals list shows exactly those lines; a following poll whose window
/// holds none leaves the list untouched.
pub proof fn lemma_approvals_monotonic(m: StateModel, c1: Seq<char>, c2: Seq<char>)
    requires
        approvals_model(window_model(lines_spec(c1))).len() > 0,
        approvals_model(window_model(lines_spec(c2))).len() == 0,
    ensures
        fold_model(m, tail_events_model(c1)).approvals == approvals_model(
            window_model(lines_spec(c1)),
        ),
        fold_model(fold_model(m, tail_events_model(c1)), tail_events_model(c2)).approvals
            == approvals_model(window_model(lines_spec(c1))),
{
    let w1 = window_model(lines_spec(c1));
    let a1 = approvals_model(w1);
    let evs1 = tail_events_model(c1);
    let m1 = step_model(m, evs1[0]);
    let m2 = step_model(m1, evs1[1]);
    assert(evs1.drop_first() =~= seq![EventModel::ReplaceApprovals(a1)]);
    assert(evs1.drop_first().drop_first() =~= Seq::<EventModel>::empty());
    assert(fold_model(m, evs1) == fold_model(m1, evs1.drop_first()));
    assert(evs1.drop_first()[0] == evs1[1]);
    assert(fold_model(m1, evs1.drop_first()) == fold_model(m2, evs1.drop_first().drop_first()));
    assert(fold_model(m2, evs1.drop_first().drop_first()) == m2);
    assert(fold_model(m, evs1) == m2);
    lemma_no_replace_keeps_approvals(fold_model(m, evs1), tail_events_model(c2));
}

// ===== Backlog summary =====

/// The one line the backlog loader shows on success: the byte count of what
/// it read.
pub open spec fn summary_model(n: nat) -> Seq<char> {
    dec_of(n) + " bytes loaded"@
}

pub fn backlog_summary(n_bytes: usize) -> (r: String)
    ensures
        r@ == summary_model(n_bytes as nat),
{
    let s = u64_to_string(n_bytes as u64);
    s.concat(" bytes loaded")
}

/// The one event the backlog loader emits when the auxiliary file could be
/// read: a single summary line replacing the backlog snapshot.
pub fn backlog_event(n_bytes: usize) -> (e: Event)
    ensures
        e@ == EventModel::ReplaceBacklog(seq![summary_model(n_bytes as nat)]),
{
    let mut lines: Vec<String> = Vec::new();
    lines.push(backlog_summary(n_bytes));
    proof {
        assert(lines.deep_view() =~= seq![summary_model(n_bytes as nat)]);
    }
    Event::ReplaceBacklog(lines)
}

} // verus!
