use vstd::prelude::*;

use crate::state::{Event, EventModel};
use crate::text::{i64_to_string, int_dec};
use vstd::string::StringExecFns;

verus! {

/// The marker a line read from a subprocess's standard error carries in the
/// chat, to tell it from standard output.
pub open spec fn stderr_tagged(line: Seq<char>) -> Seq<char> {
    "[stderr] "@ + line
}

pub fn tag_stderr(line: &str) -> (r: String)
    ensures
        r@ == stderr_tagged(line@),
{
    let s = "[stderr] ".to_owned();
    s.concat(line)
}

/// The chat event one line of subprocess output becomes, the instant it is
/// read: stderr lines tagged, stdout lines verbatim.
pub fn stream_line_event(line: String, is_stderr: bool) -> (e: Event)
    ensures
        e@ == EventModel::AppendChat(
            if is_stderr {
                stderr_tagged(line@)
            } else {
                line@
            },
        ),
{
    if is_stderr {
        Event::AppendChat(tag_stderr(line.as_str()))
    } else {
        Event::AppendChat(line)
    }
}

/// The exit code reported for a finished process: its numeric code, or the
/// sentinel for a process that ended without one.
pub const EXIT_SENTINEL: i64 = -1;

/// The status line shown when a process terminates.
pub open spec fn exit_status_model(code: Option<int>) -> Seq<char> {
    "Command exited with status "@ + int_dec(
        match code {
            Some(c) => c,
            None => EXIT_SENTINEL as int,
        },
    )
}

/// The one status event emitted after a spawned process terminates.
pub fn exit_event(code: Option<i64>) -> (e: Event)
    ensures
        e@ == EventModel::SetStatus(
            exit_status_model(
                match code {
                    Some(c) => Some(c as int),
                    None => None,
                },
            ),
        ),
{
    let c = match code {
        Some(c) => c,
        None => EXIT_SENTINEL,
    };
    let digits = i64_to_string(c);
    let msg = "Command exited with status ".to_owned();
    Event::SetStatus(msg.concat(digits.as_str()))
}

} // verus!
