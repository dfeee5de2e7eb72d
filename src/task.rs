//! The life of one connection, and the line it leaves in the access log.
use vstd::prelude::*;
use crate::bytes::{decimal, push_all, zero_padded, zero_padded_bytes, decimal_bytes};
use crate::message::{HTTPMethod, HTTPResponseCode};

verus! {

/// Where a connection stands.
#[derive(Clone, Copy, Debug, PartialEq, Eq, Structural)]
pub enum TaskState {
    Accepted,
    Parsing,
    Handling,
    /// A response with this status is being sent.
    Responding(HTTPResponseCode),
    Logged,
    Closed,
}

/// What happened since the last step.
#[derive(Clone, Copy, Debug, PartialEq, Eq, Structural)]
pub enum TaskEvent {
    Started,
    HeadParsed,
    HeadMalformed,
    ConnectionFailed,
    HandlerResponded(HTTPResponseCode),
    HandlerDeclined,
    HandlerFailed,
    ResponseSent,
    ResponseFailed,
}

/// What the connection's runner does next.
#[derive(Clone, Copy, Debug, PartialEq, Eq, Structural)]
pub enum TaskAction {
    ReadHead,
    InvokeHandler,
    SendResponse,
    SendErrorPage(HTTPResponseCode),
    /// Log the status; the flag tells whether the response went out whole.
    WriteLog(HTTPResponseCode, bool),
    CloseConnection,
}

/// The transitions of a connection; `None` for an event that cannot happen
/// in the state, and for every event once the connection is done.
pub open spec fn transition(s: TaskState, e: TaskEvent) -> Option<(TaskState, TaskAction)> {
    match (s, e) {
        (TaskState::Accepted, TaskEvent::Started) => Some((TaskState::Parsing, TaskAction::ReadHead)),
        (TaskState::Parsing, TaskEvent::HeadParsed) => Some(
            (TaskState::Handling, TaskAction::InvokeHandler),
        ),
        (TaskState::Parsing, TaskEvent::HeadMalformed) => Some(
            (
                TaskState::Responding(HTTPResponseCode::HTTP400),
                TaskAction::SendErrorPage(HTTPResponseCode::HTTP400),
            ),
        ),
        (TaskState::Parsing, TaskEvent::ConnectionFailed) => Some(
            (TaskState::Closed, TaskAction::CloseConnection),
        ),
        (TaskState::Handling, TaskEvent::HandlerResponded(c)) => Some(
            (TaskState::Responding(c), TaskAction::SendResponse),
        ),
        (TaskState::Handling, TaskEvent::HandlerDeclined) => Some(
            (
                TaskState::Responding(HTTPResponseCode::HTTP400),
                TaskAction::SendErrorPage(HTTPResponseCode::HTTP400),
            ),
        ),
        (TaskState::Handling, TaskEvent::HandlerFailed) => Some(
            (
                TaskState::Responding(HTTPResponseCode::HTTP500),
                TaskAction::SendErrorPage(HTTPResponseCode::HTTP500),
            ),
        ),
        (TaskState::Responding(c), TaskEvent::ResponseSent) => Some(
            (TaskState::Logged, TaskAction::WriteLog(c, true)),
        ),
        (TaskState::Responding(c), TaskEvent::ResponseFailed) => Some(
            (TaskState::Logged, TaskAction::WriteLog(c, false)),
        ),
        _ => None,
    }
}

pub open spec fn is_terminal(s: TaskState) -> bool {
    s == TaskState::Logged || s == TaskState::Closed
}

/// The next state and action of a connection in state `s` after `e`.
pub fn step(s: TaskState, e: TaskEvent) -> (r: Option<(TaskState, TaskAction)>)
    ensures
        r == transition(s, e),
{
    match (s, e) {
        (TaskState::Accepted, TaskEvent::Started) => Some((TaskState::Parsing, TaskAction::ReadHead)),
        (TaskState::Parsing, TaskEvent::HeadParsed) => Some(
            (TaskState::Handling, TaskAction::InvokeHandler),
        ),
        (TaskState::Parsing, TaskEvent::HeadMalformed) => Some(
            (
                TaskState::Responding(HTTPResponseCode::HTTP400),
                TaskAction::SendErrorPage(HTTPResponseCode::HTTP400),
            ),
        ),
        (TaskState::Parsing, TaskEvent::ConnectionFailed) => Some(
            (TaskState::Closed, TaskAction::CloseConnection),
        ),
        (TaskState::Handling, TaskEvent::HandlerResponded(c)) => Some(
            (TaskState::Responding(c), TaskAction::SendResponse),
        ),
        (TaskState::Handling, TaskEvent::HandlerDeclined) => Some(
            (
                TaskState::Responding(HTTPResponseCode::HTTP400),
                TaskAction::SendErrorPage(HTTPResponseCode::HTTP400),
            ),
        ),
        (TaskState::Handling, TaskEvent::HandlerFailed) => Some(
            (
                TaskState::Responding(HTTPResponseCode::HTTP500),
                TaskAction::SendErrorPage(HTTPResponseCode::HTTP500),
            ),
        ),
        (TaskState::Responding(c), TaskEvent::ResponseSent) => Some(
            (TaskState::Logged, TaskAction::WriteLog(c, true)),
        ),
        (TaskState::Responding(c), TaskEvent::ResponseFailed) => Some(
            (TaskState::Logged, TaskAction::WriteLog(c, false)),
        ),
        _ => None,
    }
}

/// The states and actions a connection passes through on `events`, or `None`
/// when some event cannot happen where it comes.
pub open spec fn run(s: TaskState, events: Seq<TaskEvent>) -> Option<Seq<(TaskState, TaskAction)>>
    decreases events.len(),
{
    if events.len() == 0 {
        Some(Seq::empty())
    } else {
        match transition(s, events[0]) {
            None => None,
            Some(sa) => match run(sa.0, events.drop_first()) {
                None => None,
                Some(rest) => Some(seq![sa] + rest),
            },
        }
    }
}

/// The number of steps a connection in state `s` still has before it is done.
pub open spec fn steps_left(s: TaskState) -> nat {
    match s {
        TaskState::Accepted => 4,
        TaskState::Parsing => 3,
        TaskState::Handling => 2,
        TaskState::Responding(_) => 1,
        _ => 0,
    }
}

proof fn lemma_run_bounded(s: TaskState, events: Seq<TaskEvent>)
    requires
        run(s, events) is Some,
    ensures
        events.len() <= steps_left(s),
    decreases events.len(),
{
    if events.len() > 0 {
        let sa = transition(s, events[0])->Some_0;
        lemma_run_bounded(sa.0, events.drop_first());
    }
}

/// A connection takes at most four steps from acceptance and then accepts
/// no further event: each connection goes once through its branch and ends.
pub proof fn law_connection_ends(events: Seq<TaskEvent>, e: TaskEvent)
    requires
        run(TaskState::Accepted, events) is Some,
    ensures
        events.len() <= 4,
        transition(TaskState::Logged, e) is None,
        transition(TaskState::Closed, e) is None,
{
    lemma_run_bounded(TaskState::Accepted, events);
}

proof fn lemma_no_handler_after(s: TaskState, events: Seq<TaskEvent>)
    requires
        run(s, events) is Some,
        s is Responding || is_terminal(s),
    ensures
        run(s, events)->Some_0.len() == events.len(),
        forall|i: int|
            0 <= i < events.len() ==> (#[trigger] run(s, events)->Some_0[i]).1
                != TaskAction::InvokeHandler,
    decreases events.len(),
{
    if events.len() > 0 {
        let sa = transition(s, events[0])->Some_0;
        lemma_no_handler_after(sa.0, events.drop_first());
        let rest = run(sa.0, events.drop_first())->Some_0;
        assert(run(s, events)->Some_0 == seq![sa] + rest);
        assert forall|i: int| 0 <= i < events.len() implies (#[trigger] run(
            s,
            events,
        )->Some_0[i]).1 != TaskAction::InvokeHandler by {
            if i > 0 {
                assert(run(s, events)->Some_0[i] == rest[i - 1]);
            }
        }
    }
}

/// A malformed head is answered with the 400 page, and the handler is never
/// invoked on that connection.
pub proof fn law_malformed_skips_handler(events: Seq<TaskEvent>)
    requires
        events.len() >= 2,
        events[0] == TaskEvent::Started,
        events[1] == TaskEvent::HeadMalformed,
        run(TaskState::Accepted, events) is Some,
    ensures
        run(TaskState::Accepted, events)->Some_0[1].1 == TaskAction::SendErrorPage(
            HTTPResponseCode::HTTP400,
        ),
        forall|i: int|
            0 <= i < events.len() ==> (#[trigger] run(TaskState::Accepted, events)->Some_0[i]).1
                != TaskAction::InvokeHandler,
{
    let s1 = TaskState::Parsing;
    let s2 = TaskState::Responding(HTTPResponseCode::HTTP400);
    let a1 = TaskAction::ReadHead;
    let a2 = TaskAction::SendErrorPage(HTTPResponseCode::HTTP400);
    let tail = events.drop_first();
    let tail2 = tail.drop_first();
    assert(tail[0] == TaskEvent::HeadMalformed);
    lemma_no_handler_after(s2, tail2);
    let rest = run(s2, tail2)->Some_0;
    assert(run(s1, tail)->Some_0 == seq![(s2, a2)] + rest);
    let all = run(TaskState::Accepted, events)->Some_0;
    assert(all == seq![(s1, a1)] + (seq![(s2, a2)] + rest));
    assert forall|i: int| 0 <= i < events.len() implies (#[trigger] run(
        TaskState::Accepted,
        events,
    )->Some_0[i]).1 != TaskAction::InvokeHandler by {
        if i >= 2 {
            assert(all[i] == rest[i - 2]);
        }
    }
}

/// `[<peer>] <method> "<path>" => <code>`, or `[<peer>] ??? => <code>` when
/// no request was read, with ` (NOT SENT)` after it when the response did not
/// go out whole.
pub open spec fn log_line(
    peer: Seq<u8>,
    request: Option<(HTTPMethod, Seq<u8>)>,
    code: HTTPResponseCode,
    sent: bool,
) -> Seq<u8> {
    let what = match request {
        Some(mp) => mp.0.token() + seq![32u8, 34] + mp.1 + seq![34u8],
        None => seq![63u8, 63, 63],
    };
    let tail = if sent {
        Seq::empty()
    } else {
        seq![32u8, 40, 78, 79, 84, 32, 83, 69, 78, 84, 41]
    };
    seq![91u8] + peer + seq![93u8, 32] + what + seq![32u8, 61, 62, 32] + decimal(code.value())
        + tail
}

/// A duration in ten-thousandths of a second, as seconds with four decimals
/// and an `s`.
pub open spec fn seconds(t: u64) -> Seq<u8> {
    decimal((t / 10000) as nat) + seq![46u8] + zero_padded((t % 10000) as nat, 4) + seq![115u8]
}

/// ` (req: <parse>, resp: <head sent>, end: <body sent>)`
pub open spec fn timing(parse: u64, head: u64, end: u64) -> Seq<u8> {
    seq![32u8, 40, 114, 101, 113, 58, 32] + seconds(parse) + seq![44u8, 32, 114, 101, 115, 112, 58, 32]
        + seconds(head) + seq![44u8, 32, 101, 110, 100, 58, 32] + seconds(end) + seq![41u8]
}

/// The access log line of one connection.
pub fn access_log_line(
    peer: &[u8],
    request: Option<(HTTPMethod, &[u8])>,
    code: HTTPResponseCode,
    sent: bool,
) -> (r: Vec<u8>)
    ensures
        r@ == log_line(
            peer@,
            match request {
                Some(mp) => Some((mp.0, mp.1@)),
                None => None,
            },
            code,
            sent,
        ),
{
    let mut out: Vec<u8> = vec![91];
    push_all(&mut out, peer);
    out.push(93);
    out.push(32);
    match request {
        Some((m, p)) => {
            push_all(&mut out, m.name().as_slice());
            out.push(32);
            out.push(34);
            push_all(&mut out, p);
            out.push(34);
        },
        None => {
            out.push(63);
            out.push(63);
            out.push(63);
        },
    }
    let arrow: Vec<u8> = vec![32, 61, 62, 32];
    push_all(&mut out, arrow.as_slice());
    push_all(&mut out, code.code_text().as_slice());
    if !sent {
        let not_sent: Vec<u8> = vec![32, 40, 78, 79, 84, 32, 83, 69, 78, 84, 41];
        push_all(&mut out, not_sent.as_slice());
    }
    assert(out@ =~= log_line(
        peer@,
        match request {
            Some(mp) => Some((mp.0, mp.1@)),
            None => None,
        },
        code,
        sent,
    ));
    out
}

fn write_seconds(out: &mut Vec<u8>, t: u64)
    ensures
        final(out)@ == old(out)@ + seconds(t),
{
    push_all(out, decimal_bytes(t / 10000).as_slice());
    out.push(46);
    push_all(out, zero_padded_bytes(t % 10000, 4).as_slice());
    out.push(115);
    assert(final(out)@ =~= old(out)@ + seconds(t));
}

/// The durations a timing backend adds to the log line, each in
/// ten-thousandths of a second since the connection was accepted.
pub fn timing_suffix(parse: u64, head: u64, end: u64) -> (r: Vec<u8>)
    ensures
        r@ == timing(parse, head, end),
{
    let mut out: Vec<u8> = vec![32, 40, 114, 101, 113, 58, 32];
    write_seconds(&mut out, parse);
    let resp: Vec<u8> = vec![44, 32, 114, 101, 115, 112, 58, 32];
    push_all(&mut out, resp.as_slice());
    write_seconds(&mut out, head);
    let end_label: Vec<u8> = vec![44, 32, 101, 110, 100, 58, 32];
    push_all(&mut out, end_label.as_slice());
    write_seconds(&mut out, end);
    out.push(41);
    assert(out@ =~= timing(parse, head, end));
    out
}

} // verus!
