use httpls::task::{access_log_line, step, timing_suffix, TaskAction, TaskEvent, TaskState};
use httpls::{HTTPMethod, HTTPResponseCode};

#[test]
fn served_request_walks_its_branch() {
    let mut state = TaskState::Accepted;
    let events = [
        TaskEvent::Started,
        TaskEvent::HeadParsed,
        TaskEvent::HandlerResponded(HTTPResponseCode::HTTP200),
        TaskEvent::ResponseSent,
    ];
    let mut actions = Vec::new();
    for e in events {
        let (next, action) = step(state, e).unwrap();
        state = next;
        actions.push(action);
    }
    assert_eq!(state, TaskState::Logged);
    assert_eq!(
        actions,
        vec![
            TaskAction::ReadHead,
            TaskAction::InvokeHandler,
            TaskAction::SendResponse,
            TaskAction::WriteLog(HTTPResponseCode::HTTP200, true),
        ]
    );
    assert_eq!(step(state, TaskEvent::Started), None);
}

#[test]
fn malformed_head_gets_bad_request_page() {
    let (s, _) = step(TaskState::Accepted, TaskEvent::Started).unwrap();
    let (s, a) = step(s, TaskEvent::HeadMalformed).unwrap();
    assert_eq!(a, TaskAction::SendErrorPage(HTTPResponseCode::HTTP400));
    let (s, a) = step(s, TaskEvent::ResponseFailed).unwrap();
    assert_eq!(a, TaskAction::WriteLog(HTTPResponseCode::HTTP400, false));
    assert_eq!(s, TaskState::Logged);
}

#[test]
fn connection_error_closes_silently() {
    let (s, _) = step(TaskState::Accepted, TaskEvent::Started).unwrap();
    let (s, a) = step(s, TaskEvent::ConnectionFailed).unwrap();
    assert_eq!(a, TaskAction::CloseConnection);
    assert_eq!(s, TaskState::Closed);
    assert_eq!(step(s, TaskEvent::ResponseSent), None);
}

#[test]
fn handler_fault_and_decline() {
    assert_eq!(
        step(TaskState::Handling, TaskEvent::HandlerFailed),
        Some((
            TaskState::Responding(HTTPResponseCode::HTTP500),
            TaskAction::SendErrorPage(HTTPResponseCode::HTTP500)
        ))
    );
    assert_eq!(
        step(TaskState::Handling, TaskEvent::HandlerDeclined),
        Some((
            TaskState::Responding(HTTPResponseCode::HTTP400),
            TaskAction::SendErrorPage(HTTPResponseCode::HTTP400)
        ))
    );
    assert_eq!(step(TaskState::Parsing, TaskEvent::ResponseSent), None);
}

#[test]
fn log_lines() {
    let line = access_log_line(b"127.0.0.1:5000", Some((HTTPMethod::GET, b"/index")), HTTPResponseCode::HTTP200, true);
    assert_eq!(String::from_utf8(line).unwrap(), "[127.0.0.1:5000] GET \"/index\" => 200");
    let line = access_log_line(b"p", Some((HTTPMethod::POST, b"/")), HTTPResponseCode::HTTP500, false);
    assert_eq!(String::from_utf8(line).unwrap(), "[p] POST \"/\" => 500 (NOT SENT)");
    let line = access_log_line(b"p", None, HTTPResponseCode::HTTP400, true);
    assert_eq!(String::from_utf8(line).unwrap(), "[p] ??? => 400");
}

#[test]
fn timing_in_seconds() {
    let t = timing_suffix(12, 10000, 123456);
    assert_eq!(String::from_utf8(t).unwrap(), " (req: 0.0012s, resp: 1.0000s, end: 12.3456s)");
}
