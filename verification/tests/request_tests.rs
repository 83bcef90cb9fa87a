use kanban::board::{Board, BoardError};
use kanban::edit::Edit;
use kanban::request::{required_args, ClientRequest, RequestOutcome};
use kanban::status::Status;

fn args(v: &[&str]) -> Vec<String> {
    v.iter().map(|s| s.to_string()).collect()
}

#[test]
fn required_args_by_command() {
    assert_eq!(required_args("add"), 2);
    assert_eq!(required_args("edit_content"), 2);
    assert_eq!(required_args("demote"), 1);
    assert_eq!(required_args("promote"), 1);
    assert_eq!(required_args("remove"), 1);
    assert_eq!(required_args("ready"), 0);
    assert_eq!(required_args("rename"), 0);
}

#[test]
fn parse_requests() {
    assert!(matches!(ClientRequest::parse("ready", &args(&[])), ClientRequest::Ready));
    match ClientRequest::parse("add", &args(&["n", "c", "extra"])) {
        ClientRequest::Edit(Edit::Add(n, c)) => assert_eq!((n.as_str(), c.as_str()), ("n", "c")),
        other => panic!("{:?}", other),
    }
    match ClientRequest::parse("edit_content", &args(&["n", "c"])) {
        ClientRequest::Edit(Edit::Update(n, c)) => assert_eq!((n.as_str(), c.as_str()), ("n", "c")),
        other => panic!("{:?}", other),
    }
    assert!(matches!(ClientRequest::parse("demote", &args(&["n"])), ClientRequest::Edit(Edit::Demote(_))));
    assert!(matches!(ClientRequest::parse("promote", &args(&["n"])), ClientRequest::Edit(Edit::Promote(_))));
    assert!(matches!(ClientRequest::parse("remove", &args(&["n"])), ClientRequest::Edit(Edit::Remove(_))));
    assert!(matches!(ClientRequest::parse("rename", &args(&["n", "m"])), ClientRequest::Unknown));
}

#[test]
fn handle_requests() {
    let mut b = Board::new("web");
    let add = ClientRequest::parse("add", &args(&["n", "c"]));
    assert_eq!(b.handle_request(&add), RequestOutcome::Edited);
    assert_eq!(b.handle_request(&add), RequestOutcome::Refused(BoardError::AlreadyExists));
    let promote = ClientRequest::parse("promote", &args(&["n"]));
    assert_eq!(b.handle_request(&promote), RequestOutcome::Edited);
    assert_eq!(b.items()[0].status(), Status::WorkInProgress);
    let ready = ClientRequest::parse("ready", &args(&[]));
    assert_eq!(b.handle_request(&ready), RequestOutcome::Snapshot);
    let unknown = ClientRequest::parse("dance", &args(&[]));
    assert_eq!(b.handle_request(&unknown), RequestOutcome::Ignored);
    assert_eq!(b.items().len(), 1);
}

#[test]
fn only_unknown_requests_go_unanswered() {
    assert!(!RequestOutcome::Ignored.broadcasts());
    assert!(RequestOutcome::Snapshot.broadcasts());
    assert!(RequestOutcome::Edited.broadcasts());
    assert!(RequestOutcome::Refused(BoardError::NotFound).broadcasts());
}
