use async_chat::chat::handler::{Action, Connection, Event, Pending, State};
use async_chat::chat::response::Response;
use async_chat::chat::table::GroupTable;
use std::sync::Arc;

fn line(text: &str) -> Event {
    Event::Line(text.to_string())
}

fn join(connection: &mut Connection, table: &mut GroupTable, name: &str) -> Arc<async_chat::chat::group::Group> {
    let group = match connection.step(table, line(&format!("/join {name}"))) {
        Action::Subscribe(group) => group,
        _ => panic!("a join must subscribe"),
    };
    assert_eq!(connection.state(), State::Dispatching(Pending::Join));
    assert!(matches!(connection.step(table, Event::Done), Action::Read));
    assert_eq!(connection.state(), State::Reading);
    group
}

#[test]
fn new_connection_reads() {
    assert_eq!(Connection::new().state(), State::Reading);
}

#[test]
fn join_creates_the_group_once() {
    let mut table = GroupTable::new();
    let mut a = Connection::new();
    let mut b = Connection::new();
    let first = join(&mut a, &mut table, "g");
    let second = join(&mut b, &mut table, "g");
    assert!(Arc::ptr_eq(&first, &second));
    assert_eq!(first.name().as_str(), "g");
    let other = join(&mut a, &mut table, "h");
    assert!(!Arc::ptr_eq(&first, &other));
}

#[test]
fn post_goes_to_the_group_of_that_name_only() {
    let mut table = GroupTable::new();
    let mut a = Connection::new();
    let mut b = Connection::new();
    let mut c = Connection::new();
    let g = join(&mut a, &mut table, "g");
    join(&mut b, &mut table, "g");
    let h = join(&mut c, &mut table, "h");
    match c.step(&mut table, line("g: hello")) {
        Action::Broadcast(group, message) => {
            assert!(Arc::ptr_eq(&group, &g));
            assert!(!Arc::ptr_eq(&group, &h));
            assert_eq!(message.as_str(), "hello");
        }
        _ => panic!("a post to a group must be broadcast"),
    }
    assert_eq!(c.state(), State::Dispatching(Pending::Post));
    assert!(matches!(c.step(&mut table, Event::Done), Action::Read));
    assert_eq!(c.state(), State::Reading);
}

#[test]
fn post_to_a_group_without_subscribers_is_broadcast() {
    let mut table = GroupTable::new();
    table.get_or_create(Arc::new("g".to_string()));
    let mut poster = Connection::new();
    assert!(matches!(
        poster.step(&mut table, line("g: anyone?")),
        Action::Broadcast(_, _)
    ));
    assert!(matches!(poster.step(&mut table, Event::Done), Action::Read));
    assert_eq!(poster.state(), State::Reading);
}

#[test]
fn post_to_an_unknown_group_is_reported_and_the_connection_goes_on() {
    let mut table = GroupTable::new();
    let mut poster = Connection::new();
    match poster.step(&mut table, line("nowhere: hello")) {
        Action::Send(response) => {
            assert_eq!(response, Response::Error("wrong group: nowhere".to_string()))
        }
        _ => panic!("a post to an unknown group must be reported"),
    }
    assert_eq!(poster.state(), State::Dispatching(Pending::Report));
    assert!(table.get(&"nowhere".to_string()).is_none());
    assert!(matches!(poster.step(&mut table, Event::Done), Action::Read));
    assert_eq!(poster.state(), State::Reading);
}

#[test]
fn unparseable_line_gets_one_error_and_then_the_connection_closes() {
    let mut table = GroupTable::new();
    let mut connection = Connection::new();
    match connection.step(&mut table, line("no separator here")) {
        Action::Send(response) => assert_eq!(
            response,
            Response::Error("invalid request: no separator here".to_string())
        ),
        _ => panic!("a bad line must be reported"),
    }
    assert_eq!(connection.state(), State::Dispatching(Pending::LastReport));
    assert!(matches!(connection.step(&mut table, Event::Done), Action::Close));
    assert_eq!(connection.state(), State::Closed);
    assert!(matches!(
        connection.step(&mut table, line("g: late")),
        Action::Close
    ));
    assert_eq!(connection.state(), State::Closed);
}

#[test]
fn unsupported_command_is_reported_with_its_name() {
    let mut table = GroupTable::new();
    let mut connection = Connection::new();
    match connection.step(&mut table, line("/leave g")) {
        Action::Send(response) => assert_eq!(
            response,
            Response::Error("unsupported command: /leave".to_string())
        ),
        _ => panic!("a bad command must be reported"),
    }
    assert!(matches!(
        connection.step(&mut table, Event::Failed("broken pipe".to_string())),
        Action::Close
    ));
    assert_eq!(connection.state(), State::Closed);
}

#[test]
fn end_of_stream_and_read_failure_close() {
    let mut table = GroupTable::new();
    let mut connection = Connection::new();
    assert!(matches!(
        connection.step(&mut table, Event::EndOfStream),
        Action::Close
    ));
    assert_eq!(connection.state(), State::Closed);
    let mut connection = Connection::new();
    assert!(matches!(
        connection.step(&mut table, Event::ReadFailed),
        Action::Close
    ));
    assert_eq!(connection.state(), State::Closed);
}

#[test]
fn failed_broadcast_is_reported_and_fatal() {
    let mut table = GroupTable::new();
    table.get_or_create(Arc::new("g".to_string()));
    let mut connection = Connection::new();
    assert!(matches!(
        connection.step(&mut table, line("g: hello")),
        Action::Broadcast(_, _)
    ));
    match connection.step(&mut table, Event::Failed("sending into a closed channel".to_string())) {
        Action::Send(response) => assert_eq!(
            response,
            Response::Error("sending into a closed channel".to_string())
        ),
        _ => panic!("a failed broadcast must be reported"),
    }
    assert_eq!(connection.state(), State::Dispatching(Pending::LastReport));
    assert!(matches!(connection.step(&mut table, Event::Done), Action::Close));
    assert_eq!(connection.state(), State::Closed);
}

#[test]
fn failed_report_closes() {
    let mut table = GroupTable::new();
    let mut connection = Connection::new();
    assert!(matches!(
        connection.step(&mut table, line("nowhere: hello")),
        Action::Send(_)
    ));
    assert!(matches!(
        connection.step(&mut table, Event::Failed("broken pipe".to_string())),
        Action::Close
    ));
    assert_eq!(connection.state(), State::Closed);
}

#[test]
fn event_out_of_turn_closes() {
    let mut table = GroupTable::new();
    let mut connection = Connection::new();
    assert!(matches!(connection.step(&mut table, Event::Done), Action::Close));
    assert_eq!(connection.state(), State::Closed);
    let mut connection = Connection::new();
    assert!(matches!(
        connection.step(&mut table, line("/join g")),
        Action::Subscribe(_)
    ));
    assert!(matches!(
        connection.step(&mut table, line("/join h")),
        Action::Close
    ));
    assert_eq!(connection.state(), State::Closed);
}
