use async_broadcast::TryRecvError;
use async_chat::chat::group::{post_step, Group, PostAttempt, PostStep, GROUP_CAPACITY};
use async_chat::chat::relay::{relay, Received, RelayStep};
use async_chat::chat::response::Response;
use async_chat::chat::table::GroupTable;
use std::sync::Arc;

fn text(s: &str) -> Arc<String> {
    Arc::new(s.to_string())
}

#[test]
fn group_has_its_name_and_the_fixed_capacity() {
    let group = Group::new(text("g"));
    assert_eq!(group.name().as_str(), "g");
    assert_eq!(GROUP_CAPACITY, 8);
    assert_eq!(group.sender().capacity(), 8);
}

#[test]
fn a_member_handle_is_on_a_channel_of_the_group_capacity() {
    let group = Group::new(text("g"));
    let member = group.join();
    assert_eq!(member.capacity(), GROUP_CAPACITY);
    assert_eq!(member.capacity(), group.sender().capacity());
}

#[test]
fn a_poster_waits_for_room_only() {
    let group = Group::new(text("g"));
    assert!(!group.sender().await_active());
    let mut member = group.join();
    for i in 0..GROUP_CAPACITY {
        assert!(matches!(group.post(text(&i.to_string())), PostStep::Done));
    }
    let waiting = match group.post(text("late")) {
        PostStep::Wait(message) => message,
        _ => panic!("a full channel must make the poster wait"),
    };
    assert_eq!(member.try_recv(), Ok(text("0")));
    drop(member);
    assert!(matches!(group.post(waiting), PostStep::Done));
}

#[test]
fn every_member_receives_each_post_in_order() {
    let group = Group::new(text("g"));
    let mut a = group.join();
    let mut b = group.join();
    let other = Group::new(text("h"));
    let mut c = other.join();
    assert!(matches!(group.post(text("one")), PostStep::Done));
    assert!(matches!(group.post(text("two")), PostStep::Done));
    assert_eq!(a.try_recv(), Ok(text("one")));
    assert_eq!(a.try_recv(), Ok(text("two")));
    assert_eq!(a.try_recv(), Err(TryRecvError::Empty));
    assert_eq!(b.try_recv(), Ok(text("one")));
    assert_eq!(b.try_recv(), Ok(text("two")));
    assert_eq!(c.try_recv(), Err(TryRecvError::Empty));
}

#[test]
fn a_member_sees_only_what_was_posted_after_it_joined() {
    let group = Group::new(text("g"));
    let mut early = group.join();
    assert!(matches!(group.post(text("early")), PostStep::Done));
    let mut late = group.join();
    assert!(matches!(group.post(text("late")), PostStep::Done));
    assert_eq!(early.try_recv(), Ok(text("early")));
    assert_eq!(late.try_recv(), Ok(text("late")));
}

#[test]
fn a_full_channel_makes_the_poster_wait() {
    let group = Group::new(text("g"));
    let mut slow = group.join();
    for i in 0..GROUP_CAPACITY {
        assert!(matches!(group.post(text(&i.to_string())), PostStep::Done));
    }
    match group.post(text("one too many")) {
        PostStep::Wait(message) => assert_eq!(message, text("one too many")),
        _ => panic!("a full channel must make the poster wait"),
    }
    assert_eq!(slow.try_recv(), Ok(text("0")));
    assert!(matches!(group.post(text("room again")), PostStep::Done));
}

#[test]
fn a_post_to_a_group_without_members_is_done_and_unobserved() {
    let group = Group::new(text("g"));
    for i in 0..3 * GROUP_CAPACITY {
        assert!(matches!(group.post(text(&i.to_string())), PostStep::Done));
    }
    let mut late = group.join();
    assert_eq!(late.try_recv(), Err(TryRecvError::Empty));
}

#[test]
fn post_step_for_each_attempt() {
    assert!(matches!(post_step(PostAttempt::Posted), PostStep::Done));
    assert!(matches!(post_step(PostAttempt::Inactive(text("m"))), PostStep::Done));
    assert!(matches!(post_step(PostAttempt::Closed(text("m"))), PostStep::Closed));
    match post_step(PostAttempt::Full(text("m"))) {
        PostStep::Wait(message) => assert_eq!(message, text("m")),
        _ => panic!("a full channel must make the poster wait"),
    }
}

#[test]
fn table_get_never_creates() {
    let mut table = GroupTable::new();
    assert!(table.get(&"g".to_string()).is_none());
    assert!(table.get(&"g".to_string()).is_none());
    let made = table.get_or_create(text("g"));
    let found = table.get(&"g".to_string()).unwrap();
    assert!(Arc::ptr_eq(&made, &found));
    assert!(table.get(&"G".to_string()).is_none());
    assert!(table.get(&" g".to_string()).is_none());
}

#[test]
fn table_get_or_create_gives_one_group_for_each_name() {
    let mut table = GroupTable::new();
    let first = table.get_or_create(text("g"));
    let mut member = first.join();
    for _ in 0..10 {
        let again = table.get_or_create(text("g"));
        assert!(Arc::ptr_eq(&first, &again));
    }
    let other = table.get_or_create(text("h"));
    assert!(!Arc::ptr_eq(&first, &other));
    let again = table.get_or_create(text("g"));
    assert!(matches!(again.post(text("once")), PostStep::Done));
    assert_eq!(member.try_recv(), Ok(text("once")));
    assert_eq!(member.try_recv(), Err(TryRecvError::Empty));
}

#[test]
fn relay_forwards_posts_as_messages() {
    match relay(&text("g"), Received::Message(text("hello"))) {
        RelayStep::Forward(response) => assert_eq!(
            response,
            Response::Message {
                group_name: text("g"),
                message: text("hello"),
            }
        ),
        _ => panic!("a post must be forwarded"),
    }
}

#[test]
fn relay_stops_on_a_closed_channel() {
    assert!(matches!(relay(&text("g"), Received::Closed), RelayStep::Stop));
}

#[test]
fn relay_reports_the_count_in_decimal() {
    for (missed, text) in [
        (0, "receiving skipped 0 messages"),
        (10, "receiving skipped 10 messages"),
        (u64::MAX, "receiving skipped 18446744073709551615 messages"),
    ] {
        match relay(&Arc::new("g".to_string()), Received::Overflowed(missed)) {
            RelayStep::Report(response) => assert_eq!(response, Response::Error(text.to_string())),
            _ => panic!("skipped posts must be reported"),
        }
    }
}

#[test]
fn relay_keeps_the_order_of_posts() {
    let name = text("g");
    let mut sent = Vec::new();
    for post in ["one", "two", "three"] {
        match relay(&name, Received::Message(text(post))) {
            RelayStep::Forward(response) => sent.push(response),
            _ => panic!("a post must be forwarded"),
        }
    }
    let want: Vec<Response> = ["one", "two", "three"]
        .iter()
        .map(|post| Response::Message {
            group_name: text("g"),
            message: text(post),
        })
        .collect();
    assert_eq!(sent, want);
}

#[test]
fn relay_reports_skipped_posts_once() {
    match relay(&text("g"), Received::Overflowed(3)) {
        RelayStep::Report(response) => assert_eq!(
            response,
            Response::Error("receiving skipped 3 messages".to_string())
        ),
        _ => panic!("skipped posts must be reported"),
    }
}
