//! The state machine of one connection.
//!
//! The caller reads lines, joins and posts to groups and writes responses;
//! this module decides, from each event, what the caller does next.
use crate::chat::group::Group;
use crate::chat::request::{
    law_post_line, parse_request, ParseErrorView, Request, RequestView,
};
use crate::chat::response::{parse_error_text, wrong_group_text, Response, ResponseView};
use crate::chat::table::{group_named, has_group, names_distinct, with_group, GroupTable};
use crate::chat::text::trim;
use std::sync::Arc;
use vstd::prelude::*;

verus! {

/// What a connection is waiting for while it dispatches a request.
#[derive(Clone, Copy, Debug, PartialEq, Eq, Structural)]
pub enum Pending {
    /// The subscription to a group.
    Join,
    /// The delivery of a post to a group's channel.
    Post,
    /// The writing of a report after which the connection goes on.
    Report,
    /// The writing of a report after which the connection closes.
    LastReport,
}

/// Where a connection stands.
#[derive(Clone, Copy, Debug, PartialEq, Eq, Structural)]
pub enum State {
    /// Waiting for the next line.
    Reading,
    /// Waiting for the outcome of the action handed out last.
    Dispatching(Pending),
    /// Finished: nothing more is read or written.
    Closed,
}

/// What happened on the connection.
pub enum Event {
    /// A line was read.
    Line(String),
    /// The client closed the stream.
    EndOfStream,
    /// Reading failed.
    ReadFailed,
    /// The action handed out last was carried out.
    Done,
    /// The action handed out last failed, for the reason given.
    Failed(String),
}

/// An event as plain text.
pub enum EventView {
    Line(Seq<char>),
    EndOfStream,
    ReadFailed,
    Done,
    Failed(Seq<char>),
}

impl View for Event {
    type V = EventView;

    open spec fn view(&self) -> EventView {
        match self {
            Event::Line(line) => EventView::Line(line@),
            Event::EndOfStream => EventView::EndOfStream,
            Event::ReadFailed => EventView::ReadFailed,
            Event::Done => EventView::Done,
            Event::Failed(reason) => EventView::Failed(reason@),
        }
    }
}

/// What the caller does next.
pub enum Action {
    /// Read the next line.
    Read,
    /// Subscribe the connection to the group.
    Subscribe(Arc<Group>),
    /// Post the message to the group's channel.
    Broadcast(Arc<Group>, Arc<String>),
    /// Write the response to the client.
    Send(Response),
    /// Close the connection.
    Close,
}

/// An action as plain text.
pub enum ActionView {
    Read,
    Subscribe { group_name: Seq<char> },
    Broadcast { group_name: Seq<char>, message: Seq<char> },
    Send(ResponseView),
    Close,
}

impl View for Action {
    type V = ActionView;

    open spec fn view(&self) -> ActionView {
        match self {
            Action::Read => ActionView::Read,
            Action::Subscribe(group) => ActionView::Subscribe { group_name: group.name_view() },
            Action::Broadcast(group, message) => ActionView::Broadcast {
                group_name: group.name_view(),
                message: message@,
            },
            Action::Send(response) => ActionView::Send(response@),
            Action::Close => ActionView::Close,
        }
    }
}

/// What a request leads to, given the groups that exist: a join subscribes,
/// a post to a group that exists is broadcast, and a post to any other name
/// is reported to the poster, after which the connection goes on.
pub open spec fn dispatch(request: RequestView, groups: Seq<Arc<Group>>) -> (State, ActionView) {
    match request {
        RequestView::Join { group_name } => (
            State::Dispatching(Pending::Join),
            ActionView::Subscribe { group_name },
        ),
        RequestView::Post { group_name, message } => if has_group(groups, group_name) {
            (State::Dispatching(Pending::Post), ActionView::Broadcast { group_name, message })
        } else {
            (
                State::Dispatching(Pending::Report),
                ActionView::Send(ResponseView::Error(wrong_group_text(group_name))),
            )
        },
    }
}

/// What a line that is no request leads to: one report, after which the
/// connection closes.
pub open spec fn reject(e: ParseErrorView) -> (State, ActionView) {
    (
        State::Dispatching(Pending::LastReport),
        ActionView::Send(ResponseView::Error(parse_error_text(e))),
    )
}

/// The next state and the action to take, from a state, an event and the
/// groups that exist.
pub open spec fn decide(state: State, event: EventView, groups: Seq<Arc<Group>>) -> (
    State,
    ActionView,
) {
    match state {
        State::Reading => match event {
            EventView::Line(line) => match parse_request(line) {
                Ok(request) => dispatch(request, groups),
                Err(e) => reject(e),
            },
            _ => (State::Closed, ActionView::Close),
        },
        State::Dispatching(pending) => match event {
            EventView::Done => if pending == Pending::LastReport {
                (State::Closed, ActionView::Close)
            } else {
                (State::Reading, ActionView::Read)
            },
            EventView::Failed(reason) => if pending == Pending::Post {
                (
                    State::Dispatching(Pending::LastReport),
                    ActionView::Send(ResponseView::Error(reason)),
                )
            } else {
                (State::Closed, ActionView::Close)
            },
            _ => (State::Closed, ActionView::Close),
        },
        State::Closed => (State::Closed, ActionView::Close),
    }
}

/// What an action does to the table of groups: subscribing gets or creates
/// the group, which is the one handed out; a broadcast goes to the group of
/// that name; nothing else touches the table.
pub open spec fn table_follows(
    before: Seq<Arc<Group>>,
    after: Seq<Arc<Group>>,
    action: Action,
) -> bool {
    match action {
        Action::Subscribe(group) => (after, group) == with_group(
            before,
            group.name_view(),
            group,
        ),
        Action::Broadcast(group, _) => after == before && has_group(before, group.name_view())
            && group == group_named(before, group.name_view()),
        _ => after == before,
    }
}

/// A post to a group that exists is handed to that group's channel, however
/// many subscribers the group has, and no error is reported: once the
/// channel has taken it, the connection reads on.
pub proof fn law_post_to_group(group: Seq<char>, message: Seq<char>, groups: Seq<Arc<Group>>)
    requires
        group.len() > 0 ==> group[0] != '/',
        forall|j: int| 0 <= j < group.len() ==> group[j] != ':',
        has_group(groups, trim(group)),
    ensures
        decide(State::Reading, EventView::Line(group + seq![':'] + message), groups) == (
            State::Dispatching(Pending::Post),
            ActionView::Broadcast { group_name: trim(group), message: trim(message) },
        ),
        decide(State::Dispatching(Pending::Post), EventView::Done, groups) == (
            State::Reading,
            ActionView::Read,
        ),
{
    law_post_line(group, message);
}

/// A post to a name that no group has is answered with one report to the
/// poster, naming the group; nothing is broadcast, and the connection reads
/// on.
pub proof fn law_post_to_unknown_group(
    group: Seq<char>,
    message: Seq<char>,
    groups: Seq<Arc<Group>>,
)
    requires
        group.len() > 0 ==> group[0] != '/',
        forall|j: int| 0 <= j < group.len() ==> group[j] != ':',
        !has_group(groups, trim(group)),
    ensures
        decide(State::Reading, EventView::Line(group + seq![':'] + message), groups) == (
            State::Dispatching(Pending::Report),
            ActionView::Send(ResponseView::Error(wrong_group_text(trim(group)))),
        ),
        decide(State::Dispatching(Pending::Report), EventView::Done, groups) == (
            State::Reading,
            ActionView::Read,
        ),
{
    law_post_line(group, message);
}

/// A line that is no request is answered with exactly one report, and then
/// the connection is closed: whatever happens after the report was handed
/// out, the connection closes, and a closed connection stays closed and
/// sends nothing.
pub proof fn law_rejected_line_closes(
    line: Seq<char>,
    groups: Seq<Arc<Group>>,
    next: EventView,
    later: EventView,
)
    ensures
        parse_request(line) matches Err(e) ==> decide(
            State::Reading,
            EventView::Line(line),
            groups,
        ) == (
            State::Dispatching(Pending::LastReport),
            ActionView::Send(ResponseView::Error(parse_error_text(e))),
        ),
        decide(State::Dispatching(Pending::LastReport), next, groups) == (
            State::Closed,
            ActionView::Close,
        ),
        decide(State::Closed, later, groups) == (State::Closed, ActionView::Close),
{
}

/// One connection's place in the protocol.
pub struct Connection {
    state: State,
}

impl Connection {
    /// The state of the connection.
    pub closed spec fn state_view(&self) -> State {
        self.state
    }

    /// A new connection, about to read its first line.
    pub fn new() -> (c: Connection)
        ensures
            c.state_view() == State::Reading,
    {
        Connection { state: State::Reading }
    }

    /// The state of the connection.
    pub fn state(&self) -> (s: State)
        ensures
            s == self.state_view(),
    {
        self.state
    }

    /// Takes one event and hands out the next action.
    pub fn step(&mut self, table: &mut GroupTable, event: Event) -> (action: Action)
        ensures
            (final(self).state_view(), action@) == decide(
                old(self).state_view(),
                event@,
                old(table)@,
            ),
            table_follows(old(table)@, final(table)@, action),
            names_distinct(final(table)@),
    {
        proof {
            use_type_invariant(&*table);
        }
        let (state, action) = match self.state {
            State::Reading => match event {
                Event::Line(line) => match Request::try_from(line.as_str()) {
                    Ok(request) => Connection::dispatch(table, request),
                    Err(e) => (
                        State::Dispatching(Pending::LastReport),
                        Action::Send(Response::parse_error(&e)),
                    ),
                },
                _ => Connection::close(),
            },
            State::Dispatching(pending) => match event {
                Event::Done => match pending {
                    Pending::LastReport => Connection::close(),
                    _ => Connection::read(),
                },
                Event::Failed(reason) => match pending {
                    Pending::Post => Connection::report(reason),
                    _ => Connection::close(),
                },
                _ => Connection::close(),
            },
            State::Closed => Connection::close(),
        };
        self.state = state;
        action
    }

    /// Carries a request to the table of groups.
    pub fn dispatch(table: &mut GroupTable, request: Request) -> (r: (State, Action))
        ensures
            (r.0, r.1@) == dispatch(request@, old(table)@),
            table_follows(old(table)@, final(table)@, r.1),
            names_distinct(final(table)@),
    {
        match request {
            Request::Join { group_name } => {
                let group = table.get_or_create(group_name);
                (State::Dispatching(Pending::Join), Action::Subscribe(group))
            },
            Request::Post { group_name, message } => match table.get(&*group_name) {
                Some(group) => (
                    State::Dispatching(Pending::Post),
                    Action::Broadcast(group, message),
                ),
                None => (
                    State::Dispatching(Pending::Report),
                    Action::Send(Response::wrong_group((*group_name).as_str())),
                ),
            },
        }
    }

    fn close() -> (r: (State, Action))
        ensures
            r.0 == State::Closed,
            r.1 is Close,
    {
        (State::Closed, Action::Close)
    }

    fn read() -> (r: (State, Action))
        ensures
            r.0 == State::Reading,
            r.1 is Read,
    {
        (State::Reading, Action::Read)
    }

    fn report(reason: String) -> (r: (State, Action))
        ensures
            r.0 == State::Dispatching(Pending::LastReport),
            r.1@ == ActionView::Send(ResponseView::Error(reason@)),
    {
        (State::Dispatching(Pending::LastReport), Action::Send(Response::Error(reason)))
    }
}

} // verus!
