//! The relay of one subscriber: what to do with each thing that its
//! receiving handle yields.
use crate::chat::group::share;
use crate::chat::response::{Response, ResponseView};
use crate::decimal::decimal;
use std::sync::Arc;
use vstd::prelude::*;

verus! {

/// What a subscriber's receiving handle yielded.
pub enum Received {
    /// The next post of the group.
    Message(Arc<String>),
    /// The channel is empty and closed.
    Closed,
    /// The subscriber fell behind and this many posts were skipped.
    Overflowed(u64),
}

/// What a receiving handle yielded, as plain text.
pub enum ReceivedView {
    Message(Seq<char>),
    Closed,
    Overflowed(u64),
}

impl View for Received {
    type V = ReceivedView;

    open spec fn view(&self) -> ReceivedView {
        match self {
            Received::Message(message) => ReceivedView::Message(message@),
            Received::Closed => ReceivedView::Closed,
            Received::Overflowed(missed) => ReceivedView::Overflowed(*missed),
        }
    }
}

/// What the relay does next.
pub enum RelayStep {
    /// Send the response to the subscriber and go on receiving.
    Forward(Response),
    /// Send the response to the subscriber once, then stop.
    Report(Response),
    /// Stop: the group is closed.
    Stop,
}

/// What the relay does next, as plain text.
pub enum RelayStepView {
    Forward(ResponseView),
    Report(ResponseView),
    Stop,
}

impl View for RelayStep {
    type V = RelayStepView;

    open spec fn view(&self) -> RelayStepView {
        match self {
            RelayStep::Forward(response) => RelayStepView::Forward(response@),
            RelayStep::Report(response) => RelayStepView::Report(response@),
            RelayStep::Stop => RelayStepView::Stop,
        }
    }
}

/// The text with which the channel reports `missed` skipped messages: the
/// number in decimal digits between two fixed phrases.
pub open spec fn overflow_text(missed: u64) -> Seq<char> {
    "receiving skipped "@ + decimal(missed as nat) + " messages"@
}

/// What the relay does with one thing received. A post of the group becomes
/// a message to the subscriber, and the relay goes on. A closed channel
/// stops the relay. Skipped posts are reported to the subscriber once, and
/// the relay stops.
pub open spec fn relay_step(group_name: Seq<char>, received: ReceivedView) -> RelayStepView {
    match received {
        ReceivedView::Message(message) => RelayStepView::Forward(
            ResponseView::Message { group_name, message },
        ),
        ReceivedView::Closed => RelayStepView::Stop,
        ReceivedView::Overflowed(missed) => RelayStepView::Report(
            ResponseView::Error(overflow_text(missed)),
        ),
    }
}

/// What a relay sends to its subscriber, in order, for what its handle
/// yields, in order: it takes one step for each thing received until a step
/// stops it.
pub open spec fn relayed(group_name: Seq<char>, received: Seq<ReceivedView>) -> Seq<ResponseView>
    decreases received.len(),
{
    if received.len() == 0 {
        Seq::empty()
    } else {
        match relay_step(group_name, received.first()) {
            RelayStepView::Forward(response) => seq![response] + relayed(
                group_name,
                received.drop_first(),
            ),
            RelayStepView::Report(response) => seq![response],
            RelayStepView::Stop => Seq::empty(),
        }
    }
}

/// A relay that receives the posts of its group sends one message for each
/// post, in the order in which the posts were received, each with the
/// group's name and the text of its post: none is added, skipped or
/// changed.
pub proof fn law_relay_keeps_order(group_name: Seq<char>, posts: Seq<Seq<char>>)
    ensures
        relayed(group_name, posts.map_values(|post: Seq<char>| ReceivedView::Message(post)))
            == posts.map_values(
            |post: Seq<char>| ResponseView::Message { group_name, message: post },
        ),
    decreases posts.len(),
{
    let received = posts.map_values(|post: Seq<char>| ReceivedView::Message(post));
    let sent = posts.map_values(
        |post: Seq<char>| ResponseView::Message { group_name, message: post },
    );
    if posts.len() == 0 {
        assert(relayed(group_name, received) =~= sent);
    } else {
        let rest = posts.drop_first();
        law_relay_keeps_order(group_name, rest);
        assert(received.drop_first() =~= rest.map_values(
            |post: Seq<char>| ReceivedView::Message(post),
        ));
        assert(received.first() == ReceivedView::Message(posts.first()));
        assert(sent =~= seq![sent.first()] + rest.map_values(
            |post: Seq<char>| ResponseView::Message { group_name, message: post },
        ));
    }
}

/// Formats `async_broadcast::RecvError::Overflowed` with its `Display`: the
/// words "receiving skipped", the number of skipped messages in decimal
/// digits, and the word "messages".
#[verifier::external_body]
fn describe_overflow(missed: u64) -> (text: String)
    ensures
        text@ == overflow_text(missed),
{
    async_broadcast::RecvError::Overflowed(missed).to_string()
}

/// Decides what the relay of the group called `group_name` does with one
/// thing received.
pub fn relay(group_name: &Arc<String>, received: Received) -> (step: RelayStep)
    ensures
        step@ == relay_step(group_name@, received@),
{
    match received {
        Received::Message(message) => RelayStep::Forward(
            Response::Message { group_name: share(group_name), message },
        ),
        Received::Closed => RelayStep::Stop,
        Received::Overflowed(missed) => RelayStep::Report(
            Response::Error(describe_overflow(missed)),
        ),
    }
}

} // verus!
