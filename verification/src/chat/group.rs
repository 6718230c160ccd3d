//! A group: a name and the broadcast channel that carries its posts.
use async_broadcast::{InactiveReceiver, Receiver, Sender, TrySendError};
use std::sync::Arc;
use vstd::prelude::*;

verus! {

/// The sending half of a broadcast channel.
#[verifier::external_type_specification]
#[verifier::external_body]
#[verifier::reject_recursive_types(T)]
pub struct ExSender<T>(Sender<T>);

/// The receiving half of a broadcast channel.
#[verifier::external_type_specification]
#[verifier::external_body]
#[verifier::reject_recursive_types(T)]
pub struct ExReceiver<T>(Receiver<T>);

/// A handle that keeps a broadcast channel open without receiving from it.
#[verifier::external_type_specification]
#[verifier::external_body]
#[verifier::reject_recursive_types(T)]
pub struct ExInactiveReceiver<T>(InactiveReceiver<T>);

/// How many undelivered posts a group's channel holds before posting waits.
pub const GROUP_CAPACITY: usize = 8;

/// The number of messages that a channel was made to hold.
pub uninterp spec fn channel_limit(tx: Sender<Arc<String>>) -> nat;

/// Calls `async_broadcast::broadcast`: a new channel, made to hold `cap`
/// messages, as its sender and its first receiver. The outside function
/// panics on a capacity of zero.
#[verifier::external_body]
fn open_channel(cap: usize) -> (r: (Sender<Arc<String>>, Receiver<Arc<String>>))
    requires
        cap > 0,
    ensures
        channel_limit(r.0) == cap,
{
    async_broadcast::broadcast(cap)
}

/// The number of messages that the channel of a receiver was made to hold.
pub uninterp spec fn receiver_limit(rx: Receiver<Arc<String>>) -> nat;

/// Calls `Sender::new_receiver`: one more receiver on the sender's channel,
/// which is therefore a channel made to hold as many messages as the
/// sender's. Nothing is claimed of what the receiver will receive.
#[verifier::external_body]
fn new_receiver(tx: &Sender<Arc<String>>) -> (rx: Receiver<Arc<String>>)
    ensures
        receiver_limit(rx) == channel_limit(*tx),
{
    tx.new_receiver()
}

/// Calls `Sender::set_await_active`: says whether a poster that waits also
/// waits for a subscriber. The channel stays the one it was, made to hold
/// as many messages.
#[verifier::external_body]
fn set_await_active(tx: &mut Sender<Arc<String>>, await_active: bool)
    ensures
        channel_limit(*final(tx)) == channel_limit(*old(tx)),
{
    tx.set_await_active(await_active)
}

/// Calls `Receiver::deactivate`: the receiver gives up receiving and only
/// keeps its channel open. Nothing is claimed of the result.
#[verifier::external_body]
fn deactivate(rx: Receiver<Arc<String>>) -> (idle: InactiveReceiver<Arc<String>>) {
    rx.deactivate()
}

/// What became of an attempt to post without waiting.
pub enum PostAttempt {
    /// The channel took the message.
    Posted,
    /// The channel is full; the message comes back.
    Full(Arc<String>),
    /// Nobody is subscribed; the message comes back.
    Inactive(Arc<String>),
    /// The channel is closed; the message comes back.
    Closed(Arc<String>),
}

impl PostAttempt {
    /// The message that came back, if the channel did not take it.
    pub open spec fn returned(self) -> Option<Arc<String>> {
        match self {
            PostAttempt::Posted => None,
            PostAttempt::Full(message) => Some(message),
            PostAttempt::Inactive(message) => Some(message),
            PostAttempt::Closed(message) => Some(message),
        }
    }
}

/// Calls `Sender::try_broadcast`: the channel takes the message, or hands it
/// back because it is full, has no subscriber or is closed. Which of these
/// happens depends on the channel; a message that comes back is the one
/// that was handed in.
#[verifier::external_body]
fn try_broadcast(tx: &Sender<Arc<String>>, message: Arc<String>) -> (r: PostAttempt)
    ensures
        r.returned() is Some ==> r.returned() == Some(message),
{
    match tx.try_broadcast(message) {
        Ok(_) => PostAttempt::Posted,
        Err(TrySendError::Full(message)) => PostAttempt::Full(message),
        Err(TrySendError::Inactive(message)) => PostAttempt::Inactive(message),
        Err(TrySendError::Closed(message)) => PostAttempt::Closed(message),
    }
}

/// What a poster does after an attempt to post.
pub enum PostStep {
    /// Nothing more: the channel took the message, or nobody is subscribed
    /// and the message is dropped unobserved.
    Done,
    /// Wait for room in the channel and post the message then; if the wait
    /// ends without the message posted, attempt the post anew.
    Wait(Arc<String>),
    /// Give up: the group is closed.
    Closed,
}

/// A message that the channel took is posted, and so is one that nobody is
/// subscribed to observe; a full channel makes the poster wait; a closed
/// one fails the post.
pub fn post_step(attempt: PostAttempt) -> (step: PostStep)
    ensures
        match attempt {
            PostAttempt::Posted => step is Done,
            PostAttempt::Inactive(_) => step is Done,
            PostAttempt::Full(message) => step == PostStep::Wait(message),
            PostAttempt::Closed(_) => step is Closed,
        },
{
    match attempt {
        PostAttempt::Posted => PostStep::Done,
        PostAttempt::Inactive(_) => PostStep::Done,
        PostAttempt::Full(message) => PostStep::Wait(message),
        PostAttempt::Closed(_) => PostStep::Closed,
    }
}

/// Calls `Arc::clone`: another handle on the same value.
#[verifier::external_body]
pub(crate) fn share<T>(handle: &Arc<T>) -> (r: Arc<T>)
    ensures
        r == *handle,
{
    handle.clone()
}

/// A named broadcast destination.
pub struct Group {
    name: Arc<String>,
    tx: Sender<Arc<String>>,
    _rx: InactiveReceiver<Arc<String>>,
}

impl Group {
    /// The group's name, as text.
    pub closed spec fn name_view(&self) -> Seq<char> {
        self.name@
    }

    /// The capacity that the group's channel was made with.
    pub closed spec fn limit(&self) -> nat {
        channel_limit(self.tx)
    }

    /// A group called `name`, with an empty channel of the fixed capacity.
    /// A poster that waits on it waits for room only, never for a
    /// subscriber.
    pub fn new(name: Arc<String>) -> (g: Group)
        ensures
            g.name_view() == name@,
            g.limit() == GROUP_CAPACITY,
    {
        let (mut tx, rx) = open_channel(GROUP_CAPACITY);
        set_await_active(&mut tx, false);
        Group { name, tx, _rx: deactivate(rx) }
    }

    /// The group's name.
    pub fn name(&self) -> (n: &Arc<String>)
        ensures
            n@ == self.name_view(),
    {
        &self.name
    }

    /// The sending half of the group's channel, for posting.
    pub fn sender(&self) -> (tx: &Sender<Arc<String>>)
        ensures
            channel_limit(*tx) == self.limit(),
    {
        &self.tx
    }

    /// Posts `message` to the group if that takes no waiting. Where the
    /// poster has to wait, the message to post comes back.
    pub fn post(&self, message: Arc<String>) -> (step: PostStep)
        ensures
            step matches PostStep::Wait(back) ==> back == message,
    {
        post_step(try_broadcast(&self.tx, message))
    }

    /// A new receiving handle on the group's channel, for one subscriber:
    /// the handle's channel holds as many undelivered posts as the group's.
    pub fn join(&self) -> (rx: Receiver<Arc<String>>)
        ensures
            receiver_limit(rx) == self.limit(),
    {
        new_receiver(&self.tx)
    }
}

} // verus!
