use vstd::prelude::*;

use crate::subscriptions::SubscriptionsState;

verus! {

/// Where the listener of one connection stands.
#[derive(PartialEq, Eq, Structural, Clone, Copy, Debug)]
pub enum RouterState {
    /// Asking the server for the subscription that covers every topic.
    Subscribing,
    /// Waiting for the next message of that subscription.
    Listening,
    /// The subscription ended: releasing it before asking again.
    Unsubscribing,
    /// Stopped for good: the connection was replaced.
    Cancelled,
}

/// What happened to the listener.
#[derive(Debug)]
pub enum RouterEvent {
    Subscribed,
    SubscribeFailed,
    /// A message for the named topic arrived.
    Message(String),
    /// The broad subscription yields no more messages.
    StreamEnded,
    /// Releasing the subscription finished, whether or not it succeeded.
    Unsubscribed,
    /// The connection manager stopped this listener.
    Cancel,
}

/// What the listener does next.
#[derive(Debug)]
pub enum RouterAction {
    /// Subscribe to every topic (the empty prefix), all updates delivered.
    OpenBroadSubscription,
    /// Wait for the next message.
    AwaitMessage,
    /// Hand the message just received to the presentation layer under its
    /// topic name, then wait for the next one.
    Forward(String),
    /// Release the ended subscription.
    CloseBroadSubscription,
    /// Do nothing more.
    Stop,
}

/// The action a state asks for when it is (re)entered.
pub open spec fn entry_action(s: RouterState) -> RouterAction {
    match s {
        RouterState::Subscribing => RouterAction::OpenBroadSubscription,
        RouterState::Listening => RouterAction::AwaitMessage,
        RouterState::Unsubscribing => RouterAction::CloseBroadSubscription,
        RouterState::Cancelled => RouterAction::Stop,
    }
}

/// The listener's transitions. A message is forwarded only where its topic is
/// subscribed to in `subs`; a subscribe failure is retried at once; an event
/// that does not belong to the state leaves it as it is.
pub open spec fn router_next(s: RouterState, e: RouterEvent, subs: Map<Seq<char>, u64>) -> (
    RouterState,
    RouterAction,
) {
    match (s, e) {
        (_, RouterEvent::Cancel) => (RouterState::Cancelled, RouterAction::Stop),
        (RouterState::Cancelled, _) => (RouterState::Cancelled, RouterAction::Stop),
        (RouterState::Subscribing, RouterEvent::Subscribed) => (
            RouterState::Listening,
            RouterAction::AwaitMessage,
        ),
        (RouterState::Subscribing, RouterEvent::SubscribeFailed) => (
            RouterState::Subscribing,
            RouterAction::OpenBroadSubscription,
        ),
        (RouterState::Listening, RouterEvent::Message(t)) => (
            RouterState::Listening,
            if subs.contains_key(t@) {
                RouterAction::Forward(t)
            } else {
                RouterAction::AwaitMessage
            },
        ),
        (RouterState::Listening, RouterEvent::StreamEnded) => (
            RouterState::Unsubscribing,
            RouterAction::CloseBroadSubscription,
        ),
        (RouterState::Unsubscribing, RouterEvent::Unsubscribed) => (
            RouterState::Subscribing,
            RouterAction::OpenBroadSubscription,
        ),
        (s, _) => (s, entry_action(s)),
    }
}

/// One step of the listener of a connection: the next state and action.
pub fn router_step(state: RouterState, event: RouterEvent, subscriptions: &SubscriptionsState) -> (r: (
    RouterState,
    RouterAction,
))
    requires
        subscriptions.wf(),
    ensures
        r == router_next(state, event, subscriptions@),
{
    match event {
        RouterEvent::Cancel => (RouterState::Cancelled, RouterAction::Stop),
        event => match state {
            RouterState::Cancelled => (RouterState::Cancelled, RouterAction::Stop),
            RouterState::Subscribing => match event {
                RouterEvent::Subscribed => (RouterState::Listening, RouterAction::AwaitMessage),
                _ => (RouterState::Subscribing, RouterAction::OpenBroadSubscription),
            },
            RouterState::Listening => match event {
                RouterEvent::Message(t) => {
                    if subscriptions.is_subscribed_to(&t) {
                        (RouterState::Listening, RouterAction::Forward(t))
                    } else {
                        (RouterState::Listening, RouterAction::AwaitMessage)
                    }
                },
                RouterEvent::StreamEnded => (
                    RouterState::Unsubscribing,
                    RouterAction::CloseBroadSubscription,
                ),
                _ => (RouterState::Listening, RouterAction::AwaitMessage),
            },
            RouterState::Unsubscribing => match event {
                RouterEvent::Unsubscribed => (
                    RouterState::Subscribing,
                    RouterAction::OpenBroadSubscription,
                ),
                _ => (RouterState::Unsubscribing, RouterAction::CloseBroadSubscription),
            },
        },
    }
}

} // verus!
