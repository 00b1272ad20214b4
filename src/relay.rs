//! Decisions of the transport loops: what the local relay does with each
//! inbound message, and what a fan-out subscriber does with each receive.
use vstd::prelude::*;

verus! {

/// The kinds of message a full-duplex message connection delivers.
#[derive(Clone, Copy, Debug, PartialEq, Eq, Structural)]
pub enum MessageKind {
    Text,
    Binary,
    Ping,
    Pong,
    Close,
    /// A raw frame below the message level.
    Frame,
}

/// What the relay's reader does with an inbound message.
#[derive(Clone, Copy, Debug, PartialEq, Eq, Structural)]
pub enum InboundAction {
    /// Hand the message's bytes, unchanged, to the downlink queue.
    Forward,
    /// Log the message and go on.
    Ignore,
    /// End the connection gracefully.
    End,
}

/// What the relay's reader does with a message of this kind: binary messages
/// are forwarded, a close or another control message ends the connection,
/// anything else is logged and ignored.
pub fn on_inbound(kind: MessageKind) -> (r: InboundAction)
    ensures
        kind == MessageKind::Binary ==> r == InboundAction::Forward,
        kind == MessageKind::Close || kind == MessageKind::Ping || kind == MessageKind::Pong ==> r
            == InboundAction::End,
        kind == MessageKind::Text || kind == MessageKind::Frame ==> r == InboundAction::Ignore,
{
    match kind {
        MessageKind::Binary => InboundAction::Forward,
        MessageKind::Close | MessageKind::Ping | MessageKind::Pong => InboundAction::End,
        MessageKind::Text | MessageKind::Frame => InboundAction::Ignore,
    }
}

/// What a receive on a fan-out queue gave a subscriber.
#[derive(Clone, Copy, Debug, PartialEq, Eq, Structural)]
pub enum FanoutReceive {
    /// The next item.
    Item,
    /// The subscriber fell this many items behind; they are gone.
    Lagged(u64),
    /// Every producer is gone.
    Closed,
}

/// What a subscriber does next.
#[derive(Clone, Copy, Debug, PartialEq, Eq, Structural)]
pub enum FanoutAction {
    /// Handle the item.
    Deliver,
    /// Log the gap and receive again from the oldest item still held.
    SkipAhead,
    /// End the subscriber's task.
    Stop,
}

/// A subscriber delivers items, skips forward over a lag and stops once the
/// queue is closed.
pub fn on_fanout(received: FanoutReceive) -> (r: FanoutAction)
    ensures
        received is Item ==> r == FanoutAction::Deliver,
        received is Lagged ==> r == FanoutAction::SkipAhead,
        received is Closed ==> r == FanoutAction::Stop,
{
    match received {
        FanoutReceive::Item => FanoutAction::Deliver,
        FanoutReceive::Lagged(_) => FanoutAction::SkipAhead,
        FanoutReceive::Closed => FanoutAction::Stop,
    }
}

} // verus!
