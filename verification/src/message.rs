//! The message events that the parsers produce.
use std::time::Duration;
use vstd::prelude::*;

verus! {

/// A message received on an event stream: its event type, its data, its id
/// and the reconnection time it asks for, if any.
#[derive(Debug, Clone, PartialEq, Eq)]
pub struct MessageEvent {
    pub event: String,
    pub data: String,
    pub id: String,
    pub retry: Option<Duration>,
}

/// The mathematical value of a [`MessageEvent`].
pub struct MessageEventView {
    pub event: Seq<char>,
    pub data: Seq<char>,
    pub id: Seq<char>,
    pub retry: Option<Duration>,
}

impl View for MessageEvent {
    type V = MessageEventView;

    open spec fn view(&self) -> MessageEventView {
        MessageEventView { event: self.event@, data: self.data@, id: self.id@, retry: self.retry }
    }
}

/// The views of a sequence of message events.
pub open spec fn message_views(events: Seq<MessageEvent>) -> Seq<MessageEventView> {
    events.map_values(|e: MessageEvent| e@)
}

} // verus!
