//! Event property nodes: when a node subscribed to an event asks its filter, when its handler
//! runs, and whether the handler runs before or after the node's child.
use vstd::prelude::*;

verus! {

/// The order in which a node and its child see an event notification or an update.
#[derive(Clone, Copy, Debug, PartialEq, Eq, Structural)]
pub enum EventRoute {
    /// The child first, then the node's handler: the inner widget handles first.
    ChildThenHandler,
    /// The node's handler first, then the child: the outer widget handles first.
    HandlerThenChild,
}

/// An event property node: a preview node handles before its child, a normal node after it;
/// the node is subscribed to its event while it is initialized.
#[derive(Clone, Copy, Debug, PartialEq, Eq, Structural)]
pub struct EventNode {
    /// The handler runs before the child.
    pub preview: bool,
    /// The node holds its subscription to the event.
    pub subscribed: bool,
}

/// A node that handles the event after its child, not initialized.
pub fn on_event() -> (r: EventNode)
    ensures
        !r.preview,
        !r.subscribed,
{
    EventNode { preview: false, subscribed: false }
}

/// A node that handles the event before its child, not initialized.
pub fn on_pre_event() -> (r: EventNode)
    ensures
        r.preview,
        !r.subscribed,
{
    EventNode { preview: true, subscribed: false }
}

impl EventNode {
    /// Initializes the node: it subscribes to its event.
    pub fn init(&mut self)
        ensures
            final(self).subscribed,
            final(self).preview == old(self).preview,
    {
        self.subscribed = true;
    }

    /// Deinitializes the node: its subscription is dropped.
    pub fn deinit(&mut self)
        ensures
            !final(self).subscribed,
            final(self).preview == old(self).preview,
    {
        self.subscribed = false;
    }

    /// The order of the node's handler and its child, for events and for updates.
    pub fn route(&self) -> (r: EventRoute)
        ensures
            r == (if self.preview {
                EventRoute::HandlerThenChild
            } else {
                EventRoute::ChildThenHandler
            }),
    {
        if self.preview {
            EventRoute::HandlerThenChild
        } else {
            EventRoute::ChildThenHandler
        }
    }

    /// If the filter is asked about a notification: only while its propagation is not stopped.
    pub fn asks_filter(&self, propagation_stopped: bool) -> (r: bool)
        ensures
            r == !propagation_stopped,
    {
        !propagation_stopped
    }

    /// If the handler runs for a notification: its propagation is not stopped and the filter
    /// accepts it.
    pub fn handler_runs(&self, propagation_stopped: bool, filter_accepts: bool) -> (r: bool)
        ensures
            r == (!propagation_stopped && filter_accepts),
    {
        !propagation_stopped && filter_accepts
    }
}

} // verus!
