use vstd::prelude::*;

verus! {

/// A notification from the view layer about the rendered items.
#[derive(Clone, Copy, Debug, PartialEq, Eq, Structural)]
pub enum VisibilityEvent {
    /// The item with this identifier came near the viewport edge.
    Add(u32),
    /// The item with this identifier left the viewport edge.
    Remove(u32),
    /// The first rendered item became visible.
    TopReached,
    /// The last rendered item became visible.
    BottomReached,
}

/// What the controller is handed, one at a time.
#[derive(Clone, Copy, Debug, PartialEq, Eq, Structural)]
pub enum Input {
    /// A decoded notification from the current or an earlier subscription.
    Event(VisibilityEvent),
    /// The view layer re-rendered and attached fresh observers.
    Resubscribed,
    /// The event channel ended or failed.
    ChannelClosed,
}

} // verus!
