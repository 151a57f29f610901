use vstd::prelude::*;
use crate::boundary_list::{
    BoundaryError, SortedList, is_sorted, can_insert, inserted, can_remove, removed,
    lemma_inserted_sorted, lemma_removed_sorted,
};
use crate::event::{Input, VisibilityEvent};

verus! {

/// How many items are rendered when a session starts.
pub const INITIAL_TAKE: usize = 20;

/// How many more items each growth of the window renders.
pub const TAKE_INCREMENT: usize = 20;

/// Where the controller stands in its lifecycle.
#[derive(Clone, Copy, Debug, PartialEq, Eq, Structural)]
pub enum Phase {
    /// Events are trusted against the current boundary list.
    Idle,
    /// A larger window was requested; events are dropped until the view layer
    /// confirms the new subscription.
    Growing,
    /// The channel ended; nothing more is processed.
    Closed,
}

/// Where the viewport goes once a re-render is committed.
#[derive(Clone, Copy, Debug, PartialEq, Eq, Structural)]
pub enum ScrollTarget {
    Bottom,
    /// The item that was at the visible top before the window grew.
    Anchor(u32),
}

/// What the caller has to do after one input.
#[derive(Clone, Copy, Debug, PartialEq, Eq, Structural)]
pub enum Action {
    /// Nothing; keep receiving.
    Proceed,
    /// The boundary list refused the event and is unchanged; worth a log line.
    Refused(BoundaryError),
    /// The event came while a new subscription was pending and was ignored.
    Dropped,
    /// Render the last `take` items, move the viewport to `scroll`, attach fresh
    /// observers, then hand back `Input::Resubscribed`.
    Grow { take: usize, scroll: ScrollTarget },
    /// The controller is closed; stop the loop.
    Stop,
}

/// The abstract state of a controller.
pub struct ControllerState {
    pub total: nat,
    pub take: nat,
    pub increment: nat,
    pub items: Seq<u32>,
    pub phase: Phase,
    pub epoch: nat,
}

/// The state's invariant: the window fits in the dataset, growth makes progress,
/// each epoch was opened by a growth of at least one item, and the boundary list
/// is ascending.
pub open spec fn valid(s: ControllerState) -> bool {
    &&& s.take <= s.total
    &&& s.increment > 0
    &&& s.epoch <= s.take
    &&& is_sorted(s.items)
}

/// The window size after one growth: one increment more, clamped to the dataset.
pub open spec fn grown_take(s: ControllerState) -> nat {
    if s.take + s.increment <= s.total {
        s.take + s.increment
    } else {
        s.total
    }
}

/// The scroll target that keeps the item at the visible top in place.
pub open spec fn anchor_of(items: Seq<u32>) -> ScrollTarget {
    if items.len() == 0 {
        ScrollTarget::Bottom
    } else {
        ScrollTarget::Anchor(items.first())
    }
}

/// The state after `ev` arrives while idle.
pub open spec fn next_on_event(s: ControllerState, ev: VisibilityEvent) -> ControllerState {
    match ev {
        VisibilityEvent::Add(id) => if can_insert(s.items, id) {
            ControllerState { items: inserted(s.items, id), ..s }
        } else {
            s
        },
        VisibilityEvent::Remove(id) => if can_remove(s.items, id) {
            ControllerState { items: removed(s.items, id), ..s }
        } else {
            s
        },
        VisibilityEvent::TopReached => if s.take < s.total {
            ControllerState {
                take: grown_take(s),
                items: Seq::empty(),
                phase: Phase::Growing,
                epoch: s.epoch + 1,
                ..s
            }
        } else {
            s
        },
        VisibilityEvent::BottomReached => s,
    }
}

/// The action after `ev` arrives while idle.
pub open spec fn action_on_event(s: ControllerState, ev: VisibilityEvent) -> Action {
    match ev {
        VisibilityEvent::Add(id) => if can_insert(s.items, id) {
            Action::Proceed
        } else {
            Action::Refused(BoundaryError::OutOfOrderInsert)
        },
        VisibilityEvent::Remove(id) => if can_remove(s.items, id) {
            Action::Proceed
        } else {
            Action::Refused(BoundaryError::NotABoundaryElement)
        },
        VisibilityEvent::TopReached => if s.take < s.total {
            Action::Grow { take: grown_take(s) as usize, scroll: anchor_of(s.items) }
        } else {
            Action::Proceed
        },
        VisibilityEvent::BottomReached => Action::Proceed,
    }
}

/// The state after one input.
pub open spec fn next_state(s: ControllerState, input: Input) -> ControllerState {
    match input {
        Input::ChannelClosed => ControllerState { phase: Phase::Closed, ..s },
        Input::Resubscribed => if s.phase == Phase::Growing {
            ControllerState { phase: Phase::Idle, ..s }
        } else {
            s
        },
        Input::Event(ev) => if s.phase == Phase::Idle {
            next_on_event(s, ev)
        } else {
            s
        },
    }
}

/// The action after one input.
pub open spec fn action_of(s: ControllerState, input: Input) -> Action {
    if s.phase == Phase::Closed {
        Action::Stop
    } else {
        match input {
            Input::ChannelClosed => Action::Stop,
            Input::Resubscribed => Action::Proceed,
            Input::Event(ev) => if s.phase == Phase::Idle {
                action_on_event(s, ev)
            } else {
                Action::Dropped
            },
        }
    }
}

/// The state after a sequence of inputs, taken in order.
pub open spec fn run(s: ControllerState, inputs: Seq<Input>) -> ControllerState
    decreases inputs.len(),
{
    if inputs.len() == 0 {
        s
    } else {
        run(next_state(s, inputs.first()), inputs.drop_first())
    }
}

/// The identifiers that a window of `take` shows out of a dataset `0..total`:
/// the most recent ones, ascending.
pub fn window_ids(total: usize, take: usize) -> (r: Vec<u32>)
    requires
        take <= total,
        total <= u32::MAX as nat + 1,
    ensures
        r@.len() == take,
        forall|i: int| 0 <= i < take ==> r@[i] == total - take + i,
{
    let mut r: Vec<u32> = Vec::new();
    let mut id: usize = total - take;
    while id < total
        invariant
            total - take <= id <= total,
            total <= u32::MAX as nat + 1,
            r@.len() == id - (total - take),
            forall|i: int| 0 <= i < r@.len() ==> r@[i] == total - take + i,
        decreases total - id,
    {
        r.push(id as u32);
        id = id + 1;
    }
    r
}

/// One input keeps the invariant, keeps the dataset, and never shrinks the window.
pub proof fn lemma_step_valid(s: ControllerState, input: Input)
    requires
        valid(s),
    ensures
        valid(next_state(s, input)),
        next_state(s, input).total == s.total,
        s.take <= next_state(s, input).take,
{
    if let Input::Event(ev) = input {
        if s.phase == Phase::Idle {
            match ev {
                VisibilityEvent::Add(id) => if can_insert(s.items, id) {
                    lemma_inserted_sorted(s.items, id);
                },
                VisibilityEvent::Remove(id) => if can_remove(s.items, id) {
                    lemma_removed_sorted(s.items, id);
                },
                _ => {},
            }
        }
    }
}

/// Over any run of inputs the window only grows and never exceeds the dataset.
pub proof fn lemma_take_monotone(s: ControllerState, inputs: Seq<Input>)
    requires
        valid(s),
    ensures
        valid(run(s, inputs)),
        run(s, inputs).total == s.total,
        s.take <= run(s, inputs).take <= run(s, inputs).total,
    decreases inputs.len(),
{
    if inputs.len() > 0 {
        lemma_step_valid(s, inputs.first());
        lemma_take_monotone(next_state(s, inputs.first()), inputs.drop_first());
    }
}

/// Once the channel closes the controller is closed for good: every later input
/// leaves it unchanged and asks the caller to stop.
pub proof fn lemma_closed_is_final(s: ControllerState, inputs: Seq<Input>)
    ensures
        next_state(s, Input::ChannelClosed).phase == Phase::Closed,
        run(next_state(s, Input::ChannelClosed), inputs) == next_state(s, Input::ChannelClosed),
        forall|input: Input| #[trigger]
            action_of(next_state(s, Input::ChannelClosed), input) == Action::Stop,
    decreases inputs.len(),
{
    if inputs.len() > 0 {
        let c = next_state(s, Input::ChannelClosed);
        assert(next_state(c, inputs.first()) == c);
        assert(next_state(c, Input::ChannelClosed) == c);
        lemma_closed_is_final(c, inputs.drop_first());
    }
}

/// Decides when the rendered window grows, given the visibility reports of the
/// view layer.
pub struct PaginationController {
    total: usize,
    take: usize,
    increment: usize,
    list: SortedList,
    phase: Phase,
    epoch: usize,
}

impl View for PaginationController {
    type V = ControllerState;

    closed spec fn view(&self) -> ControllerState {
        ControllerState {
            total: self.total as nat,
            take: self.take as nat,
            increment: self.increment as nat,
            items: self.list@,
            phase: self.phase,
            epoch: self.epoch as nat,
        }
    }
}

impl PaginationController {
    /// The abstract state meets its invariant.
    pub open spec fn wf(&self) -> bool {
        valid(self@)
    }

    /// A session over `total` items that starts with `INITIAL_TAKE` of them
    /// (fewer when the dataset is smaller) and grows by `TAKE_INCREMENT`.
    pub fn new(total: usize) -> (r: Self)
        ensures
            r.wf(),
            r@ == (ControllerState {
                total: total as nat,
                take: if INITIAL_TAKE <= total { INITIAL_TAKE as nat } else { total as nat },
                increment: TAKE_INCREMENT as nat,
                items: Seq::empty(),
                phase: Phase::Idle,
                epoch: 0,
            }),
    {
        let take = if INITIAL_TAKE <= total { INITIAL_TAKE } else { total };
        Self::with_window(total, take, TAKE_INCREMENT)
    }

    /// A session over `total` items that starts with `take` of them and grows by
    /// `increment`.
    pub fn with_window(total: usize, take: usize, increment: usize) -> (r: Self)
        requires
            take <= total,
            increment > 0,
        ensures
            r.wf(),
            r@ == (ControllerState {
                total: total as nat,
                take: take as nat,
                increment: increment as nat,
                items: Seq::empty(),
                phase: Phase::Idle,
                epoch: 0,
            }),
    {
        PaginationController {
            total,
            take,
            increment,
            list: SortedList::new(),
            phase: Phase::Idle,
            epoch: 0,
        }
    }

    /// Handles one event while idle.
    fn on_event(&mut self, ev: VisibilityEvent) -> (r: Action)
        requires
            old(self).wf(),
            old(self)@.phase == Phase::Idle,
        ensures
            final(self).wf(),
            final(self)@ == next_on_event(old(self)@, ev),
            r == action_on_event(old(self)@, ev),
    {
        match ev {
            VisibilityEvent::Add(id) => match self.list.insert(id) {
                Ok(()) => Action::Proceed,
                Err(e) => Action::Refused(e),
            },
            VisibilityEvent::Remove(id) => match self.list.remove(id) {
                Ok(()) => Action::Proceed,
                Err(e) => Action::Refused(e),
            },
            VisibilityEvent::TopReached => {
                if self.take < self.total {
                    let new_take = if self.total - self.take <= self.increment {
                        self.total
                    } else {
                        self.take + self.increment
                    };
                    let scroll = match self.list.get_min() {
                        Some(id) => ScrollTarget::Anchor(id),
                        None => ScrollTarget::Bottom,
                    };
                    self.take = new_take;
                    self.list.clear();
                    self.phase = Phase::Growing;
                    self.epoch = self.epoch + 1;
                    Action::Grow { take: new_take, scroll }
                } else {
                    Action::Proceed
                }
            },
            VisibilityEvent::BottomReached => Action::Proceed,
        }
    }

    /// Takes one input and says what the caller must do next. Events are trusted
    /// only while idle; the window only grows, and never past the dataset.
    pub fn step(&mut self, input: Input) -> (r: Action)
        requires
            old(self).wf(),
        ensures
            final(self).wf(),
            final(self)@ == next_state(old(self)@, input),
            r == action_of(old(self)@, input),
            old(self)@.take <= final(self)@.take <= final(self)@.total,
            final(self)@.total == old(self)@.total,
    {
        if self.phase == Phase::Closed {
            return Action::Stop;
        }
        match input {
            Input::ChannelClosed => {
                self.phase = Phase::Closed;
                Action::Stop
            },
            Input::Resubscribed => {
                if self.phase == Phase::Growing {
                    self.phase = Phase::Idle;
                }
                Action::Proceed
            },
            Input::Event(ev) => {
                if self.phase == Phase::Idle {
                    self.on_event(ev)
                } else {
                    Action::Dropped
                }
            },
        }
    }

    /// The number of items in the dataset.
    pub fn total(&self) -> (r: usize)
        ensures
            r == self@.total,
    {
        self.total
    }

    /// The number of items currently rendered.
    pub fn take(&self) -> (r: usize)
        ensures
            r == self@.take,
    {
        self.take
    }

    pub fn phase(&self) -> (r: Phase)
        ensures
            r == self@.phase,
    {
        self.phase
    }

    /// How many times the rendered set has been replaced.
    pub fn epoch(&self) -> (r: usize)
        ensures
            r == self@.epoch,
    {
        self.epoch
    }

    /// The identifiers currently near the viewport edge.
    pub fn boundary(&self) -> (r: &SortedList)
        ensures
            r@ == self@.items,
    {
        &self.list
    }
}

} // verus!
