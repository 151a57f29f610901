use infinite_scroll::boundary_list::BoundaryError;
use infinite_scroll::controller::{
    window_ids, Action, PaginationController, Phase, ScrollTarget, INITIAL_TAKE, TAKE_INCREMENT,
};
use infinite_scroll::event::{Input, VisibilityEvent};

fn ev(e: VisibilityEvent) -> Input {
    Input::Event(e)
}

#[test]
fn new_session_starts_idle_with_seed_window() {
    let c = PaginationController::new(100);
    assert_eq!(c.total(), 100);
    assert_eq!(c.take(), INITIAL_TAKE);
    assert_eq!(c.take(), 20);
    assert_eq!(TAKE_INCREMENT, 20);
    assert_eq!(c.phase(), Phase::Idle);
    assert_eq!(c.epoch(), 0);
    assert_eq!(c.boundary().len(), 0);
}

#[test]
fn small_dataset_clamps_seed_window() {
    let c = PaginationController::new(7);
    assert_eq!(c.take(), 7);
}

#[test]
fn top_reached_grows_by_increment_until_full() {
    let mut c = PaginationController::with_window(100, 20, 20);
    let mut expected = 20;
    while expected < 100 {
        expected += 20;
        let a = c.step(ev(VisibilityEvent::TopReached));
        assert_eq!(a, Action::Grow { take: expected, scroll: ScrollTarget::Bottom });
        assert_eq!(c.take(), expected);
        assert_eq!(c.phase(), Phase::Growing);
        assert_eq!(c.step(Input::Resubscribed), Action::Proceed);
        assert_eq!(c.phase(), Phase::Idle);
    }
    assert_eq!(c.take(), 100);
    assert_eq!(c.epoch(), 4);
    assert_eq!(c.step(ev(VisibilityEvent::TopReached)), Action::Proceed);
    assert_eq!(c.step(ev(VisibilityEvent::TopReached)), Action::Proceed);
    assert_eq!(c.take(), 100);
    assert_eq!(c.phase(), Phase::Idle);
    assert_eq!(c.epoch(), 4);
}

#[test]
fn growth_is_clamped_to_total() {
    let mut c = PaginationController::with_window(50, 45, 20);
    assert_eq!(
        c.step(ev(VisibilityEvent::TopReached)),
        Action::Grow { take: 50, scroll: ScrollTarget::Bottom }
    );
    assert_eq!(c.take(), 50);
}

#[test]
fn growth_anchors_to_visible_top() {
    let mut c = PaginationController::with_window(100, 20, 20);
    for id in [81, 82, 83] {
        assert_eq!(c.step(ev(VisibilityEvent::Add(id))), Action::Proceed);
    }
    assert_eq!(c.boundary().get_min(), Some(81));
    let a = c.step(ev(VisibilityEvent::TopReached));
    assert_eq!(a, Action::Grow { take: 40, scroll: ScrollTarget::Anchor(81) });
    assert_eq!(c.take(), 40);
    assert_eq!(c.boundary().len(), 0);
    assert_eq!(c.epoch(), 1);
}

#[test]
fn events_are_dropped_while_growing() {
    let mut c = PaginationController::with_window(100, 20, 20);
    c.step(ev(VisibilityEvent::TopReached));
    assert_eq!(c.step(ev(VisibilityEvent::Add(85))), Action::Dropped);
    assert_eq!(c.step(ev(VisibilityEvent::TopReached)), Action::Dropped);
    assert_eq!(c.boundary().len(), 0);
    assert_eq!(c.take(), 40);
    assert_eq!(c.step(Input::Resubscribed), Action::Proceed);
    assert_eq!(c.step(ev(VisibilityEvent::Add(61))), Action::Proceed);
    assert_eq!(c.boundary().get_min(), Some(61));
}

#[test]
fn refused_mutations_are_reported() {
    let mut c = PaginationController::with_window(100, 20, 20);
    c.step(ev(VisibilityEvent::Add(90)));
    c.step(ev(VisibilityEvent::Add(95)));
    assert_eq!(
        c.step(ev(VisibilityEvent::Add(92))),
        Action::Refused(BoundaryError::OutOfOrderInsert)
    );
    assert_eq!(
        c.step(ev(VisibilityEvent::Remove(92))),
        Action::Refused(BoundaryError::NotABoundaryElement)
    );
    assert_eq!(c.step(ev(VisibilityEvent::Remove(95))), Action::Proceed);
    assert_eq!(c.boundary().get_max(), Some(90));
    assert_eq!(c.phase(), Phase::Idle);
}

#[test]
fn bottom_reached_does_nothing() {
    let mut c = PaginationController::with_window(100, 20, 20);
    c.step(ev(VisibilityEvent::Add(99)));
    assert_eq!(c.step(ev(VisibilityEvent::BottomReached)), Action::Proceed);
    assert_eq!(c.take(), 20);
    assert_eq!(c.boundary().get_max(), Some(99));
}

#[test]
fn resubscribed_while_idle_changes_nothing() {
    let mut c = PaginationController::with_window(100, 20, 20);
    assert_eq!(c.step(Input::Resubscribed), Action::Proceed);
    assert_eq!(c.phase(), Phase::Idle);
    assert_eq!(c.epoch(), 0);
}

#[test]
fn channel_close_stops_processing() {
    let mut c = PaginationController::with_window(100, 20, 20);
    c.step(ev(VisibilityEvent::Add(81)));
    assert_eq!(c.step(Input::ChannelClosed), Action::Stop);
    assert_eq!(c.phase(), Phase::Closed);
    assert_eq!(c.step(ev(VisibilityEvent::TopReached)), Action::Stop);
    assert_eq!(c.step(ev(VisibilityEvent::Add(80))), Action::Stop);
    assert_eq!(c.step(Input::Resubscribed), Action::Stop);
    assert_eq!(c.step(Input::ChannelClosed), Action::Stop);
    assert_eq!(c.phase(), Phase::Closed);
    assert_eq!(c.take(), 20);
    assert_eq!(c.boundary().get_min(), Some(81));
    assert_eq!(c.boundary().len(), 1);
}

#[test]
fn channel_close_while_growing() {
    let mut c = PaginationController::with_window(100, 20, 20);
    c.step(ev(VisibilityEvent::TopReached));
    assert_eq!(c.step(Input::ChannelClosed), Action::Stop);
    assert_eq!(c.phase(), Phase::Closed);
    assert_eq!(c.take(), 40);
}

#[test]
fn take_never_decreases_over_a_session() {
    let mut c = PaginationController::with_window(30, 5, 10);
    let inputs = [
        ev(VisibilityEvent::Add(27)),
        ev(VisibilityEvent::TopReached),
        ev(VisibilityEvent::Remove(27)),
        Input::Resubscribed,
        ev(VisibilityEvent::TopReached),
        Input::Resubscribed,
        ev(VisibilityEvent::TopReached),
        Input::Resubscribed,
        ev(VisibilityEvent::TopReached),
        ev(VisibilityEvent::BottomReached),
        Input::ChannelClosed,
        ev(VisibilityEvent::TopReached),
    ];
    let mut last = c.take();
    for i in inputs {
        c.step(i);
        assert!(c.take() >= last);
        assert!(c.take() <= c.total());
        last = c.take();
    }
    assert_eq!(c.take(), 30);
}

#[test]
fn window_shows_most_recent_items() {
    assert_eq!(window_ids(100, 3), vec![97, 98, 99]);
    assert_eq!(window_ids(5, 5), vec![0, 1, 2, 3, 4]);
    assert_eq!(window_ids(5, 0), Vec::<u32>::new());
    assert_eq!(window_ids(100, 20).len(), 20);
    assert_eq!(window_ids(100, 20)[0], 80);
}
