//! Telling taps from scroll drags.
//!
//! A touch starts out pending.  If the finger travels beyond the slop
//! distance it becomes a scroll, reported as scroll deltas; if it lifts
//! while still pending it is a tap, reported at the position where it went
//! down.  Deferring the tap to the lift keeps a scroll that starts on a
//! button from pressing it.  Positions are opaque to the state machine; the
//! caller measures the distance from the pending start position.

use vstd::prelude::*;

verus! {

/// The gesture state of the current touch.
#[derive(Clone, Copy, Debug)]
pub enum TouchState<P> {
    /// No touch is active.
    Idle,
    /// The finger is down at this position and has not moved beyond the slop.
    Pending(P),
    /// The finger is scrolling; this is its previous position.
    Scrolling(P),
}

/// A touch event.
#[derive(Clone, Copy, Debug)]
pub enum TouchEvent<P> {
    /// The finger went down.
    Down(P),
    /// The finger moved to `at`; `beyond_slop` tells whether `at` is beyond
    /// the slop distance from the pending start position.
    Move { at: P, beyond_slop: bool },
    /// The finger lifted, or the touch was cancelled, at this position.
    Up(P),
}

/// What the platform layer reports for a touch event.
#[derive(Clone, Copy, Debug)]
pub enum TouchAction<P> {
    /// Nothing.
    Ignore,
    /// A touch began: stop any fling and start tracking velocity.
    Begin,
    /// The finger moved within the slop: only its position is reported.
    Track,
    /// The touch became a scroll: the first delta goes from `from` to `to`.
    StartScroll { from: P, to: P },
    /// The scroll continues by the delta from `from` to `to`.
    ScrollBy { from: P, to: P },
    /// A tap (press and release) at `at`.
    Tap { at: P },
    /// The scroll ends with the delta from `from` to `to`; a fling may follow.
    EndScroll { from: P, to: P },
}

/// The next state and the action for an event.
pub open spec fn touch_transition<P>(state: TouchState<P>, event: TouchEvent<P>) -> (TouchState<P>, TouchAction<P>) {
    match event {
        TouchEvent::Down(p) => (TouchState::Pending(p), TouchAction::Begin),
        TouchEvent::Move { at, beyond_slop } => match state {
            TouchState::Idle => (TouchState::Idle, TouchAction::Ignore),
            TouchState::Pending(start) => if beyond_slop {
                (TouchState::Scrolling(at), TouchAction::StartScroll { from: start, to: at })
            } else {
                (TouchState::Pending(start), TouchAction::Track)
            },
            TouchState::Scrolling(prev) => (TouchState::Scrolling(at), TouchAction::ScrollBy { from: prev, to: at }),
        },
        TouchEvent::Up(p) => match state {
            TouchState::Idle => (TouchState::Idle, TouchAction::Ignore),
            TouchState::Pending(start) => (TouchState::Idle, TouchAction::Tap { at: start }),
            TouchState::Scrolling(prev) => (TouchState::Idle, TouchAction::EndScroll { from: prev, to: p }),
        },
    }
}

/// Advances the gesture state machine by one event.
///
/// A down always starts a pending touch.  A move of a pending touch beyond
/// the slop starts a scroll from the down position; a move of a scrolling
/// touch scrolls from its previous position; a move without a touch is
/// ignored.  A lift ends the touch: a pending touch is a tap at its down
/// position, a scrolling touch ends with its last delta.
pub fn touch_step<P: Copy>(state: TouchState<P>, event: TouchEvent<P>) -> (r: (TouchState<P>, TouchAction<P>))
    ensures
        r == touch_transition(state, event),
{
    match event {
        TouchEvent::Down(p) => (TouchState::Pending(p), TouchAction::Begin),
        TouchEvent::Move { at, beyond_slop } => match state {
            TouchState::Idle => (TouchState::Idle, TouchAction::Ignore),
            TouchState::Pending(start) => {
                if beyond_slop {
                    (TouchState::Scrolling(at), TouchAction::StartScroll { from: start, to: at })
                } else {
                    (TouchState::Pending(start), TouchAction::Track)
                }
            },
            TouchState::Scrolling(prev) => (TouchState::Scrolling(at), TouchAction::ScrollBy { from: prev, to: at }),
        },
        TouchEvent::Up(p) => match state {
            TouchState::Idle => (TouchState::Idle, TouchAction::Ignore),
            TouchState::Pending(start) => (TouchState::Idle, TouchAction::Tap { at: start }),
            TouchState::Scrolling(prev) => (TouchState::Idle, TouchAction::EndScroll { from: prev, to: p }),
        },
    }
}

/// Runs the state machine over a sequence of events.
pub open spec fn run_touch<P>(state: TouchState<P>, events: Seq<TouchEvent<P>>) -> (TouchState<P>, Seq<TouchAction<P>>)
    decreases events.len(),
{
    if events.len() == 0 {
        (state, Seq::empty())
    } else {
        let before = run_touch(state, events.drop_last());
        let step = touch_transition(before.0, events.last());
        (step.0, before.1.push(step.1))
    }
}

/// Whether an event is a move.
pub open spec fn is_move<P>(e: TouchEvent<P>) -> bool {
    e is Move
}

/// Whether an action reports scrolling.
pub open spec fn is_scroll_action<P>(a: TouchAction<P>) -> bool {
    a is StartScroll || a is ScrollBy || a is EndScroll
}

/// Within one touch (a down followed by moves), a tap and a scroll exclude
/// each other: while every move stays within the slop nothing scrolls and a
/// lift is a tap at the down position; once a move goes beyond it, the
/// touch scrolls and can no longer become a tap.
pub proof fn lemma_touch_is_tap_or_scroll<P>(down: P, moves: Seq<TouchEvent<P>>, up: P)
    requires
        forall|i: int| 0 <= i < moves.len() ==> is_move(#[trigger] moves[i]),
    ensures
        ({
            let events = seq![TouchEvent::Down(down)] + moves + seq![TouchEvent::Up(up)];
            let out = run_touch(TouchState::Idle, events).1;
            &&& out.len() == moves.len() + 2
            &&& out[0] is Begin
            &&& (forall|i: int| 0 <= i < moves.len() ==> !(#[trigger] moves[i])->beyond_slop) ==> {
                &&& out.last() == TouchAction::Tap { at: down }
                &&& forall|i: int| 0 <= i < out.len() ==> !is_scroll_action(#[trigger] out[i])
            }
            &&& (exists|i: int| 0 <= i < moves.len() && (#[trigger] moves[i])->beyond_slop) ==> {
                &&& out.last() is EndScroll
                &&& forall|i: int| 0 <= i < out.len() ==> !(#[trigger] out[i] is Tap)
            }
        }),
{
    let events = seq![TouchEvent::Down(down)] + moves + seq![TouchEvent::Up(up)];
    lemma_moves_from_pending(down, moves);
    let body = seq![TouchEvent::Down(down)] + moves;
    assert(events.drop_last() =~= body);
    assert(events.last() == TouchEvent::<P>::Up(up));
    let mid = run_touch(TouchState::<P>::Idle, body);
    let out = run_touch(TouchState::<P>::Idle, events).1;
    assert(out == mid.1.push(touch_transition(mid.0, TouchEvent::Up(up)).1));
    if forall|i: int| 0 <= i < moves.len() ==> !(#[trigger] moves[i])->beyond_slop {
        assert(mid.0 == TouchState::Pending(down));
    } else {
        assert(mid.0 is Scrolling);
    }
}

/// After a down and then moves: the actions start with `Begin`; while no
/// move went beyond the slop the touch is still pending at the down
/// position and only `Track` actions were reported; once one did, the touch
/// is scrolling and no `Tap` was reported.
proof fn lemma_moves_from_pending<P>(down: P, moves: Seq<TouchEvent<P>>)
    requires
        forall|i: int| 0 <= i < moves.len() ==> is_move(#[trigger] moves[i]),
    ensures
        ({
            let r = run_touch(TouchState::Idle, seq![TouchEvent::Down(down)] + moves);
            &&& r.1.len() == moves.len() + 1
            &&& r.1[0] is Begin
            &&& (forall|i: int| 0 <= i < moves.len() ==> !(#[trigger] moves[i])->beyond_slop) ==> {
                &&& r.0 == TouchState::Pending(down)
                &&& forall|i: int| 1 <= i < r.1.len() ==> #[trigger] r.1[i] is Track
            }
            &&& (exists|i: int| 0 <= i < moves.len() && (#[trigger] moves[i])->beyond_slop) ==> r.0 is Scrolling
            &&& forall|i: int| 0 <= i < r.1.len() ==> !(#[trigger] r.1[i] is Tap)
        }),
    decreases moves.len(),
{
    let events = seq![TouchEvent::Down(down)] + moves;
    let r = run_touch(TouchState::<P>::Idle, events);
    if moves.len() == 0 {
        assert(events =~= seq![TouchEvent::Down(down)]);
        assert(events.drop_last() =~= Seq::<TouchEvent<P>>::empty());
        let e = run_touch(TouchState::<P>::Idle, Seq::<TouchEvent<P>>::empty());
        assert(e.0 == TouchState::<P>::Idle && e.1 == Seq::<TouchAction<P>>::empty());
        assert(r.1 =~= seq![TouchAction::<P>::Begin]);
    } else {
        let init = moves.drop_last();
        let last = moves[moves.len() - 1];
        assert forall|i: int| 0 <= i < init.len() implies is_move(#[trigger] init[i]) by {
            assert(init[i] == moves[i]);
        }
        lemma_moves_from_pending(down, init);
        assert(events.drop_last() =~= seq![TouchEvent::Down(down)] + init);
        assert(events.last() == last);
        let prev = run_touch(TouchState::<P>::Idle, seq![TouchEvent::Down(down)] + init);
        let t = touch_transition(prev.0, last);
        assert(r.0 == t.0);
        assert(r.1 == prev.1.push(t.1));
        assert(is_move(moves[moves.len() - 1]));
        assert(!(t.1 is Tap));
        assert forall|i: int| 0 <= i < prev.1.len() implies #[trigger] r.1[i] == prev.1[i] by {}
        assert(r.1[0] == prev.1[0]);
        assert forall|i: int| 0 <= i < r.1.len() implies !(#[trigger] r.1[i] is Tap) by {
            if i < prev.1.len() {
                assert(r.1[i] == prev.1[i]);
            }
        }
        if forall|i: int| 0 <= i < moves.len() ==> !(#[trigger] moves[i])->beyond_slop {
            assert forall|i: int| 0 <= i < init.len() implies !(#[trigger] init[i])->beyond_slop by {
                assert(init[i] == moves[i]);
            }
            assert(!last->beyond_slop);
            assert(prev.0 == TouchState::Pending(down));
            assert(t.1 is Track);
            assert forall|i: int| 1 <= i < r.1.len() implies #[trigger] r.1[i] is Track by {
                if i < prev.1.len() {
                    assert(r.1[i] == prev.1[i]);
                }
            }
        }
        if exists|i: int| 0 <= i < moves.len() && (#[trigger] moves[i])->beyond_slop {
            let j = choose|j: int| 0 <= j < moves.len() && (#[trigger] moves[j])->beyond_slop;
            if j < init.len() {
                assert(init[j] == moves[j]);
                assert(exists|k: int| 0 <= k < init.len() && (#[trigger] init[k])->beyond_slop);
                assert(prev.0 is Scrolling);
            } else {
                assert(last->beyond_slop);
                if !(prev.0 is Scrolling) {
                    if exists|k: int| 0 <= k < init.len() && (#[trigger] init[k])->beyond_slop {
                        assert(prev.0 is Scrolling);
                    } else {
                        assert(prev.0 == TouchState::Pending(down));
                    }
                }
            }
            assert(r.0 is Scrolling);
        }
    }
}

} // verus!
