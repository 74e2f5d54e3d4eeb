//! Keeps one native-vs-Java owner for an Android touch stream.
//!
//! The owner of a stream is chosen when its first pointer goes down
//! (`ACTION_DOWN`): a hit test decides whether the touch landed on an
//! embedded platform view (owned by Java) or on GPUI content.  Every later
//! event of the same stream goes to that owner, so a GPUI drag that crosses
//! a platform view cannot be stolen, and Java receives the `UP` of a stream
//! it owns even when the finger has left its view.

use vstd::prelude::*;

verus! {

/// `ACTION_DOWN`: the first pointer of a stream went down.
pub const ACTION_DOWN: u32 = 0;

/// `ACTION_UP`: the last pointer of a stream went up.
pub const ACTION_UP: u32 = 1;

/// `ACTION_MOVE`: a pointer of the stream moved.
pub const ACTION_MOVE: u32 = 2;

/// `ACTION_CANCEL`: the stream was aborted.
pub const ACTION_CANCEL: u32 = 3;

/// `ACTION_POINTER_DOWN`: a secondary pointer went down.
pub const ACTION_POINTER_DOWN: u32 = 5;

/// `ACTION_POINTER_UP`: a secondary pointer went up.
pub const ACTION_POINTER_UP: u32 = 6;

/// The action kind of a motion event: the low byte of its action word
/// (the high bits carry the pointer index).
pub open spec fn action_kind(action: u32) -> u32 {
    action % 256
}

/// Whether an action kind continues the current stream without ending it.
pub open spec fn is_continuation(kind: u32) -> bool {
    kind == ACTION_MOVE || kind == ACTION_POINTER_DOWN || kind == ACTION_POINTER_UP
}

/// Whether an action kind ends the current stream.
pub open spec fn is_end(kind: u32) -> bool {
    kind == ACTION_UP || kind == ACTION_CANCEL
}

/// What `route` answers for a non-`DOWN` action when the stream's owner is
/// `owner` (`Some(true)`: a platform view, `Some(false)`: GPUI, `None`: no
/// stream).  `true` forwards the event to Java.
pub open spec fn route_answer(owner: Option<bool>, kind: u32) -> bool {
    if is_end(kind) || is_continuation(kind) {
        match owner {
            Some(b) => b,
            None => true,
        }
    } else {
        true
    }
}

/// The owner after a non-`DOWN` action.
pub open spec fn route_owner(owner: Option<bool>, kind: u32) -> Option<bool> {
    if is_end(kind) {
        None
    } else {
        owner
    }
}

/// The owner of the current Android touch stream, if one is in progress.
#[derive(Debug)]
pub struct GestureRoute {
    platform_view: Option<bool>,
}

impl View for GestureRoute {
    type V = Option<bool>;

    /// `Some(true)`: a platform view (Java) owns the stream; `Some(false)`:
    /// GPUI owns it; `None`: no stream is in progress.
    closed spec fn view(&self) -> Option<bool> {
        self.platform_view
    }
}

impl Default for GestureRoute {
    fn default() -> (r: Self)
        ensures
            r@ == None::<bool>,
    {
        GestureRoute { platform_view: None }
    }
}

proof fn lemma_low_byte(action: u32)
    ensures
        action & 0xff == action % 256,
{
    assert(action & 0xff == action % 256) by (bit_vector);
}

impl GestureRoute {
    /// A route with no stream in progress.
    pub fn new() -> (r: Self)
        ensures
            r@ == None::<bool>,
    {
        GestureRoute { platform_view: None }
    }

    /// Routes one motion event; `true` forwards it to Java (the event is
    /// left unhandled by GPUI).
    ///
    /// Only the initial `DOWN` runs `hit_test`, whose answer becomes the
    /// stream's owner; secondary pointers and moves share that owner;
    /// `UP` and `CANCEL` go to the owner and end the stream; any other
    /// action (hover, wheel) is not part of the touch stream and goes to
    /// Java.  With no stream in progress, every non-`DOWN` event goes to Java.
    pub fn route(&mut self, action: u32, hit_test: impl FnOnce() -> bool) -> (r: bool)
        requires
            action_kind(action) == ACTION_DOWN ==> hit_test.requires(()),
        ensures
            action_kind(action) == ACTION_DOWN ==> {
                &&& hit_test.ensures((), r)
                &&& final(self)@ == Some(r)
            },
            action_kind(action) != ACTION_DOWN ==> {
                &&& r == route_answer(old(self)@, action_kind(action))
                &&& final(self)@ == route_owner(old(self)@, action_kind(action))
            },
            final(self)@ == step_owner(old(self)@, (RouteStep::Event { action, hit: r })),
    {
        proof {
            lemma_low_byte(action);
        }
        let kind = action & 0xff;
        if kind == 0 {
            let platform_view = hit_test();
            self.platform_view = Some(platform_view);
            platform_view
        } else if kind == 1 || kind == 3 {
            let owner = self.platform_view.take();
            match owner {
                Some(b) => b,
                None => true,
            }
        } else if kind == 2 || kind == 5 || kind == 6 {
            match self.platform_view {
                Some(b) => b,
                None => true,
            }
        } else {
            true
        }
    }

    /// Whether GPUI owns the current stream.
    pub fn owns_gpui_gesture(&self) -> (r: bool)
        ensures
            r == (self@ == Some(false)),
    {
        match self.platform_view {
            Some(b) => !b,
            None => false,
        }
    }

    /// Forgets the current stream (e.g. on a lifecycle change).
    pub fn reset(&mut self)
        ensures
            final(self)@ == None::<bool>,
            final(self)@ == step_owner(old(self)@, RouteStep::Reset),
    {
        self.platform_view = None;
    }
}

/// The answers and the final owner after routing a sequence of non-`DOWN`
/// actions, starting from `owner`.
pub open spec fn route_all(owner: Option<bool>, actions: Seq<u32>) -> (Seq<bool>, Option<bool>)
    decreases actions.len(),
{
    if actions.len() == 0 {
        (Seq::empty(), owner)
    } else {
        let kind = action_kind(actions[0]);
        let rest = route_all(route_owner(owner, kind), actions.drop_first());
        (seq![route_answer(owner, kind)].add(rest.0), rest.1)
    }
}

/// Once a stream has an owner, moves and secondary pointers never change it
/// and are all delivered to it: a GPUI drag cannot be stolen by a platform
/// view it crosses, and a platform view keeps the stream it started.
pub proof fn lemma_continuations_keep_owner(owner: bool, actions: Seq<u32>)
    requires
        forall|i: int| 0 <= i < actions.len() ==> is_continuation(action_kind(#[trigger] actions[i])),
    ensures
        route_all(Some(owner), actions).1 == Some(owner),
        route_all(Some(owner), actions).0.len() == actions.len(),
        forall|i: int| 0 <= i < actions.len() ==> #[trigger] route_all(Some(owner), actions).0[i] == owner,
    decreases actions.len(),
{
    if actions.len() > 0 {
        let tail = actions.drop_first();
        assert forall|i: int| 0 <= i < tail.len() implies is_continuation(action_kind(#[trigger] tail[i])) by {
            assert(tail[i] == actions[i + 1]);
        }
        lemma_continuations_keep_owner(owner, tail);
        let res = route_all(Some(owner), actions);
        let rest = route_all(Some(owner), tail);
        assert(is_continuation(action_kind(actions[0])));
        assert(res.0 == seq![owner].add(rest.0));
        assert forall|i: int| 0 <= i < actions.len() implies #[trigger] res.0[i] == owner by {
            if i > 0 {
                assert(res.0[i] == rest.0[i - 1]);
            }
        }
    }
}

/// An ending action (`UP` or `CANCEL`) is delivered to the stream's owner
/// and clears it; afterwards no move can start a GPUI gesture.
pub proof fn lemma_end_delivers_then_clears(owner: Option<bool>, action: u32, next: u32)
    requires
        is_end(action_kind(action)),
        action_kind(next) != ACTION_DOWN,
    ensures
        route_answer(owner, action_kind(action)) == (match owner {
            Some(b) => b,
            None => true,
        }),
        route_owner(owner, action_kind(action)) == None::<bool>,
        route_answer(route_owner(owner, action_kind(action)), action_kind(next)) == true,
{
}

/// One step in the life of a route: a routed event (with the answer its
/// hit test gave, which counts only for a `DOWN`), or a reset.
pub enum RouteStep {
    Event { action: u32, hit: bool },
    Reset,
}

/// The owner after one step, as `route` and `reset` leave it.
pub open spec fn step_owner(owner: Option<bool>, step: RouteStep) -> Option<bool> {
    match step {
        RouteStep::Reset => None,
        RouteStep::Event { action, hit } => if action_kind(action) == ACTION_DOWN {
            Some(hit)
        } else {
            route_owner(owner, action_kind(action))
        },
    }
}

/// The owner after a history of steps, starting from a new route.
pub open spec fn owner_after(steps: Seq<RouteStep>) -> Option<bool>
    decreases steps.len(),
{
    if steps.len() == 0 {
        None
    } else {
        step_owner(owner_after(steps.drop_last()), steps.last())
    }
}

/// Whether a step is a `DOWN` whose hit test answered `b`.
pub open spec fn chooses(step: RouteStep, b: bool) -> bool {
    step matches RouteStep::Event { action, hit } && action_kind(action) == ACTION_DOWN && hit == b
}

/// Whether a step keeps the current stream and its owner: an event that is
/// neither a `DOWN` nor an `UP`/`CANCEL`.
pub open spec fn keeps_stream(step: RouteStep) -> bool {
    step matches RouteStep::Event { action, hit } && action_kind(action) != ACTION_DOWN && !is_end(
        action_kind(action),
    )
}

/// Whether the last `DOWN` of the history answered `b` and no `UP`,
/// `CANCEL` or reset came after it.
pub open spec fn last_down_chose(steps: Seq<RouteStep>, b: bool) -> bool {
    exists|k: int|
        0 <= k < steps.len() && chooses(#[trigger] steps[k], b) && forall|j: int|
            k < j < steps.len() ==> keeps_stream(#[trigger] steps[j])
}

/// Over any history of `route` and `reset` calls, the stream's owner is `b`
/// exactly when the last `DOWN` got `b` from its hit test and no `UP`,
/// `CANCEL` or reset followed; in particular GPUI owns the gesture
/// (`owns_gpui_gesture`) exactly when that answer was `false`.
pub proof fn lemma_owner_is_last_down(steps: Seq<RouteStep>, b: bool)
    ensures
        (owner_after(steps) == Some(b)) <==> last_down_chose(steps, b),
    decreases steps.len(),
{
    if steps.len() > 0 {
        let pre = steps.drop_last();
        let n = steps.len() - 1;
        let last = steps.last();
        lemma_owner_is_last_down(pre, b);
        assert(owner_after(steps) == step_owner(owner_after(pre), last));
        if chooses(last, b) {
            assert(chooses(steps[n], b));
            assert(last_down_chose(steps, b));
        } else if keeps_stream(last) {
            if last_down_chose(pre, b) {
                let k = choose|k: int|
                    0 <= k < pre.len() && chooses(#[trigger] pre[k], b) && forall|j: int|
                        k < j < pre.len() ==> keeps_stream(#[trigger] pre[j]);
                assert(steps[k] == pre[k]);
                assert forall|j: int| k < j < steps.len() implies keeps_stream(#[trigger] steps[j]) by {
                    if j < n {
                        assert(steps[j] == pre[j]);
                    }
                }
                assert(last_down_chose(steps, b));
            }
            if last_down_chose(steps, b) {
                let k = choose|k: int|
                    0 <= k < steps.len() && chooses(#[trigger] steps[k], b) && forall|j: int|
                        k < j < steps.len() ==> keeps_stream(#[trigger] steps[j]);
                assert(k != n);
                assert(pre[k] == steps[k]);
                assert forall|j: int| k < j < pre.len() implies keeps_stream(#[trigger] pre[j]) by {
                    assert(pre[j] == steps[j]);
                }
                assert(last_down_chose(pre, b));
            }
        } else {
            if last_down_chose(steps, b) {
                let k = choose|k: int|
                    0 <= k < steps.len() && chooses(#[trigger] steps[k], b) && forall|j: int|
                        k < j < steps.len() ==> keeps_stream(#[trigger] steps[j]);
                if k < n {
                    assert(keeps_stream(steps[n]));
                }
                assert(false);
            }
            match last {
                RouteStep::Reset => {},
                RouteStep::Event { action, hit } => {
                    if action_kind(action) == ACTION_DOWN {
                        assert(hit != b);
                    }
                },
            }
        }
    }
}

} // verus!
