//! Invokes UIKit-driven callbacks without holding their registration slot
//! borrowed, so that a callback may replace itself, and so that a callback
//! dispatched while its own slot is in use is not run.

use std::cell::RefCell;
use vstd::prelude::*;

verus! {

#[verifier::external_type_specification]
#[verifier::external_body]
#[verifier::reject_recursive_types(T)]
pub struct ExRefCell<T: ?Sized>(RefCell<T>);

/// Calls `std::cell::RefCell::try_borrow_mut` and, when the slot is not
/// borrowed, takes its contents out (leaving `None`).  A slot that is
/// borrowed elsewhere gives `None` and is left as it is, where a plain
/// `RefCell::take` would panic.  Nothing is claimed of the result: it is
/// whatever the slot held at the time of the call, which is mutable state
/// shared with the callbacks themselves.
#[verifier::external_body]
fn slot_take<T>(slot: &RefCell<Option<T>>) -> Option<T> {
    match slot.try_borrow_mut() {
        Ok(mut contents) => contents.take(),
        Err(_) => None,
    }
}

/// Calls `std::cell::RefCell::try_borrow_mut` and, when the slot is not
/// borrowed, stores `value` in it, returning what it held; a slot that is
/// borrowed elsewhere is left as it is and `value` is handed back.  Nothing
/// is claimed of the result, for the same reason as for `slot_take`.
#[verifier::external_body]
fn slot_put<T>(slot: &RefCell<Option<T>>, value: Option<T>) -> Option<T> {
    match slot.try_borrow_mut() {
        Ok(mut contents) => std::mem::replace(&mut *contents, value),
        Err(_) => value,
    }
}

/// What a slot holds after an invocation: the callback that was taken out,
/// unless the slot was filled (by the callback replacing itself) meanwhile.
pub open spec fn restored<T>(current: Option<T>, taken: T) -> Option<T> {
    match current {
        Some(c) => Some(c),
        None => Some(taken),
    }
}

/// The slot contents to store back after running the callback `taken`,
/// given what the slot holds now.
pub fn restore<T>(current: Option<T>, taken: T) -> (r: Option<T>)
    ensures
        r == restored(current, taken),
{
    match current {
        Some(c) => Some(c),
        None => Some(taken),
    }
}

/// Whether `v` is a result that `call` may return when run on some callback.
pub open spec fn returned_by<T, R, F: FnOnce(&mut T) -> R>(call: F, v: R) -> bool {
    exists|t: &mut T| call.ensures((t,), v)
}

/// Runs `call` on the callback taken out of a slot, if one was taken.
///
/// With nothing taken, `call` is not run and there is neither a callback to
/// put back nor a result.  With a callback taken, `call` runs on it once;
/// the callback, as `call` left it, is handed back together with the result.
pub fn run_taken<T, R>(taken: Option<T>, call: impl FnOnce(&mut T) -> R) -> (r: (Option<T>, Option<R>))
    requires
        taken is Some ==> forall|t: &mut T| call.requires((t,)),
    ensures
        taken is None <==> r.1 is None,
        taken is None ==> r.0 is None,
        taken matches Some(c) ==> (r.0 matches Some(a) && r.1 matches Some(v) && exists|t: &mut T|
            *t == c && *final(t) == a && call.ensures((t,), v)),
        r.1 matches Some(v) ==> returned_by(call, v),
{
    match taken {
        None => (None, None),
        Some(c) => {
            let mut callback = c;
            let result = call(&mut callback);
            assert(returned_by(call, result));
            (Some(callback), Some(result))
        },
    }
}

/// Runs the callback registered in `slot`, if any, with the slot emptied
/// while it runs, and returns its result.
///
/// Returns `None` without running anything when the slot is empty, which is
/// also the case for a nested dispatch from inside the callback itself, and
/// when the slot is borrowed elsewhere.  Afterwards the slot holds the
/// callback again, unless the callback registered a replacement, which is
/// kept (`restore`).  A result, when there is one, is what `call` returned.
pub fn invoke<T, R>(slot: &RefCell<Option<T>>, call: impl FnOnce(&mut T) -> R) -> (r: Option<R>)
    requires
        forall|t: &mut T| call.requires((t,)),
    ensures
        r matches Some(v) ==> returned_by(call, v),
{
    let taken = slot_take(slot);
    let (back, result) = run_taken(taken, call);
    match back {
        Some(callback) => {
            let current = slot_take(slot);
            let _ = slot_put(slot, restore(current, callback));
        },
        None => {},
    }
    result
}

} // verus!
