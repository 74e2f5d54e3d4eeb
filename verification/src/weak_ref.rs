//! Weak references to `Rc`-managed values, each tied to the value of the
//! `Rc` it was made from.
//!
//! A `WeakRef` can only be made by `rc_downgrade`, which records, as a ghost
//! value, what the `Rc` pointed to.  An upgrade that succeeds gives back an
//! `Rc` to that same allocation, so it points to that value.

use std::rc::Rc;
use std::rc::Weak;
use vstd::prelude::*;

verus! {

/// An opaque holder of a `std::rc::Weak`.
#[verifier::external_body]
#[verifier::reject_recursive_types(T)]
pub struct WeakInner<T> {
    weak: Weak<T>,
}

/// A non-owning reference to an `Rc`-managed value, together with the value
/// of the `Rc` it was made from.
#[verifier::reject_recursive_types(T)]
pub struct WeakRef<T> {
    inner: WeakInner<T>,
    model: Ghost<T>,
}

impl<T> WeakRef<T> {
    /// The value of the `Rc` this weak reference was made from.
    pub closed spec fn target(&self) -> T {
        self.model@
    }
}

/// The value an `Rc` points to.
spec fn rc_value<T>(rc: &Rc<T>) -> T {
    **rc
}

/// Calls `std::rc::Rc::downgrade`.  Nothing is claimed of the opaque result;
/// `rc_downgrade` pairs it with the value it was made from.
#[verifier::external_body]
fn downgrade_inner<T>(rc: &Rc<T>) -> WeakInner<T> {
    WeakInner { weak: Rc::downgrade(rc) }
}

/// A weak reference to the allocation of `rc`.
pub(crate) fn rc_downgrade<T>(rc: &Rc<T>) -> (r: WeakRef<T>)
    ensures
        r.target() == **rc,
{
    WeakRef { inner: downgrade_inner(rc), model: Ghost(rc_value(rc)) }
}

/// Calls `std::rc::Weak::upgrade`.  Claimed: a result that is `Some` is an
/// `Rc` to the allocation the weak reference was made from, which holds the
/// value recorded when it was made.  Whether the result is `Some` is not
/// claimed: it is `Some` exactly while some strong reference is alive,
/// which is state held outside the weak reference.
#[verifier::external_body]
pub(crate) fn weak_upgrade<T>(weak: &WeakRef<T>) -> (r: Option<Rc<T>>)
    ensures
        r matches Some(rc) ==> *rc == weak.target(),
{
    weak.inner.weak.upgrade()
}

/// Calls `std::rc::Weak::strong_count`.  Nothing is claimed of the result: it
/// counts the strong references alive at the time of the call.
#[verifier::external_body]
pub(crate) fn weak_strong_count<T>(weak: &WeakRef<T>) -> usize {
    weak.inner.weak.strong_count()
}

} // verus!
