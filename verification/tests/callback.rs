use gpui_mobile::callback::{invoke, restore, run_taken};
use std::cell::RefCell;

#[test]
fn callback_can_replace_itself_without_borrow_conflict() {
    let slot = RefCell::new(Some(1));
    assert_eq!(
        invoke(&slot, |old| {
            *slot.borrow_mut() = Some(2);
            *old
        }),
        Some(1)
    );
    assert_eq!(*slot.borrow(), Some(2));
}

#[test]
fn nested_dispatch_does_not_invoke_or_consume_pending_work() {
    let slot = RefCell::new(Some(1));
    let mut pending = true;
    invoke(&slot, |_| {
        assert_eq!(
            invoke(&slot, |_| {
                pending = false;
            }),
            None
        );
    });
    assert!(pending);
    assert_eq!(*slot.borrow(), Some(1));
}

#[test]
fn empty_slot_runs_nothing() {
    let slot: RefCell<Option<i32>> = RefCell::new(None);
    let mut ran = false;
    assert_eq!(
        invoke(&slot, |_| {
            ran = true;
        }),
        None
    );
    assert!(!ran);
    assert_eq!(*slot.borrow(), None);
}

#[test]
fn callback_state_changes_are_kept() {
    let slot = RefCell::new(Some(10));
    assert_eq!(
        invoke(&slot, |count| {
            *count += 1;
            *count
        }),
        Some(11)
    );
    assert_eq!(*slot.borrow(), Some(11));
}

#[test]
fn restore_keeps_a_replacement() {
    assert_eq!(restore(Some(2), 1), Some(2));
    assert_eq!(restore(None, 1), Some(1));
}

#[test]
fn run_taken_runs_only_a_taken_callback() {
    let mut ran = false;
    let (back, result) = run_taken(None::<i32>, |_| {
        ran = true;
        5
    });
    assert!(!ran);
    assert_eq!(back, None);
    assert_eq!(result, None);
    let (back, result) = run_taken(Some(3), |c| {
        *c += 1;
        *c * 10
    });
    assert_eq!(back, Some(4));
    assert_eq!(result, Some(40));
}

#[test]
fn borrowed_slot_runs_nothing_and_does_not_panic() {
    let slot = RefCell::new(Some(1));
    let guard = slot.borrow();
    let mut ran = false;
    assert_eq!(
        invoke(&slot, |_| {
            ran = true;
        }),
        None
    );
    assert!(!ran);
    assert_eq!(*guard, Some(1));
    drop(guard);
    assert_eq!(*slot.borrow(), Some(1));
}
