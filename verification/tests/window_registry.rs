use gpui_mobile::window_registry::{newest_alive, WindowRegistry};
use std::rc::Rc;

#[test]
fn removed_handle_never_resolves_to_a_replacement_window() {
    let mut registry = WindowRegistry::default();
    let first = Rc::new(1);
    let id = registry.register(&first).unwrap();
    registry.remove(id);
    let replacement = Rc::new(2);
    let next = registry.register(&replacement).unwrap();
    assert_ne!(id, next);
    assert!(registry.get(id).is_none());
    assert_eq!(registry.latest(), Some(next));
    assert_eq!(registry.ids(), vec![next]);
}

#[test]
fn callback_guard_survives_owner_close_without_retaining_window_forever() {
    let mut registry = WindowRegistry::default();
    let owner = Rc::new(1);
    let weak = Rc::downgrade(&owner);
    let id = registry.register(&owner).unwrap();
    let callback_guard = registry.get(id).unwrap();
    registry.remove(id);
    drop(owner);
    assert_eq!(*callback_guard, 1);
    assert!(registry.get(id).is_none());
    drop(callback_guard);
    assert!(weak.upgrade().is_none());
}

#[test]
fn handles_start_at_one_and_increase() {
    let mut registry = WindowRegistry::new();
    let a = Rc::new("a");
    let b = Rc::new("b");
    assert_eq!(registry.register(&a), Some(1));
    assert_eq!(registry.register(&b), Some(2));
    assert_eq!(registry.register(&a), Some(3));
    assert_eq!(registry.ids(), vec![1, 2, 3]);
    assert_eq!(*registry.get(2).unwrap(), "b");
}

#[test]
fn latest_skips_windows_that_were_dropped() {
    let mut registry = WindowRegistry::new();
    let kept = Rc::new(1);
    let id_kept = registry.register(&kept).unwrap();
    {
        let gone = Rc::new(2);
        let id_gone = registry.register(&gone).unwrap();
        assert_eq!(registry.latest(), Some(id_gone));
    }
    assert_eq!(registry.latest(), Some(id_kept));
    // The dead entry stays registered until it is removed.
    assert_eq!(registry.ids().len(), 2);
}

#[test]
fn empty_registry_has_no_latest_window() {
    let registry: WindowRegistry<u8> = WindowRegistry::new();
    assert_eq!(registry.latest(), None);
    assert!(registry.ids().is_empty());
    assert!(registry.get(1).is_none());
}

#[test]
fn registry_does_not_keep_windows_alive() {
    let mut registry = WindowRegistry::new();
    let window = Rc::new(5);
    let id = registry.register(&window).unwrap();
    assert_eq!(Rc::strong_count(&window), 1);
    drop(window);
    assert!(registry.get(id).is_none());
    assert_eq!(registry.latest(), None);
}

#[test]
fn newest_alive_picks_the_last_live_handle() {
    assert_eq!(newest_alive(&vec![1, 2, 3], &vec![1, 2, 0]), Some(2));
    assert_eq!(newest_alive(&vec![1, 2, 3], &vec![1, 0, 0]), Some(1));
    assert_eq!(newest_alive(&vec![4, 7], &vec![0, 0]), None);
    assert_eq!(newest_alive(&Vec::new(), &Vec::new()), None);
}

#[test]
fn other_handles_keep_their_windows_across_edits() {
    let mut registry = WindowRegistry::new();
    let a = Rc::new(10);
    let b = Rc::new(20);
    let c = Rc::new(30);
    let id_a = registry.register(&a).unwrap();
    let id_b = registry.register(&b).unwrap();
    registry.remove(id_b);
    let id_c = registry.register(&c).unwrap();
    assert_eq!(*registry.get(id_a).unwrap(), 10);
    assert_eq!(*registry.get(id_c).unwrap(), 30);
    assert!(registry.get(id_b).is_none());
    assert!(Rc::ptr_eq(&registry.get(id_a).unwrap(), &a));
}
