use gpui_mobile::display::headless_id;
use gpui_mobile::window_state::{
    insets_from_content_rect, ContentInsets, SystemAppearance, WindowAppearance, WindowList, WindowStatus,
};

#[test]
fn window_id_is_stable() {
    let id = headless_id(1080, 1920);
    assert_eq!(id, headless_id(1080, 1920));
}

#[test]
fn window_appearance_defaults_to_light() {
    let w = WindowStatus::headless(1080, 1920);
    assert_eq!(w.appearance(), WindowAppearance::Light);
    assert_eq!(WindowAppearance::default(), WindowAppearance::Light);
}

#[test]
fn window_set_appearance_dark() {
    let mut w = WindowStatus::headless(1080, 1920);
    w.set_appearance(WindowAppearance::Dark);
    assert_eq!(w.appearance(), WindowAppearance::Dark);
}

#[test]
fn window_appearance_callback_fires() {
    let mut w = WindowStatus::headless(1080, 1920);
    let fired = w.set_appearance(WindowAppearance::Dark);
    assert!(fired);
}

#[test]
fn window_appearance_callback_not_fired_if_unchanged() {
    let mut w = WindowStatus::headless(1080, 1920);
    // Default is Light; setting Light again should not fire.
    let fired = w.set_appearance(WindowAppearance::Light);
    assert!(!fired);
}

#[test]
fn headless_status_is_inactive_and_opaque() {
    let w = WindowStatus::headless(1080, 1920);
    assert_eq!(w.physical_size(), (1080, 1920));
    assert!(!w.is_active());
    assert!(!w.is_transparent());
    let s = WindowStatus::with_surface(720, 1280, true);
    assert!(s.is_active());
    assert!(s.is_transparent());
}

#[test]
fn active_status_change_is_reported_once() {
    let mut w = WindowStatus::headless(1080, 1920);
    assert!(w.set_active(true));
    assert!(!w.set_active(true));
    assert!(w.set_active(false));
    assert!(!w.is_active());
}

#[test]
fn resize_reports_only_real_changes() {
    let mut w = WindowStatus::with_surface(1080, 1920, false);
    assert!(!w.resize(1080, 1920));
    assert!(w.resize(1920, 1080));
    assert_eq!(w.physical_size(), (1920, 1080));
    assert!(!w.set_transparent(false));
    assert!(w.set_transparent(true));
}

#[test]
fn appearance_is_reported_to_the_framework() {
    assert_eq!(WindowAppearance::Dark.to_system(), SystemAppearance::Dark);
    assert_eq!(WindowAppearance::HighContrastDark.to_system(), SystemAppearance::VibrantDark);
    assert_eq!(WindowAppearance::Light.to_system(), SystemAppearance::Light);
    assert_eq!(WindowAppearance::HighContrastLight.to_system(), SystemAppearance::Light);
}

#[test]
fn insets_come_from_the_content_rect() {
    let i = insets_from_content_rect(1080, 2400, 0, 96, 1080, 2274);
    assert_eq!(i, ContentInsets { top: 96, bottom: 126, left: 0, right: 0 });
    // A content rect larger than the window never yields negative insets.
    let j = insets_from_content_rect(1080, 2400, 10, 0, 1200, 2500);
    assert_eq!(j, ContentInsets { top: 0, bottom: 0, left: 10, right: 0 });
}

#[test]
fn window_list_push_get_remove() {
    let mut list = WindowList::default();
    let id = headless_id(1080, 1920);

    list.push(id, "window");
    assert_eq!(list.len(), 1);
    assert!(list.get(id).is_some());

    let removed = list.remove(id);
    assert!(removed.is_some());
    assert!(list.is_empty());
    assert!(list.get(id).is_none());
}

#[test]
fn window_list_primary() {
    let mut list = WindowList::default();
    list.push(headless_id(1080, 1920), "window");
    assert!(list.primary().is_some());
}

#[test]
fn window_list_remove_missing_returns_none() {
    let mut list: WindowList<&str> = WindowList::default();
    assert!(list.remove(0xDEADBEEF).is_none());
}

#[test]
fn window_list_keeps_order_and_finds_first_match() {
    let mut list = WindowList::new();
    list.push(7, "a");
    list.push(9, "b");
    list.push(7, "c");
    assert_eq!(list.ids(), vec![7, 9, 7]);
    assert_eq!(list.get(7), Some(&"a"));
    assert_eq!(list.remove(7), Some("a"));
    assert_eq!(list.ids(), vec![9, 7]);
    assert_eq!(list.primary(), Some(&"b"));
    assert_eq!(list.get(7), Some(&"c"));
}
