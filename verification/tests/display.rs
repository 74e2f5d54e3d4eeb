use gpui_mobile::display::{
    configured_density, display_uuid, display_uuid_name, effective_density, headless_id, DisplayList, DENSITY_DEFAULT,
};

#[test]
fn display_id_differs_for_different_sizes() {
    let d1 = headless_id(1080, 1920);
    let d2 = headless_id(1440, 2560);
    assert_ne!(d1, d2);
}

#[test]
fn headless_id_packs_width_and_height() {
    assert_eq!(headless_id(1080, 1920), (1080u64 << 32) | 1920);
    assert_eq!(headless_id(0, 0), 0);
    // A negative height fills the high bits, as the conversion does.
    assert_eq!(headless_id(1, -1), u64::MAX);
}

#[test]
fn display_list_primary() {
    let list = DisplayList::single((1080, 1920));
    assert!(!list.is_empty());
    assert_eq!(list.len(), 1);
    let primary = list.primary().expect("primary display");
    assert_eq!(primary.0, 1080);
    assert_eq!(list.all(), &[(1080, 1920)]);
}

#[test]
fn density_falls_back_to_baseline() {
    assert_eq!(effective_density(480), 480);
    assert_eq!(effective_density(0), DENSITY_DEFAULT);
    assert_eq!(effective_density(-5), 160);
    assert_eq!(configured_density(None), 160);
    assert_eq!(configured_density(Some(320)), 320);
    assert_eq!(configured_density(Some(0x8000_0000)), i32::MIN);
    assert_eq!(effective_density(configured_density(Some(u32::MAX))), 160);
}

#[test]
fn uuid_name_is_alternate_hex() {
    assert_eq!(display_uuid_name(0x1a2b), b"android-display-0x1a2b".to_vec());
    assert_eq!(display_uuid_name(0), b"android-display-0x0".to_vec());
    assert_eq!(display_uuid_name(u64::MAX), b"android-display-0xffffffffffffffff".to_vec());
    let id = headless_id(1080, 1920);
    assert_eq!(display_uuid_name(id), format!("android-display-{:#x}", id).into_bytes());
}

#[test]
fn display_uuid_is_the_v5_uuid_of_the_name() {
    let id = 0xdead_beef_u64;
    let expected = uuid::Uuid::new_v5(&uuid::Uuid::NAMESPACE_OID, b"android-display-0xdeadbeef");
    let bytes = display_uuid(id);
    assert_eq!(&bytes, expected.as_bytes());
    assert_eq!(uuid::Uuid::from_bytes(bytes).get_version_num(), 5);
    assert_eq!(display_uuid(id), display_uuid(id));
    assert_ne!(display_uuid(1), display_uuid(2));
}
