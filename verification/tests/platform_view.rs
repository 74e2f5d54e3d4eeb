use gpui_mobile::platform_view::IosPlatformViewFactory;

#[test]
fn factory_keeps_its_view_type() {
    let f = IosPlatformViewFactory::new("webview");
    assert_eq!(f.view_type(), "webview");
    let g = IosPlatformViewFactory::new("camera_preview");
    assert_eq!(g.view_type(), "camera_preview");
}
