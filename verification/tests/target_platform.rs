use gpui_mobile::target_platform::{default_platform, platform_from_names, str_equal, target_platform, TargetPlatform};

const ALL: [TargetPlatform; 6] = [
    TargetPlatform::Android,
    TargetPlatform::IOS,
    TargetPlatform::MacOS,
    TargetPlatform::Linux,
    TargetPlatform::Windows,
    TargetPlatform::Web,
];

#[test]
fn mobile_platforms_are_android_and_ios() {
    for p in ALL {
        assert_eq!(p.is_mobile(), p == TargetPlatform::Android || p == TargetPlatform::IOS);
    }
}

#[test]
fn desktop_platforms_are_macos_linux_windows() {
    for p in ALL {
        assert_eq!(
            p.is_desktop(),
            matches!(p, TargetPlatform::MacOS | TargetPlatform::Linux | TargetPlatform::Windows)
        );
    }
}

#[test]
fn apple_platforms_are_ios_and_macos() {
    assert!(TargetPlatform::IOS.is_apple());
    assert!(TargetPlatform::MacOS.is_apple());
    assert!(!TargetPlatform::Android.is_apple());
    assert!(!TargetPlatform::Web.is_apple());
}

#[test]
fn each_platform_has_exactly_one_predicate() {
    for p in ALL {
        let hits = [
            p.is_android(),
            p.is_ios(),
            p.is_macos(),
            p.is_linux(),
            p.is_windows(),
            p.is_web(),
        ]
        .iter()
        .filter(|b| **b)
        .count();
        assert_eq!(hits, 1);
        let classes = [p.is_mobile(), p.is_desktop(), p.is_web()].iter().filter(|b| **b).count();
        assert_eq!(classes, 1);
    }
}

#[test]
fn platform_names() {
    let names: Vec<&str> = ALL.iter().map(|p| p.name()).collect();
    assert_eq!(names, vec!["Android", "iOS", "macOS", "Linux", "Windows", "Web"]);
}

#[test]
fn platform_from_os_names() {
    assert_eq!(target_platform("android", "aarch64"), TargetPlatform::Android);
    assert_eq!(target_platform("ios", "aarch64"), TargetPlatform::IOS);
    assert_eq!(target_platform("macos", "x86_64"), TargetPlatform::MacOS);
    assert_eq!(target_platform("linux", "x86_64"), TargetPlatform::Linux);
    assert_eq!(target_platform("windows", "x86_64"), TargetPlatform::Windows);
    assert_eq!(target_platform("unknown", "wasm32"), TargetPlatform::Web);
    assert_eq!(target_platform("wasi", "wasm32"), TargetPlatform::Web);
}

#[test]
fn unsupported_target_has_no_platform() {
    assert_eq!(platform_from_names("freebsd", "x86_64"), None);
    assert_eq!(platform_from_names("Linux", "x86_64"), None);
    assert_eq!(default_platform("freebsd", "x86_64"), TargetPlatform::Linux);
    assert_eq!(default_platform("ios", "aarch64"), TargetPlatform::IOS);
}

#[test]
fn string_equality_is_exact() {
    assert!(str_equal("linux", "linux"));
    assert!(!str_equal("linux", "linu"));
    assert!(!str_equal("linux", "Linux"));
    assert!(str_equal("", ""));
    assert!(str_equal("héllo", "héllo"));
}
