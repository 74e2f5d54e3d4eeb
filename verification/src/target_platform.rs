//! Runtime platform detection.
//!
//! `TargetPlatform` lets application code branch on the host platform.  The
//! platform is derived from the target's operating-system name and CPU
//! architecture name (the values Rust reports as `std::env::consts::OS` and
//! `std::env::consts::ARCH`).

use vstd::prelude::*;
use vstd::string::StrSliceExecFns;

verus! {

/// The platform the application is currently running on.
#[derive(Debug, Clone, Copy, PartialEq, Eq, Structural, Hash)]
pub enum TargetPlatform {
    /// Android (NDK / JNI).
    Android,
    /// iOS (UIKit / Metal).
    IOS,
    /// macOS (AppKit / Metal).
    MacOS,
    /// Linux (X11 / Wayland).
    Linux,
    /// Windows (Win32 / DirectX).
    Windows,
    /// Web (wasm32 / WebGPU).
    Web,
}

/// The platform that an operating-system name and an architecture name
/// denote, if any.  The operating system decides first; `wasm32` is the web
/// target whatever its operating-system name.
pub open spec fn platform_for(os: Seq<char>, arch: Seq<char>) -> Option<TargetPlatform> {
    if os == "android"@ {
        Some(TargetPlatform::Android)
    } else if os == "ios"@ {
        Some(TargetPlatform::IOS)
    } else if os == "macos"@ {
        Some(TargetPlatform::MacOS)
    } else if os == "linux"@ {
        Some(TargetPlatform::Linux)
    } else if os == "windows"@ {
        Some(TargetPlatform::Windows)
    } else if arch == "wasm32"@ {
        Some(TargetPlatform::Web)
    } else {
        None
    }
}

/// The display name of a platform.
pub open spec fn platform_name(p: TargetPlatform) -> Seq<char> {
    match p {
        TargetPlatform::Android => "Android"@,
        TargetPlatform::IOS => "iOS"@,
        TargetPlatform::MacOS => "macOS"@,
        TargetPlatform::Linux => "Linux"@,
        TargetPlatform::Windows => "Windows"@,
        TargetPlatform::Web => "Web"@,
    }
}

/// Character-wise equality of two string slices.
pub fn str_equal(a: &str, b: &str) -> (r: bool)
    ensures
        r == (a@ == b@),
{
    let n = a.unicode_len();
    let m = b.unicode_len();
    if n != m {
        return false;
    }
    let mut i: usize = 0;
    while i < n
        invariant
            n == a@.len(),
            m == b@.len(),
            n == m,
            i <= n,
            forall|j: int| 0 <= j < i ==> a@[j] == b@[j],
        decreases n - i,
    {
        if a.get_char(i) != b.get_char(i) {
            return false;
        }
        i = i + 1;
    }
    assert(a@ =~= b@);
    true
}

/// The platform denoted by `os` and `arch`, if any (see [`platform_for`]).
pub fn platform_from_names(os: &str, arch: &str) -> (r: Option<TargetPlatform>)
    ensures
        r == platform_for(os@, arch@),
{
    if str_equal(os, "android") {
        Some(TargetPlatform::Android)
    } else if str_equal(os, "ios") {
        Some(TargetPlatform::IOS)
    } else if str_equal(os, "macos") {
        Some(TargetPlatform::MacOS)
    } else if str_equal(os, "linux") {
        Some(TargetPlatform::Linux)
    } else if str_equal(os, "windows") {
        Some(TargetPlatform::Windows)
    } else if str_equal(arch, "wasm32") {
        Some(TargetPlatform::Web)
    } else {
        None
    }
}

/// Returns the `TargetPlatform` of the target named by `os` and `arch`.
///
/// Only targets that map to a platform are supported.
pub fn target_platform(os: &str, arch: &str) -> (r: TargetPlatform)
    requires
        platform_for(os@, arch@) is Some,
    ensures
        Some(r) == platform_for(os@, arch@),
{
    match platform_from_names(os, arch) {
        Some(p) => p,
        None => TargetPlatform::Linux,
    }
}

/// The default platform of the target named by `os` and `arch`: the one it
/// denotes, or Linux for targets that denote none.
pub fn default_platform(os: &str, arch: &str) -> (r: TargetPlatform)
    ensures
        r == (match platform_for(os@, arch@) {
            Some(p) => p,
            None => TargetPlatform::Linux,
        }),
{
    match platform_from_names(os, arch) {
        Some(p) => p,
        None => TargetPlatform::Linux,
    }
}

impl TargetPlatform {
    /// Returns `true` if this is a mobile platform (Android or iOS).
    pub fn is_mobile(self) -> (r: bool)
        ensures
            r == (self == TargetPlatform::Android || self == TargetPlatform::IOS),
    {
        match self {
            TargetPlatform::Android | TargetPlatform::IOS => true,
            _ => false,
        }
    }

    /// Returns `true` if this is a desktop platform (macOS, Linux, or Windows).
    pub fn is_desktop(self) -> (r: bool)
        ensures
            r == (self == TargetPlatform::MacOS || self == TargetPlatform::Linux || self
                == TargetPlatform::Windows),
    {
        match self {
            TargetPlatform::MacOS | TargetPlatform::Linux | TargetPlatform::Windows => true,
            _ => false,
        }
    }

    /// Returns `true` if this is Android.
    pub fn is_android(self) -> (r: bool)
        ensures
            r == (self == TargetPlatform::Android),
    {
        self == TargetPlatform::Android
    }

    /// Returns `true` if this is iOS.
    pub fn is_ios(self) -> (r: bool)
        ensures
            r == (self == TargetPlatform::IOS),
    {
        self == TargetPlatform::IOS
    }

    /// Returns `true` if this is macOS.
    pub fn is_macos(self) -> (r: bool)
        ensures
            r == (self == TargetPlatform::MacOS),
    {
        self == TargetPlatform::MacOS
    }

    /// Returns `true` if this is Linux.
    pub fn is_linux(self) -> (r: bool)
        ensures
            r == (self == TargetPlatform::Linux),
    {
        self == TargetPlatform::Linux
    }

    /// Returns `true` if this is Windows.
    pub fn is_windows(self) -> (r: bool)
        ensures
            r == (self == TargetPlatform::Windows),
    {
        self == TargetPlatform::Windows
    }

    /// Returns `true` if this is a web (WASM) target.
    pub fn is_web(self) -> (r: bool)
        ensures
            r == (self == TargetPlatform::Web),
    {
        self == TargetPlatform::Web
    }

    /// Returns `true` if this is an Apple platform (iOS or macOS).
    pub fn is_apple(self) -> (r: bool)
        ensures
            r == (self == TargetPlatform::IOS || self == TargetPlatform::MacOS),
    {
        match self {
            TargetPlatform::IOS | TargetPlatform::MacOS => true,
            _ => false,
        }
    }

    /// The platform's display name ("Android", "iOS", "macOS", "Linux",
    /// "Windows" or "Web").
    pub fn name(self) -> (r: &'static str)
        ensures
            r@ == platform_name(self),
    {
        match self {
            TargetPlatform::Android => "Android",
            TargetPlatform::IOS => "iOS",
            TargetPlatform::MacOS => "macOS",
            TargetPlatform::Linux => "Linux",
            TargetPlatform::Windows => "Windows",
            TargetPlatform::Web => "Web",
        }
    }
}

/// Every platform is exactly one of mobile, desktop and web.
pub proof fn lemma_platform_classes_partition(p: TargetPlatform)
    ensures
        (p == TargetPlatform::Android || p == TargetPlatform::IOS) as int + (p
            == TargetPlatform::MacOS || p == TargetPlatform::Linux || p == TargetPlatform::Windows) as int
            + (p == TargetPlatform::Web) as int == 1,
{
}

} // verus!
