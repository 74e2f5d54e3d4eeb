//! The state that an Android window keeps about itself, and the rules by
//! which it changes.
//!
//! Each setter reports whether the value changed, because a window notifies
//! its observers (appearance, active status, resize) only on a change.

use vstd::prelude::*;

verus! {

/// Light / dark / high-contrast appearance of the window.
#[derive(Copy, Clone, Debug, PartialEq, Eq, Structural)]
pub enum WindowAppearance {
    Light,
    Dark,
    HighContrastLight,
    HighContrastDark,
}

impl Default for WindowAppearance {
    fn default() -> (r: Self)
        ensures
            r == WindowAppearance::Light,
    {
        WindowAppearance::Light
    }
}

/// The appearances the UI framework distinguishes.
#[derive(Copy, Clone, Debug, PartialEq, Eq, Structural)]
pub enum SystemAppearance {
    Light,
    VibrantLight,
    Dark,
    VibrantDark,
}

/// The framework appearance that a window appearance is reported as:
/// high-contrast dark is vibrant dark, and both light appearances are light.
pub open spec fn system_appearance_of(a: WindowAppearance) -> SystemAppearance {
    match a {
        WindowAppearance::Dark => SystemAppearance::Dark,
        WindowAppearance::HighContrastDark => SystemAppearance::VibrantDark,
        WindowAppearance::Light => SystemAppearance::Light,
        WindowAppearance::HighContrastLight => SystemAppearance::Light,
    }
}

impl WindowAppearance {
    /// The framework appearance this appearance is reported as.
    pub fn to_system(self) -> (r: SystemAppearance)
        ensures
            r == system_appearance_of(self),
    {
        match self {
            WindowAppearance::Dark => SystemAppearance::Dark,
            WindowAppearance::HighContrastDark => SystemAppearance::VibrantDark,
            WindowAppearance::Light | WindowAppearance::HighContrastLight => SystemAppearance::Light,
        }
    }
}

/// Size, appearance and status of a window.
pub struct WindowStatus {
    width: i32,
    height: i32,
    appearance: WindowAppearance,
    active: bool,
    transparent: bool,
}

/// The abstract state of a window.
pub struct WindowModel {
    pub width: i32,
    pub height: i32,
    pub appearance: WindowAppearance,
    pub active: bool,
    pub transparent: bool,
}

impl View for WindowStatus {
    type V = WindowModel;

    closed spec fn view(&self) -> WindowModel {
        WindowModel {
            width: self.width,
            height: self.height,
            appearance: self.appearance,
            active: self.active,
            transparent: self.transparent,
        }
    }
}

impl WindowStatus {
    /// A window backed by a native surface of the given size: light and
    /// active.
    pub fn with_surface(width: i32, height: i32, transparent: bool) -> (r: Self)
        ensures
            r@ == (WindowModel {
                width,
                height,
                appearance: WindowAppearance::Light,
                active: true,
                transparent,
            }),
    {
        WindowStatus { width, height, appearance: WindowAppearance::Light, active: true, transparent }
    }

    /// A window without a native surface: light, inactive and opaque.
    pub fn headless(width: i32, height: i32) -> (r: Self)
        ensures
            r@ == (WindowModel {
                width,
                height,
                appearance: WindowAppearance::Light,
                active: false,
                transparent: false,
            }),
    {
        WindowStatus { width, height, appearance: WindowAppearance::Light, active: false, transparent: false }
    }

    /// Sets the appearance; `true` when it changed.
    pub fn set_appearance(&mut self, appearance: WindowAppearance) -> (changed: bool)
        ensures
            changed == (old(self)@.appearance != appearance),
            final(self)@ == (WindowModel { appearance, ..old(self)@ }),
    {
        if self.appearance == appearance {
            return false;
        }
        self.appearance = appearance;
        true
    }

    /// Sets the active (foreground) status; `true` when it changed.
    pub fn set_active(&mut self, active: bool) -> (changed: bool)
        ensures
            changed == (old(self)@.active != active),
            final(self)@ == (WindowModel { active, ..old(self)@ }),
    {
        let changed = self.active != active;
        self.active = active;
        changed
    }

    /// Sets transparent compositing; `true` when it changed.
    pub fn set_transparent(&mut self, transparent: bool) -> (changed: bool)
        ensures
            changed == (old(self)@.transparent != transparent),
            final(self)@ == (WindowModel { transparent, ..old(self)@ }),
    {
        if self.transparent == transparent {
            return false;
        }
        self.transparent = transparent;
        true
    }

    /// Records the surface's size; `true` when it changed.
    pub fn resize(&mut self, width: i32, height: i32) -> (changed: bool)
        ensures
            changed == (old(self)@.width != width || old(self)@.height != height),
            final(self)@ == (WindowModel { width, height, ..old(self)@ }),
    {
        if self.width == width && self.height == height {
            return false;
        }
        self.width = width;
        self.height = height;
        true
    }

    /// Width and height in device pixels.
    pub fn physical_size(&self) -> (r: (i32, i32))
        ensures
            r == (self@.width, self@.height),
    {
        (self.width, self.height)
    }

    /// The current appearance.
    pub fn appearance(&self) -> (r: WindowAppearance)
        ensures
            r == self@.appearance,
    {
        self.appearance
    }

    /// Whether the window is active.
    pub fn is_active(&self) -> (r: bool)
        ensures
            r == self@.active,
    {
        self.active
    }

    /// Whether the window composites transparently.
    pub fn is_transparent(&self) -> (r: bool)
        ensures
            r == self@.transparent,
    {
        self.transparent
    }
}

// ── safe area ────────────────────────────────────────────────────────────────

/// Safe-area insets in device pixels: the parts of the window covered by
/// system bars or cutouts.
#[derive(Copy, Clone, Debug, PartialEq, Eq, Structural)]
pub struct ContentInsets {
    pub top: i32,
    pub bottom: i32,
    pub left: i32,
    pub right: i32,
}

/// The insets of a `width` × `height` window whose uncovered content area is
/// the rectangle from (`left`, `top`) to (`right`, `bottom`): the content
/// rectangle's left and top edges, and the distances from its right and
/// bottom edges to the window's, never negative.
pub open spec fn insets_of(width: i32, height: i32, left: i32, top: i32, right: i32, bottom: i32) -> ContentInsets {
    ContentInsets {
        top,
        bottom: if height - bottom > 0 { (height - bottom) as i32 } else { 0 },
        left,
        right: if width - right > 0 { (width - right) as i32 } else { 0 },
    }
}

/// The right and bottom insets are the distances from the content
/// rectangle's right and bottom edges to the window's, never negative (the
/// larger of that distance and zero); the top and left insets are the
/// content rectangle's top and left edges.
pub proof fn lemma_insets_measure_uncovered_edges(width: i32, height: i32, left: i32, top: i32, right: i32, bottom: i32)
    requires
        i32::MIN <= height - bottom <= i32::MAX,
        i32::MIN <= width - right <= i32::MAX,
    ensures
        insets_of(width, height, left, top, right, bottom).top == top,
        insets_of(width, height, left, top, right, bottom).left == left,
        insets_of(width, height, left, top, right, bottom).right >= 0,
        insets_of(width, height, left, top, right, bottom).right >= width - right,
        insets_of(width, height, left, top, right, bottom).right == 0 || insets_of(width, height, left, top, right, bottom).right == width - right,
        insets_of(width, height, left, top, right, bottom).bottom >= 0,
        insets_of(width, height, left, top, right, bottom).bottom >= height - bottom,
        insets_of(width, height, left, top, right, bottom).bottom == 0 || insets_of(width, height, left, top, right, bottom).bottom == height - bottom,
{
}

/// Safe-area insets from the content rectangle that the system reports.
pub fn insets_from_content_rect(
    width: i32,
    height: i32,
    left: i32,
    top: i32,
    right: i32,
    bottom: i32,
) -> (r: ContentInsets)
    requires
        i32::MIN <= height - bottom <= i32::MAX,
        i32::MIN <= width - right <= i32::MAX,
    ensures
        r == insets_of(width, height, left, top, right, bottom),
        r.top == top,
        r.left == left,
        r.right >= 0 && r.right >= width - right && (r.right == 0 || r.right == width - right),
        r.bottom >= 0 && r.bottom >= height - bottom && (r.bottom == 0 || r.bottom == height - bottom),
{
    let b = height - bottom;
    let rt = width - right;
    ContentInsets { top, bottom: if b > 0 { b } else { 0 }, left, right: if rt > 0 { rt } else { 0 } }
}

// ── window list ──────────────────────────────────────────────────────────────

/// The position of the first entry with identifier `id`, if any.
pub open spec fn position_of<W>(s: Seq<(u64, W)>, id: u64) -> Option<int>
    decreases s.len(),
{
    if s.len() == 0 {
        None
    } else if s[0].0 == id {
        Some(0)
    } else {
        match position_of(s.drop_first(), id) {
            Some(p) => Some(p + 1),
            None => None,
        }
    }
}

/// `position_of` finds the first entry with the identifier.
pub proof fn lemma_position_of<W>(s: Seq<(u64, W)>, id: u64, i: int)
    requires
        0 <= i <= s.len(),
        forall|j: int| 0 <= j < i ==> #[trigger] s[j].0 != id,
    ensures
        i < s.len() && s[i].0 == id ==> position_of(s, id) == Some(i),
        i == s.len() ==> position_of(s, id) is None,
    decreases i,
{
    if i > 0 {
        let t = s.drop_first();
        assert forall|j: int| 0 <= j < i - 1 implies #[trigger] t[j].0 != id by {
            assert(t[j] == s[j + 1]);
            assert(s[j + 1].0 != id);
        }
        lemma_position_of(t, id, i - 1);
        assert(s[0].0 != id);
        if i < s.len() {
            assert(t[i - 1] == s[i]);
        }
    }
}

/// The windows of an application, each under its identifier; the first one
/// is the primary window.
pub struct WindowList<W> {
    windows: Vec<(u64, W)>,
}

impl<W> View for WindowList<W> {
    type V = Seq<(u64, W)>;

    closed spec fn view(&self) -> Seq<(u64, W)> {
        self.windows@
    }
}

impl<W> Default for WindowList<W> {
    fn default() -> (r: Self)
        ensures
            r@ == Seq::<(u64, W)>::empty(),
    {
        WindowList { windows: Vec::new() }
    }
}

impl<W> WindowList<W> {
    /// An empty list.
    pub fn new() -> (r: Self)
        ensures
            r@ == Seq::<(u64, W)>::empty(),
    {
        WindowList { windows: Vec::new() }
    }

    fn find(&self, id: u64) -> (r: Option<usize>)
        ensures
            match r {
                Some(i) => position_of(self@, id) == Some(i as int) && i < self@.len(),
                None => position_of(self@, id) is None,
            },
    {
        let mut i: usize = 0;
        while i < self.windows.len()
            invariant
                i <= self@.len(),
                forall|j: int| 0 <= j < i ==> #[trigger] self@[j].0 != id,
            decreases self@.len() - i,
        {
            if self.windows[i].0 == id {
                proof {
                    lemma_position_of(self@, id, i as int);
                }
                return Some(i);
            }
            i = i + 1;
        }
        proof {
            lemma_position_of(self@, id, i as int);
        }
        None
    }

    /// Adds a window at the end.
    pub fn push(&mut self, id: u64, window: W)
        ensures
            final(self)@ == old(self)@.push((id, window)),
    {
        self.windows.push((id, window));
    }

    /// Removes and returns the first window with identifier `id`, if present.
    pub fn remove(&mut self, id: u64) -> (r: Option<W>)
        ensures
            match position_of(old(self)@, id) {
                Some(p) => r == Some(old(self)@[p].1) && final(self)@ == old(self)@.remove(p),
                None => r is None && final(self)@ == old(self)@,
            },
    {
        match self.find(id) {
            Some(p) => {
                let entry = self.windows.remove(p);
                Some(entry.1)
            },
            None => None,
        }
    }

    /// The first window with identifier `id`, if present.
    pub fn get(&self, id: u64) -> (r: Option<&W>)
        ensures
            match position_of(self@, id) {
                Some(p) => r == Some(&self@[p].1),
                None => r is None,
            },
    {
        match self.find(id) {
            Some(p) => Some(&self.windows[p].1),
            None => None,
        }
    }

    /// The first (primary) window, if any.
    pub fn primary(&self) -> (r: Option<&W>)
        ensures
            self@.len() > 0 ==> r == Some(&self@[0].1),
            self@.len() == 0 ==> r is None,
    {
        if self.windows.len() > 0 {
            Some(&self.windows[0].1)
        } else {
            None
        }
    }

    /// The identifiers of the windows, in list order.
    pub fn ids(&self) -> (r: Vec<u64>)
        ensures
            r@ == self@.map_values(|e: (u64, W)| e.0),
    {
        let mut out: Vec<u64> = Vec::new();
        let mut i: usize = 0;
        while i < self.windows.len()
            invariant
                i <= self@.len(),
                out@ == self@.take(i as int).map_values(|e: (u64, W)| e.0),
            decreases self@.len() - i,
        {
            proof {
                assert(self@.take(i as int + 1).map_values(|e: (u64, W)| e.0) =~= self@.take(i as int).map_values(
                    |e: (u64, W)| e.0,
                ).push(self@[i as int].0));
            }
            out.push(self.windows[i].0);
            i = i + 1;
        }
        assert(self@.take(i as int) =~= self@);
        out
    }

    /// The number of windows.
    pub fn len(&self) -> (r: usize)
        ensures
            r == self@.len(),
    {
        self.windows.len()
    }

    /// Whether the list is empty.
    pub fn is_empty(&self) -> (r: bool)
        ensures
            r == (self@.len() == 0),
    {
        self.windows.len() == 0
    }
}

/// A window that was just added can be found by its identifier unless an
/// earlier window has the same identifier, and removing it by identifier
/// takes it out again.
pub proof fn lemma_push_then_find<W>(s: Seq<(u64, W)>, id: u64, w: W)
    requires
        position_of(s, id) is None,
    ensures
        position_of(s.push((id, w)), id) == Some(s.len() as int),
        s.push((id, w)).remove(s.len() as int) == s,
{
    let t = s.push((id, w));
    lemma_position_none(s, id);
    assert forall|j: int| 0 <= j < s.len() implies #[trigger] t[j].0 != id by {
        assert(t[j] == s[j]);
    }
    lemma_position_of(t, id, s.len() as int);
    assert(t.remove(s.len() as int) =~= s);
}

proof fn lemma_position_none<W>(s: Seq<(u64, W)>, id: u64)
    requires
        position_of(s, id) is None,
    ensures
        forall|j: int| 0 <= j < s.len() ==> #[trigger] s[j].0 != id,
    decreases s.len(),
{
    if s.len() > 0 {
        let t = s.drop_first();
        lemma_position_none(t, id);
        assert forall|j: int| 0 <= j < s.len() implies #[trigger] s[j].0 != id by {
            if j > 0 {
                assert(s[j] == t[j - 1]);
            }
        }
    }
}

} // verus!
