//! Android display identity and density.
//!
//! Display geometry comes from the native window; what is computed from it
//! lives here: the identifier of a synthetic (headless) display, the density
//! that a configuration denotes, the stable UUID derived from a display's
//! identifier, and the list of connected displays.

use vstd::prelude::*;

verus! {

/// The Android baseline density (dots per inch) that a scale factor of 1
/// stands for.
pub const DENSITY_DEFAULT: i32 = 160;

/// The identifier of a display or window that has no native window: the
/// width in the high 32 bits and the height in the low 32 bits.
pub open spec fn synthetic_id(width: i32, height: i32) -> u64 {
    ((width as u64) << 32u64) | (height as u64)
}

/// The identifier given to a synthetic display (or window) of the given size.
///
/// For non-negative sizes it is `width * 2^32 + height`.
pub fn headless_id(width: i32, height: i32) -> (r: u64)
    ensures
        r == synthetic_id(width, height),
        width >= 0 && height >= 0 ==> r == width * 0x1_0000_0000 + height,
{
    let r = ((width as u64) << 32u64) | (height as u64);
    proof {
        if width >= 0 && height >= 0 {
            let w = width as u64;
            let h = height as u64;
            assert(w == width && h == height);
            assert(w < 0x8000_0000u64 && h < 0x8000_0000u64);
            assert((w << 32u64) | h == w * 0x1_0000_0000u64 + h) by (bit_vector)
                requires
                    w < 0x8000_0000u64,
                    h < 0x8000_0000u64,
            ;
        }
    }
    r
}

/// Two synthetic displays of different non-negative sizes have different
/// identifiers.
pub proof fn lemma_headless_ids_distinct(w1: i32, h1: i32, w2: i32, h2: i32)
    requires
        w1 >= 0,
        h1 >= 0,
        w2 >= 0,
        h2 >= 0,
        w1 != w2 || h1 != h2,
    ensures
        synthetic_id(w1, h1) != synthetic_id(w2, h2),
{
    let a1 = w1 as u64;
    let b1 = h1 as u64;
    let a2 = w2 as u64;
    let b2 = h2 as u64;
    assert(((a1 << 32u64) | b1) != ((a2 << 32u64) | b2)) by (bit_vector)
        requires
            a1 < 0x8000_0000u64,
            b1 < 0x8000_0000u64,
            a2 < 0x8000_0000u64,
            b2 < 0x8000_0000u64,
            a1 != a2 || b1 != b2,
    ;
}

/// The density used for a reported density: the reported one when it is
/// positive, the baseline density otherwise.
pub open spec fn effective_density_spec(density_dpi: i32) -> i32 {
    if density_dpi > 0 {
        density_dpi
    } else {
        DENSITY_DEFAULT
    }
}

/// Every positive reported density is used unchanged, whatever its size;
/// only zero or a negative value falls back to the baseline density.
pub proof fn lemma_positive_density_is_kept(density_dpi: i32)
    ensures
        density_dpi > 0 ==> effective_density_spec(density_dpi) == density_dpi,
        density_dpi <= 0 ==> effective_density_spec(density_dpi) == DENSITY_DEFAULT,
        effective_density_spec(density_dpi) > 0,
{
}

/// The density to use for a reported density in dots per inch; zero or a
/// negative value stands for the baseline density (160 dpi).
pub fn effective_density(density_dpi: i32) -> (r: i32)
    ensures
        r == effective_density_spec(density_dpi),
        r > 0,
        density_dpi > 0 ==> r == density_dpi,
        density_dpi <= 0 ==> r == DENSITY_DEFAULT,
{
    if density_dpi > 0 {
        density_dpi
    } else {
        DENSITY_DEFAULT
    }
}

/// The density reported by a configuration that may not know it: the
/// baseline density when it does not, and otherwise the reported value read
/// as a signed 32-bit integer (values above `i32::MAX` wrap to negative ones,
/// which then stand for the baseline density).
pub fn configured_density(reported: Option<u32>) -> (r: i32)
    ensures
        reported is None ==> r == DENSITY_DEFAULT,
        reported matches Some(d) ==> (d <= i32::MAX ==> r == d) && (d > i32::MAX ==> r == d - 0x1_0000_0000),
{
    match reported {
        None => DENSITY_DEFAULT,
        Some(d) => {
            if d <= 0x7fff_ffff {
                d as i32
            } else {
                let low: u32 = d - 0x8000_0000;
                let neg: i32 = low as i32;
                neg - 0x4000_0000 - 0x4000_0000
            }
        },
    }
}

// ── display UUID ─────────────────────────────────────────────────────────────

/// The ASCII code of a lowercase hexadecimal digit.
pub open spec fn hex_char(d: nat) -> u8 {
    if d < 10 {
        (48 + d) as u8
    } else {
        (87 + d) as u8
    }
}

/// The lowercase hexadecimal digits of `n`, most significant first, without
/// leading zeros (`0` has the single digit `0`).
pub open spec fn hex_digits(n: nat) -> Seq<u8>
    decreases n,
{
    if n < 16 {
        seq![hex_char(n)]
    } else {
        hex_digits(n / 16).push(hex_char(n % 16))
    }
}

/// The ASCII bytes of `android-display-0x`.
pub open spec fn display_name_prefix() -> Seq<u8> {
    seq![97u8, 110, 100, 114, 111, 105, 100, 45, 100, 105, 115, 112, 108, 97, 121, 45, 48, 120]
}

/// The name from which a display's UUID is derived: `android-display-`
/// followed by the identifier in alternate hexadecimal form (`0x…`).
pub open spec fn display_uuid_name_spec(id: u64) -> Seq<u8> {
    display_name_prefix() + hex_digits(id as nat)
}

fn push_hex_digits(out: &mut Vec<u8>, n: u64)
    ensures
        final(out)@ == old(out)@ + hex_digits(n as nat),
    decreases n,
{
    if n >= 16 {
        push_hex_digits(out, n / 16);
    }
    let d = n % 16;
    let c: u8 = if d < 10 {
        48 + d as u8
    } else {
        87 + d as u8
    };
    out.push(c);
    proof {
        if n >= 16 {
            assert(hex_digits(n as nat) == hex_digits((n / 16) as nat).push(hex_char((n % 16) as nat)));
        }
    }
}

/// The bytes of the name from which the UUID of the display `id` is
/// derived, e.g. `android-display-0x1a2b`.
pub fn display_uuid_name(id: u64) -> (r: Vec<u8>)
    ensures
        r@ == display_uuid_name_spec(id),
{
    let prefix: [u8; 18] = [97, 110, 100, 114, 111, 105, 100, 45, 100, 105, 115, 112, 108, 97, 121, 45, 48, 120];
    let mut out: Vec<u8> = Vec::new();
    let mut i: usize = 0;
    while i < 18
        invariant
            i <= 18,
            prefix@ == display_name_prefix(),
            out@ == display_name_prefix().take(i as int),
        decreases 18 - i,
    {
        proof {
            assert(display_name_prefix().take(i as int + 1) =~= display_name_prefix().take(i as int).push(prefix@[i as int]));
        }
        out.push(prefix[i]);
        i = i + 1;
    }
    assert(display_name_prefix().take(18) =~= display_name_prefix());
    push_hex_digits(&mut out, id);
    out
}

/// The version-5 (SHA-1, name-based) UUID that `uuid::Uuid::new_v5` derives
/// from the namespace UUID `namespace` and `name`, as its 16 bytes.
pub uninterp spec fn uuid_v5(namespace: Seq<u8>, name: Seq<u8>) -> Seq<u8>;

/// Calls `uuid::Uuid::new_v5` with the namespace UUID whose bytes are
/// `namespace` and returns the UUID's bytes.  Claimed: the bytes are the
/// named result of that call on `namespace` and `name`; the function is
/// deterministic (a SHA-1 hash of the namespace's bytes and the name), so the
/// name depends on its two arguments alone.
#[verifier::external_body]
fn uuid_new_v5(namespace: &[u8; 16], name: &[u8]) -> (r: [u8; 16])
    ensures
        r@ == uuid_v5(namespace@, name@),
{
    *uuid::Uuid::new_v5(&uuid::Uuid::from_bytes(*namespace), name).as_bytes()
}

/// The bytes of the UUID namespace for ISO object identifiers,
/// `6ba7b812-9dad-11d1-80b4-00c04fd430c8`.
pub open spec fn oid_namespace() -> Seq<u8> {
    seq![0x6bu8, 0xa7, 0xb8, 0x12, 0x9d, 0xad, 0x11, 0xd1, 0x80, 0xb4, 0x00, 0xc0, 0x4f, 0xd4, 0x30, 0xc8]
}

/// A stable UUID for the display `id`: the version-5 UUID of the display's
/// name in the OID namespace, so the same identifier always yields the same
/// UUID.
pub fn display_uuid(id: u64) -> (r: [u8; 16])
    ensures
        r@ == uuid_v5(oid_namespace(), display_uuid_name_spec(id)),
{
    let namespace: [u8; 16] = [0x6b, 0xa7, 0xb8, 0x12, 0x9d, 0xad, 0x11, 0xd1, 0x80, 0xb4, 0x00, 0xc0, 0x4f, 0xd4, 0x30, 0xc8];
    assert(namespace@ =~= oid_namespace());
    let name = display_uuid_name(id);
    uuid_new_v5(&namespace, name.as_slice())
}

// ── display list ─────────────────────────────────────────────────────────────

/// The currently connected displays; the first one is the primary display.
pub struct DisplayList<D> {
    displays: Vec<D>,
}

impl<D> View for DisplayList<D> {
    type V = Seq<D>;

    closed spec fn view(&self) -> Seq<D> {
        self.displays@
    }
}

impl<D> DisplayList<D> {
    /// A list holding a single, primary display.
    pub fn single(display: D) -> (r: Self)
        ensures
            r@ == seq![display],
    {
        let mut displays: Vec<D> = Vec::new();
        displays.push(display);
        DisplayList { displays }
    }

    /// The primary (first) display, if any.
    pub fn primary(&self) -> (r: Option<&D>)
        ensures
            self@.len() > 0 ==> r == Some(&self@[0]),
            self@.len() == 0 ==> r is None,
    {
        if self.displays.len() > 0 {
            Some(&self.displays[0])
        } else {
            None
        }
    }

    /// All displays.
    pub fn all(&self) -> (r: &[D])
        ensures
            r@ == self@,
    {
        self.displays.as_slice()
    }

    /// The number of connected displays.
    pub fn len(&self) -> (r: usize)
        ensures
            r == self@.len(),
    {
        self.displays.len()
    }

    /// Whether no display is connected.
    pub fn is_empty(&self) -> (r: bool)
        ensures
            r == (self@.len() == 0),
    {
        self.displays.len() == 0
    }
}

} // verus!
