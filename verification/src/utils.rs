//! Small helpers: boolean environment flags, image-extent iteration and
//! extent conversions, and the crate version as a Vulkan version number.
use vstd::prelude::*;
use crate::render_graph::resource::Extent3D;

verus! {

/// `s` is a nonempty run of decimal digits.
pub open spec fn is_decimal_digits(s: Seq<char>) -> bool {
    s.len() > 0 && forall|i: int| 0 <= i < s.len() ==> '0' <= #[trigger] s[i] && s[i] <= '9'
}

/// The value of a run of decimal digits.
pub open spec fn decimal_value(s: Seq<char>) -> int
    decreases s.len(),
{
    if s.len() == 0 {
        0
    } else {
        decimal_value(s.drop_last()) * 10 + (s.last() as int - '0' as int)
    }
}

/// What `str::parse::<i32>` gives: an optional `+` or `-` sign followed by
/// only decimal digits, whose value fits in an `i32`; anything else is an
/// error (`None`).
pub open spec fn parsed_i32(s: Seq<char>) -> Option<i32> {
    let signed = s.len() > 0 && (s[0] == '+' || s[0] == '-');
    let digits = if signed { s.drop_first() } else { s };
    let v = if s.len() > 0 && s[0] == '-' { -decimal_value(digits) } else { decimal_value(digits) };
    if is_decimal_digits(digits) && i32::MIN <= v && v <= i32::MAX {
        Some(v as i32)
    } else {
        None
    }
}

/// `str::parse::<i32>`, with the error kind dropped.
#[verifier::external_body]
fn parse_i32(s: &str) -> (r: Option<i32>)
    ensures
        r == parsed_i32(s@),
{
    s.parse::<i32>().ok()
}

/// A parsed flag value: any nonzero integer means on, zero means off.
pub fn flag_from_parsed(parsed: Option<i32>) -> (r: Option<bool>)
    ensures
        r == match parsed {
            Some(v) => Some(v != 0),
            None => None::<bool>,
        },
{
    match parsed {
        Some(v) => Some(v != 0),
        None => None,
    }
}

/// A boolean environment flag, from the variable's value if it is set: `1`
/// (or any nonzero integer) is on, `0` is off; an unset variable or a value
/// that is not an integer gives `None`.
pub fn env_var_as_bool(value: Option<String>) -> (r: Option<bool>)
    ensures
        r == match value {
            Some(s) => match parsed_i32(s@) {
                Some(v) => Some(v != 0),
                None => None::<bool>,
            },
            None => None::<bool>,
        },
{
    match value {
        Some(s) => flag_from_parsed(parse_i32(s.as_str())),
        None => None,
    }
}

/// Every pixel of a `w` x `h` image, row by row: pixel `i` is `(i % w, i / w)`.
pub fn iterate_image_extent(w: u32, h: u32) -> (r: Vec<(u32, u32)>)
    requires
        w * h <= u32::MAX,
    ensures
        r@.len() == w * h,
        forall|i: int| 0 <= i < r@.len() ==> #[trigger] r@[i] == ((i % (w as int)) as u32, (i / (w as int)) as u32),
{
    let n = w * h;
    let mut out: Vec<(u32, u32)> = Vec::new();
    let mut i: u32 = 0;
    while i < n
        invariant
            i <= n,
            n == w * h,
            out@.len() == i,
            forall|k: int| 0 <= k < i ==> #[trigger] out@[k] == ((k % (w as int)) as u32, (k / (w as int)) as u32),
        decreases n - i,
    {
        proof {
            assert(w > 0) by (nonlinear_arith)
                requires i < n, n == w * h;
        }
        out.push((i % w, i / w));
        i = i + 1;
    }
    out
}

/// A two-dimensional size.
#[derive(Clone, Copy, Debug, PartialEq, Eq, Structural)]
pub struct Extent2D {
    pub width: u32,
    pub height: u32,
}

pub fn tuple_to_extent2d(wh: (u32, u32)) -> (r: Extent2D)
    ensures
        r == (Extent2D { width: wh.0, height: wh.1 }),
{
    Extent2D { width: wh.0, height: wh.1 }
}

/// A flat extent: depth one.
pub fn tuple_to_extent3d(wh: (u32, u32)) -> (r: Extent3D)
    ensures
        r == (Extent3D { width: wh.0, height: wh.1, depth: 1 }),
{
    let e = tuple_to_extent2d(wh);
    Extent3D { width: e.width, height: e.height, depth: 1 }
}

/// What `u32::from_str_radix(s, 10)` gives: an optional `+` sign followed by
/// only decimal digits, whose value fits in a `u32`; anything else (a `-`
/// sign among them) is an error (`None`).
pub open spec fn parsed_u32_decimal(s: Seq<char>) -> Option<u32> {
    let digits = if s.len() > 0 && s[0] == '+' { s.drop_first() } else { s };
    if is_decimal_digits(digits) && decimal_value(digits) <= u32::MAX {
        Some(decimal_value(digits) as u32)
    } else {
        None
    }
}

/// `u32::from_str_radix(s, 10)`, with the error kind dropped.
#[verifier::external_body]
fn parse_u32_decimal(s: &str) -> (r: Option<u32>)
    ensures
        r == parsed_u32_decimal(s@),
{
    u32::from_str_radix(s, 10).ok()
}

/// The Vulkan version number packing: variant in the top three bits, then
/// major (7 bits), minor (10 bits) and patch (12 bits).
pub open spec fn api_version_spec(variant: u32, major: u32, minor: u32, patch: u32) -> u32 {
    (variant << 29u32) | (major << 22u32) | (minor << 12u32) | patch
}

/// `ash::vk::make_api_version`.
#[verifier::external_body]
pub(crate) fn make_api_version(variant: u32, major: u32, minor: u32, patch: u32) -> (r: u32)
    ensures
        r == api_version_spec(variant, major, minor, patch),
{
    ash::vk::make_api_version(variant, major, minor, patch)
}

/// The crate version as a Vulkan version number, from the three version
/// components as text; `None` when one of them is not a decimal `u32`.
pub fn parse_crate_version(major: &str, minor: &str, patch: &str) -> (r: Option<u32>)
    ensures
        r == match (parsed_u32_decimal(major@), parsed_u32_decimal(minor@), parsed_u32_decimal(patch@)) {
            (Some(a), Some(b), Some(c)) => Some(api_version_spec(0, a, b, c)),
            _ => None::<u32>,
        },
{
    let major_version = parse_u32_decimal(major);
    let minor_version = parse_u32_decimal(minor);
    let patch_version = parse_u32_decimal(patch);
    crate_version_from_parts(major_version, minor_version, patch_version)
}

/// The crate version from its three parsed components.
pub fn crate_version_from_parts(major: Option<u32>, minor: Option<u32>, patch: Option<u32>) -> (r: Option<u32>)
    ensures
        r == match (major, minor, patch) {
            (Some(a), Some(b), Some(c)) => Some(api_version_spec(0, a, b, c)),
            _ => None::<u32>,
        },
{
    match (major, minor, patch) {
        (Some(a), Some(b), Some(c)) => Some(make_api_version(0, a, b, c)),
        _ => None,
    }
}

} // verus!
