use vstd::prelude::*;
use core::cmp::Ordering;

verus! {

/// A vector of three unsigned components, used for voxel coordinates inside a chunk.
#[derive(Debug, Clone, Copy, PartialEq, Eq, Structural)]
pub struct UVec3 {
    pub x: u32,
    pub y: u32,
    pub z: u32,
}

/// Builds a `UVec3` from its components.
pub fn uvec3(x: u32, y: u32, z: u32) -> (r: UVec3)
    ensures
        r == (UVec3 { x, y, z }),
{
    UVec3 { x, y, z }
}

/// Where `x` lies relative to the closed range `[min, max]`.
pub open spec fn rel_to_range_spec(x: int, min: int, max: int) -> Ordering {
    if x < min {
        Ordering::Less
    } else if x > max {
        Ordering::Greater
    } else {
        Ordering::Equal
    }
}

/// `x` clamped into the closed range `[min, max]` (`min` wins when the range is empty).
pub open spec fn clamp_spec(x: int, min: int, max: int) -> int {
    if x < min {
        min
    } else if x > max {
        max
    } else {
        x
    }
}

/// Compares `x` against the closed range `[min, max]`.
pub fn rel_to_range(x: u32, min: u32, max: u32) -> (r: Ordering)
    ensures
        r == rel_to_range_spec(x as int, min as int, max as int),
{
    if x < min {
        Ordering::Less
    } else if x > max {
        Ordering::Greater
    } else {
        Ordering::Equal
    }
}

/// Whether `min <= x <= max`.
pub fn is_in_range(x: u32, min: u32, max: u32) -> (r: bool)
    ensures
        r == (min <= x && x <= max),
{
    match rel_to_range(x, min, max) {
        Ordering::Less | Ordering::Greater => false,
        Ordering::Equal => true,
    }
}

/// Clamps `x` into the closed range `[min, max]`.
pub fn clamp(x: u32, min: u32, max: u32) -> (r: u32)
    ensures
        r as int == clamp_spec(x as int, min as int, max as int),
{
    match rel_to_range(x, min, max) {
        Ordering::Less => min,
        Ordering::Greater => max,
        Ordering::Equal => x,
    }
}

/// Clamps each component of `v` into the range given by the matching components of `min` and `max`.
pub fn clamp_components(v: UVec3, min: UVec3, max: UVec3) -> (r: UVec3)
    ensures
        r.x as int == clamp_spec(v.x as int, min.x as int, max.x as int),
        r.y as int == clamp_spec(v.y as int, min.y as int, max.y as int),
        r.z as int == clamp_spec(v.z as int, min.z as int, max.z as int),
{
    UVec3 { x: clamp(v.x, min.x, max.x), y: clamp(v.y, min.y, max.y), z: clamp(v.z, min.z, max.z) }
}

} // verus!
