//! The depth address space.
//!
//! Scripts name the stacking position of a child by a *script depth*. A parent
//! stores its children under an *internal depth*, which is the script depth
//! moved up by [`DEPTH_BIAS`]. Depths below the bias belong to children that
//! were placed by the author of the content; the dynamic range starts at it.
//! All conversions wrap at the 32-bit boundary and never fault.

use vstd::prelude::*;

verus! {

/// Offset between a script depth and the internal depth it is stored under.
pub const DEPTH_BIAS: i32 = 16384;

/// Largest internal depth at which a child may be placed or swapped dynamically.
pub const MAX_DEPTH_BIASED: i32 = 2_130_706_428;

/// Largest script depth whose internal depth is still in the dynamic range.
pub const MAX_DEPTH: i32 = 2_130_690_044;

/// First biased depth that can no longer be removed.
pub const REMOVE_LIMIT: i32 = 2_130_706_416;

/// The signed 32-bit number that is congruent to `x` modulo 2^32.
pub open spec fn wrap32(x: int) -> int {
    let r = x % 0x1_0000_0000;
    if r >= 0x8000_0000 {
        r - 0x1_0000_0000
    } else {
        r
    }
}

/// Internal depth of a script depth under the bias `bias`.
pub open spec fn spec_biased(script_depth: int, bias: int) -> int {
    wrap32(script_depth + bias)
}

/// Internal depth of a script depth under the standard bias.
pub open spec fn spec_to_internal(script_depth: int) -> int {
    spec_biased(script_depth, DEPTH_BIAS as int)
}

/// Script depth of an internal depth.
pub open spec fn spec_to_script(internal_depth: int) -> int {
    wrap32(internal_depth - DEPTH_BIAS)
}

/// Whether a child may be attached, duplicated or swapped to this internal depth.
pub open spec fn spec_is_dynamic(internal_depth: int) -> bool {
    0 <= internal_depth <= MAX_DEPTH_BIASED
}

/// Whether a script may create a child at this script depth: from zero to
/// [`MAX_DEPTH`], so that the child hangs at the bias or above.
pub open spec fn spec_is_script_depth(script_depth: int) -> bool {
    0 <= script_depth <= MAX_DEPTH
}

/// Whether a child whose biased depth is `biased_depth` may be removed.
pub open spec fn spec_is_removable(biased_depth: int) -> bool {
    DEPTH_BIAS <= biased_depth < REMOVE_LIMIT
}

/// The next free script depth above a parent whose highest occupied internal
/// depth is `highest` (or that has no children): one above the highest child,
/// and never below zero.
pub open spec fn spec_next_highest(highest: Option<i32>) -> int {
    let top: int = match highest {
        Some(d) => d as int,
        None => 0,
    };
    let next = wrap32(top - (DEPTH_BIAS - 1));
    if next < 0 {
        0
    } else {
        next
    }
}

/// Adds `bias` to a script depth, wrapping at the 32-bit boundary.
pub fn biased(script_depth: i32, bias: i32) -> (internal: i32)
    ensures
        internal == spec_biased(script_depth as int, bias as int),
{
    script_depth.wrapping_add(bias)
}

/// Converts a script depth to the internal depth it is stored under.
pub fn to_internal(script_depth: i32) -> (internal: i32)
    ensures
        internal == spec_to_internal(script_depth as int),
{
    biased(script_depth, DEPTH_BIAS)
}

/// Converts an internal depth back to the script depth that names it.
pub fn to_script(internal_depth: i32) -> (script_depth: i32)
    ensures
        script_depth == spec_to_script(internal_depth as int),
{
    internal_depth.wrapping_sub(DEPTH_BIAS)
}

/// Tells whether an internal depth lies in the dynamic range.
pub fn is_dynamic(internal_depth: i32) -> (ok: bool)
    ensures
        ok == spec_is_dynamic(internal_depth as int),
{
    0 <= internal_depth && internal_depth <= MAX_DEPTH_BIASED
}

/// Tells whether a script may create a child at this script depth.
pub fn is_script_depth(script_depth: i32) -> (ok: bool)
    ensures
        ok == spec_is_script_depth(script_depth as int),
{
    0 <= script_depth && script_depth <= MAX_DEPTH
}

/// Tells whether a biased depth lies in the removable range.
pub fn is_removable(biased_depth: i32) -> (ok: bool)
    ensures
        ok == spec_is_removable(biased_depth as int),
{
    DEPTH_BIAS <= biased_depth && biased_depth < REMOVE_LIMIT
}

/// Computes the next free script depth above the highest occupied internal depth.
pub fn next_highest(highest: Option<i32>) -> (next: i32)
    ensures
        next == spec_next_highest(highest),
        next >= 0,
{
    let top: i32 = match highest {
        Some(d) => d,
        None => 0,
    };
    let next: i32 = top.wrapping_sub(DEPTH_BIAS - 1);
    if next < 0 {
        0
    } else {
        next
    }
}

/// Converting a script depth to an internal depth and back gives the script
/// depth again, for every 32-bit script depth; for a script depth between zero
/// and [`MAX_DEPTH`] the internal depth is the plain sum and lies in the
/// dynamic range.
pub proof fn lemma_depth_round_trip(script_depth: i32)
    ensures
        spec_to_script(spec_to_internal(script_depth as int)) == script_depth,
        0 <= script_depth <= MAX_DEPTH ==> {
            &&& spec_to_internal(script_depth as int) == script_depth + DEPTH_BIAS
            &&& spec_is_dynamic(spec_to_internal(script_depth as int))
        },
{
}

/// A script may create a child at a script depth exactly when the internal
/// depth of it lies between the bias and the largest internal depth; the
/// internal depth is then the plain sum.
pub proof fn lemma_script_depth_range(script_depth: i32)
    ensures
        spec_is_script_depth(script_depth as int) <==> DEPTH_BIAS <= spec_to_internal(
            script_depth as int,
        ) <= MAX_DEPTH_BIASED,
        spec_is_script_depth(script_depth as int) ==> spec_to_internal(script_depth as int)
            == script_depth + DEPTH_BIAS,
{
}

/// The internal depth of a script depth lies in the dynamic range exactly
/// when the script depth lies between minus the bias and [`MAX_DEPTH`].
pub proof fn lemma_dynamic_script_range(script_depth: i32)
    ensures
        spec_is_dynamic(spec_to_internal(script_depth as int)) <==> -DEPTH_BIAS <= script_depth
            <= MAX_DEPTH,
{
}

} // verus!
