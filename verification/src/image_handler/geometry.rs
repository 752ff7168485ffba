//! Integer pixel arithmetic shared by zooming, centering and panning.
//!
//! A zoom scale is held as a whole number of percent of the natural size, so
//! that a step of a tenth is exact.

use vstd::prelude::*;

verus! {

/// The largest content length, in pixels, that the offsets computed here
/// have room for.
pub const MAX_CONTENT: u64 = 0x3fff_ffff_ffff_ffff;

/// The largest distance of an offset from 0 that dragging starts from.
pub const MAX_OFFSET: i64 = 0x3fff_ffff_ffff_ffff;

/// Half of `v`, rounded to the nearest integer with a half rounded up:
/// `floor(v / 2 + 1/2)`.
pub open spec fn half_rounded(v: int) -> int {
    (v + 1) / 2
}

/// The length of `natural` pixels at `scale_percent` percent, rounded to the
/// nearest pixel with a half rounded up.
pub open spec fn scaled_dimension(natural: int, scale_percent: int) -> int {
    (natural * scale_percent + 50) / 100
}

/// The offset that puts the middle of `content` on the middle of `viewport`.
pub open spec fn centered_offset(viewport: int, content: int) -> int {
    half_rounded(viewport) - half_rounded(content)
}

/// The offset nearest to `shift` at which content that is `overflow` pixels
/// longer than the viewport still covers the viewport from edge to edge.
pub open spec fn clamped_offset(shift: int, overflow: int) -> int {
    if shift > 0 {
        0
    } else if shift < -overflow {
        -overflow
    } else {
        shift
    }
}

/// The offset of one axis after a drag that asks for `shift`: clamped where
/// the content is longer than the viewport, and `current` where it is not.
pub open spec fn dragged_offset(current: int, shift: int, content: int, viewport: int) -> int {
    if content > viewport {
        clamped_offset(shift, content - viewport)
    } else {
        current
    }
}

/// An offset at which content longer than the viewport leaves no gap at
/// either edge. Content that fits may lie anywhere.
pub open spec fn covers_viewport(offset: int, content: int, viewport: int) -> bool {
    content > viewport ==> viewport - content <= offset <= 0
}

/// A larger scale never gives a shorter length.
pub proof fn lemma_scaled_dimension_monotonic(natural: int, smaller: int, larger: int)
    requires
        0 <= natural,
        smaller <= larger,
    ensures
        scaled_dimension(natural, smaller) <= scaled_dimension(natural, larger),
{
    assert(natural * smaller <= natural * larger) by (nonlinear_arith)
        requires
            0 <= natural,
            smaller <= larger,
    ;
}

/// A scaled length is never negative, and is 0 at scale 0.
pub proof fn lemma_scaled_dimension_bounds(natural: int, scale_percent: int)
    requires
        0 <= natural,
        0 <= scale_percent,
    ensures
        0 <= scaled_dimension(natural, scale_percent),
        scaled_dimension(natural, 0) == 0,
{
    assert(0 <= natural * scale_percent) by (nonlinear_arith)
        requires
            0 <= natural,
            0 <= scale_percent,
    ;
    assert(natural * 0 == 0);
}

/// Computes [`scaled_dimension`].
pub fn scale_dimension(natural: u32, scale_percent: u32) -> (scaled: u64)
    ensures
        scaled == scaled_dimension(natural as int, scale_percent as int),
{
    assert(natural * scale_percent <= 0xffff_ffff * 0xffff_ffff) by (nonlinear_arith)
        requires
            natural <= 0xffff_ffff,
            scale_percent <= 0xffff_ffff,
    ;
    (natural as u64 * scale_percent as u64 + 50) / 100
}

/// Computes [`half_rounded`] of a length.
pub fn half(v: u64) -> (h: u64)
    ensures
        h == half_rounded(v as int),
{
    v / 2 + v % 2
}

/// Computes [`centered_offset`].
pub fn center(viewport: u32, content: u64) -> (offset: i64)
    requires
        content <= MAX_CONTENT,
    ensures
        offset == centered_offset(viewport as int, content as int),
{
    half(viewport as u64) as i64 - half(content) as i64
}

/// Computes [`dragged_offset`] for a drag that began at `base` with the
/// pointer at `anchor` and has the pointer at `pointer` now.
pub fn drag(
    current: i64,
    base: i64,
    anchor: i32,
    pointer: i32,
    content: u64,
    viewport: u32,
) -> (offset: i64)
    requires
        -MAX_OFFSET <= base <= MAX_OFFSET,
        content <= MAX_CONTENT,
    ensures
        offset == dragged_offset(
            current as int,
            base + (pointer - anchor),
            content as int,
            viewport as int,
        ),
{
    if content > viewport as u64 {
        let overflow: i64 = (content - viewport as u64) as i64;
        let shift: i64 = base + (pointer as i64 - anchor as i64);
        if shift > 0 {
            0
        } else if shift < -overflow {
            -overflow
        } else {
            shift
        }
    } else {
        current
    }
}

} // verus!
