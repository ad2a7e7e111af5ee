//! The geometry primitive: axis-aligned box overlap test and
//! minimum-translation-vector resolution.

use vstd::prelude::*;

use crate::fx::clip128;
use crate::fx::fx_of;
use crate::fx::spec_abs;
use crate::vec2::Vec2;

verus! {

/// Half-open overlap test: the boxes `[pos, pos + size)` intersect on both
/// axes.
pub open spec fn spec_overlapping(p1: Vec2, s1: Vec2, p2: Vec2, s2: Vec2) -> bool {
    &&& p1.x < p2.x + s2.x
    &&& p1.x + s1.x > p2.x
    &&& p1.y < p2.y + s2.y
    &&& p1.y + s1.y > p2.y
}

/// Signed offset that would push box 1 clear of box 2 along the x axis, with
/// the sign chosen by which box's centre is ahead (centres are compared via
/// doubled coordinates, which keeps the arithmetic in integers).
pub open spec fn spec_offset_x(p1: Vec2, s1: Vec2, p2: Vec2, s2: Vec2) -> int {
    if 2 * p1.x + s1.x > 2 * p2.x + s2.x {
        p2.x + s2.x - p1.x
    } else if 2 * p1.x + s1.x < 2 * p2.x + s2.x {
        p2.x - (p1.x + s1.x)
    } else {
        0
    }
}

/// The same along the y axis.
pub open spec fn spec_offset_y(p1: Vec2, s1: Vec2, p2: Vec2, s2: Vec2) -> int {
    if 2 * p1.y + s1.y > 2 * p2.y + s2.y {
        p2.y + s2.y - p1.y
    } else if 2 * p1.y + s1.y < 2 * p2.y + s2.y {
        p2.y - (p1.y + s1.y)
    } else {
        0
    }
}

/// Resolution vector for a pair of boxes: `None` when they do not overlap;
/// otherwise the per-axis separation offsets with one axis zeroed.  The axis
/// needing the smaller correction is kept; as a special tie-break, a zero
/// x-offset always forces resolution on y.
pub open spec fn spec_check_collision(p1: Vec2, s1: Vec2, p2: Vec2, s2: Vec2) -> Option<Vec2> {
    if spec_overlapping(p1, s1, p2, s2) {
        let ox = spec_offset_x(p1, s1, p2, s2);
        let oy = spec_offset_y(p1, s1, p2, s2);
        if ox == 0 || (spec_abs(ox) > spec_abs(oy) && oy != 0) {
            Option::Some(Vec2 { x: 0, y: fx_of(oy) })
        } else {
            Option::Some(Vec2 { x: fx_of(ox), y: 0 })
        }
    } else {
        Option::None
    }
}

/// Overlap test and minimum-translation-vector resolution for the boxes
/// `[pos1, pos1 + size1)` and `[pos2, pos2 + size2)`.
pub fn check_collision(pos1: &Vec2, size1: &Vec2, pos2: &Vec2, size2: &Vec2) -> (r: Option<
    Vec2,
>)
    ensures
        r == spec_check_collision(*pos1, *size1, *pos2, *size2),
{
    let p1x: i128 = pos1.x as i128;
    let p1y: i128 = pos1.y as i128;
    let s1x: i128 = size1.x as i128;
    let s1y: i128 = size1.y as i128;
    let p2x: i128 = pos2.x as i128;
    let p2y: i128 = pos2.y as i128;
    let s2x: i128 = size2.x as i128;
    let s2y: i128 = size2.y as i128;
    if p1x < p2x + s2x && p1x + s1x > p2x && p1y < p2y + s2y && p1y + s1y > p2y {
        let ox: i128 = if 2 * p1x + s1x > 2 * p2x + s2x {
            p2x + s2x - p1x
        } else if 2 * p1x + s1x < 2 * p2x + s2x {
            p2x - (p1x + s1x)
        } else {
            0
        };
        let oy: i128 = if 2 * p1y + s1y > 2 * p2y + s2y {
            p2y + s2y - p1y
        } else if 2 * p1y + s1y < 2 * p2y + s2y {
            p2y - (p1y + s1y)
        } else {
            0
        };
        let ax: i128 = if ox >= 0 {
            ox
        } else {
            -ox
        };
        let ay: i128 = if oy >= 0 {
            oy
        } else {
            -oy
        };
        if ox == 0 || (ax > ay && oy != 0) {
            Option::Some(Vec2 { x: 0, y: clip128(oy) })
        } else {
            Option::Some(Vec2 { x: clip128(ox), y: 0 })
        }
    } else {
        Option::None
    }
}

/// Coordinates small enough that no offset the primitive computes is ever
/// clipped: a quarter of the representable range.
pub open spec fn in_coord_range(v: Vec2) -> bool {
    &&& -0x2000_0000_0000_0000 <= v.x <= 0x2000_0000_0000_0000
    &&& -0x2000_0000_0000_0000 <= v.y <= 0x2000_0000_0000_0000
}

/// Law: for non-overlapping boxes the primitive returns no offset; for
/// overlapping boxes it returns an offset with at most one non-zero
/// component, and moving box 1 by that offset separates the boxes along the
/// resolved axis.  (The offset is zero on both axes only in the degenerate
/// case where the centres coincide on the kept axis.)
pub proof fn lemma_collision_primitive(p1: Vec2, s1: Vec2, p2: Vec2, s2: Vec2)
    requires
        in_coord_range(p1),
        in_coord_range(s1),
        in_coord_range(p2),
        in_coord_range(s2),
    ensures
        !spec_overlapping(p1, s1, p2, s2) ==> spec_check_collision(p1, s1, p2, s2) is None,
        spec_overlapping(p1, s1, p2, s2) ==> (spec_check_collision(p1, s1, p2, s2) matches Some(
            off,
        ) && {
            &&& off.x == 0 || off.y == 0
            &&& off.y != 0 ==> !(p1.y + off.y < p2.y + s2.y && p1.y + off.y + s1.y > p2.y)
            &&& off.x != 0 ==> !(p1.x + off.x < p2.x + s2.x && p1.x + off.x + s1.x > p2.x)
        }),
{
}

/// Law: a pair overlapping with zero x-offset (boxes flush on x, i.e. their
/// centres coincide on x) always resolves on the y axis, whatever the
/// magnitudes of the per-axis offsets.
pub proof fn lemma_tie_break_resolves_y(p1: Vec2, s1: Vec2, p2: Vec2, s2: Vec2)
    requires
        in_coord_range(p1),
        in_coord_range(s1),
        in_coord_range(p2),
        in_coord_range(s2),
        spec_overlapping(p1, s1, p2, s2),
        spec_offset_x(p1, s1, p2, s2) == 0,
    ensures
        spec_check_collision(p1, s1, p2, s2) matches Some(off) && off.x == 0 && off.y == fx_of(
            spec_offset_y(p1, s1, p2, s2),
        ),
{
}

} // verus!
