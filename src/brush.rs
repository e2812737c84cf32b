use crate::catalog::built_from;
use crate::catalog::get_particle;
use crate::dice::Dice;
use crate::particle::Material;
use crate::particle::Particle;
use crate::sandbox::Sandbox;
use vstd::prelude::*;

verus! {

/// The radius of the painting brush, in cells.
pub const BRUSH_RADIUS: i64 = 4;

/// `(a, b)` lies within the brush disc centred on `(cx, cy)`.
pub open spec fn within_brush(a: int, b: int, cx: int, cy: int) -> bool {
    &&& -BRUSH_RADIUS <= a - cx <= BRUSH_RADIUS
    &&& -BRUSH_RADIUS <= b - cy <= BRUSH_RADIUS
    &&& (a - cx) * (a - cx) + (b - cy) * (b - cy) <= BRUSH_RADIUS * BRUSH_RADIUS
}

/// What one stroke does to a cell of the brush disc: an empty cell is
/// painted when painting, an occupied one is cleared when erasing.
pub open spec fn stroke(before: Option<Particle>, after: Option<Particle>, material: Material, paint: bool, erase: bool) -> bool {
    if paint && before.is_none() {
        after.is_some() && built_from(material, after.unwrap())
    } else if erase && before.is_some() {
        after.is_none()
    } else {
        after == before
    }
}

/// What the brush may leave in a cell of its disc: the cell as it was (the
/// stroke stopped before reaching it), or the cell after the stroke.
pub open spec fn brushed(before: Option<Particle>, after: Option<Particle>, material: Material, paint: bool, erase: bool) -> bool {
    after == before || stroke(before, after, material, paint, erase)
}

/// The whole brush square around `(cx, cy)` lies in the grid.
pub open spec fn brush_inside(s: &Sandbox, cx: int, cy: int) -> bool {
    s.in_bounds(cx - BRUSH_RADIUS, cy - BRUSH_RADIUS) && s.in_bounds(cx + BRUSH_RADIUS, cy + BRUSH_RADIUS)
}

/// The brush offset `(i, j)` comes before `(dx, dy)` in the stroke order.
pub open spec fn stroked_before(i: int, j: int, dx: int, dy: int) -> bool {
    i < dx || (i == dx && j < dy)
}

/// A stroke of the brush at `(cx, cy)`: within the brush disc, empty cells
/// are painted with fresh particles of `material` when `paint` holds, and
/// occupied ones are cleared when `erase` holds. The disc is swept column by
/// column; positions below zero are skipped, and the stroke stops at the
/// first position past the far edges of the grid.
pub fn place_particles(
    sandbox: &mut Sandbox,
    cx: usize,
    cy: usize,
    material: Material,
    paint: bool,
    erase: bool,
    dice: &mut Dice,
)
    requires
        old(sandbox).wf(),
    ensures
        final(sandbox).wf(),
        final(sandbox).same_shape(old(sandbox)),
        forall|a: int, b: int|
            #![trigger final(sandbox).cell(a, b)]
            old(sandbox).in_bounds(a, b) ==> if within_brush(a, b, cx as int, cy as int) {
                brushed(old(sandbox).cell(a, b), final(sandbox).cell(a, b), material, paint, erase)
            } else {
                final(sandbox).cell(a, b) == old(sandbox).cell(a, b)
            },
        !paint && !erase ==> *final(sandbox) == *old(sandbox),
        brush_inside(old(sandbox), cx as int, cy as int) ==> forall|a: int, b: int|
            #![trigger final(sandbox).cell(a, b)]
            old(sandbox).in_bounds(a, b) && within_brush(a, b, cx as int, cy as int) ==> stroke(
                old(sandbox).cell(a, b),
                final(sandbox).cell(a, b),
                material,
                paint,
                erase,
            ),
{
    if sandbox.out_of_bounds_usize(cx, cy) {
        return;
    }
    let width = sandbox.width() as i64;
    let height = sandbox.height() as i64;
    let x0 = cx as i64;
    let y0 = cy as i64;
    let ghost start = *sandbox;
    let mut dx: i64 = -BRUSH_RADIUS;
    while dx <= BRUSH_RADIUS
        invariant
            sandbox.wf(),
            sandbox.same_shape(&start),
            start.wf(),
            start == *old(sandbox),
            start.in_bounds(cx as int, cy as int),
            width == start.w(),
            height == start.h(),
            x0 == cx,
            y0 == cy,
            -BRUSH_RADIUS <= dx <= BRUSH_RADIUS + 1,
            forall|a: int, b: int|
                #![trigger sandbox.cell(a, b)]
                start.in_bounds(a, b) ==> if within_brush(a, b, cx as int, cy as int) && a - cx < dx {
                    stroke(start.cell(a, b), sandbox.cell(a, b), material, paint, erase)
                } else {
                    sandbox.cell(a, b) == start.cell(a, b)
                },
            !paint && !erase ==> *sandbox == start,
        decreases BRUSH_RADIUS + 1 - dx,
    {
        let mut dy: i64 = -BRUSH_RADIUS;
        while dy <= BRUSH_RADIUS
            invariant
                sandbox.wf(),
                sandbox.same_shape(&start),
                start.wf(),
                start == *old(sandbox),
                start.in_bounds(cx as int, cy as int),
                width == start.w(),
                height == start.h(),
                x0 == cx,
                y0 == cy,
                -BRUSH_RADIUS <= dx <= BRUSH_RADIUS,
                -BRUSH_RADIUS <= dy <= BRUSH_RADIUS + 1,
                forall|a: int, b: int|
                    #![trigger sandbox.cell(a, b)]
                    start.in_bounds(a, b) ==> if within_brush(a, b, cx as int, cy as int)
                        && stroked_before(a - cx, b - cy, dx as int, dy as int) {
                        stroke(start.cell(a, b), sandbox.cell(a, b), material, paint, erase)
                    } else {
                        sandbox.cell(a, b) == start.cell(a, b)
                    },
                !paint && !erase ==> *sandbox == start,
            decreases BRUSH_RADIUS + 1 - dy,
        {
            let x = x0 + dx;
            let y = y0 + dy;
            if x >= 0 && y >= 0 {
                if x >= width || y >= height {
                    return;
                }
                proof {
                    assert(0 <= dx * dx <= 16 && 0 <= dy * dy <= 16) by (nonlinear_arith)
                        requires
                            -4 <= dx <= 4,
                            -4 <= dy <= 4,
                    ;
                }
                if dx * dx + dy * dy <= BRUSH_RADIUS * BRUSH_RADIUS {
                    let occupied = sandbox.at(x as usize, y as usize).is_some();
                    if paint && !occupied {
                        let p = get_particle(material, dice);
                        sandbox.set(x as usize, y as usize, Some(p));
                    } else if erase && occupied {
                        sandbox.set(x as usize, y as usize, None);
                    }
                }
            }
            dy = dy + 1;
        }
        dx = dx + 1;
    }
}

} // verus!
