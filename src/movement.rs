use crate::dice::Dice;
use crate::particle::abs;
use crate::particle::clamp_i32;
use crate::particle::damped;
use crate::particle::MovementType;
use crate::particle::Particle;
use crate::particle::Velocity;
use crate::particle::saturating_add_i32;
use crate::particle::saturating_sub_i32;
use crate::particle::sign;
use crate::sandbox::Sandbox;
use vstd::prelude::*;

verus! {

/// The outcome of probing one direction: where the particle may go, whether
/// that is a real displacement, and what blocked it.
#[derive(Clone, Copy, PartialEq, Eq, Debug)]
pub struct StepData {
    pub new_x: i32,
    pub new_y: i32,
    pub moved: bool,
    pub other_particle: Option<Particle>,
    pub other_x: i32,
    pub other_y: i32,
    pub swap: bool,
}

/// No displacement and no blocker.
pub open spec fn no_step() -> StepData {
    StepData {
        new_x: 0,
        new_y: 0,
        moved: false,
        other_particle: None,
        other_x: 0,
        other_y: 0,
        swap: false,
    }
}

fn stay() -> (r: StepData)
    ensures
        r == no_step(),
{
    StepData {
        new_x: 0,
        new_y: 0,
        moved: false,
        other_particle: None,
        other_x: 0,
        other_y: 0,
        swap: false,
    }
}

/// A particle after one tick of gravity: powders and liquids fall (vertical
/// velocity down by one), gases rise (up by one), and either has its lateral
/// velocity damped by one toward zero; solids and particles without gravity
/// are untouched. The vertical velocity stops at the bounds of `i32`.
pub open spec fn gravity(p: Particle) -> Particle {
    if !p.use_gravity {
        p
    } else {
        match p.movement_type {
            MovementType::Powder | MovementType::Liquid => Particle {
                velocity: Velocity {
                    x: damped(p.velocity.x) as i32,
                    y: clamp_i32(p.velocity.y - 1) as i32,
                },
                ..p
            },
            MovementType::Gas => Particle {
                velocity: Velocity {
                    x: damped(p.velocity.x) as i32,
                    y: clamp_i32(p.velocity.y + 1) as i32,
                },
                ..p
            },
            MovementType::Solid => p,
        }
    }
}

/// Gravity on one tick changes the vertical velocity by exactly one in the
/// direction of the movement kind, and never touches a solid.
pub proof fn lemma_gravity_sign(p: Particle)
    requires
        p.use_gravity,
    ensures
        (p.movement_type == MovementType::Powder || p.movement_type == MovementType::Liquid)
            && p.velocity.y > i32::MIN ==> gravity(p).velocity.y == p.velocity.y - 1,
        p.movement_type == MovementType::Gas && p.velocity.y < i32::MAX ==> gravity(p).velocity.y
            == p.velocity.y + 1,
        p.movement_type == MovementType::Solid ==> gravity(p).velocity == p.velocity,
{
}

/// Lateral damping brings `|x|` one step closer to zero, never past it and
/// never changing its sign.
pub proof fn lemma_lateral_damping(x: i32)
    ensures
        x > 0 ==> damped(x) == x - 1 && damped(x) >= 0,
        x < 0 ==> damped(x) == x + 1 && damped(x) <= 0,
        x == 0 ==> damped(x) == 0,
        abs(damped(x)) == if x == 0 { 0 } else { abs(x as int) - 1 },
{
}

/// Applies one tick of gravity and lateral friction to the particle at `(x, y)`.
pub fn apply_gravity(x: usize, y: usize, sandbox: &mut Sandbox)
    requires
        old(sandbox).wf(),
        old(sandbox).in_bounds(x as int, y as int),
        old(sandbox).cell(x as int, y as int).is_some(),
    ensures
        final(sandbox).wf(),
        final(sandbox).same_shape(old(sandbox)),
        final(sandbox).agrees_except(old(sandbox), x as int, y as int),
        final(sandbox).cell(x as int, y as int) == Some(
            gravity(old(sandbox).cell(x as int, y as int).unwrap()),
        ),
        final(sandbox).occupancy() == old(sandbox).occupancy(),
{
    let mut p = sandbox.at(x, y).unwrap();
    if !p.use_gravity {
        return;
    }
    match p.movement_type {
        MovementType::Powder | MovementType::Liquid => {
            p.velocity.y = saturating_sub_i32(p.velocity.y, 1);
        },
        MovementType::Gas => {
            p.velocity.y = saturating_add_i32(p.velocity.y, 1);
        },
        MovementType::Solid => {
            return;
        },
    }
    p.velocity.zero_out_x();
    sandbox.set(x, y, Some(p));
}

/// What a probe along a line promises: a reported move ends on a free cell
/// of the grid other than the start; a reported blocker is the particle in
/// its cell, and when no move was made the particle stays at the start.
pub open spec fn probe_ok(sandbox: &Sandbox, x: int, y: int, r: StepData) -> bool {
    &&& !r.swap
    &&& r.moved ==> {
        &&& sandbox.in_bounds(r.new_x as int, r.new_y as int)
        &&& sandbox.cell(r.new_x as int, r.new_y as int).is_none()
        &&& (r.new_x != x || r.new_y != y)
    }
    &&& r.other_particle.is_some() ==> {
        &&& sandbox.in_bounds(r.other_x as int, r.other_y as int)
        &&& sandbox.cell(r.other_x as int, r.other_y as int) == r.other_particle
        &&& (!r.moved ==> r.new_x == x && r.new_y == y)
    }
}

/// The lengths of a line with extent `(w, h)` along its longer and its
/// shorter axis; ties go to the vertical axis.
pub open spec fn line_axes(w: int, h: int) -> (int, int) {
    if abs(w) > abs(h) {
        (abs(w), abs(h))
    } else {
        (abs(h), abs(w))
    }
}

/// How far the line has advanced along its shorter axis after `i` steps
/// along its longer one (the error term starts at half a step).
pub open spec fn minor_steps(longest: int, shortest: int, i: int) -> int {
    (longest / 2 + i * shortest) / longest
}

/// The `i`-th cell of the integer line from `(x1, y1)` to `(x2, y2)`: `i`
/// cells along the longer axis and the rounded share of the shorter one.
pub open spec fn line_point(x1: int, y1: int, x2: int, y2: int, i: int) -> (int, int) {
    let w = x2 - x1;
    let h = y2 - y1;
    let (longest, shortest) = line_axes(w, h);
    if abs(w) > abs(h) {
        (x1 + i * sign(w), y1 + sign(h) * minor_steps(longest, shortest, i))
    } else {
        (x1 + sign(w) * minor_steps(longest, shortest, i), y1 + i * sign(h))
    }
}

/// A cell that stops a walk: outside the grid or occupied.
pub open spec fn blocked(sandbox: &Sandbox, p: (int, int)) -> bool {
    !sandbox.in_bounds(p.0, p.1) || sandbox.cell(p.0, p.1).is_some()
}

/// The walk along the line from step `i` on: it stops at the first blocked
/// cell, reporting the cell before it, whether that is past the first step,
/// and the blocker; past the last step it reports the line's end.
pub open spec fn walk(sandbox: &Sandbox, x1: int, y1: int, x2: int, y2: int, i: int) -> StepData
    decreases line_axes(x2 - x1, y2 - y1).0 + 1 - i,
{
    let last = line_axes(x2 - x1, y2 - y1).0;
    if i < 1 || i > last {
        let e = line_point(x1, y1, x2, y2, last);
        StepData {
            new_x: e.0 as i32,
            new_y: e.1 as i32,
            moved: true,
            other_particle: None,
            other_x: 0,
            other_y: 0,
            swap: false,
        }
    } else {
        let p = line_point(x1, y1, x2, y2, i);
        if blocked(sandbox, p) {
            let before = line_point(x1, y1, x2, y2, i - 1);
            StepData {
                new_x: before.0 as i32,
                new_y: before.1 as i32,
                moved: i > 1,
                other_particle: if sandbox.in_bounds(p.0, p.1) {
                    sandbox.cell(p.0, p.1)
                } else {
                    None
                },
                other_x: p.0 as i32,
                other_y: p.1 as i32,
                swap: false,
            }
        } else {
            walk(sandbox, x1, y1, x2, y2, i + 1)
        }
    }
}

/// The probe of the line from `(x1, y1)` to `(x2, y2)`; a line of no length
/// reports nothing.
pub open spec fn probe(sandbox: &Sandbox, x1: int, y1: int, x2: int, y2: int) -> StepData {
    if x1 == x2 && y1 == y2 {
        no_step()
    } else {
        walk(sandbox, x1, y1, x2, y2, 1)
    }
}

/// One step of the error term: the quotient grows by one exactly when the
/// remainder overflows.
proof fn lemma_minor_step(longest: int, shortest: int, i: int)
    requires
        1 <= longest,
        0 <= shortest <= longest,
        0 <= i,
    ensures
        ({
            let q = longest / 2 + i * shortest;
            let q2 = longest / 2 + (i + 1) * shortest;
            if q % longest + shortest >= longest {
                q2 / longest == q / longest + 1 && q2 % longest == q % longest + shortest - longest
            } else {
                q2 / longest == q / longest && q2 % longest == q % longest + shortest
            }
        }),
{
    let q = longest / 2 + i * shortest;
    let q2 = longest / 2 + (i + 1) * shortest;
    assert(q2 == q + shortest) by (nonlinear_arith)
        requires
            q == longest / 2 + i * shortest,
            q2 == longest / 2 + (i + 1) * shortest,
    ;
    vstd::arithmetic::div_mod::lemma_fundamental_div_mod(q, longest);
    assert(0 <= q % longest < longest) by {
        vstd::arithmetic::div_mod::lemma_mod_bound(q, longest);
    }
    assert((q / longest + 1) * longest == longest * (q / longest) + longest && (q / longest)
        * longest == longest * (q / longest)) by (nonlinear_arith);
    if q % longest + shortest >= longest {
        vstd::arithmetic::div_mod::lemma_fundamental_div_mod_converse(
            q2,
            longest,
            q / longest + 1,
            q % longest + shortest - longest,
        );
    } else {
        vstd::arithmetic::div_mod::lemma_fundamental_div_mod_converse(
            q2,
            longest,
            q / longest,
            q % longest + shortest,
        );
    }
}

/// From one cell of the line to the next: one step along the longer axis,
/// and one along the shorter axis exactly when the error term overflows.
proof fn lemma_line_next(x1: int, y1: int, x2: int, y2: int, i: int)
    requires
        x1 != x2 || y1 != y2,
        0 <= i,
    ensures
        ({
            let w = x2 - x1;
            let h = y2 - y1;
            let (longest, shortest) = line_axes(w, h);
            let q = longest / 2 + i * shortest;
            let wrap = q % longest + shortest >= longest;
            let p = line_point(x1, y1, x2, y2, i);
            let n = line_point(x1, y1, x2, y2, i + 1);
            &&& wrap ==> shortest > 0
            &&& if abs(w) > abs(h) {
                n.0 == p.0 + sign(w) && n.1 == p.1 + (if wrap { sign(h) } else { 0 })
            } else {
                n.1 == p.1 + sign(h) && n.0 == p.0 + (if wrap { sign(w) } else { 0 })
            }
        }),
{
    let w = x2 - x1;
    let h = y2 - y1;
    let (longest, shortest) = line_axes(w, h);
    lemma_minor_step(longest, shortest, i);
    let q = longest / 2 + i * shortest;
    assert(0 <= q % longest < longest) by {
        vstd::arithmetic::div_mod::lemma_mod_bound(q, longest);
    }
    let m = minor_steps(longest, shortest, i);
    assert((i + 1) * sign(w) == i * sign(w) + sign(w)) by (nonlinear_arith);
    assert((i + 1) * sign(h) == i * sign(h) + sign(h)) by (nonlinear_arith);
    assert(sign(h) * (m + 1) == sign(h) * m + sign(h)) by (nonlinear_arith);
    assert(sign(w) * (m + 1) == sign(w) * m + sign(w)) by (nonlinear_arith);
}

/// The line starts at its first endpoint.
proof fn lemma_line_start(x1: int, y1: int, x2: int, y2: int)
    requires
        x1 != x2 || y1 != y2,
    ensures
        line_point(x1, y1, x2, y2, 0) == (x1, y1),
{
    let (longest, shortest) = line_axes(x2 - x1, y2 - y1);
    assert(longest >= 1);
    vstd::arithmetic::div_mod::lemma_fundamental_div_mod_converse(longest / 2, longest, 0, longest / 2);
    assert(minor_steps(longest, shortest, 0) == 0);
}

/// Every probe keeps the promises of [`probe_ok`].
proof fn lemma_walk_ok(sandbox: &Sandbox, x1: int, y1: int, x2: int, y2: int, i: int)
    requires
        sandbox.wf(),
        sandbox.in_bounds(x1, y1),
        x1 != x2 || y1 != y2,
        1 <= i,
        forall|j: int| 1 <= j < i ==> !blocked(sandbox, #[trigger] line_point(x1, y1, x2, y2, j)),
    ensures
        probe_ok(sandbox, x1, y1, walk(sandbox, x1, y1, x2, y2, i)),
    decreases line_axes(x2 - x1, y2 - y1).0 + 1 - i,
{
    let w = x2 - x1;
    let h = y2 - y1;
    let last = line_axes(w, h).0;
    lemma_line_start(x1, y1, x2, y2);
    // each step after the start moves along the longer axis
    assert forall|j: int| 1 <= j implies #[trigger] line_point(x1, y1, x2, y2, j) != (x1, y1) by {
        if abs(w) > abs(h) {
            assert(j * sign(w) != 0) by (nonlinear_arith)
                requires
                    1 <= j,
                    sign(w) == 1 || sign(w) == -1,
            ;
        } else {
            assert(j * sign(h) != 0) by (nonlinear_arith)
                requires
                    1 <= j,
                    sign(h) == 1 || sign(h) == -1,
            ;
        }
    }
    if i > last {
        assert(!blocked(sandbox, line_point(x1, y1, x2, y2, last)));
    } else if !blocked(sandbox, line_point(x1, y1, x2, y2, i)) {
        lemma_walk_ok(sandbox, x1, y1, x2, y2, i + 1);
    } else if i > 1 {
        assert(!blocked(sandbox, line_point(x1, y1, x2, y2, i - 1)));
    }
}

/// Walks the integer line from `(x1, y1)` toward `(x2, y2)`, stepping one
/// cell along the longer axis each time (see [`walk`]).
fn line(x1: i64, y1: i64, x2: i64, y2: i64, sandbox: &Sandbox) -> (r: StepData)
    requires
        sandbox.wf(),
        sandbox.in_bounds(x1 as int, y1 as int),
        -0x4_0000_0000 <= x2 <= 0x4_0000_0000,
        -0x4_0000_0000 <= y2 <= 0x4_0000_0000,
    ensures
        r == probe(sandbox, x1 as int, y1 as int, x2 as int, y2 as int),
        probe_ok(sandbox, x1 as int, y1 as int, r),
{
    if x1 == x2 && y1 == y2 {
        return stay();
    }
    proof {
        lemma_walk_ok(sandbox, x1 as int, y1 as int, x2 as int, y2 as int, 1);
        lemma_line_start(x1 as int, y1 as int, x2 as int, y2 as int);
    }
    let w: i64 = x2 - x1;
    let h: i64 = y2 - y1;
    let dx1: i64 = if w < 0 { -1 } else { 1 };
    let dy1: i64 = if h < 0 { -1 } else { 1 };
    let mut dx2: i64 = 0;
    let mut dy2: i64 = 0;
    if w < 0 {
        dx2 = -1;
    } else if w > 0 {
        dx2 = 1;
    }
    let aw: i64 = if w < 0 { -w } else { w };
    let ah: i64 = if h < 0 { -h } else { h };
    let mut longest: i64 = aw;
    let mut shortest: i64 = ah;
    let x_major = longest > shortest;
    if !x_major {
        longest = ah;
        shortest = aw;
        if h < 0 {
            dy2 = -1;
        } else if h > 0 {
            dy2 = 1;
        }
        dx2 = 0;
    }
    let ghost (x1i, y1i, x2i, y2i) = (x1 as int, y1 as int, x2 as int, y2 as int);
    let width = sandbox.width() as i64;
    let height = sandbox.height() as i64;
    let mut cx: i64 = x1;
    let mut cy: i64 = y1;
    let mut past_x: i64 = x1;
    let mut past_y: i64 = y1;
    let mut numerator: i64 = longest / 2;
    let mut i: i64 = 0;
    assert(numerator == (longest as int / 2 + i * shortest) % (longest as int)) by {
        vstd::arithmetic::div_mod::lemma_fundamental_div_mod_converse(longest / 2, longest as int, 0, longest / 2);
    }
    while i <= longest
        invariant
            sandbox.wf(),
            sandbox.in_bounds(x1 as int, y1 as int),
            x1 != x2 || y1 != y2,
            x1i == x1 && y1i == y1 && x2i == x2 && y2i == y2,
            width == sandbox.w(),
            height == sandbox.h(),
            (longest as int, shortest as int) == line_axes(x2 - x1, y2 - y1),
            x_major == (abs(x2 - x1) > abs(y2 - y1)),
            1 <= longest <= 0x8_0000_0000,
            0 <= shortest <= longest,
            x_major ==> shortest < longest,
            0 <= numerator < longest,
            numerator == (longest as int / 2 + i * shortest) % (longest as int),
            0 <= i <= longest + 1,
            dx1 == 1 || dx1 == -1,
            dy1 == 1 || dy1 == -1,
            x_major ==> dx2 == dx1 && dy2 == 0 && dx1 == sign(x2 - x1),
            !x_major ==> dy2 == dy1 && dx2 == 0 && dy1 == sign(y2 - y1),
            shortest > 0 ==> (x_major ==> dy1 == sign(y2 - y1)) && (!x_major ==> dx1 == sign(x2 - x1)),
            (cx as int, cy as int) == line_point(x1i, y1i, x2i, y2i, i as int),
            x_major ==> cx == x1 + i * dx1,
            !x_major ==> cy == y1 + i * dy1,
            i >= 1 ==> (past_x as int, past_y as int) == line_point(x1i, y1i, x2i, y2i, i - 1),
            i == 0 ==> cx == x1 && cy == y1,
            i >= 1 ==> sandbox.in_bounds(past_x as int, past_y as int),
            i >= 1 ==> -1 <= cx - past_x <= 1 && -1 <= cy - past_y <= 1,
            i >= 1 ==> walk(sandbox, x1i, y1i, x2i, y2i, 1) == walk(sandbox, x1i, y1i, x2i, y2i, i as int),
            probe_ok(sandbox, x1i, y1i, walk(sandbox, x1i, y1i, x2i, y2i, 1)),
        decreases longest + 1 - i,
    {
        let out_of_bounds = cx < 0 || cx >= width || cy < 0 || cy >= height;
        let entity = if out_of_bounds {
            None
        } else {
            sandbox.at(cx as usize, cy as usize)
        };
        if i >= 1 && (entity.is_some() || out_of_bounds) {
            assert(blocked(sandbox, line_point(x1i, y1i, x2i, y2i, i as int)));
            return StepData {
                new_x: past_x as i32,
                new_y: past_y as i32,
                moved: i > 1,
                other_particle: entity,
                other_x: cx as i32,
                other_y: cy as i32,
                swap: false,
            };
        }
        proof {
            lemma_minor_step(longest as int, shortest as int, i as int);
            lemma_line_next(x1i, y1i, x2i, y2i, i as int);
            if i >= 1 {
                assert(!blocked(sandbox, line_point(x1i, y1i, x2i, y2i, i as int)));
                assert(walk(sandbox, x1i, y1i, x2i, y2i, i as int) == walk(sandbox, x1i, y1i, x2i, y2i, i + 1));
            }
        }
        let ghost wrap = !(numerator + shortest < longest);
        past_x = cx;
        past_y = cy;
        numerator = numerator + shortest;
        if !(numerator < longest) {
            numerator = numerator - longest;
            cx = cx + dx1;
            cy = cy + dy1;
        } else {
            cx = cx + dx2;
            cy = cy + dy2;
        }
        assert((cx as int, cy as int) == line_point(x1i, y1i, x2i, y2i, i + 1)) by {
            if wrap {
                assert(shortest > 0);
            }
        }
        i = i + 1;
    }
    StepData {
        new_x: past_x as i32,
        new_y: past_y as i32,
        moved: true,
        other_particle: None,
        other_x: 0,
        other_y: 0,
        swap: false,
    }
}

/// The offset probed for rotation `rotate_type` of velocity `(w, h)`:
/// `0` is the velocity itself, `1` and `2` its turns by 45 degrees clockwise
/// and counterclockwise, `3` and `4` its unit turns by 90 degrees; each is
/// pushed sideways and shortened by the spread rate.
pub open spec fn rotated(w: int, h: int, spread_rate: int, rotate_type: u32) -> (int, int) {
    if rotate_type == 0 {
        (w, h - spread_rate)
    } else if rotate_type == 1 {
        (w + h - spread_rate, h - w - spread_rate)
    } else if rotate_type == 2 {
        (w - h + spread_rate, w + h - spread_rate)
    } else if rotate_type == 3 {
        (sign(h) - spread_rate, -sign(w))
    } else {
        (-sign(h) + spread_rate, sign(w))
    }
}

fn signum(v: i64) -> (r: i64)
    ensures
        r == sign(v as int),
{
    if v < 0 {
        -1
    } else if v > 0 {
        1
    } else {
        0
    }
}

/// The probe from `(x, y)` along rotation `rotate_type` of the velocity `(w, h)`.
pub open spec fn probe_rotation(sandbox: &Sandbox, x: int, y: int, w: i32, h: i32, spread_rate: i32, rotate_type: u32) -> StepData {
    let v = rotated(w as int, h as int, spread_rate as int, rotate_type);
    probe(sandbox, x, y, x + v.0, y + v.1)
}

/// Probes the line from `(start_x, start_y)` along rotation `rotate_type` of
/// the velocity `(w, h)`.
fn line_with_rotation(
    start_x: i32,
    start_y: i32,
    w: i32,
    h: i32,
    spread_rate: i32,
    sandbox: &Sandbox,
    rotate_type: u32,
) -> (r: StepData)
    requires
        sandbox.wf(),
        sandbox.in_bounds(start_x as int, start_y as int),
        rotate_type <= 4,
    ensures
        r == probe_rotation(sandbox, start_x as int, start_y as int, w, h, spread_rate, rotate_type),
        probe_ok(sandbox, start_x as int, start_y as int, r),
{
    let w = w as i64;
    let h = h as i64;
    let s = spread_rate as i64;
    let (vx, vy): (i64, i64) = if rotate_type == 0 {
        (w, h - s)
    } else if rotate_type == 1 {
        (w + h - s, h - w - s)
    } else if rotate_type == 2 {
        (w - h + s, w + h - s)
    } else if rotate_type == 3 {
        (signum(h) - s, -signum(w))
    } else {
        (-signum(h) + s, signum(w))
    };
    assert((vx as int, vy as int) == rotated(w as int, h as int, s as int, rotate_type));
    line(start_x as i64, start_y as i64, start_x as i64 + vx, start_y as i64 + vy, sandbox)
}

/// What one probe decides: a move is taken as it is; otherwise a blocker
/// strictly lighter than the mover is swapped with; otherwise the next
/// direction is tried.
pub open spec fn resolve(step: StepData, density: u32) -> Option<StepData> {
    if step.moved {
        Some(step)
    } else if step.other_particle.is_some() && density > step.other_particle.unwrap().density.0 {
        Some(StepData { swap: true, ..step })
    } else {
        None
    }
}

/// Decides one probe for a mover of `density` (see [`resolve`]).
pub fn resolve_candidate(step: StepData, density: u32) -> (r: Option<StepData>)
    ensures
        r == resolve(step, density),
{
    if step.moved {
        return Some(step);
    }
    match step.other_particle {
        Some(other) => {
            if density > other.density.0 {
                Some(StepData { swap: true, ..step })
            } else {
                None
            }
        },
        None => None,
    }
}

/// Density swap law: a probe that made no move ends in a swap with its
/// blocker exactly when the mover is strictly denser than the blocker.
pub proof fn lemma_density_swap(step: StepData, blocker: Particle, density: u32)
    requires
        !step.moved,
        step.other_particle == Some(blocker),
    ensures
        (resolve(step, density).is_some() && resolve(step, density).unwrap().swap) <==> density
            > blocker.density.0,
        density <= blocker.density.0 ==> resolve(step, density).is_none(),
{
}

/// The rotation tried `k`-th: in order `0, 1, 2, 3, 4` with clockwise
/// priority, `0, 2, 1, 4, 3` without.
pub open spec fn rotation_order(clockwise: bool, k: int) -> u32 {
    if clockwise || k == 0 {
        k as u32
    } else if k == 1 {
        2
    } else if k == 2 {
        1
    } else if k == 3 {
        4
    } else {
        3
    }
}

/// How many directions a movement kind tries.
pub open spec fn search_breadth(m: MovementType) -> int {
    match m {
        MovementType::Powder => 3,
        MovementType::Liquid | MovementType::Gas => 5,
        MovementType::Solid => 0,
    }
}

/// The first direction, from the `k`-th on, whose probe for `p` at `(x, y)`
/// resolves (see [`resolve`]); nothing when none does.
pub open spec fn search_from(sandbox: &Sandbox, x: int, y: int, p: Particle, clockwise: bool, k: int) -> StepData
    decreases 5 - k,
{
    if k < 0 || k >= search_breadth(p.movement_type) {
        no_step()
    } else {
        let step = probe_rotation(
            sandbox,
            x,
            y,
            p.velocity.x,
            p.velocity.y,
            p.spread_rate,
            rotation_order(clockwise, k),
        );
        match resolve(step, p.density.0) {
            Some(r) => r,
            None => search_from(sandbox, x, y, p, clockwise, k + 1),
        }
    }
}

/// The search for the particle at `(x, y)` in the order `clockwise` picks.
pub open spec fn search(sandbox: &Sandbox, x: int, y: int, clockwise: bool) -> StepData {
    search_from(sandbox, x, y, sandbox.cell(x, y).unwrap(), clockwise, 0)
}

proof fn lemma_walk_no_swap(sandbox: &Sandbox, x1: int, y1: int, x2: int, y2: int, i: int)
    ensures
        !walk(sandbox, x1, y1, x2, y2, i).swap,
    decreases line_axes(x2 - x1, y2 - y1).0 + 1 - i,
{
    let last = line_axes(x2 - x1, y2 - y1).0;
    if 1 <= i <= last && !blocked(sandbox, line_point(x1, y1, x2, y2, i)) {
        lemma_walk_no_swap(sandbox, x1, y1, x2, y2, i + 1);
    }
}

proof fn lemma_search_from_swap(sandbox: &Sandbox, x: int, y: int, p: Particle, clockwise: bool, k: int)
    ensures
        search_from(sandbox, x, y, p, clockwise, k).swap ==> search_from(
            sandbox,
            x,
            y,
            p,
            clockwise,
            k,
        ).other_particle.is_some() && p.density.0 > search_from(
            sandbox,
            x,
            y,
            p,
            clockwise,
            k,
        ).other_particle.unwrap().density.0,
    decreases 5 - k,
{
    if 0 <= k < search_breadth(p.movement_type) {
        let v = rotated(p.velocity.x as int, p.velocity.y as int, p.spread_rate as int, rotation_order(clockwise, k));
        lemma_walk_no_swap(sandbox, x, y, x + v.0, y + v.1, 1);
        lemma_search_from_swap(sandbox, x, y, p, clockwise, k + 1);
    }
}

/// Density swap law for the search: when the first direction tried is
/// blocked at once by a strictly lighter particle the search swaps with it,
/// and every swap the search reports is with a strictly lighter particle.
pub proof fn lemma_search_density_swap(sandbox: &Sandbox, x: int, y: int, clockwise: bool)
    ensures
        ({
            let p = sandbox.cell(x, y).unwrap();
            let first = probe_rotation(
                sandbox,
                x,
                y,
                p.velocity.x,
                p.velocity.y,
                p.spread_rate,
                rotation_order(clockwise, 0),
            );
            search_breadth(p.movement_type) > 0 && !first.moved && first.other_particle.is_some()
                && p.density.0 > first.other_particle.unwrap().density.0 ==> search(
                sandbox,
                x,
                y,
                clockwise,
            ) == (StepData { swap: true, ..first })
        }),
        search(sandbox, x, y, clockwise).swap ==> search(sandbox, x, y, clockwise).other_particle.is_some()
            && sandbox.cell(x, y).unwrap().density.0 > search(
            sandbox,
            x,
            y,
            clockwise,
        ).other_particle.unwrap().density.0,
{
    lemma_search_from_swap(sandbox, x, y, sandbox.cell(x, y).unwrap(), clockwise, 0);
}

/// What the search for the particle at `(x, y)` may report: nothing, a move
/// to a free cell, or a swap with a strictly lighter neighbour while staying
/// at the start.
pub open spec fn search_ok(sandbox: &Sandbox, x: int, y: int, r: StepData) -> bool {
    let p = sandbox.cell(x, y).unwrap();
    &&& !(r.moved && r.swap)
    &&& r.moved ==> {
        &&& sandbox.in_bounds(r.new_x as int, r.new_y as int)
        &&& sandbox.cell(r.new_x as int, r.new_y as int).is_none()
        &&& (r.new_x != x || r.new_y != y)
    }
    &&& r.swap ==> {
        &&& r.other_particle.is_some()
        &&& sandbox.in_bounds(r.other_x as int, r.other_y as int)
        &&& sandbox.cell(r.other_x as int, r.other_y as int) == r.other_particle
        &&& p.density.0 > r.other_particle.unwrap().density.0
        &&& r.new_x == x && r.new_y == y
    }
    &&& p.movement_type == MovementType::Solid ==> !r.moved && !r.swap
}

/// Searches the directions the particle at `(x, y)` may take, in the order a
/// coin flip picks, and returns the first that moves or swaps.
fn get_step_data(x: i32, y: i32, sandbox: &Sandbox, dice: &mut Dice) -> (r: StepData)
    requires
        sandbox.wf(),
        sandbox.in_bounds(x as int, y as int),
        sandbox.cell(x as int, y as int).is_some(),
    ensures
        r == search(sandbox, x as int, y as int, true) || r == search(sandbox, x as int, y as int, false),
        search_ok(sandbox, x as int, y as int, r),
{
    let particle = sandbox.at(x as usize, y as usize).unwrap();
    let rotation_type_amount: u32 = match particle.movement_type {
        MovementType::Powder => 3,
        MovementType::Liquid | MovementType::Gas => 5,
        MovementType::Solid => {
            return stay();
        },
    };
    let clockwise_priority = dice.ratio(1, 2);
    let mut k: u32 = 0;
    while k < rotation_type_amount
        invariant
            sandbox.wf(),
            sandbox.in_bounds(x as int, y as int),
            sandbox.cell(x as int, y as int) == Some(particle),
            particle.movement_type != MovementType::Solid,
            rotation_type_amount == search_breadth(particle.movement_type),
            k <= rotation_type_amount,
            search(sandbox, x as int, y as int, clockwise_priority) == search_from(
                sandbox,
                x as int,
                y as int,
                particle,
                clockwise_priority,
                k as int,
            ),
        decreases rotation_type_amount - k,
    {
        let rotation: u32 = if clockwise_priority || k == 0 {
            k
        } else if k == 1 {
            2
        } else if k == 2 {
            1
        } else if k == 3 {
            4
        } else {
            3
        };
        let step = line_with_rotation(
            x,
            y,
            particle.velocity.x,
            particle.velocity.y,
            particle.spread_rate,
            sandbox,
            rotation,
        );
        assert(rotation == rotation_order(clockwise_priority, k as int));
        if let Some(chosen) = resolve_candidate(step, particle.density.0) {
            return chosen;
        }
        k = k + 1;
    }
    stay()
}

/// `p` marked as having acted this tick.
pub open spec fn acted(p: Particle) -> Particle {
    Particle { updated: true, ..p }
}

/// The particle at `(x, y)` came to rest: it stays, with velocity zero.
pub open spec fn rested(before: &Sandbox, after: &Sandbox, x: int, y: int, p: Particle) -> bool {
    &&& after.cell(x, y) == Some(Particle { velocity: Velocity { x: 0, y: 0 }, ..p })
    &&& after.agrees_except(before, x, y)
}

/// The particle `p` at `(x, y)` moved into the free cell `(a, b)` and is marked.
pub open spec fn moved_into(before: &Sandbox, after: &Sandbox, x: int, y: int, p: Particle, a: int, b: int) -> bool {
    &&& before.in_bounds(a, b)
    &&& (a != x || b != y)
    &&& before.cell(a, b).is_none()
    &&& after.cell(a, b) == Some(acted(p))
    &&& after.cell(x, y).is_none()
    &&& after.agrees_except2(before, x, y, a, b)
}

/// The particle `p` at `(x, y)` changed places with the strictly lighter
/// particle at `(a, b)`; both are marked as having acted.
pub open spec fn swapped_with(before: &Sandbox, after: &Sandbox, x: int, y: int, p: Particle, a: int, b: int) -> bool {
    &&& before.in_bounds(a, b)
    &&& (a != x || b != y)
    &&& before.cell(a, b).is_some()
    &&& p.density.0 > before.cell(a, b).unwrap().density.0
    &&& after.cell(a, b) == Some(acted(p))
    &&& after.cell(x, y) == Some(acted(before.cell(a, b).unwrap()))
    &&& after.agrees_except2(before, x, y, a, b)
}

/// `mid` is `before` with gravity applied to the particle at `(x, y)`.
pub open spec fn gravity_applied(before: &Sandbox, mid: &Sandbox, x: int, y: int) -> bool {
    &&& mid.wf()
    &&& mid.same_shape(before)
    &&& mid.agrees_except(before, x, y)
    &&& mid.cell(x, y) == Some(gravity(before.cell(x, y).unwrap()))
}

/// What applying the search result `r` for the particle at `(x, y)` of
/// `mid` leaves: a swap with the blocker, a move to the free cell, or rest.
pub open spec fn movement_outcome(mid: &Sandbox, after: &Sandbox, x: int, y: int, r: StepData) -> bool {
    let p = mid.cell(x, y).unwrap();
    if r.swap {
        &&& after.cell(r.other_x as int, r.other_y as int) == Some(acted(p))
        &&& after.cell(x, y) == Some(acted(mid.cell(r.other_x as int, r.other_y as int).unwrap()))
        &&& after.agrees_except2(mid, x, y, r.other_x as int, r.other_y as int)
    } else if r.moved {
        &&& after.cell(r.new_x as int, r.new_y as int) == Some(acted(p))
        &&& after.cell(x, y).is_none()
        &&& after.agrees_except2(mid, x, y, r.new_x as int, r.new_y as int)
    } else {
        rested(mid, after, x, y, p)
    }
}

/// `after` is `before` after one movement step of the particle at `(x, y)`:
/// gravity, then the search in one of the two orders, then its outcome.
pub open spec fn movement_step(before: &Sandbox, after: &Sandbox, x: int, y: int) -> bool {
    exists|mid: Sandbox| #[trigger]
        gravity_applied(before, &mid, x, y) && (movement_outcome(
            &mid,
            after,
            x,
            y,
            search(&mid, x, y, true),
        ) || movement_outcome(&mid, after, x, y, search(&mid, x, y, false)))
}

/// One tick of movement for the particle at `(x, y)`: gravity, then the
/// direction search, then the move, the swap, or coming to rest.
///
/// A swap only happens when the first cell probed is blocked, so the mover
/// never leaves its own cell before the swap: the two particles exchange
/// cells and both are marked, and no particle is ever duplicated or lost.
pub fn step_movement(x: usize, y: usize, sandbox: &mut Sandbox, dice: &mut Dice)
    requires
        old(sandbox).wf(),
        old(sandbox).in_bounds(x as int, y as int),
        old(sandbox).cell(x as int, y as int).is_some(),
    ensures
        final(sandbox).wf(),
        final(sandbox).same_shape(old(sandbox)),
        ({
            let p = gravity(old(sandbox).cell(x as int, y as int).unwrap());
            ||| rested(old(sandbox), final(sandbox), x as int, y as int, p)
            ||| exists|a: int, b: int| #[trigger]
                moved_into(old(sandbox), final(sandbox), x as int, y as int, p, a, b)
            ||| exists|a: int, b: int| #[trigger]
                swapped_with(old(sandbox), final(sandbox), x as int, y as int, p, a, b)
        }),
        movement_step(old(sandbox), final(sandbox), x as int, y as int),
        final(sandbox).occupancy() == old(sandbox).occupancy(),
        old(sandbox).cell(x as int, y as int).unwrap().movement_type == MovementType::Solid
            ==> rested(old(sandbox), final(sandbox), x as int, y as int, gravity(old(sandbox).cell(x as int, y as int).unwrap())),
{
    apply_gravity(x, y, sandbox);
    let ghost mid = *sandbox;
    assert(gravity_applied(old(sandbox), &mid, x as int, y as int));
    let p = sandbox.at(x, y).unwrap();
    let step_data = get_step_data(x as i32, y as i32, sandbox, dice);
    if step_data.swap {
        let other_x = step_data.other_x as usize;
        let other_y = step_data.other_y as usize;
        sandbox.swap(x, y, other_x, other_y);
        sandbox.mark_updated(other_x, other_y);
        sandbox.mark_updated(x, y);
        assert(swapped_with(old(sandbox), sandbox, x as int, y as int, p, other_x as int, other_y as int));
        return;
    }
    if !step_data.moved {
        sandbox.set(x, y, Some(Particle { velocity: Velocity::new(0, 0), ..p }));
        return;
    }
    let new_x = step_data.new_x as usize;
    let new_y = step_data.new_y as usize;
    sandbox.swap(x, y, new_x, new_y);
    sandbox.mark_updated(new_x, new_y);
    assert(moved_into(old(sandbox), sandbox, x as int, y as int, p, new_x as int, new_y as int));
}

} // verus!
