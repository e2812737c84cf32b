use crate::catalog::built_from;
use crate::catalog::get_particle;
use crate::dice::Dice;
use crate::particle::abs;
use crate::particle::clamp_i32;
use crate::particle::saturating_add_i32;
use crate::particle::saturating_sub_i32;
use crate::particle::sign;
use crate::particle::Burnable;
use crate::particle::Material;
use crate::particle::Particle;
use crate::particle::ParticleReplacement;
use crate::particle::Temperature;
use crate::particle::TemperatureChanger;
use crate::particle::Velocity;
use crate::particle::BURNING_HEAT;
use crate::particle::CRITICAL_HEAT;
use crate::sandbox::Sandbox;
use crate::simulation::replaced;
use crate::simulation::resolve_replacement;
use vstd::prelude::*;

verus! {

/// `(a, b)` is one of the four cells that share an edge with `(x, y)`.
pub open spec fn adjacent(a: int, b: int, x: int, y: int) -> bool {
    (a == x - 1 && b == y) || (a == x + 1 && b == y) || (a == x && b == y - 1) || (a == x && b
        == y + 1)
}

/// A cell after receiving `delta` of heat: only a particle with a thermal
/// profile that permits the sign of the change is affected.
pub open spec fn heated(c: Option<Particle>, delta: i32) -> Option<Particle> {
    match c {
        Some(q) => match q.temperature {
            Some(t) => if (delta > 0 && !t.heatable) || (delta < 0 && !t.coolable) {
                c
            } else {
                Some(
                    Particle {
                        temperature: Some(
                            Temperature { current: clamp_i32(t.current + delta) as i32, ..t },
                        ),
                        ..q
                    },
                )
            },
            None => c,
        },
        None => c,
    }
}

/// `after` is `before` once the particle at `(x, y)` has radiated its heat
/// (see [`heated`]).
pub open spec fn diffused(before: &Sandbox, after: &Sandbox, x: int, y: int) -> bool {
    &&& after.wf()
    &&& after.same_shape(before)
    &&& forall|a: int, b: int|
        #![trigger after.cell(a, b)]
        before.in_bounds(a, b) ==> after.cell(a, b) == match before.cell(x, y).unwrap().temperature_changer {
            Some(changer) => if adjacent(a, b, x, y) {
                heated(before.cell(a, b), changer.0)
            } else {
                before.cell(a, b)
            },
            None => before.cell(a, b),
        }
}

fn heat_cell(a: usize, b: usize, delta: i32, sandbox: &mut Sandbox)
    requires
        old(sandbox).wf(),
        old(sandbox).in_bounds(a as int, b as int),
    ensures
        final(sandbox).wf(),
        final(sandbox).same_shape(old(sandbox)),
        final(sandbox).agrees_except(old(sandbox), a as int, b as int),
        final(sandbox).cell(a as int, b as int) == heated(old(sandbox).cell(a as int, b as int), delta),
{
    if let Some(q) = sandbox.at(a, b) {
        if let Some(t) = q.temperature {
            if (delta > 0 && !t.heatable) || (delta < 0 && !t.coolable) {
                return;
            }
            let current = saturating_add_i32(t.current, delta);
            sandbox.set(a, b, Some(Particle { temperature: Some(Temperature { current, ..t }), ..q }));
        }
    }
}

/// Radiates the heat of the particle at `(x, y)`, if it has a temperature
/// changer, into each of its four neighbours (see [`heated`]).
pub fn apply_temperature_to_neighbors(x: usize, y: usize, sandbox: &mut Sandbox)
    requires
        old(sandbox).wf(),
        old(sandbox).in_bounds(x as int, y as int),
        old(sandbox).cell(x as int, y as int).is_some(),
    ensures
        diffused(old(sandbox), final(sandbox), x as int, y as int),
{
    let delta = match sandbox.at(x, y).unwrap().temperature_changer {
        Some(changer) => changer.0,
        None => {
            return;
        },
    };
    if x > 0 {
        heat_cell(x - 1, y, delta, sandbox);
    }
    if x + 1 < sandbox.width() {
        heat_cell(x + 1, y, delta, sandbox);
    }
    if y > 0 {
        heat_cell(x, y - 1, delta, sandbox);
    }
    if y + 1 < sandbox.height() {
        heat_cell(x, y + 1, delta, sandbox);
    }
}

/// One step of ignition and extinction. A burnable particle that is not
/// burning ignites when its temperature exceeds the burn temperature: it
/// radiates heat, has at least its burn ticks of health and takes its burning
/// colour. A burning one whose temperature has fallen below the burn
/// temperature goes out: it stops radiating, takes its cooled colour and its
/// temperature returns to its starting value. At exactly the burn
/// temperature nothing changes.
pub open spec fn burn_transition(p: Particle) -> Particle {
    match (p.burnable, p.temperature) {
        (Some(b), Some(t)) => if !b.burning && t.current > b.burn_temperature {
            Particle {
                burnable: Some(Burnable { burning: true, ..b }),
                temperature_changer: Some(TemperatureChanger(BURNING_HEAT)),
                health: if p.health < b.burn_ticks {
                    b.burn_ticks
                } else {
                    p.health
                },
                color: b.burn_color,
                ..p
            }
        } else if b.burning && t.current < b.burn_temperature {
            Particle {
                burnable: Some(Burnable { burning: false, ..b }),
                temperature_changer: None,
                color: b.cooled_color,
                temperature: Some(Temperature { current: t.start_temperature, ..t }),
                ..p
            }
        } else {
            p
        },
        _ => p,
    }
}

/// No flicker at the threshold: a burnable particle whose temperature equals
/// its burn temperature neither ignites nor goes out.
pub proof fn lemma_no_flicker(p: Particle)
    requires
        p.burnable.is_some(),
        p.temperature.is_some(),
        p.temperature.unwrap().current == p.burnable.unwrap().burn_temperature,
    ensures
        burn_transition(p) == p,
{
}

/// `after` is `before` once the particle at `(x, y)` has taken one step of
/// ignition or extinction.
pub open spec fn burned(before: &Sandbox, after: &Sandbox, x: int, y: int) -> bool {
    &&& after.wf()
    &&& after.same_shape(before)
    &&& after.agrees_except(before, x, y)
    &&& after.cell(x, y) == Some(burn_transition(before.cell(x, y).unwrap()))
}

/// Applies [`burn_transition`] to the particle at `(x, y)`.
pub fn step_burning(x: usize, y: usize, sandbox: &mut Sandbox)
    requires
        old(sandbox).wf(),
        old(sandbox).in_bounds(x as int, y as int),
        old(sandbox).cell(x as int, y as int).is_some(),
    ensures
        burned(old(sandbox), final(sandbox), x as int, y as int),
{
    let p = sandbox.at(x, y).unwrap();
    if let (Some(b), Some(t)) = (p.burnable, p.temperature) {
        if !b.burning && t.current > b.burn_temperature {
            let health = if p.health < b.burn_ticks {
                b.burn_ticks
            } else {
                p.health
            };
            sandbox.set(
                x,
                y,
                Some(
                    Particle {
                        burnable: Some(Burnable { burning: true, ..b }),
                        temperature_changer: Some(TemperatureChanger(BURNING_HEAT)),
                        health,
                        color: b.burn_color,
                        ..p
                    },
                ),
            );
        } else if b.burning && t.current < b.burn_temperature {
            sandbox.set(
                x,
                y,
                Some(
                    Particle {
                        burnable: Some(Burnable { burning: false, ..b }),
                        temperature_changer: None,
                        color: b.cooled_color,
                        temperature: Some(Temperature { current: t.start_temperature, ..t }),
                        ..p
                    },
                ),
            );
        }
    }
}

/// The largest `j` from `k` down to zero with `j * j * (d * d + o * o) <= 100 * d * d`.
pub open spec fn impulse_from(k: int, d: int, o: int) -> int
    decreases k,
{
    if k <= 0 {
        0
    } else if k * k * (d * d + o * o) <= 100 * d * d {
        k
    } else {
        impulse_from(k - 1, d, o)
    }
}

/// The size of the blast impulse along the axis of `d`, for a cell at offset
/// `(d, o)` from the centre: `10 * |d| / sqrt(d * d + o * o)` rounded toward zero.
pub open spec fn impulse_magnitude(d: int, o: int) -> int {
    impulse_from(10, d, o)
}

/// The velocity given to a particle at offset `(dx, dy)` from a blast: ten
/// units along the unit vector from the centre, each component rounded
/// toward zero.
pub open spec fn impulse(dx: int, dy: int) -> Velocity {
    Velocity {
        x: (sign(dx) * impulse_magnitude(dx, dy)) as i32,
        y: (sign(dy) * impulse_magnitude(dy, dx)) as i32,
    }
}

proof fn lemma_impulse_bounded(k: int, d: int, o: int)
    requires
        k >= 0,
    ensures
        0 <= impulse_from(k, d, o) <= k,
    decreases k,
{
    if k > 0 {
        lemma_impulse_bounded(k - 1, d, o);
    }
}

proof fn lemma_impulse_at_least(k: int, j: int, d: int, o: int)
    requires
        1 <= j <= k,
        j * j * (d * d + o * o) <= 100 * d * d,
    ensures
        impulse_from(k, d, o) >= j,
    decreases k,
{
    if !(k * k * (d * d + o * o) <= 100 * d * d) {
        lemma_impulse_at_least(k - 1, j, d, o);
    }
}

/// The component of the impulse along the major axis is at least seven.
proof fn lemma_major_axis(d: int, o: int)
    requires
        abs(o) <= abs(d),
    ensures
        impulse_magnitude(d, o) >= 7,
{
    let ad = abs(d);
    let ao = abs(o);
    assert(ao * ao <= ad * ad) by (nonlinear_arith)
        requires
            0 <= ao <= ad,
    ;
    assert(d * d == ad * ad && o * o == ao * ao) by (nonlinear_arith)
        requires
            ad == d || ad == -d,
            ao == o || ao == -o,
    ;
    assert(7 * 7 * (d * d + o * o) <= 100 * d * d) by (nonlinear_arith)
        requires
            o * o <= d * d,
    ;
    lemma_impulse_at_least(10, 7, d, o);
}

/// The blast impulse on any cell other than the centre is nonzero and points
/// outward: each component has the sign of the offset, and along the major
/// axis it is at least seven.
pub proof fn lemma_impulse_outward(dx: int, dy: int)
    requires
        dx != 0 || dy != 0,
    ensures
        impulse(dx, dy).x * dx >= 0,
        impulse(dx, dy).y * dy >= 0,
        impulse(dx, dy).x * dx + impulse(dx, dy).y * dy > 0,
        impulse(dx, dy).x != 0 || impulse(dx, dy).y != 0,
{
    lemma_impulse_bounded(10, dx, dy);
    lemma_impulse_bounded(10, dy, dx);
    let mx = impulse_magnitude(dx, dy);
    let my = impulse_magnitude(dy, dx);
    let ix = sign(dx) * mx;
    let iy = sign(dy) * my;
    assert(impulse(dx, dy).x == ix && impulse(dx, dy).y == iy);
    assert(ix * dx == mx * abs(dx)) by (nonlinear_arith)
        requires
            ix == sign(dx) * mx,
            sign(dx) == (if dx < 0 { -1int } else if dx > 0 { 1int } else { 0int }),
            abs(dx) == (if dx < 0 { -dx } else { dx }),
    ;
    assert(iy * dy == my * abs(dy)) by (nonlinear_arith)
        requires
            iy == sign(dy) * my,
            sign(dy) == (if dy < 0 { -1int } else if dy > 0 { 1int } else { 0int }),
            abs(dy) == (if dy < 0 { -dy } else { dy }),
    ;
    assert(mx * abs(dx) >= 0 && my * abs(dy) >= 0) by (nonlinear_arith)
        requires
            mx >= 0,
            my >= 0,
            abs(dx) >= 0,
            abs(dy) >= 0,
    ;
    if abs(dy) <= abs(dx) {
        lemma_major_axis(dx, dy);
        assert(mx * abs(dx) > 0) by (nonlinear_arith)
            requires
                mx >= 7,
                abs(dx) >= 1,
        ;
    } else {
        lemma_major_axis(dy, dx);
        assert(my * abs(dy) > 0) by (nonlinear_arith)
            requires
                my >= 7,
                abs(dy) >= 1,
        ;
    }
}

/// The impulse component along `d` for a cell at offset `(d, o)`.
fn impulse_component(d: i64, o: i64) -> (r: i32)
    requires
        -0x1_0000_0000 <= d <= 0x1_0000_0000,
        -0x1_0000_0000 <= o <= 0x1_0000_0000,
    ensures
        r == sign(d as int) * impulse_magnitude(d as int, o as int),
{
    let di = d as i128;
    let oi = o as i128;
    assert(0 <= di * di <= 0x1_0000_0000_0000_0000 && 0 <= oi * oi <= 0x1_0000_0000_0000_0000) by (nonlinear_arith)
        requires
            -0x1_0000_0000 <= di <= 0x1_0000_0000,
            -0x1_0000_0000 <= oi <= 0x1_0000_0000,
    ;
    let d2: i128 = di * di;
    let n: i128 = d2 + oi * oi;
    let mut k: i128 = 10;
    loop
        invariant
            0 <= k <= 10,
            d2 == d * d,
            n == d * d + o * o,
            0 <= d2 <= 0x1_0000_0000_0000_0000,
            0 <= n <= 0x2_0000_0000_0000_0000,
            impulse_from(k as int, d as int, o as int) == impulse_magnitude(d as int, o as int),
        ensures
            0 <= k <= 10,
            k == impulse_magnitude(d as int, o as int),
        decreases k,
    {
        if k == 0 {
            assert(impulse_from(k as int, d as int, o as int) == k);
            break;
        }
        assert(0 <= k * k <= 100) by (nonlinear_arith)
            requires
                0 <= k <= 10,
        ;
        let kk = k * k;
        assert(0 <= kk * n <= 100 * n) by (nonlinear_arith)
            requires
                kk == k * k,
                0 <= k <= 10,
                0 <= n,
        ;
        if kk * n <= 100 * d2 {
            assert(k * k * (d * d + o * o) <= 100 * d * d) by (nonlinear_arith)
                requires
                    kk == k * k,
                    n == d * d + o * o,
                    d2 == d * d,
                    kk * n <= 100 * d2,
            ;
            assert(impulse_from(k as int, d as int, o as int) == k);
            break;
        }
        assert(!(k * k * (d * d + o * o) <= 100 * d * d)) by (nonlinear_arith)
            requires
                kk == k * k,
                n == d * d + o * o,
                d2 == d * d,
                !(kk * n <= 100 * d2),
        ;
        k = k - 1;
    }
    proof {
        lemma_impulse_bounded(10, d as int, o as int);
    }
    let m = k as i32;
    if d < 0 {
        -m
    } else if d > 0 {
        m
    } else {
        0
    }
}

/// What a blast of radius `r` does to a cell at offset `(dx, dy)` from its
/// centre: within `r` on both axes the cell becomes a fresh spark, empty or
/// not; within `2 * r` an occupied cell keeps its particle but takes the
/// outward impulse as its velocity; farther away nothing changes.
pub open spec fn blast_cell_ok(before: Option<Particle>, after: Option<Particle>, dx: int, dy: int, r: int) -> bool {
    if -r <= dx <= r && -r <= dy <= r {
        after.is_some() && built_from(Material::Spark, after.unwrap())
    } else if -2 * r <= dx <= 2 * r && -2 * r <= dy <= 2 * r && before.is_some() {
        after == Some(Particle { velocity: impulse(dx, dy), ..before.unwrap() })
    } else {
        after == before
    }
}

/// Detonates a blast of radius `radius` centred on `(cx, cy)` (see [`blast_cell_ok`]).
pub fn explode(cx: usize, cy: usize, radius: i32, sandbox: &mut Sandbox, dice: &mut Dice)
    requires
        old(sandbox).wf(),
        old(sandbox).in_bounds(cx as int, cy as int),
        radius > 0,
    ensures
        final(sandbox).wf(),
        final(sandbox).same_shape(old(sandbox)),
        forall|a: int, b: int|
            #![trigger final(sandbox).cell(a, b)]
            old(sandbox).in_bounds(a, b) ==> blast_cell_ok(
                old(sandbox).cell(a, b),
                final(sandbox).cell(a, b),
                a - cx,
                b - cy,
                radius as int,
            ),
{
    let r = radius as i64;
    let x0 = cx as i64;
    let y0 = cy as i64;
    let lo_x: i64 = if x0 - 2 * r < 0 { 0 } else { x0 - 2 * r };
    let hi_x: i64 = if x0 + 2 * r > sandbox.width() as i64 - 1 { sandbox.width() as i64 - 1 } else { x0 + 2 * r };
    let lo_y: i64 = if y0 - 2 * r < 0 { 0 } else { y0 - 2 * r };
    let hi_y: i64 = if y0 + 2 * r > sandbox.height() as i64 - 1 { sandbox.height() as i64 - 1 } else { y0 + 2 * r };
    let ghost start = *sandbox;
    let mut a: i64 = lo_x;
    while a <= hi_x
        invariant
            sandbox.wf(),
            sandbox.same_shape(&start),
            start.wf(),
            start.in_bounds(cx as int, cy as int),
            x0 == cx,
            y0 == cy,
            r == radius,
            0 < r <= i32::MAX,
            lo_x == if x0 - 2 * r < 0 { 0 } else { x0 - 2 * r },
            hi_x == if x0 + 2 * r > start.w() - 1 { start.w() - 1 } else { x0 + 2 * r },
            lo_y == if y0 - 2 * r < 0 { 0 } else { y0 - 2 * r },
            hi_y == if y0 + 2 * r > start.h() - 1 { start.h() - 1 } else { y0 + 2 * r },
            lo_x <= a <= hi_x + 1,
            forall|p: int, q: int|
                #![trigger sandbox.cell(p, q)]
                start.in_bounds(p, q) ==> if lo_x <= p < a && lo_y <= q <= hi_y {
                    blast_cell_ok(start.cell(p, q), sandbox.cell(p, q), p - cx, q - cy, r as int)
                } else {
                    sandbox.cell(p, q) == start.cell(p, q)
                },
        decreases hi_x + 1 - a,
    {
        let mut b: i64 = lo_y;
        while b <= hi_y
            invariant
                sandbox.wf(),
                sandbox.same_shape(&start),
                start.wf(),
                x0 == cx,
                y0 == cy,
                r == radius,
                0 < r <= i32::MAX,
                lo_x == if x0 - 2 * r < 0 { 0 } else { x0 - 2 * r },
                hi_x == if x0 + 2 * r > start.w() - 1 { start.w() - 1 } else { x0 + 2 * r },
                lo_y == if y0 - 2 * r < 0 { 0 } else { y0 - 2 * r },
                hi_y == if y0 + 2 * r > start.h() - 1 { start.h() - 1 } else { y0 + 2 * r },
                lo_x <= a <= hi_x,
                lo_y <= b <= hi_y + 1,
                forall|p: int, q: int|
                    #![trigger sandbox.cell(p, q)]
                    start.in_bounds(p, q) ==> if (lo_x <= p < a && lo_y <= q <= hi_y) || (p == a
                        && lo_y <= q < b) {
                        blast_cell_ok(start.cell(p, q), sandbox.cell(p, q), p - cx, q - cy, r as int)
                    } else {
                        sandbox.cell(p, q) == start.cell(p, q)
                    },
            decreases hi_y + 1 - b,
        {
            let dx = a - x0;
            let dy = b - y0;
            if -r <= dx && dx <= r && -r <= dy && dy <= r {
                let spark = get_particle(Material::Spark, dice);
                sandbox.set(a as usize, b as usize, Some(spark));
            } else {
                match sandbox.at(a as usize, b as usize) {
                    Some(q) => {
                        let vx = impulse_component(dx, dy);
                        let vy = impulse_component(dy, dx);
                        sandbox.set(a as usize, b as usize, Some(Particle { velocity: Velocity::new(vx, vy), ..q }));
                    },
                    None => {},
                }
            }
            b = b + 1;
        }
        a = a + 1;
    }
}

/// The particle has a thermal profile that has crossed its critical threshold.
pub open spec fn critical(p: Particle) -> bool {
    p.temperature.is_some() && p.temperature.unwrap().is_critical()
}

fn is_critical(p: Particle) -> (r: bool)
    ensures
        r == critical(p),
{
    match p.temperature {
        Some(t) => if t.critical_on_cool {
            t.current <= 0
        } else {
            t.current >= CRITICAL_HEAT
        },
        None => false,
    }
}

/// `after` is `before` once the critical state of the particle at `(x, y)`
/// has been resolved (see [`step_self`]); `resolved` tells whether it
/// exploded or expired.
pub open spec fn critical_outcome(before: &Sandbox, after: &Sandbox, x: int, y: int, resolved: bool) -> bool {
    let p = before.cell(x, y).unwrap();
    let t = p.temperature.unwrap();
    let health = clamp_i32(p.health - 1);
    &&& after.wf()
    &&& after.same_shape(before)
    &&& if !critical(p) {
        &&& !resolved
        &&& *after == *before
    } else if t.explosion_radius > 0 {
        &&& resolved
        &&& forall|a: int, b: int|
            #![trigger after.cell(a, b)]
            before.in_bounds(a, b) ==> blast_cell_ok(
                before.cell(a, b),
                after.cell(a, b),
                a - x,
                b - y,
                t.explosion_radius as int,
            )
    } else if health <= 0 {
        &&& resolved
        &&& after.agrees_except(before, x, y)
        &&& replaced(t.replacement_on_critical, after.cell(x, y))
    } else {
        &&& !resolved
        &&& after.agrees_except(before, x, y)
        &&& after.cell(x, y) == Some(Particle { health: health as i32, ..p })
    }
}

/// Critical-state resolution for the particle at `(x, y)`. A critical
/// particle with an explosion radius detonates; otherwise it loses one
/// health, and at zero health its replacement is resolved. Returns whether
/// the particle exploded or was resolved.
fn step_self(x: usize, y: usize, sandbox: &mut Sandbox, dice: &mut Dice) -> (r: bool)
    requires
        old(sandbox).wf(),
        old(sandbox).in_bounds(x as int, y as int),
        old(sandbox).cell(x as int, y as int).is_some(),
    ensures
        critical_outcome(old(sandbox), final(sandbox), x as int, y as int, r),
{
    let p = sandbox.at(x, y).unwrap();
    let t = match p.temperature {
        Some(t) => t,
        None => {
            return false;
        },
    };
    if !is_critical(p) {
        return false;
    }
    if t.explosion_radius > 0 {
        explode(x, y, t.explosion_radius, sandbox, dice);
        return true;
    }
    let health = saturating_sub_i32(p.health, 1);
    if health <= 0 {
        resolve_replacement(x, y, t.replacement_on_critical, sandbox, dice);
        return true;
    }
    sandbox.set(x, y, Some(Particle { health, ..p }));
    false
}

/// What a burning particle `b` may leave in an empty neighbouring cell:
/// nothing, a fresh particle of its emission material, or smoke when it
/// emits smoke; one with both an emission material and smoke always fills it.
pub open spec fn emitted(b: Burnable, c: Option<Particle>) -> bool {
    &&& c.is_none() ==> !(b.emission.is_some() && b.emit_smoke)
    &&& emitted_kind(b, c)
}

/// The cell is empty or holds a fresh particle that `b` may emit.
pub open spec fn emitted_kind(b: Burnable, c: Option<Particle>) -> bool {
    ||| c.is_none()
    ||| b.emission.is_some() && built_from(b.emission.unwrap(), c.unwrap())
    ||| b.emit_smoke && built_from(Material::Smoke, c.unwrap())
}

fn emit_into(a: usize, b: usize, burnable: Burnable, sandbox: &mut Sandbox, dice: &mut Dice)
    requires
        old(sandbox).wf(),
        old(sandbox).in_bounds(a as int, b as int),
        old(sandbox).cell(a as int, b as int).is_none(),
        burnable.emit_smoke || burnable.emission.is_some(),
    ensures
        final(sandbox).wf(),
        final(sandbox).same_shape(old(sandbox)),
        final(sandbox).agrees_except(old(sandbox), a as int, b as int),
        emitted(burnable, final(sandbox).cell(a as int, b as int)),
{
    let roll = dice.ratio(2, 3);
    let choice = match burnable.emission {
        Some(material) => if roll {
            Some(material)
        } else if burnable.emit_smoke {
            Some(Material::Smoke)
        } else {
            None
        },
        None => if roll {
            Some(Material::Smoke)
        } else {
            None
        },
    };
    if let Some(material) = choice {
        let p = get_particle(material, dice);
        sandbox.set(a, b, Some(p));
    }
}

/// `after` is `before` once the particle at `(x, y)`, if burning, has
/// emitted into its empty neighbours.
pub open spec fn emissions(before: &Sandbox, after: &Sandbox, x: int, y: int) -> bool {
    &&& after.wf()
    &&& after.same_shape(before)
    &&& forall|a: int, b: int|
        #![trigger after.cell(a, b)]
        before.in_bounds(a, b) ==> match before.cell(x, y).unwrap().burnable {
            Some(burnable) => if burnable.burning && adjacent(a, b, x, y) && before.cell(a, b).is_none() {
                emitted(burnable, after.cell(a, b))
            } else {
                after.cell(a, b) == before.cell(a, b)
            },
            None => after.cell(a, b) == before.cell(a, b),
        }
}

/// Emission of a burning particle at `(x, y)`: each empty neighbour in the
/// grid may receive its emission material (two chances in three) or smoke.
pub fn spark_if_ignited(x: usize, y: usize, sandbox: &mut Sandbox, dice: &mut Dice)
    requires
        old(sandbox).wf(),
        old(sandbox).in_bounds(x as int, y as int),
        old(sandbox).cell(x as int, y as int).is_some(),
    ensures
        emissions(old(sandbox), final(sandbox), x as int, y as int),
{
    let burnable = match sandbox.at(x, y).unwrap().burnable {
        Some(burnable) => {
            if !burnable.burning {
                return;
            }
            burnable
        },
        None => {
            return;
        },
    };
    if !burnable.emit_smoke && burnable.emission.is_none() {
        return;
    }
    if y + 1 < sandbox.height() && sandbox.at(x, y + 1).is_none() {
        emit_into(x, y + 1, burnable, sandbox, dice);
    }
    if x + 1 < sandbox.width() && sandbox.at(x + 1, y).is_none() {
        emit_into(x + 1, y, burnable, sandbox, dice);
    }
    if x > 0 && sandbox.at(x - 1, y).is_none() {
        emit_into(x - 1, y, burnable, sandbox, dice);
    }
    if y > 0 && sandbox.at(x, y - 1).is_none() {
        emit_into(x, y - 1, burnable, sandbox, dice);
    }
}

/// `after` is `before` once the thermal engine has run for the particle at
/// `(x, y)`: heat radiates, the critical state is resolved, and a particle
/// that survives takes a step of ignition or extinction and emits.
/// `consumed` tells whether the particle was critical.
pub open spec fn thermal_step(before: &Sandbox, after: &Sandbox, x: int, y: int, consumed: bool) -> bool {
    &&& consumed == critical(before.cell(x, y).unwrap())
    &&& exists|s1: Sandbox, s2: Sandbox, resolved: bool| #[trigger]
        critical_outcome(&s1, &s2, x, y, resolved) && diffused(before, &s1, x, y) && if resolved {
            *after == s2
        } else {
            exists|s3: Sandbox| #[trigger] burned(&s2, &s3, x, y) && emissions(&s3, after, x, y)
        }
}

/// The thermal engine for the particle at `(x, y)`: heat radiates to the
/// neighbours, a critical particle explodes or decays, and one that survives
/// ignites or goes out and emits while burning. Returns whether the particle
/// was critical, which consumes its tick.
pub fn step_temperature(x: usize, y: usize, sandbox: &mut Sandbox, dice: &mut Dice) -> (r: bool)
    requires
        old(sandbox).wf(),
        old(sandbox).in_bounds(x as int, y as int),
        old(sandbox).cell(x as int, y as int).is_some(),
    ensures
        final(sandbox).wf(),
        final(sandbox).same_shape(old(sandbox)),
        thermal_step(old(sandbox), final(sandbox), x as int, y as int, r),
        r == critical(old(sandbox).cell(x as int, y as int).unwrap()),
        !r ==> final(sandbox).cell(x as int, y as int) == Some(
            burn_transition(old(sandbox).cell(x as int, y as int).unwrap()),
        ),
        ({
            let p = old(sandbox).cell(x as int, y as int).unwrap();
            p.temperature.is_none() && p.temperature_changer.is_none() && p.burnable.is_none()
                ==> forall|a: int, b: int|
                #![trigger final(sandbox).cell(a, b)]
                old(sandbox).in_bounds(a, b) ==> final(sandbox).cell(a, b) == old(sandbox).cell(a, b)
        }),
{
    apply_temperature_to_neighbors(x, y, sandbox);
    let ghost s1 = *sandbox;
    let resolved = step_self(x, y, sandbox, dice);
    let ghost s2 = *sandbox;
    assert(critical_outcome(&s1, &s2, x as int, y as int, resolved));
    if resolved {
        return true;
    }
    let p = sandbox.at(x, y).unwrap();
    step_burning(x, y, sandbox);
    let ghost s3 = *sandbox;
    spark_if_ignited(x, y, sandbox, dice);
    assert(burned(&s2, &s3, x as int, y as int));
    is_critical(p)
}

} // verus!
