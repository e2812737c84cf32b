use crate::catalog::built_from;
use crate::catalog::get_particle;
use crate::dice::Dice;
use crate::movement::gravity_applied;
use crate::movement::movement_outcome;
use crate::movement::movement_step;
use crate::movement::search;
use crate::movement::step_movement;
use crate::particle::clamp_i32;
use crate::particle::saturating_sub_i32;
use crate::particle::Corrodable;
use crate::particle::Particle;
use crate::particle::ParticleReplacement;
use crate::sandbox::Sandbox;
use crate::temperature::adjacent;
use crate::temperature::step_temperature;
use crate::temperature::thermal_step;
use vstd::prelude::*;

verus! {

/// What an expired cell may hold: nothing, or a fresh particle of the
/// replacement material; a certain replacement with a material always gives
/// the particle, and one with no chance always leaves the cell empty.
pub open spec fn replaced(r: ParticleReplacement, c: Option<Particle>) -> bool {
    &&& match c {
        None => true,
        Some(q) => r.material.is_some() && built_from(r.material.unwrap(), q),
    }
    &&& r.percent >= 100 && r.material.is_some() ==> c.is_some()
    &&& r.percent == 0 ==> c.is_none()
}

/// Resolves an expiry at `(x, y)`: with the replacement's chance the cell
/// becomes a fresh particle of its material (or empty when it has none);
/// otherwise the cell is emptied.
pub fn resolve_replacement(
    x: usize,
    y: usize,
    replacement: ParticleReplacement,
    sandbox: &mut Sandbox,
    dice: &mut Dice,
)
    requires
        old(sandbox).wf(),
        old(sandbox).in_bounds(x as int, y as int),
    ensures
        final(sandbox).wf(),
        final(sandbox).same_shape(old(sandbox)),
        final(sandbox).agrees_except(old(sandbox), x as int, y as int),
        replaced(replacement, final(sandbox).cell(x as int, y as int)),
        replacement.percent >= 100 && replacement.material.is_some() ==> final(sandbox).cell(
            x as int,
            y as int,
        ).is_some(),
        replacement.percent == 0 ==> final(sandbox).cell(x as int, y as int).is_none(),
{
    if dice.percent(replacement.percent) {
        match replacement.material {
            Some(material) => {
                let p = get_particle(material, dice);
                sandbox.set(x, y, Some(p));
            },
            None => {
                sandbox.set(x, y, None);
            },
        }
    } else {
        sandbox.set(x, y, None);
    }
}

/// `after` is `before` once the lifespan of the particle at `(x, y)` has
/// run one tick; `consumed` tells whether it expired.
pub open spec fn decay_step(before: &Sandbox, after: &Sandbox, x: int, y: int, consumed: bool) -> bool {
    let c = before.cell(x, y);
    let p = c.unwrap();
    let health = clamp_i32(p.health - 1);
    &&& after.wf()
    &&& after.same_shape(before)
    &&& after.agrees_except(before, x, y)
    &&& if c.is_none() || p.lifespan.is_none() {
        !consumed && after.cell(x, y) == c
    } else if health <= 0 {
        consumed && replaced(p.lifespan.unwrap().replacement, after.cell(x, y))
    } else {
        !consumed && after.cell(x, y) == Some(Particle { health: health as i32, ..p })
    }
}

/// Lifespan decay for the particle at `(x, y)`. A particle with a lifespan
/// loses one health; at zero its replacement is resolved, which consumes the
/// tick. Returns whether the tick was consumed.
pub fn step_health(x: usize, y: usize, sandbox: &mut Sandbox, dice: &mut Dice) -> (r: bool)
    requires
        old(sandbox).wf(),
        old(sandbox).in_bounds(x as int, y as int),
    ensures
        decay_step(old(sandbox), final(sandbox), x as int, y as int, r),
{
    let particle = match sandbox.at(x, y) {
        Some(p) => p,
        None => {
            return false;
        },
    };
    let replacement = match particle.lifespan {
        Some(lifespan) => lifespan.replacement,
        None => {
            return false;
        },
    };
    let health = saturating_sub_i32(particle.health, 1);
    if health <= 0 {
        resolve_replacement(x, y, replacement, sandbox, dice);
        return true;
    }
    sandbox.set(x, y, Some(Particle { health, ..particle }));
    false
}

/// The cell bears a corrosion-resistance counter.
pub open spec fn corrodes(c: Option<Particle>) -> bool {
    c.is_some() && c.unwrap().corrodable.is_some()
}

/// A cell after one corrosion tick of the given potency: its counter drops by
/// the potency, and at zero or below the particle is destroyed.
pub open spec fn corroded(c: Option<Particle>, potency: i32) -> Option<Particle> {
    if corrodes(c) {
        let q = c.unwrap();
        let left = clamp_i32(q.corrodable.unwrap().0 - potency);
        if left <= 0 {
            None
        } else {
            Some(Particle { corrodable: Some(Corrodable(left as i32)), ..q })
        }
    } else {
        c
    }
}

pub open spec fn count_if(b: bool) -> int {
    if b {
        1
    } else {
        0
    }
}

/// How many of the four neighbours of `(x, y)` in the grid bear a counter.
pub open spec fn corrodable_neighbors(s: &Sandbox, x: int, y: int) -> int {
    count_if(s.in_bounds(x - 1, y) && corrodes(s.cell(x - 1, y))) + count_if(
        s.in_bounds(x + 1, y) && corrodes(s.cell(x + 1, y)),
    ) + count_if(s.in_bounds(x, y - 1) && corrodes(s.cell(x, y - 1))) + count_if(
        s.in_bounds(x, y + 1) && corrodes(s.cell(x, y + 1)),
    )
}

fn corrode_cell(a: usize, b: usize, potency: i32, sandbox: &mut Sandbox) -> (r: bool)
    requires
        old(sandbox).wf(),
        old(sandbox).in_bounds(a as int, b as int),
    ensures
        final(sandbox).wf(),
        final(sandbox).same_shape(old(sandbox)),
        final(sandbox).agrees_except(old(sandbox), a as int, b as int),
        final(sandbox).cell(a as int, b as int) == corroded(old(sandbox).cell(a as int, b as int), potency),
        r == corrodes(old(sandbox).cell(a as int, b as int)),
{
    if let Some(q) = sandbox.at(a, b) {
        if let Some(counter) = q.corrodable {
            let left = saturating_sub_i32(counter.0, potency);
            if left <= 0 {
                sandbox.set(a, b, None);
            } else {
                sandbox.set(a, b, Some(Particle { corrodable: Some(Corrodable(left)), ..q }));
            }
            return true;
        }
    }
    false
}

/// `after` is `before` once the particle at `(x, y)` has corroded its
/// neighbours; `consumed` tells whether it was used up.
pub open spec fn corrosion_step(before: &Sandbox, after: &Sandbox, x: int, y: int, consumed: bool) -> bool {
    let p = before.cell(x, y).unwrap();
    let n = corrodable_neighbors(before, x, y);
    let health = clamp_i32(p.health - n);
    &&& after.wf()
    &&& after.same_shape(before)
    &&& if p.acidity.is_none() || p.acidity.unwrap().0 <= 0 {
        !consumed && *after == *before
    } else {
        &&& forall|a: int, b: int|
            #![trigger after.cell(a, b)]
            before.in_bounds(a, b) && adjacent(a, b, x, y) ==> after.cell(a, b) == corroded(
                before.cell(a, b),
                p.acidity.unwrap().0,
            )
        &&& forall|a: int, b: int|
            #![trigger after.cell(a, b)]
            before.in_bounds(a, b) && !adjacent(a, b, x, y) && (a != x || b != y) ==> after.cell(a, b)
                == before.cell(a, b)
        &&& consumed == (health <= 0)
        &&& consumed ==> after.cell(x, y).is_none()
        &&& !consumed ==> after.cell(x, y) == Some(Particle { health: health as i32, ..p })
    }
}

/// Corrosion by the particle at `(x, y)`. An acid of positive potency
/// corrodes each neighbour that bears a counter (see [`corroded`]), then
/// loses one health per neighbour corroded; at zero health it is destroyed,
/// which consumes the tick. Returns whether the tick was consumed.
pub fn step_acidity(x: usize, y: usize, sandbox: &mut Sandbox) -> (r: bool)
    requires
        old(sandbox).wf(),
        old(sandbox).in_bounds(x as int, y as int),
        old(sandbox).cell(x as int, y as int).is_some(),
    ensures
        corrosion_step(old(sandbox), final(sandbox), x as int, y as int, r),
{
    let p = sandbox.at(x, y).unwrap();
    let acidity = match p.acidity {
        Some(a) => a.0,
        None => {
            return false;
        },
    };
    if acidity <= 0 {
        return false;
    }
    let ghost start = *sandbox;
    let mut acid_ticks: i32 = 0;
    if x > 0 && corrode_cell(x - 1, y, acidity, sandbox) {
        acid_ticks = acid_ticks + 1;
    }
    if x + 1 < sandbox.width() && corrode_cell(x + 1, y, acidity, sandbox) {
        acid_ticks = acid_ticks + 1;
    }
    if y > 0 && corrode_cell(x, y - 1, acidity, sandbox) {
        acid_ticks = acid_ticks + 1;
    }
    if y + 1 < sandbox.height() && corrode_cell(x, y + 1, acidity, sandbox) {
        acid_ticks = acid_ticks + 1;
    }
    assert(acid_ticks == corrodable_neighbors(&start, x as int, y as int));
    let health = saturating_sub_i32(p.health, acid_ticks);
    if health <= 0 {
        sandbox.set(x, y, None);
        return true;
    }
    sandbox.set(x, y, Some(Particle { health, ..p }));
    false
}

/// `after` is `before` once the live, unmarked particle at `(x, y)` has had
/// its tick: corrosion, then the thermal engine, then lifespan decay, then
/// movement, the first engine that consumes the tick ending it.
pub open spec fn engines_step(before: &Sandbox, after: &Sandbox, x: int, y: int) -> bool {
    exists|s1: Sandbox, c1: bool| #[trigger]
        corrosion_step(before, &s1, x, y, c1) && if c1 {
            *after == s1
        } else {
            exists|s2: Sandbox, c2: bool| #[trigger]
                thermal_step(&s1, &s2, x, y, c2) && if c2 {
                    *after == s2
                } else {
                    exists|s3: Sandbox, c3: bool| #[trigger]
                        decay_step(&s2, &s3, x, y, c3) && if c3 {
                            *after == s3
                        } else {
                            movement_step(&s3, after, x, y)
                        }
                }
        }
}

/// `after` is `before` once the cell at `(x, y)` has had its tick: an empty
/// cell is skipped, a particle with no health left is removed, one that has
/// acted this tick is left alone, and any other goes through the engines.
pub open spec fn particle_step(before: &Sandbox, after: &Sandbox, x: int, y: int) -> bool {
    let c = before.cell(x, y);
    let p = c.unwrap();
    &&& after.wf()
    &&& after.same_shape(before)
    &&& if c.is_none() {
        *after == *before
    } else if p.health <= 0 {
        &&& after.cell(x, y).is_none()
        &&& after.agrees_except(before, x, y)
    } else if p.updated {
        *after == *before
    } else {
        engines_step(before, after, x, y)
    }
}

/// A cell with its per-tick mark cleared.
pub open spec fn unmarked(c: Option<Particle>) -> Option<Particle> {
    match c {
        Some(p) => Some(Particle { updated: false, ..p }),
        None => None,
    }
}

/// The cell visited `k`-th in a tick over a grid of height `h`: columns by
/// ascending `x`, and within a column by ascending `y`.
pub open spec fn scan_position(h: int, k: int) -> (int, int) {
    (k / h, k % h)
}

/// `trace` is the run of one tick from `before`: one grid after each visited
/// cell, in scan order, and `after` is the last of them with every mark cleared.
pub open spec fn tick_trace(before: &Sandbox, after: &Sandbox, trace: Seq<Sandbox>) -> bool {
    let n = before.w() * before.h();
    &&& trace.len() == n + 1
    &&& trace[0] == *before
    &&& forall|k: int|
        0 <= k < n ==> #[trigger] particle_step(
            &trace[k],
            &trace[k + 1],
            scan_position(before.h(), k).0,
            scan_position(before.h(), k).1,
        )
    &&& after.wf()
    &&& after.same_shape(before)
    &&& forall|a: int, b: int|
        #![trigger after.cell(a, b)]
        after.in_bounds(a, b) ==> after.cell(a, b) == unmarked(trace[n].cell(a, b))
}

/// One tick for the cell at `(x, y)`. An empty cell is skipped; a particle
/// with no health left is removed, and one that has acted this tick is left
/// alone. Otherwise corrosion, the thermal engine, lifespan decay and
/// movement are tried in that order, the first that consumes the tick ending
/// it.
pub fn step_particle(x: usize, y: usize, sandbox: &mut Sandbox, dice: &mut Dice)
    requires
        old(sandbox).wf(),
        old(sandbox).in_bounds(x as int, y as int),
    ensures
        particle_step(old(sandbox), final(sandbox), x as int, y as int),
        ({
            let p = old(sandbox).cell(x as int, y as int).unwrap();
            old(sandbox).cell(x as int, y as int).is_some() && p.health > 0 && !p.updated
                && p.acidity.is_none() && p.temperature.is_none() && p.lifespan.is_none()
                && p.temperature_changer.is_none() && p.burnable.is_none() ==> movement_step(
                old(sandbox),
                final(sandbox),
                x as int,
                y as int,
            )
        }),
{
    match sandbox.at(x, y) {
        Some(p) => {
            if p.updated || p.health <= 0 {
                if p.health <= 0 {
                    sandbox.set(x, y, None);
                }
                return;
            }
        },
        None => {
            return;
        },
    }
    let ghost s0 = *sandbox;
    let c1 = step_acidity(x, y, sandbox);
    let ghost s1 = *sandbox;
    assert(corrosion_step(&s0, &s1, x as int, y as int, c1));
    if c1 {
        return;
    }
    let c2 = step_temperature(x, y, sandbox, dice);
    let ghost s2 = *sandbox;
    assert(thermal_step(&s1, &s2, x as int, y as int, c2));
    if c2 {
        return;
    }
    let c3 = step_health(x, y, sandbox, dice);
    assert(decay_step(&s2, sandbox, x as int, y as int, c3));
    if c3 {
        return;
    }
    let ghost current = *sandbox;
    step_movement(x, y, sandbox, dice);
    proof {
        let p = old(sandbox).cell(x as int, y as int).unwrap();
        if p.health > 0 && !p.updated && p.acidity.is_none() && p.temperature.is_none()
            && p.lifespan.is_none() && p.temperature_changer.is_none() && p.burnable.is_none() {
            let mid = choose|mid: Sandbox|
                #[trigger] gravity_applied(&current, &mid, x as int, y as int) && (movement_outcome(
                    &mid,
                    sandbox,
                    x as int,
                    y as int,
                    search(&mid, x as int, y as int, true),
                ) || movement_outcome(&mid, sandbox, x as int, y as int, search(&mid, x as int, y as int, false)));
            assert(gravity_applied(old(sandbox), &mid, x as int, y as int));
        }
    }
}

/// One full tick: every cell is visited, columns by ascending `x` and within
/// a column by ascending `y`, and then every per-tick mark is cleared.
pub fn update_particles(sandbox: &mut Sandbox, dice: &mut Dice)
    requires
        old(sandbox).wf(),
    ensures
        final(sandbox).wf(),
        final(sandbox).same_shape(old(sandbox)),
        exists|trace: Seq<Sandbox>| #[trigger] tick_trace(old(sandbox), final(sandbox), trace),
        forall|a: int, b: int|
            #![trigger final(sandbox).cell(a, b)]
            final(sandbox).in_bounds(a, b) && final(sandbox).cell(a, b).is_some() ==> !final(sandbox).cell(a, b).unwrap().updated,
{
    let width = sandbox.width();
    let height = sandbox.height();
    let ghost start = *sandbox;
    let ghost h = height as int;
    let ghost mut trace: Seq<Sandbox> = seq![*sandbox];
    let mut x: usize = 0;
    while x < width
        invariant
            sandbox.wf(),
            sandbox.same_shape(&start),
            start.wf(),
            start == *old(sandbox),
            width == start.w(),
            height == start.h(),
            h == height,
            x <= width,
            trace.len() == x * h + 1,
            trace[0] == start,
            trace.last() == *sandbox,
            forall|k: int|
                0 <= k < x * h ==> #[trigger] particle_step(
                    &trace[k],
                    &trace[k + 1],
                    scan_position(h, k).0,
                    scan_position(h, k).1,
                ),
        decreases width - x,
    {
        let mut y: usize = 0;
        while y < height
            invariant
                sandbox.wf(),
                sandbox.same_shape(&start),
                start.wf(),
                start == *old(sandbox),
                width == start.w(),
                height == start.h(),
                h == height,
                x < width,
                y <= height,
                trace.len() == x * h + y + 1,
                trace[0] == start,
                trace.last() == *sandbox,
                forall|k: int|
                    0 <= k < x * h + y ==> #[trigger] particle_step(
                        &trace[k],
                        &trace[k + 1],
                        scan_position(h, k).0,
                        scan_position(h, k).1,
                    ),
            decreases height - y,
        {
            step_particle(x, y, sandbox, dice);
            proof {
                let k = x * h + y;
                vstd::arithmetic::div_mod::lemma_fundamental_div_mod_converse(k, h, x as int, y as int);
                let prev = trace;
                trace = trace.push(*sandbox);
                assert(trace[k] == prev.last());
                assert forall|j: int|
                    0 <= j < x * h + y + 1 implies #[trigger] particle_step(
                    &trace[j],
                    &trace[j + 1],
                    scan_position(h, j).0,
                    scan_position(h, j).1,
                ) by {
                    if j < k {
                        assert(trace[j] == prev[j] && trace[j + 1] == prev[j + 1]);
                    }
                }
            }
            y = y + 1;
        }
        proof {
            assert(x * h + h == (x + 1) * h) by (nonlinear_arith);
        }
        x = x + 1;
    }
    sandbox.reset_updated();
    proof {
        assert(x * h == start.w() * start.h());
        assert(tick_trace(&start, sandbox, trace));
    }
}

} // verus!
