use crate::dice::Dice;
use crate::particle::Acidity;
use crate::particle::Burnable;
use crate::particle::Corrodable;
use crate::particle::Density;
use crate::particle::LifeSpan;
use crate::particle::Material;
use crate::particle::MovementType;
use crate::particle::Particle;
use crate::particle::ParticleReplacement;
use crate::particle::Rgba;
use crate::particle::Temperature;
use crate::particle::TemperatureChanger;
use crate::particle::Velocity;
use vstd::prelude::*;

verus! {

pub const SAND_COLOR: Rgba = (253, 173, 52, 255);
pub const STONE_COLOR: Rgba = (89, 104, 134, 255);
pub const WATER_COLOR: Rgba = (0, 153, 219, 178);
pub const STEAM_COLOR: Rgba = (140, 156, 180, 255);
pub const WOOD_COLOR: Rgba = (116, 62, 57, 255);
pub const ACID_COLOR: Rgba = (99, 198, 76, 178);
pub const LAVA_COLOR: Rgba = (228, 57, 66, 255);
pub const SMOKE_COLOR: Rgba = (192, 203, 220, 255);
pub const IGNEOUS_COLOR: Rgba = (62, 39, 49, 255);
pub const ASH_COLOR: Rgba = (89, 104, 134, 255);
pub const OIL_COLOR: Rgba = (238, 221, 189, 255);
pub const GLASS_COLOR: Rgba = (56, 222, 234, 178);
pub const GUNPOWDER_COLOR: Rgba = (192, 203, 220, 255);
pub const TNT_COLOR: Rgba = (161, 37, 50, 255);
/// The colour of burning oil and gunpowder.
pub const EMBER_COLOR: Rgba = (204, 146, 95, 255);
pub const SPARK_COLOR_BRIGHT: Rgba = (254, 230, 97, 255);
pub const SPARK_COLOR_WARM: Rgba = (253, 173, 52, 255);
pub const SPARK_COLOR_DEEP: Rgba = (246, 118, 33, 255);
pub const WOOD_BURN_COLOR_RED: Rgba = (161, 37, 50, 255);
pub const WOOD_BURN_COLOR_ORANGE: Rgba = (246, 118, 33, 255);
pub const WOOD_BURN_COLOR_YELLOW: Rgba = (253, 173, 52, 255);

/// The largest brightness shift, per channel, of a varied colour.
pub const COLOR_JITTER: i32 = 10;

/// `v` held within the range of a byte.
pub open spec fn clamp_u8(v: int) -> u8 {
    if v < 0 {
        0u8
    } else if v > 255 {
        255u8
    } else {
        v as u8
    }
}

/// `c` with its red, green and blue channels shifted by `d`, alpha kept.
pub open spec fn shifted(c: Rgba, d: int) -> Rgba {
    (clamp_u8(c.0 + d), clamp_u8(c.1 + d), clamp_u8(c.2 + d), c.3)
}

/// `c` is `base` shifted in brightness by at most the jitter.
pub open spec fn varied_from(c: Rgba, base: Rgba) -> bool {
    exists|d: int| -COLOR_JITTER <= d <= COLOR_JITTER && c == #[trigger] shifted(base, d)
}

pub open spec fn is_spark_color(c: Rgba) -> bool {
    c == SPARK_COLOR_BRIGHT || c == SPARK_COLOR_WARM || c == SPARK_COLOR_DEEP
}

/// Whether a material's base colour is varied at spawn.
pub open spec fn jittered(m: Material) -> bool {
    match m {
        Material::Glass | Material::Stone | Material::Spark | Material::Igneous | Material::Oil
        | Material::Gunpowder | Material::Tnt => false,
        _ => true,
    }
}

pub open spec fn base_color(m: Material) -> Rgba {
    match m {
        Material::Sand => SAND_COLOR,
        Material::Water => WATER_COLOR,
        Material::Stone => STONE_COLOR,
        Material::Steam => STEAM_COLOR,
        Material::Wood => WOOD_COLOR,
        Material::Acid => ACID_COLOR,
        Material::Lava => LAVA_COLOR,
        Material::Smoke => SMOKE_COLOR,
        Material::Spark => SPARK_COLOR_WARM,
        Material::Igneous => IGNEOUS_COLOR,
        Material::Ash => ASH_COLOR,
        Material::Oil => OIL_COLOR,
        Material::Glass => GLASS_COLOR,
        Material::Gunpowder => GUNPOWDER_COLOR,
        Material::Tnt => TNT_COLOR,
    }
}

/// The health a freshly built particle starts with; for steam, smoke and
/// sparks it is their lifespan in ticks.
pub open spec fn base_health(m: Material) -> i32 {
    match m {
        Material::Steam => 110,
        Material::Smoke => 47,
        Material::Spark => 7,
        _ => 50,
    }
}

/// A resting, gravity-bound particle with no optional capability.
pub open spec fn plain(health: i32, color: Rgba, movement_type: MovementType, density: u32) -> Particle {
    Particle {
        lifespan: None,
        health,
        velocity: Velocity { x: 0, y: 0 },
        density: Density(density),
        color,
        movement_type,
        spread_rate: 0,
        use_gravity: true,
        acidity: None,
        corrodable: None,
        temperature: None,
        temperature_changer: None,
        burnable: None,
        updated: false,
    }
}

pub open spec fn thermal(
    start: i32,
    coolable: bool,
    heatable: bool,
    critical_on_cool: bool,
    material: Option<Material>,
    percent: u32,
    explosion_radius: i32,
) -> Temperature {
    Temperature {
        current: start,
        start_temperature: start,
        coolable,
        heatable,
        critical_on_cool,
        replacement_on_critical: ParticleReplacement { material, percent },
        explosion_radius,
    }
}

pub open spec fn burning_profile(
    burn_temperature: i32,
    burn_ticks: i32,
    burn_color: Rgba,
    cooled_color: Rgba,
    emission: Option<Material>,
    emit_smoke: bool,
) -> Burnable {
    Burnable {
        burn_temperature,
        burn_ticks,
        burn_color,
        cooled_color,
        burning: false,
        emission,
        emit_smoke,
    }
}

/// Each material's particle before its random spawn variation: base colour,
/// resting.
pub open spec fn template(m: Material) -> Particle {
    let h = base_health(m);
    let c = base_color(m);
    match m {
        Material::Sand => Particle {
            temperature: Some(thermal(50, true, true, false, Some(Material::Glass), 100, 0)),
            corrodable: Some(Corrodable(50)),
            ..plain(h, c, MovementType::Powder, u32::MAX)
        },
        Material::Glass => plain(h, c, MovementType::Solid, u32::MAX),
        Material::Water => Particle {
            spread_rate: 2,
            temperature: Some(thermal(30, false, true, false, Some(Material::Steam), 80, 0)),
            temperature_changer: Some(TemperatureChanger(-5i32)),
            ..plain(h, c, MovementType::Liquid, 1)
        },
        Material::Stone => Particle {
            corrodable: Some(Corrodable(50)),
            ..plain(h, c, MovementType::Solid, u32::MAX)
        },
        Material::Steam => Particle {
            lifespan: Some(LifeSpan { replacement: ParticleReplacement { material: Some(Material::Water), percent: 10 } }),
            ..plain(h, c, MovementType::Gas, 0)
        },
        Material::Wood => Particle {
            temperature: Some(thermal(30, true, true, false, Some(Material::Ash), 30, 0)),
            burnable: Some(burning_profile(100, 50, WOOD_BURN_COLOR_RED, WOOD_COLOR, Some(Material::Spark), true)),
            corrodable: Some(Corrodable(50)),
            ..plain(h, c, MovementType::Solid, u32::MAX)
        },
        Material::Acid => Particle {
            spread_rate: 1,
            acidity: Some(Acidity(5)),
            ..plain(h, c, MovementType::Liquid, 2)
        },
        Material::Lava => Particle {
            temperature: Some(thermal(50, true, false, true, Some(Material::Igneous), 90, 0)),
            temperature_changer: Some(TemperatureChanger(5)),
            ..plain(h, c, MovementType::Liquid, 5)
        },
        Material::Smoke => Particle {
            lifespan: Some(LifeSpan { replacement: ParticleReplacement { material: None, percent: 100 } }),
            ..plain(h, c, MovementType::Gas, 0)
        },
        Material::Spark => Particle {
            lifespan: Some(LifeSpan { replacement: ParticleReplacement { material: None, percent: 100 } }),
            temperature_changer: Some(TemperatureChanger(5)),
            ..plain(h, c, MovementType::Gas, 1)
        },
        Material::Igneous => Particle {
            corrodable: Some(Corrodable(50)),
            ..plain(h, c, MovementType::Solid, u32::MAX)
        },
        Material::Ash => Particle {
            corrodable: Some(Corrodable(50)),
            ..plain(h, c, MovementType::Powder, u32::MAX)
        },
        Material::Oil => Particle {
            temperature: Some(thermal(5, false, true, false, Some(Material::Spark), 100, 0)),
            burnable: Some(burning_profile(42, 15, EMBER_COLOR, OIL_COLOR, None, false)),
            ..plain(h, c, MovementType::Liquid, 2)
        },
        Material::Gunpowder => Particle {
            temperature: Some(thermal(1, true, true, false, None, 100, 5)),
            burnable: Some(burning_profile(32, 15, EMBER_COLOR, GUNPOWDER_COLOR, None, true)),
            corrodable: Some(Corrodable(50)),
            ..plain(h, c, MovementType::Powder, u32::MAX)
        },
        Material::Tnt => Particle {
            temperature: Some(thermal(1, true, true, false, None, 100, 15)),
            corrodable: Some(Corrodable(50)),
            ..plain(h, c, MovementType::Solid, u32::MAX)
        },
    }
}

/// The spawn velocity a material may receive: a wide random kick for
/// sparks, a lateral spread and a fixed fall for powders and liquids, none
/// for the rest.
pub open spec fn spawn_velocity_ok(m: Material, v: Velocity) -> bool {
    if m == Material::Spark {
        -6 <= v.x <= 6 && -6 <= v.y <= 6
    } else if template(m).movement_type == MovementType::Powder || template(m).movement_type
        == MovementType::Liquid {
        -3 <= v.x <= 3 && v.y == -2
    } else {
        v.x == 0 && v.y == 0
    }
}

pub open spec fn spawn_color_ok(m: Material, c: Rgba) -> bool {
    if m == Material::Spark {
        is_spark_color(c)
    } else if jittered(m) {
        varied_from(c, base_color(m))
    } else {
        c == base_color(m)
    }
}

pub open spec fn spawn_burnable_ok(m: Material, b: Option<Burnable>) -> bool {
    match (b, template(m).burnable) {
        (Some(a), Some(t)) => {
            &&& (Burnable { burn_color: t.burn_color, cooled_color: t.cooled_color, ..a }) == t
            &&& if m == Material::Wood {
                &&& (varied_from(a.burn_color, WOOD_BURN_COLOR_RED) || varied_from(
                    a.burn_color,
                    WOOD_BURN_COLOR_ORANGE,
                ) || varied_from(a.burn_color, WOOD_BURN_COLOR_YELLOW))
                &&& varied_from(a.cooled_color, WOOD_COLOR)
            } else {
                a.burn_color == t.burn_color && a.cooled_color == t.cooled_color
            }
        },
        (None, None) => true,
        _ => false,
    }
}

/// `p` is a particle the catalog builds for `m`: the template's fields, with
/// the spawn velocity and the colours drawn within the material's ranges.
pub open spec fn built_from(m: Material, p: Particle) -> bool {
    let t = template(m);
    &&& p.lifespan == t.lifespan
    &&& p.density == t.density
    &&& p.movement_type == t.movement_type
    &&& p.spread_rate == t.spread_rate
    &&& p.use_gravity == t.use_gravity
    &&& p.acidity == t.acidity
    &&& p.corrodable == t.corrodable
    &&& p.temperature == t.temperature
    &&& p.temperature_changer == t.temperature_changer
    &&& p.updated == t.updated
    &&& p.health == t.health
    &&& spawn_velocity_ok(m, p.velocity)
    &&& spawn_color_ok(m, p.color)
    &&& spawn_burnable_ok(m, p.burnable)
}

/// Two builds of one material differ at most in their colours and spawn
/// velocity.
pub proof fn lemma_builds_agree(m: Material, p1: Particle, p2: Particle)
    requires
        built_from(m, p1),
        built_from(m, p2),
    ensures
        (Particle { color: p1.color, velocity: p1.velocity, burnable: p1.burnable, ..p2 }) == p1,
        p1.burnable.is_some() == p2.burnable.is_some(),
        p1.burnable.is_some() ==> (Burnable {
            burn_color: p1.burnable.unwrap().burn_color,
            cooled_color: p1.burnable.unwrap().cooled_color,
            ..p2.burnable.unwrap()
        }) == p1.burnable.unwrap(),
{
}

fn plain_particle(health: i32, color: Rgba, movement_type: MovementType, density: u32) -> (r: Particle)
    ensures
        r == plain(health, color, movement_type, density),
{
    Particle {
        lifespan: None,
        health,
        velocity: Velocity::new(0, 0),
        density: Density(density),
        color,
        movement_type,
        spread_rate: 0,
        use_gravity: true,
        acidity: None,
        corrodable: None,
        temperature: None,
        temperature_changer: None,
        burnable: None,
        updated: false,
    }
}

fn thermal_profile(
    start: i32,
    coolable: bool,
    heatable: bool,
    critical_on_cool: bool,
    material: Option<Material>,
    percent: u32,
    explosion_radius: i32,
) -> (r: Temperature)
    ensures
        r == thermal(start, coolable, heatable, critical_on_cool, material, percent, explosion_radius),
{
    Temperature::new(
        start,
        coolable,
        heatable,
        critical_on_cool,
        ParticleReplacement::new(material, percent),
        explosion_radius,
    )
}

fn combustion_profile(
    burn_temperature: i32,
    burn_ticks: i32,
    burn_color: Rgba,
    cooled_color: Rgba,
    emission: Option<Material>,
    emit_smoke: bool,
) -> (r: Burnable)
    ensures
        r == burning_profile(burn_temperature, burn_ticks, burn_color, cooled_color, emission, emit_smoke),
{
    Burnable {
        burn_temperature,
        burn_ticks,
        burn_color,
        cooled_color,
        burning: false,
        emission,
        emit_smoke,
    }
}

fn is_jittered(m: Material) -> (r: bool)
    ensures
        r == jittered(m),
{
    match m {
        Material::Glass | Material::Stone | Material::Spark | Material::Igneous | Material::Oil
        | Material::Gunpowder | Material::Tnt => false,
        _ => true,
    }
}

fn color_of(m: Material) -> (r: Rgba)
    ensures
        r == base_color(m),
{
    match m {
        Material::Sand => SAND_COLOR,
        Material::Water => WATER_COLOR,
        Material::Stone => STONE_COLOR,
        Material::Steam => STEAM_COLOR,
        Material::Wood => WOOD_COLOR,
        Material::Acid => ACID_COLOR,
        Material::Lava => LAVA_COLOR,
        Material::Smoke => SMOKE_COLOR,
        Material::Spark => SPARK_COLOR_WARM,
        Material::Igneous => IGNEOUS_COLOR,
        Material::Ash => ASH_COLOR,
        Material::Oil => OIL_COLOR,
        Material::Glass => GLASS_COLOR,
        Material::Gunpowder => GUNPOWDER_COLOR,
        Material::Tnt => TNT_COLOR,
    }
}

fn template_particle(m: Material) -> (p: Particle)
    ensures
        p == template(m),
{
    let c = color_of(m);
    match m {
        Material::Sand => Particle {
            temperature: Some(thermal_profile(50, true, true, false, Some(Material::Glass), 100, 0)),
            corrodable: Some(Corrodable(50)),
            ..plain_particle(50, c, MovementType::Powder, u32::MAX)
        },
        Material::Glass => plain_particle(50, c, MovementType::Solid, u32::MAX),
        Material::Water => Particle {
            spread_rate: 2,
            temperature: Some(thermal_profile(30, false, true, false, Some(Material::Steam), 80, 0)),
            temperature_changer: Some(TemperatureChanger(-5)),
            ..plain_particle(50, c, MovementType::Liquid, 1)
        },
        Material::Stone => Particle {
            corrodable: Some(Corrodable(50)),
            ..plain_particle(50, c, MovementType::Solid, u32::MAX)
        },
        Material::Steam => Particle {
            lifespan: Some(LifeSpan::new(ParticleReplacement::new(Some(Material::Water), 10))),
            ..plain_particle(110, c, MovementType::Gas, 0)
        },
        Material::Wood => Particle {
            temperature: Some(thermal_profile(30, true, true, false, Some(Material::Ash), 30, 0)),
            burnable: Some(combustion_profile(100, 50, WOOD_BURN_COLOR_RED, WOOD_COLOR, Some(Material::Spark), true)),
            corrodable: Some(Corrodable(50)),
            ..plain_particle(50, c, MovementType::Solid, u32::MAX)
        },
        Material::Acid => Particle {
            spread_rate: 1,
            acidity: Some(Acidity(5)),
            ..plain_particle(50, c, MovementType::Liquid, 2)
        },
        Material::Lava => Particle {
            temperature: Some(thermal_profile(50, true, false, true, Some(Material::Igneous), 90, 0)),
            temperature_changer: Some(TemperatureChanger(5)),
            ..plain_particle(50, c, MovementType::Liquid, 5)
        },
        Material::Smoke => Particle {
            lifespan: Some(LifeSpan::new(ParticleReplacement::new(None, 100))),
            ..plain_particle(47, c, MovementType::Gas, 0)
        },
        Material::Spark => Particle {
            lifespan: Some(LifeSpan::new(ParticleReplacement::new(None, 100))),
            temperature_changer: Some(TemperatureChanger(5)),
            ..plain_particle(7, c, MovementType::Gas, 1)
        },
        Material::Igneous => Particle {
            corrodable: Some(Corrodable(50)),
            ..plain_particle(50, c, MovementType::Solid, u32::MAX)
        },
        Material::Ash => Particle {
            corrodable: Some(Corrodable(50)),
            ..plain_particle(50, c, MovementType::Powder, u32::MAX)
        },
        Material::Oil => Particle {
            temperature: Some(thermal_profile(5, false, true, false, Some(Material::Spark), 100, 0)),
            burnable: Some(combustion_profile(42, 15, EMBER_COLOR, OIL_COLOR, None, false)),
            ..plain_particle(50, c, MovementType::Liquid, 2)
        },
        Material::Gunpowder => Particle {
            temperature: Some(thermal_profile(1, true, true, false, None, 100, 5)),
            burnable: Some(combustion_profile(32, 15, EMBER_COLOR, GUNPOWDER_COLOR, None, true)),
            corrodable: Some(Corrodable(50)),
            ..plain_particle(50, c, MovementType::Powder, u32::MAX)
        },
        Material::Tnt => Particle {
            temperature: Some(thermal_profile(1, true, true, false, None, 100, 15)),
            corrodable: Some(Corrodable(50)),
            ..plain_particle(50, c, MovementType::Solid, u32::MAX)
        },
    }
}

fn shift_channel(c: u8, d: i32) -> (r: u8)
    requires
        -COLOR_JITTER <= d <= COLOR_JITTER,
    ensures
        r == clamp_u8(c + d),
{
    let v: i32 = c as i32 + d;
    if v < 0 {
        0
    } else if v > 255 {
        255
    } else {
        v as u8
    }
}

/// `color` itself, or when `jitter` holds, `color` with a random brightness
/// shift of at most the jitter.
fn variate_color(color: Rgba, jitter: bool, dice: &mut Dice) -> (r: Rgba)
    ensures
        jitter ==> varied_from(r, color),
        !jitter ==> r == color,
{
    if !jitter {
        return color;
    }
    let d = dice.range(-COLOR_JITTER, COLOR_JITTER);
    let r = (shift_channel(color.0, d), shift_channel(color.1, d), shift_channel(color.2, d), color.3);
    assert(r == shifted(color, d as int));
    r
}

/// One of three colours, picked at random.
fn pick_color(a: Rgba, b: Rgba, c: Rgba, dice: &mut Dice) -> (r: Rgba)
    ensures
        r == a || r == b || r == c,
{
    let i = dice.range(0, 2);
    if i == 0 {
        a
    } else if i == 1 {
        b
    } else {
        c
    }
}

/// Builds a fresh particle of `material`. Every field follows the
/// material's template except the random spawn variation: a spawn velocity
/// and varied colours.
pub fn get_particle(material: Material, dice: &mut Dice) -> (p: Particle)
    ensures
        built_from(material, p),
{
    let mut p = template_particle(material);
    if let Material::Spark = material {
        p.color = pick_color(SPARK_COLOR_BRIGHT, SPARK_COLOR_WARM, SPARK_COLOR_DEEP, dice);
    } else {
        p.color = variate_color(p.color, is_jittered(material), dice);
    }
    if let Material::Wood = material {
        let burn = pick_color(WOOD_BURN_COLOR_RED, WOOD_BURN_COLOR_ORANGE, WOOD_BURN_COLOR_YELLOW, dice);
        let burn_color = variate_color(burn, true, dice);
        let cooled_color = variate_color(WOOD_COLOR, true, dice);
        p.burnable = Some(
            combustion_profile(100, 50, burn_color, cooled_color, Some(Material::Spark), true),
        );
    }
    match (material, p.movement_type) {
        (Material::Spark, _) => {
            let vx = dice.range(-6, 6);
            let vy = dice.range(-6, 6);
            p.velocity = Velocity::new(vx, vy);
        },
        (_, MovementType::Powder) | (_, MovementType::Liquid) => {
            let vx = dice.range(-3, 3);
            p.velocity = Velocity::new(vx, -2);
        },
        _ => {},
    }
    p
}

} // verus!
