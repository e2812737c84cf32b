use vstd::prelude::*;

verus! {

/// A colour as red, green, blue and alpha bytes.
pub type Rgba = (u8, u8, u8, u8);

/// How a particle responds to gravity and how widely it searches for room.
#[derive(Clone, Copy, PartialEq, Eq, Debug)]
pub enum MovementType {
    Solid,
    Powder,
    Liquid,
    Gas,
}

/// An integer impulse, consumed and decayed each tick.
#[derive(Clone, Copy, PartialEq, Eq, Debug)]
pub struct Velocity {
    pub x: i32,
    pub y: i32,
}

/// One step of lateral friction: `x` moves one unit toward zero and stops there.
pub open spec fn damped(x: i32) -> int {
    if x < 0 {
        x + 1
    } else if x > 0 {
        x - 1
    } else {
        0
    }
}

impl Velocity {
    pub fn new(x: i32, y: i32) -> (r: Velocity)
        ensures
            r.x == x,
            r.y == y,
    {
        Velocity { x, y }
    }

    /// Damps the lateral component by one toward zero, never past it.
    pub fn zero_out_x(&mut self)
        ensures
            final(self).y == old(self).y,
            final(self).x == damped(old(self).x),
    {
        if self.x < 0 {
            self.x = self.x + 1;
        } else if self.x > 0 {
            self.x = self.x - 1;
        }
    }
}

/// Resistance to displacement: a heavier particle sinks through a lighter one.
/// `u32::MAX` marks a practically immovable material.
#[derive(Clone, Copy, PartialEq, Eq, Debug)]
pub struct Density(pub u32);

/// What a particle may turn into when it expires: with a chance of `percent`
/// in a hundred it becomes `material` (or vanishes when there is none),
/// otherwise it vanishes. A percent above a hundred counts as certain.
#[derive(Clone, Copy, PartialEq, Eq, Debug)]
pub struct ParticleReplacement {
    pub material: Option<Material>,
    pub percent: u32,
}

impl ParticleReplacement {
    pub fn new(material: Option<Material>, percent: u32) -> (r: ParticleReplacement)
        ensures
            r.material == material,
            r.percent == percent,
    {
        ParticleReplacement { material, percent }
    }
}

/// Time-boxed decay: when health runs out the replacement is applied.
#[derive(Clone, Copy, PartialEq, Eq, Debug)]
pub struct LifeSpan {
    pub replacement: ParticleReplacement,
}

impl LifeSpan {
    pub fn new(replacement: ParticleReplacement) -> (r: LifeSpan)
        ensures
            r.replacement == replacement,
    {
        LifeSpan { replacement }
    }
}

/// A counter that neighbouring acid wears down; at zero the particle is gone.
#[derive(Clone, Copy, PartialEq, Eq, Debug)]
pub struct Corrodable(pub i32);

/// The potency an acid particle subtracts from each corrodable neighbour.
#[derive(Clone, Copy, PartialEq, Eq, Debug)]
pub struct Acidity(pub i32);

/// The upper temperature at which a heat-critical material becomes critical.
pub const CRITICAL_HEAT: i32 = 100;

/// A thermal profile.
#[derive(Clone, Copy, PartialEq, Eq, Debug)]
pub struct Temperature {
    pub current: i32,
    pub start_temperature: i32,
    pub coolable: bool,
    pub heatable: bool,
    pub critical_on_cool: bool,
    pub replacement_on_critical: ParticleReplacement,
    pub explosion_radius: i32,
}

impl Temperature {
    pub fn new(
        start_temperature: i32,
        coolable: bool,
        heatable: bool,
        critical_on_cool: bool,
        replacement_on_critical: ParticleReplacement,
        explosion_radius: i32,
    ) -> (r: Temperature)
        ensures
            r.current == start_temperature,
            r.start_temperature == start_temperature,
            r.coolable == coolable,
            r.heatable == heatable,
            r.critical_on_cool == critical_on_cool,
            r.replacement_on_critical == replacement_on_critical,
            r.explosion_radius == explosion_radius,
    {
        Temperature {
            current: start_temperature,
            start_temperature,
            coolable,
            heatable,
            critical_on_cool,
            replacement_on_critical,
            explosion_radius,
        }
    }

    /// Whether the temperature has crossed the material's critical threshold.
    pub open spec fn is_critical(self) -> bool {
        if self.critical_on_cool {
            self.current <= 0
        } else {
            self.current >= CRITICAL_HEAT
        }
    }
}

/// The heat a particle radiates to each neighbour every tick.
#[derive(Clone, Copy, PartialEq, Eq, Debug)]
pub struct TemperatureChanger(pub i32);

/// The heat a burning particle radiates.
pub const BURNING_HEAT: i32 = 2;

/// Combustion: thresholds, colours and what a burning particle gives off.
#[derive(Clone, Copy, PartialEq, Eq, Debug)]
pub struct Burnable {
    pub burn_temperature: i32,
    pub burn_ticks: i32,
    pub burn_color: Rgba,
    pub cooled_color: Rgba,
    pub burning: bool,
    pub emission: Option<Material>,
    pub emit_smoke: bool,
}

/// The materials of the catalog.
#[derive(Clone, Copy, PartialEq, Eq, Debug)]
pub enum Material {
    Sand,
    Water,
    Stone,
    Steam,
    Wood,
    Acid,
    Lava,
    Smoke,
    Spark,
    Igneous,
    Ash,
    Oil,
    Glass,
    Gunpowder,
    Tnt,
}

/// One cell's content. Each optional capability is present or absent
/// independently; `updated` marks a particle that has acted this tick.
#[derive(Clone, Copy, PartialEq, Eq, Debug)]
pub struct Particle {
    pub lifespan: Option<LifeSpan>,
    pub health: i32,
    pub velocity: Velocity,
    pub density: Density,
    pub color: Rgba,
    pub movement_type: MovementType,
    pub spread_rate: i32,
    pub use_gravity: bool,
    pub acidity: Option<Acidity>,
    pub corrodable: Option<Corrodable>,
    pub temperature: Option<Temperature>,
    pub temperature_changer: Option<TemperatureChanger>,
    pub burnable: Option<Burnable>,
    pub updated: bool,
}

pub open spec fn sign(v: int) -> int {
    if v < 0 {
        -1
    } else if v > 0 {
        1
    } else {
        0
    }
}

pub open spec fn abs(v: int) -> int {
    if v < 0 {
        -v
    } else {
        v
    }
}

/// `v` held within the range of `i32`.
pub open spec fn clamp_i32(v: int) -> int {
    if v < i32::MIN {
        i32::MIN as int
    } else if v > i32::MAX {
        i32::MAX as int
    } else {
        v
    }
}

/// Subtraction that stops at the bounds of `i32` instead of overflowing.
pub fn saturating_sub_i32(a: i32, b: i32) -> (r: i32)
    ensures
        r == clamp_i32(a - b),
{
    let v: i64 = a as i64 - b as i64;
    if v < i32::MIN as i64 {
        i32::MIN
    } else if v > i32::MAX as i64 {
        i32::MAX
    } else {
        v as i32
    }
}

/// Addition that stops at the bounds of `i32` instead of overflowing.
pub fn saturating_add_i32(a: i32, b: i32) -> (r: i32)
    ensures
        r == clamp_i32(a + b),
{
    let v: i64 = a as i64 + b as i64;
    if v < i32::MIN as i64 {
        i32::MIN
    } else if v > i32::MAX as i64 {
        i32::MAX
    } else {
        v as i32
    }
}

} // verus!
