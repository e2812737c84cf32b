use falling_sand::catalog::get_particle;
use falling_sand::catalog::SAND_COLOR;
use falling_sand::catalog::STONE_COLOR;
use falling_sand::dice::Dice;
use falling_sand::particle::Material;
use falling_sand::particle::MovementType;

const ALL: [Material; 15] = [
    Material::Sand,
    Material::Water,
    Material::Stone,
    Material::Steam,
    Material::Wood,
    Material::Acid,
    Material::Lava,
    Material::Smoke,
    Material::Spark,
    Material::Igneous,
    Material::Ash,
    Material::Oil,
    Material::Glass,
    Material::Gunpowder,
    Material::Tnt,
];

#[test]
fn sand_profile() {
    let mut dice = Dice::from_seed(11);
    let p = get_particle(Material::Sand, &mut dice);
    assert_eq!(p.health, 50);
    assert_eq!(p.density.0, u32::MAX);
    assert_eq!(p.movement_type, MovementType::Powder);
    assert!(p.use_gravity);
    assert_eq!(p.corrodable.unwrap().0, 50);
    let t = p.temperature.unwrap();
    assert_eq!(t.current, 50);
    assert_eq!(t.replacement_on_critical.material, Some(Material::Glass));
    assert_eq!(t.replacement_on_critical.percent, 100);
    assert_eq!(p.velocity.y, -2);
    assert!(p.velocity.x >= -3 && p.velocity.x <= 3);
    assert_eq!(p.color.3, SAND_COLOR.3);
    for (c, b) in [(p.color.0, SAND_COLOR.0), (p.color.1, SAND_COLOR.1), (p.color.2, SAND_COLOR.2)] {
        assert!((c as i32 - b as i32).abs() <= 10);
    }
}

#[test]
fn stone_is_static_and_unjittered() {
    let mut dice = Dice::from_seed(12);
    let p = get_particle(Material::Stone, &mut dice);
    assert_eq!(p.movement_type, MovementType::Solid);
    assert_eq!(p.color, STONE_COLOR);
    assert_eq!(p.velocity.x, 0);
    assert_eq!(p.velocity.y, 0);
    assert!(p.temperature.is_none());
}

#[test]
fn health_is_fixed_per_material() {
    let mut dice = Dice::from_seed(13);
    for _ in 0..200 {
        let steam = get_particle(Material::Steam, &mut dice);
        assert_eq!(steam.health, 110);
        assert_eq!(steam.lifespan.unwrap().replacement.material, Some(Material::Water));
        assert_eq!(get_particle(Material::Smoke, &mut dice).health, 47);
        let spark = get_particle(Material::Spark, &mut dice);
        assert_eq!(spark.health, 7);
        assert!(spark.velocity.x >= -6 && spark.velocity.x <= 6);
        assert!(spark.velocity.y >= -6 && spark.velocity.y <= 6);
    }
}

#[test]
fn two_builds_differ_only_in_colour_and_velocity() {
    let mut dice = Dice::from_seed(20);
    for m in ALL {
        let a = get_particle(m, &mut dice);
        let b = get_particle(m, &mut dice);
        let burnable = match (a.burnable, b.burnable) {
            (Some(x), Some(y)) => Some(falling_sand::particle::Burnable {
                burn_color: x.burn_color,
                cooled_color: x.cooled_color,
                ..y
            }),
            (None, None) => None,
            _ => panic!("burnable differs"),
        };
        let b2 = falling_sand::particle::Particle { color: a.color, velocity: a.velocity, burnable, ..b };
        assert_eq!(a, b2);
    }
}

#[test]
fn jitter_varies_colour() {
    let mut dice = Dice::from_seed(14);
    let mut seen = Vec::new();
    for _ in 0..100 {
        let c = get_particle(Material::Sand, &mut dice).color;
        if !seen.contains(&c) {
            seen.push(c);
        }
    }
    assert!(seen.len() > 1);
}

#[test]
fn every_material_builds_a_fresh_particle() {
    let mut dice = Dice::from_seed(15);
    for m in ALL {
        let p = get_particle(m, &mut dice);
        assert!(p.health > 0);
        assert!(!p.updated);
        if let Some(b) = p.burnable {
            assert!(!b.burning);
            assert!(p.temperature.is_some());
        }
    }
}

#[test]
fn wood_and_gunpowder_burn_profiles() {
    let mut dice = Dice::from_seed(16);
    let wood = get_particle(Material::Wood, &mut dice);
    let b = wood.burnable.unwrap();
    assert_eq!(b.burn_temperature, 100);
    assert_eq!(b.burn_ticks, 50);
    assert_eq!(b.emission, Some(Material::Spark));
    assert!(b.emit_smoke);
    let gunpowder = get_particle(Material::Gunpowder, &mut dice);
    assert_eq!(gunpowder.temperature.unwrap().explosion_radius, 5);
    assert_eq!(gunpowder.burnable.unwrap().burn_color, (204, 146, 95, 255));
    let tnt = get_particle(Material::Tnt, &mut dice);
    assert_eq!(tnt.temperature.unwrap().explosion_radius, 15);
}

#[test]
fn dice_range_covers_its_values() {
    let mut dice = Dice::from_seed(17);
    let mut seen = [false; 3];
    for _ in 0..300 {
        let v = dice.range(0, 2);
        assert!((0..=2).contains(&v));
        seen[v as usize] = true;
    }
    assert_eq!(seen, [true, true, true]);
}

#[test]
fn dice_certain_and_impossible_odds() {
    let mut dice = Dice::from_seed(18);
    let mut trues = 0;
    for _ in 0..300 {
        assert!(dice.ratio(3, 3));
        assert!(!dice.ratio(0, 3));
        assert!(dice.percent(100));
        assert!(dice.percent(250));
        assert!(!dice.percent(0));
        if dice.ratio(1, 2) {
            trues += 1;
        }
    }
    assert!(trues > 0 && trues < 300);
}

#[test]
fn jitter_shifts_channels_together() {
    let mut dice = Dice::from_seed(19);
    for _ in 0..100 {
        let c = get_particle(Material::Sand, &mut dice).color;
        let shift = c.1 as i32 - SAND_COLOR.1 as i32;
        assert_eq!(c.2 as i32 - SAND_COLOR.2 as i32, shift);
        assert_eq!(c.0 as i32, (SAND_COLOR.0 as i32 + shift).min(255));
    }
}
