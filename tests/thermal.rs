use falling_sand::catalog::get_particle;
use falling_sand::dice::Dice;
use falling_sand::particle::Burnable;
use falling_sand::particle::Material;
use falling_sand::particle::MovementType;
use falling_sand::particle::Particle;
use falling_sand::particle::Temperature;
use falling_sand::particle::Velocity;
use falling_sand::sandbox::Sandbox;
use falling_sand::simulation::step_particle;
use falling_sand::temperature::apply_temperature_to_neighbors;
use falling_sand::temperature::explode;
use falling_sand::temperature::spark_if_ignited;
use falling_sand::temperature::step_burning;
use falling_sand::temperature::step_temperature;

fn with_temperature(p: Particle, current: i32) -> Particle {
    let t = p.temperature.unwrap();
    Particle { temperature: Some(Temperature { current, ..t }), ..p }
}

fn current(s: &Sandbox, x: usize, y: usize) -> i32 {
    s.get(x, y).unwrap().temperature.unwrap().current
}

fn is_spark(p: &Particle) -> bool {
    p.movement_type == MovementType::Gas
        && p.density.0 == 1
        && p.temperature_changer.map(|c| c.0) == Some(5)
        && p.lifespan.is_some()
}

#[test]
fn heat_reaches_only_permitting_neighbours() {
    let mut dice = Dice::from_seed(31);
    let mut s = Sandbox::new(5, 5);
    s.set(2, 2, Some(get_particle(Material::Lava, &mut dice)));
    s.set(1, 2, Some(get_particle(Material::Water, &mut dice)));
    s.set(3, 2, Some(get_particle(Material::Sand, &mut dice)));
    s.set(2, 1, Some(get_particle(Material::Lava, &mut dice)));
    s.set(2, 3, Some(get_particle(Material::Stone, &mut dice)));
    s.set(1, 1, Some(get_particle(Material::Water, &mut dice)));
    apply_temperature_to_neighbors(2, 2, &mut s);
    assert_eq!(current(&s, 1, 2), 35);
    assert_eq!(current(&s, 3, 2), 55);
    assert_eq!(current(&s, 2, 1), 50);
    assert!(s.get(2, 3).unwrap().temperature.is_none());
    assert_eq!(current(&s, 1, 1), 30);
    assert_eq!(current(&s, 2, 2), 50);
}

#[test]
fn cooling_needs_a_coolable_neighbour() {
    let mut dice = Dice::from_seed(32);
    let mut s = Sandbox::new(3, 1);
    s.set(0, 0, Some(get_particle(Material::Water, &mut dice)));
    s.set(1, 0, Some(get_particle(Material::Lava, &mut dice)));
    s.set(2, 0, Some(get_particle(Material::Water, &mut dice)));
    apply_temperature_to_neighbors(0, 0, &mut s);
    assert_eq!(current(&s, 1, 0), 45);
    apply_temperature_to_neighbors(1, 0, &mut s);
    assert_eq!(current(&s, 0, 0), 35);
    assert_eq!(current(&s, 2, 0), 35);
}

#[test]
fn no_flicker_at_the_burn_temperature() {
    let mut dice = Dice::from_seed(33);
    let wood = with_temperature(get_particle(Material::Wood, &mut dice), 100);
    let mut s = Sandbox::new(3, 3);
    s.set(1, 1, Some(wood));
    step_burning(1, 1, &mut s);
    assert_eq!(s.get(1, 1).copied(), Some(wood));
    let b = wood.burnable.unwrap();
    let lit = Particle { burnable: Some(Burnable { burning: true, ..b }), ..wood };
    s.set(1, 1, Some(lit));
    step_burning(1, 1, &mut s);
    assert_eq!(s.get(1, 1).copied(), Some(lit));
}

#[test]
fn ignition_and_extinction() {
    let mut dice = Dice::from_seed(34);
    let wood = get_particle(Material::Wood, &mut dice);
    let hot = Particle { health: 20, ..with_temperature(wood, 101) };
    let mut s = Sandbox::new(3, 3);
    s.set(1, 1, Some(hot));
    step_burning(1, 1, &mut s);
    let p = *s.get(1, 1).unwrap();
    let b = p.burnable.unwrap();
    assert!(b.burning);
    assert_eq!(p.temperature_changer.unwrap().0, 2);
    assert_eq!(p.health, 50);
    assert_eq!(p.color, b.burn_color);
    s.set(1, 1, Some(with_temperature(p, 99)));
    step_burning(1, 1, &mut s);
    let q = *s.get(1, 1).unwrap();
    assert!(!q.burnable.unwrap().burning);
    assert!(q.temperature_changer.is_none());
    assert_eq!(q.color, b.cooled_color);
    assert_eq!(q.temperature.unwrap().current, 30);
}

#[test]
fn burning_wood_fills_empty_neighbours() {
    let mut dice = Dice::from_seed(35);
    let wood = get_particle(Material::Wood, &mut dice);
    let b = wood.burnable.unwrap();
    let lit = Particle { burnable: Some(Burnable { burning: true, ..b }), ..wood };
    let mut s = Sandbox::new(3, 3);
    s.set(1, 1, Some(lit));
    spark_if_ignited(1, 1, &mut s, &mut dice);
    for (x, y) in [(0, 1), (2, 1), (1, 0), (1, 2)] {
        let p = s.get(x, y).unwrap();
        assert_eq!(p.movement_type, MovementType::Gas);
    }
    for (x, y) in [(0, 0), (2, 2), (0, 2), (2, 0)] {
        assert!(s.get(x, y).is_none());
    }
}

#[test]
fn cold_wood_emits_nothing() {
    let mut dice = Dice::from_seed(36);
    let mut s = Sandbox::new(3, 3);
    s.set(1, 1, Some(get_particle(Material::Wood, &mut dice)));
    spark_if_ignited(1, 1, &mut s, &mut dice);
    for (x, y) in [(0, 1), (2, 1), (1, 0), (1, 2)] {
        assert!(s.get(x, y).is_none());
    }
}

#[test]
fn critical_particle_loses_health_and_holds_its_tick() {
    let mut dice = Dice::from_seed(37);
    let sand = with_temperature(get_particle(Material::Sand, &mut dice), 100);
    let mut s = Sandbox::new(3, 3);
    s.set(1, 1, Some(sand));
    assert!(step_temperature(1, 1, &mut s, &mut dice));
    assert_eq!(s.get(1, 1).unwrap().health, 49);
    s.set(1, 1, Some(Particle { health: 1, ..sand }));
    assert!(step_temperature(1, 1, &mut s, &mut dice));
    let glass = s.get(1, 1).unwrap();
    assert_eq!(glass.movement_type, MovementType::Solid);
    assert!(glass.temperature.is_none());
    let calm = get_particle(Material::Sand, &mut dice);
    s.set(1, 1, Some(calm));
    assert!(!step_temperature(1, 1, &mut s, &mut dice));
}

#[test]
fn lava_turns_critical_when_cold() {
    let mut dice = Dice::from_seed(38);
    let lava = with_temperature(get_particle(Material::Lava, &mut dice), 0);
    let mut s = Sandbox::new(3, 3);
    s.set(1, 1, Some(Particle { health: 1, ..lava }));
    assert!(step_temperature(1, 1, &mut s, &mut dice));
    if let Some(p) = s.get(1, 1) {
        assert_eq!(p.movement_type, MovementType::Solid);
        assert_eq!(p.corrodable.unwrap().0, 50);
    }
}

#[test]
fn explosion_scenario() {
    let mut dice = Dice::from_seed(39);
    let mut s = Sandbox::new(30, 30);
    let tnt = get_particle(Material::Tnt, &mut dice);
    let t = tnt.temperature.unwrap();
    let bomb = Particle {
        temperature: Some(Temperature { current: 100, explosion_radius: 2, ..t }),
        ..tnt
    };
    let stone = get_particle(Material::Stone, &mut dice);
    s.set(10, 10, Some(bomb));
    s.set(11, 11, Some(stone));
    let ring = [(13, 10), (13, 14), (6, 6), (10, 7), (14, 12)];
    for (x, y) in ring {
        s.set(x, y, Some(stone));
    }
    s.set(15, 10, Some(stone));
    step_particle(10, 10, &mut s, &mut dice);
    for x in 8..=12 {
        for y in 8..=12 {
            assert!(is_spark(s.get(x, y).unwrap()));
        }
    }
    let expected = [
        Velocity::new(10, 0),
        Velocity::new(6, 8),
        Velocity::new(-7, -7),
        Velocity::new(0, -10),
        Velocity::new(8, 4),
    ];
    for (i, (x, y)) in ring.iter().enumerate() {
        let p = s.get(*x, *y).unwrap();
        assert_eq!(p.movement_type, MovementType::Solid);
        assert_eq!(p.color, stone.color);
        assert_eq!(p.velocity, expected[i]);
        let dx = *x as i32 - 10;
        let dy = *y as i32 - 10;
        assert!(p.velocity.x * dx + p.velocity.y * dy > 0);
    }
    assert_eq!(s.get(15, 10).unwrap().velocity, Velocity::new(0, 0));
    let mut count = 0;
    for x in 0..30 {
        for y in 0..30 {
            if s.get(x, y).is_some() {
                count += 1;
            }
        }
    }
    assert_eq!(count, 25 + ring.len() + 1);
}

#[test]
fn explosion_at_the_corner_stays_in_the_grid() {
    let mut dice = Dice::from_seed(40);
    let mut s = Sandbox::new(4, 4);
    explode(0, 0, 15, &mut s, &mut dice);
    for x in 0..4 {
        for y in 0..4 {
            assert!(is_spark(s.get(x, y).unwrap()));
        }
    }
}
