use falling_sand::catalog::get_particle;
use falling_sand::dice::Dice;
use falling_sand::movement::apply_gravity;
use falling_sand::movement::resolve_candidate;
use falling_sand::movement::step_movement;
use falling_sand::movement::StepData;
use falling_sand::particle::Material;
use falling_sand::particle::MovementType;
use falling_sand::particle::Particle;
use falling_sand::particle::Velocity;
use falling_sand::sandbox::Sandbox;

fn at_rest(m: Material, dice: &mut Dice) -> Particle {
    let p = get_particle(m, dice);
    Particle { velocity: Velocity::new(0, 0), ..p }
}

fn gravity_of(p: Particle) -> Velocity {
    let mut s = Sandbox::new(3, 3);
    s.set(1, 1, Some(p));
    apply_gravity(1, 1, &mut s);
    s.get(1, 1).unwrap().velocity
}

#[test]
fn zero_out_x_damps_toward_zero() {
    let mut v = Velocity::new(3, 7);
    v.zero_out_x();
    assert_eq!(v, Velocity::new(2, 7));
    let mut v = Velocity::new(-1, 0);
    v.zero_out_x();
    assert_eq!(v, Velocity::new(0, 0));
    v.zero_out_x();
    assert_eq!(v, Velocity::new(0, 0));
}

#[test]
fn gravity_sign_by_kind() {
    let mut dice = Dice::from_seed(21);
    let sand = get_particle(Material::Sand, &mut dice);
    let water = get_particle(Material::Water, &mut dice);
    let steam = get_particle(Material::Steam, &mut dice);
    let stone = get_particle(Material::Stone, &mut dice);
    let v = Velocity::new(2, -2);
    assert_eq!(gravity_of(Particle { velocity: v, ..sand }), Velocity::new(1, -3));
    assert_eq!(gravity_of(Particle { velocity: v, ..water }), Velocity::new(1, -3));
    assert_eq!(gravity_of(Particle { velocity: Velocity::new(-2, 5), ..steam }), Velocity::new(-1, 6));
    assert_eq!(gravity_of(Particle { velocity: Velocity::new(3, 3), ..stone }), Velocity::new(3, 3));
    assert_eq!(
        gravity_of(Particle { velocity: v, use_gravity: false, ..sand }),
        Velocity::new(2, -2)
    );
}

#[test]
fn gravity_repeats_one_unit_per_tick() {
    let mut dice = Dice::from_seed(22);
    let sand = get_particle(Material::Sand, &mut dice);
    let mut s = Sandbox::new(3, 3);
    s.set(1, 1, Some(Particle { velocity: Velocity::new(-3, 0), ..sand }));
    for tick in 1..=5 {
        apply_gravity(1, 1, &mut s);
        let v = s.get(1, 1).unwrap().velocity;
        assert_eq!(v.y, -tick);
        assert_eq!(v.x, (-3 + tick).min(0));
    }
}

#[test]
fn resolve_prefers_moves_then_lighter_blockers() {
    let mut dice = Dice::from_seed(23);
    let water = get_particle(Material::Water, &mut dice);
    let blocked = StepData {
        new_x: 1,
        new_y: 1,
        moved: false,
        other_particle: Some(water),
        other_x: 1,
        other_y: 0,
        swap: false,
    };
    let swapped = resolve_candidate(blocked, 5).unwrap();
    assert!(swapped.swap);
    assert_eq!(swapped.other_y, 0);
    assert!(resolve_candidate(blocked, 1).is_none());
    assert!(resolve_candidate(blocked, 0).is_none());
    let moved = StepData { moved: true, ..blocked };
    assert_eq!(resolve_candidate(moved, 0), Some(moved));
    let nothing = StepData { other_particle: None, ..blocked };
    assert!(resolve_candidate(nothing, u32::MAX).is_none());
}

#[test]
fn heavy_powder_swaps_with_lighter_liquid_below() {
    let mut dice = Dice::from_seed(24);
    let sand = at_rest(Material::Sand, &mut dice);
    let water = at_rest(Material::Water, &mut dice);
    let mut s = Sandbox::new(10, 10);
    s.set(5, 5, Some(sand));
    s.set(5, 4, Some(water));
    step_movement(5, 5, &mut s, &mut dice);
    let below = s.get(5, 4).unwrap();
    assert_eq!(below.movement_type, MovementType::Powder);
    assert!(below.updated);
    let above = s.get(5, 5).unwrap();
    assert_eq!(above.movement_type, MovementType::Liquid);
    assert!(above.updated);
}

#[test]
fn light_liquid_never_displaces_heavier_powder() {
    let mut dice = Dice::from_seed(25);
    for seed in 0..20 {
        let mut dice2 = Dice::from_seed(seed);
        let water = at_rest(Material::Water, &mut dice);
        let sand = at_rest(Material::Sand, &mut dice);
        let mut s = Sandbox::new(10, 10);
        s.set(5, 5, Some(water));
        s.set(5, 4, Some(sand));
        step_movement(5, 5, &mut s, &mut dice2);
        assert_eq!(s.get(5, 4).unwrap().movement_type, MovementType::Powder);
    }
}

#[test]
fn free_fall_moves_one_cell() {
    let mut dice = Dice::from_seed(26);
    let sand = at_rest(Material::Sand, &mut dice);
    let mut s = Sandbox::new(10, 10);
    s.set(5, 5, Some(sand));
    step_movement(5, 5, &mut s, &mut dice);
    assert!(s.get(5, 5).is_none());
    let p = s.get(5, 4).unwrap();
    assert!(p.updated);
    assert_eq!(p.velocity, Velocity::new(0, -1));
}

#[test]
fn powder_on_the_floor_comes_to_rest() {
    let mut dice = Dice::from_seed(27);
    let sand = at_rest(Material::Sand, &mut dice);
    let mut s = Sandbox::new(10, 10);
    s.set(5, 0, Some(sand));
    step_movement(5, 0, &mut s, &mut dice);
    let p = s.get(5, 0).unwrap();
    assert_eq!(p.velocity, Velocity::new(0, 0));
    assert!(!p.updated);
}

#[test]
fn solids_never_move() {
    let mut dice = Dice::from_seed(28);
    let stone = get_particle(Material::Stone, &mut dice);
    let mut s = Sandbox::new(10, 10);
    s.set(5, 5, Some(Particle { velocity: Velocity::new(4, -4), ..stone }));
    step_movement(5, 5, &mut s, &mut dice);
    let p = s.get(5, 5).unwrap();
    assert_eq!(p.velocity, Velocity::new(0, 0));
    assert_eq!(p.movement_type, MovementType::Solid);
}

#[test]
fn liquid_spreads_sideways_on_the_floor() {
    let mut dice = Dice::from_seed(29);
    let water = at_rest(Material::Water, &mut dice);
    let mut s = Sandbox::new(20, 5);
    s.set(10, 0, Some(water));
    step_movement(10, 0, &mut s, &mut dice);
    assert!(s.get(10, 0).is_none());
    let mut found = None;
    for x in 0..20 {
        if s.get(x, 0).is_some() {
            found = Some(x);
        }
    }
    let x = found.unwrap();
    assert!(x != 10);
    assert!(x >= 7 && x <= 13);
}

#[test]
fn fast_fall_covers_the_whole_line() {
    let mut dice = Dice::from_seed(30);
    let sand = get_particle(Material::Sand, &mut dice);
    let mut s = Sandbox::new(10, 10);
    s.set(4, 8, Some(Particle { velocity: Velocity::new(0, -5), ..sand }));
    step_movement(4, 8, &mut s, &mut dice);
    assert_eq!(s.get(4, 2).unwrap().velocity, Velocity::new(0, -6));
}

#[test]
fn fall_stops_above_an_obstacle() {
    let mut dice = Dice::from_seed(31);
    let sand = get_particle(Material::Sand, &mut dice);
    let stone = get_particle(Material::Stone, &mut dice);
    let mut s = Sandbox::new(10, 10);
    s.set(4, 8, Some(Particle { velocity: Velocity::new(0, -5), ..sand }));
    s.set(4, 3, Some(stone));
    step_movement(4, 8, &mut s, &mut dice);
    assert!(s.get(4, 4).unwrap().updated);
    assert!(s.get(4, 8).is_none());
    assert_eq!(s.get(4, 3).unwrap().movement_type, MovementType::Solid);
}

#[test]
fn gas_drifts_along_its_velocity() {
    let mut dice = Dice::from_seed(32);
    let steam = get_particle(Material::Steam, &mut dice);
    let mut s = Sandbox::new(10, 10);
    s.set(2, 2, Some(Particle { velocity: Velocity::new(3, -1), ..steam }));
    step_movement(2, 2, &mut s, &mut dice);
    let p = s.get(4, 2).unwrap();
    assert_eq!(p.velocity, Velocity::new(2, 0));
    assert!(s.get(2, 2).is_none());
}

#[test]
fn shallow_line_rounds_its_minor_axis() {
    let mut dice = Dice::from_seed(33);
    let steam = get_particle(Material::Steam, &mut dice);
    let mut s = Sandbox::new(12, 12);
    s.set(1, 1, Some(Particle { velocity: Velocity::new(5, 1), ..steam }));
    step_movement(1, 1, &mut s, &mut dice);
    assert!(s.get(5, 3).is_some());
    assert_eq!(s.get(5, 3).unwrap().velocity, Velocity::new(4, 2));
}

#[test]
fn equal_density_never_swaps() {
    let mut dice = Dice::from_seed(34);
    let upper = at_rest(Material::Sand, &mut dice);
    let lower = at_rest(Material::Ash, &mut dice);
    let mut s = Sandbox::new(1, 2);
    s.set(0, 1, Some(upper));
    s.set(0, 0, Some(lower));
    step_movement(0, 1, &mut s, &mut dice);
    assert_eq!(s.get(0, 0).unwrap().color, lower.color);
    assert_eq!(s.get(0, 1).unwrap().velocity, Velocity::new(0, 0));
}
