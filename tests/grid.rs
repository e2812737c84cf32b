use falling_sand::catalog::get_particle;
use falling_sand::dice::Dice;
use falling_sand::particle::Material;
use falling_sand::render::render_particles;
use falling_sand::sandbox::Sandbox;
use falling_sand::sandbox::BACKGROUND_COLOR;

fn occupied(s: &Sandbox) -> usize {
    let mut n = 0;
    for x in 0..s.width() {
        for y in 0..s.height() {
            if s.get(x, y).is_some() {
                n += 1;
            }
        }
    }
    n
}

#[test]
fn new_grid_is_empty() {
    let s = Sandbox::new(7, 5);
    assert_eq!(s.width(), 7);
    assert_eq!(s.height(), 5);
    assert_eq!(occupied(&s), 0);
    assert!(s.checked_get(6, 4).is_none());
}

#[test]
fn index_is_row_major() {
    let s = Sandbox::new(7, 5);
    assert_eq!(s.to_index(0, 0), 0);
    assert_eq!(s.to_index(3, 2), 17);
    assert_eq!(s.to_index(6, 4), 34);
}

#[test]
fn bounds_checks() {
    let s = Sandbox::new(4, 3);
    assert!(!s.out_of_bounds_usize(3, 2));
    assert!(s.out_of_bounds_usize(4, 0));
    assert!(s.out_of_bounds_usize(0, 3));
    assert!(s.out_of_bounds_i32(-1, 0));
    assert!(s.out_of_bounds_i32(0, -1));
    assert!(!s.out_of_bounds_i32(0, 0));
    assert!(s.checked_get_i32(-1, 1).is_none());
    assert!(s.checked_get(100, 1).is_none());
}

#[test]
fn set_changes_occupancy_by_at_most_one() {
    let mut dice = Dice::from_seed(1);
    let mut s = Sandbox::new(6, 6);
    let p = get_particle(Material::Stone, &mut dice);
    s.set(2, 3, Some(p));
    assert_eq!(occupied(&s), 1);
    s.set(2, 3, Some(p));
    assert_eq!(occupied(&s), 1);
    s.set(4, 1, Some(p));
    assert_eq!(occupied(&s), 2);
    s.set(2, 3, None);
    assert_eq!(occupied(&s), 1);
    s.set(2, 3, None);
    assert_eq!(occupied(&s), 1);
    assert!(s.get(4, 1).is_some());
    assert!(s.get(2, 3).is_none());
}

#[test]
fn set_outside_grid_is_a_no_op() {
    let mut dice = Dice::from_seed(2);
    let mut s = Sandbox::new(3, 3);
    let p = get_particle(Material::Sand, &mut dice);
    s.set(3, 0, Some(p));
    s.set(0, 3, Some(p));
    s.set(usize::MAX, usize::MAX, Some(p));
    assert_eq!(occupied(&s), 0);
}

#[test]
fn swap_exchanges_contents() {
    let mut dice = Dice::from_seed(3);
    let mut s = Sandbox::new(4, 4);
    let p = get_particle(Material::Stone, &mut dice);
    s.set(1, 1, Some(p));
    s.swap(1, 1, 3, 2);
    assert!(s.get(1, 1).is_none());
    assert_eq!(s.get(3, 2).copied(), Some(p));
    assert_eq!(occupied(&s), 1);
}

#[test]
fn marks_are_set_and_cleared() {
    let mut dice = Dice::from_seed(4);
    let mut s = Sandbox::new(4, 4);
    let p = get_particle(Material::Stone, &mut dice);
    s.set(0, 0, Some(p));
    s.set(2, 2, Some(p));
    s.mark_updated(0, 0);
    s.mark_updated(1, 1);
    assert!(s.get(0, 0).unwrap().updated);
    assert!(!s.get(2, 2).unwrap().updated);
    assert!(s.get(1, 1).is_none());
    s.reset_updated();
    assert!(!s.get(0, 0).unwrap().updated);
    assert_eq!(occupied(&s), 2);
}

#[test]
fn mutable_access_writes_through() {
    let mut dice = Dice::from_seed(5);
    let mut s = Sandbox::new(4, 4);
    s.set(1, 2, Some(get_particle(Material::Stone, &mut dice)));
    s.get_mut(1, 2).unwrap().health = 7;
    assert_eq!(s.get(1, 2).unwrap().health, 7);
    s.checked_get_mut(1, 2).unwrap().health = 9;
    assert_eq!(s.get(1, 2).unwrap().health, 9);
    assert!(s.checked_get_mut(9, 9).is_none());
    assert!(s.get_mut(0, 0).is_none());
}

#[test]
fn color_read_uses_background_for_empty() {
    let mut dice = Dice::from_seed(6);
    let mut s = Sandbox::new(3, 2);
    let p = get_particle(Material::Stone, &mut dice);
    s.set(2, 1, Some(p));
    assert_eq!(s.color(2, 1), p.color);
    assert_eq!(s.color(0, 0), BACKGROUND_COLOR);
    assert_eq!(s.color(5, 5), BACKGROUND_COLOR);
}

#[test]
fn render_writes_rgba_rows() {
    let mut dice = Dice::from_seed(7);
    let mut s = Sandbox::new(3, 2);
    let p = get_particle(Material::Stone, &mut dice);
    s.set(2, 1, Some(p));
    let mut image = vec![0u8; 3 * 2 * 4];
    render_particles(&s, &mut image);
    let i = (2 + 1 * 3) * 4;
    assert_eq!(&image[i..i + 4], &[89, 104, 134, 255]);
    assert_eq!(&image[0..4], &[30, 30, 46, 255]);
    assert_eq!(&image[20..24], &[89, 104, 134, 255]);
}

#[test]
fn empty_grid_ticks_quietly() {
    let mut dice = Dice::from_seed(8);
    let mut s = Sandbox::new(0, 0);
    falling_sand::simulation::update_particles(&mut s, &mut dice);
    assert_eq!(s.width(), 0);
    assert!(s.checked_get(0, 0).is_none());
    let mut t = Sandbox::new(5, 0);
    falling_sand::simulation::update_particles(&mut t, &mut dice);
    assert_eq!(occupied(&t), 0);
}

#[test]
fn render_leaves_extra_bytes_alone() {
    let mut dice = Dice::from_seed(9);
    let mut s = Sandbox::new(2, 1);
    s.set(1, 0, Some(get_particle(Material::Stone, &mut dice)));
    let mut image = vec![7u8; 2 * 4 + 3];
    render_particles(&s, &mut image);
    assert_eq!(&image[0..4], &[30, 30, 46, 255]);
    assert_eq!(&image[4..8], &[89, 104, 134, 255]);
    assert_eq!(&image[8..11], &[7, 7, 7]);
}
