use bevy_cards::geometry::{contains_strictly, Aabb2d, HalfSize, Vec2};
use bevy_cards::slots::raise;

fn boxed(cx: i32, cy: i32, w: i32, h: i32) -> Aabb2d {
    Aabb2d::new(Vec2::new(cx, cy), HalfSize { twice: Vec2::new(w, h) })
}

#[test]
fn vec2_new_sets_both_coordinates() {
    assert_eq!(Vec2::new(3, -4), Vec2 { x: 3, y: -4 });
}

#[test]
fn aabb_new_keeps_centre_and_half_size() {
    let aabb = boxed(1, 2, 3, 4);
    assert_eq!(aabb.center, Vec2::new(1, 2));
    assert_eq!(aabb.half_size, HalfSize { twice: Vec2::new(3, 4) });
}

#[test]
fn boxes_that_touch_intersect() {
    // [-5, 5] and [5, 15] along x share the line x = 5
    let a = boxed(0, 0, 10, 10);
    let b = boxed(10, 0, 10, 10);
    assert!(a.intersects(&b));
    assert!(b.intersects(&a));
    // corners that touch
    let c = boxed(10, 10, 10, 10);
    assert!(a.intersects(&c));
    // one unit further apart they do not
    let d = boxed(11, 0, 10, 10);
    assert!(!a.intersects(&d));
    assert!(!d.intersects(&a));
    let e = boxed(0, -11, 10, 10);
    assert!(!a.intersects(&e));
}

#[test]
fn boxes_touch_on_half_units() {
    // widths 5 and 3: half widths 2.5 and 1.5 meet exactly at distance 4
    let a = boxed(0, 0, 5, 5);
    assert!(a.intersects(&boxed(4, 0, 3, 3)));
    assert!(!a.intersects(&boxed(5, 0, 3, 3)));
    assert!(a.intersects(&boxed(0, -4, 3, 3)));
    assert!(!a.intersects(&boxed(0, -5, 3, 3)));
}

#[test]
fn box_inside_another_intersects_it() {
    let outer = boxed(0, 0, 100, 100);
    let inner = boxed(10, -10, 2, 2);
    assert!(outer.intersects(&inner));
    assert!(inner.intersects(&outer));
    assert!(outer.intersects(&outer));
}

#[test]
fn edge_is_outside_for_a_pointer_and_inside_for_a_box() {
    let half = HalfSize { twice: Vec2::new(100, 100) };
    let center = Vec2::new(0, 0);
    let on_edge = Vec2::new(50, 0);
    assert!(!contains_strictly(center, half, on_edge));
    // a box without extent at the same point touches the box of that size
    let object = Aabb2d::new(center, half);
    let point = Aabb2d::new(on_edge, HalfSize { twice: Vec2::new(0, 0) });
    assert!(object.intersects(&point));
}

#[test]
fn contains_strictly_on_all_four_sides() {
    let half = HalfSize { twice: Vec2::new(4, 6) };
    let center = Vec2::new(10, 20);
    assert!(contains_strictly(center, half, Vec2::new(10, 20)));
    assert!(contains_strictly(center, half, Vec2::new(9, 18)));
    assert!(contains_strictly(center, half, Vec2::new(11, 22)));
    assert!(!contains_strictly(center, half, Vec2::new(8, 20)));
    assert!(!contains_strictly(center, half, Vec2::new(12, 20)));
    assert!(!contains_strictly(center, half, Vec2::new(10, 17)));
    assert!(!contains_strictly(center, half, Vec2::new(10, 23)));
}

#[test]
fn intersects_at_the_ends_of_the_grid() {
    let a = boxed(i32::MAX, i32::MAX, i32::MAX, i32::MAX);
    let b = boxed(i32::MIN, i32::MIN, i32::MAX, i32::MAX);
    assert!(!a.intersects(&b));
    assert!(a.intersects(&a));
    // twice the greatest x of `c` and twice the least x of `a` are both i32::MAX
    let c = boxed(0, 0, i32::MAX, i32::MAX);
    assert!(c.intersects(&a));
    assert!(!boxed(-1, 0, i32::MAX, i32::MAX).intersects(&a));
    assert!(boxed(i32::MAX, 0, i32::MAX, 1).intersects(&boxed(i32::MAX - 1, 0, 1, 1)));
}

#[test]
fn raise_stops_at_the_ends() {
    assert_eq!(raise(0, 1), 1);
    assert_eq!(raise(-5, 2), -3);
    assert_eq!(raise(i32::MAX, 1), i32::MAX);
    assert_eq!(raise(i32::MAX - 1, 2), i32::MAX);
    assert_eq!(raise(i32::MIN, -1), i32::MIN);
    assert_eq!(raise(i32::MIN, 1), i32::MIN + 1);
}
