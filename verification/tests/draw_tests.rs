use std::collections::hash_map::DefaultHasher;
use std::hash::Hash;
use std::hash::Hasher;

use world_map::Color;
use world_map::MapResolution;
use world_map::MapShape;
use world_map::Painter;

fn fresh_painter() -> Painter {
    Painter::new(80, 40, -1800, 1800, -900, 900)
}

fn painted_count(p: &Painter) -> usize {
    let mut count = 0;
    for cy in 0..p.grid_height() {
        for cx in 0..p.grid_width() {
            if p.cell_at(cx, cy).is_some() {
                count += 1;
            }
        }
    }
    count
}

#[test]
fn default() {
    let map = MapShape::default();
    assert_eq!(map.resolution, MapResolution::Low);
    assert_eq!(map.color, Color::Reset);
}

#[test]
fn color_default_is_reset() {
    assert_eq!(Color::default(), Color::Reset);
}

#[test]
fn shapes_compare_and_hash_structurally() {
    let a = MapShape { resolution: MapResolution::High, color: Color::Blue };
    let b = MapShape { resolution: MapResolution::High, color: Color::Blue };
    assert_eq!(a, b);
    assert_ne!(a, MapShape::default());
    let mut ha = DefaultHasher::new();
    a.hash(&mut ha);
    let mut hb = DefaultHasher::new();
    b.hash(&mut hb);
    assert_eq!(ha.finish(), hb.finish());
}

#[test]
fn get_point_maps_known_coordinates() {
    let p = fresh_painter();
    assert_eq!(p.get_point(-1800, 900), Some((0, 0)));
    assert_eq!(p.get_point(1800, -900), Some((79, 39)));
    assert_eq!(p.get_point(0, 0), Some((39, 19)));
    assert_eq!(p.get_point(1801, 0), None);
    assert_eq!(p.get_point(0, -901), None);
    assert_eq!(p.get_point(-2000, 0), None);
}

#[test]
fn paint_overwrites_prior_marks() {
    let mut p = fresh_painter();
    p.paint(3, 4, Color::Red);
    assert_eq!(p.cell_at(3, 4), Some(Color::Red));
    p.paint(3, 4, Color::Blue);
    assert_eq!(p.cell_at(3, 4), Some(Color::Blue));
    assert_eq!(p.cell_at(4, 3), None);
}

#[test]
fn draw_is_deterministic() {
    let shape = MapShape::default();
    let mut p1 = fresh_painter();
    let mut p2 = fresh_painter();
    shape.draw(&mut p1);
    shape.draw(&mut p2);
    assert_eq!(p1, p2);
    assert!(painted_count(&p1) > 0);
}

#[test]
fn draw_is_idempotent() {
    let shape = MapShape { resolution: MapResolution::High, color: Color::Green };
    let mut once = fresh_painter();
    shape.draw(&mut once);
    let mut twice = fresh_painter();
    shape.draw(&mut twice);
    shape.draw(&mut twice);
    assert_eq!(once, twice);
}

#[test]
fn out_of_bounds_points_are_never_painted() {
    let shape = MapShape { resolution: MapResolution::Low, color: Color::White };
    let mut full = fresh_painter();
    shape.draw(&mut full);
    let full_count = painted_count(&full);
    assert!(full_count > 0);

    // A window so small that every dataset point lies outside it: nothing
    // may be painted.
    let mut tiny = Painter::new(80, 40, -1, 1, -1, 1);
    let in_bounds = MapResolution::Low
        .data()
        .iter()
        .filter(|&&(x, y)| -1 <= x && x <= 1 && -1 <= y && y <= 1)
        .count();
    shape.draw(&mut tiny);
    assert_eq!(in_bounds, 0);
    assert_eq!(painted_count(&tiny), 0);
    assert!(painted_count(&tiny) <= full_count);
}

#[test]
fn shrinking_bounds_only_loses_points() {
    // With a shrunken window the painted cells can only come from the
    // points that remain visible, so their count is bounded by the count
    // of those points.
    let shape = MapShape::default();
    let mut half = Painter::new(80, 40, -900, 900, -450, 450);
    shape.draw(&mut half);
    let visible = MapResolution::Low
        .data()
        .iter()
        .filter(|&&(x, y)| -900 <= x && x <= 900 && -450 <= y && y <= 450)
        .count();
    assert!(painted_count(&half) <= visible);
}
