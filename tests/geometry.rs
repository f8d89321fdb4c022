use crossterm::style::Color;
use glyph_engine::geometry::{edge, inside_triangle};
use glyph_engine::line::{rasterize_segment, Line};
use glyph_engine::orientation::Orientation;
use glyph_engine::pixel::Pixel;
use glyph_engine::pos2::Pos2;
use glyph_engine::trig::{cosine, normalize, sine, FULL_TURN, HALF_TURN, QUARTER_TURN, UNIT};
use glyph_engine::vec2::Vec2;

fn v(x: i64, y: i64) -> Vec2<i64> {
    Vec2::new(x, y)
}

fn cells(p: &[Pixel]) -> Vec<(u16, u16)> {
    p.iter().map(|q| (q.x, q.y)).collect()
}

#[test]
fn horizontal_line_has_every_cell() {
    let mut out = Vec::new();
    rasterize_segment(v(0, 0), v(5, 0), Color::White, 0, &mut out, 80, 24);
    assert_eq!(cells(&out), vec![(0, 0), (1, 0), (2, 0), (3, 0), (4, 0), (5, 0)]);
}

#[test]
fn diagonal_line_is_eight_connected() {
    let mut out = Vec::new();
    rasterize_segment(v(0, 0), v(3, 3), Color::White, 0, &mut out, 80, 24);
    assert_eq!(cells(&out), vec![(0, 0), (1, 1), (2, 2), (3, 3)]);
    for w in out.windows(2) {
        let dx = (w[1].x as i32 - w[0].x as i32).abs();
        let dy = (w[1].y as i32 - w[0].y as i32).abs();
        assert!(dx <= 1 && dy <= 1 && dx + dy > 0);
    }
}

#[test]
fn shallow_line_matches_bresenham() {
    let mut out = Vec::new();
    rasterize_segment(v(0, 0), v(4, 2), Color::White, 3, &mut out, 80, 24);
    assert_eq!(cells(&out), vec![(0, 0), (1, 1), (2, 1), (3, 2), (4, 2)]);
    assert!(out.iter().all(|p| p.z_index == 3 && p.glyph == '\u{2588}'));
}

#[test]
fn reversed_line_walks_backwards() {
    let mut out = Vec::new();
    rasterize_segment(v(3, 0), v(0, 0), Color::White, 0, &mut out, 80, 24);
    assert_eq!(cells(&out), vec![(3, 0), (2, 0), (1, 0), (0, 0)]);
}

#[test]
fn single_point_line() {
    let mut out = Vec::new();
    rasterize_segment(v(2, 2), v(2, 2), Color::White, 0, &mut out, 80, 24);
    assert_eq!(cells(&out), vec![(2, 2)]);
}

#[test]
fn cells_outside_the_terminal_are_dropped() {
    let mut out = Vec::new();
    rasterize_segment(v(-2, 1), v(3, 1), Color::White, 0, &mut out, 2, 24);
    assert_eq!(cells(&out), vec![(0, 1), (1, 1)]);
    let mut none = Vec::new();
    rasterize_segment(v(0, 5), v(4, 5), Color::White, 0, &mut none, 80, 5);
    assert!(none.is_empty());
}

#[test]
fn line_midpoint_and_bounding_box() {
    let l = Line::new(Pos2::Absolute(v(1, 1)), Pos2::Absolute(v(5, 3)), Color::Red);
    assert_eq!(l.pos(), Pos2::Absolute(v(3, 2)));
    assert!(l.collides_with_point(v(2, 2)));
    assert!(l.collides_with_point(v(5, 1)));
    assert!(!l.collides_with_point(v(6, 2)));
}

#[test]
fn line_rotates_about_its_midpoint() {
    let mut l = Line::new(Pos2::Absolute(v(-10, 0)), Pos2::Absolute(v(10, 0)), Color::Red);
    l.rotate_about_mid(QUARTER_TURN);
    assert_eq!(l.pos1, Pos2::Absolute(v(0, 10)));
    assert_eq!(l.pos2, Pos2::Absolute(v(0, -10)));
}

#[test]
fn edge_function_sign() {
    assert_eq!(edge(v(0, 0), v(4, 0), v(0, 2)), -8);
    assert_eq!(edge(v(0, 0), v(4, 0), v(2, 0)), 0);
    assert_eq!(edge(v(0, 0), v(4, 0), v(0, -2)), 8);
}

#[test]
fn point_in_triangle() {
    let (a, b, c) = (v(0, 0), v(0, -4), v(4, -4));
    assert!(inside_triangle(a, b, c, v(1, -3)));
    assert!(inside_triangle(a, b, c, v(0, 0)));
    assert!(inside_triangle(a, b, c, v(2, -2)));
    assert!(!inside_triangle(a, b, c, v(3, -1)));
    assert!(!inside_triangle(a, b, c, v(100, 100)));
}

#[test]
fn position_arithmetic() {
    assert_eq!(Pos2::Absolute(v(1, 1)) + Pos2::Relative(v(2, 2)), Pos2::Absolute(v(3, 3)));
    assert_eq!(Pos2::Relative(v(1, 1)) + Pos2::Relative(v(2, 2)), Pos2::Relative(v(3, 3)));
    assert_eq!(Pos2::Relative(v(1, 1)) + Pos2::Absolute(v(2, 2)), Pos2::Absolute(v(3, 3)));
    assert_eq!(Pos2::Absolute(v(5, 5)) - Pos2::Absolute(v(2, 3)), Pos2::Absolute(v(3, 2)));
    assert_eq!(Pos2::Relative(v(5, 5)) - Pos2::Relative(v(2, 3)), Pos2::Relative(v(3, 2)));
    assert_eq!(Pos2::Relative(v(1, 1)) + v(2, 3), Pos2::Relative(v(3, 4)));
    assert_eq!(Pos2::Absolute(v(1, 1)) - v(2, 3), Pos2::Absolute(v(-1, -2)));
    assert_eq!(Pos2::Relative(v(2, -3)).mul_scalar(2), Pos2::Relative(v(4, -6)));
    assert_eq!(Pos2::from(v(7, 8)), Pos2::Absolute(v(7, 8)));
}

#[test]
fn position_retagging() {
    assert_eq!(Pos2::Absolute(v(11, 12)).to_relative(v(10, 10)), Pos2::Relative(v(1, 2)));
    assert_eq!(Pos2::Relative(v(1, 2)).to_relative(v(10, 10)), Pos2::Relative(v(1, 2)));
    assert_eq!(Pos2::Relative(v(1, 2)).to_absolute(v(10, 10)), Pos2::Absolute(v(11, 12)));
    assert_eq!(Pos2::Absolute(v(1, 2)).to_absolute(v(10, 10)), Pos2::Absolute(v(1, 2)));
    assert_eq!(Pos2::Relative(v(4, 5)).vec(), v(4, 5));
}

#[test]
fn vector_algebra() {
    let a = v(3, 4);
    let b = v(-2, 5);
    assert_eq!(a.dot(b), 14);
    assert_eq!(a.cross(b), 23);
    assert_eq!(a + b, v(1, 9));
    assert_eq!(a - b, v(5, -1));
    assert_eq!(a * b, v(-6, 20));
    assert_eq!(a.add_scalar(2), v(5, 6));
    assert_eq!(a.sub_scalar(2), v(1, 2));
    assert_eq!(a.mul_scalar(-3), v(-9, -12));
    assert_eq!(v(7, -7).div_scalar(2), v(3, -3));
    assert_eq!(v(7, -7).div_scalar(-2), v(-3, 3));
    assert_eq!(Vec2::<i64>::zero(), v(0, 0));
    assert_eq!(Vec2::splat(4i64), v(4, 4));
    assert_eq!(a.swapped(), v(4, 3));
    let mut c = a;
    c.swap();
    assert_eq!(c, v(4, 3));
}

#[test]
fn screen_space_rotation() {
    assert_eq!(v(10, 0).rotate(0), v(10, 0));
    assert_eq!(v(10, 0).rotate(QUARTER_TURN), v(0, -10));
    assert_eq!(v(0, 10).rotate(QUARTER_TURN), v(10, 0));
    assert_eq!(v(10, 0).rotate(HALF_TURN), v(-10, 0));
}

#[test]
fn fixed_point_trigonometry() {
    assert_eq!(sine(0), 0);
    assert_eq!(sine(QUARTER_TURN), UNIT);
    assert!((sine(30_000) - UNIT / 2).abs() <= 2);
    assert_eq!(sine(-QUARTER_TURN), -UNIT);
    assert_eq!(sine(HALF_TURN), 0);
    assert_eq!(cosine(0), UNIT);
    assert_eq!(cosine(HALF_TURN), -UNIT);
    assert!((cosine(60_000) - UNIT / 2).abs() <= 2);
    assert_eq!(normalize(-90_000), 270_000);
    assert_eq!(normalize(FULL_TURN + 5), 5);
    for d in (0..360_000).step_by(997) {
        let a = d as f64 * std::f64::consts::PI / 180_000.0;
        let s = sine(d) as f64 / UNIT as f64;
        let c = cosine(d) as f64 / UNIT as f64;
        assert!((s - a.sin()).abs() < 1e-8, "sine of {} degrees", d);
        assert!((c - a.cos()).abs() < 1e-8, "cosine of {} degrees", d);
    }
}

#[test]
fn orientation_angles_and_opposites() {
    assert_eq!(Orientation::Up.to_angle(), 0);
    assert_eq!(Orientation::Down.to_angle(), HALF_TURN);
    assert_eq!(Orientation::Left.to_angle(), QUARTER_TURN);
    assert_eq!(Orientation::Right.to_angle(), 3 * QUARTER_TURN);
    assert_eq!(Orientation::Custom(1234).to_angle(), 1234);
    assert_eq!(Orientation::Up.opposite(), Orientation::Down);
    assert_eq!(Orientation::Down.opposite(), Orientation::Up);
    assert_eq!(Orientation::Left.opposite(), Orientation::Right);
    assert_eq!(Orientation::Right.opposite(), Orientation::Left);
    assert_eq!(Orientation::Custom(10_000).opposite(), Orientation::Custom(190_000));
    assert_eq!(Orientation::Custom(200_000).opposite(), Orientation::Custom(20_000));
    assert_eq!(Orientation::Custom(-400_000).opposite(), Orientation::Custom(-220_000));
}

#[test]
fn division_truncates_toward_zero() {
    assert_eq!(v(7, -7) / v(2, 2), v(3, -3));
    assert_eq!(v(7, -7) / v(-2, -2), v(-3, 3));
    assert_eq!(v(i64::MIN, 5) / v(i64::MIN, i64::MIN), v(1, 0));
    assert_eq!(Pos2::Relative(v(9, -9)).div_scalar(4), Pos2::Relative(v(2, -2)));
    assert_eq!(Pos2::Absolute(v(9, -9)).div_scalar(-4), Pos2::Absolute(v(-2, 2)));
}

#[test]
fn rotation_there_and_back_is_nearly_exact() {
    let w = v(1_000_000_000_000, 0).rotate(45_000).rotate(-45_000);
    assert!((w.x - 1_000_000_000_000).abs() <= 10_000);
    assert!(w.y.abs() <= 10_000);
    let l = v(100_000_000, 0).rotate(45_000);
    let len2 = (l.x as i128) * (l.x as i128) + (l.y as i128) * (l.y as i128);
    let want = 100_000_000i128 * 100_000_000i128;
    assert!((len2 - want).abs() * 1_000_000 <= want);
}

#[test]
fn moving_a_line_keeps_its_shape() {
    let mut l = Line::new(Pos2::Absolute(v(1, 1)), Pos2::Absolute(v(5, 3)), Color::Red);
    l.set_pos(Pos2::Absolute(v(10, 10)));
    assert_eq!(l.pos1, Pos2::Absolute(v(8, 9)));
    assert_eq!(l.pos2, Pos2::Absolute(v(12, 11)));
    assert_eq!(l.pos(), Pos2::Absolute(v(10, 10)));
}

#[test]
fn division_by_the_smallest_integer() {
    assert_eq!(v(i64::MIN, 5).div_scalar(i64::MIN), v(1, 0));
    assert_eq!(Pos2::Relative(v(i64::MIN, -7)).div_scalar(i64::MIN), Pos2::Relative(v(1, 0)));
}
