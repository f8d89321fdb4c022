use crossterm::style::Color;
use glyph_engine::buffer::FrameBuffer;
use glyph_engine::circle::Circle;
use glyph_engine::line::Line;
use glyph_engine::orientation::Orientation;
use glyph_engine::pixel::Pixel;
use glyph_engine::pos2::Pos2;
use glyph_engine::rectangle::Rectangle;
use glyph_engine::shape::{rasterize_all, resolve_pos, sort_by_z, Shape};
use glyph_engine::triangle::{Triangle, TriangleVertices};
use glyph_engine::trig::{sine, FULL_TURN, UNIT};
use glyph_engine::ui::TextStyle;
use glyph_engine::vec2::Vec2;

fn v(x: i64, y: i64) -> Vec2<i64> {
    Vec2::new(x, y)
}

fn abs(x: i64, y: i64) -> Pos2 {
    Pos2::Absolute(v(x, y))
}

fn corners(t: &Triangle) -> [Vec2<i64>; 3] {
    t.vertices.to_arr()
}

#[test]
fn triangle_starts_with_model_corners() {
    let t = Triangle::new(abs(20, 20), Orientation::Up, v(2, 3), Color::Blue);
    assert_eq!(corners(&t), [v(-2, 3), v(-2, -3), v(2, -3)]);
    assert_eq!(t.pos(), abs(20, 20));
    assert_eq!(t.z_index(), 0);
    assert_eq!(t.lines.len(), 3);
}

#[test]
fn triangle_update_places_stretched_corners() {
    let mut t = Triangle::new(abs(20, 20), Orientation::Up, v(2, 2), Color::Blue);
    t.update();
    assert_eq!(corners(&t), [v(15, 18), v(15, 22), v(24, 22)]);
    let keys: Vec<i64> = t.lines.iter().map(|l| l.pos1.vec().y + l.pos2.vec().y).collect();
    assert_eq!(keys, vec![40, 40, 44]);
    assert_eq!(t.lines[0].pos1, abs(15, 18));
    assert_eq!(t.lines[1].pos1, abs(24, 22));
    assert_eq!(t.lines[2].pos1, abs(15, 22));
}

#[test]
fn triangle_update_turned_a_quarter() {
    let mut t = Triangle::new(abs(20, 20), Orientation::Left, v(2, 2), Color::Blue);
    t.update();
    assert_eq!(corners(&t), [v(24, 18), v(15, 18), v(15, 22)]);
}

#[test]
fn point_inside_updated_triangle_collides() {
    let mut t = Triangle::new(abs(20, 20), Orientation::Up, v(2, 2), Color::Blue);
    t.update();
    assert!(t.collides_with_point(v(18, 21)));
    assert!(!t.collides_with_point(v(100, 100)));
    let shape = Shape::Triangle(t);
    let near = Shape::Line(Line::new(abs(17, 21), abs(19, 21), Color::Red));
    let far = Shape::Line(Line::new(abs(99, 100), abs(101, 100), Color::Red));
    assert!(shape.collides_with(&near));
    assert!(!shape.collides_with(&far));
}

#[test]
fn rotation_there_and_back_restores_corners() {
    let mut a = Triangle::new(abs(30, 15), Orientation::Custom(12_345), v(4, 3), Color::Blue);
    let mut b = a.clone();
    a.update();
    b.rotate(77_777);
    b.update();
    assert_ne!(corners(&a), corners(&b));
    b.rotate(-77_777);
    b.update();
    assert_eq!(corners(&a), corners(&b));
    b.rotate_to(12_345);
    b.update();
    assert_eq!(corners(&a), corners(&b));
}

#[test]
fn triangle_fill_is_row_major_and_clipped() {
    let mut t = Triangle::new(abs(20, 20), Orientation::Up, v(2, 2), Color::Blue);
    t.update();
    let mut out: Vec<Pixel> = Vec::new();
    t.rasterize(&mut out, 80, 24);
    assert_eq!(out.len(), 26);
    assert_eq!((out[0].x, out[0].y), (15, 18));
    assert_eq!((out[1].x, out[1].y), (15, 19));
    assert_eq!((out[2].x, out[2].y), (16, 19));
    for w in out.windows(2) {
        assert!((w[0].y, w[0].x) < (w[1].y, w[1].x));
    }
    assert!(out.iter().any(|p| (p.x, p.y) == (18, 21)));
    assert!(!out.iter().any(|p| (p.x, p.y) == (23, 18)));
    assert!(out.iter().all(|p| p.x >= 15 && p.x <= 24 && p.y >= 18 && p.y <= 22));
    let mut clipped: Vec<Pixel> = Vec::new();
    t.rasterize(&mut clipped, 20, 20);
    assert!(clipped.iter().all(|p| p.x < 20 && p.y < 20));
    assert!(clipped.len() < out.len());
}

#[test]
fn shapes_sorted_by_z_keep_ties_in_order() {
    let mut shapes = Vec::new();
    for (i, z) in [0, 10, 20, -10, 10].iter().enumerate() {
        let mut l = Line::new(abs(i as i64, 0), abs(i as i64, 4), Color::White);
        l.z_index = *z;
        shapes.push(Shape::Line(l));
    }
    let sorted = sort_by_z(shapes);
    let zs: Vec<i32> = sorted.iter().map(|s| s.z_index()).collect();
    assert_eq!(zs, vec![-10, 0, 10, 10, 20]);
    let xs: Vec<i64> = sorted.iter().map(|s| s.pos().vec().x).collect();
    assert_eq!(xs, vec![3, 0, 1, 4, 2]);
}

#[test]
fn child_line_is_placed_under_its_rectangle() {
    let mut rect = Rectangle::new(abs(10, 10), v(3, 2), Color::Green);
    let line = Line::new(abs(1, 1), abs(3, 3), Color::Red);
    assert_eq!(line.pos(), abs(2, 2));
    rect.push(Shape::Line(line));
    rect.update();
    match &rect.children[0] {
        Shape::Line(l) => {
            assert_eq!(l.center, abs(12, 12));
            assert_eq!(l.pos(), abs(2, 2));
            let mut out = Vec::new();
            l.rasterize(&mut out, 80, 24);
            let cells: Vec<(u16, u16)> = out.iter().map(|p| (p.x, p.y)).collect();
            assert_eq!(cells, vec![(11, 11), (12, 12), (13, 13)]);
        }
        _ => panic!("child changed kind"),
    }
}

#[test]
fn nested_rectangles_resolve_step_by_step() {
    let mut outer = Rectangle::new(abs(10, 10), v(3, 2), Color::Green);
    let mut inner = Rectangle::new(Pos2::Relative(v(5, 0)), v(1, 1), Color::Red);
    inner.push(Shape::Triangle(Triangle::new(Pos2::Relative(v(0, 3)), Orientation::Up, v(1, 1), Color::Blue)));
    outer.push(Shape::Rectangle(inner));
    outer.update();
    outer.update();
    match &outer.children[0] {
        Shape::Rectangle(r) => {
            assert_eq!(r.pos, abs(15, 10));
            assert_eq!(r.pos(), Pos2::Relative(v(5, 0)));
            match &r.children[0] {
                Shape::Triangle(t) => {
                    assert_eq!(t.center, abs(15, 13));
                    assert_eq!(t.local_center, Pos2::Relative(v(0, 3)));
                }
                _ => panic!("grandchild changed kind"),
            }
        }
        _ => panic!("child changed kind"),
    }
}

#[test]
fn children_are_updated_in_z_order() {
    let mut rect = Rectangle::new(abs(0, 0), v(1, 1), Color::Green);
    for (i, z) in [5, -1, 5, 0].iter().enumerate() {
        let mut t = Triangle::new(abs(i as i64, 0), Orientation::Up, v(1, 1), Color::Blue);
        t.z_index = *z;
        rect.push(Shape::Triangle(t));
    }
    rect.update();
    let order: Vec<(i32, i64)> = rect.children.iter().map(|c| (c.z_index(), c.pos().vec().x)).collect();
    assert_eq!(order, vec![(-1, 1), (0, 3), (5, 0), (5, 2)]);
}

#[test]
fn resolved_positions_add_up() {
    assert_eq!(resolve_pos(abs(9_999_999, 0), abs(5, -3)), abs(10_000_004, -3));
    assert_eq!(resolve_pos(Pos2::Relative(v(1, 1)), Pos2::Relative(v(2, 2))), Pos2::Relative(v(3, 3)));
    assert_eq!(resolve_pos(abs(10, 10), Pos2::Relative(v(2, 2))), abs(12, 12));
}

#[test]
fn rectangle_halves_and_collision() {
    let mut rect = Rectangle::new(abs(20, 10), v(4, 2), Color::Green);
    assert_eq!(rect.size, v(2, 4));
    assert_eq!(rect.orientation, Orientation::Left);
    rect.update();
    assert_eq!(rect.triangles[0].orientation, Orientation::Left);
    assert_eq!(rect.triangles[1].orientation, Orientation::Right);
    assert!(rect.collides_with_point(v(20, 10)));
    assert!(rect.collides_with_point(v(16, 11)));
    assert!(!rect.collides_with_point(v(40, 10)));
    let shape = Shape::Rectangle(rect);
    let probe = Shape::Triangle(Triangle::new(abs(21, 10), Orientation::Up, v(1, 1), Color::Red));
    assert!(shape.collides_with(&probe));
}

#[test]
fn rectangle_draws_halves_then_children() {
    let mut rect = Rectangle::new(abs(20, 10), v(4, 2), Color::Green);
    rect.push(Shape::Line(Line::new(abs(0, 0), abs(2, 0), Color::Red)));
    rect.update();
    let shape = Shape::Rectangle(rect);
    let mut out = Vec::new();
    shape.rasterize(&mut out, 80, 24);
    let n = out.len();
    assert!(n > 3);
    let tail: Vec<(u16, u16, Color)> = out[n - 3..].iter().map(|p| (p.x, p.y, p.color)).collect();
    assert_eq!(tail, vec![(20, 10, Color::Red), (21, 10, Color::Red), (22, 10, Color::Red)]);
    assert!(out[..n - 3].iter().all(|p| p.color == Color::Green));
}

#[test]
fn rotating_a_shape_changes_its_facing() {
    let mut s = Shape::Rectangle(Rectangle::new(abs(20, 10), v(4, 2), Color::Green));
    assert_eq!(s.orientation(), Orientation::Left);
    s.rotate(1_000);
    assert_eq!(s.orientation(), Orientation::Custom(91_000));
    s.rotate_to(5);
    assert_eq!(s.orientation(), Orientation::Custom(5));
    s.set_orientation(Orientation::Down);
    assert_eq!(s.orientation(), Orientation::Down);
    assert_eq!(s.local_to_parent(Pos2::Relative(v(1, 2))), abs(21, 12));
    assert_eq!(s.parent_to_local(abs(21, 12)), abs(1, 2));
}

#[test]
fn circle_wedges_tile_the_turn() {
    let c = Circle::new(abs(40, 12), 10, 8, Color::Yellow);
    assert_eq!(c.triangles.len(), 8);
    assert_eq!(c.z_index(), 0);
    assert_eq!(c.pos(), abs(40, 12));
    let expected_base = 2 * 10 * sine(FULL_TURN / 16) / UNIT;
    assert_eq!(expected_base, 7);
    let exact = 2.0 * 10.0 * (std::f64::consts::PI / 8.0).sin();
    assert!((expected_base as f64 - exact).abs() < 1.0);
    for (i, t) in c.triangles.iter().enumerate() {
        assert_eq!(t.orientation, Orientation::Custom(i as i64 * 45_000));
        assert_eq!(t.base_vertices.top_left, v(-10, expected_base));
        assert_eq!(t.base_vertices.bottom_right, v(10, -expected_base));
    }
    for w in c.triangles.windows(2) {
        match (w[0].orientation, w[1].orientation) {
            (Orientation::Custom(a), Orientation::Custom(b)) => assert_eq!(b - a, FULL_TURN / 8),
            _ => panic!("sectors face custom angles"),
        }
    }
}

#[test]
fn circle_collision_and_clone() {
    let mut c = Circle::new(abs(40, 12), 5, 6, Color::Yellow);
    assert!(c.collides_with_point(v(43, 16)));
    assert!(!c.collides_with_point(v(44, 16)));
    c.update();
    let d = c.clone();
    assert_eq!(d.color, Color::Yellow);
    assert_eq!(d.triangles.len(), 6);
    assert_eq!(d.triangles[3].vertices, c.triangles[3].vertices);
    let mut a = Vec::new();
    let mut b = Vec::new();
    c.rasterize(&mut a, 80, 24);
    d.rasterize(&mut b, 80, 24);
    assert_eq!(a.len(), b.len());
    assert!(!a.is_empty());
}

#[test]
fn scene_rasterizes_in_given_order() {
    let shapes = vec![
        Shape::Line(Line::new(abs(0, 0), abs(1, 0), Color::Red)),
        Shape::Line(Line::new(abs(0, 1), abs(0, 2), Color::Blue)),
    ];
    let mut out = Vec::new();
    rasterize_all(&shapes, &mut out, 80, 24);
    let cells: Vec<(u16, u16)> = out.iter().map(|p| (p.x, p.y)).collect();
    assert_eq!(cells, vec![(0, 0), (1, 0), (0, 1), (0, 2)]);
}

#[test]
fn frame_buffer_cells() {
    let mut fb = FrameBuffer::new(3, 2);
    assert_eq!(fb.data, vec![b' '; 6]);
    fb.set_pixel(1, 1, '#');
    fb.set_pixel(5, 0, '#');
    fb.set_pixel(0, 7, '#');
    assert_eq!(fb.render(), vec![b"   ".to_vec(), b" # ".to_vec()]);
}

#[test]
fn text_style_holds_its_values() {
    let s = TextStyle::new(12, Color::White, Color::Black);
    assert_eq!(s.font_size, 12);
    assert_eq!(s.fg_color, Color::White);
    assert_eq!(s.bg_color, Color::Black);
}

#[test]
fn deep_copy_draws_the_same() {
    let mut rect = Rectangle::new(abs(20, 10), v(4, 2), Color::Green);
    let mut inner = Rectangle::new(Pos2::Relative(v(3, 1)), v(1, 1), Color::Red);
    inner.push(Shape::Circle(Circle::new(Pos2::Relative(v(0, 2)), 2, 4, Color::Blue)));
    rect.push(Shape::Rectangle(inner));
    rect.push(Shape::Line(Line::new(abs(0, 0), abs(2, 1), Color::White)));
    let mut first = Shape::Rectangle(rect);
    first.update();
    let copy = first.box_clone();
    let mut a = Vec::new();
    let mut b = Vec::new();
    first.rasterize(&mut a, 80, 24);
    copy.rasterize(&mut b, 80, 24);
    assert!(!a.is_empty());
    let key = |p: &Pixel| (p.x, p.y, p.color, p.z_index);
    assert_eq!(a.iter().map(key).collect::<Vec<_>>(), b.iter().map(key).collect::<Vec<_>>());
    assert_eq!(copy.pos(), first.pos());
    assert_eq!(copy.z_index(), first.z_index());
}

#[test]
fn right_triangle_contains_its_centroid() {
    let base = TriangleVertices::from([v(0, 0), v(0, -4), v(4, -4)]);
    let mut t = Triangle::new(abs(10, 10), Orientation::Up, v(1, 1), Color::Blue);
    t.base_vertices = base;
    t.vertices = base;
    t.update();
    assert_eq!(corners(&t), [v(10, 10), v(10, 14), v(18, 14)]);
    assert!(t.collides_with_point(v(12, 12)));
    assert!(!t.collides_with_point(v(500, 500)));
}

#[test]
fn drawing_paints_children_in_z_order_over_the_halves() {
    let mut rect = Rectangle::new(abs(20, 10), v(4, 2), Color::Green);
    let mut top = Line::new(abs(0, 0), abs(2, 0), Color::Red);
    top.z_index = 5;
    let mut low = Line::new(abs(0, 1), abs(2, 1), Color::Blue);
    low.z_index = -1;
    rect.push(Shape::Line(top));
    rect.push(Shape::Line(low));
    rect.update();
    let mut shape = Shape::Rectangle(rect);
    let mut out = Vec::new();
    shape.draw(&mut out, 80, 24);
    let n = out.len();
    let tail: Vec<(u16, u16, Color)> = out[n - 6..].iter().map(|p| (p.x, p.y, p.color)).collect();
    assert_eq!(
        tail,
        vec![
            (20, 11, Color::Blue),
            (21, 11, Color::Blue),
            (22, 11, Color::Blue),
            (20, 10, Color::Red),
            (21, 10, Color::Red),
            (22, 10, Color::Red),
        ]
    );
    let mut again = Vec::new();
    shape.rasterize(&mut again, 80, 24);
    assert_eq!(again.len(), n);
}

#[test]
fn drawing_a_triangle_orders_its_edges_first() {
    let mut t = Triangle::new(abs(0, 0), Orientation::Up, v(2, 2), Color::Blue);
    assert_eq!(t.lines[0].pos1, abs(-2, 2));
    let mut out = Vec::new();
    t.draw(&mut out, 80, 24);
    let keys: Vec<i64> = t.lines.iter().map(|l| l.pos1.vec().y + l.pos2.vec().y).collect();
    assert_eq!(keys, vec![-4, 0, 0]);
    assert_eq!(t.lines[0].pos1, abs(-2, -2));
    assert_eq!(t.lines[1].pos1, abs(-2, 2));
}

#[test]
fn a_line_shape_turns_about_its_midpoint() {
    let mut s = Shape::Line(Line::new(abs(10, 5), abs(30, 5), Color::Red));
    s.rotate(90_000);
    match &s {
        Shape::Line(l) => {
            assert_eq!(l.pos1, abs(20, 15));
            assert_eq!(l.pos2, abs(20, -5));
        }
        _ => panic!("line changed kind"),
    }
}

#[test]
fn rectangle_starts_with_its_two_halves() {
    let rect = Rectangle::new(abs(20, 10), v(4, 2), Color::Green);
    assert_eq!(rect.triangles.len(), 2);
    assert_eq!(rect.triangles[0].orientation, Orientation::Left);
    assert_eq!(rect.triangles[1].orientation, Orientation::Right);
    for t in &rect.triangles {
        assert_eq!(t.base_vertices.top_left, v(-2, 4));
        assert_eq!(t.center, abs(20, 10));
        assert_eq!(t.color, Color::Green);
    }
}

#[test]
fn rectangle_halves_start_with_model_edges() {
    let rect = Rectangle::new(abs(20, 10), v(4, 2), Color::Green);
    for t in &rect.triangles {
        assert_eq!(t.lines.len(), 3);
        assert_eq!((t.lines[0].pos1, t.lines[0].pos2), (abs(-2, 4), abs(-2, -4)));
        assert_eq!((t.lines[1].pos1, t.lines[1].pos2), (abs(-2, -4), abs(2, -4)));
        assert_eq!((t.lines[2].pos1, t.lines[2].pos2), (abs(2, -4), abs(-2, 4)));
    }
}
