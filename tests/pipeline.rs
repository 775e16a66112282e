use rasterizer::clip::{
    clip_against_plane, clip_triangle_against_plane, clip_vertices, ClipTriangle, ClipVertex,
    NEAR_PLANE,
};
use rasterizer::clip::ClipVertex::{Crossing as X, Original as O};
use rasterizer::command::{Command, DepthState};
use rasterizer::draw::Fragment;
use rasterizer::image::{Image, RenderTarget};
use rasterizer::math::Color;
use rasterizer::raster::{
    passed_depth_test, triangle_indices, winding_action, CullMode, DepthOrder, DepthTest,
    WindingAction,
};
use rasterizer::triangle::{compare_depth, ScreenTriangle};
use rasterizer::viewport::{PixelRect, Viewport};

const RED: Color = Color { r: 255, g: 0, b: 0, a: 255 };
const BLUE: Color = Color { r: 0, g: 0, b: 255, a: 255 };
const BLACK: Color = Color { r: 0, g: 0, b: 0, a: 255 };

fn command(w: i32, h: i32, mode: CullMode) -> Command {
    let mut cmd = Command::new();
    cmd.set_viewport(Viewport { x_min: 0, y_min: 0, x_max: w, y_max: h });
    cmd.set_cull_mode(mode);
    cmd
}

fn target(w: u32, h: u32) -> RenderTarget {
    let mut rt: RenderTarget = Image::new(w, h);
    Command::new().clear_render_target(&mut rt, BLACK);
    rt
}

fn tri(xs: [i32; 3], ys: [i32; 3], depth: i64, color: Color) -> ScreenTriangle {
    ScreenTriangle { xs, ys, depth, colors: [color; 3] }
}

/// Whether the centre of pixel (x, y) lies inside or on the triangle.
fn centre_inside(t: &ScreenTriangle, x: u32, y: u32) -> bool {
    let (px, py) = (x as f64 + 0.5, y as f64 + 0.5);
    let e = |i: usize, j: usize| {
        let (ax, ay) = (t.xs[i] as f64, t.ys[i] as f64);
        let (bx, by) = (t.xs[j] as f64, t.ys[j] as f64);
        (bx - ax) * (py - ay) - (by - ay) * (px - ax)
    };
    let (a, b, c) = (e(0, 1), e(1, 2), e(2, 0));
    (a >= 0.0 && b >= 0.0 && c >= 0.0) || (a <= 0.0 && b <= 0.0 && c <= 0.0)
}

#[test]
fn command_defaults_and_setters() {
    let mut cmd = Command::new();
    assert_eq!(cmd.cull_mode(), CullMode::Off);
    assert_eq!(cmd.viewport(), Viewport { x_min: 0, y_min: 0, x_max: 0, y_max: 0 });
    assert_eq!(cmd.depth_state(), DepthState { write: false, test: DepthTest::Less });
    cmd.set_depth_test(DepthTest::GreaterOrEqual);
    cmd.toggle_depth_write(true);
    cmd.set_cull_mode(CullMode::FrontFace);
    let vp = Viewport { x_min: 1, y_min: 2, x_max: 3, y_max: 4 };
    cmd.set_viewport(vp);
    assert_eq!(cmd.depth_state(), DepthState { write: true, test: DepthTest::GreaterOrEqual });
    assert_eq!(cmd.cull_mode(), CullMode::FrontFace);
    assert_eq!(cmd.viewport(), vp);
}

#[test]
fn clear_depth_buffer_fills() {
    let mut db: Image<i64> = Image::new(3, 3);
    Command::new().clear_depth_buffer(&mut db, 10);
    assert!(db.pixels.iter().all(|&d| d == 10));
}

#[test]
fn flat_triangle_identity_transform() {
    let cmd = command(10, 10, CullMode::Off);
    let mut rt = target(10, 10);
    cmd.draw_triangle(&mut rt, &tri([0, 10, 0], [0, 0, 10], 0, RED));
    for y in 0..10u32 {
        for x in 0..10u32 {
            let inside = (x as f32 + 0.5) + (y as f32 + 0.5) <= 10.0;
            let expected = if inside { RED } else { BLACK };
            assert_eq!(rt.get_pixel(x, y), expected, "pixel ({}, {})", x, y);
        }
    }
}

#[test]
fn coverage_matches_centre_rule_either_winding() {
    let shapes = [
        tri([1, 14, 6], [2, 5, 13], 0, RED),
        tri([1, 6, 14], [2, 13, 5], 0, RED),
        tri([-4, 20, 3], [-3, 8, 19], 0, RED),
    ];
    for t in shapes.iter() {
        let cmd = command(16, 16, CullMode::Off);
        let mut rt = target(16, 16);
        cmd.draw_triangle(&mut rt, t);
        for y in 0..16u32 {
            for x in 0..16u32 {
                let expected = if centre_inside(t, x, y) { RED } else { BLACK };
                assert_eq!(rt.get_pixel(x, y), expected);
            }
        }
    }
}

#[test]
fn viewport_limits_the_written_pixels() {
    let mut cmd = command(16, 16, CullMode::Off);
    cmd.set_viewport(Viewport { x_min: 2, y_min: 3, x_max: 8, y_max: 7 });
    let mut rt = target(16, 16);
    let t = tri([0, 16, 0], [0, 0, 16], 0, RED);
    cmd.draw_triangle(&mut rt, &t);
    for y in 0..16u32 {
        for x in 0..16u32 {
            let in_vp = (2..8).contains(&x) && (3..7).contains(&y);
            let expected = if in_vp && centre_inside(&t, x, y) { RED } else { BLACK };
            assert_eq!(rt.get_pixel(x, y), expected);
        }
    }
}

#[test]
fn degenerate_triangle_writes_nothing() {
    let cmd = command(8, 8, CullMode::Off);
    let mut rt = target(8, 8);
    cmd.draw_triangle(&mut rt, &tri([0, 4, 8], [0, 4, 8], 0, RED));
    assert!(rt.pixels.iter().all(|&p| p == BLACK));
}

#[test]
fn back_face_cull() {
    // Counter-clockwise in device coordinates: negative area on screen.
    let t = tri([0, 0, 10], [0, 10, 0], 0, RED);
    let mut rt = target(10, 10);
    command(10, 10, CullMode::FrontFace).draw_triangle(&mut rt, &t);
    assert!(rt.pixels.iter().all(|&p| p == BLACK));
    command(10, 10, CullMode::BackFace).draw_triangle(&mut rt, &t);
    for y in 0..10u32 {
        for x in 0..10u32 {
            let expected = if centre_inside(&t, x, y) { RED } else { BLACK };
            assert_eq!(rt.get_pixel(x, y), expected);
        }
    }
}

#[test]
fn cull_modes_write_each_pixel_once() {
    for t in [tri([0, 0, 12], [0, 12, 0], 0, RED), tri([0, 12, 0], [0, 0, 12], 0, RED)].iter() {
        let mut back = target(12, 12);
        let mut front = target(12, 12);
        let mut none = target(12, 12);
        command(12, 12, CullMode::BackFace).draw_triangle(&mut back, t);
        command(12, 12, CullMode::FrontFace).draw_triangle(&mut front, t);
        command(12, 12, CullMode::Off).draw_triangle(&mut none, t);
        for i in 0..none.pixels.len() {
            let writes = (back.pixels[i] == RED) as u32 + (front.pixels[i] == RED) as u32;
            assert_eq!(writes, (none.pixels[i] == RED) as u32);
        }
    }
}

#[test]
fn depth_occlusion() {
    let mut cmd = command(10, 10, CullMode::Off);
    cmd.set_depth_test(DepthTest::Less);
    cmd.toggle_depth_write(true);
    let mut rt = target(10, 10);
    let mut db: Image<i64> = Image::new(10, 10);
    cmd.clear_depth_buffer(&mut db, 10);
    let near = tri([0, 10, 0], [0, 0, 10], 2, RED);
    let far = tri([0, 10, 0], [0, 0, 10], 8, BLUE);
    cmd.draw_triangle_with_depth(&mut rt, &mut db, &near);
    cmd.draw_triangle_with_depth(&mut rt, &mut db, &far);
    for y in 0..10u32 {
        for x in 0..10u32 {
            if centre_inside(&near, x, y) {
                assert_eq!(rt.get_pixel(x, y), RED);
                assert_eq!(db.get_pixel(x, y), 2);
            } else {
                assert_eq!(rt.get_pixel(x, y), BLACK);
                assert_eq!(db.get_pixel(x, y), 10);
            }
        }
    }
}

#[test]
fn depth_write_off_keeps_depth_buffer() {
    let mut cmd = command(6, 6, CullMode::Off);
    cmd.set_depth_test(DepthTest::Always);
    let mut rt = target(6, 6);
    let mut db: Image<i64> = Image::new(6, 6);
    cmd.clear_depth_buffer(&mut db, 5);
    cmd.draw_triangle_with_depth(&mut rt, &mut db, &tri([0, 6, 0], [0, 0, 6], 1, RED));
    assert!(db.pixels.iter().all(|&d| d == 5));
    assert_eq!(rt.get_pixel(0, 0), RED);
}

#[test]
fn second_fragment_wins_only_when_it_passes() {
    let tests = [
        (DepthTest::Never, [false, false, false]),
        (DepthTest::Always, [true, true, true]),
        (DepthTest::Less, [true, false, false]),
        (DepthTest::LessOrEqual, [true, true, false]),
        (DepthTest::Equal, [false, true, false]),
        (DepthTest::GreaterOrEqual, [false, true, true]),
        (DepthTest::Greater, [false, false, true]),
        (DepthTest::NotEqual, [true, false, true]),
    ];
    for (test, expect) in tests.iter() {
        for (k, second_depth) in [3i64, 5, 7].iter().enumerate() {
            let mut cmd = command(4, 4, CullMode::Off);
            cmd.set_depth_test(DepthTest::Always);
            cmd.toggle_depth_write(true);
            let mut rt = target(4, 4);
            let mut db: Image<i64> = Image::new(4, 4);
            let shape = ([0, 4, 0], [0, 0, 4]);
            cmd.draw_triangle_with_depth(&mut rt, &mut db, &tri(shape.0, shape.1, 5, RED));
            cmd.set_depth_test(*test);
            cmd.draw_triangle_with_depth(&mut rt, &mut db, &tri(shape.0, shape.1, *second_depth, BLUE));
            let expected = if expect[k] { BLUE } else { RED };
            assert_eq!(rt.get_pixel(0, 0), expected);
        }
    }
}

#[test]
fn depth_test_table() {
    let orders = [DepthOrder::Less, DepthOrder::Equal, DepthOrder::Greater, DepthOrder::Unordered];
    let table = [
        (DepthTest::Never, [false, false, false, false]),
        (DepthTest::Always, [true, true, true, true]),
        (DepthTest::Less, [true, false, false, false]),
        (DepthTest::LessOrEqual, [true, true, false, false]),
        (DepthTest::Equal, [false, true, false, false]),
        (DepthTest::GreaterOrEqual, [false, true, true, false]),
        (DepthTest::Greater, [false, false, true, false]),
        (DepthTest::NotEqual, [true, false, true, true]),
    ];
    for (test, expect) in table.iter() {
        for (o, e) in orders.iter().zip(expect.iter()) {
            assert_eq!(passed_depth_test(*test, *o), *e);
        }
    }
}

#[test]
fn resolve_fragment_writes_on_pass() {
    let mut cmd = Command::new();
    cmd.toggle_depth_write(true);
    let mut rt = target(2, 2);
    let mut db: Image<i64> = Image::new(2, 2);
    assert!(cmd.resolve_fragment(&mut rt, &mut db, 1, 0, 4, DepthOrder::Less, RED));
    assert_eq!(rt.get_pixel(1, 0), RED);
    assert_eq!(db.get_pixel(1, 0), 4);
    assert!(!cmd.resolve_fragment(&mut rt, &mut db, 1, 0, 9, DepthOrder::Greater, BLUE));
    assert_eq!(rt.get_pixel(1, 0), RED);
    assert_eq!(db.get_pixel(1, 0), 4);
}

#[test]
fn winding_actions() {
    assert_eq!(winding_action(CullMode::Off, true), WindingAction::Swap);
    assert_eq!(winding_action(CullMode::Off, false), WindingAction::Keep);
    assert_eq!(winding_action(CullMode::BackFace, true), WindingAction::Swap);
    assert_eq!(winding_action(CullMode::BackFace, false), WindingAction::Discard);
    assert_eq!(winding_action(CullMode::FrontFace, true), WindingAction::Discard);
    assert_eq!(winding_action(CullMode::FrontFace, false), WindingAction::Keep);
}

#[test]
fn pixel_bounds_cut_to_target_and_viewport() {
    let vp = Viewport { x_min: -5, y_min: 1, x_max: 100, y_max: 6 };
    let r = vp.pixel_bounds(8, 8, [-3, 4, 12], [0, 9, 3]);
    assert_eq!(r, Some(PixelRect { x_min: 0, x_max: 7, y_min: 1, y_max: 5 }));
    assert_eq!(vp.pixel_bounds(8, 8, [20, 30, 25], [1, 2, 3]), None);
    let small = Viewport { x_min: 0, y_min: 0, x_max: 10, y_max: 10 };
    assert_eq!(
        small.pixel_bounds(10, 10, [2, 5, 3], [4, 4, 6]),
        Some(PixelRect { x_min: 2, x_max: 5, y_min: 4, y_max: 6 })
    );
}

#[test]
fn index_list_to_triangles() {
    let tris = triangle_indices(&vec![0, 1, 2, 2, 1, 3, 9]);
    assert_eq!(tris, vec![[0, 1, 2], [2, 1, 3]]);
    assert!(triangle_indices(&vec![]).is_empty());
}

fn t(v0: ClipVertex, v1: ClipVertex, v2: ClipVertex) -> ClipTriangle {
    ClipTriangle { v0, v1, v2 }
}

#[test]
fn clip_table_per_mask() {
    assert_eq!(clip_triangle_against_plane([false, false, false]), vec![t(O(0), O(1), O(2))]);
    assert_eq!(
        clip_triangle_against_plane([true, false, false]),
        vec![t(X(0, 1), O(1), O(2)), t(X(0, 1), O(2), X(0, 2))]
    );
    assert_eq!(
        clip_triangle_against_plane([false, true, false]),
        vec![t(O(0), X(1, 0), O(2)), t(O(2), X(1, 0), X(1, 2))]
    );
    assert_eq!(clip_triangle_against_plane([true, true, false]), vec![t(X(0, 2), X(1, 2), O(2))]);
    assert_eq!(
        clip_triangle_against_plane([false, false, true]),
        vec![t(O(0), O(1), X(2, 0)), t(X(2, 0), O(1), X(2, 1))]
    );
    assert_eq!(clip_triangle_against_plane([true, false, true]), vec![t(X(0, 1), O(1), X(2, 1))]);
    assert_eq!(clip_triangle_against_plane([false, true, true]), vec![t(O(0), X(1, 0), X(2, 0))]);
    assert!(clip_triangle_against_plane([true, true, true]).is_empty());
}

#[test]
fn near_plane_clip() {
    // Near plane value is z: (0, 1, 1, 1), (-1, -1, -1, 1), (1, -1, -1, 1).
    let zs = [1.0f32, -1.0, -1.0];
    let outside = [zs[0] < 0.0, zs[1] < 0.0, zs[2] < 0.0];
    assert_eq!(clip_triangle_against_plane(outside), vec![t(O(0), X(1, 0), X(2, 0))]);
    // With only one vertex behind the near plane the kept part is a quad.
    let plan = clip_triangle_against_plane([false, true, false]);
    assert_eq!(plan.len(), 2);
    // Far plane value is w - z; a value of zero counts as inside.
    let ws_minus_zs = [1.0f32 - 1.0, 1.0 + 1.0, 1.0 + 1.0];
    let far_outside = [ws_minus_zs[0] < 0.0, ws_minus_zs[1] < 0.0, ws_minus_zs[2] < 0.0];
    assert_eq!(clip_triangle_against_plane(far_outside), vec![t(O(0), O(1), O(2))]);
}

fn checker(x: u32, y: u32) -> Option<Fragment<i64>> {
    if (x + y) % 2 == 0 {
        Some(Fragment { depth: (x + y) as i64, color: RED })
    } else {
        None
    }
}

fn order(z: i64, stored: i64) -> DepthOrder {
    if z < stored {
        DepthOrder::Less
    } else if z == stored {
        DepthOrder::Equal
    } else {
        DepthOrder::Greater
    }
}

#[test]
fn draw_fragments_visits_only_the_rect() {
    let cmd = Command::new();
    let mut rt = target(6, 6);
    let rect = PixelRect { x_min: 1, x_max: 3, y_min: 2, y_max: 4 };
    cmd.draw_fragments(checker, &mut rt, rect);
    for y in 0..6u32 {
        for x in 0..6u32 {
            let in_rect = (1..=3).contains(&x) && (2..=4).contains(&y);
            let expected = if in_rect && (x + y) % 2 == 0 { RED } else { BLACK };
            assert_eq!(rt.get_pixel(x, y), expected);
        }
    }
}

#[test]
fn draw_fragments_with_depth_tests_each_pixel() {
    let mut cmd = Command::new();
    cmd.set_depth_test(DepthTest::Less);
    cmd.toggle_depth_write(true);
    let mut rt = target(4, 4);
    let mut db: Image<i64> = Image::new(4, 4);
    cmd.clear_depth_buffer(&mut db, 4);
    let rect = PixelRect { x_min: 0, x_max: 3, y_min: 0, y_max: 3 };
    cmd.draw_fragments_with_depth(checker, order, &mut rt, &mut db, rect);
    for y in 0..4u32 {
        for x in 0..4u32 {
            let pass = (x + y) % 2 == 0 && x + y < 4;
            assert_eq!(rt.get_pixel(x, y), if pass { RED } else { BLACK });
            assert_eq!(db.get_pixel(x, y), if pass { (x + y) as i64 } else { 4 });
        }
    }
}

#[test]
fn screen_triangle_edge_tests() {
    let t = tri([0, 10, 0], [0, 0, 10], 3, RED);
    assert_eq!(t.signed_area(), 100);
    assert!(t.covers_pixel(0, 0));
    assert!(t.covers_pixel(4, 4));
    assert!(t.covers_pixel(5, 4)); // centre (5.5, 4.5) lies on the long edge
    assert!(!t.covers_pixel(5, 5));
    let s = t.swapped();
    assert_eq!((s.xs, s.ys), ([0, 0, 10], [0, 10, 0]));
    assert_eq!(s.signed_area(), -100);
    assert!(!s.covers_pixel(0, 0));
    assert!(t.fragment(1, 1).is_some());
    assert_eq!(t.fragment(1, 1).unwrap().depth, 3);
    assert!(t.fragment(9, 9).is_none());
}

#[test]
fn integer_depth_comparison() {
    assert_eq!(compare_depth(1, 2), DepthOrder::Less);
    assert_eq!(compare_depth(2, 2), DepthOrder::Equal);
    assert_eq!(compare_depth(3, 2), DepthOrder::Greater);
}

#[test]
fn triangle_outside_target_writes_nothing() {
    let cmd = command(8, 8, CullMode::Off);
    let mut rt = target(8, 8);
    cmd.draw_triangle(&mut rt, &tri([20, 30, 20], [0, 0, 10], 0, RED));
    assert!(rt.pixels.iter().all(|&p| p == BLACK));
}

#[test]
fn vertex_colours_blend_with_barycentric_weights() {
    let green = Color::new(0, 255, 0);
    let t = ScreenTriangle { xs: [0, 10, 0], ys: [0, 0, 10], depth: 0, colors: [RED, green, BLUE] };
    let cmd = command(10, 10, CullMode::Off);
    let mut rt = target(10, 10);
    cmd.draw_triangle(&mut rt, &t);
    // Centre (0.5, 0.5): weights 360, 20, 20 out of 400.
    assert_eq!(rt.get_pixel(0, 0), Color::from_rgba(229, 12, 12, 255));
    assert_eq!(Color::blend(360, 20, 20, RED, green, BLUE), Color::from_rgba(229, 12, 12, 255));
    // Centre (9.5, 0.5) lies on the long edge: no weight for the first vertex.
    assert_eq!(rt.get_pixel(9, 0).r, 0);
    // A clockwise triangle is reordered with its colours.
    let mut rt2 = target(10, 10);
    let s = t.swapped();
    cmd.draw_triangle(&mut rt2, &s);
    assert_eq!(rt2.pixels, rt.pixels);
}

#[test]
fn blend_of_equal_colours_and_zero_weights() {
    let c = Color::from_rgba(7, 77, 177, 250);
    assert_eq!(Color::blend(3, 5, 11, c, c, c), c);
    assert_eq!(Color::blend(0, 0, 0, RED, BLUE, BLACK), RED);
}

/// A clip-space vertex reduced to what the near and far planes read: (z, w).
type ZW = (f32, f32);

fn zw_outside(plane: usize, v: ZW) -> bool {
    if plane == NEAR_PLANE {
        v.0 < 0.0
    } else {
        v.1 - v.0 < 0.0
    }
}

fn zw_split(plane: usize, a: ZW, b: ZW) -> ZW {
    let value = |v: ZW| if plane == NEAR_PLANE { v.0 } else { v.1 - v.0 };
    let t = value(a) / (value(a) - value(b));
    (a.0 + t * (b.0 - a.0), a.1 + t * (b.1 - a.1))
}

#[test]
fn clip_vertices_two_behind_near() {
    let out = clip_vertices([(1.0, 1.0), (-1.0, 1.0), (-1.0, 1.0)], &zw_outside, &zw_split);
    assert_eq!(out, vec![(1.0, 1.0), (0.0, 1.0), (0.0, 1.0)]);
}

#[test]
fn clip_vertices_one_behind_near_gives_quad() {
    let out = clip_vertices([(-1.0, 1.0), (1.0, 1.0), (1.0, 1.0)], &zw_outside, &zw_split);
    assert_eq!(out.len(), 6);
    assert_eq!(out, vec![(0.0, 1.0), (1.0, 1.0), (1.0, 1.0), (0.0, 1.0), (1.0, 1.0), (0.0, 1.0)]);
}

#[test]
fn clip_vertices_across_both_planes() {
    // z from −1 to 3 with w = 2: cut by z ≥ 0 and by z ≤ 2.
    let out = clip_vertices([(-1.0, 2.0), (3.0, 2.0), (3.0, 2.0)], &zw_outside, &zw_split);
    assert_eq!(out.len() % 3, 0);
    assert!(out.len() <= 12 && !out.is_empty());
    assert!(out.iter().all(|v| v.0 >= 0.0 && v.0 <= v.1));
}

#[test]
fn clip_vertices_wholly_outside() {
    let out = clip_vertices([(-1.0, 1.0), (-2.0, 1.0), (-3.0, 1.0)], &zw_outside, &zw_split);
    assert!(out.is_empty());
}

#[test]
fn clip_against_one_plane_keeps_inside_triangles() {
    let input = vec![(0.5, 1.0), (0.2, 1.0), (0.9, 1.0), (-1.0, 1.0), (-1.0, 1.0), (-1.0, 1.0)];
    let out = clip_against_plane(&input, NEAR_PLANE, &zw_outside, &zw_split);
    assert_eq!(out, vec![(0.5, 1.0), (0.2, 1.0), (0.9, 1.0)]);
}
