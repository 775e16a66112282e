use rasterizer::image::{Image, PixelLayout, RenderTarget, Texture};
use rasterizer::math::{Color, Vec2, Vec3, Vec4};

#[test]
fn vectors_construct_and_dot() {
    let a = Vec2::new(2i32, -3);
    let b = Vec2::new(4i32, 5);
    assert_eq!(a.dot(b), 8 - 15);
    let z = Vec2::<i64>::zero();
    assert_eq!((z.x, z.y), (0, 0));

    let p = Vec3::new(1i64, 2, 3);
    let q = Vec3::new(4i64, 5, 6);
    assert_eq!(p.dot(q), 32);
    let z3 = Vec3::<u32>::zero();
    assert_eq!((z3.x, z3.y, z3.z), (0, 0, 0));

    let u = Vec4::new(1u64, 2, 3, 4);
    let v = Vec4::new(5u64, 6, 7, 8);
    assert_eq!(u.dot(v), 70);
    let z4 = Vec4::<i32>::zero();
    assert_eq!((z4.x, z4.y, z4.z, z4.w), (0, 0, 0, 0));
}

#[test]
fn point_and_vector_promotion() {
    let v = Vec3::new(7i32, -8, 9);
    let p = v.as_point();
    assert_eq!((p.x, p.y, p.z, p.w), (7, -8, 9, 1));
    let d = v.as_vector();
    assert_eq!((d.x, d.y, d.z, d.w), (7, -8, 9, 0));
}

#[test]
fn color_channels_and_bytes() {
    let c = Color::new(10, 20, 30);
    assert_eq!(c.to_bytes(), [10, 20, 30, 255]);
    let mut d = Color::from_rgba(1, 2, 3, 4);
    assert_eq!(d.channel(0), 1);
    assert_eq!(d.channel(3), 4);
    d.set_channel(2, 99);
    assert_eq!(d, Color::from_rgba(1, 2, 99, 4));
}

#[test]
fn color_addition_saturates() {
    let mut c = Color::from_rgba(200, 100, 0, 255);
    c.add_saturating(Color::from_rgba(100, 100, 5, 1));
    assert_eq!(c, Color::from_rgba(255, 200, 5, 255));
}

#[test]
fn image_new_get_set() {
    let mut img: Image<u8> = Image::new(3, 2);
    assert_eq!(img.pixels.len(), 6);
    assert!(img.get_pixels().iter().all(|&p| p == 0));
    img.set_pixel(2, 1, 7);
    assert_eq!(img.get_pixel(2, 1), 7);
    assert_eq!(img.pixels[1 * 3 + 2], 7);
    assert_eq!(img.get_pixel(1, 1), 0);
}

#[test]
fn image_clear_fills_every_pixel() {
    let mut rt: RenderTarget = Image::new(4, 3);
    let red = Color::new(255, 0, 0);
    rt.clear_image(red);
    assert!(rt.pixels.iter().all(|&p| p == red));
    assert_eq!((rt.width, rt.height), (4, 3));
}

fn two_by_two() -> Texture {
    let mut t: Texture = Image::new(2, 2);
    t.set_pixel(0, 0, Color::new(255, 0, 0));
    t.set_pixel(1, 0, Color::new(0, 255, 0));
    t.set_pixel(0, 1, Color::new(0, 0, 255));
    t.set_pixel(1, 1, Color::new(255, 255, 255));
    t
}

#[test]
fn texel_lookup_clamps_to_edge() {
    let t = two_by_two();
    assert_eq!(t.pixel_at_texel(0, 0), Color::new(255, 0, 0));
    assert_eq!(t.pixel_at_texel(1, 1), Color::new(255, 255, 255));
    assert_eq!(t.pixel_at_texel(-5, 0), Color::new(255, 0, 0));
    assert_eq!(t.pixel_at_texel(9, -1), Color::new(0, 255, 0));
    assert_eq!(t.pixel_at_texel(0, 40), Color::new(0, 0, 255));
}

fn texel_of(u: f32, v: f32, w: u32, h: u32) -> (i64, i64) {
    ((u * w as f32).floor() as i64, (v * h as f32).floor() as i64)
}

#[test]
fn full_screen_textured_quad() {
    let t = two_by_two();
    let (w, h) = (8u32, 6u32);
    for y in 0..h {
        for x in 0..w {
            let u = (x as f32 + 0.5) / w as f32;
            let v = (y as f32 + 0.5) / h as f32;
            let (tx, ty) = texel_of(u, v, t.width, t.height);
            let expected = match (x < w / 2, y < h / 2) {
                (true, true) => Color::new(255, 0, 0),
                (false, true) => Color::new(0, 255, 0),
                (true, false) => Color::new(0, 0, 255),
                (false, false) => Color::new(255, 255, 255),
            };
            assert_eq!(t.pixel_at_texel(tx, ty), expected);
        }
    }
}

#[test]
fn identity_round_trip() {
    let mut t: Texture = Image::new(4, 4);
    for y in 0..4u32 {
        for x in 0..4u32 {
            t.set_pixel(x, y, Color::from_rgba(x as u8 * 10, y as u8 * 10, 7, 255));
        }
    }
    for y in 0..4u32 {
        for x in 0..4u32 {
            let (tx, ty) = texel_of((x as f32 + 0.5) / 4.0, (y as f32 + 0.5) / 4.0, 4, 4);
            assert_eq!(t.pixel_at_texel(tx, ty), t.get_pixel(x, y));
        }
    }
}

#[test]
fn decode_each_layout() {
    let rgba = vec![1, 2, 3, 4, 5, 6, 7, 8];
    let t = Image::from_layout(PixelLayout::R8G8B8A8, 2, 1, &rgba);
    assert_eq!(t.pixels, vec![Color::from_rgba(1, 2, 3, 4), Color::from_rgba(5, 6, 7, 8)]);

    let rgb = vec![1, 2, 3, 4, 5, 6];
    let t = Image::from_layout(PixelLayout::R8G8B8, 1, 2, &rgb);
    assert_eq!(t.pixels, vec![Color::new(1, 2, 3), Color::new(4, 5, 6)]);

    let rg = vec![9, 8, 7, 6];
    let t = Image::from_layout(PixelLayout::R8G8, 2, 1, &rg);
    assert_eq!(t.pixels, vec![Color::new(9, 8, 0), Color::new(7, 6, 0)]);

    let grey = vec![5, 250];
    let t = Image::from_layout(PixelLayout::R8, 2, 1, &grey);
    assert_eq!(t.pixels, vec![Color::new(5, 5, 5), Color::new(250, 250, 250)]);
}

#[test]
fn decode_unsupported_layout_gives_default_pixels() {
    let t = Image::from_layout(PixelLayout::Unsupported, 2, 2, &vec![]);
    assert_eq!((t.width, t.height), (2, 2));
    assert_eq!(t.pixels, vec![Color::default(); 4]);
    assert_eq!(PixelLayout::R8G8B8.bytes_per_pixel(), 3);
}

#[test]
fn vectors_component_wise() {
    let a = Vec2::new(5i32, -2);
    let b = Vec2::new(3i32, 4);
    let (s, d, p) = (a.add(b), a.sub(b), a.mul(b));
    assert_eq!((s.x, s.y, d.x, d.y, p.x, p.y), (8, 2, 2, -6, 15, -8));

    let u = Vec3::new(1u32, 2, 3);
    let v = Vec3::new(4u32, 5, 6);
    let (s, p) = (u.add(v), u.mul(v));
    assert_eq!((s.x, s.y, s.z, p.x, p.y, p.z), (5, 7, 9, 4, 10, 18));
    let d = v.sub(u);
    assert_eq!((d.x, d.y, d.z), (3, 3, 3));

    let m = Vec4::new(1i64, -1, 2, -2);
    let n = Vec4::new(10i64, 20, 30, 40);
    let (s, d, p) = (m.add(n), m.sub(n), m.mul(n));
    assert_eq!((s.x, s.y, s.z, s.w), (11, 19, 32, 38));
    assert_eq!((d.x, d.y, d.z, d.w), (-9, -21, -28, -42));
    assert_eq!((p.x, p.y, p.z, p.w), (10, -20, 60, -80));
}

#[test]
fn det2d_is_signed_cross_product() {
    let a = Vec4::new(3i64, 0, 7, 1);
    let b = Vec4::new(0i64, 4, -2, 1);
    assert_eq!(a.det2d(b), 12);
    assert_eq!(b.det2d(a), -12);
    assert_eq!(a.det2d(a), 0);
}
