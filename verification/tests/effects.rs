use subrass::renderer::buffer::RenderBuffer;
use subrass::renderer::effects::{
    apply_alpha_mask, apply_clip, apply_inverse_clip, apply_opaque_box, calculate_fade_alpha,
    interpolate_alpha, normalize_clip,
};

fn solid_buffer(w: u32, h: u32) -> RenderBuffer {
    let mut buf = RenderBuffer::new(w, h).unwrap();
    buf.pixels.fill(255);
    buf
}

#[test]
fn test_apply_clip_keeps_inside() {
    let mut buf = solid_buffer(10, 10);
    apply_clip(&mut buf, (2, 2, 5, 5));
    assert_eq!(buf.get_pixel(3, 3), [255, 255, 255, 255]);
    assert_eq!(buf.get_pixel(0, 0), [0, 0, 0, 0]);
    assert_eq!(buf.get_pixel(9, 9), [0, 0, 0, 0]);
    assert_eq!(buf.get_pixel(2, 2), [255, 255, 255, 255]);
    assert_eq!(buf.get_pixel(5, 5), [255, 255, 255, 255]);
    assert_eq!(buf.get_pixel(6, 5), [0, 0, 0, 0]);
}

#[test]
fn test_apply_clip_reversed_coordinates() {
    let mut buf = solid_buffer(10, 10);
    apply_clip(&mut buf, (5, 5, 2, 2));
    assert_eq!(buf.get_pixel(3, 3), [255, 255, 255, 255]);
    assert_eq!(buf.get_pixel(0, 0), [0, 0, 0, 0]);
}

#[test]
fn test_apply_clip_offscreen_clears_all() {
    let mut buf = solid_buffer(10, 10);
    apply_clip(&mut buf, (50, 50, 60, 60));
    assert!(buf.pixels.iter().all(|&p| p == 0));

    let mut buf = solid_buffer(10, 10);
    apply_clip(&mut buf, (-60, -60, -50, -50));
    assert!(buf.pixels.iter().all(|&p| p == 0));
}

#[test]
fn test_apply_clip_extreme_coordinates() {
    let mut buf = solid_buffer(10, 10);
    apply_clip(&mut buf, (i32::MIN, i32::MIN, i32::MAX, i32::MAX));
    assert!(buf.pixels.iter().all(|&p| p == 255));

    let mut buf = solid_buffer(10, 10);
    apply_clip(&mut buf, (i32::MIN, i32::MIN, -100, -100));
    assert!(buf.pixels.iter().all(|&p| p == 0));
}

#[test]
fn test_apply_inverse_clip_clears_inside() {
    let mut buf = solid_buffer(10, 10);
    apply_inverse_clip(&mut buf, (2, 2, 5, 5));
    assert_eq!(buf.get_pixel(3, 3), [0, 0, 0, 0]);
    assert_eq!(buf.get_pixel(0, 0), [255, 255, 255, 255]);
    assert_eq!(buf.get_pixel(9, 9), [255, 255, 255, 255]);
}

#[test]
fn test_apply_inverse_clip_reversed_and_offscreen() {
    let mut buf = solid_buffer(10, 10);
    apply_inverse_clip(&mut buf, (5, 5, 2, 2));
    assert_eq!(buf.get_pixel(3, 3), [0, 0, 0, 0]);

    let mut buf = solid_buffer(10, 10);
    apply_inverse_clip(&mut buf, (50, 50, 60, 60));
    assert!(buf.pixels.iter().all(|&p| p == 255));

    let mut buf = solid_buffer(10, 10);
    apply_inverse_clip(&mut buf, (i32::MIN, i32::MIN, i32::MAX, i32::MAX));
    assert!(buf.pixels.iter().all(|&p| p == 0));
}

#[test]
fn test_interpolate_alpha_matches_libass() {
    let t = (0, 1000, 2000, 3000);
    assert_eq!(interpolate_alpha(-5, t.0, t.1, t.2, t.3, 255, 0, 255), 255);
    assert_eq!(interpolate_alpha(0, t.0, t.1, t.2, t.3, 255, 0, 255), 255);
    assert_eq!(interpolate_alpha(500, t.0, t.1, t.2, t.3, 255, 0, 255), 127);
    assert_eq!(interpolate_alpha(1000, t.0, t.1, t.2, t.3, 255, 0, 255), 0);
    assert_eq!(interpolate_alpha(1500, t.0, t.1, t.2, t.3, 255, 0, 255), 0);
    assert_eq!(
        interpolate_alpha(2500, t.0, t.1, t.2, t.3, 255, 0, 255),
        127
    );
    assert_eq!(
        interpolate_alpha(2999, t.0, t.1, t.2, t.3, 255, 0, 255),
        254
    );
    assert_eq!(
        interpolate_alpha(3000, t.0, t.1, t.2, t.3, 255, 0, 255),
        255
    );
    assert_eq!(
        interpolate_alpha(9999, t.0, t.1, t.2, t.3, 255, 0, 255),
        255
    );
    assert_eq!(interpolate_alpha(499, 500, 500, 500, 500, 10, 20, 30), 10);
    assert_eq!(interpolate_alpha(500, 500, 500, 500, 500, 10, 20, 30), 30);
    assert_eq!(
        interpolate_alpha(i64::MAX, i32::MIN as i64, 0, 0, i32::MAX as i64, 1, 2, 3),
        3
    );
}

#[test]
fn test_simple_fade_exact_values() {
    assert_eq!(calculate_fade_alpha(0, 0, 5000, 500, 500), 0);
    assert_eq!(calculate_fade_alpha(250, 0, 5000, 500, 500), 128);
    assert_eq!(calculate_fade_alpha(500, 0, 5000, 500, 500), 255);
    assert_eq!(calculate_fade_alpha(4750, 0, 5000, 500, 500), 128);
    assert_eq!(calculate_fade_alpha(4999, 0, 5000, 500, 500), 1);
    assert_eq!(calculate_fade_alpha(5000, 0, 5000, 500, 500), 0);
}

#[test]
fn test_simple_fade_overlap_follows_shared_ramp() {
    assert_eq!(calculate_fade_alpha(0, 0, 1000, 1000, 1000), 0);
    assert_eq!(calculate_fade_alpha(500, 0, 1000, 1000, 1000), 128);
    assert_eq!(calculate_fade_alpha(999, 0, 1000, 1000, 1000), 255);
    assert_eq!(calculate_fade_alpha(0, 0, 2000, 0, 4000), 128);
    assert_eq!(calculate_fade_alpha(1000, 0, 2000, 0, 4000), 64);
    assert_eq!(calculate_fade_alpha(1999, 0, 2000, 0, 4000), 1);
    assert_eq!(calculate_fade_alpha(2000, 0, 2000, 0, 4000), 0);
    assert_eq!(calculate_fade_alpha(0, 0, 5000, -5, 500), 255);
    assert_eq!(calculate_fade_alpha(4750, 0, 5000, -5, 500), 128);
    assert_eq!(calculate_fade_alpha(2500, 0, 5000, 0, 0), 255);
    assert_eq!(calculate_fade_alpha(2500, 0, 5000, -3, -7), 255);
}

#[test]
fn test_apply_alpha_mask_and_inverse() {
    let mut buf = RenderBuffer::new(4, 1).unwrap();
    buf.pixels.fill(255);
    let mut mask = RenderBuffer::new(4, 1).unwrap();
    mask.set_pixel(0, 0, 0, 0, 0, 255);
    mask.set_pixel(1, 0, 0, 0, 0, 128);
    apply_alpha_mask(&mut buf, &mask, false);
    assert_eq!(buf.get_pixel(0, 0)[3], 255);
    assert_eq!(buf.get_pixel(1, 0)[3], 128);
    assert_eq!(buf.get_pixel(2, 0)[3], 0);
    let mut buf = RenderBuffer::new(4, 1).unwrap();
    buf.pixels.fill(255);
    apply_alpha_mask(&mut buf, &mask, true);
    assert_eq!(buf.get_pixel(0, 0)[3], 0);
    assert_eq!(buf.get_pixel(1, 0)[3], 127);
    assert_eq!(buf.get_pixel(2, 0)[3], 255);
    let small = RenderBuffer::new(2, 2).unwrap();
    apply_alpha_mask(&mut buf, &small, false);
    assert_eq!(buf.get_pixel(0, 0)[3], 0);
}

#[test]
fn test_apply_opaque_box_saturates() {
    let mut buf = RenderBuffer::new(16, 16).unwrap();
    apply_opaque_box(
        &mut buf,
        i32::MAX,
        i32::MAX,
        i32::MAX,
        i32::MAX,
        i32::MAX,
        i32::MAX,
        [255, 255, 255, 255],
    );
    apply_opaque_box(
        &mut buf,
        i32::MIN,
        i32::MIN,
        i32::MAX,
        i32::MAX,
        i32::MAX,
        i32::MAX,
        [255, 255, 255, 255],
    );
}

#[test]
fn test_apply_opaque_box_geometry_and_alpha() {
    let mut buf = RenderBuffer::new(16, 16).unwrap();
    apply_opaque_box(&mut buf, 4, 4, 8, 8, 2, 2, [255, 0, 0, 255]);
    assert_eq!(buf.get_pixel(2, 2), [255, 0, 0, 255]);
    assert_eq!(buf.get_pixel(13, 13), [255, 0, 0, 255]);
    assert_eq!(buf.get_pixel(1, 1), [0, 0, 0, 0]);
    assert_eq!(buf.get_pixel(14, 14), [0, 0, 0, 0]);
    let mut buf = RenderBuffer::new(16, 16).unwrap();
    apply_opaque_box(&mut buf, 4, 4, 8, 8, 2, 2, [255, 0, 0, 0]);
    assert!(buf.pixels.iter().all(|&p| p == 0));
    let mut buf = RenderBuffer::new(16, 16).unwrap();
    apply_opaque_box(&mut buf, 4, 4, 8, 8, -5, -5, [255, 0, 0, 255]);
    assert_eq!(buf.get_pixel(4, 4), [255, 0, 0, 255]);
    assert_eq!(buf.get_pixel(3, 3), [0, 0, 0, 0]);
}

#[test]
fn fade_is_zero_outside_the_event() {
    assert_eq!(calculate_fade_alpha(99, 100, 200, 0, 0), 0);
    assert_eq!(calculate_fade_alpha(200, 100, 200, 0, 0), 0);
    assert_eq!(calculate_fade_alpha(150, 100, 200, 0, 0), 255);
}

#[test]
fn clip_rectangle_normalises_corners() {
    let buf = RenderBuffer::new(10, 10).unwrap();
    assert_eq!(normalize_clip(&buf, (5, 6, 2, 1)), Some((2, 1, 5, 6)));
    assert_eq!(normalize_clip(&buf, (-3, -3, 20, 4)), Some((0, 0, 9, 4)));
    assert_eq!(normalize_clip(&buf, (20, 20, 30, 30)), None);
}

#[test]
fn clip_and_inverse_clip_split_the_buffer() {
    let mut inside = solid_buffer(6, 6);
    let mut outside = solid_buffer(6, 6);
    apply_clip(&mut inside, (1, 1, 3, 3));
    apply_inverse_clip(&mut outside, (1, 1, 3, 3));
    for i in 0..inside.pixels.len() {
        assert_eq!(u16::from(inside.pixels[i]) + u16::from(outside.pixels[i]), 255);
    }
}
