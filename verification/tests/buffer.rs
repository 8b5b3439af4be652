use subrass::renderer::buffer::{
    add_coord, bitmap_has_pixels, checked_buffer_len, checked_pixel_count, RenderBuffer, RenderError,
};

#[test]
fn test_new_buffer() {
    let buf = RenderBuffer::new(100, 100).unwrap();
    assert_eq!(buf.width, 100);
    assert_eq!(buf.height, 100);
    assert_eq!(buf.pixels.len(), 40000);
}

#[test]
fn test_new_rejects_zero_dimensions() {
    assert_eq!(
        RenderBuffer::new(0, 100).unwrap_err(),
        RenderError::ZeroDimensions {
            width: 0,
            height: 100
        }
    );
    assert_eq!(
        RenderBuffer::new(100, 0).unwrap_err(),
        RenderError::ZeroDimensions {
            width: 100,
            height: 0
        }
    );
}

#[test]
fn test_new_rejects_huge_dimensions() {
    assert!(RenderBuffer::new(u32::MAX, u32::MAX).is_err());
    assert!(RenderBuffer::new(u32::MAX, 2).is_err());
    assert!(RenderBuffer::new(2, u32::MAX).is_err());
    assert!(matches!(
        RenderBuffer::new(20_000, 20_000).unwrap_err(),
        RenderError::DimensionsTooLarge { .. }
    ));
    assert!(matches!(
        RenderBuffer::new(16_384, 16_384).unwrap_err(),
        RenderError::AllocationTooLarge { .. }
    ));
}

#[test]
fn test_resize_rejects_invalid() {
    let mut buf = RenderBuffer::new(8, 8).unwrap();
    assert!(buf.resize(0, 8).is_err());
    assert!(buf.resize(u32::MAX, u32::MAX).is_err());
    assert_eq!((buf.width, buf.height), (8, 8));
    assert_eq!(buf.pixels.len(), 8 * 8 * 4);
}

#[test]
fn test_set_get_pixel() {
    let mut buf = RenderBuffer::new(10, 10).unwrap();
    buf.set_pixel(5, 5, 255, 128, 64, 200);
    let px = buf.get_pixel(5, 5);
    assert_eq!(px, [255, 128, 64, 200]);
}

#[test]
fn test_blend_pixel() {
    let mut buf = RenderBuffer::new(10, 10).unwrap();
    buf.set_pixel(5, 5, 0, 0, 0, 128);
    buf.blend_pixel(5, 5, 255, 255, 255, 128);
    let px = buf.get_pixel(5, 5);
    assert!(px[3] > 128);
}

#[test]
fn test_blend_pixel_saturates_tiny_alpha() {
    let mut buf = RenderBuffer::new(2, 1).unwrap();
    buf.set_pixel(0, 0, 255, 255, 255, 2);
    buf.blend_pixel(0, 0, 255, 255, 255, 1);
    assert_eq!(buf.get_pixel(0, 0), [255, 255, 255, 2]);
}

#[test]
fn test_blend_pixel_premul_saturates() {
    let mut buf = RenderBuffer::new(2, 1).unwrap();
    buf.set_pixel(0, 0, 255, 255, 255, 255);
    buf.blend_pixel_premul(0, 0, 255, 255, 255, 255);
    assert_eq!(buf.get_pixel(0, 0), [255, 255, 255, 255]);
}

#[test]
fn test_blend_buffer_preserves_existing_pixels() {
    let mut destination = RenderBuffer::new(2, 1).unwrap();
    destination.set_pixel(0, 0, 255, 0, 0, 255);

    let mut source = RenderBuffer::new(2, 1).unwrap();
    source.set_pixel(1, 0, 0, 255, 0, 255);
    destination.blend_buffer(&source);

    assert_eq!(destination.get_pixel(0, 0), [255, 0, 0, 255]);
    assert_eq!(destination.get_pixel(1, 0), [0, 255, 0, 255]);
}

#[test]
fn test_fill_rect_clamps_malicious_coordinates() {
    let mut buf = RenderBuffer::new(16, 16).unwrap();
    buf.fill_rect(
        -2_000_000_000,
        -2_000_000_000,
        2_000_000_000,
        2_000_000_000,
        255,
        0,
        0,
        255,
    );
    buf.fill_rect(i32::MIN, i32::MIN, i32::MAX, i32::MAX, 0, 255, 0, 255);
    buf.fill_rect(i32::MAX - 5, i32::MAX - 5, 100, 100, 0, 0, 255, 255);
    buf.fill_rect(-100, -100, -50, -50, 255, 255, 255, 255);
    buf.fill_rect(4, 4, -8, -8, 255, 255, 255, 255);
    buf.fill_rect(100, 100, 50, 50, 255, 255, 255, 255);
    buf.fill_rect(-50, 4, 10, 8, 255, 255, 255, 255);
    assert!(buf.pixels.iter().all(|&p| p == 0));
}

#[test]
fn test_fill_rect_partial_overlap() {
    let mut buf = RenderBuffer::new(16, 16).unwrap();
    buf.fill_rect(-4, -4, 8, 8, 255, 0, 0, 255);
    assert_eq!(buf.get_pixel(0, 0), [255, 0, 0, 255]);
    assert_eq!(buf.get_pixel(3, 3), [255, 0, 0, 255]);
    assert_eq!(buf.get_pixel(4, 4), [0, 0, 0, 0]);
}

#[test]
fn test_fill_rect_overflow_addition() {
    let mut buf = RenderBuffer::new(16, 16).unwrap();
    buf.fill_rect(i32::MAX - 10, 0, 100, 16, 255, 0, 0, 255);
    buf.fill_rect(0, i32::MAX - 10, 16, 100, 255, 0, 0, 255);
    assert!(buf.pixels.iter().all(|&p| p == 0));
}

#[test]
fn test_box_blur_clamps_huge_radius() {
    let mut buf = RenderBuffer::new(8, 8).unwrap();
    buf.set_pixel(4, 4, 255, 255, 255, 255);
    buf.box_blur(u32::MAX);
    assert_eq!(buf.pixels.len(), 8 * 8 * 4);
}

#[test]
fn box_blur_takes_floored_window_means() {
    let mut buf = RenderBuffer::new(3, 1).unwrap();
    buf.set_pixel(1, 0, 255, 90, 0, 255);
    buf.box_blur(1);
    assert_eq!(buf.get_pixel(0, 0), [127, 45, 0, 127]);
    assert_eq!(buf.get_pixel(1, 0), [85, 30, 0, 85]);
    assert_eq!(buf.get_pixel(2, 0), [127, 45, 0, 127]);
}

#[test]
fn box_blur_runs_rows_then_columns() {
    let mut buf = RenderBuffer::new(3, 3).unwrap();
    buf.set_pixel(1, 1, 0, 0, 0, 255);
    buf.box_blur_xy(1, 0);
    assert_eq!(buf.get_pixel(0, 1)[3], 127);
    assert_eq!(buf.get_pixel(1, 1)[3], 85);
    assert_eq!(buf.get_pixel(1, 0)[3], 0);
    let mut buf = RenderBuffer::new(3, 3).unwrap();
    buf.set_pixel(1, 1, 0, 0, 0, 255);
    buf.box_blur_xy(1, 1);
    // Row pass: 127, 85, 127 in row 1; column pass over three rows.
    assert_eq!(buf.get_pixel(1, 1)[3], 28);
    assert_eq!(buf.get_pixel(0, 0)[3], 63);
    assert_eq!(buf.get_pixel(1, 0)[3], 42);
}

#[test]
fn zero_radius_blur_changes_nothing() {
    let mut buf = RenderBuffer::new(2, 2).unwrap();
    buf.set_pixel(0, 1, 9, 8, 7, 6);
    let before = buf.pixels.clone();
    buf.box_blur(0);
    assert_eq!(buf.pixels, before);
}

#[test]
fn buffer_length_rules() {
    assert_eq!(checked_buffer_len(2, 3), Ok(24));
    assert_eq!(
        checked_buffer_len(0, 3),
        Err(RenderError::ZeroDimensions { width: 0, height: 3 })
    );
    assert_eq!(
        checked_buffer_len(16_385, 1),
        Err(RenderError::DimensionsTooLarge { width: 16_385, height: 1 })
    );
    assert_eq!(checked_buffer_len(16_384, 4_096), Ok(16_384 * 4_096 * 4));
    assert_eq!(
        checked_buffer_len(16_384, 4_097),
        Err(RenderError::AllocationTooLarge { width: 16_384, height: 4_097 })
    );
}

#[test]
fn render_error_messages_are_exact() {
    assert_eq!(
        RenderError::ZeroDimensions { width: 0, height: 5 }.message(),
        "Invalid render dimensions 0x5: dimensions must be non-zero"
    );
    assert_eq!(
        RenderError::DimensionsTooLarge { width: 20000, height: 1 }.message(),
        "Render dimensions 20000x1 exceed the 16384px limit"
    );
    assert_eq!(
        RenderError::AllocationTooLarge { width: 16384, height: 16384 }.message(),
        "Render dimensions 16384x16384 exceed the allocation limit"
    );
}

#[test]
fn new_or_empty_falls_back_to_one_pixel() {
    let b = RenderBuffer::new_or_empty(0, 4);
    assert_eq!((b.width, b.height), (1, 1));
    assert_eq!(b.pixels, vec![0u8; 4]);
    let b = RenderBuffer::new_or_empty(2, 2);
    assert_eq!(b.pixels.len(), 16);
}

#[test]
fn resize_and_clear_zero_the_pixels() {
    let mut buf = RenderBuffer::new(2, 2).unwrap();
    buf.set_pixel(1, 1, 1, 2, 3, 4);
    buf.resize(3, 1).unwrap();
    assert_eq!((buf.width, buf.height), (3, 1));
    assert!(buf.pixels.iter().all(|&p| p == 0));
    buf.set_pixel(2, 0, 1, 2, 3, 4);
    buf.clear();
    assert_eq!(buf.pixels.len(), 12);
    assert!(buf.as_bytes().iter().all(|&p| p == 0));
}

#[test]
fn pixels_outside_read_as_transparent_and_ignore_writes() {
    let mut buf = RenderBuffer::new(2, 2).unwrap();
    buf.set_pixel(2, 0, 9, 9, 9, 9);
    buf.blend_pixel(0, 5, 9, 9, 9, 9);
    assert!(buf.pixels.iter().all(|&p| p == 0));
    assert_eq!(buf.get_pixel(7, 7), [0, 0, 0, 0]);
}

#[test]
fn blend_pixel_source_over_exact() {
    let mut buf = RenderBuffer::new(1, 1).unwrap();
    buf.blend_pixel(0, 0, 200, 100, 50, 255);
    assert_eq!(buf.get_pixel(0, 0), [200, 100, 50, 255]);
    buf.blend_pixel(0, 0, 0, 0, 0, 0);
    assert_eq!(buf.get_pixel(0, 0), [200, 100, 50, 255]);
}

#[test]
fn blend_buffer_of_another_size_changes_nothing() {
    let mut destination = RenderBuffer::new(2, 1).unwrap();
    destination.set_pixel(0, 0, 1, 2, 3, 4);
    let mut source = RenderBuffer::new(1, 2).unwrap();
    source.set_pixel(0, 0, 255, 255, 255, 255);
    destination.blend_buffer(&source);
    assert_eq!(destination.get_pixel(0, 0), [1, 2, 3, 4]);
}

#[test]
fn rect_intersection_clips_to_the_buffer() {
    let buf = RenderBuffer::new(10, 8).unwrap();
    assert_eq!(buf.rect_intersection(-2, -3, 5, 5), Some((0, 0, 3, 2)));
    assert_eq!(buf.rect_intersection(8, 6, 10, 10), Some((8, 6, 10, 8)));
    assert_eq!(buf.rect_intersection(10, 0, 3, 3), None);
    assert_eq!(buf.rect_intersection(0, 0, 0, 3), None);
}

#[test]
fn pixel_count_and_coordinate_helpers() {
    assert_eq!(checked_pixel_count(3, 4), Some(12));
    assert_eq!(checked_pixel_count(0, 4), Some(0));
    assert!(bitmap_has_pixels(&[0u8; 6], 2, 3));
    assert!(!bitmap_has_pixels(&[0u8; 5], 2, 3));
    assert_eq!(add_coord(5, 3, 10), Some(8));
    assert_eq!(add_coord(-5, 3, 10), None);
    assert_eq!(add_coord(5, 5, 10), None);
}
