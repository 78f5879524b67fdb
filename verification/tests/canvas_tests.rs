use artgen::canvas::{
    convert_buffer_data_to_rgb_image, convert_buffer_data_to_rgba_image,
    convert_rgb8_image_to_rgba8, convert_rgba8_image_to_rgb8, get_pixel_interpolated, resize,
    Canvas, RgbaCanvas,
};

#[test]
fn test_convert_rgb8_and_rgba8() {
    let img_rgb8 = &Canvas::from_raw(
        3,
        4,
        vec![
            0, 0, 0, 255, 255, 255, 255, 0, 0, 255, 0, 0, 255, 255, 255, 255, 0, 0, 0, 0, 0, 0,
            255, 255, 255, 0, 128, 1, 2, 3, 100, 200, 201, 0, 0, 2,
        ],
    )
    .unwrap();

    let img_rgba8 = &RgbaCanvas::from_raw(
        3,
        4,
        vec![
            0, 0, 0, 255, 255, 255, 255, 255, 255, 0, 0, 255, 255, 0, 0, 255, 255, 255, 255, 255,
            255, 0, 0, 255, 0, 0, 0, 255, 0, 255, 255, 255, 255, 0, 128, 255, 1, 2, 3, 255, 100,
            200, 201, 255, 0, 0, 2, 255,
        ],
    )
    .unwrap();

    assert_eq!(convert_rgb8_image_to_rgba8(img_rgb8).as_raw(), img_rgba8.as_raw());
    assert_eq!(convert_rgb8_image_to_rgba8(img_rgb8).dimensions(), img_rgba8.dimensions());

    assert_eq!(convert_rgba8_image_to_rgb8(img_rgba8).as_raw(), img_rgb8.as_raw());
    assert_eq!(convert_rgba8_image_to_rgb8(img_rgba8).dimensions(), img_rgb8.dimensions());
}

#[test]
fn test_get_pixel_interpolated() {
    // Positions are in millionths of a pixel.
    let img = &Canvas::from_raw(
        3,
        3,
        vec![
            0u8, 0u8, 0u8, 255u8, 255u8, 255u8, 255u8, 0u8, 0u8, 255u8, 0u8, 0u8, 255u8, 255u8,
            255u8, 255u8, 0u8, 0u8, 0u8, 0u8, 0u8, 0u8, 255u8, 255u8, 255u8, 0u8, 128u8,
        ],
    )
    .unwrap();

    // Fast path
    assert_eq!(get_pixel_interpolated(img, 0, 0), [0u8, 0u8, 0u8]);
    assert_eq!(get_pixel_interpolated(img, 1_000_000, 0), [255u8, 255u8, 255u8]);
    assert_eq!(get_pixel_interpolated(img, 1_000_000, 2_000_000), [0u8, 255u8, 255u8]);

    assert_eq!(get_pixel_interpolated(img, 8_000_000, 2_000_000), [255u8, 0u8, 128u8]);
    assert_eq!(get_pixel_interpolated(img, 1_000_000, 8_000_000), [0u8, 255u8, 255u8]);
    assert_eq!(get_pixel_interpolated(img, 8_000_000, 8_000_000), [255u8, 0u8, 128u8]);

    // Linearly interpolated
    assert_eq!(get_pixel_interpolated(img, 250_000, 0), [64u8, 64u8, 64u8]);
    assert_eq!(get_pixel_interpolated(img, 500_000, 0), [128u8, 128u8, 128u8]);
    assert_eq!(get_pixel_interpolated(img, 0, 250_000), [64u8, 0u8, 0u8]);
    assert_eq!(get_pixel_interpolated(img, 0, 500_000), [128u8, 0u8, 0u8]);
    assert_eq!(get_pixel_interpolated(img, 1_500_000, 1_000_000), [255u8, 128u8, 128u8]);
    assert_eq!(get_pixel_interpolated(img, 2_000_000, 1_500_000), [255u8, 0u8, 64u8]);

    assert_eq!(get_pixel_interpolated(img, 8_000_000, 1_500_000), [255u8, 0u8, 64u8]);
    assert_eq!(get_pixel_interpolated(img, 1_500_000, 8_000_000), [128u8, 128u8, 192u8]);

    // Bilinearly interpolated
    assert_eq!(get_pixel_interpolated(img, 500_000, 500_000), [192u8, 128u8, 128u8]);
    assert_eq!(get_pixel_interpolated(img, 1_500_000, 1_500_000), [192u8, 128u8, 160u8]);
    assert_eq!(get_pixel_interpolated(img, 330_000, 1_780_000), [56u8, 84u8, 84u8]);

    assert_eq!(get_pixel_interpolated(img, 9_100_000, 8_200_000), [255u8, 0u8, 128u8]);
}

#[test]
fn test_from_raw_rejects_bad_lengths() {
    assert!(Canvas::from_raw(2, 2, vec![0u8; 12]).is_some());
    assert!(Canvas::from_raw(2, 2, vec![0u8; 11]).is_none());
    assert!(RgbaCanvas::from_raw(2, 2, vec![0u8; 16]).is_some());
    assert!(RgbaCanvas::from_raw(2, 2, vec![0u8; 12]).is_none());
}

#[test]
fn test_buffer_data_wrappers() {
    let rgba = convert_buffer_data_to_rgba_image(vec![9u8; 16], 2, 2);
    assert_eq!(rgba.dimensions(), (2, 2));
    assert_eq!(rgba.as_raw().len(), 16);
    let rgb = convert_buffer_data_to_rgb_image(vec![7u8; 12], 2, 2);
    assert_eq!(rgb.dimensions(), (2, 2));
    assert_eq!(rgb.as_raw(), &vec![7u8; 12]);
}

#[test]
fn test_canvas_pixels() {
    let mut canvas = Canvas::from_pixel(4, 3, [1, 2, 3]);
    assert_eq!(canvas.get_pixel(0, 0), [1, 2, 3]);
    assert_eq!(canvas.get_pixel(3, 2), [1, 2, 3]);
    canvas.put_pixel(2, 1, [200, 100, 50]);
    assert_eq!(canvas.get_pixel(2, 1), [200, 100, 50]);
    assert_eq!(canvas.get_pixel(1, 1), [1, 2, 3]);
    assert_eq!(canvas.get_pixel(2, 2), [1, 2, 3]);
}

#[test]
fn test_resize_dimensions() {
    let img = Canvas::from_pixel(8, 8, [255, 255, 255]);
    let out = resize(&img, 16, 16);
    assert_eq!(out.dimensions(), (16, 16));
    assert_eq!(out.as_raw().len(), 16 * 16 * 3);
    // A uniform image stays uniform under resampling.
    assert!(out.as_raw().iter().all(|&b| b == 255));
    let down = resize(&img, 4, 4);
    assert_eq!(down.dimensions(), (4, 4));
}
