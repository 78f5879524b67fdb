use artgen::canvas::Canvas;
use artgen::engine::Generator;

#[test]
fn test_diff_simple() {
    diff_images(8, 8);
}

#[test]
fn test_diff_small() {
    diff_images(66, 67);
}

#[test]
fn test_diff_rect() {
    diff_images(2, 88);
}

#[test]
fn test_diff_large() {
    diff_images(1024, 1024);
}

fn diff_images(width: u32, height: u32) {
    let white_img = Canvas::from_pixel(width, height, [255u8, 255u8, 255u8]);
    let black_img = Canvas::from_pixel(width, height, [0u8, 0u8, 0u8]);
    let mut half_black_img = Canvas::from_pixel(width, height, [255u8, 255u8, 255u8]);
    for x in 0..width {
        for y in 0..height {
            if x % 2 == 0 {
                half_black_img.put_pixel(x, y, [0u8, 0u8, 0u8]);
            }
        }
    }
    let red_img = Canvas::from_pixel(width, height, [255u8, 0u8, 0u8]);
    let green_img = Canvas::from_pixel(width, height, [0u8, 255u8, 0u8]);
    let blue_img = Canvas::from_pixel(width, height, [0u8, 0u8, 255u8]);

    // Distances in ten-thousandths of the whole unit; the luma weights are
    // 0.2126, 0.7152 and 0.0722.
    assert_eq!(Generator::diff(&white_img, &white_img).permyriad(), 0);
    assert_eq!(Generator::diff(&white_img, &black_img).permyriad(), 10000);
    assert_eq!(Generator::diff(&white_img, &half_black_img).permyriad(), 5000);
    assert_eq!(Generator::diff(&black_img, &half_black_img).permyriad(), 5000);

    // Luma-based differences
    assert_eq!(Generator::diff(&white_img, &red_img).permyriad(), 7152 + 722);
    assert_eq!(Generator::diff(&black_img, &red_img).permyriad(), 2126);
    assert_eq!(Generator::diff(&white_img, &green_img).permyriad(), 2126 + 722);
    assert_eq!(Generator::diff(&black_img, &green_img).permyriad(), 7152);
    assert_eq!(Generator::diff(&white_img, &blue_img).permyriad(), 2126 + 7152);
    assert_eq!(Generator::diff(&black_img, &blue_img).permyriad(), 722);
}

#[test]
fn test_diff_symmetry_and_exactness() {
    let mut a = Canvas::from_pixel(5, 5, [10, 20, 30]);
    let b = Canvas::from_pixel(5, 5, [10, 21, 30]);
    a.put_pixel(3, 3, [0, 0, 0]);

    let ab = Generator::diff(&a, &b);
    let ba = Generator::diff(&b, &a);
    assert_eq!(ab.num, ba.num);
    assert_eq!(ab.den, ba.den);

    // The denominator is fixed by the canvas size alone.
    assert_eq!(ab.den, 2_550_000 * 25);

    let aa = Generator::diff(&a, &a);
    assert_eq!(aa.num, 0);
}
