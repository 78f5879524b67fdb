use artgen::color::BlendingMode;
use artgen::pixel::{blend, blend_linear};

#[test]
fn test_blend_linear() {
    assert_eq!(blend_linear(&[0, 0, 0], &[255, 128, 0], 0), [0, 0, 0]);
    assert_eq!(blend_linear(&[0, 0, 0], &[255, 128, 0], 100_000), [26, 13, 0]);
    assert_eq!(blend_linear(&[0, 0, 0], &[255, 128, 0], 500_000), [128, 64, 0]);
    assert_eq!(blend_linear(&[0, 0, 0], &[255, 128, 0], 1_000_000), [255, 128, 0]);
    assert_eq!(blend_linear(&[128, 128, 128], &[255, 128, 0], 0), [128, 128, 128]);
    assert_eq!(blend_linear(&[128, 128, 128], &[255, 128, 0], 100_000), [141, 128, 115]);
    assert_eq!(blend_linear(&[128, 128, 128], &[255, 128, 0], 500_000), [192, 128, 64]);
    assert_eq!(blend_linear(&[128, 128, 128], &[255, 128, 0], 1_000_000), [255, 128, 0]);
    assert_eq!(blend_linear(&[255, 255, 255], &[255, 128, 0], 0), [255, 255, 255]);
    assert_eq!(blend_linear(&[255, 255, 255], &[255, 128, 0], 100_000), [255, 242, 230]);
    assert_eq!(blend_linear(&[255, 255, 255], &[255, 128, 0], 500_000), [255, 192, 128]);
    assert_eq!(blend_linear(&[255, 255, 255], &[255, 128, 0], 1_000_000), [255, 128, 0]);
    assert_eq!(blend_linear(&[0, 128, 255], &[0, 10, 20], 0), [0, 128, 255]);
    assert_eq!(blend_linear(&[0, 128, 255], &[0, 10, 20], 100_000), [0, 116, 232]);
    assert_eq!(blend_linear(&[0, 128, 255], &[0, 10, 20], 500_000), [0, 69, 138]);
    assert_eq!(blend_linear(&[0, 128, 255], &[0, 10, 20], 1_000_000), [0, 10, 20]);
}

#[test]
fn test_blend_modes_at_full_opacity() {
    let b = [100u8, 0u8, 255u8];
    let t = [200u8, 128u8, 10u8];
    let full = 1_000_000;

    assert_eq!(blend(&b, &t, full, &BlendingMode::Normal), [200, 128, 10]);
    // Multiply: b*t/255 per channel
    assert_eq!(blend(&b, &t, full, &BlendingMode::Multiply), [78, 0, 10]);
    // Screen: 255 - (255-b)(255-t)/255
    assert_eq!(blend(&b, &t, full, &BlendingMode::Screen), [222, 128, 255]);
    // Darken / Lighten: channel-wise min / max
    assert_eq!(blend(&b, &t, full, &BlendingMode::Darken), [100, 0, 10]);
    assert_eq!(blend(&b, &t, full, &BlendingMode::Lighten), [200, 128, 255]);
    // Difference: |b - t|
    assert_eq!(blend(&b, &t, full, &BlendingMode::Difference), [100, 128, 245]);
}

#[test]
fn test_blend_mode_zero_opacity_keeps_bottom() {
    let b = [1u8, 2u8, 3u8];
    let t = [200u8, 128u8, 10u8];
    assert_eq!(blend(&b, &t, 0, &BlendingMode::Multiply), b);
    assert_eq!(blend(&b, &t, 0, &BlendingMode::ColorDodge), b);
    assert_eq!(blend(&b, &t, 0, &BlendingMode::SoftLight), b);
}

#[test]
fn test_blending_mode_indices() {
    assert_eq!(BlendingMode::Normal.index(), 0);
    assert_eq!(BlendingMode::Multiply.index(), 1);
    assert_eq!(BlendingMode::Screen.index(), 2);
    assert_eq!(BlendingMode::Overlay.index(), 3);
    assert_eq!(BlendingMode::Darken.index(), 4);
    assert_eq!(BlendingMode::Lighten.index(), 5);
    assert_eq!(BlendingMode::ColorDodge.index(), 6);
    assert_eq!(BlendingMode::ColorBurn.index(), 7);
    assert_eq!(BlendingMode::HardLight.index(), 8);
    assert_eq!(BlendingMode::SoftLight.index(), 9);
    assert_eq!(BlendingMode::Difference.index(), 10);
    assert_eq!(BlendingMode::Exclusion.index(), 11);
    assert_eq!(BlendingMode::default(), BlendingMode::Normal);
}
