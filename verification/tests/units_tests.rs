use artgen::files::{FileFormat, ImageFileFormat};
use artgen::geom::find_target_draw_rect;
use artgen::units::{Margins, Rectangle, SizeUnit, UnitMargins};
use artgen::workgroups::{
    get_workgroup_count_depth, get_workgroup_count_height, get_workgroup_count_width,
    get_workgroup_depth, get_workgroup_height, get_workgroup_width,
};

#[test]
fn test_size_unit() {
    // Fraction, in millionths
    assert_eq!(SizeUnit::Fraction(0).to_pixels(100), 0);
    assert_eq!(SizeUnit::Fraction(500_000).to_pixels(100), 50);
    assert_eq!(SizeUnit::Fraction(494_000).to_pixels(100), 49);
    assert_eq!(SizeUnit::Fraction(178_000).to_pixels(100), 18);

    // Pixels
    assert_eq!(SizeUnit::Pixels(10).to_pixels(100), 10);
    assert_eq!(SizeUnit::Pixels(20).to_pixels(200), 20);
    assert_eq!(SizeUnit::Pixels(30).to_pixels(100), 30);
    assert_eq!(SizeUnit::Pixels(40).to_pixels(200), 40);
}

#[test]
fn test_rect() {
    let mut rect = Rectangle { x: 0, y: 0, width: 200, height: 100 };

    assert_eq!(rect.x, 0);
    assert_eq!(rect.y, 0);
    assert_eq!(rect.width, 200);
    assert_eq!(rect.height, 100);

    rect.apply_margins(Margins { top: 0, right: 10, bottom: 20, left: 30 });

    assert_eq!(rect.x, 30);
    assert_eq!(rect.y, 0);
    assert_eq!(rect.width, 160);
    assert_eq!(rect.height, 80);
}

#[test]
fn test_margins() {
    let ms = UnitMargins {
        top: SizeUnit::Fraction(500_000),
        right: SizeUnit::Fraction(123_000),
        bottom: SizeUnit::Fraction(987_000),
        left: SizeUnit::Fraction(0),
    };

    assert_eq!(ms.to_pixels(200, 300), Margins { top: 150, right: 25, bottom: 296, left: 0 });
    assert_eq!(ms.to_pixels(100, 100), Margins { top: 50, right: 12, bottom: 99, left: 0 });
}

#[test]
fn test_find_target_draw_rect_plain() {
    let margins = UnitMargins {
        top: SizeUnit::Pixels(5),
        right: SizeUnit::Pixels(10),
        bottom: SizeUnit::Pixels(15),
        left: SizeUnit::Pixels(20),
    };
    let rect = find_target_draw_rect((200, 100), &margins).unwrap();
    assert_eq!(rect, Rectangle { x: 20, y: 5, width: 170, height: 80 });
}

#[test]
fn test_find_target_draw_rect_degenerate() {
    // Margins beyond the canvas bounds leave no drawable area.
    let margins = UnitMargins {
        top: SizeUnit::Fraction(2_000_000),
        right: SizeUnit::Fraction(2_000_000),
        bottom: SizeUnit::Fraction(2_000_000),
        left: SizeUnit::Fraction(2_000_000),
    };
    let r = find_target_draw_rect((64, 64), &margins);
    assert_eq!(r, Err(artgen::error::CandidateError::DegenerateArea));
}

#[test]
fn test_workgroups() {
    assert_eq!(get_workgroup_width(), 16);
    assert_eq!(get_workgroup_height(), 16);
    assert_eq!(get_workgroup_depth(), 1);
    assert_eq!(get_workgroup_count_width(0), 0);
    assert_eq!(get_workgroup_count_width(1), 1);
    assert_eq!(get_workgroup_count_width(16), 1);
    assert_eq!(get_workgroup_count_width(17), 2);
    assert_eq!(get_workgroup_count_height(1024), 64);
    assert_eq!(get_workgroup_count_depth(3), 3);
}

#[test]
fn test_file_format_from_path() {
    assert_eq!(FileFormat::from_path("output.png"), Ok(FileFormat::PNG));
    assert_eq!(FileFormat::from_path("photo.JPG"), Ok(FileFormat::JPEG));
    assert_eq!(FileFormat::from_path("photo.jpeg"), Ok(FileFormat::JPEG));
    assert_eq!(FileFormat::from_path("dir.with.dots/file.PNG"), Ok(FileFormat::PNG));
    assert!(FileFormat::from_path("noextension").is_err());
    assert!(FileFormat::from_path("image.gif").is_err());
    assert!(FileFormat::from_path("trailingdot.").is_err());
}

#[test]
fn test_image_file_format_from_path() {
    assert_eq!(ImageFileFormat::from_path("out.png"), Ok(ImageFileFormat::PNG));
    assert_eq!(ImageFileFormat::from_path("out.Jpeg"), Ok(ImageFileFormat::JPEG));
    assert!(ImageFileFormat::from_path("out.bmp").is_err());
}

#[test]
fn test_native_format_roundtrip() {
    assert_eq!(FileFormat::PNG.get_native_format(), image::ImageFormat::Png);
    assert_eq!(FileFormat::JPEG.get_native_format(), image::ImageFormat::Jpeg);
    assert_eq!(ImageFileFormat::PNG.get_native_format(), image::ImageFormat::Png);
    assert_eq!(ImageFileFormat::JPEG.get_native_format(), image::ImageFormat::Jpeg);
}
