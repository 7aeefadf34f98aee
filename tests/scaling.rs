use watermarker::position::Position;
use watermarker::resolution::{PresetResolution, Resolution, ResolutionError};

fn hd() -> Resolution {
    Resolution::new(1280, 720)
}

#[test]
fn scaled_size_same_ratio_full_hd() {
    assert_eq!(hd().scaled_size(1920, 1080), Some((1280, 720)));
}

#[test]
fn scaled_size_same_ratio_four_times() {
    assert_eq!(hd().scaled_size(3840, 2160), Some((1280, 720)));
}

#[test]
fn scaled_size_keeps_shape_and_area() {
    let (w, h) = hd().scaled_size(1000, 500).unwrap();
    assert_eq!((w, h), (1358, 679));
    assert_eq!(w, 2 * h);
    let area = (w as i64) * (h as i64);
    assert!((area - 921_600).abs() < (w + h) as i64);
}

#[test]
fn scaled_size_rounds_half_up() {
    // the width is sqrt(9 * 1 / 4) = 1.5 exactly, the height sqrt(9 * 4 / 1) = 6
    assert_eq!(Resolution::new(3, 3).scaled_size(1, 4), Some((2, 6)));
    // sqrt(4 * 3 / 5) = 1.549..., sqrt(4 * 5 / 3) = 2.582...
    assert_eq!(Resolution::new(2, 2).scaled_size(3, 5), Some((2, 3)));
}

#[test]
fn scaled_size_empty_source() {
    assert_eq!(hd().scaled_size(0, 1080), None);
    assert_eq!(hd().scaled_size(1920, 0), None);
}

#[test]
fn scaled_size_clamps_to_one_pixel() {
    assert_eq!(hd().scaled_size(1, 4_294_967_295), Some((1, 62_914_560)));
}

#[test]
fn scaled_size_largest_sides() {
    let r = Resolution::new(u32::MAX, u32::MAX);
    assert_eq!(r.scaled_size(u32::MAX, 1), Some((u32::MAX, 65_536)));
}

#[test]
fn scaled_size_is_repeatable() {
    let first = hd().scaled_size(4000, 3000);
    let second = hd().scaled_size(4000, 3000);
    assert_eq!(first, second);
    assert_eq!(first, Some((1109, 831)));
}

#[test]
fn place_bottom_right() {
    assert_eq!(Position::BottomRight.place(1280, 720, 100, 50), (1180, 670));
}

#[test]
fn place_top_left() {
    assert_eq!(Position::TopLeft.place(1280, 720, 100, 50), (0, 0));
}

#[test]
fn place_center() {
    assert_eq!(Position::Center.place(1280, 720, 100, 50), (590, 335));
}

#[test]
fn place_other_corners() {
    assert_eq!(Position::TopRight.place(1280, 720, 100, 50), (1180, 0));
    assert_eq!(Position::BottomLeft.place(1280, 720, 100, 50), (0, 670));
}

#[test]
fn place_logo_larger_than_background() {
    assert_eq!(Position::BottomRight.place(10, 10, 15, 13), (-5, -3));
    assert_eq!(Position::Center.place(10, 10, 15, 13), (-2, -1));
}

#[test]
fn position_labels() {
    assert_eq!(Position::TopLeft.label(), "TOP-LEFT");
    assert_eq!(Position::TopRight.label(), "TOP-RIGHT");
    assert_eq!(Position::BottomLeft.label(), "BOTTOM-LEFT");
    assert_eq!(Position::BottomRight.label(), "BOTTOM-RIGHT");
    assert_eq!(Position::Center.label(), "CENTER");
}

#[test]
fn presets_by_name() {
    assert_eq!(PresetResolution::from_str("qvga"), Ok(PresetResolution::QVGA));
    assert_eq!(PresetResolution::from_str("VGA"), Ok(PresetResolution::VGA));
    assert_eq!(PresetResolution::from_str("SvGa"), Ok(PresetResolution::SVGA));
    assert_eq!(PresetResolution::from_str("hd"), Ok(PresetResolution::HD));
    assert_eq!(PresetResolution::from_str("QuadVGA"), Ok(PresetResolution::QuadVGA));
    assert_eq!(PresetResolution::from_str("FULLHD"), Ok(PresetResolution::FullHD));
    assert_eq!(PresetResolution::from_str("hdx"), Err("hdx".to_string()));
    assert_eq!(PresetResolution::from_str(""), Err(String::new()));
}

#[test]
fn preset_sizes() {
    let sizes = [
        (PresetResolution::QVGA, 320, 240),
        (PresetResolution::VGA, 640, 480),
        (PresetResolution::SVGA, 800, 600),
        (PresetResolution::HD, 1280, 720),
        (PresetResolution::QuadVGA, 1280, 960),
        (PresetResolution::FullHD, 1920, 1080),
    ];
    for (p, w, h) in sizes {
        let r = p.resolution();
        assert_eq!((r.width(), r.height()), (w, h));
    }
}

fn size_of(s: &str) -> Result<(u32, u32), ResolutionError> {
    Resolution::from_str(s).map(|r| (r.width(), r.height()))
}

#[test]
fn resolution_from_preset_name() {
    assert_eq!(size_of("HD"), Ok((1280, 720)));
    assert_eq!(size_of("fullhd"), Ok((1920, 1080)));
}

#[test]
fn resolution_from_sides() {
    assert_eq!(size_of("1280x720"), Ok((1280, 720)));
    assert_eq!(size_of("+640x0480"), Ok((640, 480)));
    assert_eq!(size_of("4294967295x1"), Ok((u32::MAX, 1)));
}

#[test]
fn resolution_invalid_token_names_it() {
    let err = size_of("abc").unwrap_err();
    assert_eq!(err, ResolutionError::Shape("abc".to_string()));
    assert_eq!(err.token(), "abc");
}

#[test]
fn resolution_wrong_shape() {
    assert_eq!(size_of("12x34x5"), Err(ResolutionError::Shape("12x34x5".to_string())));
    assert_eq!(size_of("1280X720"), Err(ResolutionError::Shape("1280X720".to_string())));
    assert_eq!(size_of(""), Err(ResolutionError::Shape(String::new())));
}

#[test]
fn resolution_bad_width() {
    assert_eq!(size_of("0x720"), Err(ResolutionError::Width("0".to_string())));
    assert_eq!(size_of("-5x720"), Err(ResolutionError::Width("-5".to_string())));
    assert_eq!(size_of("4294967296x1"), Err(ResolutionError::Width("4294967296".to_string())));
    assert_eq!(size_of("x720"), Err(ResolutionError::Width(String::new())));
    assert_eq!(size_of("+x720"), Err(ResolutionError::Width("+".to_string())));
}

#[test]
fn resolution_bad_height() {
    assert_eq!(size_of("1280x"), Err(ResolutionError::Height(String::new())));
    assert_eq!(size_of("1280x7a0"), Err(ResolutionError::Height("7a0".to_string())));
    assert_eq!(size_of("1280x0"), Err(ResolutionError::Height("0".to_string())));
}
