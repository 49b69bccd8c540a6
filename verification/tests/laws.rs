use tinydraw::{Color, ColorType, Image};

const TYPES: [ColorType; 8] = [
    ColorType::GRAY8,
    ColorType::GRAYA8,
    ColorType::GRAY16,
    ColorType::GRAYA16,
    ColorType::RGB8,
    ColorType::RGBA8,
    ColorType::RGB16,
    ColorType::RGBA16,
];

fn sample(t: ColorType) -> Color {
    match t {
        ColorType::GRAY8 => Color::GRAY8(200),
        ColorType::GRAYA8 => Color::GRAYA8([17, 3]),
        ColorType::GRAY16 => Color::GRAY16(1),
        ColorType::GRAYA16 => Color::GRAYA16([1, 0]),
        ColorType::RGB8 => Color::RGB8([0, 0, 3]),
        ColorType::RGBA8 => Color::RGBA8([0, 0, 3, 0]),
        ColorType::RGB16 => Color::RGB16([0, 0, 3]),
        ColorType::RGBA16 => Color::RGBA16([0, 0, 3, 0]),
    }
}

#[test]
fn lossless_table() {
    assert!(Image::is_lossless_conversion(ColorType::GRAY8, ColorType::RGB8));
    assert!(!Image::is_lossless_conversion(ColorType::RGB8, ColorType::GRAY8));
    assert!(Image::is_lossless_conversion(ColorType::GRAYA8, ColorType::RGBA16));
    assert!(!Image::is_lossless_conversion(ColorType::GRAYA8, ColorType::RGB16));
    assert!(!Image::is_lossless_conversion(ColorType::RGBA16, ColorType::RGBA8));
    for t in TYPES {
        assert!(Image::is_lossless_conversion(t, t));
        assert!(Image::is_lossless_conversion(ColorType::GRAY8, t));
    }
}

#[test]
fn lossless_conversions_round_trip_and_lossy_ones_do_not() {
    for t1 in TYPES {
        for t2 in TYPES {
            let mut image = Image::new(3, 2, sample(t1));
            image.set((1, 1), sample(t1)).unwrap();
            let original = image.clone();
            image.convert(t2);
            image.convert(t1);
            if Image::is_lossless_conversion(t1, t2) {
                assert_eq!(image, original, "{:?} -> {:?}", t1, t2);
            } else {
                assert_ne!(image, original, "{:?} -> {:?}", t1, t2);
            }
        }
    }
}

#[test]
fn convert_to_same_type_changes_nothing() {
    let bytes = [1u8, 2, 3, 4, 5, 6];
    let mut image = Image::from_bytes(1, 2, ColorType::RGB8, &bytes).unwrap();
    let before = image.clone();
    image.convert(ColorType::RGB8);
    assert_eq!(image, before);
}

#[test]
fn convert_maps_every_pixel() {
    let bytes = [10u8, 20, 30, 200, 100, 0];
    let mut image = Image::from_bytes(2, 1, ColorType::RGB8, &bytes).unwrap();
    image.convert(ColorType::GRAYA16);
    assert_eq!(image.get((0, 0)), Ok(Color::GRAYA16([20 * 257, 65535])));
    assert_eq!(image.get((1, 0)), Ok(Color::GRAYA16([100 * 257, 65535])));
    assert_eq!(image.background_color(), None);
    image.convert(ColorType::GRAY8);
    assert_eq!(image.as_bytes(), &[20, 100][..]);
}

#[test]
fn narrowing_rounds_to_nearest() {
    // 128 / 257 rounds down, 129 / 257 rounds up
    let mut image = Image::new(1, 1, Color::GRAY16(128));
    image.convert(ColorType::GRAY8);
    assert_eq!(image.as_bytes(), &[0][..]);
    let mut image = Image::new(1, 1, Color::GRAY16(129));
    image.convert(ColorType::GRAY8);
    assert_eq!(image.as_bytes(), &[1][..]);
    let mut image = Image::new(1, 1, Color::GRAY16(65535));
    image.convert(ColorType::GRAY8);
    assert_eq!(image.as_bytes(), &[255][..]);
    // averages round to nearest: (0 + 0 + 2) / 3 rounds up, (0 + 0 + 1) / 3 down
    let mut image = Image::new(1, 1, Color::RGB8([0, 0, 2]));
    image.convert(ColorType::GRAY8);
    assert_eq!(image.as_bytes(), &[1][..]);
    let mut image = Image::new(1, 1, Color::RGB8([0, 0, 1]));
    image.convert(ColorType::GRAY8);
    assert_eq!(image.as_bytes(), &[0][..]);
}

#[test]
fn get_after_set_and_fill() {
    let mut image = Image::new(5, 5, Color::RGBA8([1, 2, 3, 4]));
    image.set((1..3, 2..4), Color::RGBA8([9, 9, 9, 9])).unwrap();
    for x in 0..5 {
        for y in 0..5 {
            let inside = (1..3).contains(&x) && (2..4).contains(&y);
            let expected = if inside { Color::RGBA8([9, 9, 9, 9]) } else { Color::RGBA8([1, 2, 3, 4]) };
            assert_eq!(image.get((x, y)), Ok(expected));
        }
    }
    image.fill_image(Color::RGBA8([5, 6, 7, 8])).unwrap();
    for x in 0..5 {
        for y in 0..5 {
            assert_eq!(image.get((x, y)), Ok(Color::RGBA8([5, 6, 7, 8])));
        }
    }
}

#[test]
fn index_is_a_bijection() {
    let image = Image::new(4, 3, Color::GRAY16(0));
    let mut seen = vec![false; 12];
    for x in 0..4 {
        for y in 0..3 {
            let i = image.index((x, y)).unwrap();
            assert_eq!(i % 2, 0);
            assert!(!seen[i / 2]);
            seen[i / 2] = true;
        }
    }
    assert!(seen.iter().all(|s| *s));
}

#[test]
fn new_then_from_bytes_is_the_same_image() {
    for t in TYPES {
        let image = Image::new(4, 2, sample(t));
        let image2 = Image::from_bytes(4, 2, t, image.as_bytes()).unwrap();
        assert_eq!(image, image2);
    }
}
