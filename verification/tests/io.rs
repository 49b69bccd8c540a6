use tinydraw::{Color, ColorType, Error, Image};

#[test]
fn io_bytes() {
    let image = Image::new(100, 100, Color::GRAY8(255));
    let image2 = Image::from_bytes(100, 100, ColorType::GRAY8, image.as_bytes()).unwrap();

    assert_eq!(image, image2);
}

#[test]
fn from_bytes_round_trip_16_bit() {
    let image = Image::new(3, 4, Color::RGBA16([1, 300, 65535, 7]));
    let image2 = Image::from_bytes(3, 4, ColorType::RGBA16, image.as_bytes()).unwrap();
    assert_eq!(image, image2);
    assert_eq!(image2.background_color(), Some(Color::RGBA16([1, 300, 65535, 7])));
}

#[test]
fn from_bytes_wrong_size() {
    assert_eq!(Image::from_bytes(2, 2, ColorType::GRAY8, &[1, 2, 3]), Err(Error::InvalidSize));
    assert_eq!(Image::from_bytes(2, 2, ColorType::RGB8, &[0; 4]), Err(Error::InvalidSize));
    assert_eq!(Image::from_bytes(0, 0, ColorType::GRAY8, &[]), Err(Error::InvalidSize));
    assert_eq!(Image::from_bytes(usize::MAX, 3, ColorType::GRAY8, &[1, 2, 3]), Err(Error::InvalidSize));
}

#[test]
fn from_bytes_background_only_when_uniform() {
    let image = Image::from_bytes(2, 1, ColorType::RGB8, &[1, 2, 3, 1, 2, 3]).unwrap();
    assert_eq!(image.background_color(), Some(Color::RGB8([1, 2, 3])));
    let image = Image::from_bytes(2, 1, ColorType::RGB8, &[1, 2, 3, 1, 2, 4]).unwrap();
    assert_eq!(image.background_color(), None);
    assert_eq!(image.as_bytes(), &[1, 2, 3, 1, 2, 4][..]);
    assert_eq!(image.width(), 2);
    assert_eq!(image.height(), 1);
    // bytes that repeat with another period are no single color
    let image = Image::from_bytes(2, 1, ColorType::GRAYA8, &[5, 5, 5, 6]).unwrap();
    assert_eq!(image.background_color(), None);
    let image = Image::from_bytes(1, 1, ColorType::GRAYA8, &[5, 6]).unwrap();
    assert_eq!(image.background_color(), Some(Color::GRAYA8([5, 6])));
}
