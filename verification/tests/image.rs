use tinydraw::{Color, ColorType, Error, Image};

#[test]
fn test_new() {
    let width = 100;
    let height = 100;
    let image = Image::new(width, height, Color::GRAY8(255));

    assert_eq!(image.width(), width);
    assert_eq!(image.height(), height);
    assert_eq!(image.color_type(), ColorType::GRAY8);
    assert_eq!(image.background_color(), Some(Color::GRAY8(255)));
    assert_eq!(image.as_bytes(), &vec![255; width * height][..]);
}

#[test]
fn test_getters() {
    let width = 100;
    let height = 100;
    let mut image = Image::new(width, height, Color::GRAY8(255));

    assert_eq!(image.width(), width);
    assert_eq!(image.height(), height);
    assert_eq!(image.color_type(), ColorType::GRAY8);
    assert_eq!(image.as_bytes(), &vec![255; width * height][..]);
    assert_eq!(image.as_bytes_mut(), &mut vec![255; width * height]);
    assert_eq!(image.background_color(), Some(Color::GRAY8(255)));
}

/// A 100 x 100 GRAY8 image of 255 whose last byte is 0: its pixels differ, so it has no
/// background color.
fn image_without_background() -> Image {
    let mut bytes = vec![255u8; 100 * 100];
    bytes[100 * 100 - 1] = 0;
    let image = Image::from_bytes(100, 100, ColorType::GRAY8, &bytes).unwrap();
    assert_eq!(image.background_color(), None);
    image
}

#[test]
fn test_background_color() {
    let mut image = Image::new(100, 100, Color::GRAY8(255));
    assert_eq!(image.background_color(), Some(Color::GRAY8(255)));
    assert_eq!(image.set_background_color(Color::RGB8([255, 0, 0])), Err(Error::WrongColor));
    assert_eq!(image.background_color(), Some(Color::GRAY8(255)));
    assert_eq!(image.set_background_color(Color::GRAY8(0)), Ok(()));
    assert_eq!(image.background_color(), Some(Color::GRAY8(0)));
    let mut image = image_without_background();
    assert_eq!(image.background_color(), None);
    assert_eq!(image.set_background_color(Color::GRAYA8([0, 0])), Err(Error::WrongColor));
    assert_eq!(image.background_color(), None);
    assert_eq!(image.set_background_color(Color::GRAY8(0)), Ok(()));
    assert_eq!(image.background_color(), Some(Color::GRAY8(0)));
}

#[test]
fn test_clear() {
    let mut image = Image::new(100, 100, Color::GRAY8(255));
    image.clear();
    assert_eq!(image.as_bytes(), &vec![255; 100 * 100][..]);
    let mut image = image_without_background();
    let before = image.as_bytes().to_vec();
    image.clear();
    assert_eq!(image.as_bytes(), &before[..]);
    image.set_background_color(Color::GRAY8(0)).unwrap();
    image.clear();
    assert_eq!(image.as_bytes(), &vec![0; 100 * 100][..]);
}

#[test]
fn test_fill() {
    let mut image = Image::new(100, 100, Color::GRAY8(255));
    image.fill_image(Color::GRAY8(0)).unwrap();
    assert_eq!(image.as_bytes(), &vec![0; 100 * 100][..]);
    image.fill_image(Color::GRAY8(255)).unwrap();
    assert_eq!(image.as_bytes(), &vec![255; 100 * 100][..]);
    assert_eq!(image.fill_image(Color::RGB8([255, 0, 0])), Err(Error::WrongColor));
}

#[test]
fn new_repeats_the_color_bytes() {
    let image = Image::new(2, 3, Color::RGB8([1, 2, 3]));
    assert_eq!(image.as_bytes(), &[1, 2, 3, 1, 2, 3, 1, 2, 3, 1, 2, 3, 1, 2, 3, 1, 2, 3][..]);
    let image = Image::new(0, 5, Color::RGBA16([1, 2, 3, 4]));
    assert_eq!(image.as_bytes().len(), 0);
    assert_eq!(image.color_type(), ColorType::RGBA16);
}

#[test]
fn new_stores_16_bit_channels_in_native_order() {
    let image = Image::new(1, 1, Color::GRAYA16([0x1234, 0xabcd]));
    let mut expected = 0x1234u16.to_ne_bytes().to_vec();
    expected.extend_from_slice(&0xabcdu16.to_ne_bytes());
    assert_eq!(image.as_bytes(), &expected[..]);
}

#[test]
fn fill_keeps_size_and_background() {
    let mut image = Image::new(3, 2, Color::GRAYA8([7, 8]));
    image.fill_image(Color::GRAYA8([1, 2])).unwrap();
    assert_eq!(image.as_bytes(), &[1, 2, 1, 2, 1, 2, 1, 2, 1, 2, 1, 2][..]);
    assert_eq!(image.background_color(), Some(Color::GRAYA8([7, 8])));
    image.clear();
    assert_eq!(image.as_bytes(), &[7, 8, 7, 8, 7, 8, 7, 8, 7, 8, 7, 8][..]);
}

#[test]
fn as_bytes_mut_writes_through() {
    let mut image = Image::new(2, 1, Color::GRAY8(0));
    image.as_bytes_mut()[1] = 9;
    assert_eq!(image.get((1, 0)), Ok(Color::GRAY8(9)));
}

#[test]
fn bytes_per_pixel_of_types_and_colors() {
    assert_eq!(ColorType::GRAY8.bytes_per_pixel(), 1);
    assert_eq!(ColorType::GRAYA8.bytes_per_pixel(), 2);
    assert_eq!(ColorType::GRAY16.bytes_per_pixel(), 2);
    assert_eq!(ColorType::GRAYA16.bytes_per_pixel(), 4);
    assert_eq!(ColorType::RGB8.bytes_per_pixel(), 3);
    assert_eq!(ColorType::RGBA8.bytes_per_pixel(), 4);
    assert_eq!(ColorType::RGB16.bytes_per_pixel(), 6);
    assert_eq!(ColorType::RGBA16.bytes_per_pixel(), 8);
    assert_eq!(Color::RGBA16([0, 0, 0, 0]).bytes_per_pixel(), 8);
    assert_eq!(Color::GRAYA8([0, 0]).bytes_per_pixel(), 2);
    assert_eq!(ColorType::from(Color::RGB16([1, 2, 3])), ColorType::RGB16);
}

#[test]
fn color_as_bytes_and_from_bytes() {
    assert_eq!(Color::RGBA8([1, 2, 3, 4]).as_bytes(), vec![1, 2, 3, 4]);
    let c = Color::RGB16([0x0102, 0x0304, 0x0506]);
    let bytes = c.as_bytes();
    let mut expected = Vec::new();
    for v in [0x0102u16, 0x0304, 0x0506] {
        expected.extend_from_slice(&v.to_ne_bytes());
    }
    assert_eq!(bytes, expected);
    assert_eq!(Color::from_bytes(ColorType::RGB16, &bytes), c);
    assert_eq!(Color::from_bytes(ColorType::GRAY16, &0xbeefu16.to_ne_bytes()), Color::GRAY16(0xbeef));
}

#[test]
fn texts() {
    assert_eq!(ColorType::RGBA16.to_string(), "RGBA16");
    assert_eq!(Color::GRAY8(255).to_string(), "GRAY8(255)");
    assert_eq!(Color::GRAYA16([0, 65535]).to_string(), "GRAYA16([0, 65535])");
    assert_eq!(Color::RGB8([255, 0, 10]).to_string(), "RGB8([255, 0, 10])");
    assert_eq!(Error::WrongColor.to_string(), "Error: Wrong color!");
    assert_eq!(Error::IndexOutOfBounds.to_string(), "Error: Index out of bounds!");
    let image = Image::new(2, 1, Color::GRAYA8([1, 20]));
    assert_eq!(
        image.to_string(),
        "Image { width: 2, height: 1, color_type: GRAYA8, background_color: GRAYA8([1, 20]), data: [1, 20, 1, 20] }"
    );
    let image = Image::from_bytes(2, 1, ColorType::GRAY8, &[3, 4]).unwrap();
    assert_eq!(
        image.to_string(),
        "Image { width: 2, height: 1, color_type: GRAY8, background_color: None, data: [3, 4] }"
    );
}
