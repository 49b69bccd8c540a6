use tinydraw::{Color, ColorType, Image};

fn conversion_test(img1_colors: (Color, Color), img2_colors: (Color, Color)) {
    assert_eq!(ColorType::from(img1_colors.0), ColorType::from(img1_colors.1));
    assert_eq!(ColorType::from(img2_colors.0), ColorType::from(img2_colors.1));

    let new_color_type = ColorType::from(img2_colors.0);

    // simple conversion
    let mut img1 = Image::new(100, 100, img1_colors.0);
    let img2 = Image::new(100, 100, img2_colors.0);
    img1.convert(new_color_type);
    assert_eq!(img1, img2);
    assert_eq!(img1.color_type(), new_color_type);

    // more complex conversion
    let mut img1 = Image::new(100, 100, img1_colors.0);
    img1.set((0, 0), img1_colors.1).unwrap();
    let mut img2 = Image::new(100, 100, img2_colors.0);
    img2.set((0, 0), img2_colors.1).unwrap();
    img1.convert(new_color_type);
    assert_eq!(img1, img2);
    assert_eq!(img1.color_type(), new_color_type);
}

#[test]
fn gray8_to_gray8() {
    conversion_test((Color::GRAY8(120), Color::GRAY8(140)), (Color::GRAY8(120), Color::GRAY8(140)));
}

#[test]
fn gray8_to_graya8() {
    conversion_test((Color::GRAY8(120), Color::GRAY8(140)), (Color::GRAYA8([120, 255]), Color::GRAYA8([140, 255])));
}

#[test]
fn gray8_to_gray16() {
    conversion_test((Color::GRAY8(120), Color::GRAY8(140)), (Color::GRAY16(30_840), Color::GRAY16(35_980)));
}

#[test]
fn gray8_to_graya16() {
    conversion_test((Color::GRAY8(120), Color::GRAY8(140)), (Color::GRAYA16([30_840, 65_535]), Color::GRAYA16([35_980, 65_535])));
}

#[test]
fn gray8_to_rgb8() {
    conversion_test((Color::GRAY8(120), Color::GRAY8(140)), (Color::RGB8([120, 120, 120]), Color::RGB8([140, 140, 140])));
}

#[test]
fn gray8_to_rgba8() {
    conversion_test(
        (Color::GRAY8(120), Color::GRAY8(140)),
        (Color::RGBA8([120, 120, 120, 255]), Color::RGBA8([140, 140, 140, 255])),
    );
}

#[test]
fn gray8_to_rgb16() {
    conversion_test(
        (Color::GRAY8(120), Color::GRAY8(140)),
        (Color::RGB16([30_840, 30_840, 30_840]), Color::RGB16([35_980, 35_980, 35_980])),
    );
}

#[test]
fn gray8_to_rgba16() {
    conversion_test(
        (Color::GRAY8(120), Color::GRAY8(140)),
        (Color::RGBA16([30_840, 30_840, 30_840, 65_535]), Color::RGBA16([35_980, 35_980, 35_980, 65_535])),
    );
}

#[test]
fn graya8_to_gray8() {
    conversion_test((Color::GRAYA8([120, 255]), Color::GRAYA8([140, 255])), (Color::GRAY8(120), Color::GRAY8(140)));
}

#[test]
fn graya8_to_graya8() {
    conversion_test(
        (Color::GRAYA8([120, 255]), Color::GRAYA8([140, 255])),
        (Color::GRAYA8([120, 255]), Color::GRAYA8([140, 255])),
    );
}

#[test]
fn graya8_to_gray16() {
    conversion_test((Color::GRAYA8([120, 255]), Color::GRAYA8([140, 255])), (Color::GRAY16(30_840), Color::GRAY16(35_980)));
}

#[test]
fn graya8_to_graya16() {
    conversion_test(
        (Color::GRAYA8([120, 255]), Color::GRAYA8([140, 255])),
        (Color::GRAYA16([30_840, 65_535]), Color::GRAYA16([35_980, 65_535])),
    );
}

#[test]
fn graya8_to_rgb8() {
    conversion_test(
        (Color::GRAYA8([120, 255]), Color::GRAYA8([140, 255])),
        (Color::RGB8([120, 120, 120]), Color::RGB8([140, 140, 140])),
    );
}

#[test]
fn graya8_to_rgba8() {
    conversion_test(
        (Color::GRAYA8([120, 255]), Color::GRAYA8([140, 255])),
        (Color::RGBA8([120, 120, 120, 255]), Color::RGBA8([140, 140, 140, 255])),
    );
}

#[test]
fn graya8_to_rgb16() {
    conversion_test(
        (Color::GRAYA8([120, 255]), Color::GRAYA8([140, 255])),
        (Color::RGB16([30_840, 30_840, 30_840]), Color::RGB16([35_980, 35_980, 35_980])),
    );
}

#[test]
fn graya8_to_rgba16() {
    conversion_test(
        (Color::GRAYA8([120, 255]), Color::GRAYA8([140, 255])),
        (Color::RGBA16([30_840, 30_840, 30_840, 65_535]), Color::RGBA16([35_980, 35_980, 35_980, 65_535])),
    );
}

#[test]
fn gray16_to_gray8() {
    conversion_test((Color::GRAY16(30_840), Color::GRAY16(35_980)), (Color::GRAY8(120), Color::GRAY8(140)));
}

#[test]
fn gray16_to_graya8() {
    conversion_test((Color::GRAY16(30_840), Color::GRAY16(35_980)), (Color::GRAYA8([120, 255]), Color::GRAYA8([140, 255])));
}

#[test]
fn gray16_to_gray16() {
    conversion_test((Color::GRAY16(30_840), Color::GRAY16(35_980)), (Color::GRAY16(30_840), Color::GRAY16(35_980)));
}

#[test]
fn gray16_to_graya16() {
    conversion_test(
        (Color::GRAY16(30_840), Color::GRAY16(35_980)),
        (Color::GRAYA16([30_840, 65_535]), Color::GRAYA16([35_980, 65_535])),
    );
}

#[test]
fn gray16_to_rgb8() {
    conversion_test((Color::GRAY16(30_840), Color::GRAY16(35_980)), (Color::RGB8([120, 120, 120]), Color::RGB8([140, 140, 140])));
}

#[test]
fn gray16_to_rgba8() {
    conversion_test(
        (Color::GRAY16(30_840), Color::GRAY16(35_980)),
        (Color::RGBA8([120, 120, 120, 255]), Color::RGBA8([140, 140, 140, 255])),
    );
}

#[test]
fn gray16_to_rgb16() {
    conversion_test(
        (Color::GRAY16(30_840), Color::GRAY16(35_980)),
        (Color::RGB16([30_840, 30_840, 30_840]), Color::RGB16([35_980, 35_980, 35_980])),
    );
}

#[test]
fn gray16_to_rgba16() {
    conversion_test(
        (Color::GRAY16(30_840), Color::GRAY16(35_980)),
        (Color::RGBA16([30_840, 30_840, 30_840, 65_535]), Color::RGBA16([35_980, 35_980, 35_980, 65_535])),
    );
}

#[test]
fn graya16_to_gray8() {
    conversion_test((Color::GRAYA16([30_840, 65_535]), Color::GRAYA16([35_980, 65_535])), (Color::GRAY8(120), Color::GRAY8(140)));
}

#[test]
fn graya16_to_graya8() {
    conversion_test(
        (Color::GRAYA16([30_840, 65_535]), Color::GRAYA16([35_980, 65_535])),
        (Color::GRAYA8([120, 255]), Color::GRAYA8([140, 255])),
    );
}

#[test]
fn graya16_to_gray16() {
    conversion_test(
        (Color::GRAYA16([30_840, 65_535]), Color::GRAYA16([35_980, 65_535])),
        (Color::GRAY16(30_840), Color::GRAY16(35_980)),
    );
}

#[test]
fn graya16_to_graya16() {
    conversion_test(
        (Color::GRAYA16([30_840, 65_535]), Color::GRAYA16([35_980, 65_535])),
        (Color::GRAYA16([30_840, 65_535]), Color::GRAYA16([35_980, 65_535])),
    );
}

#[test]
fn graya16_to_rgb8() {
    conversion_test(
        (Color::GRAYA16([30_840, 65_535]), Color::GRAYA16([35_980, 65_535])),
        (Color::RGB8([120, 120, 120]), Color::RGB8([140, 140, 140])),
    );
}

#[test]
fn graya16_to_rgba8() {
    conversion_test(
        (Color::GRAYA16([30_840, 65_535]), Color::GRAYA16([35_980, 65_535])),
        (Color::RGBA8([120, 120, 120, 255]), Color::RGBA8([140, 140, 140, 255])),
    );
}

#[test]
fn graya16_to_rgb16() {
    conversion_test(
        (Color::GRAYA16([30_840, 65_535]), Color::GRAYA16([35_980, 65_535])),
        (Color::RGB16([30_840, 30_840, 30_840]), Color::RGB16([35_980, 35_980, 35_980])),
    );
}

#[test]
fn graya16_to_rgba16() {
    conversion_test(
        (Color::GRAYA16([30_840, 65_535]), Color::GRAYA16([35_980, 65_535])),
        (Color::RGBA16([30_840, 30_840, 30_840, 65_535]), Color::RGBA16([35_980, 35_980, 35_980, 65_535])),
    );
}

#[test]
fn rgb8_to_gray8() {
    conversion_test((Color::RGB8([110, 120, 130]), Color::RGB8([140, 150, 160])), (Color::GRAY8(120), Color::GRAY8(150)));
}

#[test]
fn rgb8_to_graya8() {
    conversion_test(
        (Color::RGB8([110, 120, 130]), Color::RGB8([140, 150, 160])),
        (Color::GRAYA8([120, 255]), Color::GRAYA8([150, 255])),
    );
}

#[test]
fn rgb8_to_gray16() {
    conversion_test((Color::RGB8([110, 120, 130]), Color::RGB8([140, 150, 160])), (Color::GRAY16(30_840), Color::GRAY16(38_550)));
}

#[test]
fn rgb8_to_graya16() {
    conversion_test(
        (Color::RGB8([110, 120, 130]), Color::RGB8([140, 150, 160])),
        (Color::GRAYA16([30_840, 65_535]), Color::GRAYA16([38_550, 65_535])),
    );
}

#[test]
fn rgb8_to_rgb8() {
    conversion_test(
        (Color::RGB8([110, 120, 130]), Color::RGB8([140, 150, 160])),
        (Color::RGB8([110, 120, 130]), Color::RGB8([140, 150, 160])),
    );
}

#[test]
fn rgb8_to_rgba8() {
    conversion_test(
        (Color::RGB8([110, 120, 130]), Color::RGB8([140, 150, 160])),
        (Color::RGBA8([110, 120, 130, 255]), Color::RGBA8([140, 150, 160, 255])),
    );
}

#[test]
fn rgb8_to_rgb16() {
    conversion_test(
        (Color::RGB8([110, 120, 130]), Color::RGB8([140, 150, 160])),
        (Color::RGB16([28_270, 30_840, 33_410]), Color::RGB16([35_980, 38_550, 41_120])),
    );
}

#[test]
fn rgb8_to_rgba16() {
    conversion_test(
        (Color::RGB8([110, 120, 130]), Color::RGB8([140, 150, 160])),
        (Color::RGBA16([28_270, 30_840, 33_410, 65_535]), Color::RGBA16([35_980, 38_550, 41_120, 65_535])),
    );
}

#[test]
fn rgba8_to_gray8() {
    conversion_test(
        (Color::RGBA8([110, 120, 130, 140]), Color::RGBA8([140, 150, 160, 170])),
        (Color::GRAY8(120), Color::GRAY8(150)),
    );
}

#[test]
fn rgba8_to_graya8() {
    conversion_test(
        (Color::RGBA8([110, 120, 130, 140]), Color::RGBA8([140, 150, 160, 170])),
        (Color::GRAYA8([120, 140]), Color::GRAYA8([150, 170])),
    );
}

#[test]
fn rgba8_to_gray16() {
    conversion_test(
        (Color::RGBA8([110, 120, 130, 140]), Color::RGBA8([140, 150, 160, 170])),
        (Color::GRAY16(30_840), Color::GRAY16(38_550)),
    );
}

#[test]
fn rgba8_to_graya16() {
    conversion_test(
        (Color::RGBA8([110, 120, 130, 140]), Color::RGBA8([140, 150, 160, 170])),
        (Color::GRAYA16([30_840, 35_980]), Color::GRAYA16([38_550, 43_690])),
    );
}

#[test]
fn rgba8_to_rgb8() {
    conversion_test(
        (Color::RGBA8([110, 120, 130, 140]), Color::RGBA8([140, 150, 160, 170])),
        (Color::RGB8([110, 120, 130]), Color::RGB8([140, 150, 160])),
    );
}

#[test]
fn rgba8_to_rgba8() {
    conversion_test(
        (Color::RGBA8([110, 120, 130, 140]), Color::RGBA8([140, 150, 160, 170])),
        (Color::RGBA8([110, 120, 130, 140]), Color::RGBA8([140, 150, 160, 170])),
    );
}

#[test]
fn rgba8_to_rgb16() {
    conversion_test(
        (Color::RGBA8([110, 120, 130, 140]), Color::RGBA8([140, 150, 160, 170])),
        (Color::RGB16([28_270, 30_840, 33_410]), Color::RGB16([35_980, 38_550, 41_120])),
    );
}

#[test]
fn rgba8_to_rgba16() {
    conversion_test(
        (Color::RGBA8([110, 120, 130, 140]), Color::RGBA8([140, 150, 160, 170])),
        (Color::RGBA16([28_270, 30_840, 33_410, 35_980]), Color::RGBA16([35_980, 38_550, 41_120, 43_690])),
    );
}

#[test]
fn rgb16_to_gray8() {
    conversion_test(
        (Color::RGB16([28_270, 30_840, 33_410]), Color::RGB16([35_980, 38_550, 41_120])),
        (Color::GRAY8(120), Color::GRAY8(150)),
    );
}

#[test]
fn rgb16_to_graya8() {
    conversion_test(
        (Color::RGB16([28_270, 30_840, 33_410]), Color::RGB16([35_980, 38_550, 41_120])),
        (Color::GRAYA8([120, 255]), Color::GRAYA8([150, 255])),
    );
}

#[test]
fn rgb16_to_gray16() {
    conversion_test(
        (Color::RGB16([28_270, 30_840, 33_410]), Color::RGB16([35_980, 38_550, 41_120])),
        (Color::GRAY16(30_840), Color::GRAY16(38_550)),
    );
}

#[test]
fn rgb16_to_graya16() {
    conversion_test(
        (Color::RGB16([28_270, 30_840, 33_410]), Color::RGB16([35_980, 38_550, 41_120])),
        (Color::GRAYA16([30_840, 65_535]), Color::GRAYA16([38_550, 65_535])),
    );
}

#[test]
fn rgb16_to_rgb8() {
    conversion_test(
        (Color::RGB16([28_270, 30_840, 33_410]), Color::RGB16([35_980, 38_550, 41_120])),
        (Color::RGB8([110, 120, 130]), Color::RGB8([140, 150, 160])),
    );
}

#[test]
fn rgb16_to_rgba8() {
    conversion_test(
        (Color::RGB16([28_270, 30_840, 33_410]), Color::RGB16([35_980, 38_550, 41_120])),
        (Color::RGBA8([110, 120, 130, 255]), Color::RGBA8([140, 150, 160, 255])),
    );
}

#[test]
fn rgb16_to_rgb16() {
    conversion_test(
        (Color::RGB16([28_270, 30_840, 33_410]), Color::RGB16([35_980, 38_550, 41_120])),
        (Color::RGB16([28_270, 30_840, 33_410]), Color::RGB16([35_980, 38_550, 41_120])),
    );
}

#[test]
fn rgb16_to_rgba16() {
    conversion_test(
        (Color::RGB16([28_270, 30_840, 33_410]), Color::RGB16([35_980, 38_550, 41_120])),
        (Color::RGBA16([28_270, 30_840, 33_410, 65_535]), Color::RGBA16([35_980, 38_550, 41_120, 65_535])),
    );
}

#[test]
fn rgba16_to_gray8() {
    conversion_test(
        (Color::RGBA16([28_270, 30_840, 33_410, 65_535]), Color::RGBA16([35_980, 38_550, 41_120, 65_535])),
        (Color::GRAY8(120), Color::GRAY8(150)),
    );
}

#[test]
fn rgba16_to_graya8() {
    conversion_test(
        (Color::RGBA16([28_270, 30_840, 33_410, 65_535]), Color::RGBA16([35_980, 38_550, 41_120, 65_535])),
        (Color::GRAYA8([120, 255]), Color::GRAYA8([150, 255])),
    );
}

#[test]
fn rgba16_to_gray16() {
    conversion_test(
        (Color::RGBA16([28_270, 30_840, 33_410, 65_535]), Color::RGBA16([35_980, 38_550, 41_120, 65_535])),
        (Color::GRAY16(30_840), Color::GRAY16(38_550)),
    );
}

#[test]
fn rgba16_to_graya16() {
    conversion_test(
        (Color::RGBA16([28_270, 30_840, 33_410, 65_535]), Color::RGBA16([35_980, 38_550, 41_120, 65_535])),
        (Color::GRAYA16([30_840, 65_535]), Color::GRAYA16([38_550, 65_535])),
    );
}

#[test]
fn rgba16_to_rgb8() {
    conversion_test(
        (Color::RGBA16([28_270, 30_840, 33_410, 65_535]), Color::RGBA16([35_980, 38_550, 41_120, 65_535])),
        (Color::RGB8([110, 120, 130]), Color::RGB8([140, 150, 160])),
    );
}

#[test]
fn rgba16_to_rgba8() {
    conversion_test(
        (Color::RGBA16([28_270, 30_840, 33_410, 65_535]), Color::RGBA16([35_980, 38_550, 41_120, 65_535])),
        (Color::RGBA8([110, 120, 130, 255]), Color::RGBA8([140, 150, 160, 255])),
    );
}

#[test]
fn rgba16_to_rgb16() {
    conversion_test(
        (Color::RGBA16([28_270, 30_840, 33_410, 65_535]), Color::RGBA16([35_980, 38_550, 41_120, 65_535])),
        (Color::RGB16([28_270, 30_840, 33_410]), Color::RGB16([35_980, 38_550, 41_120])),
    );
}

#[test]
fn rgba16_to_rgba16() {
    conversion_test(
        (Color::RGBA16([28_270, 30_840, 33_410, 65_535]), Color::RGBA16([35_980, 38_550, 41_120, 65_535])),
        (Color::RGBA16([28_270, 30_840, 33_410, 65_535]), Color::RGBA16([35_980, 38_550, 41_120, 65_535])),
    );
}
