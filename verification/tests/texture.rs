use rusterizer::primitives::{Float2, Float3};
use rusterizer::scalar::Scalar;
use rusterizer::shader::{LitTextureShader, PixelShader, ShaderGlobals, TextureShader};
use rusterizer::texture::{PngColor, PngFrame, Texture, TextureError, TextureFormat};

fn fx(v: f64) -> Scalar {
    Scalar::from_raw((v * 4294967296.0).round() as i64)
}

fn f2(x: f64, y: f64) -> Float2 {
    Float2::new(fx(x), fx(y))
}

fn byte_color(r: u8, g: u8, b: u8) -> Float3 {
    Float3::new(
        Scalar::from_int(r as i32),
        Scalar::from_int(g as i32),
        Scalar::from_int(b as i32),
    )
    .shrink(Scalar::from_int(255))
}

fn raw_texture(width: u16, height: u16) -> Vec<u8> {
    let mut bytes = vec![
        (width & 0xff) as u8,
        (width >> 8) as u8,
        (height & 0xff) as u8,
        (height >> 8) as u8,
    ];
    for y in 0..height {
        for x in 0..width {
            bytes.push(x as u8);
            bytes.push(y as u8);
            bytes.push(200);
        }
    }
    bytes
}

fn encode_png(width: u32, height: u32, color: png::ColorType, data: &[u8]) -> Vec<u8> {
    let mut out = Vec::new();
    {
        let mut encoder = png::Encoder::new(&mut out, width, height);
        encoder.set_color(color);
        encoder.set_depth(png::BitDepth::Eight);
        let mut writer = encoder.write_header().unwrap();
        writer.write_image_data(data).unwrap();
    }
    out
}

#[test]
fn raw_format_is_read_row_by_row() {
    let texture = Texture::from_bytes(&raw_texture(300, 2)).unwrap();
    assert_eq!(texture.width(), 300);
    assert_eq!(texture.height(), 2);
    assert_eq!(texture.len(), 600);
    assert_eq!(texture.sample(f2(0.0, 0.0)), byte_color(0, 0, 200));
    assert_eq!(texture.sample(f2(0.999999, 0.0)), byte_color(42, 0, 200));
    assert_eq!(texture.sample(f2(0.5, 0.999999)), byte_color(149, 0, 200));
}

#[test]
fn raw_format_errors() {
    assert_eq!(Texture::from_bytes(&[1, 0, 1]).err(), Some(TextureError::TooShort));
    assert_eq!(Texture::from_bytes(&[]).err(), Some(TextureError::TooShort));
    let partial = Texture::from_bytes(&[3, 0, 3, 0, 1, 2, 3]).unwrap();
    assert_eq!((partial.width(), partial.height(), partial.len()), (3, 3, 1));
    assert!(!partial.is_complete());
    assert_eq!(partial.sample_checked(f2(0.0, 0.0)), Some(byte_color(1, 2, 3)));
    assert_eq!(partial.sample(f2(0.0, 0.0)), byte_color(1, 2, 3));
    assert_eq!(partial.sample_checked(f2(0.6, 0.0)), None);
    assert_eq!(partial.sample_checked(f2(0.0, 0.6)), None);
    let bare = Texture::from_bytes(&[2, 0, 2, 0]).unwrap();
    assert_eq!((bare.width(), bare.height(), bare.len()), (2, 2, 0));
    assert!(!bare.is_complete());
    assert_eq!(bare.sample_checked(f2(0.0, 0.0)), None);
    assert_eq!(
        Texture::from_bytes(&[0, 0, 2, 0, 1, 2, 3]).err(),
        Some(TextureError::DimensionMismatch)
    );
    assert_eq!(
        Texture::from_bytes(&[1, 0, 0, 0, 1, 2, 3]).err(),
        Some(TextureError::DimensionMismatch)
    );
    let extra = Texture::from_bytes(&[1, 0, 1, 0, 1, 2, 3, 4, 5, 6, 7]).unwrap();
    assert_eq!(extra.len(), 2);
    assert!(extra.is_complete());
    assert_eq!(extra.sample(f2(0.7, 0.7)), byte_color(1, 2, 3));
    assert_eq!(extra.sample_checked(f2(0.7, 0.7)), Some(byte_color(1, 2, 3)));
}

#[test]
fn sampling_wraps_around() {
    let texture = Texture::from_bytes(&raw_texture(5, 5)).unwrap();
    let inside = texture.sample(f2(0.5, 0.75));
    assert_eq!(inside, byte_color(2, 3, 200));
    assert_eq!(texture.sample(f2(1.5, 0.75)), inside);
    assert_eq!(texture.sample(f2(-0.5, -0.25)), inside);
    assert_eq!(texture.sample(f2(7.5, -3.25)), inside);
    assert_eq!(texture.sample(f2(1.0, 1.0)), byte_color(0, 0, 200));
}

#[test]
fn png_rows_are_turned_upside_down() {
    let data: Vec<u8> = vec![
        10, 11, 12, 20, 21, 22, // top row
        30, 31, 32, 40, 41, 42, // middle row
        50, 51, 52, 60, 61, 62, // bottom row
    ];
    let file = encode_png(2, 3, png::ColorType::Rgb, &data);
    let texture = Texture::from_png(&file).unwrap();
    assert_eq!((texture.width(), texture.height()), (2, 3));
    assert_eq!(texture.sample(f2(0.0, 0.0)), byte_color(50, 51, 52));
    assert_eq!(texture.sample(f2(0.0, 0.999999)), byte_color(30, 31, 32));
    let via_file = Texture::from_file("png", &file).unwrap();
    assert_eq!(via_file.sample(f2(0.0, 0.0)), byte_color(50, 51, 52));
}

#[test]
fn png_alpha_is_dropped() {
    let data: Vec<u8> = vec![10, 11, 12, 255, 20, 21, 22, 0, 30, 31, 32, 7, 40, 41, 42, 9];
    let file = encode_png(2, 2, png::ColorType::Rgba, &data);
    let texture = Texture::from_png(&file).unwrap();
    assert_eq!(texture.len(), 4);
    assert_eq!(texture.sample(f2(0.0, 0.0)), byte_color(30, 31, 32));
    assert_eq!(texture.sample(f2(0.0, 0.6)), byte_color(30, 31, 32));
}

#[test]
fn png_errors() {
    assert_eq!(Texture::from_png(&[1, 2, 3, 4]).err(), Some(TextureError::Decode));
    assert_eq!(Texture::from_png(&[]).err(), Some(TextureError::Decode));
    let gray = encode_png(2, 2, png::ColorType::Grayscale, &[1, 2, 3, 4]);
    assert_eq!(Texture::from_png(&gray).err(), Some(TextureError::UnsupportedColorType));
}

#[test]
fn frames_are_checked_against_their_size() {
    let frame = PngFrame { width: 2, height: 2, color: PngColor::Rgb, data: vec![0; 12] };
    assert!(Texture::from_png_frame(&frame).is_ok());
    let long = PngFrame { width: 2, height: 2, color: PngColor::Rgb, data: vec![0; 17] };
    assert!(Texture::from_png_frame(&long).is_ok());
    let short = PngFrame { width: 2, height: 2, color: PngColor::Rgb, data: vec![0; 11] };
    assert_eq!(Texture::from_png_frame(&short).err(), Some(TextureError::DimensionMismatch));
    let tall = PngFrame { width: 2, height: 2, color: PngColor::Rgb, data: vec![0; 18] };
    assert_eq!(Texture::from_png_frame(&tall).err(), Some(TextureError::DimensionMismatch));
    let empty = PngFrame { width: 0, height: 2, color: PngColor::Rgba, data: vec![] };
    assert_eq!(Texture::from_png_frame(&empty).err(), Some(TextureError::DimensionMismatch));
    let indexed = PngFrame { width: 1, height: 1, color: PngColor::Indexed, data: vec![0] };
    assert_eq!(Texture::from_png_frame(&indexed).err(), Some(TextureError::UnsupportedColorType));
}

#[test]
fn extension_picks_the_format() {
    assert_eq!(TextureFormat::from_extension("png"), Some(TextureFormat::Png));
    assert_eq!(TextureFormat::from_extension("bytes"), Some(TextureFormat::Bytes));
    assert_eq!(TextureFormat::from_extension("PNG"), None);
    assert_eq!(TextureFormat::from_extension("jpg"), None);
    assert_eq!(TextureFormat::from_extension(""), None);
    assert_eq!(TextureFormat::from_extension("pñg"), None);
    assert_eq!(
        Texture::from_file("jpg", &raw_texture(2, 2)).err(),
        Some(TextureError::UnsupportedExtension)
    );
    assert!(Texture::from_file("bytes", &raw_texture(2, 2)).is_ok());
    assert_eq!(Texture::from_file("png", &raw_texture(2, 2)).err(), Some(TextureError::Decode));
}

fn dagger_png() -> Vec<u8> {
    let mut data = vec![0u8; 512 * 512 * 4];
    for row in 0..512usize {
        for col in 0..512usize {
            let at = (row * 512 + col) * 4;
            data[at] = (col % 251) as u8;
            data[at + 1] = (row % 241) as u8;
            data[at + 2] = 7;
            data[at + 3] = 255;
        }
    }
    let maroon = [79u8, 33, 33];
    for (col, row, colour) in [
        (510usize, 511usize, [80u8, 57, 44]),
        (442, 134, maroon),
        (443, 134, maroon),
        (442, 135, maroon),
        (443, 135, maroon),
    ] {
        let at = (row * 512 + col) * 4;
        data[at..at + 3].copy_from_slice(&colour);
    }
    encode_png(512, 512, png::ColorType::Rgba, &data)
}

#[test]
fn test_texture_from_png() {
    let texture = Texture::from_file("png", &dagger_png());
    assert!(texture.is_ok(), "Failed to load texture: {:?}", texture.err());
    let texture = texture.unwrap();
    assert_eq!(texture.width(), 512);
    assert_eq!(texture.height(), 512);
    assert!(texture.len() != 0, "Texture data should not be empty");
}

#[test]
fn test_texture_from_bytes() {
    let mut bytes = vec![0u8, 4, 0, 4];
    bytes.resize(4 + 1024 * 1024 * 3, 9);
    let texture = Texture::from_file("bytes", &bytes);
    assert!(texture.is_ok(), "Failed to load texture: {:?}", texture.err());
    let texture = texture.unwrap();
    assert_eq!(texture.width(), 1024);
    assert_eq!(texture.height(), 1024);
    assert!(texture.len() != 0, "Texture data should not be empty");
}

#[test]
fn test_sample() {
    let texture = Texture::from_file("png", &dagger_png()).unwrap();

    let uv = f2(510.9, 0.1) / fx(511.0);
    assert_eq!(texture.sample(uv), byte_color(80, 57, 44));

    let uv = f2(443.0, 377.0) / fx(511.0);
    assert_eq!(texture.sample(uv), byte_color(79, 33, 33));
}

#[test]
fn a_cloned_texture_samples_alike() {
    let texture = Texture::from_bytes(&raw_texture(7, 5)).unwrap();
    let copy = texture.clone();
    assert_eq!((copy.width(), copy.height(), copy.len()), (7, 5, 35));
    for (u, v) in [(0.0, 0.0), (0.3, 0.9), (0.99, 0.5), (-1.25, 7.75)] {
        assert_eq!(copy.sample(f2(u, v)), texture.sample(f2(u, v)));
    }
}

#[test]
fn texture_shaders_sample_their_texture() {
    let texture = Texture::from_bytes(&raw_texture(5, 5)).unwrap();
    assert!(texture.is_complete());
    let globals = ShaderGlobals::default();
    let plain = TextureShader::new(texture.clone());
    let uv = f2(0.5, 0.75);
    assert_eq!(
        plain.pixel_color(f2(0.0, 0.0), uv, Float3::forward(), fx(1.0), &globals),
        byte_color(2, 3, 200)
    );
    assert_eq!(plain.texture().sample(uv), byte_color(2, 3, 200));
    let lit = LitTextureShader::new(texture);
    let facing = ShaderGlobals { sun_direction_cam_space: Float3::forward(), time: fx(0.0) };
    let away = ShaderGlobals { sun_direction_cam_space: Float3::forward().neg(), time: fx(0.0) };
    let bright = lit.pixel_color(f2(0.0, 0.0), uv, Float3::forward(), fx(1.0), &facing);
    let dark = lit.pixel_color(f2(0.0, 0.0), uv, Float3::forward(), fx(1.0), &away);
    assert!(Float3::approx_eq(bright, byte_color(2, 3, 200), fx(1e-6)));
    assert!(Float3::approx_eq(dark, byte_color(2, 3, 200).scale(fx(0.4)), fx(1e-6)));
    assert_eq!(lit.clone().texture().len(), 25);
}
