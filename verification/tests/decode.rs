use framecore::graphics::{Rgb, Sprite};
use png_decoder::{BitDepth, ColorType};

fn crc32(data: &[u8]) -> u32 {
    let mut c: u32 = 0xFFFF_FFFF;
    for &b in data {
        c ^= b as u32;
        for _ in 0..8 {
            if c & 1 != 0 {
                c = (c >> 1) ^ 0xEDB8_8320;
            } else {
                c >>= 1;
            }
        }
    }
    !c
}

fn adler32(data: &[u8]) -> u32 {
    let mut a: u32 = 1;
    let mut b: u32 = 0;
    for &byte in data {
        a = (a + byte as u32) % 65521;
        b = (b + a) % 65521;
    }
    (b << 16) | a
}

fn chunk(tag: &[u8; 4], data: &[u8]) -> Vec<u8> {
    let mut out = Vec::new();
    out.extend_from_slice(&(data.len() as u32).to_be_bytes());
    out.extend_from_slice(tag);
    out.extend_from_slice(data);
    let mut crc_input = Vec::new();
    crc_input.extend_from_slice(tag);
    crc_input.extend_from_slice(data);
    out.extend_from_slice(&crc32(&crc_input).to_be_bytes());
    out
}

/// Encode `rows` (one slice of samples per scanline) as an uncompressed PNG
/// with the given colour type and samples per pixel.
fn build_png(width: u32, height: u32, color_type: u8, rows: &[&[u8]]) -> Vec<u8> {
    let mut png: Vec<u8> = vec![137, 80, 78, 71, 13, 10, 26, 10];

    let mut ihdr = Vec::new();
    ihdr.extend_from_slice(&width.to_be_bytes());
    ihdr.extend_from_slice(&height.to_be_bytes());
    ihdr.push(8); // bit depth
    ihdr.push(color_type);
    ihdr.push(0); // compression
    ihdr.push(0); // filter
    ihdr.push(0); // interlace
    png.extend_from_slice(&chunk(b"IHDR", &ihdr));

    let mut raw = Vec::new();
    for row in rows {
        raw.push(0); // filter type: none
        raw.extend_from_slice(row);
    }
    let mut zlib = vec![0x78, 0x01, 0x01]; // no compression; final stored block
    zlib.extend_from_slice(&(raw.len() as u16).to_le_bytes());
    zlib.extend_from_slice(&(!(raw.len() as u16)).to_le_bytes());
    zlib.extend_from_slice(&raw);
    zlib.extend_from_slice(&adler32(&raw).to_be_bytes());
    png.extend_from_slice(&chunk(b"IDAT", &zlib));

    png.extend_from_slice(&chunk(b"IEND", &[]));
    png
}

/// The process edge's decode step, as the application performs it before
/// handing the core plain values: unpack the container, insist on the
/// fixed 8-bit RGBA layout, and build the sprite from the byte stream.
fn decode_to_sprite(bytes: &[u8]) -> Sprite {
    let (header, pixels) = png_decoder::decode(bytes).expect("asset must decode");
    assert_eq!(
        (header.color_type, header.bit_depth),
        (ColorType::RgbAlpha, BitDepth::Eight),
        "asset must be 8-bit RGBA"
    );
    let data = pixels.into_flattened();
    let width = header.width as usize;
    let height = header.height as usize;
    assert_eq!(data.len(), 4 * width * height);
    Sprite::from_rgba(width, height, &data)
}

fn rgb(red: u8, green: u8, blue: u8) -> Rgb {
    Rgb { red, green, blue }
}

#[test]
fn decode_marks_zero_alpha_texels_transparent() {
    // 2x2 RGBA image, alpha 0 in the bottom-right corner only.
    let png = build_png(
        2,
        2,
        6,
        &[
            &[255, 0, 0, 255, 0, 255, 0, 255],
            &[0, 0, 255, 255, 77, 88, 99, 0],
        ],
    );
    let s = decode_to_sprite(&png);
    assert_eq!(s.width(), 2);
    assert_eq!(s.height(), 2);
    assert_eq!(s.pixels.len(), 4);
    assert_eq!(s.pixels[0], Some(rgb(255, 0, 0)));
    assert_eq!(s.pixels[1], Some(rgb(0, 255, 0)));
    assert_eq!(s.pixels[2], Some(rgb(0, 0, 255)));
    assert_eq!(s.pixels[3], None);
}

#[test]
fn decode_keeps_partial_alpha_opaque() {
    // Binary cutout only: any non-zero alpha keeps the texel's RGB value.
    let png = build_png(1, 1, 6, &[&[10, 20, 30, 1]]);
    let s = decode_to_sprite(&png);
    assert_eq!(s.pixels[0], Some(rgb(10, 20, 30)));
}

#[test]
fn decoder_rejects_malformed_bytes() {
    // The setup edge treats each of these as a fatal packaging defect.
    assert!(png_decoder::decode(&[]).is_err());
    assert!(png_decoder::decode(&[1, 2, 3, 4]).is_err());
    let mut png = build_png(1, 1, 6, &[&[10, 20, 30, 255]]);
    let idx = png.len() - 5; // corrupt the IEND chunk's checksum
    png[idx] ^= 0xFF;
    assert!(png_decoder::decode(&png).is_err());
}

#[test]
fn decoder_header_tells_unsupported_layouts_apart() {
    // A grayscale image decodes, but its header is not the 8-bit RGBA
    // layout the asset format fixes, so the setup edge's guard trips.
    let png = build_png(2, 1, 0, &[&[0, 255]]);
    let (header, _pixels) = png_decoder::decode(&png).unwrap();
    assert_eq!(header.color_type, ColorType::Grayscale);
    assert_ne!(
        (header.color_type, header.bit_depth),
        (ColorType::RgbAlpha, BitDepth::Eight)
    );
}

#[test]
fn from_rgba_cuts_out_by_alpha_byte() {
    let data = vec![
        1, 2, 3, 255, // opaque
        4, 5, 6, 0, // transparent
        7, 8, 9, 128, // opaque: no partial blending
    ];
    let s = Sprite::from_rgba(3, 1, &data);
    assert_eq!(s.width(), 3);
    assert_eq!(s.height(), 1);
    assert_eq!(s.pixels[0], Some(rgb(1, 2, 3)));
    assert_eq!(s.pixels[1], None);
    assert_eq!(s.pixels[2], Some(rgb(7, 8, 9)));
}
