use reader::{
    decode_image, image_format, to_rgb8, ImageFormat, DecodeError, ImageDecoder, JpegDecoder, PngDecoder, RawImage,
    SampleDepth, Samples,
};

fn crc32(bytes: &[u8]) -> u32 {
    let mut crc = 0xffff_ffffu32;
    for &b in bytes {
        crc ^= u32::from(b);
        for _ in 0..8 {
            crc = if crc & 1 != 0 { (crc >> 1) ^ 0xedb8_8320 } else { crc >> 1 };
        }
    }
    !crc
}

fn adler32(bytes: &[u8]) -> u32 {
    let (mut a, mut b) = (1u32, 0u32);
    for &x in bytes {
        a = (a + u32::from(x)) % 65521;
        b = (b + a) % 65521;
    }
    (b << 16) | a
}

fn chunk(out: &mut Vec<u8>, kind: &[u8; 4], data: &[u8]) {
    out.extend_from_slice(&(data.len() as u32).to_be_bytes());
    let mut body = kind.to_vec();
    body.extend_from_slice(data);
    out.extend_from_slice(&body);
    out.extend_from_slice(&crc32(&body).to_be_bytes());
}

/// A 2x1 PNG with 8-bit samples of the given colour type, stored uncompressed.
fn png(color_type: u8, row: &[u8]) -> Vec<u8> {
    png_of_depth(8, color_type, row)
}

/// A 2x1 PNG with samples of the given depth and colour type, stored uncompressed.
fn png_of_depth(depth: u8, color_type: u8, row: &[u8]) -> Vec<u8> {
    let mut out = vec![0x89, b'P', b'N', b'G', 0x0d, 0x0a, 0x1a, 0x0a];
    let mut ihdr = Vec::new();
    ihdr.extend_from_slice(&2u32.to_be_bytes());
    ihdr.extend_from_slice(&1u32.to_be_bytes());
    ihdr.extend_from_slice(&[depth, color_type, 0, 0, 0]);
    chunk(&mut out, b"IHDR", &ihdr);
    let mut raw = vec![0u8];
    raw.extend_from_slice(row);
    let len = raw.len() as u16;
    let mut zlib = vec![0x78, 0x01, 0x01];
    zlib.extend_from_slice(&len.to_le_bytes());
    zlib.extend_from_slice(&(!len).to_le_bytes());
    zlib.extend_from_slice(&raw);
    zlib.extend_from_slice(&adler32(&raw).to_be_bytes());
    chunk(&mut out, b"IDAT", &zlib);
    chunk(&mut out, b"IEND", &[]);
    out
}

/// What zune-png makes of `bytes`, as the library takes it.
fn zune_png(bytes: &[u8]) -> Result<RawImage, String> {
    let mut decoder = zune_png::PngDecoder::new(bytes);
    let pixels = decoder.decode().map_err(|err| format!("{err:?}"))?;
    let info = decoder.get_info().ok_or("missing PNG header")?;
    let samples = match pixels {
        zune_png::zune_core::result::DecodingResult::U8(s) => Samples::Eight(s),
        zune_png::zune_core::result::DecodingResult::U16(s) => Samples::Sixteen(s),
        _ => Samples::Other,
    };
    Ok(RawImage { samples, width: info.width, height: info.height })
}

fn raw(samples: Vec<u8>, width: usize, height: usize) -> RawImage {
    RawImage { samples: Samples::Eight(samples), width, height }
}

#[test]
fn three_samples_per_pixel_are_kept() {
    let img = to_rgb8(raw(vec![1, 2, 3, 4, 5, 6], 2, 1)).unwrap();
    assert_eq!(img.rgb8_pixels, vec![1, 2, 3, 4, 5, 6]);
    assert_eq!((img.width, img.height), (2, 1));
}

#[test]
fn grey_samples_are_repeated() {
    let img = to_rgb8(raw(vec![9, 7], 1, 2)).unwrap();
    assert_eq!(img.rgb8_pixels, vec![9, 9, 9, 7, 7, 7]);
    assert_eq!((img.width, img.height), (1, 2));
}

#[test]
fn empty_image_converts_to_nothing() {
    let img = to_rgb8(raw(vec![], 0, 5)).unwrap();
    assert!(img.rgb8_pixels.is_empty());
}

#[test]
fn wrong_sample_count_is_refused() {
    let r = to_rgb8(raw(vec![1, 2, 3, 4], 2, 1));
    assert!(matches!(
        r,
        Err(DecodeError::PixelCount { width: 2, height: 1, samples: 4 })
    ));
}

#[test]
fn huge_dimensions_are_refused() {
    let r = to_rgb8(raw(vec![1, 2, 3], usize::MAX, 2));
    assert!(matches!(r, Err(DecodeError::PixelCount { samples: 3, .. })));
}

#[test]
fn wide_samples_are_refused() {
    let wide = RawImage { samples: Samples::Sixteen(vec![1, 2, 3]), width: 1, height: 1 };
    let r = to_rgb8(wide);
    assert!(matches!(r, Err(DecodeError::Depth(SampleDepth::Sixteen))));
    let r = to_rgb8(RawImage { samples: Samples::Other, width: 1, height: 1 });
    assert!(matches!(r, Err(DecodeError::Depth(SampleDepth::Other))));
}

#[test]
fn unsupported_file_type_is_refused() {
    assert_eq!(image_format(b"page.gif"), None);
    let r = decode_image(b"page.gif", Ok(raw(vec![1, 2, 3], 1, 1)));
    assert!(matches!(r, Err(DecodeError::Unsupported)));
}

#[test]
fn garbage_is_a_codec_error() {
    let refused = zune_png(&[1, 2, 3, 4]);
    assert!(refused.is_err());
    assert!(matches!(PngDecoder::decode(refused), Err(DecodeError::Codec(_))));
    let r = JpegDecoder::decode(Err(String::from("bad marker")));
    assert!(matches!(r, Err(DecodeError::Codec(m)) if m == "bad marker"));
    let r = decode_image(b"p.jpg", Err(String::from("truncated")));
    assert!(matches!(r, Err(DecodeError::Codec(m)) if m == "truncated"));
}

#[test]
fn grey_png_decodes_to_rgb() {
    let bytes = png(0, &[0x80, 0x10]);
    assert_eq!(image_format(b"dir/page.PNG"), Some(ImageFormat::Png));
    let img = decode_image(b"dir/page.PNG", zune_png(&bytes)).unwrap();
    assert_eq!((img.width, img.height), (2, 1));
    assert_eq!(img.rgb8_pixels, vec![0x80, 0x80, 0x80, 0x10, 0x10, 0x10]);
}

#[test]
fn rgb_png_decodes_as_is() {
    let bytes = png(2, &[1, 2, 3, 4, 5, 6]);
    let img = PngDecoder::decode(zune_png(&bytes)).unwrap();
    assert_eq!((img.width, img.height), (2, 1));
    assert_eq!(img.rgb8_pixels, vec![1, 2, 3, 4, 5, 6]);
}

#[test]
fn decoders_match_their_extensions() {
    assert!(PngDecoder::item_matches(b"a.png"));
    assert!(!PngDecoder::item_matches(b"a.jpg"));
    assert!(JpegDecoder::item_matches(b"a.jpeg"));
    assert!(!JpegDecoder::item_matches(b"a.png"));
}

#[test]
fn sixteen_bit_png_is_refused() {
    let bytes = png_of_depth(16, 0, &[0x12, 0x34, 0x56, 0x78]);
    assert!(matches!(
        PngDecoder::decode(zune_png(&bytes)),
        Err(DecodeError::Depth(SampleDepth::Sixteen))
    ));
}

#[test]
fn formats_by_extension() {
    assert_eq!(image_format(b"a.png"), Some(ImageFormat::Png));
    assert_eq!(image_format(b"a.JPG"), Some(ImageFormat::Jpeg));
    assert_eq!(image_format(b"a.jpeg"), Some(ImageFormat::Jpeg));
    assert_eq!(image_format(b".png"), None);
}

#[test]
fn jpeg_samples_convert_like_any_other() {
    let img = decode_image(b"x.jpeg", Ok(raw(vec![5, 6], 2, 1))).unwrap();
    assert_eq!(img.rgb8_pixels, vec![5, 5, 5, 6, 6, 6]);
}
