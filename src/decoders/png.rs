use super::{png_ext, to_rgb8, is_png, DecodeError, DecodedImage, ImageDecoder, RawImage};
use crate::paths::has_extension;
use vstd::prelude::*;

verus! {

/// Decoder for PNG images.
pub struct PngDecoder;

impl ImageDecoder for PngDecoder {
    open spec fn handles(path: Seq<u8>) -> bool {
        has_extension(path, png_ext())
    }

    fn item_matches(path: &[u8]) -> (r: bool) {
        is_png(path)
    }

    fn decode(codec_output: Result<RawImage, String>) -> (r: Result<DecodedImage, DecodeError>) {
        match codec_output {
            Ok(raw) => to_rgb8(raw),
            Err(message) => Err(DecodeError::Codec(message)),
        }
    }
}

} // verus!
