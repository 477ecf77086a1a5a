use super::{is_jpeg, jpeg_ext, jpg_ext, to_rgb8, DecodeError, DecodedImage, ImageDecoder, RawImage};
use crate::paths::has_extension;
use vstd::prelude::*;

verus! {

/// Decoder for JPEG images.
pub struct JpegDecoder;

impl ImageDecoder for JpegDecoder {
    open spec fn handles(path: Seq<u8>) -> bool {
        has_extension(path, jpg_ext()) || has_extension(path, jpeg_ext())
    }

    fn item_matches(path: &[u8]) -> (r: bool) {
        is_jpeg(path)
    }

    fn decode(codec_output: Result<RawImage, String>) -> (r: Result<DecodedImage, DecodeError>) {
        match codec_output {
            Ok(raw) => to_rgb8(raw),
            Err(message) => Err(DecodeError::Codec(message)),
        }
    }
}

} // verus!
