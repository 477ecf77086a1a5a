//! Turning a page's encoded bytes into 8-bit RGB pixels.
mod jpeg;
mod png;

pub use jpeg::JpegDecoder;
pub use png::PngDecoder;

use crate::paths::{extension_is, has_extension};
use vstd::prelude::*;

verus! {

/// The depth of samples, as errors report it.
#[derive(Clone, Copy, Debug, PartialEq, Eq, Structural)]
pub enum SampleDepth {
    /// One byte per sample.
    Eight,
    /// Two bytes per sample.
    Sixteen,
    /// Any other sample format, such as floating point.
    Other,
}

/// The samples a codec produced, by depth.
pub enum Samples {
    /// One byte per sample.
    Eight(Vec<u8>),
    /// Two bytes per sample.
    Sixteen(Vec<u16>),
    /// Any other sample format.
    Other,
}

/// The mathematical content of [`Samples`].
pub enum SamplesView {
    Eight(Seq<u8>),
    Sixteen(Seq<u16>),
    Other,
}

impl View for Samples {
    type V = SamplesView;

    open spec fn view(&self) -> SamplesView {
        match self {
            Samples::Eight(s) => SamplesView::Eight(s@),
            Samples::Sixteen(s) => SamplesView::Sixteen(s@),
            Samples::Other => SamplesView::Other,
        }
    }
}

/// What a codec hands back: the samples, one or three per pixel, and the
/// dimensions.
pub struct RawImage {
    pub samples: Samples,
    pub width: usize,
    pub height: usize,
}

/// The mathematical content of a [`RawImage`].
pub struct RawImageView {
    pub samples: SamplesView,
    pub width: usize,
    pub height: usize,
}

impl View for RawImage {
    type V = RawImageView;

    open spec fn view(&self) -> RawImageView {
        RawImageView { samples: self.samples@, width: self.width, height: self.height }
    }
}

/// A decoded image: `width * height` pixels of three bytes each.
pub struct DecodedImage {
    pub rgb8_pixels: Vec<u8>,
    pub width: usize,
    pub height: usize,
}

/// Why an image could not be decoded.
#[derive(Debug)]
pub enum DecodeError {
    /// No decoder handles the file's extension.
    Unsupported,
    /// The codec refused the bytes; its message.
    Codec(String),
    /// The samples are not 8-bit.
    Depth(SampleDepth),
    /// The number of samples fits neither one nor three per pixel.
    PixelCount { width: usize, height: usize, samples: usize },
}

/// Each sample repeated three times: a grey level as red, green and blue.
pub open spec fn triplicate(s: Seq<u8>) -> Seq<u8> {
    Seq::new(3 * s.len(), |i: int| s[i / 3])
}

/// The RGB pixels of `width * height` 8-bit samples: kept as they are when
/// there are three per pixel, repeated when there is one (and the result
/// stays addressable).
pub open spec fn rgb8_samples(s: Seq<u8>, width: nat, height: nat) -> Option<Seq<u8>> {
    if s.len() == 3 * (width * height) {
        Some(s)
    } else if s.len() == width * height && 3 * s.len() <= usize::MAX {
        Some(triplicate(s))
    } else {
        None
    }
}

/// `r` is what the conversion of `raw` to RGB pixels gives.
pub open spec fn converted(raw: RawImageView, r: Result<DecodedImage, DecodeError>) -> bool {
    match raw.samples {
        SamplesView::Eight(s) => match rgb8_samples(s, raw.width as nat, raw.height as nat) {
            Some(px) => r matches Ok(img) && img.rgb8_pixels@ == px && img.width == raw.width
                && img.height == raw.height,
            None => r matches Err(DecodeError::PixelCount { width, height, samples }) && width
                == raw.width && height == raw.height && samples == s.len(),
        },
        SamplesView::Sixteen(_) => r matches Err(DecodeError::Depth(SampleDepth::Sixteen)),
        SamplesView::Other => r matches Err(DecodeError::Depth(SampleDepth::Other)),
    }
}

/// `r` is what decoding gives when the codec's outcome is `outcome`: its
/// refusal, with its message, or the conversion of its samples.
pub open spec fn decoded(
    outcome: Result<RawImage, String>,
    r: Result<DecodedImage, DecodeError>,
) -> bool {
    match outcome {
        Err(message) => r matches Err(DecodeError::Codec(m)) && m@ == message@,
        Ok(raw) => converted(raw@, r),
    }
}

/// The image formats that pages may have.
#[derive(Clone, Copy, Debug, PartialEq, Eq, Structural)]
pub enum ImageFormat {
    Png,
    Jpeg,
}

/// A decoder for one image format.
pub trait ImageDecoder {
    /// Whether the decoder handles the file at `path`, by its extension.
    spec fn handles(path: Seq<u8>) -> bool;

    /// Checks whether the decoder handles the file at `path`.
    fn item_matches(path: &[u8]) -> (r: bool)
        ensures
            r == Self::handles(path@),
    ;

    /// Turns what the format's codec made of an image's bytes (its samples
    /// and dimensions, or its refusal) into RGB pixels.
    fn decode(codec_output: Result<RawImage, String>) -> (r: Result<DecodedImage, DecodeError>)
        ensures
            decoded(codec_output, r),
    ;
}

/// `png`.
pub open spec fn png_ext() -> Seq<u8> {
    seq![0x70u8, 0x6e, 0x67]
}

/// `jpg`.
pub open spec fn jpg_ext() -> Seq<u8> {
    seq![0x6au8, 0x70, 0x67]
}

/// `jpeg`.
pub open spec fn jpeg_ext() -> Seq<u8> {
    seq![0x6au8, 0x70, 0x65, 0x67]
}

/// Whether the file at `path` is an image of a supported format: its
/// extension is `png`, `jpg` or `jpeg`, in any ASCII case.
pub open spec fn image_supported(path: Seq<u8>) -> bool {
    has_extension(path, png_ext()) || has_extension(path, jpg_ext()) || has_extension(
        path,
        jpeg_ext(),
    )
}

/// Whether the extension of `path` is `png`, in any ASCII case.
pub(crate) fn is_png(path: &[u8]) -> (r: bool)
    ensures
        r == has_extension(path@, png_ext()),
{
    let ext: [u8; 3] = [0x70, 0x6e, 0x67];
    assert(ext@ =~= png_ext());
    extension_is(path, ext.as_slice())
}

/// Whether the extension of `path` is `jpg` or `jpeg`, in any ASCII case.
pub(crate) fn is_jpeg(path: &[u8]) -> (r: bool)
    ensures
        r == (has_extension(path@, jpg_ext()) || has_extension(path@, jpeg_ext())),
{
    let short: [u8; 3] = [0x6a, 0x70, 0x67];
    let long: [u8; 4] = [0x6a, 0x70, 0x65, 0x67];
    assert(short@ =~= jpg_ext());
    assert(long@ =~= jpeg_ext());
    extension_is(path, short.as_slice()) || extension_is(path, long.as_slice())
}

/// Whether a file can be shown as a page, by its extension.
pub fn is_image_supported(filename: &[u8]) -> (r: bool)
    ensures
        r == image_supported(filename@),
{
    PngDecoder::item_matches(filename) || JpegDecoder::item_matches(filename)
}

/// The format of the file at `filename`, by its extension: PNG first, then
/// JPEG; `None` for any other file. The application runs that format's
/// codec on the page's bytes and hands the outcome to [`decode_image`].
pub fn image_format(filename: &[u8]) -> (r: Option<ImageFormat>)
    ensures
        PngDecoder::handles(filename@) ==> r == Some(ImageFormat::Png),
        !PngDecoder::handles(filename@) && JpegDecoder::handles(filename@) ==> r == Some(
            ImageFormat::Jpeg,
        ),
        !image_supported(filename@) ==> r is None,
{
    if PngDecoder::item_matches(filename) {
        Some(ImageFormat::Png)
    } else if JpegDecoder::item_matches(filename) {
        Some(ImageFormat::Jpeg)
    } else {
        None
    }
}

/// Decodes a page with the decoder that its file name calls for, given
/// what that format's codec made of the page's bytes.
pub fn decode_image(filename: &[u8], codec_output: Result<RawImage, String>) -> (r: Result<
    DecodedImage,
    DecodeError,
>)
    ensures
        image_supported(filename@) ==> decoded(codec_output, r),
        !image_supported(filename@) ==> r matches Err(DecodeError::Unsupported),
{
    if PngDecoder::item_matches(filename) {
        PngDecoder::decode(codec_output)
    } else if JpegDecoder::item_matches(filename) {
        JpegDecoder::decode(codec_output)
    } else {
        Err(DecodeError::Unsupported)
    }
}

/// Repeats each sample three times.
fn triplicate_samples(s: &Vec<u8>) -> (r: Vec<u8>)
    requires
        3 * s@.len() <= usize::MAX,
    ensures
        r@ == triplicate(s@),
{
    let mut out: Vec<u8> = Vec::with_capacity(3 * s.len());
    let mut i: usize = 0;
    while i < s.len()
        invariant
            i <= s@.len(),
            3 * s@.len() <= usize::MAX,
            out@.len() == 3 * i,
            forall|j: int| 0 <= j < 3 * i ==> out@[j] == s@[j / 3],
        decreases s@.len() - i,
    {
        let v = s[i];
        out.push(v);
        out.push(v);
        out.push(v);
        i = i + 1;
    }
    assert(out@ =~= triplicate(s@));
    out
}

/// Turns a codec's samples into RGB pixels: 8-bit samples only, three per
/// pixel as they are, one per pixel (grey) repeated three times.
pub fn to_rgb8(raw: RawImage) -> (r: Result<DecodedImage, DecodeError>)
    ensures
        converted(raw@, r),
{
    let RawImage { samples, width, height } = raw;
    let samples = match samples {
        Samples::Eight(samples) => samples,
        Samples::Sixteen(_) => {
            return Err(DecodeError::Depth(SampleDepth::Sixteen));
        },
        Samples::Other => {
            return Err(DecodeError::Depth(SampleDepth::Other));
        },
    };
    let n = samples.len();
    let area = match width.checked_mul(height) {
        Some(a) => a,
        None => {
            proof {
                assert(3 * (width as nat * height as nat) > usize::MAX) by (nonlinear_arith)
                    requires
                        width as nat * height as nat > usize::MAX,
                ;
            }
            return Err(DecodeError::PixelCount { width, height, samples: n });
        },
    };
    let full = area.checked_mul(3);
    if full == Some(n) {
        Ok(DecodedImage { rgb8_pixels: samples, width, height })
    } else if area == n && full.is_some() {
        let rgb8_pixels = triplicate_samples(&samples);
        Ok(DecodedImage { rgb8_pixels, width, height })
    } else {
        Err(DecodeError::PixelCount { width, height, samples: n })
    }
}

} // verus!
