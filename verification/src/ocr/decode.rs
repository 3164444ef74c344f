//! Decoded pages: the choice of decoder, the uniform eight-bit buffer, and
//! the image of a chunk as it is sent to the recogniser.

use vstd::prelude::*;
use crate::ocr::chunk::{chunks_of, lemma_chunks_partition, Chunk};

verus! {

/// Why a page could not be decoded.
#[derive(Clone, Copy, Debug, PartialEq, Eq, Structural)]
pub enum DecodeError {
    /// The format of the bytes cannot be identified.
    UnknownFormat,
    /// The bytes do not hold a valid image of their format.
    Malformed,
    /// The pixels are neither RGB nor RGBA.
    UnsupportedLayout,
    /// The number of samples is not width times height times channels.
    SizeMismatch,
}

/// What the first bytes of a page say of its format.
#[derive(Clone, Copy, Debug, PartialEq, Eq, Structural)]
pub enum SniffedFormat {
    /// No known format.
    Unknown,
    /// AVIF, which the general decoder does not read.
    Avif,
    /// A format that the general decoder reads.
    General,
}

/// The decoder that reads a page.
#[derive(Clone, Copy, Debug, PartialEq, Eq, Structural)]
pub enum DecodePath {
    /// The general decoder.
    General,
    /// The decoder kept for AVIF.
    Dedicated,
}

/// A decoded page: eight-bit samples, row by row, three or four to a pixel.
#[derive(Clone, Debug, PartialEq, Eq)]
pub struct DecodedImage {
    pub width: u32,
    pub height: u32,
    pub channels: u8,
    pub data: Vec<u8>,
}

impl DecodedImage {
    /// Three or four channels, and exactly one sample for each channel of
    /// each pixel.
    pub open spec fn wf(&self) -> bool {
        &&& (self.channels == 3 || self.channels == 4)
        &&& self.data@.len() == self.width * self.height * self.channels
    }
}

/// The samples of a page as its decoder hands them out.
#[derive(Clone, Debug, PartialEq, Eq)]
pub enum Samples {
    Eight(Vec<u8>),
    Sixteen(Vec<u16>),
}

/// Pixels as the dedicated decoder hands them out.
#[derive(Clone, Debug, PartialEq, Eq)]
pub struct RawPixels {
    pub width: usize,
    pub height: usize,
    /// Samples to a pixel: 3 for RGB, 4 for RGBA.
    pub channels: u8,
    pub samples: Samples,
}

/// Number of samples.
pub open spec fn sample_count(samples: Samples) -> nat {
    match samples {
        Samples::Eight(v) => v@.len(),
        Samples::Sixteen(v) => v@.len(),
    }
}

/// The high byte of a sixteen-bit sample.
pub open spec fn high_byte(sample: u16) -> u8 {
    (sample >> 8) as u8
}

/// The samples at eight bits: a sixteen-bit sample keeps its high byte.
pub open spec fn eight_bit(samples: Samples) -> Seq<u8> {
    match samples {
        Samples::Eight(v) => v@,
        Samples::Sixteen(v) => v@.map_values(|s: u16| high_byte(s)),
    }
}

/// Why `raw` cannot be converted, if it cannot.
pub open spec fn conversion_error(raw: RawPixels) -> Option<DecodeError> {
    if raw.channels != 3 && raw.channels != 4 {
        Some(DecodeError::UnsupportedLayout)
    } else if raw.width > u32::MAX || raw.height > u32::MAX || sample_count(raw.samples)
        != raw.width * raw.height * raw.channels {
        Some(DecodeError::SizeMismatch)
    } else {
        None
    }
}

/// The decoder for a sniffed format; none where the format is unknown.
pub open spec fn path_for(format: SniffedFormat) -> Result<DecodePath, DecodeError> {
    match format {
        SniffedFormat::Unknown => Err(DecodeError::UnknownFormat),
        SniffedFormat::Avif => Ok(DecodePath::Dedicated),
        SniffedFormat::General => Ok(DecodePath::General),
    }
}

/// The PNG file that holds the given RGBA pixels; `None` where they cannot
/// be encoded.
pub uninterp spec fn png_encoding(width: u32, height: u32, rgba: Seq<u8>) -> Option<Seq<u8>>;

/// Whether the magic bytes at the start of `bytes` announce AVIF; `None`
/// where they announce no format that is known.
pub uninterp spec fn announces_avif(bytes: Seq<u8>) -> Option<bool>;

/// What the first bytes of a page say of its format.
pub open spec fn sniffed(bytes: Seq<u8>) -> SniffedFormat {
    match announces_avif(bytes) {
        None => SniffedFormat::Unknown,
        Some(true) => SniffedFormat::Avif,
        Some(false) => SniffedFormat::General,
    }
}

/// `image::guess_format`: the format that the magic bytes at the start of
/// the buffer announce, looked up in a fixed table. The answer depends on
/// the bytes alone, and is the named one: whether that format is AVIF, or
/// that there is none.
#[verifier::external_body]
fn sniff(bytes: &[u8]) -> (avif: Option<bool>)
    ensures
        avif == announces_avif(bytes@),
{
    match image::guess_format(bytes) {
        Ok(image::ImageFormat::Avif) => Some(true),
        Ok(_) => Some(false),
        Err(_) => None,
    }
}

/// `image::ImageReader::with_guessed_format` and `decode` on the bytes,
/// then `DynamicImage::to_rgba8`: width, height and RGBA samples of the
/// image, or `None` where the reader fails. Nothing is claimed of the
/// answer.
#[verifier::external_body]
fn read_rgba(bytes: &[u8]) -> (pixels: Option<(u32, u32, Vec<u8>)>) {
    let reader = image::ImageReader::new(std::io::Cursor::new(bytes)).with_guessed_format().ok()?;
    let rgba = reader.decode().ok()?.to_rgba8();
    Some((rgba.width(), rgba.height(), rgba.into_raw()))
}

/// `image::RgbaImage::from_raw` on the samples, then `write_to` with
/// `ImageFormat::Png` into a buffer: the PNG file of the pixels, which is
/// the named encoding. The encoder compares the number of samples with the
/// size and does not accept an empty image, so both are required.
#[verifier::external_body]
fn encode_png(width: u32, height: u32, rgba: Vec<u8>) -> (png: Option<Vec<u8>>)
    requires
        width > 0,
        height > 0,
        rgba@.len() == width * height * 4,
    ensures
        png matches Some(bytes) ==> png_encoding(width, height, rgba@) == Some(bytes@),
        png is None ==> png_encoding(width, height, rgba@) is None,
{
    let buffer = image::RgbaImage::from_raw(width, height, rgba)?;
    let mut out = std::io::Cursor::new(Vec::new());
    match buffer.write_to(&mut out, image::ImageFormat::Png) {
        Ok(()) => Some(out.into_inner()),
        Err(_) => None,
    }
}

/// Chooses the decoder for a sniffed format.
pub fn decode_path(format: SniffedFormat) -> (path: Result<DecodePath, DecodeError>)
    ensures
        path == path_for(format),
{
    match format {
        SniffedFormat::Unknown => Err(DecodeError::UnknownFormat),
        SniffedFormat::Avif => Ok(DecodePath::Dedicated),
        SniffedFormat::General => Ok(DecodePath::General),
    }
}

/// Sniffs the format of a page from its first bytes and chooses its
/// decoder: the dedicated one for AVIF, the general one for any other
/// format that is known. A format that cannot be identified is the only
/// failure.
pub fn plan_decode(bytes: &[u8]) -> (path: Result<DecodePath, DecodeError>)
    ensures
        path == path_for(sniffed(bytes@)),
{
    let format = match sniff(bytes) {
        None => SniffedFormat::Unknown,
        Some(true) => SniffedFormat::Avif,
        Some(false) => SniffedFormat::General,
    };
    decode_path(format)
}

/// Checks what the general decoder returned: the samples must be exactly
/// four for each pixel.
pub fn checked_rgba(pixels: Option<(u32, u32, Vec<u8>)>) -> (image: Result<DecodedImage, DecodeError>)
    ensures
        match pixels {
            Some((width, height, data)) if data@.len() == width * height * 4 => {
                &&& image matches Ok(img)
                &&& img.width == width
                &&& img.height == height
                &&& img.channels == 4
                &&& img.data@ == data@
                &&& img.wf()
            },
            _ => image == Err::<DecodedImage, DecodeError>(DecodeError::Malformed),
        },
{
    match pixels {
        Some((width, height, data)) => {
            proof {
                lemma_area(width as int, height as int, 4);
            }
            let expected: u128 = (width as u128) * (height as u128) * 4;
            if data.len() as u128 == expected {
                Ok(DecodedImage { width, height, channels: 4, data })
            } else {
                Err(DecodeError::Malformed)
            }
        },
        None => Err(DecodeError::Malformed),
    }
}

/// Decodes a page with the general decoder.
pub fn decode_general(bytes: &[u8]) -> (image: Result<DecodedImage, DecodeError>)
    ensures
        image matches Ok(img) ==> img.wf() && img.channels == 4,
        image is Err ==> image == Err::<DecodedImage, DecodeError>(DecodeError::Malformed),
{
    checked_rgba(read_rgba(bytes))
}

fn narrow(samples: &Vec<u16>) -> (bytes: Vec<u8>)
    ensures
        bytes@ == samples@.map_values(|s: u16| high_byte(s)),
{
    let mut bytes: Vec<u8> = Vec::new();
    let mut i: usize = 0;
    while i < samples.len()
        invariant
            i <= samples.len(),
            bytes@.len() == i,
            forall|k: int| 0 <= k < i ==> bytes@[k] == high_byte(#[trigger] samples@[k]),
        decreases samples.len() - i,
    {
        let s: u16 = samples[i];
        assert((s >> 8) < 256) by (bit_vector);
        bytes.push((s >> 8) as u8);
        i += 1;
    }
    assert(bytes@ == samples@.map_values(|s: u16| high_byte(s)));
    bytes
}

/// Brings the pixels of the dedicated decoder into the uniform buffer:
/// eight-bit samples stay, sixteen-bit samples keep their high byte.
pub fn convert_pixels(raw: RawPixels) -> (image: Result<DecodedImage, DecodeError>)
    ensures
        conversion_error(raw) matches Some(e) ==> image == Err::<DecodedImage, DecodeError>(e),
        conversion_error(raw) is None ==> {
            &&& image matches Ok(img)
            &&& img.width == raw.width
            &&& img.height == raw.height
            &&& img.channels == raw.channels
            &&& img.data@ == eight_bit(raw.samples)
            &&& img.wf()
        },
{
    if raw.channels != 3 && raw.channels != 4 {
        return Err(DecodeError::UnsupportedLayout);
    }
    if raw.width > u32::MAX as usize || raw.height > u32::MAX as usize {
        return Err(DecodeError::SizeMismatch);
    }
    let count: usize = match &raw.samples {
        Samples::Eight(v) => v.len(),
        Samples::Sixteen(v) => v.len(),
    };
    proof {
        lemma_area(raw.width as int, raw.height as int, raw.channels as int);
    }
    let expected: u128 = (raw.width as u128) * (raw.height as u128) * (raw.channels as u128);
    if count as u128 != expected {
        return Err(DecodeError::SizeMismatch);
    }
    let data: Vec<u8> = match raw.samples {
        Samples::Eight(v) => v,
        Samples::Sixteen(v) => narrow(&v),
    };
    Ok(DecodedImage { width: raw.width as u32, height: raw.height as u32, channels: raw.channels, data })
}

proof fn lemma_area(width: int, height: int, channels: int)
    requires
        0 <= width <= 0xffff_ffff,
        0 <= height <= 0xffff_ffff,
        0 <= channels <= 255,
    ensures
        0 <= width * height <= 0xffff_ffff * 0xffff_ffff,
        0 <= width * height * channels <= 0xffff_ffff * 0xffff_ffff * 255,
{
    assert(0 <= width * height <= 0xffff_ffff * 0xffff_ffff) by (nonlinear_arith)
        requires
            0 <= width <= 0xffff_ffff,
            0 <= height <= 0xffff_ffff,
    ;
    assert(0 <= width * height * channels <= 0xffff_ffff * 0xffff_ffff * 255) by (nonlinear_arith)
        requires
            0 <= width * height <= 0xffff_ffff * 0xffff_ffff,
            0 <= channels <= 255,
    ;
}

/// Whether the chunk is a band of the image that can be cut out of it.
pub open spec fn cuts(image: DecodedImage, chunk: Chunk) -> bool {
    &&& image.wf()
    &&& chunk.width == image.width
    &&& chunk.width > 0
    &&& chunk.height > 0
    &&& chunk.offset_y + chunk.height <= image.height
    &&& chunk.width * chunk.height * 4 <= usize::MAX
}

/// The RGBA samples of `rows` rows of an image, from row `top` down: a
/// pixel without alpha is opaque.
pub open spec fn rgba_window(data: Seq<u8>, channels: int, width: int, top: int, rows: int) -> Seq<
    u8,
> {
    Seq::new(
        (width * rows * 4) as nat,
        |i: int|
            if i % 4 < channels {
                data[(top * width + i / 4) * channels + i % 4]
            } else {
                255u8
            },
    )
}

/// The RGBA samples of the chunk's rows.
pub fn chunk_rgba(image: &DecodedImage, chunk: &Chunk) -> (window: Option<Vec<u8>>)
    ensures
        window is Some <==> cuts(*image, *chunk),
        window matches Some(rgba) ==> rgba@ == rgba_window(
            image.data@,
            image.channels as int,
            chunk.width as int,
            chunk.offset_y as int,
            chunk.height as int,
        ),
{
    if image.channels != 3 && image.channels != 4 {
        return None;
    }
    let channels: usize = image.channels as usize;
    proof {
        lemma_area(image.width as int, image.height as int, channels as int);
    }
    let total: u128 = (image.width as u128) * (image.height as u128) * (channels as u128);
    if image.data.len() as u128 != total {
        return None;
    }
    if chunk.width != image.width || chunk.width == 0 || chunk.height == 0 {
        return None;
    }
    if chunk.offset_y as u64 + chunk.height as u64 > image.height as u64 {
        return None;
    }
    proof {
        lemma_area(chunk.width as int, chunk.height as int, 4);
    }
    let wide: u128 = (chunk.width as u128) * (chunk.height as u128);
    if wide * 4 > usize::MAX as u128 {
        return None;
    }
    let width: usize = chunk.width as usize;
    let pixels: usize = wide as usize;
    proof {
        assert(chunk.offset_y * chunk.width + chunk.width * chunk.height <= image.width
            * image.height) by (nonlinear_arith)
            requires
                chunk.offset_y + chunk.height <= image.height,
                chunk.width == image.width,
        ;
        assert(image.width * image.height * channels >= image.width * image.height && (
        chunk.offset_y * chunk.width + chunk.width * chunk.height) * channels <= image.width
            * image.height * channels) by (nonlinear_arith)
            requires
                channels >= 3,
                chunk.offset_y * chunk.width + chunk.width * chunk.height <= image.width
                    * image.height,
        ;
        assert(chunk.offset_y * chunk.width >= 0 && chunk.width * chunk.height >= 0)
            by (nonlinear_arith);
    }
    let first: usize = (chunk.offset_y as usize) * width;
    let mut out: Vec<u8> = Vec::new();
    let mut p: usize = 0;
    while p < pixels
        invariant
            p <= pixels,
            pixels == chunk.width * chunk.height,
            pixels * 4 <= usize::MAX,
            first == chunk.offset_y * chunk.width,
            channels == image.channels,
            channels == 3 || channels == 4,
            (first + pixels) * channels <= image.data@.len(),
            image.data@.len() <= usize::MAX,
            out@.len() == p * 4,
            forall|i: int|
                0 <= i < p * 4 ==> #[trigger] out@[i] == (if i % 4 < channels {
                    image.data@[(first + i / 4) * channels + i % 4]
                } else {
                    255u8
                }),
        decreases pixels - p,
    {
        assert((first + p) * channels + channels <= (first + pixels) * channels && first + p <= (
        first + p) * channels) by (nonlinear_arith)
            requires
                p < pixels,
                channels >= 3,
        ;
        assert((first + p) * channels + channels <= image.data@.len());
        let base: usize = (first + p) * channels;
        let ghost before = out@;
        out.push(image.data[base]);
        out.push(image.data[base + 1]);
        out.push(image.data[base + 2]);
        if channels == 4 {
            out.push(image.data[base + 3]);
        } else {
            out.push(255u8);
        }
        proof {
            assert forall|i: int| 0 <= i < (p + 1) * 4 implies #[trigger] out@[i] == (if i % 4
                < channels {
                image.data@[(first + i / 4) * channels + i % 4]
            } else {
                255u8
            }) by {
                if i < p * 4 {
                    assert(out@[i] == before[i]);
                    assert(i / 4 < p);
                    assert((first + i / 4) * channels + channels <= (first + p) * channels)
                        by (nonlinear_arith)
                        requires
                            0 <= i / 4 < p,
                            channels >= 3,
                    ;
                } else {
                    assert(i / 4 == p && i % 4 == i - p * 4);
                }
            }
        }
        p += 1;
    }
    assert(out@ == rgba_window(
        image.data@,
        image.channels as int,
        chunk.width as int,
        chunk.offset_y as int,
        chunk.height as int,
    ));
    Some(out)
}

/// The PNG file of a chunk of the page, as it is sent to the recogniser;
/// `None` where the chunk is no band of the image or cannot be encoded.
pub fn chunk_png(image: &DecodedImage, chunk: &Chunk) -> (png: Option<Vec<u8>>)
    ensures
        !cuts(*image, *chunk) ==> png is None,
        cuts(*image, *chunk) ==> {
            let encoded = png_encoding(
                chunk.width,
                chunk.height,
                rgba_window(
                    image.data@,
                    image.channels as int,
                    chunk.width as int,
                    chunk.offset_y as int,
                    chunk.height as int,
                ),
            );
            &&& png is Some <==> encoded is Some
            &&& png matches Some(bytes) ==> encoded == Some(bytes@)
        },
{
    match chunk_rgba(image, chunk) {
        Some(rgba) => encode_png(chunk.width, chunk.height, rgba),
        None => None,
    }
}

/// Every chunk of a decoded page can be cut out of it: the chunks that the
/// page is split into are bands of the page, whatever the limit.
pub proof fn lemma_chunks_cut(image: DecodedImage, limit: u32)
    requires
        image.wf(),
        image.width > 0,
        limit > 0,
        image.width * image.height * 4 <= usize::MAX,
    ensures
        forall|i: int|
            0 <= i < chunks_of(image.width, image.height, limit).len() ==> cuts(
                image,
                #[trigger] chunks_of(image.width, image.height, limit)[i],
            ),
{
    let chunks = chunks_of(image.width, image.height, limit);
    lemma_chunks_partition(image.width, image.height, limit);
    assert forall|i: int| 0 <= i < chunks.len() implies cuts(image, #[trigger] chunks[i]) by {
        let c = chunks[i];
        assert(c.width * c.height * 4 <= image.width * image.height * 4) by (nonlinear_arith)
            requires
                c.width == image.width,
                0 < c.height <= image.height,
        ;
    }
}

} // verus!
