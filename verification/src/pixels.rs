//! Ingestion of pixel payloads: shape classification, range validation, channel
//! reduction and assembly of the canonical image.

use crate::binary32::{in_unit_interval, outside_range_f32};
use crate::error::{AnalyzeError, Side};
use crate::image::{all_canonical, assembled, outcome, pixels_of, CanonicalImage, ImageModel};
use crate::parallel::{par_any, par_map, par_map_chunks};
use crate::reduce::{
    luma_from_sample, luma_from_tuple, luma_triple, rgb_from_chunk, rgb_from_tuple, rgb_triple,
    triple_of, RawSample, Triple,
};
use crate::shape::{
    expected_rgb_len, infer_layout, inferred_layout, packed_rgb_len, ChannelLayout, Encoding, Shape,
};
use vstd::prelude::*;

verus! {

/// The pixels of a flat buffer of luma samples: one gray pixel per sample.
pub open spec fn luma_pixels<T: RawSample>(data: Seq<T>) -> Seq<Triple> {
    Seq::new(data.len(), |i: int| luma_triple(data[i]))
}

/// The pixels of a flat buffer cut into groups of `channels` samples, with
/// `channels` at least 3: the first three samples of every complete group.
pub open spec fn grouped_pixels<T: RawSample>(data: Seq<T>, channels: nat) -> Seq<Triple> {
    Seq::new(
        data.len() / channels,
        |i: int| rgb_triple(data.subrange(i * channels, i * channels + channels)),
    )
}

/// The pixels of a flat buffer read in the given layout.
pub open spec fn flat_pixels<T: RawSample>(data: Seq<T>, layout: ChannelLayout) -> Seq<Triple> {
    match layout {
        ChannelLayout::Luma => luma_pixels(data),
        ChannelLayout::Rgb => grouped_pixels(data, 3),
        ChannelLayout::Rgba => grouped_pixels(data, 4),
    }
}

/// The pixels of a payload of one-sample tuples.
pub open spec fn luma_tuple_pixels<T: RawSample>(tuples: Seq<[T; 1]>) -> Seq<Triple> {
    Seq::new(tuples.len(), |i: int| luma_triple(tuples[i][0]))
}

/// The pixels of a payload of three- or four-sample tuples.
pub open spec fn rgb_tuple_pixels<T: RawSample, const N: usize>(tuples: Seq<[T; N]>) -> Seq<Triple> {
    Seq::new(tuples.len(), |i: int| rgb_triple(tuples[i]@))
}

/// Every sample of a flat buffer is admissible.
pub open spec fn all_admissible<T: RawSample>(data: Seq<T>) -> bool {
    forall|i: int| 0 <= i < data.len() ==> (#[trigger] data[i]).admissible()
}

/// Every sample of a tuple is admissible, a fourth channel included.
pub open spec fn tuple_admissible<T: RawSample, const N: usize>(tuple: [T; N]) -> bool {
    forall|c: int| 0 <= c < N ==> (#[trigger] tuple[c]).admissible()
}

/// Every tuple of a payload is admissible.
pub open spec fn all_tuples_admissible<T: RawSample, const N: usize>(tuples: Seq<[T; N]>) -> bool {
    forall|i: int| 0 <= i < tuples.len() ==> tuple_admissible(#[trigger] tuples[i])
}

/// The outcome of the stages after classification: an inadmissible sample is
/// reported before anything is assembled.
pub open spec fn validated(
    admissible: bool,
    pixels: Seq<Triple>,
    width: usize,
    height: usize,
    kind: Side,
) -> Result<ImageModel, AnalyzeError> {
    if admissible {
        assembled(pixels, width, height)
    } else {
        Err(AnalyzeError::InvalidPixelRange { side: kind })
    }
}

/// The outcome of ingesting a flat buffer: its layout is inferred from its
/// length, then its samples are validated, then its pixels are reduced and
/// assembled.
pub open spec fn ingested_flat<T: RawSample>(
    data: Seq<T>,
    width: usize,
    height: usize,
    kind: Side,
) -> Result<ImageModel, AnalyzeError> {
    match inferred_layout(data.len() as int, width as int, height as int) {
        Some(layout) => validated(
            all_admissible(data),
            flat_pixels(data, layout),
            width,
            height,
            kind,
        ),
        None => Err(
            AnalyzeError::LengthMismatch {
                side: kind,
                expected: packed_rgb_len(width as int, height as int),
                actual: data.len() as usize,
            },
        ),
    }
}

/// The shape of a flat buffer of `len` samples in the given encoding, or the
/// length mismatch where `len` fits no layout of the declared dimensions.
pub open spec fn flat_shape(
    len: nat,
    encoding: Encoding,
    width: usize,
    height: usize,
    kind: Side,
) -> Result<Shape, AnalyzeError> {
    match inferred_layout(len as int, width as int, height as int) {
        Some(layout) => Ok(Shape { layout, encoding }),
        None => Err(
            AnalyzeError::LengthMismatch {
                side: kind,
                expected: packed_rgb_len(width as int, height as int),
                actual: len as usize,
            },
        ),
    }
}

/// Resolves the shape of a flat buffer from its length.
pub fn classify_flat(
    len: usize,
    encoding: Encoding,
    width: usize,
    height: usize,
    kind: Side,
) -> (r: Result<Shape, AnalyzeError>)
    ensures
        r == flat_shape(len as nat, encoding, width, height, kind),
{
    match infer_layout(len, width, height) {
        Some(layout) => Ok(Shape { layout, encoding }),
        None => Err(
            AnalyzeError::LengthMismatch {
                side: kind,
                expected: expected_rgb_len(width, height),
                actual: len,
            },
        ),
    }
}

/// The pixels of a flat buffer of admissible samples are canonical.
pub proof fn lemma_flat_pixels_canonical<T: RawSample>(data: Seq<T>, layout: ChannelLayout)
    requires
        all_admissible(data),
    ensures
        all_canonical(flat_pixels(data, layout)),
{
    let pixels = flat_pixels(data, layout);
    assert forall|i: int| 0 <= i < pixels.len() implies in_unit_interval((#[trigger] pixels[i]).0)
        && in_unit_interval(pixels[i].1) && in_unit_interval(pixels[i].2) by {
        match layout {
            ChannelLayout::Luma => {
                data[i].lemma_admissible_canonical();
            },
            ChannelLayout::Rgb => {
                data[3 * i].lemma_admissible_canonical();
                data[3 * i + 1].lemma_admissible_canonical();
                data[3 * i + 2].lemma_admissible_canonical();
            },
            ChannelLayout::Rgba => {
                data[4 * i].lemma_admissible_canonical();
                data[4 * i + 1].lemma_admissible_canonical();
                data[4 * i + 2].lemma_admissible_canonical();
            },
        }
    }
}

/// The pixels of one-sample tuples of admissible samples are canonical.
pub proof fn lemma_luma_tuple_pixels_canonical<T: RawSample>(tuples: Seq<[T; 1]>)
    requires
        all_tuples_admissible(tuples),
    ensures
        all_canonical(luma_tuple_pixels(tuples)),
{
    let pixels = luma_tuple_pixels(tuples);
    assert forall|i: int| 0 <= i < pixels.len() implies in_unit_interval((#[trigger] pixels[i]).0)
        && in_unit_interval(pixels[i].1) && in_unit_interval(pixels[i].2) by {
        assert(tuple_admissible(tuples[i]));
        tuples[i][0].lemma_admissible_canonical();
    }
}

/// The pixels of three- or four-sample tuples of admissible samples are canonical.
pub proof fn lemma_rgb_tuple_pixels_canonical<T: RawSample, const N: usize>(tuples: Seq<[T; N]>)
    requires
        N >= 3,
        all_tuples_admissible(tuples),
    ensures
        all_canonical(rgb_tuple_pixels(tuples)),
{
    let pixels = rgb_tuple_pixels(tuples);
    assert forall|i: int| 0 <= i < pixels.len() implies in_unit_interval((#[trigger] pixels[i]).0)
        && in_unit_interval(pixels[i].1) && in_unit_interval(pixels[i].2) by {
        assert(tuple_admissible(tuples[i]));
        tuples[i][0].lemma_admissible_canonical();
        tuples[i][1].lemma_admissible_canonical();
        tuples[i][2].lemma_admissible_canonical();
    }
}

/// Reduces a flat buffer of quantized RGBA samples and assembles the image.
/// The alpha sample of every group is dropped; an incomplete last group is
/// ignored.
pub fn from_pixels_rgba(data: Vec<u8>, width: usize, height: usize) -> (r: Result<
    CanonicalImage,
    AnalyzeError,
>)
    ensures
        outcome(r) == assembled(grouped_pixels(data@, 4), width, height),
        r matches Ok(image) ==> image.wf(),
{
    let pixels = par_map_chunks(data.as_slice(), 4, rgb_from_chunk::<u8>);
    assert(pixels_of(pixels@) =~= grouped_pixels(data@, 4));
    CanonicalImage::new(pixels, width, height)
}

/// Reduces a flat buffer of quantized RGB samples and assembles the image.
/// An incomplete last group is ignored.
pub fn from_pixels_rgb(data: Vec<u8>, width: usize, height: usize) -> (r: Result<
    CanonicalImage,
    AnalyzeError,
>)
    ensures
        outcome(r) == assembled(grouped_pixels(data@, 3), width, height),
        r matches Ok(image) ==> image.wf(),
{
    let pixels = par_map_chunks(data.as_slice(), 3, rgb_from_chunk::<u8>);
    assert(pixels_of(pixels@) =~= grouped_pixels(data@, 3));
    CanonicalImage::new(pixels, width, height)
}

/// Expands a flat buffer of quantized luma samples to gray pixels and
/// assembles the image.
pub fn from_pixels_luma(data: Vec<u8>, width: usize, height: usize) -> (r: Result<
    CanonicalImage,
    AnalyzeError,
>)
    ensures
        outcome(r) == assembled(luma_pixels(data@), width, height),
        r matches Ok(image) ==> image.wf(),
{
    let pixels = par_map(data.as_slice(), luma_from_sample::<u8>);
    assert(pixels_of(pixels@) =~= luma_pixels(data@));
    CanonicalImage::new(pixels, width, height)
}

/// Ingests a flat buffer of quantized samples: infers the layout from the
/// length, trying RGBA, then RGB, then luma, and reduces accordingly.
pub fn from_pixels(data: Vec<u8>, width: usize, height: usize, kind: Side) -> (r: Result<
    CanonicalImage,
    AnalyzeError,
>)
    ensures
        outcome(r) == ingested_flat(data@, width, height, kind),
        r matches Ok(image) ==> image.wf() && all_canonical(image@.pixels),
{
    let length: usize = data.len();
    match infer_layout(length, width, height) {
        Some(layout) => {
            proof {
                lemma_flat_pixels_canonical(data@, layout);
            }
            match layout {
                ChannelLayout::Rgba => from_pixels_rgba(data, width, height),
                ChannelLayout::Rgb => from_pixels_rgb(data, width, height),
                ChannelLayout::Luma => from_pixels_luma(data, width, height),
            }
        },
        None => Err(
            AnalyzeError::LengthMismatch {
                side: kind,
                expected: expected_rgb_len(width, height),
                actual: length,
            },
        ),
    }
}

/// Reduces a flat buffer of normalized RGBA samples and assembles the image.
/// The alpha sample of every group is dropped; an incomplete last group is
/// ignored. The samples are taken as they are.
pub fn from_pixels_rgba_f32(data: Vec<u32>, width: usize, height: usize) -> (r: Result<
    CanonicalImage,
    AnalyzeError,
>)
    ensures
        outcome(r) == assembled(grouped_pixels(data@, 4), width, height),
        r matches Ok(image) ==> image.wf(),
{
    let pixels = par_map_chunks(data.as_slice(), 4, rgb_from_chunk::<u32>);
    assert(pixels_of(pixels@) =~= grouped_pixels(data@, 4));
    CanonicalImage::new(pixels, width, height)
}

/// Reduces a flat buffer of normalized RGB samples and assembles the image.
/// An incomplete last group is ignored. The samples are taken as they are.
pub fn from_pixels_rgb_f32(data: Vec<u32>, width: usize, height: usize) -> (r: Result<
    CanonicalImage,
    AnalyzeError,
>)
    ensures
        outcome(r) == assembled(grouped_pixels(data@, 3), width, height),
        r matches Ok(image) ==> image.wf(),
{
    let pixels = par_map_chunks(data.as_slice(), 3, rgb_from_chunk::<u32>);
    assert(pixels_of(pixels@) =~= grouped_pixels(data@, 3));
    CanonicalImage::new(pixels, width, height)
}

/// Expands a flat buffer of normalized luma samples to gray pixels and
/// assembles the image. The samples are taken as they are.
pub fn from_pixels_luma_f32(data: Vec<u32>, width: usize, height: usize) -> (r: Result<
    CanonicalImage,
    AnalyzeError,
>)
    ensures
        outcome(r) == assembled(luma_pixels(data@), width, height),
        r matches Ok(image) ==> image.wf(),
{
    let pixels = par_map(data.as_slice(), luma_from_sample::<u32>);
    assert(pixels_of(pixels@) =~= luma_pixels(data@));
    CanonicalImage::new(pixels, width, height)
}

/// Tells whether some sample of the tuple is not finite or lies outside
/// `[0.0, 1.0]`.
pub fn tuple_outside_range<const N: usize>(tuple: &[u32; N]) -> (r: bool)
    ensures
        r == !tuple_admissible(*tuple),
{
    let mut c: usize = 0;
    while c < N
        invariant
            c <= N,
            forall|k: int| 0 <= k < c ==> (#[trigger] tuple[k]).admissible(),
        decreases N - c,
    {
        if outside_range_f32(&tuple[c]) {
            return true;
        }
        c = c + 1;
    }
    false
}

/// Tells whether some sample of some tuple is not finite or lies outside
/// `[0.0, 1.0]`. The tuples are searched in parallel.
pub fn any_tuple_outside_range<const N: usize>(tuples: &[[u32; N]]) -> (found: bool)
    ensures
        found == !all_tuples_admissible(tuples@),
{
    par_any(tuples, tuple_outside_range::<N>)
}

/// Normalized samples awaiting range validation, grouped as they were supplied.
pub enum PrecheckWrapF32<'a> {
    /// A flat buffer.
    Slice(&'a [u32]),
    /// RGB tuples.
    RGB(&'a [[u32; 3]]),
    /// RGBA tuples; the alpha sample is validated like the others.
    RGBA(&'a [[u32; 4]]),
    /// Luma tuples.
    Luma(&'a [[u32; 1]]),
}

impl<'a> PrecheckWrapF32<'a> {
    /// Every sample is finite and within `[0.0, 1.0]`.
    pub open spec fn in_range(self) -> bool {
        match self {
            PrecheckWrapF32::Slice(slice) => all_admissible(slice@),
            PrecheckWrapF32::RGB(tuples) => all_tuples_admissible(tuples@),
            PrecheckWrapF32::RGBA(tuples) => all_tuples_admissible(tuples@),
            PrecheckWrapF32::Luma(tuples) => all_tuples_admissible(tuples@),
        }
    }

    /// Validates the range of every sample.
    pub fn check_pixels(self, kind: Side) -> (r: Result<(), AnalyzeError>)
        ensures
            r == (if self.in_range() {
                Ok::<(), AnalyzeError>(())
            } else {
                Err(AnalyzeError::InvalidPixelRange { side: kind })
            }),
    {
        match self {
            PrecheckWrapF32::Slice(slice) => {
                if par_any(slice, outside_range_f32) {
                    return Err(AnalyzeError::InvalidPixelRange { side: kind });
                }
                Ok(())
            },
            PrecheckWrapF32::RGB(tuples) => {
                if any_tuple_outside_range(tuples) {
                    return Err(AnalyzeError::InvalidPixelRange { side: kind });
                }
                Ok(())
            },
            PrecheckWrapF32::RGBA(tuples) => {
                if any_tuple_outside_range(tuples) {
                    return Err(AnalyzeError::InvalidPixelRange { side: kind });
                }
                Ok(())
            },
            PrecheckWrapF32::Luma(tuples) => {
                if any_tuple_outside_range(tuples) {
                    return Err(AnalyzeError::InvalidPixelRange { side: kind });
                }
                Ok(())
            },
        }
    }
}

/// Ingests a flat buffer of normalized samples: infers the layout from the
/// length, trying RGBA, then RGB, then luma, validates the range of every
/// sample, and reduces accordingly.
pub fn from_pixels_f32(data: Vec<u32>, width: usize, height: usize, kind: Side) -> (r: Result<
    CanonicalImage,
    AnalyzeError,
>)
    ensures
        outcome(r) == ingested_flat(data@, width, height, kind),
        r matches Ok(image) ==> image.wf() && all_canonical(image@.pixels),
{
    let length: usize = data.len();
    match infer_layout(length, width, height) {
        Some(layout) => {
            match PrecheckWrapF32::Slice(data.as_slice()).check_pixels(kind) {
                Err(e) => Err(e),
                Ok(()) => {
                    proof {
                        lemma_flat_pixels_canonical(data@, layout);
                    }
                    match layout {
                        ChannelLayout::Rgba => from_pixels_rgba_f32(data, width, height),
                        ChannelLayout::Rgb => from_pixels_rgb_f32(data, width, height),
                        ChannelLayout::Luma => from_pixels_luma_f32(data, width, height),
                    }
                },
            }
        },
        None => Err(
            AnalyzeError::LengthMismatch {
                side: kind,
                expected: expected_rgb_len(width, height),
                actual: length,
            },
        ),
    }
}

/// A pixel payload as a caller supplies it: a flat buffer whose layout is
/// inferred from its length, or per-pixel tuples whose arity gives the layout;
/// quantized to bytes, or normalized binary32 samples given by their bit
/// patterns.
#[derive(Debug)]
pub enum InputPixels {
    /// Flat quantized samples.
    Flat(Vec<u8>),
    /// Flat normalized samples.
    FlatF32(Vec<u32>),
    /// Quantized RGB tuples.
    RGBTuple(Vec<[u8; 3]>),
    /// Quantized RGBA tuples.
    RGBATuple(Vec<[u8; 4]>),
    /// Quantized luma tuples.
    LumaTuple(Vec<[u8; 1]>),
    /// Normalized RGB tuples.
    RGBF32Tuple(Vec<[u32; 3]>),
    /// Normalized RGBA tuples.
    RGBAF32Tuple(Vec<[u32; 4]>),
    /// Normalized luma tuples.
    LumaF32Tuple(Vec<[u32; 1]>),
}

impl InputPixels {
    /// The number of samples of a flat buffer, the number of tuples otherwise.
    pub open spec fn sample_count(self) -> nat {
        match self {
            InputPixels::Flat(flat) => flat@.len(),
            InputPixels::FlatF32(flat) => flat@.len(),
            InputPixels::RGBTuple(tuples) => tuples@.len(),
            InputPixels::RGBATuple(tuples) => tuples@.len(),
            InputPixels::LumaTuple(tuples) => tuples@.len(),
            InputPixels::RGBF32Tuple(tuples) => tuples@.len(),
            InputPixels::RGBAF32Tuple(tuples) => tuples@.len(),
            InputPixels::LumaF32Tuple(tuples) => tuples@.len(),
        }
    }

    /// The shape of the payload for the declared dimensions, or the length
    /// mismatch of a flat buffer that fits no layout.
    pub open spec fn shape(self, width: usize, height: usize, kind: Side) -> Result<
        Shape,
        AnalyzeError,
    > {
        match self {
            InputPixels::Flat(flat) => flat_shape(
                flat@.len(),
                Encoding::Quantized,
                width,
                height,
                kind,
            ),
            InputPixels::FlatF32(flat) => flat_shape(
                flat@.len(),
                Encoding::Normalized,
                width,
                height,
                kind,
            ),
            InputPixels::RGBTuple(_) => Ok(
                Shape { layout: ChannelLayout::Rgb, encoding: Encoding::Quantized },
            ),
            InputPixels::RGBATuple(_) => Ok(
                Shape { layout: ChannelLayout::Rgba, encoding: Encoding::Quantized },
            ),
            InputPixels::LumaTuple(_) => Ok(
                Shape { layout: ChannelLayout::Luma, encoding: Encoding::Quantized },
            ),
            InputPixels::RGBF32Tuple(_) => Ok(
                Shape { layout: ChannelLayout::Rgb, encoding: Encoding::Normalized },
            ),
            InputPixels::RGBAF32Tuple(_) => Ok(
                Shape { layout: ChannelLayout::Rgba, encoding: Encoding::Normalized },
            ),
            InputPixels::LumaF32Tuple(_) => Ok(
                Shape { layout: ChannelLayout::Luma, encoding: Encoding::Normalized },
            ),
        }
    }

    /// The outcome of ingesting the payload. A flat buffer is classified by
    /// its length, validated, reduced and assembled. Tuples need no
    /// classification: they are validated, reduced and assembled, and a wrong
    /// number of them comes to light only in assembly.
    pub open spec fn ingested(self, width: usize, height: usize, kind: Side) -> Result<
        ImageModel,
        AnalyzeError,
    > {
        match self {
            InputPixels::Flat(flat) => ingested_flat(flat@, width, height, kind),
            InputPixels::FlatF32(flat) => ingested_flat(flat@, width, height, kind),
            InputPixels::RGBTuple(tuples) => validated(
                all_tuples_admissible(tuples@),
                rgb_tuple_pixels(tuples@),
                width,
                height,
                kind,
            ),
            InputPixels::RGBATuple(tuples) => validated(
                all_tuples_admissible(tuples@),
                rgb_tuple_pixels(tuples@),
                width,
                height,
                kind,
            ),
            InputPixels::LumaTuple(tuples) => validated(
                all_tuples_admissible(tuples@),
                luma_tuple_pixels(tuples@),
                width,
                height,
                kind,
            ),
            InputPixels::RGBF32Tuple(tuples) => validated(
                all_tuples_admissible(tuples@),
                rgb_tuple_pixels(tuples@),
                width,
                height,
                kind,
            ),
            InputPixels::RGBAF32Tuple(tuples) => validated(
                all_tuples_admissible(tuples@),
                rgb_tuple_pixels(tuples@),
                width,
                height,
                kind,
            ),
            InputPixels::LumaF32Tuple(tuples) => validated(
                all_tuples_admissible(tuples@),
                luma_tuple_pixels(tuples@),
                width,
                height,
                kind,
            ),
        }
    }

    /// Resolves the channel layout and the encoding of the payload.
    pub fn classify(&self, width: usize, height: usize, kind: Side) -> (r: Result<
        Shape,
        AnalyzeError,
    >)
        ensures
            r == self.shape(width, height, kind),
    {
        match self {
            InputPixels::Flat(flat) => classify_flat(
                flat.len(),
                Encoding::Quantized,
                width,
                height,
                kind,
            ),
            InputPixels::FlatF32(flat) => classify_flat(
                flat.len(),
                Encoding::Normalized,
                width,
                height,
                kind,
            ),
            InputPixels::RGBTuple(_) => Ok(
                Shape { layout: ChannelLayout::Rgb, encoding: Encoding::Quantized },
            ),
            InputPixels::RGBATuple(_) => Ok(
                Shape { layout: ChannelLayout::Rgba, encoding: Encoding::Quantized },
            ),
            InputPixels::LumaTuple(_) => Ok(
                Shape { layout: ChannelLayout::Luma, encoding: Encoding::Quantized },
            ),
            InputPixels::RGBF32Tuple(_) => Ok(
                Shape { layout: ChannelLayout::Rgb, encoding: Encoding::Normalized },
            ),
            InputPixels::RGBAF32Tuple(_) => Ok(
                Shape { layout: ChannelLayout::Rgba, encoding: Encoding::Normalized },
            ),
            InputPixels::LumaF32Tuple(_) => Ok(
                Shape { layout: ChannelLayout::Luma, encoding: Encoding::Normalized },
            ),
        }
    }

    /// Ingests the payload: classifies it, validates normalized samples,
    /// reduces every pixel to an RGB triple of canonical samples, and assembles
    /// the canonical image of the declared dimensions.
    pub fn to_rgb(self, width: usize, height: usize, kind: Side) -> (r: Result<
        CanonicalImage,
        AnalyzeError,
    >)
        ensures
            outcome(r) == self.ingested(width, height, kind),
            r matches Ok(image) ==> image.wf() && all_canonical(image@.pixels),
    {
        match self {
            InputPixels::Flat(flat) => from_pixels(flat, width, height, kind),
            InputPixels::FlatF32(flat) => from_pixels_f32(flat, width, height, kind),
            InputPixels::LumaTuple(tuples) => {
                // a gray pixel repeats the luma sample in all three channels
                let pixels = par_map(tuples.as_slice(), luma_from_tuple::<u8>);
                proof {
                    assert(pixels_of(pixels@) =~= luma_tuple_pixels(tuples@));
                    assert(all_tuples_admissible(tuples@));
                    lemma_luma_tuple_pixels_canonical(tuples@);
                }
                CanonicalImage::new(pixels, width, height)
            },
            InputPixels::RGBATuple(tuples) => {
                let pixels = par_map(tuples.as_slice(), rgb_from_tuple::<u8, 4>);
                proof {
                    assert(pixels_of(pixels@) =~= rgb_tuple_pixels(tuples@));
                    assert(all_tuples_admissible(tuples@));
                    lemma_rgb_tuple_pixels_canonical(tuples@);
                }
                CanonicalImage::new(pixels, width, height)
            },
            InputPixels::RGBTuple(tuples) => {
                let pixels = par_map(tuples.as_slice(), rgb_from_tuple::<u8, 3>);
                proof {
                    assert(pixels_of(pixels@) =~= rgb_tuple_pixels(tuples@));
                    assert(all_tuples_admissible(tuples@));
                    lemma_rgb_tuple_pixels_canonical(tuples@);
                }
                CanonicalImage::new(pixels, width, height)
            },
            InputPixels::LumaF32Tuple(tuples) => {
                match PrecheckWrapF32::Luma(tuples.as_slice()).check_pixels(kind) {
                    Err(e) => Err(e),
                    Ok(()) => {
                        let pixels = par_map(tuples.as_slice(), luma_from_tuple::<u32>);
                        proof {
                            assert(pixels_of(pixels@) =~= luma_tuple_pixels(tuples@));
                            lemma_luma_tuple_pixels_canonical(tuples@);
                        }
                        CanonicalImage::new(pixels, width, height)
                    },
                }
            },
            InputPixels::RGBAF32Tuple(tuples) => {
                match PrecheckWrapF32::RGBA(tuples.as_slice()).check_pixels(kind) {
                    Err(e) => Err(e),
                    Ok(()) => {
                        let pixels = par_map(tuples.as_slice(), rgb_from_tuple::<u32, 4>);
                        proof {
                            assert(pixels_of(pixels@) =~= rgb_tuple_pixels(tuples@));
                            lemma_rgb_tuple_pixels_canonical(tuples@);
                        }
                        CanonicalImage::new(pixels, width, height)
                    },
                }
            },
            InputPixels::RGBF32Tuple(tuples) => {
                match PrecheckWrapF32::RGB(tuples.as_slice()).check_pixels(kind) {
                    Err(e) => Err(e),
                    Ok(()) => {
                        // the tuples are the pixels already
                        proof {
                            assert(pixels_of(tuples@) =~= rgb_tuple_pixels(tuples@));
                            lemma_rgb_tuple_pixels_canonical(tuples@);
                        }
                        CanonicalImage::new(tuples, width, height)
                    },
                }
            },
        }
    }
}

/// The outcome of ingesting both payloads of a call: the error of the source
/// if it has one, else the error of the degraded payload, else both images.
pub open spec fn ingested_pair(
    source: InputPixels,
    degraded: InputPixels,
    width: usize,
    height: usize,
) -> Result<(ImageModel, ImageModel), AnalyzeError> {
    match source.ingested(width, height, Side::Source) {
        Err(e) => Err(e),
        Ok(s) => match degraded.ingested(width, height, Side::Degraded) {
            Err(e) => Err(e),
            Ok(d) => Ok((s, d)),
        },
    }
}

/// Ingests the two payloads of a call, source first. On success both images
/// are well formed, canonical and of the declared dimensions; on failure
/// nothing is handed on.
pub fn ingest_pair(source: InputPixels, degraded: InputPixels, width: usize, height: usize) -> (r:
    Result<(CanonicalImage, CanonicalImage), AnalyzeError>)
    ensures
        match r {
            Ok((s, d)) => ingested_pair(source, degraded, width, height) == Ok::<
                (ImageModel, ImageModel),
                AnalyzeError,
            >((s@, d@)) && s.wf() && d.wf() && all_canonical(s@.pixels) && all_canonical(d@.pixels),
            Err(e) => ingested_pair(source, degraded, width, height) == Err::<
                (ImageModel, ImageModel),
                AnalyzeError,
            >(e),
        },
{
    match source.to_rgb(width, height, Side::Source) {
        Err(e) => Err(e),
        Ok(s) => match degraded.to_rgb(width, height, Side::Degraded) {
            Err(e) => Err(e),
            Ok(d) => Ok((s, d)),
        },
    }
}

} // verus!
