//! Analysis of two images given as packed RGB8 buffers.
//!
//! This is the narrow entry: both payloads are flat byte buffers of exactly
//! `width * height * 3` samples. Both lengths are checked before either buffer
//! is converted, so that no length error is masked by work on the other side.

use crate::error::{AnalyzeError, Side};
use crate::image::{all_canonical, assembled, outcome, pixels_of, CanonicalImage, ImageModel};
use crate::parallel::par_map_chunks;
use crate::pixels::{grouped_pixels, lemma_flat_pixels_canonical};
use crate::reduce::rgb_from_chunk;
use crate::shape::{expected_rgb_len, packed_rgb_len, ChannelLayout};
use vstd::prelude::*;

verus! {

/// The outcome of checking a buffer of `len` bytes against the declared
/// dimensions: accepted where `len` is `width * height * 3`, else a length
/// mismatch that carries the expected and the actual length.
pub open spec fn prechecked(len: nat, width: usize, height: usize, kind: Side) -> Result<
    (),
    AnalyzeError,
> {
    if len == width * height * 3 {
        Ok(())
    } else {
        Err(
            AnalyzeError::LengthMismatch {
                side: kind,
                expected: packed_rgb_len(width as int, height as int),
                actual: len as usize,
            },
        )
    }
}

/// The outcome of preparing both sides: the first length mismatch, source
/// before degraded, or else both images.
pub open spec fn prepared(source: Seq<u8>, degraded: Seq<u8>, width: usize, height: usize) -> Result<
    (ImageModel, ImageModel),
    AnalyzeError,
> {
    match prechecked(source.len(), width, height, Side::Source) {
        Err(e) => Err(e),
        Ok(_) => match prechecked(degraded.len(), width, height, Side::Degraded) {
            Err(e) => Err(e),
            Ok(_) => Ok(
                (
                    ImageModel { width, height, pixels: grouped_pixels(source, 3) },
                    ImageModel { width, height, pixels: grouped_pixels(degraded, 3) },
                ),
            ),
        },
    }
}

/// Checks that a packed RGB8 buffer has the length that the declared dimensions
/// call for.
pub fn precheck(data: &[u8], width: usize, height: usize, kind: Side) -> (r: Result<(), AnalyzeError>)
    ensures
        r == prechecked(data@.len(), width, height, kind),
{
    let expected = expected_rgb_len(width, height);
    let actual: usize = data.len();
    if expected == Some(actual) {
        Ok(())
    } else {
        Err(AnalyzeError::LengthMismatch { side: kind, expected, actual })
    }
}

/// Converts a packed RGB8 buffer to the canonical image. The length is taken
/// to have been checked; an incomplete last group is ignored, and a wrong
/// number of pixels fails the assembly.
pub fn from_pixels(data: Vec<u8>, width: usize, height: usize) -> (r: Result<
    CanonicalImage,
    AnalyzeError,
>)
    ensures
        outcome(r) == assembled(grouped_pixels(data@, 3), width, height),
        r matches Ok(image) ==> image.wf() && all_canonical(image@.pixels),
{
    let pixels = par_map_chunks(data.as_slice(), 3, rgb_from_chunk::<u8>);
    proof {
        assert(pixels_of(pixels@) =~= grouped_pixels(data@, 3));
        lemma_flat_pixels_canonical(data@, ChannelLayout::Rgb);
    }
    CanonicalImage::new(pixels, width, height)
}

/// Prepares the two images of an analysis call: checks both lengths, source
/// first, then converts both buffers. On success the images are well formed,
/// canonical and of the declared dimensions, ready for the metric engine.
pub fn prepare(source: Vec<u8>, degraded: Vec<u8>, width: usize, height: usize) -> (r: Result<
    (CanonicalImage, CanonicalImage),
    AnalyzeError,
>)
    ensures
        match r {
            Ok((s, d)) => prepared(source@, degraded@, width, height) == Ok::<
                (ImageModel, ImageModel),
                AnalyzeError,
            >((s@, d@)) && s.wf() && d.wf() && all_canonical(s@.pixels) && all_canonical(d@.pixels),
            Err(e) => prepared(source@, degraded@, width, height) == Err::<
                (ImageModel, ImageModel),
                AnalyzeError,
            >(e),
        },
{
    match precheck(source.as_slice(), width, height, Side::Source) {
        Err(e) => {
            return Err(e);
        },
        Ok(()) => {},
    }
    match precheck(degraded.as_slice(), width, height, Side::Degraded) {
        Err(e) => {
            return Err(e);
        },
        Ok(()) => {},
    }
    assert(grouped_pixels(source@, 3).len() == width * height);
    assert(grouped_pixels(degraded@, 3).len() == width * height);
    let source_rgb = from_pixels(source, width, height);
    let distorted_rgb = from_pixels(degraded, width, height);
    match (source_rgb, distorted_rgb) {
        (Ok(s), Ok(d)) => Ok((s, d)),
        (Err(e), _) => Err(e),
        (_, Err(e)) => Err(e),
    }
}

} // verus!
