//! Per-pixel channel reduction.
//!
//! Every pixel, whatever its layout, becomes one RGB triple of canonical samples:
//! a luma sample is replicated three times, an RGB group is kept, and the fourth
//! channel of an RGBA group is dropped. Each reduction reads one pixel and nothing
//! else, so pixels may be reduced in any order.

use crate::binary32::in_unit_interval;
use crate::quantized::{lemma_quantized_unit_canonical, quantized_unit, unit_from_byte};
use vstd::prelude::*;

verus! {

/// One canonical pixel in contracts: the red, green and blue sample.
pub type Triple = (u32, u32, u32);

/// The triple that an executable pixel holds.
pub open spec fn triple_of(pixel: [u32; 3]) -> Triple {
    (pixel[0], pixel[1], pixel[2])
}

/// A raw sample as a caller supplies it, and the canonical sample it stands for.
pub trait RawSample: Copy + Sync {
    /// The binary32 bit pattern of the canonical sample.
    spec fn canonical(self) -> u32;

    /// Whether the sample may enter a canonical image.
    spec fn admissible(self) -> bool;

    /// Decodes the sample.
    fn decode(&self) -> (bits: u32)
        ensures
            bits == self.canonical(),
    ;

    /// An admissible sample decodes to a number in `[0.0, 1.0]`.
    proof fn lemma_admissible_canonical(self)
        requires
            self.admissible(),
        ensures
            in_unit_interval(self.canonical()),
    ;
}

/// A quantized sample `b` stands for `b / 255`; every byte is admissible.
impl RawSample for u8 {
    open spec fn canonical(self) -> u32 {
        quantized_unit(self)
    }

    open spec fn admissible(self) -> bool {
        true
    }

    fn decode(&self) -> (bits: u32) {
        unit_from_byte(*self)
    }

    proof fn lemma_admissible_canonical(self) {
        lemma_quantized_unit_canonical(self);
    }
}

/// A normalized sample is already a binary32 bit pattern and is passed through;
/// it is admissible where it is finite and within `[0.0, 1.0]`.
impl RawSample for u32 {
    open spec fn canonical(self) -> u32 {
        self
    }

    open spec fn admissible(self) -> bool {
        in_unit_interval(self)
    }

    fn decode(&self) -> (bits: u32) {
        *self
    }

    proof fn lemma_admissible_canonical(self) {
    }
}

/// The triple of a luma sample: the decoded sample in all three channels.
pub open spec fn luma_triple<T: RawSample>(v: T) -> Triple {
    (v.canonical(), v.canonical(), v.canonical())
}

/// The triple of a group of at least three samples: the first three, decoded.
pub open spec fn rgb_triple<T: RawSample>(group: Seq<T>) -> Triple {
    (group[0].canonical(), group[1].canonical(), group[2].canonical())
}

/// Expands one luma sample to a gray pixel.
pub fn luma_from_sample<T: RawSample>(v: &T) -> (pixel: [u32; 3])
    ensures
        triple_of(pixel) == luma_triple(*v),
{
    let luma: u32 = v.decode();
    [luma, luma, luma]
}

/// Expands a one-sample tuple to a gray pixel.
pub fn luma_from_tuple<T: RawSample>(tuple: &[T; 1]) -> (pixel: [u32; 3])
    ensures
        triple_of(pixel) == luma_triple(tuple[0]),
{
    let luma: u32 = tuple[0].decode();
    [luma, luma, luma]
}

/// Reduces a group of three or four consecutive samples of a flat buffer to a
/// pixel: red, green and blue are kept, a fourth sample is dropped.
pub fn rgb_from_chunk<T: RawSample>(chunk: &[T]) -> (pixel: [u32; 3])
    requires
        chunk@.len() >= 3,
    ensures
        triple_of(pixel) == rgb_triple(chunk@),
{
    [chunk[0].decode(), chunk[1].decode(), chunk[2].decode()]
}

/// Reduces a tuple of three or four samples to a pixel: red, green and blue are
/// kept, a fourth sample is dropped.
pub fn rgb_from_tuple<T: RawSample, const N: usize>(tuple: &[T; N]) -> (pixel: [u32; 3])
    requires
        N >= 3,
    ensures
        triple_of(pixel) == rgb_triple(tuple@),
{
    [tuple[0].decode(), tuple[1].decode(), tuple[2].decode()]
}

} // verus!
