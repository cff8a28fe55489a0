//! Shapes of pixel payloads: channel layout and sample encoding.

use vstd::prelude::*;

verus! {

/// How many samples a pixel has, and what they mean.
#[derive(Debug, Clone, Copy, PartialEq, Eq)]
pub enum ChannelLayout {
    /// One gray sample.
    Luma,
    /// Red, green, blue.
    Rgb,
    /// Red, green, blue, alpha.
    Rgba,
}

/// How one sample is encoded.
#[derive(Debug, Clone, Copy, PartialEq, Eq)]
pub enum Encoding {
    /// An 8-bit integer `b` that stands for `b / 255`.
    Quantized,
    /// A binary32 number that is expected to lie in `[0.0, 1.0]`.
    Normalized,
}

/// The resolved shape of a payload.
#[derive(Debug, Clone, Copy, PartialEq, Eq)]
pub struct Shape {
    pub layout: ChannelLayout,
    pub encoding: Encoding,
}

impl ChannelLayout {
    /// Samples per pixel.
    pub open spec fn spec_channels(self) -> int {
        match self {
            ChannelLayout::Luma => 1,
            ChannelLayout::Rgb => 3,
            ChannelLayout::Rgba => 4,
        }
    }

    /// Samples per pixel.
    pub fn channels(&self) -> (n: usize)
        ensures
            n == self.spec_channels(),
    {
        match self {
            ChannelLayout::Luma => 1,
            ChannelLayout::Rgb => 3,
            ChannelLayout::Rgba => 4,
        }
    }
}

/// The layout of a flat buffer of `len` samples for the declared dimensions.
///
/// The candidates are tried in a fixed order of priority: RGBA, then RGB, then
/// luma. The order matters only where `width * height` is zero and an empty
/// buffer fits all three.
pub open spec fn inferred_layout(len: int, width: int, height: int) -> Option<ChannelLayout> {
    if len == width * height * 4 {
        Some(ChannelLayout::Rgba)
    } else if len == width * height * 3 {
        Some(ChannelLayout::Rgb)
    } else if len == width * height {
        Some(ChannelLayout::Luma)
    } else {
        None
    }
}

/// The length of a packed RGB buffer, where a `usize` can hold it.
pub open spec fn packed_rgb_len(width: int, height: int) -> Option<usize> {
    if width * height * 3 <= usize::MAX {
        Some((width * height * 3) as usize)
    } else {
        None
    }
}

/// `width * height`, where a `usize` can hold it.
pub fn pixel_count(width: usize, height: usize) -> (count: Option<usize>)
    ensures
        count == (if width * height <= usize::MAX {
            Some((width * height) as usize)
        } else {
            None
        }),
{
    width.checked_mul(height)
}

/// Computes `packed_rgb_len`.
pub fn expected_rgb_len(width: usize, height: usize) -> (len: Option<usize>)
    ensures
        len == packed_rgb_len(width as int, height as int),
{
    match width.checked_mul(height) {
        Some(count) => count.checked_mul(3),
        None => {
            assert(width * height * 3 > usize::MAX) by (nonlinear_arith)
                requires
                    width * height > usize::MAX,
            ;
            None
        },
    }
}

/// Infers the layout of a flat buffer from its length.
pub fn infer_layout(len: usize, width: usize, height: usize) -> (layout: Option<ChannelLayout>)
    ensures
        layout == inferred_layout(len as int, width as int, height as int),
{
    match width.checked_mul(height) {
        Some(count) => {
            if count.checked_mul(4) == Some(len) {
                Some(ChannelLayout::Rgba)
            } else if count.checked_mul(3) == Some(len) {
                Some(ChannelLayout::Rgb)
            } else if count == len {
                Some(ChannelLayout::Luma)
            } else {
                None
            }
        },
        None => {
            assert(width * height * 4 > usize::MAX && width * height * 3 > usize::MAX) by (nonlinear_arith)
                requires
                    width * height > usize::MAX,
            ;
            None
        },
    }
}

} // verus!
