//! The canonical image handed to the metric engine.

use crate::binary32::in_unit_interval;
use crate::error::AnalyzeError;
use crate::reduce::{triple_of, Triple};
use crate::shape::pixel_count;
use vstd::prelude::*;

verus! {

/// The transfer characteristic that canonical samples are encoded with.
#[derive(Debug, Clone, Copy, PartialEq, Eq)]
pub enum TransferCharacteristic {
    /// The sRGB transfer function (IEC 61966-2-1).
    SRGB,
}

/// The color primaries that canonical samples refer to.
#[derive(Debug, Clone, Copy, PartialEq, Eq)]
pub enum ColorPrimaries {
    /// ITU-R BT.709.
    BT709,
}

/// What a canonical image is: its dimensions and its pixels in row-major order.
/// The working color metadata is fixed and therefore not part of the model.
pub struct ImageModel {
    pub width: usize,
    pub height: usize,
    pub pixels: Seq<Triple>,
}

/// The triples that a vector of executable pixels holds, in order.
pub open spec fn pixels_of(data: Seq<[u32; 3]>) -> Seq<Triple> {
    Seq::new(data.len(), |i: int| triple_of(data[i]))
}

/// Every sample of every pixel is a canonical sample.
pub open spec fn all_canonical(pixels: Seq<Triple>) -> bool {
    forall|i: int|
        0 <= i < pixels.len() ==> in_unit_interval((#[trigger] pixels[i]).0) && in_unit_interval(
            pixels[i].1,
        ) && in_unit_interval(pixels[i].2)
}

/// The outcome of assembling `pixels` into an image of the declared dimensions:
/// the image where the count is `width * height`, a construction failure otherwise.
pub open spec fn assembled(pixels: Seq<Triple>, width: usize, height: usize) -> Result<
    ImageModel,
    AnalyzeError,
> {
    if pixels.len() == width * height {
        Ok(ImageModel { width, height, pixels })
    } else {
        Err(AnalyzeError::ImageConstructionFailed)
    }
}

/// An RGB image of binary32 samples, tagged with the working transfer
/// characteristic and color primaries. It is built once and never changed, and
/// it always holds `width * height` pixels.
#[derive(Debug)]
pub struct CanonicalImage {
    data: Vec<[u32; 3]>,
    width: usize,
    height: usize,
    transfer: TransferCharacteristic,
    primaries: ColorPrimaries,
}

impl View for CanonicalImage {
    type V = ImageModel;

    closed spec fn view(&self) -> ImageModel {
        ImageModel { width: self.width, height: self.height, pixels: pixels_of(self.data@) }
    }
}

/// A result with the image, if any, replaced by its model.
pub open spec fn outcome(r: Result<CanonicalImage, AnalyzeError>) -> Result<ImageModel, AnalyzeError> {
    match r {
        Ok(image) => Ok(image@),
        Err(e) => Err(e),
    }
}

impl CanonicalImage {
    /// Holds of every image there is: the pixels number `width * height`.
    #[verifier::type_invariant]
    spec fn well_formed(&self) -> bool {
        self.data@.len() == self.width * self.height
    }

    /// The image has as many pixels as its dimensions say.
    pub open spec fn wf(&self) -> bool {
        self@.pixels.len() == self@.width * self@.height
    }

    /// Assembles an image from reduced pixels and the declared dimensions, with
    /// sRGB transfer and BT.709 primaries. Fails where the number of pixels is
    /// not `width * height`.
    pub fn new(data: Vec<[u32; 3]>, width: usize, height: usize) -> (r: Result<Self, AnalyzeError>)
        ensures
            outcome(r) == assembled(pixels_of(data@), width, height),
            r matches Ok(image) ==> image.wf(),
    {
        let len: usize = data.len();
        assert(pixels_of(data@).len() == len);
        match pixel_count(width, height) {
            Some(count) => {
                if len == count {
                    Ok(
                        CanonicalImage {
                            data,
                            width,
                            height,
                            transfer: TransferCharacteristic::SRGB,
                            primaries: ColorPrimaries::BT709,
                        },
                    )
                } else {
                    Err(AnalyzeError::ImageConstructionFailed)
                }
            },
            None => Err(AnalyzeError::ImageConstructionFailed),
        }
    }

    /// The declared width in pixels.
    pub fn width(&self) -> (w: usize)
        ensures
            w == self@.width,
    {
        self.width
    }

    /// The declared height in pixels.
    pub fn height(&self) -> (h: usize)
        ensures
            h == self@.height,
    {
        self.height
    }

    /// The pixels in row-major order, `width * height` of them.
    pub fn data(&self) -> (data: &Vec<[u32; 3]>)
        ensures
            pixels_of(data@) == self@.pixels,
            data@.len() == self@.width * self@.height,
    {
        proof {
            use_type_invariant(self);
        }
        &self.data
    }

    /// Gives up the image for its pixels, `width * height` of them.
    pub fn into_data(self) -> (data: Vec<[u32; 3]>)
        ensures
            pixels_of(data@) == self@.pixels,
            data@.len() == self@.width * self@.height,
    {
        proof {
            use_type_invariant(&self);
        }
        self.data
    }

    /// The transfer characteristic of the samples: always sRGB.
    pub fn transfer(&self) -> (t: TransferCharacteristic)
        ensures
            t == TransferCharacteristic::SRGB,
    {
        self.transfer
    }

    /// The color primaries of the samples: always BT.709.
    pub fn primaries(&self) -> (p: ColorPrimaries)
        ensures
            p == ColorPrimaries::BT709,
    {
        self.primaries
    }
}

} // verus!
