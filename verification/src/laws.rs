//! What holds of ingestion for every payload, stated over the outcomes that the
//! contracts of the executable functions speak of.

use crate::binary32::in_unit_interval;
use crate::error::{AnalyzeError, Side};
use crate::image::{all_canonical, ImageModel};
use crate::pixels::{
    all_admissible, all_tuples_admissible, grouped_pixels, lemma_flat_pixels_canonical,
    lemma_luma_tuple_pixels_canonical, lemma_rgb_tuple_pixels_canonical, rgb_tuple_pixels,
    tuple_admissible, InputPixels,
};
use crate::quantized::{lemma_quantized_unit_rounds, quantized_unit, rounds_to};
use crate::reduce::{RawSample, Triple};
use crate::shape::{inferred_layout, packed_rgb_len, ChannelLayout};
use vstd::prelude::*;

verus! {

/// Channel `c` of a pixel: 0 is red, 1 is green, anything else is blue.
pub open spec fn channel(pixel: Triple, c: int) -> u32 {
    if c == 0 {
        pixel.0
    } else if c == 1 {
        pixel.1
    } else {
        pixel.2
    }
}

/// The position, in a flat buffer of the given layout, of the sample that
/// feeds channel `c` of pixel `i`. A luma sample feeds all three channels; the
/// fourth sample of an RGBA group feeds none.
pub open spec fn sample_index(layout: ChannelLayout, i: int, c: int) -> int {
    match layout {
        ChannelLayout::Luma => i,
        ChannelLayout::Rgb => 3 * i + c,
        ChannelLayout::Rgba => 4 * i + c,
    }
}

/// A flat buffer of `width * height * 3` quantized samples is always ingested,
/// and every sample of the image is the byte at the same position, decoded to
/// the binary32 number nearest to `byte / 255`.
pub proof fn lemma_packed_rgb8_is_ingested(data: Vec<u8>, width: usize, height: usize, kind: Side)
    requires
        data@.len() == width * height * 3,
    ensures
        InputPixels::Flat(data).ingested(width, height, kind) matches Ok(image) && {
            &&& image.width == width
            &&& image.height == height
            &&& image.pixels.len() == width * height
            &&& all_canonical(image.pixels)
            &&& forall|i: int, c: int|
                0 <= i < width * height && 0 <= c < 3 ==> channel(image.pixels[i], c)
                    == quantized_unit(#[trigger] data@[3 * i + c]) && rounds_to(
                    channel(image.pixels[i], c),
                    data@[3 * i + c] as int,
                    255,
                )
        },
{
    let layout = inferred_layout(data@.len() as int, width as int, height as int).unwrap();
    lemma_flat_pixels_canonical(data@, layout);
    assert forall|j: int| 0 <= j < data@.len() implies rounds_to(
        quantized_unit(#[trigger] data@[j]),
        data@[j] as int,
        255,
    ) by {
        lemma_quantized_unit_rounds(data@[j]);
    }
}

/// A flat buffer whose length is none of `width * height * {1, 3, 4}` is a
/// length mismatch, whatever it holds and however it is encoded. The error
/// carries the side, the length of a packed RGB buffer and the actual length.
pub proof fn lemma_unfit_flat_length_is_a_mismatch(
    payload: InputPixels,
    width: usize,
    height: usize,
    kind: Side,
)
    requires
        payload is Flat || payload is FlatF32,
        payload.sample_count() != width * height,
        payload.sample_count() != width * height * 3,
        payload.sample_count() != width * height * 4,
    ensures
        payload.ingested(width, height, kind) == Err::<ImageModel, AnalyzeError>(
            AnalyzeError::LengthMismatch {
                side: kind,
                expected: packed_rgb_len(width as int, height as int),
                actual: payload.sample_count() as usize,
            },
        ),
{
}

/// The payload holds normalized samples.
pub open spec fn is_normalized(payload: InputPixels) -> bool {
    payload is FlatF32 || payload is RGBF32Tuple || payload is RGBAF32Tuple
        || payload is LumaF32Tuple
}

/// Every normalized sample of the payload, an alpha sample included, is finite
/// and within `[0.0, 1.0]`. Quantized samples are in range by their encoding.
pub open spec fn samples_in_range(payload: InputPixels) -> bool {
    match payload {
        InputPixels::FlatF32(flat) => forall|j: int|
            0 <= j < flat@.len() ==> in_unit_interval(#[trigger] flat@[j]),
        InputPixels::RGBF32Tuple(tuples) => forall|i: int, c: int|
            0 <= i < tuples@.len() && 0 <= c < 3 ==> in_unit_interval(#[trigger] tuples@[i][c]),
        InputPixels::RGBAF32Tuple(tuples) => forall|i: int, c: int|
            0 <= i < tuples@.len() && 0 <= c < 4 ==> in_unit_interval(#[trigger] tuples@[i][c]),
        InputPixels::LumaF32Tuple(tuples) => forall|i: int|
            0 <= i < tuples@.len() ==> in_unit_interval((#[trigger] tuples@[i])[0]),
        _ => true,
    }
}

/// The payload has the right size for the declared dimensions: a flat buffer
/// fits one of the three layouts, tuples number `width * height`.
pub open spec fn fits(payload: InputPixels, width: usize, height: usize) -> bool {
    match payload {
        InputPixels::Flat(flat) => inferred_layout(
            flat@.len() as int,
            width as int,
            height as int,
        ) is Some,
        InputPixels::FlatF32(flat) => inferred_layout(
            flat@.len() as int,
            width as int,
            height as int,
        ) is Some,
        _ => payload.sample_count() == width * height,
    }
}

/// The canonical sample that the payload supplies for channel `c` of pixel
/// `i`: a quantized sample decoded, a normalized sample as it is.
pub open spec fn supplied_sample(
    payload: InputPixels,
    width: usize,
    height: usize,
    i: int,
    c: int,
) -> u32 {
    match payload {
        InputPixels::Flat(flat) => quantized_unit(
            flat@[sample_index(
                inferred_layout(flat@.len() as int, width as int, height as int).unwrap(),
                i,
                c,
            )],
        ),
        InputPixels::FlatF32(flat) => flat@[sample_index(
            inferred_layout(flat@.len() as int, width as int, height as int).unwrap(),
            i,
            c,
        )],
        InputPixels::RGBTuple(tuples) => quantized_unit(tuples@[i][c]),
        InputPixels::RGBATuple(tuples) => quantized_unit(tuples@[i][c]),
        InputPixels::LumaTuple(tuples) => quantized_unit(tuples@[i][0]),
        InputPixels::RGBF32Tuple(tuples) => tuples@[i][c],
        InputPixels::RGBAF32Tuple(tuples) => tuples@[i][c],
        InputPixels::LumaF32Tuple(tuples) => tuples@[i][0],
    }
}

/// The predicates of this module and those of ingestion say the same.
proof fn lemma_in_range_is_admissible(payload: InputPixels)
    ensures
        samples_in_range(payload) == (match payload {
            InputPixels::Flat(flat) => all_admissible(flat@),
            InputPixels::FlatF32(flat) => all_admissible(flat@),
            InputPixels::RGBTuple(tuples) => all_tuples_admissible(tuples@),
            InputPixels::RGBATuple(tuples) => all_tuples_admissible(tuples@),
            InputPixels::LumaTuple(tuples) => all_tuples_admissible(tuples@),
            InputPixels::RGBF32Tuple(tuples) => all_tuples_admissible(tuples@),
            InputPixels::RGBAF32Tuple(tuples) => all_tuples_admissible(tuples@),
            InputPixels::LumaF32Tuple(tuples) => all_tuples_admissible(tuples@),
        }),
{
    match payload {
        InputPixels::RGBF32Tuple(tuples) => {
            if samples_in_range(payload) {
                assert forall|i: int| 0 <= i < tuples@.len() implies tuple_admissible(
                    #[trigger] tuples@[i],
                ) by {
                    assert forall|c: int| 0 <= c < 3 implies (#[trigger] tuples@[i][c]).admissible() by {
                        assert(in_unit_interval(tuples@[i][c]));
                    }
                }
            } else {
                let (i, c) = choose|i: int, c: int|
                    0 <= i < tuples@.len() && 0 <= c < 3 && !in_unit_interval(
                        #[trigger] tuples@[i][c],
                    );
                assert(!(tuples@[i][c]).admissible());
                assert(!tuple_admissible(tuples@[i]));
            }
        },
        InputPixels::RGBAF32Tuple(tuples) => {
            if samples_in_range(payload) {
                assert forall|i: int| 0 <= i < tuples@.len() implies tuple_admissible(
                    #[trigger] tuples@[i],
                ) by {
                    assert forall|c: int| 0 <= c < 4 implies (#[trigger] tuples@[i][c]).admissible() by {
                        assert(in_unit_interval(tuples@[i][c]));
                    }
                }
            } else {
                let (i, c) = choose|i: int, c: int|
                    0 <= i < tuples@.len() && 0 <= c < 4 && !in_unit_interval(
                        #[trigger] tuples@[i][c],
                    );
                assert(!(tuples@[i][c]).admissible());
                assert(!tuple_admissible(tuples@[i]));
            }
        },
        InputPixels::LumaF32Tuple(tuples) => {
            if samples_in_range(payload) {
                assert forall|i: int| 0 <= i < tuples@.len() implies tuple_admissible(
                    #[trigger] tuples@[i],
                ) by {
                    assert(in_unit_interval(tuples@[i][0]));
                }
            } else {
                let i = choose|i: int|
                    0 <= i < tuples@.len() && !in_unit_interval((#[trigger] tuples@[i])[0]);
                assert(!(tuples@[i][0]).admissible());
                assert(!tuple_admissible(tuples@[i]));
            }
        },
        InputPixels::RGBTuple(tuples) => {
            assert forall|i: int| 0 <= i < tuples@.len() implies tuple_admissible(
                #[trigger] tuples@[i],
            ) by {}
        },
        InputPixels::RGBATuple(tuples) => {
            assert forall|i: int| 0 <= i < tuples@.len() implies tuple_admissible(
                #[trigger] tuples@[i],
            ) by {}
        },
        InputPixels::LumaTuple(tuples) => {
            assert forall|i: int| 0 <= i < tuples@.len() implies tuple_admissible(
                #[trigger] tuples@[i],
            ) by {}
        },
        _ => {},
    }
}

/// A normalized payload with a sample that is NaN, infinite, below zero or
/// above one is rejected as out of range, whichever channel the sample belongs
/// to. This holds of tuples of any number, and of a flat buffer whose length
/// fits a layout; an unfit length is reported before any sample is read.
pub proof fn lemma_out_of_range_sample_is_rejected(
    payload: InputPixels,
    width: usize,
    height: usize,
    kind: Side,
)
    requires
        is_normalized(payload),
        !samples_in_range(payload),
        payload is FlatF32 ==> fits(payload, width, height),
    ensures
        payload.ingested(width, height, kind) == Err::<ImageModel, AnalyzeError>(
            AnalyzeError::InvalidPixelRange { side: kind },
        ),
{
    lemma_in_range_is_admissible(payload);
}

/// A payload of the right size whose samples are all in range is ingested, the
/// image has the declared dimensions, and every sample of it is the sample
/// that the payload supplies for that channel of that pixel: decoded where the
/// payload is quantized, unchanged where it is normalized.
pub proof fn lemma_in_range_payload_is_ingested(
    payload: InputPixels,
    width: usize,
    height: usize,
    kind: Side,
)
    requires
        samples_in_range(payload),
        fits(payload, width, height),
    ensures
        payload.ingested(width, height, kind) matches Ok(image) && {
            &&& image.width == width
            &&& image.height == height
            &&& image.pixels.len() == width * height
            &&& forall|i: int, c: int|
                0 <= i < width * height && 0 <= c < 3 ==> #[trigger] channel(image.pixels[i], c)
                    == supplied_sample(payload, width, height, i, c)
        },
{
    lemma_in_range_is_admissible(payload);
}

/// Luma expansion replicates: every pixel of an ingested luma payload holds
/// the canonical luma sample in all three channels.
pub proof fn lemma_luma_is_replicated(
    payload: InputPixels,
    width: usize,
    height: usize,
    kind: Side,
    i: int,
)
    requires
        payload.shape(width, height, kind) matches Ok(shape) && shape.layout == ChannelLayout::Luma,
        payload.ingested(width, height, kind) is Ok,
        0 <= i < width * height,
    ensures
        payload.ingested(width, height, kind) matches Ok(image) && {
            let v = supplied_sample(payload, width, height, i, 0);
            image.pixels[i] == (v, v, v)
        },
{
}

/// Two RGBA payloads of the same form and length that agree on red, green and
/// blue of every pixel; where they are normalized, the alpha samples of both
/// are in range.
pub open spec fn differ_in_alpha_only(a: InputPixels, b: InputPixels) -> bool {
    match (a, b) {
        (InputPixels::Flat(x), InputPixels::Flat(y)) => {
            &&& x@.len() == y@.len()
            &&& forall|j: int| 0 <= j < x@.len() && j % 4 != 3 ==> x@[j] == y@[j]
        },
        (InputPixels::FlatF32(x), InputPixels::FlatF32(y)) => {
            &&& x@.len() == y@.len()
            &&& forall|j: int| 0 <= j < x@.len() && j % 4 != 3 ==> x@[j] == y@[j]
            &&& forall|j: int|
                0 <= j < x@.len() && j % 4 == 3 ==> in_unit_interval(x@[j]) && in_unit_interval(
                    y@[j],
                )
        },
        (InputPixels::RGBATuple(x), InputPixels::RGBATuple(y)) => {
            &&& x@.len() == y@.len()
            &&& forall|i: int, c: int|
                0 <= i < x@.len() && 0 <= c < 3 ==> x@[i][c] == y@[i][c]
        },
        (InputPixels::RGBAF32Tuple(x), InputPixels::RGBAF32Tuple(y)) => {
            &&& x@.len() == y@.len()
            &&& forall|i: int, c: int|
                0 <= i < x@.len() && 0 <= c < 3 ==> x@[i][c] == y@[i][c]
            &&& forall|i: int|
                0 <= i < x@.len() ==> in_unit_interval(x@[i][3]) && in_unit_interval(y@[i][3])
        },
        _ => false,
    }
}

/// The alpha channel is discarded: two RGBA payloads that differ in their
/// alpha samples only have the same outcome, be it an image or an error.
pub proof fn lemma_alpha_is_discarded(
    a: InputPixels,
    b: InputPixels,
    width: usize,
    height: usize,
    kind: Side,
)
    requires
        differ_in_alpha_only(a, b),
        a.shape(width, height, kind) matches Ok(shape) && shape.layout == ChannelLayout::Rgba,
    ensures
        a.ingested(width, height, kind) == b.ingested(width, height, kind),
{
    match (a, b) {
        (InputPixels::Flat(x), InputPixels::Flat(y)) => {
            assert(grouped_pixels(x@, 4) =~= grouped_pixels(y@, 4)) by {
                assert forall|i: int| 0 <= i < x@.len() / 4 implies grouped_pixels(x@, 4)[i]
                    == grouped_pixels(y@, 4)[i] by {
                    assert(x@[4 * i] == y@[4 * i]);
                    assert(x@[4 * i + 1] == y@[4 * i + 1]);
                    assert(x@[4 * i + 2] == y@[4 * i + 2]);
                }
            }
        },
        (InputPixels::FlatF32(x), InputPixels::FlatF32(y)) => {
            assert(grouped_pixels(x@, 4) =~= grouped_pixels(y@, 4)) by {
                assert forall|i: int| 0 <= i < x@.len() / 4 implies grouped_pixels(x@, 4)[i]
                    == grouped_pixels(y@, 4)[i] by {
                    assert(x@[4 * i] == y@[4 * i]);
                    assert(x@[4 * i + 1] == y@[4 * i + 1]);
                    assert(x@[4 * i + 2] == y@[4 * i + 2]);
                }
            }
            assert(all_admissible(x@) == all_admissible(y@)) by {
                if all_admissible(x@) {
                    assert forall|j: int| 0 <= j < y@.len() implies (#[trigger] y@[j]).admissible() by {
                        assert(x@[j].admissible());
                    }
                }
                if all_admissible(y@) {
                    assert forall|j: int| 0 <= j < x@.len() implies (#[trigger] x@[j]).admissible() by {
                        assert(y@[j].admissible());
                    }
                }
            }
        },
        (InputPixels::RGBATuple(x), InputPixels::RGBATuple(y)) => {
            lemma_in_range_is_admissible(a);
            lemma_in_range_is_admissible(b);
            assert(rgb_tuple_pixels(x@) =~= rgb_tuple_pixels(y@)) by {
                assert forall|i: int| 0 <= i < x@.len() implies rgb_tuple_pixels(x@)[i]
                    == rgb_tuple_pixels(y@)[i] by {
                    assert(x@[i][0] == y@[i][0]);
                    assert(x@[i][1] == y@[i][1]);
                    assert(x@[i][2] == y@[i][2]);
                }
            }
        },
        (InputPixels::RGBAF32Tuple(x), InputPixels::RGBAF32Tuple(y)) => {
            lemma_in_range_is_admissible(a);
            lemma_in_range_is_admissible(b);
            assert(rgb_tuple_pixels(x@) =~= rgb_tuple_pixels(y@)) by {
                assert forall|i: int| 0 <= i < x@.len() implies rgb_tuple_pixels(x@)[i]
                    == rgb_tuple_pixels(y@)[i] by {
                    assert(x@[i][0] == y@[i][0]);
                    assert(x@[i][1] == y@[i][1]);
                    assert(x@[i][2] == y@[i][2]);
                }
            }
            assert(samples_in_range(a) == samples_in_range(b)) by {
                if samples_in_range(a) {
                    assert forall|i: int, c: int|
                        0 <= i < y@.len() && 0 <= c < 4 implies in_unit_interval(
                        #[trigger] y@[i][c],
                    ) by {
                        assert(in_unit_interval(x@[i][c]));
                    }
                }
                if samples_in_range(b) {
                    assert forall|i: int, c: int|
                        0 <= i < x@.len() && 0 <= c < 4 implies in_unit_interval(
                        #[trigger] x@[i][c],
                    ) by {
                        assert(in_unit_interval(y@[i][c]));
                    }
                }
            }
        },
        _ => {},
    }
}

/// Whatever is ingested is canonical: the image has the declared dimensions,
/// `width * height` pixels, and every sample of it is finite and within
/// `[0.0, 1.0]`.
pub proof fn lemma_ingested_image_is_canonical(
    payload: InputPixels,
    width: usize,
    height: usize,
    kind: Side,
)
    requires
        payload.ingested(width, height, kind) is Ok,
    ensures
        payload.ingested(width, height, kind) matches Ok(image) && {
            &&& image.width == width
            &&& image.height == height
            &&& image.pixels.len() == width * height
            &&& all_canonical(image.pixels)
        },
{
    match payload {
        InputPixels::Flat(flat) => {
            let layout = inferred_layout(flat@.len() as int, width as int, height as int).unwrap();
            lemma_flat_pixels_canonical(flat@, layout);
        },
        InputPixels::FlatF32(flat) => {
            let layout = inferred_layout(flat@.len() as int, width as int, height as int).unwrap();
            lemma_flat_pixels_canonical(flat@, layout);
        },
        InputPixels::RGBTuple(tuples) => {
            lemma_rgb_tuple_pixels_canonical(tuples@);
        },
        InputPixels::RGBATuple(tuples) => {
            lemma_rgb_tuple_pixels_canonical(tuples@);
        },
        InputPixels::LumaTuple(tuples) => {
            lemma_luma_tuple_pixels_canonical(tuples@);
        },
        InputPixels::RGBF32Tuple(tuples) => {
            lemma_rgb_tuple_pixels_canonical(tuples@);
        },
        InputPixels::RGBAF32Tuple(tuples) => {
            lemma_rgb_tuple_pixels_canonical(tuples@);
        },
        InputPixels::LumaF32Tuple(tuples) => {
            lemma_luma_tuple_pixels_canonical(tuples@);
        },
    }
}

/// Ingestion fails with a length mismatch exactly on the payloads that
/// classification rejects, and with the same error.
pub proof fn lemma_mismatch_exactly_when_unclassified(
    payload: InputPixels,
    width: usize,
    height: usize,
    kind: Side,
)
    ensures
        payload.shape(width, height, kind) matches Err(e) ==> payload.ingested(width, height, kind)
            == Err::<ImageModel, AnalyzeError>(e),
        payload.ingested(width, height, kind) matches Err(AnalyzeError::LengthMismatch { .. })
            ==> payload.shape(width, height, kind) is Err,
{
}

} // verus!
