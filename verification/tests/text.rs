use pixel_ingest::bindings::ComputeError;
use pixel_ingest::error::{AnalyzeError, Side};
use pixel_ingest::text::{decimal, signed_decimal};

#[test]
fn naturals_are_rendered_in_decimal() {
    for n in [0u64, 1, 9, 10, 11, 99, 100, 101, 6_220_800, 4_294_967_295, u64::MAX] {
        assert_eq!(decimal(n), n.to_string());
    }
}

#[test]
fn integers_are_rendered_in_decimal() {
    for i in [0i64, 1, -1, 9, -9, 10, -10, 2_147_483_647, -2_147_483_648, i64::MAX, i64::MIN] {
        assert_eq!(signed_decimal(i), i.to_string());
    }
}

#[test]
fn engine_errors_are_worded() {
    assert_eq!(ComputeError::InvalidChannels.message(), "Invalid number of channels provided");
    assert_eq!(ComputeError::OutOfMemory.message(), "Out of memory");
    assert_eq!(ComputeError::Unknown(3).message(), "Unknown error occurred, code: 3");
    assert_eq!(ComputeError::Unknown(-12).message(), "Unknown error occurred, code: -12");
    assert_eq!(
        ComputeError::Unknown(i32::MIN).message(),
        "Unknown error occurred, code: -2147483648"
    );
}

#[test]
fn length_mismatch_names_side_expected_and_actual() {
    let err = AnalyzeError::LengthMismatch { side: Side::Degraded, expected: Some(6), actual: 5 };
    assert_eq!(
        err.message(),
        "`degraded` length does not match width and height: expected 6, got 5"
    );
    let err = AnalyzeError::LengthMismatch { side: Side::Source, expected: None, actual: 12 };
    assert_eq!(
        err.message(),
        "`source` length does not match width and height, which no buffer can hold: got 12"
    );
}

#[test]
fn invalid_range_names_the_side() {
    assert_eq!(
        AnalyzeError::InvalidPixelRange { side: Side::Source }.message(),
        "`source` pixel data contains non-finite or out-of-range values (should be in [0.0, 1.0])."
    );
    assert_eq!(
        AnalyzeError::InvalidPixelRange { side: Side::Degraded }.message(),
        "`degraded` pixel data contains non-finite or out-of-range values (should be in [0.0, 1.0])."
    );
}

#[test]
fn construction_and_engine_failures_are_worded() {
    assert_eq!(
        AnalyzeError::ImageConstructionFailed.message(),
        "Failed to create Rgb image: Data length does not match the specified dimensions."
    );
    assert_eq!(
        AnalyzeError::EngineInvalidChannels.message(),
        "Failed to compute SSIMULACRA2: Invalid number of channels provided"
    );
    assert_eq!(
        AnalyzeError::EngineOutOfMemory.message(),
        "Failed to compute SSIMULACRA2: Out of memory"
    );
    assert_eq!(
        AnalyzeError::EngineUnknown(77).message(),
        "Failed to compute SSIMULACRA2: Unknown error occurred, code: 77"
    );
}
