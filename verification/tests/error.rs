use pixel_ingest::bindings::{
    classify_status, ComputeError, SSIMU2_INVALID_CHANNELS, SSIMU2_OK, SSIMU2_OUT_OF_MEMORY,
};
use pixel_ingest::error::{AnalyzeError, ErrorClass, Side};

#[test]
fn status_zero_hands_the_score_on() {
    assert_eq!(classify_status(SSIMU2_OK, 87.5f64), Ok(87.5));
    assert_eq!(classify_status(0, -3.25f64), Ok(-3.25));
}

#[test]
fn status_one_is_invalid_channels() {
    assert_eq!(classify_status(SSIMU2_INVALID_CHANNELS, 0.0f64), Err(ComputeError::InvalidChannels));
}

#[test]
fn status_two_is_out_of_memory() {
    assert_eq!(classify_status(SSIMU2_OUT_OF_MEMORY, 0.0f64), Err(ComputeError::OutOfMemory));
}

#[test]
fn other_statuses_keep_their_code() {
    for code in [3, 4, 255, -1, i32::MAX, i32::MIN] {
        assert_eq!(classify_status(code, 1.0f64), Err(ComputeError::Unknown(code)));
    }
}

#[test]
fn engine_errors_map_one_for_one() {
    assert_eq!(AnalyzeError::from(ComputeError::InvalidChannels), AnalyzeError::EngineInvalidChannels);
    assert_eq!(AnalyzeError::from(ComputeError::OutOfMemory), AnalyzeError::EngineOutOfMemory);
    assert_eq!(AnalyzeError::from(ComputeError::Unknown(-7)), AnalyzeError::EngineUnknown(-7));
}

#[test]
fn argument_errors_are_value_errors() {
    let mismatch = AnalyzeError::LengthMismatch { side: Side::Source, expected: Some(6), actual: 5 };
    assert_eq!(mismatch.class(), ErrorClass::Value);
    assert_eq!(AnalyzeError::InvalidPixelRange { side: Side::Degraded }.class(), ErrorClass::Value);
}

#[test]
fn other_errors_are_runtime_errors() {
    assert_eq!(AnalyzeError::ImageConstructionFailed.class(), ErrorClass::Runtime);
    assert_eq!(AnalyzeError::EngineInvalidChannels.class(), ErrorClass::Runtime);
    assert_eq!(AnalyzeError::EngineOutOfMemory.class(), ErrorClass::Runtime);
    assert_eq!(AnalyzeError::EngineUnknown(9).class(), ErrorClass::Runtime);
}

#[test]
fn sides_have_their_words() {
    assert_eq!(Side::Source.label(), "source");
    assert_eq!(Side::Degraded.label(), "degraded");
}
