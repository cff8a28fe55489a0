use pixel_ingest::binary32::outside_range_f32;
use pixel_ingest::quantized::unit_from_byte;

#[test]
fn every_byte_decodes_to_its_quotient_by_255() {
    for b in 0..=255u8 {
        let decoded = f32::from_bits(unit_from_byte(b));
        assert_eq!(decoded, b as f32 / 255.0, "byte {}", b);
    }
}

#[test]
fn every_byte_decodes_to_the_rounding_of_the_exact_quotient() {
    for b in 0..=255u8 {
        let decoded = f32::from_bits(unit_from_byte(b));
        assert_eq!(decoded, (b as f64 / 255.0) as f32, "byte {}", b);
    }
}

#[test]
fn decoded_bytes_have_the_expected_patterns() {
    assert_eq!(unit_from_byte(0), 0x0000_0000);
    assert_eq!(unit_from_byte(1), 0x3B80_8081);
    assert_eq!(unit_from_byte(2), 0x3C00_8081);
    assert_eq!(unit_from_byte(51), 0x3E4C_CCCD);
    assert_eq!(unit_from_byte(85), 0x3EAA_AAAB);
    assert_eq!(unit_from_byte(127), 0x3EFE_FEFF);
    assert_eq!(unit_from_byte(128), 0x3F00_8081);
    assert_eq!(unit_from_byte(170), 0x3F2A_AAAB);
    assert_eq!(unit_from_byte(254), 0x3F7E_FEFF);
    assert_eq!(unit_from_byte(255), 0x3F80_0000);
}

#[test]
fn decoded_bytes_are_canonical_samples() {
    for b in 0..=255u8 {
        assert!(!outside_range_f32(&unit_from_byte(b)), "byte {}", b);
    }
}

#[test]
fn decoding_is_strictly_increasing() {
    for b in 0..255u8 {
        assert!(unit_from_byte(b) < unit_from_byte(b + 1), "byte {}", b);
    }
}
