use pixel_ingest::error::Side;
use pixel_ingest::image::{CanonicalImage, ColorPrimaries, TransferCharacteristic};
use pixel_ingest::pixels::InputPixels;

fn to_engine_image(image: CanonicalImage) -> ssimulacra2::Rgb {
    let width = image.width();
    let height = image.height();
    let transfer = match image.transfer() {
        TransferCharacteristic::SRGB => ssimulacra2::TransferCharacteristic::SRGB,
    };
    let primaries = match image.primaries() {
        ColorPrimaries::BT709 => ssimulacra2::ColorPrimaries::BT709,
    };
    let data: Vec<[f32; 3]> = image.into_data().into_iter().map(|p| p.map(f32::from_bits)).collect();
    ssimulacra2::Rgb::new(data, width, height, transfer, primaries).unwrap()
}

fn gradient(width: usize, height: usize) -> Vec<u8> {
    (0..width * height * 3).map(|j| (j * 7 % 256) as u8).collect()
}

#[test]
fn ingested_image_is_accepted_by_the_engine() {
    let image = InputPixels::Flat(gradient(16, 16)).to_rgb(16, 16, Side::Source).unwrap();
    let rgb = to_engine_image(image);
    assert_eq!(rgb.width(), 16);
    assert_eq!(rgb.height(), 16);
    assert_eq!(rgb.data().len(), 256);
}

#[test]
fn identical_images_score_the_same_on_every_run() {
    let first = {
        let s = InputPixels::Flat(gradient(16, 16)).to_rgb(16, 16, Side::Source).unwrap();
        let d = InputPixels::Flat(gradient(16, 16)).to_rgb(16, 16, Side::Degraded).unwrap();
        ssimulacra2::compute_frame_ssimulacra2(to_engine_image(s), to_engine_image(d)).unwrap()
    };
    let second = {
        let s = InputPixels::Flat(gradient(16, 16)).to_rgb(16, 16, Side::Source).unwrap();
        let d = InputPixels::Flat(gradient(16, 16)).to_rgb(16, 16, Side::Degraded).unwrap();
        ssimulacra2::compute_frame_ssimulacra2(to_engine_image(s), to_engine_image(d)).unwrap()
    };
    assert!(first.is_finite());
    assert_eq!(first, second);
}

#[test]
fn alpha_does_not_change_the_score() {
    let rgb = gradient(16, 16);
    let with_alpha = |alpha: u8| -> Vec<u8> {
        rgb.chunks(3).flat_map(|p| [p[0], p[1], p[2], alpha]).collect()
    };
    let reference: Vec<u8> = rgb.iter().map(|b| b / 2).collect();
    let score = |alpha: u8| -> f64 {
        let s = InputPixels::Flat(reference.clone()).to_rgb(16, 16, Side::Source).unwrap();
        let d = InputPixels::Flat(with_alpha(alpha)).to_rgb(16, 16, Side::Degraded).unwrap();
        ssimulacra2::compute_frame_ssimulacra2(to_engine_image(s), to_engine_image(d)).unwrap()
    };
    assert_eq!(score(0), score(255));
}
