//! Pixel ingestion and canonicalization for a perceptual image-quality metric.
//!
//! A caller hands over two pixel payloads (a source and a degraded image) in one of
//! several shapes and encodings, together with the declared width and height. This
//! crate validates each payload and produces the single canonical form the metric
//! engine accepts: `width * height` RGB triples whose samples lie in the closed unit
//! interval. Samples are carried as IEEE-754 binary32 bit patterns throughout, so
//! that every step is integer arithmetic and every contract is exact.
//!
//! The stages of one ingestion, in order:
//!
//! * `shape`: the layout of a flat buffer is inferred from its length;
//! * `binary32`, `quantized`: normalized samples are validated, quantized
//!   samples are decoded;
//! * `reduce`, `parallel`: every pixel is reduced to an RGB triple, in parallel;
//! * `image`: the triples are assembled into the canonical image;
//! * `pixels`, `rgb8`: the entries that run these stages on a payload;
//! * `bindings`, `error`, `text`: what can go wrong, and how it is worded;
//! * `laws`: what holds of every ingestion.

pub mod binary32;
pub mod bindings;
pub mod error;
pub mod image;
pub mod laws;
pub mod parallel;
pub mod pixels;
pub mod quantized;
pub mod reduce;
pub mod rgb8;
pub mod shape;
pub mod text;
