//! Frequency-modulated sinusoidal line shading.
//!
//! A grayscale raster is reduced to horizontal bands, each band becomes a
//! frequency signal, the frequencies are integrated into phases, and the
//! phases (through their sines) are laid out as one polyline per band.
//!
//! All arithmetic is exact: real-valued settings are fixed-point numbers in
//! millionths, and every intermediate field is a grid of integer numerators
//! over one shared denominator.
pub mod bands;
pub mod config;
pub mod frequency;
pub mod laws;
pub mod phase;
pub mod raster;
pub mod render;
pub mod sinusoid;
pub mod text;

pub use bands::average_rows;
pub use config::{SinusoidShadingConfig, ValidationError, MICRO};
pub use frequency::{intensity_range, make_frequencies, FrequencyField};
pub use phase::{integrate_phase, make_lines, PhaseField};
pub use raster::GrayImage;
pub use render::{render, PathDocument, Point, Polyline};
pub use sinusoid::{process_gray, process_image};

