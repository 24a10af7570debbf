//! The whole transform, from a grayscale image to phases, and its entry
//! point for images decoded by the `image` crate.
use vstd::prelude::*;

use crate::bands::{average_rows, averaged_bands};
use crate::config::{config_error, SinusoidShadingConfig, ValidationError, MICRO};
use crate::frequency::{frequency_field, samples_per_row, RationalGrid};
use crate::laws::lemma_shaded_phase_monotone;
use crate::phase::{make_lines, phase_field, PhaseField};
use crate::raster::GrayImage;

verus! {

#[verifier::external_type_specification]
#[verifier::external_body]
pub struct ExDynamicImage(image::DynamicImage);

/// Relies on image::DynamicImage::to_luma8: a grayscale copy of the image
/// with 8-bit intensities, one per pixel, stored row by row.
#[verifier::external_body]
fn luma_of(img: &image::DynamicImage) -> (r: GrayImage)
    ensures
        r.wf(),
{
    let gray = img.to_luma8();
    let (width, height) = gray.dimensions();
    GrayImage { width, height, pixels: gray.into_raw() }
}

/// The phases of `img` under configuration `c`: its averaged bands mapped
/// to frequencies and integrated row by row.
pub open spec fn shaded(img: GrayImage, c: SinusoidShadingConfig) -> RationalGrid {
    phase_field(
        frequency_field(averaged_bands(img, c.lines as int), img.width as int, c),
        c.sample_freq as int,
    )
}

/// The rows of `img` would hold more samples than a `usize` can count.
pub open spec fn too_many_samples(img: GrayImage, c: SinusoidShadingConfig) -> bool {
    samples_per_row(img.width as int, c.sample_freq as int) > usize::MAX
}

/// Every row of phases never decreases along the row.
pub open spec fn rows_nondecreasing(p: RationalGrid) -> bool {
    forall|r: int, n: int|
        0 <= r < p.rows.len() && 0 <= n && n + 1 < p.rows[r].len() ==> #[trigger] p.rows[r][n]
            <= p.rows[r][n + 1]
}

/// Shades a grayscale image: the configuration is checked before any
/// arithmetic, then the image is averaged into bands, mapped to
/// frequencies and integrated into phases.
pub fn process_gray(img: &GrayImage, config: &SinusoidShadingConfig) -> (r: Result<
    PhaseField,
    ValidationError,
>)
    requires
        img.wf(),
    ensures
        !config.valid() ==> r == Err::<PhaseField, ValidationError>(
            config_error(*config)->Some_0,
        ),
        config.valid() && too_many_samples(*img, *config) ==> r == Err::<
            PhaseField,
            ValidationError,
        >(ValidationError::TooManySamples),
        r is Ok <==> config.valid() && !too_many_samples(*img, *config),
        r matches Ok(p) ==> p@ == shaded(*img, *config),
        r matches Ok(p) ==> p@.rows.len() == if config.lines <= img.height {
            config.lines as int
        } else {
            img.height as int
        },
        r matches Ok(p) ==> rows_nondecreasing(p@),
{
    match config.validate() {
        Err(e) => {
            return Err(e);
        },
        Ok(()) => {},
    }
    assert(img.width as int * config.sample_freq as int <= 0xffff_fffe_0000_0001) by (
    nonlinear_arith);
    let samples: u64 = (img.width as u64 * config.sample_freq as u64 + (MICRO as u64 - 1))
        / MICRO as u64;
    if samples > usize::MAX as u64 {
        return Err(ValidationError::TooManySamples);
    }
    let bands = average_rows(img, config.lines);
    let phases = make_lines(&bands, img.width, config);
    proof {
        assert forall|r: int, n: int|
            0 <= r < phases@.rows.len() && 0 <= n && n + 1 < phases@.rows[r].len() implies #[trigger] phases@.rows[r][n]
            <= phases@.rows[r][n + 1] by {
            lemma_shaded_phase_monotone(*img, *config, r, n);
        }
    }
    Ok(phases)
}

/// Shades a decoded image: its grayscale copy is shaded as by
/// [`process_gray`].
pub fn process_image(img: &image::DynamicImage, config: &SinusoidShadingConfig) -> (r: Result<
    PhaseField,
    ValidationError,
>)
    ensures
        !config.valid() ==> r == Err::<PhaseField, ValidationError>(
            config_error(*config)->Some_0,
        ),
        config.valid() ==> r is Ok || r == Err::<PhaseField, ValidationError>(
            ValidationError::TooManySamples,
        ),
        config.valid() && samples_per_row(u32::MAX as int, config.sample_freq as int)
            <= usize::MAX ==> r is Ok,
        r matches Ok(p) ==> exists|g: GrayImage| g.wf() && p@ == #[trigger] shaded(g, *config),
        r matches Ok(p) ==> p@.rows.len() <= config.lines,
        r matches Ok(p) ==> rows_nondecreasing(p@),
{
    match config.validate() {
        Err(e) => {
            return Err(e);
        },
        Ok(()) => {},
    }
    let gray = luma_of(img);
    let ghost fs = config.sample_freq as int;
    assert(gray.width as int * fs <= u32::MAX as int * fs) by (nonlinear_arith)
        requires
            gray.width <= u32::MAX,
            fs >= 0,
    ;
    assert(samples_per_row(gray.width as int, fs) <= samples_per_row(u32::MAX as int, fs)) by (
    nonlinear_arith)
        requires
            gray.width as int * fs <= u32::MAX as int * fs,
            samples_per_row(gray.width as int, fs) == (gray.width as int * fs + MICRO - 1)
                / (MICRO as int),
            samples_per_row(u32::MAX as int, fs) == (u32::MAX as int * fs + MICRO - 1)
                / (MICRO as int),
    ;
    process_gray(&gray, config)
}

} // verus!
