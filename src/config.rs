//! The shading parameters and their validation.
use vstd::prelude::*;

use crate::text::{
    decimal,
    fixed_text,
    fixed_to_text,
    parse_fixed,
    parse_uint,
    read_fixed,
    read_uint,
    same_text,
    uint_text,
};

verus! {

/// Fixed-point scale of the real-valued parameters: a stored value `v`
/// stands for `v / MICRO`.
pub const MICRO: u32 = 1_000_000;

/// Default number of rows.
pub const LINES: u32 = 64;

/// Default output width.
pub const WIDTH: u32 = 512;

/// Default output height.
pub const HEIGHT: u32 = 512;

/// Default samples per source column (5.0).
pub const SAMPLE_FREQ: u32 = 5_000_000;

/// Default lower end of the frequency range (0.001).
pub const MIN_FREQ: u32 = 1_000;

/// Default upper end of the frequency range (2.0).
pub const MAX_FREQ: u32 = 2_000_000;

/// Default amplitude as a ratio of the row height (0.4).
pub const AMPLITUDE: u32 = 400_000;

/// Parameters of one shading run.
///
/// `sample_freq`, `min_freq`, `max_freq` and `amplitude` are fixed-point
/// numbers in millionths (see [`MICRO`]).
#[derive(Clone, Copy, Debug, PartialEq, Eq, Structural)]
pub struct SinusoidShadingConfig {
    /// Number of sinusoids, or rows, to create.
    pub lines: u32,
    /// Output width.
    pub width: u32,
    /// Output height.
    pub height: u32,
    /// Samples per source column; more samples give smoother strokes.
    pub sample_freq: u32,
    /// Frequency given to the brightest intensity of the image.
    pub min_freq: u32,
    /// Frequency given to the darkest intensity of the image.
    pub max_freq: u32,
    /// Amplitude as a ratio of the row height; above one half, adjacent rows
    /// overlap.
    pub amplitude: u32,
}

/// Why a configuration cannot be used.
#[derive(Clone, Copy, Debug, PartialEq, Eq, Structural)]
pub enum ValidationError {
    ZeroLines,
    ZeroWidth,
    ZeroHeight,
    NonPositiveSampleFreq,
    /// A row would hold more samples than the address space can index.
    TooManySamples,
}

/// The first reason, in the order lines, width, height, sample rate, for
/// which `c` cannot be used; `None` when it can.
pub open spec fn config_error(c: SinusoidShadingConfig) -> Option<ValidationError> {
    if c.lines == 0 {
        Some(ValidationError::ZeroLines)
    } else if c.width == 0 {
        Some(ValidationError::ZeroWidth)
    } else if c.height == 0 {
        Some(ValidationError::ZeroHeight)
    } else if c.sample_freq == 0 {
        Some(ValidationError::NonPositiveSampleFreq)
    } else {
        None
    }
}

/// The parsed value, or `default` when the text did not parse.
pub open spec fn or_default(v: Option<u32>, default: u32) -> u32 {
    match v {
        Some(x) => x,
        None => default,
    }
}

/// `c` with the field named `field` set from the text `value`: counts
/// (`lines`, `width`, `height`) read as unsigned integers, the others as
/// decimals, each falling back to its default when `value` does not parse;
/// an unknown name leaves `c` as it is.
pub open spec fn with_field(c: SinusoidShadingConfig, field: Seq<char>, value: Seq<char>) -> SinusoidShadingConfig {
    if field == "lines"@ {
        SinusoidShadingConfig { lines: or_default(parse_uint(value), LINES), ..c }
    } else if field == "width"@ {
        SinusoidShadingConfig { width: or_default(parse_uint(value), WIDTH), ..c }
    } else if field == "height"@ {
        SinusoidShadingConfig { height: or_default(parse_uint(value), HEIGHT), ..c }
    } else if field == "sample_freq"@ {
        SinusoidShadingConfig { sample_freq: or_default(parse_fixed(value), SAMPLE_FREQ), ..c }
    } else if field == "min_freq"@ {
        SinusoidShadingConfig { min_freq: or_default(parse_fixed(value), MIN_FREQ), ..c }
    } else if field == "max_freq"@ {
        SinusoidShadingConfig { max_freq: or_default(parse_fixed(value), MAX_FREQ), ..c }
    } else if field == "amplitude"@ {
        SinusoidShadingConfig { amplitude: or_default(parse_fixed(value), AMPLITUDE), ..c }
    } else {
        c
    }
}

/// Text of the field named `field` of `c`; "0" for an unknown name.
pub open spec fn field_text(c: SinusoidShadingConfig, field: Seq<char>) -> Seq<char> {
    if field == "lines"@ {
        decimal(c.lines as nat)
    } else if field == "width"@ {
        decimal(c.width as nat)
    } else if field == "height"@ {
        decimal(c.height as nat)
    } else if field == "sample_freq"@ {
        fixed_text(c.sample_freq as nat)
    } else if field == "min_freq"@ {
        fixed_text(c.min_freq as nat)
    } else if field == "max_freq"@ {
        fixed_text(c.max_freq as nat)
    } else if field == "amplitude"@ {
        fixed_text(c.amplitude as nat)
    } else {
        seq!['0']
    }
}

fn uint_or(value: &str, default: u32) -> (r: u32)
    ensures
        r == or_default(parse_uint(value@), default),
{
    match read_uint(value) {
        Some(v) => v,
        None => default,
    }
}

fn fixed_or(value: &str, default: u32) -> (r: u32)
    ensures
        r == or_default(parse_fixed(value@), default),
{
    match read_fixed(value) {
        Some(v) => v,
        None => default,
    }
}

impl SinusoidShadingConfig {
    /// Sets the field named `field` from text, as a form field would (see
    /// [`with_field`]).
    pub fn set_field(&mut self, field: &str, value: &str)
        ensures
            *final(self) == with_field(*old(self), field@, value@),
    {
        if same_text(field, "lines") {
            self.lines = uint_or(value, LINES);
        } else if same_text(field, "width") {
            self.width = uint_or(value, WIDTH);
        } else if same_text(field, "height") {
            self.height = uint_or(value, HEIGHT);
        } else if same_text(field, "sample_freq") {
            self.sample_freq = fixed_or(value, SAMPLE_FREQ);
        } else if same_text(field, "min_freq") {
            self.min_freq = fixed_or(value, MIN_FREQ);
        } else if same_text(field, "max_freq") {
            self.max_freq = fixed_or(value, MAX_FREQ);
        } else if same_text(field, "amplitude") {
            self.amplitude = fixed_or(value, AMPLITUDE);
        }
    }

    /// The field named `field` as text (see [`field_text`]).
    pub fn get_field(&self, field: &str) -> (r: String)
        ensures
            r@ == field_text(*self, field@),
    {
        if same_text(field, "lines") {
            uint_text(self.lines)
        } else if same_text(field, "width") {
            uint_text(self.width)
        } else if same_text(field, "height") {
            uint_text(self.height)
        } else if same_text(field, "sample_freq") {
            fixed_to_text(self.sample_freq)
        } else if same_text(field, "min_freq") {
            fixed_to_text(self.min_freq)
        } else if same_text(field, "max_freq") {
            fixed_to_text(self.max_freq)
        } else if same_text(field, "amplitude") {
            fixed_to_text(self.amplitude)
        } else {
            uint_text(0)
        }
    }

    /// A configuration that every numeric stage accepts.
    pub open spec fn valid(self) -> bool {
        config_error(self) is None
    }

    /// Accepts the configuration, or names the first field that makes it
    /// unusable.
    pub fn validate(&self) -> (r: Result<(), ValidationError>)
        ensures
            r is Ok <==> self.valid(),
            r is Err ==> Some(r->Err_0) == config_error(*self),
    {
        if self.lines == 0 {
            Err(ValidationError::ZeroLines)
        } else if self.width == 0 {
            Err(ValidationError::ZeroWidth)
        } else if self.height == 0 {
            Err(ValidationError::ZeroHeight)
        } else if self.sample_freq == 0 {
            Err(ValidationError::NonPositiveSampleFreq)
        } else {
            Ok(())
        }
    }
}

impl Default for SinusoidShadingConfig {
    fn default() -> (r: Self)
        ensures
            r == (SinusoidShadingConfig {
                lines: LINES,
                width: WIDTH,
                height: HEIGHT,
                sample_freq: SAMPLE_FREQ,
                min_freq: MIN_FREQ,
                max_freq: MAX_FREQ,
                amplitude: AMPLITUDE,
            }),
    {
        SinusoidShadingConfig {
            lines: LINES,
            width: WIDTH,
            height: HEIGHT,
            sample_freq: SAMPLE_FREQ,
            min_freq: MIN_FREQ,
            max_freq: MAX_FREQ,
            amplitude: AMPLITUDE,
        }
    }
}

} // verus!
