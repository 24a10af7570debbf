//! Frequency mapping: every averaged intensity becomes an instantaneous
//! frequency, rescaled over the whole image into the configured range, and
//! each row is upsampled by step/hold to the sample rate.
use vstd::prelude::*;

use crate::bands::grid_view;
use crate::config::{SinusoidShadingConfig, MICRO};

verus! {

/// Least of the first `k` intensities of `row` (255 for none).
pub open spec fn row_min(row: Seq<int>, k: int) -> int
    decreases k,
{
    if k <= 0 {
        255
    } else {
        let m = row_min(row, k - 1);
        if row[k - 1] < m {
            row[k - 1]
        } else {
            m
        }
    }
}

/// Greatest of the first `k` intensities of `row` (0 for none).
pub open spec fn row_max(row: Seq<int>, k: int) -> int
    decreases k,
{
    if k <= 0 {
        0
    } else {
        let m = row_max(row, k - 1);
        if row[k - 1] > m {
            row[k - 1]
        } else {
            m
        }
    }
}

/// Least intensity of the first `k` rows of `g` (255 for none).
pub open spec fn grid_min(g: Seq<Seq<int>>, k: int) -> int
    decreases k,
{
    if k <= 0 {
        255
    } else {
        let m = grid_min(g, k - 1);
        let r = row_min(g[k - 1], g[k - 1].len() as int);
        if r < m {
            r
        } else {
            m
        }
    }
}

/// Greatest intensity of the first `k` rows of `g` (0 for none).
pub open spec fn grid_max(g: Seq<Seq<int>>, k: int) -> int
    decreases k,
{
    if k <= 0 {
        0
    } else {
        let m = grid_max(g, k - 1);
        let r = row_max(g[k - 1], g[k - 1].len() as int);
        if r > m {
            r
        } else {
            m
        }
    }
}

/// Least intensity of the whole grid.
pub open spec fn lowest(g: Seq<Seq<int>>) -> int {
    grid_min(g, g.len() as int)
}

/// Greatest intensity of the whole grid.
pub open spec fn highest(g: Seq<Seq<int>>) -> int {
    grid_max(g, g.len() as int)
}

/// Samples per row: `ceil(width * fs)`, with `fs` in millionths.
pub open spec fn samples_per_row(width: int, sample_freq: int) -> int {
    (width * sample_freq + MICRO - 1) / (MICRO as int)
}

/// Source column read by sample `n`: `floor(n / fs)`, clamped to the last
/// column.
pub open spec fn source_column(n: int, width: int, sample_freq: int) -> int {
    let i = n * MICRO / sample_freq;
    if i < width - 1 {
        i
    } else {
        width - 1
    }
}

/// Common denominator of the frequencies: the intensity spread of the
/// image, or one for an image of a single intensity.
pub open spec fn frequency_den(lo: int, hi: int) -> int {
    if hi > lo {
        hi - lo
    } else {
        1
    }
}

/// Numerator of the frequency, in millionths over `frequency_den`, of
/// intensity `px` in an image whose intensities span `lo ..= hi`.
///
/// The inverted intensity `(255 - px) / 255` is rescaled linearly so that
/// the brightest intensity `hi` maps to `min_freq` and the darkest `lo` to
/// `max_freq`; this reduces to
/// `(min_freq * (px - lo) + max_freq * (hi - px)) / (hi - lo)`.
pub open spec fn frequency_num(px: int, lo: int, hi: int, min_freq: int, max_freq: int) -> int {
    if hi > lo {
        min_freq * (px - lo) + max_freq * (hi - px)
    } else {
        min_freq
    }
}

/// Rows of rationals over one shared denominator.
pub struct RationalGrid {
    pub den: int,
    pub rows: Seq<Seq<int>>,
}

/// The frequency field of averaged bands `g` of `width` columns: one row per
/// band, `samples_per_row` frequencies per row, in millionths over `den`.
pub open spec fn frequency_field(
    g: Seq<Seq<int>>,
    width: int,
    c: SinusoidShadingConfig,
) -> RationalGrid {
    let lo = lowest(g);
    let hi = highest(g);
    RationalGrid {
        den: frequency_den(lo, hi),
        rows: Seq::new(
            g.len(),
            |r: int|
                Seq::new(
                    samples_per_row(width, c.sample_freq as int) as nat,
                    |n: int|
                        frequency_num(
                            g[r][source_column(n, width, c.sample_freq as int)],
                            lo,
                            hi,
                            c.min_freq as int,
                            c.max_freq as int,
                        ),
                ),
        ),
    }
}

/// Instantaneous frequencies of every sample, in millionths: sample `n` of
/// row `r` is `rows[r][n] / den`.
pub struct FrequencyField {
    pub den: u64,
    pub rows: Vec<Vec<u64>>,
}

impl View for FrequencyField {
    type V = RationalGrid;

    open spec fn view(&self) -> RationalGrid {
        RationalGrid {
            den: self.den as int,
            rows: self.rows@.map_values(|row: Vec<u64>| row@.map_values(|x: u64| x as int)),
        }
    }
}

proof fn lemma_row_range(row: Seq<int>, k: int)
    requires
        0 <= k <= row.len(),
        forall|c: int| 0 <= c < row.len() ==> 0 <= #[trigger] row[c] <= 255,
    ensures
        forall|c: int| 0 <= c < k ==> row_min(row, k) <= #[trigger] row[c] <= row_max(row, k),
        k > 0 ==> row_min(row, k) <= row_max(row, k),
        0 <= row_min(row, k) <= 255,
        0 <= row_max(row, k) <= 255,
    decreases k,
{
    if k > 0 {
        lemma_row_range(row, k - 1);
    }
}

proof fn lemma_grid_range(g: Seq<Seq<int>>, k: int)
    requires
        0 <= k <= g.len(),
        forall|n: int, c: int| 0 <= n < g.len() && 0 <= c < g[n].len() ==> 0 <= #[trigger] g[n][c] <= 255,
    ensures
        forall|n: int, c: int|
            0 <= n < k && 0 <= c < g[n].len() ==> grid_min(g, k) <= #[trigger] g[n][c]
                <= grid_max(g, k),
        0 <= grid_min(g, k) <= 255,
        0 <= grid_max(g, k) <= 255,
    decreases k,
{
    if k > 0 {
        lemma_grid_range(g, k - 1);
        lemma_row_range(g[k - 1], g[k - 1].len() as int);
    }
}

/// Every intensity of the grid lies between its least and greatest one.
pub proof fn lemma_intensity_bounds(g: Seq<Seq<int>>)
    requires
        forall|n: int, c: int| 0 <= n < g.len() && 0 <= c < g[n].len() ==> 0 <= #[trigger] g[n][c] <= 255,
    ensures
        forall|n: int, c: int|
            0 <= n < g.len() && 0 <= c < g[n].len() ==> lowest(g) <= #[trigger] g[n][c]
                <= highest(g),
        0 <= lowest(g) <= 255,
        0 <= highest(g) <= 255,
{
    lemma_grid_range(g, g.len() as int);
}

/// The least and the greatest intensity of the whole grid (255 and 0 when
/// it holds none).
pub fn intensity_range(g: &Vec<Vec<u8>>) -> (r: (u8, u8))
    ensures
        r.0 == lowest(grid_view(g@)),
        r.1 == highest(grid_view(g@)),
{
    let mut lo: u8 = 255;
    let mut hi: u8 = 0;
    let mut n: usize = 0;
    while n < g.len()
        invariant
            0 <= n <= g@.len(),
            lo == grid_min(grid_view(g@), n as int),
            hi == grid_max(grid_view(g@), n as int),
        decreases g@.len() - n,
    {
        let row = &g[n];
        let mut rlo: u8 = 255;
        let mut rhi: u8 = 0;
        let mut c: usize = 0;
        while c < row.len()
            invariant
                0 <= c <= row@.len(),
                rlo == row_min(row@.map_values(|x: u8| x as int), c as int),
                rhi == row_max(row@.map_values(|x: u8| x as int), c as int),
            decreases row@.len() - c,
        {
            let v = row[c];
            if v < rlo {
                rlo = v;
            }
            if v > rhi {
                rhi = v;
            }
            c = c + 1;
        }
        assert(grid_view(g@)[n as int] == row@.map_values(|x: u8| x as int));
        if rlo < lo {
            lo = rlo;
        }
        if rhi > hi {
            hi = rhi;
        }
        n = n + 1;
    }
    (lo, hi)
}

/// Maps averaged bands of `width` columns to instantaneous frequencies.
///
/// The rescaling uses the least and greatest intensity of the whole image,
/// not of each row, and each sample holds the frequency of the column it
/// falls in (no interpolation).
pub fn make_frequencies(bands: &Vec<Vec<u8>>, width: u32, config: &SinusoidShadingConfig) -> (r:
    FrequencyField)
    requires
        config.sample_freq > 0,
        samples_per_row(width as int, config.sample_freq as int) <= usize::MAX,
        forall|n: int| 0 <= n < bands@.len() ==> #[trigger] bands@[n]@.len() == width,
    ensures
        r@ == frequency_field(grid_view(bands@), width as int, *config),
{
    let (lo, hi) = intensity_range(bands);
    let ghost g = grid_view(bands@);
    proof {
        assert forall|n: int, c: int| 0 <= n < g.len() && 0 <= c < g[n].len() implies 0
            <= #[trigger] g[n][c] <= 255 by {
            assert(g[n][c] == bands@[n]@[c] as int);
        }
        lemma_intensity_bounds(g);
        assert forall|n: int, c: int|
            0 <= n < bands@.len() && 0 <= c < bands@[n]@.len() implies lo <= #[trigger] bands@[n]@[c]
            <= hi by {
            assert(g[n][c] == bands@[n]@[c] as int);
        }
    }
    let den: u64 = if hi > lo {
        (hi - lo) as u64
    } else {
        1
    };
    let fs: u32 = config.sample_freq;
    let fmin: u32 = config.min_freq;
    let fmax: u32 = config.max_freq;
    assert(width as u64 * fs as u64 <= 0xffff_fffe_0000_0001) by (nonlinear_arith);
    let samples: usize = ((width as u64 * fs as u64 + (MICRO as u64 - 1)) / MICRO as u64) as usize;
    let ghost spec_field = frequency_field(g, width as int, *config);
    let mut rows: Vec<Vec<u64>> = Vec::new();
    let mut r: usize = 0;
    while r < bands.len()
        invariant
            0 <= r <= bands@.len(),
            rows@.len() == r,
            g == grid_view(bands@),
            lo == lowest(g),
            hi == highest(g),
            den == frequency_den(lo as int, hi as int),
            samples == samples_per_row(width as int, fs as int),
            fs == config.sample_freq,
            fmin == config.min_freq,
            fmax == config.max_freq,
            fs > 0,
            spec_field == frequency_field(g, width as int, *config),
            forall|n: int| 0 <= n < bands@.len() ==> #[trigger] bands@[n]@.len() == width,
            forall|n: int, c: int|
                0 <= n < bands@.len() && 0 <= c < bands@[n]@.len() ==> lo <= #[trigger] bands@[n]@[c] <= hi,
            forall|k: int|
                0 <= k < r ==> (#[trigger] rows@[k])@.map_values(|x: u64| x as int)
                    == spec_field.rows[k],
        decreases bands@.len() - r,
    {
        let band = &bands[r];
        let mut row: Vec<u64> = Vec::new();
        let mut n: usize = 0;
        while n < samples
            invariant
                0 <= n <= samples,
                row@.len() == n,
                band@.len() == width,
                band@ == bands@[r as int]@,
                0 <= r < bands@.len(),
                g == grid_view(bands@),
                lo == lowest(g),
                hi == highest(g),
                samples == samples_per_row(width as int, fs as int),
                fs == config.sample_freq,
                fmin == config.min_freq,
                fmax == config.max_freq,
                fs > 0,
                spec_field == frequency_field(g, width as int, *config),
                forall|c: int| 0 <= c < band@.len() ==> lo <= #[trigger] band@[c] <= hi,
                forall|k: int|
                    0 <= k < n ==> #[trigger] row@[k] == spec_field.rows[r as int][k],
            decreases samples - n,
        {
            assert(n as int * MICRO <= 0xffff_ffff_ffff_ffff * 1_000_000) by (nonlinear_arith)
                requires
                    n <= 0xffff_ffff_ffff_ffff,
            ;
            let i: u128 = (n as u128 * MICRO as u128) / fs as u128;
            assert(n as int * MICRO as int / fs as int >= 0) by (nonlinear_arith)
                requires
                    fs > 0,
                    n >= 0,
            ;
            assert(width > 0) by (nonlinear_arith)
                requires
                    n < samples,
                    samples == (width * fs + MICRO - 1) / (MICRO as int),
            ;
            let col: usize = if i < (width - 1) as u128 {
                i as usize
            } else {
                (width - 1) as usize
            };
            assert(col == source_column(n as int, width as int, fs as int));
            let px: u8 = band[col];
            assert(g[r as int][col as int] == px as int);
            assert(fmin as int * (px - lo) <= 0xffff_ffff * 255 && fmax as int * (hi - px)
                <= 0xffff_ffff * 255) by (nonlinear_arith)
                requires
                    lo <= px <= hi,
            ;
            let v: u64 = if hi > lo {
                fmin as u64 * (px - lo) as u64 + fmax as u64 * (hi - px) as u64
            } else {
                fmin as u64
            };
            row.push(v);
            n = n + 1;
        }
        assert(row@.map_values(|x: u64| x as int) =~= spec_field.rows[r as int]);
        rows.push(row);
        r = r + 1;
    }
    let out = FrequencyField { den, rows };
    assert(out@.rows =~= spec_field.rows);
    out
}

} // verus!
