//! Phase integration: each row's frequencies are summed cumulatively and
//! divided once by the sample rate, so a row's phase never jumps where its
//! frequency changes.
use vstd::prelude::*;

use crate::bands::grid_view;
use crate::config::SinusoidShadingConfig;
use crate::frequency::{
    frequency_field,
    make_frequencies,
    samples_per_row,
    FrequencyField,
    RationalGrid,
};

verus! {

/// Sum of the first `n` entries of `s`.
pub open spec fn prefix_sum(s: Seq<int>, n: int) -> int
    decreases n,
{
    if n <= 0 {
        0
    } else {
        prefix_sum(s, n - 1) + s[n - 1]
    }
}

/// The phases of frequency field `f` (in millionths over `f.den`) at sample
/// rate `sample_freq` (in millionths): sample `n` of a row is the sum of the
/// row's frequencies `0 ..= n` divided by the sample rate, in radians over
/// `f.den * sample_freq`. Every row starts afresh.
pub open spec fn phase_field(f: RationalGrid, sample_freq: int) -> RationalGrid {
    RationalGrid {
        den: f.den * sample_freq,
        rows: f.rows.map_values(
            |row: Seq<int>| Seq::new(row.len(), |n: int| prefix_sum(row, n + 1)),
        ),
    }
}

/// Phase of every sample, in radians: sample `n` of row `r` is
/// `rows[r][n] / den`.
pub struct PhaseField {
    pub den: u128,
    pub rows: Vec<Vec<u128>>,
}

impl View for PhaseField {
    type V = RationalGrid;

    open spec fn view(&self) -> RationalGrid {
        RationalGrid {
            den: self.den as int,
            rows: self.rows@.map_values(|row: Vec<u128>| row@.map_values(|x: u128| x as int)),
        }
    }
}

proof fn lemma_prefix_sum_bound(s: Seq<int>, n: int)
    requires
        0 <= n <= s.len(),
        forall|k: int| 0 <= k < s.len() ==> 0 <= #[trigger] s[k] <= 0xffff_ffff_ffff_ffff,
    ensures
        0 <= prefix_sum(s, n) <= n * 0xffff_ffff_ffff_ffff,
    decreases n,
{
    if n > 0 {
        lemma_prefix_sum_bound(s, n - 1);
    }
}

/// Where every frequency is non-negative, the phase of each row never
/// decreases from one sample to the next.
pub proof fn lemma_phase_monotone(f: RationalGrid, sample_freq: int, r: int, n: int)
    requires
        0 <= r < f.rows.len(),
        0 <= n,
        n + 1 < f.rows[r].len(),
        forall|k: int| 0 <= k < f.rows[r].len() ==> 0 <= #[trigger] f.rows[r][k],
    ensures
        phase_field(f, sample_freq).rows[r][n] <= phase_field(f, sample_freq).rows[r][n + 1],
{
    assert(prefix_sum(f.rows[r], n + 2) == prefix_sum(f.rows[r], n + 1) + f.rows[r][n + 1]);
}

/// Integrates each row of `f` into phases at sample rate `sample_freq`
/// (in millionths).
pub fn integrate_phase(f: &FrequencyField, sample_freq: u32) -> (r: PhaseField)
    ensures
        r@ == phase_field(f@, sample_freq as int),
{
    let ghost spec_field = phase_field(f@, sample_freq as int);
    let mut rows: Vec<Vec<u128>> = Vec::new();
    let mut r: usize = 0;
    while r < f.rows.len()
        invariant
            0 <= r <= f.rows@.len(),
            rows@.len() == r,
            spec_field == phase_field(f@, sample_freq as int),
            forall|k: int|
                0 <= k < r ==> (#[trigger] rows@[k])@.map_values(|x: u128| x as int)
                    == spec_field.rows[k],
        decreases f.rows@.len() - r,
    {
        let freqs = &f.rows[r];
        let ghost fr = f@.rows[r as int];
        assert(fr == freqs@.map_values(|x: u64| x as int));
        let mut acc: u128 = 0;
        let mut row: Vec<u128> = Vec::new();
        let mut n: usize = 0;
        while n < freqs.len()
            invariant
                0 <= n <= freqs@.len(),
                row@.len() == n,
                fr == freqs@.map_values(|x: u64| x as int),
                acc == prefix_sum(fr, n as int),
                forall|k: int| 0 <= k < n ==> #[trigger] row@[k] == prefix_sum(fr, k + 1),
            decreases freqs@.len() - n,
        {
            proof {
                lemma_prefix_sum_bound(fr, n as int + 1);
                assert((n as int + 1) * 0xffff_ffff_ffff_ffff <= 0xffff_ffff_ffff_ffff
                    * 0xffff_ffff_ffff_ffff) by (nonlinear_arith)
                    requires
                        n + 1 <= 0xffff_ffff_ffff_ffff,
                ;
            }
            acc = acc + freqs[n] as u128;
            row.push(acc);
            n = n + 1;
        }
        assert(row@.map_values(|x: u128| x as int) =~= spec_field.rows[r as int]);
        rows.push(row);
        r = r + 1;
    }
    assert(f.den as int * sample_freq as int <= 0xffff_ffff_ffff_ffff * 0xffff_ffff) by (
    nonlinear_arith);
    let out = PhaseField { den: f.den as u128 * sample_freq as u128, rows };
    assert(out@.rows =~= spec_field.rows);
    out
}

/// The phases for averaged bands of `width` columns: their frequencies,
/// integrated at the configured sample rate.
pub fn make_lines(bands: &Vec<Vec<u8>>, width: u32, config: &SinusoidShadingConfig) -> (r:
    PhaseField)
    requires
        config.sample_freq > 0,
        samples_per_row(width as int, config.sample_freq as int) <= usize::MAX,
        forall|n: int| 0 <= n < bands@.len() ==> #[trigger] bands@[n]@.len() == width,
    ensures
        r@ == phase_field(
            frequency_field(grid_view(bands@), width as int, *config),
            config.sample_freq as int,
        ),
{
    let freqs = make_frequencies(bands, width, config);
    integrate_phase(&freqs, config.sample_freq)
}

} // verus!
