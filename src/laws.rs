//! Properties that relate several stages or several runs of the transform.
use vstd::prelude::*;

use crate::bands::{
    averaged_bands,
    band_cell,
    band_end,
    band_start,
    column_sum,
    effective_lines,
};
use crate::config::{SinusoidShadingConfig, MICRO};
use crate::frequency::{
    frequency_field,
    highest,
    lemma_intensity_bounds,
    lowest,
    samples_per_row,
    source_column,
};
use crate::phase::lemma_phase_monotone;
use crate::raster::GrayImage;
use crate::render::{amplitude_num, rendered, sines_in_range, y_offset_num};
use crate::sinusoid::shaded;

verus! {

proof fn lemma_column_sum_same(a: GrayImage, b: GrayImage, start: int, end: int, c: int)
    requires
        a.width == b.width,
        a.pixels@ == b.pixels@,
    ensures
        column_sum(a, start, end, c) == column_sum(b, start, end, c),
    decreases end - start,
{
    if end > start {
        lemma_column_sum_same(a, b, start, end - 1, c);
    }
}

/// The transform is a function of its inputs: two images with the same size
/// and intensities give, under the same configuration, the same phases, and
/// two fields of the same sines give the same document.
pub proof fn lemma_deterministic(
    a: GrayImage,
    b: GrayImage,
    c: SinusoidShadingConfig,
    sines_a: Seq<Vec<i32>>,
    sines_b: Seq<Vec<i32>>,
)
    requires
        a.width == b.width,
        a.height == b.height,
        a.pixels@ == b.pixels@,
        sines_a.len() == sines_b.len(),
        forall|r: int| 0 <= r < sines_a.len() ==> #[trigger] sines_a[r]@ == sines_b[r]@,
    ensures
        shaded(a, c) == shaded(b, c),
        rendered(sines_a, c) == rendered(sines_b, c),
{
    let da = rendered(sines_a, c);
    let db = rendered(sines_b, c);
    assert forall|r: int| 0 <= r < da.paths.len() implies #[trigger] da.paths[r] == db.paths[r] by {
        assert(sines_a[r]@ == sines_b[r]@);
        assert(da.paths[r].points =~= db.paths[r].points);
    }
    assert(da.paths =~= db.paths);
    let ga = averaged_bands(a, c.lines as int);
    let gb = averaged_bands(b, c.lines as int);
    assert forall|n: int| 0 <= n < ga.len() implies #[trigger] ga[n] == gb[n] by {
        assert forall|col: int| 0 <= col < ga[n].len() implies #[trigger] ga[n][col]
            == gb[n][col] by {
            let l = effective_lines(c.lines as int, a.height as int);
            lemma_column_sum_same(
                a,
                b,
                band_start(n, a.height as int, l),
                band_end(n, a.height as int, l),
                col,
            );
        }
        assert(ga[n] =~= gb[n]);
    }
    assert(ga =~= gb);
}

/// There is one row of phases, and so one polyline, for each of
/// `min(lines, height)` bands.
pub proof fn lemma_row_count(img: GrayImage, c: SinusoidShadingConfig, sines: Seq<Vec<i32>>)
    requires
        sines.len() == shaded(img, c).rows.len(),
    ensures
        shaded(img, c).rows.len() == if c.lines <= img.height {
            c.lines as int
        } else {
            img.height as int
        },
        rendered(sines, c).paths.len() == shaded(img, c).rows.len(),
{
}

/// Where `min_freq <= max_freq`, every frequency lies between them: in
/// millionths over the field's denominator,
/// `min_freq * den <= f <= max_freq * den`.
pub proof fn lemma_frequency_bounds(
    g: Seq<Seq<int>>,
    width: int,
    c: SinusoidShadingConfig,
    r: int,
    n: int,
)
    requires
        forall|k: int, j: int| 0 <= k < g.len() && 0 <= j < g[k].len() ==> 0 <= #[trigger] g[k][j] <= 255,
        forall|k: int| 0 <= k < g.len() ==> #[trigger] g[k].len() == width,
        c.sample_freq > 0,
        c.min_freq <= c.max_freq,
        0 <= r < g.len(),
        0 <= n < samples_per_row(width, c.sample_freq as int),
    ensures
        c.min_freq * frequency_field(g, width, c).den <= frequency_field(g, width, c).rows[r][n],
        frequency_field(g, width, c).rows[r][n] <= c.max_freq * frequency_field(g, width, c).den,
{
    lemma_intensity_bounds(g);
    let fs = c.sample_freq as int;
    assert(width > 0) by (nonlinear_arith)
        requires
            0 <= n < (width * fs + MICRO - 1) / (MICRO as int),
            fs > 0,
    ;
    assert(n * MICRO / fs >= 0) by (nonlinear_arith)
        requires
            fs > 0,
            n >= 0,
    ;
    let col = source_column(n, width, fs);
    let px = g[r][col];
    let lo = lowest(g);
    let hi = highest(g);
    let a = c.min_freq as int;
    let b = c.max_freq as int;
    assert(lo <= px <= hi);
    if hi > lo {
        assert(a * (hi - lo) <= a * (px - lo) + b * (hi - px) <= b * (hi - lo)) by (
        nonlinear_arith)
            requires
                lo <= px <= hi,
                0 <= a <= b,
        ;
    }
}

proof fn lemma_column_sum_solid(img: GrayImage, v: int, start: int, end: int, c: int)
    requires
        img.wf(),
        0 <= start <= end <= img.height,
        0 <= c < img.width,
        forall|i: int| 0 <= i < img.pixels@.len() ==> #[trigger] img.pixels@[i] == v,
    ensures
        column_sum(img, start, end, c) == v * (end - start),
    decreases end - start,
{
    if end > start {
        lemma_column_sum_solid(img, v, start, end - 1, c);
        assert(0 <= (end - 1) * img.width + c < img.width * img.height) by (nonlinear_arith)
            requires
                0 <= end - 1 < img.height,
                0 <= c < img.width,
        ;
        assert(img.pixel(end - 1, c) == v);
        assert(v * (end - 1 - start) + v == v * (end - start)) by (nonlinear_arith);
        assert(column_sum(img, start, end, c) == column_sum(img, start, end - 1, c) + img.pixel(
            end - 1,
            c,
        ));
    } else {
        assert(end == start);
        assert(v * (end - start) == 0) by (nonlinear_arith)
            requires
                end == start,
        ;
    }
}

proof fn lemma_bands_not_empty(n: int, h: int, l: int)
    requires
        0 <= n < l,
        0 < l <= h,
    ensures
        0 <= band_start(n, h, l) < band_end(n, h, l) <= h,
{
    let s = band_start(n, h, l);
    let e = band_start(n + 1, h, l);
    assert(0 <= s < e <= h) by (nonlinear_arith)
        requires
            0 <= n < l,
            0 < l <= h,
            s == (2 * n * h + l) / (2 * l),
            e == (2 * (n + 1) * h + l) / (2 * l),
    ;
}

/// In an image of a single intensity every frequency equals `min_freq`
/// exactly: the field's denominator is one and every numerator is
/// `min_freq`.
pub proof fn lemma_solid_image_frequency(
    img: GrayImage,
    v: u8,
    c: SinusoidShadingConfig,
    r: int,
    n: int,
)
    requires
        img.wf(),
        forall|i: int| 0 <= i < img.pixels@.len() ==> #[trigger] img.pixels@[i] == v,
        c.sample_freq > 0,
        0 <= r < frequency_field(averaged_bands(img, c.lines as int), img.width as int, c).rows.len(),
        0 <= n < frequency_field(averaged_bands(img, c.lines as int), img.width as int, c).rows[r].len(),
    ensures
        frequency_field(averaged_bands(img, c.lines as int), img.width as int, c).den == 1,
        frequency_field(averaged_bands(img, c.lines as int), img.width as int, c).rows[r][n]
            == c.min_freq,
{
    let g = averaged_bands(img, c.lines as int);
    let h = img.height as int;
    let l = effective_lines(c.lines as int, h);
    assert forall|k: int, j: int| 0 <= k < g.len() && 0 <= j < g[k].len() implies #[trigger] g[k][j]
        == v by {
        lemma_bands_not_empty(k, h, l);
        let s = band_start(k, h, l);
        let e = band_end(k, h, l);
        lemma_column_sum_solid(img, v as int, s, e, j);
        assert((v as int * (e - s)) / (e - s) == v) by (nonlinear_arith)
            requires
                e - s > 0,
        ;
        assert(g[k][j] == band_cell(img, c.lines as int, k, j));
    }
    lemma_intensity_bounds(g);
    let fs = c.sample_freq as int;
    let width = img.width as int;
    assert(width > 0) by (nonlinear_arith)
        requires
            0 <= n < (width * fs + MICRO - 1) / (MICRO as int),
            fs > 0,
    ;
    assert(n * MICRO / fs >= 0) by (nonlinear_arith)
        requires
            fs > 0,
            n >= 0,
    ;
    let col = source_column(n, width, fs);
    assert(lowest(g) <= g[r][col] <= highest(g));
    assert(g[r][col] == v);
    lemma_solid_extremes(g, v as int, g.len() as int);
}

proof fn lemma_solid_extremes(g: Seq<Seq<int>>, v: int, k: int)
    requires
        0 <= v <= 255,
        0 <= k <= g.len(),
        forall|i: int, j: int| 0 <= i < g.len() && 0 <= j < g[i].len() ==> #[trigger] g[i][j] == v,
    ensures
        crate::frequency::grid_min(g, k) >= v,
        crate::frequency::grid_max(g, k) <= v,
    decreases k,
{
    if k > 0 {
        lemma_solid_extremes(g, v, k - 1);
        lemma_solid_row(g[k - 1], v, g[k - 1].len() as int);
    }
}

proof fn lemma_solid_row(row: Seq<int>, v: int, k: int)
    requires
        0 <= v <= 255,
        0 <= k <= row.len(),
        forall|j: int| 0 <= j < row.len() ==> #[trigger] row[j] == v,
    ensures
        crate::frequency::row_min(row, k) >= v,
        crate::frequency::row_max(row, k) <= v,
    decreases k,
{
    if k > 0 {
        lemma_solid_row(row, v, k - 1);
    }
}

/// The phases of every row of a shaded image never decrease along the row.
pub proof fn lemma_shaded_phase_monotone(img: GrayImage, c: SinusoidShadingConfig, r: int, n: int)
    requires
        c.sample_freq > 0,
        0 <= r < shaded(img, c).rows.len(),
        0 <= n,
        n + 1 < shaded(img, c).rows[r].len(),
    ensures
        shaded(img, c).rows[r][n] <= shaded(img, c).rows[r][n + 1],
{
    let g = averaged_bands(img, c.lines as int);
    let width = img.width as int;
    let f = frequency_field(g, width, c);
    assert forall|k: int, j: int| 0 <= k < g.len() && 0 <= j < g[k].len() implies 0
        <= #[trigger] g[k][j] <= 255 by {
        crate::bands::lemma_band_cell_range(img, c.lines as int, k, j);
    }
    lemma_intensity_bounds(g);
    let fs = c.sample_freq as int;
    assert forall|k: int| 0 <= k < f.rows[r].len() implies 0 <= #[trigger] f.rows[r][k] by {
        assert(width > 0) by (nonlinear_arith)
            requires
                0 <= k < (width * fs + MICRO - 1) / (MICRO as int),
                fs > 0,
        ;
        assert(k * MICRO / fs >= 0) by (nonlinear_arith)
            requires
                fs > 0,
                k >= 0,
        ;
        let col = source_column(k, width, fs);
        let px = g[r][col];
        let lo = lowest(g);
        let hi = highest(g);
        assert(lo <= px <= hi);
        assert(0 <= c.min_freq * (px - lo) + c.max_freq * (hi - px)) by (nonlinear_arith)
            requires
                lo <= px <= hi,
        ;
    }
    lemma_phase_monotone(f, fs, r, n);
}

/// Every emitted point lies in its row's band: `y` within the amplitude of
/// the row's centre line, `x` within `[0, width]`.
pub proof fn lemma_bounding_box(sines: Seq<Vec<i32>>, c: SinusoidShadingConfig, r: int, n: int)
    requires
        sines_in_range(sines),
        0 <= r < sines.len(),
        0 <= n < sines[r]@.len(),
    ensures
        y_offset_num(c.height as int, r) - amplitude_num(c.height as int, c.amplitude as int)
            <= rendered(sines, c).paths[r].points[n].1,
        rendered(sines, c).paths[r].points[n].1 <= y_offset_num(c.height as int, r)
            + amplitude_num(c.height as int, c.amplitude as int),
        0 <= rendered(sines, c).paths[r].points[n].0,
        rendered(sines, c).paths[r].points[n].0 <= c.width * rendered(sines, c).paths[r].x_den,
{
    let s = sines[r]@[n] as int;
    let h = c.height as int;
    let a = c.amplitude as int;
    let w = c.width as int;
    let len = sines[r]@.len() as int;
    assert(-MICRO <= s <= MICRO);
    assert(-(2 * h * a * MICRO) <= 2 * h * a * s <= 2 * h * a * MICRO) by (nonlinear_arith)
        requires
            -1_000_000 <= s <= 1_000_000,
            h >= 0,
            a >= 0,
    ;
    assert(0 <= w * n <= w * len) by (nonlinear_arith)
        requires
            0 <= n < len,
            w >= 0,
    ;
}

/// Doubling the output width (all else fixed) leaves the phases alone,
/// doubles every x-coordinate and keeps every y-coordinate.
pub proof fn lemma_width_scaling(
    img: GrayImage,
    sines: Seq<Vec<i32>>,
    c: SinusoidShadingConfig,
    r: int,
    n: int,
)
    requires
        2 * c.width <= u32::MAX,
        0 <= r < sines.len(),
        0 <= n < sines[r]@.len(),
    ensures
        ({
            let wide = SinusoidShadingConfig { width: (2 * c.width) as u32, ..c };
            &&& shaded(img, wide) == shaded(img, c)
            &&& rendered(sines, wide).paths[r].x_den == rendered(sines, c).paths[r].x_den
            &&& rendered(sines, wide).paths[r].points[n].0 == 2 * rendered(
                sines,
                c,
            ).paths[r].points[n].0
            &&& rendered(sines, wide).y_den == rendered(sines, c).y_den
            &&& rendered(sines, wide).paths[r].points[n].1 == rendered(
                sines,
                c,
            ).paths[r].points[n].1
        }),
{
    let wide = SinusoidShadingConfig { width: (2 * c.width) as u32, ..c };
    let g = averaged_bands(img, c.lines as int);
    assert(averaged_bands(img, wide.lines as int) == g);
    assert(frequency_field(g, img.width as int, wide) == frequency_field(g, img.width as int, c));
    assert((2 * c.width) as int * n == 2 * (c.width as int * n)) by (nonlinear_arith);
}

} // verus!
