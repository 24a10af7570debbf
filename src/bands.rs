//! Row averaging: the image is cut into horizontal bands and each band is
//! reduced, column by column, to the mean of its rows.
use vstd::prelude::*;

use crate::raster::GrayImage;

verus! {

/// Number of bands: the requested count, clamped to the image height.
pub open spec fn effective_lines(lines: int, height: int) -> int {
    if lines <= height {
        lines
    } else {
        height
    }
}

/// First source row of band `n`: `n * height / lines` rounded to the
/// nearest integer, halves upwards.
pub open spec fn band_start(n: int, height: int, lines: int) -> int {
    (2 * n * height + lines) / (2 * lines)
}

/// One past the last source row of band `n`, clamped to the height.
pub open spec fn band_end(n: int, height: int, lines: int) -> int {
    let e = band_start(n + 1, height, lines);
    if e > height {
        height
    } else {
        e
    }
}

/// Sum of column `c` over the rows `start .. end`.
pub open spec fn column_sum(img: GrayImage, start: int, end: int, c: int) -> int
    decreases end - start,
{
    if end <= start {
        0
    } else {
        column_sum(img, start, end - 1, c) + img.pixel(end - 1, c)
    }
}

/// Cell `(n, c)` of the averaged bands: the integer mean of column `c` over
/// the rows of band `n`, or zero for an empty band.
pub open spec fn band_cell(img: GrayImage, lines: int, n: int, c: int) -> int {
    let l = effective_lines(lines, img.height as int);
    let s = band_start(n, img.height as int, l);
    let e = band_end(n, img.height as int, l);
    if s < e {
        column_sum(img, s, e, c) / (e - s)
    } else {
        0
    }
}

/// The intensities of a grid of bytes, as integers.
pub open spec fn grid_view(g: Seq<Vec<u8>>) -> Seq<Seq<int>> {
    g.map_values(|row: Vec<u8>| row@.map_values(|x: u8| x as int))
}

/// The averaged bands of `img` for `lines` requested rows: one row per
/// band, one cell per column.
pub open spec fn averaged_bands(img: GrayImage, lines: int) -> Seq<Seq<int>> {
    Seq::new(
        effective_lines(lines, img.height as int) as nat,
        |n: int| Seq::new(img.width as nat, |c: int| band_cell(img, lines, n, c)),
    )
}

proof fn lemma_column_sum_bound(img: GrayImage, start: int, end: int, c: int)
    ensures
        start <= end ==> column_sum(img, start, end, c) <= 255 * (end - start),
        0 <= column_sum(img, start, end, c),
    decreases end - start,
{
    if end > start {
        lemma_column_sum_bound(img, start, end - 1, c);
        assert(0 <= img.pixel(end - 1, c) <= 255);
    }
}

/// Every averaged cell is an intensity.
pub proof fn lemma_band_cell_range(img: GrayImage, lines: int, n: int, c: int)
    ensures
        0 <= band_cell(img, lines, n, c) <= 255,
{
    let l = effective_lines(lines, img.height as int);
    let s = band_start(n, img.height as int, l);
    let e = band_end(n, img.height as int, l);
    if s < e {
        lemma_column_sum_bound(img, s, e, c);
        let t = column_sum(img, s, e, c);
        assert(0 <= t / (e - s) <= 255) by (nonlinear_arith)
            requires
                0 <= t <= 255 * (e - s),
                e - s > 0,
        ;
    }
}

proof fn lemma_cell_index(r: int, c: int, w: int, h: int)
    requires
        0 <= r < h,
        0 <= c < w,
    ensures
        0 <= r * w + c < w * h,
        r * w + c + 1 <= (r + 1) * w,
{
    assert(r * w + c < w * h) by (nonlinear_arith)
        requires
            0 <= r < h,
            0 <= c < w,
    ;
    assert(0 <= r * w) by (nonlinear_arith)
        requires
            0 <= r,
            0 <= w,
    ;
    assert((r + 1) * w == r * w + w) by (nonlinear_arith);
}

/// Averages the rows of `img` into `min(lines, height)` bands.
///
/// Band `n` covers the source rows from `round(n * h)` up to
/// `round((n + 1) * h)` (clamped to the height), where `h` is the height
/// divided by the number of bands; each cell is the integer mean of its
/// column over those rows.
pub fn average_rows(img: &GrayImage, lines: u32) -> (r: Vec<Vec<u8>>)
    requires
        img.wf(),
    ensures
        grid_view(r@) == averaged_bands(*img, lines as int),
        forall|n: int| 0 <= n < r@.len() ==> #[trigger] r@[n]@.len() == img.width,
{
    let height = img.height;
    let width = img.width;
    let l: u32 = if lines <= height {
        lines
    } else {
        height
    };
    let w: usize = width as usize;
    let mut result: Vec<Vec<u8>> = Vec::new();
    let mut n: u32 = 0;
    while n < l
        invariant
            img.wf(),
            height == img.height,
            width == img.width,
            w == width,
            l == effective_lines(lines as int, height as int),
            0 <= n <= l,
            result@.len() == n,
            forall|k: int| 0 <= k < n ==> #[trigger] result@[k]@.len() == width,
            forall|k: int, c: int|
                0 <= k < n && 0 <= c < width ==> #[trigger] result@[k]@[c] == band_cell(
                    *img,
                    lines as int,
                    k,
                    c,
                ),
        decreases l - n,
    {
        let ghost h = height as int;
        let ghost li = l as int;
        assert(2 * (n as int + 1) * h + li <= 0x10_0000_0000_0000_0000_0000_0000
            && 2 * (n as int) * h + li <= 0x10_0000_0000_0000_0000_0000_0000
            && 0 <= 2 * (n as int) * h) by (nonlinear_arith)
            requires
                0 <= n < li,
                li <= h,
                h < 0x1_0000_0000,
        ;
        let start128: u128 = (2 * (n as u128) * (height as u128) + l as u128) / (2 * l as u128);
        let end128: u128 = (2 * (n as u128 + 1) * (height as u128) + l as u128) / (2 * l as u128);
        let end128: u128 = if end128 > height as u128 {
            height as u128
        } else {
            end128
        };
        assert(start128 <= h) by (nonlinear_arith)
            requires
                0 <= n < li,
                0 < li,
                li <= h,
                start128 == (2 * n * h + li) / (2 * li),
        ;
        let start: u32 = start128 as u32;
        let end: u32 = end128 as u32;
        assert(start == band_start(n as int, h, li));
        assert(end == band_end(n as int, h, li));
        let mut sums: Vec<u64> = Vec::new();
        while sums.len() < w
            invariant
                sums@.len() <= w,
                forall|c: int| 0 <= c < sums@.len() ==> sums@[c] == 0,
            decreases w - sums@.len(),
        {
            sums.push(0);
        }
        let mut row: u32 = start;
        while row < end
            invariant
                img.wf(),
                height == img.height,
                width == img.width,
                w == width,
                start <= row,
                start <= end ==> row <= end,
                start > end ==> row == start,
                end <= height,
                sums@.len() == w,
                forall|c: int|
                    0 <= c < w ==> #[trigger] sums@[c] == column_sum(
                        *img,
                        start as int,
                        row as int,
                        c,
                    ),
            decreases end - row,
        {
            let plen: usize = img.pixels.len();
            assert(row as int * width as int <= plen) by (nonlinear_arith)
                requires
                    row < height,
                    plen == width as int * height as int,
            ;
            let base: usize = (row as u64 * width as u64) as usize;
            let mut c: usize = 0;
            while c < w
                invariant
                    img.wf(),
                    height == img.height,
                    width == img.width,
                    w == width,
                    start <= row < end,
                    end <= height,
                    base == row * width,
                    plen == img.pixels@.len(),
                    0 <= c <= w,
                    sums@.len() == w,
                    forall|j: int|
                        0 <= j < c ==> #[trigger] sums@[j] == column_sum(
                            *img,
                            start as int,
                            row + 1,
                            j,
                        ),
                    forall|j: int|
                        c <= j < w ==> #[trigger] sums@[j] == column_sum(
                            *img,
                            start as int,
                            row as int,
                            j,
                        ),
                decreases w - c,
            {
                proof {
                    lemma_cell_index(row as int, c as int, w as int, height as int);
                    lemma_column_sum_bound(*img, start as int, row as int, c as int);
                    assert(255 * (row - start) <= 255 * 0x1_0000_0000);
                }
                let v: u64 = sums[c] + img.pixels[base + c] as u64;
                sums.set(c, v);
                c = c + 1;
            }
            row = row + 1;
        }
        assert forall|j: int| 0 <= j < w implies #[trigger] sums@[j] == column_sum(
            *img,
            start as int,
            end as int,
            j,
        ) by {
            if start <= end {
                assert(row == end);
            } else {
                assert(column_sum(*img, start as int, row as int, j) == 0);
                assert(column_sum(*img, start as int, end as int, j) == 0);
            }
        }
        let count: u64 = if start < end {
            (end - start) as u64
        } else {
            0
        };
        let mut cells: Vec<u8> = Vec::new();
        let mut c: usize = 0;
        while c < w
            invariant
                width == img.width,
                w == width,
                0 <= c <= w,
                cells@.len() == c,
                sums@.len() == w,
                count == (if start < end {
                    end - start
                } else {
                    0
                }),
                start == band_start(n as int, height as int, l as int),
                end == band_end(n as int, height as int, l as int),
                l == effective_lines(lines as int, height as int),
                height == img.height,
                forall|j: int|
                    0 <= j < w ==> #[trigger] sums@[j] == column_sum(
                        *img,
                        start as int,
                        end as int,
                        j,
                    ),
                forall|j: int|
                    0 <= j < c ==> #[trigger] cells@[j] == band_cell(*img, lines as int, n as int, j),
            decreases w - c,
        {
            if count > 0 {
                proof {
                    lemma_column_sum_bound(*img, start as int, end as int, c as int);
                }
                let s: u64 = sums[c];
                assert(s / count <= 255) by (nonlinear_arith)
                    requires
                        s <= 255 * count,
                        count > 0,
                ;
                cells.push((s / count) as u8);
            } else {
                cells.push(0);
            }
            c = c + 1;
        }
        result.push(cells);
        n = n + 1;
    }
    proof {
        let v = grid_view(result@);
        let m = averaged_bands(*img, lines as int);
        assert forall|k: int| 0 <= k < v.len() implies #[trigger] v[k] == m[k] by {
            assert(v[k] =~= m[k]);
        }
        assert(v =~= m);
    }
    result
}

} // verus!
