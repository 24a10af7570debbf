//! Path emission: each row of sines becomes one polyline, centred in its
//! band and stretched over the output width.
use vstd::prelude::*;

use crate::config::{SinusoidShadingConfig, MICRO};

verus! {

/// A point of a polyline: `x / x_den` and `y / y_den`, where `x_den` is the
/// polyline's and `y_den` the document's.
#[derive(Clone, Copy, Debug, PartialEq, Eq, Structural)]
pub struct Point {
    pub x: u128,
    pub y: i128,
}

/// One stroke: a move to the first point, then straight segments through
/// the others in order.
pub struct Polyline {
    pub x_den: u128,
    pub points: Vec<Point>,
}

/// The line-art document: one polyline per row inside a canvas of
/// `width` by `height`.
pub struct PathDocument {
    pub width: u32,
    pub height: u32,
    pub y_den: u128,
    pub paths: Vec<Polyline>,
}

/// A polyline as numerators `(x, y)` over `x_den` and the document's `y_den`.
pub struct PolylineModel {
    pub x_den: int,
    pub points: Seq<(int, int)>,
}

/// A document as plain numbers.
pub struct DocumentModel {
    pub width: int,
    pub height: int,
    pub y_den: int,
    pub paths: Seq<PolylineModel>,
}

impl View for Polyline {
    type V = PolylineModel;

    open spec fn view(&self) -> PolylineModel {
        PolylineModel {
            x_den: self.x_den as int,
            points: self.points@.map_values(|p: Point| (p.x as int, p.y as int)),
        }
    }
}

impl View for PathDocument {
    type V = DocumentModel;

    open spec fn view(&self) -> DocumentModel {
        DocumentModel {
            width: self.width as int,
            height: self.height as int,
            y_den: self.y_den as int,
            paths: self.paths@.map_values(|p: Polyline| p@),
        }
    }
}

/// Denominator of every y-coordinate: twice the row count, times the
/// squared fixed-point scale (one factor for the amplitude, one for the
/// sine).
pub open spec fn y_den(lines: int) -> int {
    2 * lines * MICRO * MICRO
}

/// Numerator of the centre line of row `r`: `(r + 0.5) * height / lines`.
pub open spec fn y_offset_num(height: int, r: int) -> int {
    height * (2 * r + 1) * MICRO * MICRO
}

/// Numerator of the amplitude in pixels: `amplitude * height / lines`.
pub open spec fn amplitude_num(height: int, amplitude: int) -> int {
    2 * height * amplitude * MICRO
}

/// Numerator of the y-coordinate of a sample of row `r` whose sine is
/// `s` millionths: the centre line plus the amplitude times the sine.
pub open spec fn y_num(height: int, amplitude: int, r: int, s: int) -> int {
    y_offset_num(height, r) + 2 * height * amplitude * s
}

/// The document drawn from rows of sines (in millionths): sample `n` of a
/// row of `len` samples lies at `x = width * n / len`.
pub open spec fn rendered(sines: Seq<Vec<i32>>, c: SinusoidShadingConfig) -> DocumentModel {
    DocumentModel {
        width: c.width as int,
        height: c.height as int,
        y_den: y_den(c.lines as int),
        paths: Seq::new(
            sines.len(),
            |r: int|
                PolylineModel {
                    x_den: sines[r]@.len() as int,
                    points: Seq::new(
                        sines[r]@.len(),
                        |n: int|
                            (
                                c.width as int * n,
                                y_num(c.height as int, c.amplitude as int, r, sines[r]@[n] as int),
                            ),
                    ),
                },
        ),
    }
}

/// Every sine lies in `[-1, 1]`, in millionths.
pub open spec fn sines_in_range(sines: Seq<Vec<i32>>) -> bool {
    forall|r: int, n: int|
        0 <= r < sines.len() && 0 <= n < sines[r]@.len() ==> -MICRO <= #[trigger] sines[r]@[n]
            <= MICRO
}

/// Lays out rows of sines (in millionths) as polylines: row `r` is centred
/// at `(r + 0.5) * height / lines`, deflected by `amplitude * height / lines`
/// times its sines, and spread evenly over the output width.
pub fn render(sines: &Vec<Vec<i32>>, config: &SinusoidShadingConfig) -> (r: PathDocument)
    requires
        sines@.len() <= config.lines,
        sines_in_range(sines@),
    ensures
        r@ == rendered(sines@, *config),
{
    let ghost model = rendered(sines@, *config);
    let width: u32 = config.width;
    let height: u32 = config.height;
    let amplitude: u32 = config.amplitude;
    assert(0 <= 2 * height as int * amplitude as int <= 0x2_0000_0000_0000_0000) by (
    nonlinear_arith)
        requires
            height <= 0xffff_ffff,
            amplitude <= 0xffff_ffff,
    ;
    let scale: i128 = 2 * height as i128 * amplitude as i128;
    let mut paths: Vec<Polyline> = Vec::new();
    let mut r: usize = 0;
    while r < sines.len()
        invariant
            0 <= r <= sines@.len(),
            sines@.len() <= config.lines,
            sines_in_range(sines@),
            width == config.width,
            height == config.height,
            amplitude == config.amplitude,
            scale == 2 * height as int * amplitude as int,
            0 <= scale <= 0x2_0000_0000_0000_0000,
            model == rendered(sines@, *config),
            paths@.len() == r,
            forall|k: int| 0 <= k < r ==> (#[trigger] paths@[k])@ == model.paths[k],
        decreases sines@.len() - r,
    {
        let row = &sines[r];
        let ghost rr = r as int;
        assert(height as int * (2 * rr + 1) * MICRO * MICRO <= 0x1_0000_0000 * 0x2_0000_0000
            * 0x1_0000_0000_0000) by (nonlinear_arith)
            requires
                0 <= rr < 0x1_0000_0000,
        ;
        let offset: i128 = height as i128 * (2 * r as i128 + 1) * MICRO as i128 * MICRO as i128;
        let mut points: Vec<Point> = Vec::new();
        let mut n: usize = 0;
        while n < row.len()
            invariant
                0 <= n <= row@.len(),
                row@ == sines@[r as int]@,
                0 <= r < sines@.len(),
                sines_in_range(sines@),
                width == config.width,
                height == config.height,
                amplitude == config.amplitude,
                scale == 2 * height as int * amplitude as int,
                0 <= scale <= 0x2_0000_0000_0000_0000,
                offset == y_offset_num(height as int, r as int),
                0 <= offset <= 0x1_0000_0000 * 0x2_0000_0000 * 0x1_0000_0000_0000,
                model == rendered(sines@, *config),
                points@.len() == n,
                forall|k: int|
                    0 <= k < n ==> ((#[trigger] points@[k]).x as int, points@[k].y as int)
                        == model.paths[r as int].points[k],
            decreases row@.len() - n,
        {
            let s: i32 = row[n];
            assert(-MICRO <= s <= MICRO);
            assert(width as int * n as int <= 0xffff_ffff * 0xffff_ffff_ffff_ffff) by (
            nonlinear_arith)
                requires
                    n <= 0xffff_ffff_ffff_ffff,
            ;
            assert(-0x2_0000_0000_0000_0000 * 1_000_000 <= scale * s as int
                <= 0x2_0000_0000_0000_0000 * 1_000_000) by (nonlinear_arith)
                requires
                    0 <= scale <= 0x2_0000_0000_0000_0000,
                    -1_000_000 <= s <= 1_000_000,
            ;
            let x: u128 = width as u128 * n as u128;
            let y: i128 = offset + scale * s as i128;
            points.push(Point { x, y });
            n = n + 1;
        }
        let line = Polyline { x_den: row.len() as u128, points };
        assert(line@.points =~= model.paths[r as int].points);
        paths.push(line);
        r = r + 1;
    }
    let doc = PathDocument {
        width,
        height,
        y_den: 2 * config.lines as u128 * MICRO as u128 * MICRO as u128,
        paths,
    };
    assert(doc@.paths =~= model.paths);
    doc
}

} // verus!
