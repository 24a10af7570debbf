use img2laser::{
    average_rows, integrate_phase, intensity_range, make_frequencies, make_lines, process_gray,
    process_image, render, GrayImage, PathDocument, PhaseField, SinusoidShadingConfig,
    ValidationError, MICRO,
};

fn config(lines: u32, width: u32, height: u32, fs: u32, fmin: u32, fmax: u32, amp: u32) -> SinusoidShadingConfig {
    SinusoidShadingConfig {
        lines,
        width,
        height,
        sample_freq: fs,
        min_freq: fmin,
        max_freq: fmax,
        amplitude: amp,
    }
}

fn sines_of(p: &PhaseField) -> Vec<Vec<i32>> {
    p.rows
        .iter()
        .map(|row| {
            row.iter()
                .map(|&num| {
                    let phase = num as f64 / p.den as f64;
                    (phase.sin() * MICRO as f64).round() as i32
                })
                .collect()
        })
        .collect()
}

fn gradient(width: u32, height: u32) -> GrayImage {
    let mut pixels = Vec::new();
    for r in 0..height {
        for c in 0..width {
            pixels.push(((r * 37 + c * 11) % 256) as u8);
        }
    }
    GrayImage::new(width, height, pixels).unwrap()
}

fn x_of(doc: &PathDocument, r: usize, n: usize) -> f64 {
    doc.paths[r].points[n].x as f64 / doc.paths[r].x_den as f64
}

fn y_of(doc: &PathDocument, r: usize, n: usize) -> f64 {
    doc.paths[r].points[n].y as f64 / doc.y_den as f64
}

#[test]
fn uniform_gray_scenario() {
    let img = GrayImage::filled(4, 4, 128);
    let c = config(2, 4, 4, 1_000_000, 100_000, 100_000, 400_000);
    let phases = process_gray(&img, &c).unwrap();
    assert_eq!(phases.rows.len(), 2);
    for row in &phases.rows {
        assert_eq!(row.len(), 4);
        for (n, &num) in row.iter().enumerate() {
            let phase = num as f64 / phases.den as f64;
            assert!((phase - 0.1 * (n as f64 + 1.0)).abs() < 1e-12);
        }
    }
    let doc = render(&sines_of(&phases), &c);
    assert_eq!(doc.paths.len(), 2);
    for r in 0..2 {
        for n in 0..4 {
            let expected_y = 0.8 * (0.1 * (n as f64 + 1.0)).sin() + (r as f64 + 0.5) * 2.0;
            assert!((y_of(&doc, r, n) - expected_y).abs() < 1e-5);
            assert!((x_of(&doc, r, n) - n as f64).abs() < 1e-12);
        }
    }
}

#[test]
fn bands_use_rounded_boundaries() {
    // height 5 in 2 bands: rows 0..3 and 3..5
    let pixels = vec![10, 0, 20, 0, 31, 0, 100, 255, 201, 255];
    let img = GrayImage::new(2, 5, pixels).unwrap();
    let bands = average_rows(&img, 2);
    assert_eq!(bands, vec![vec![20, 0], vec![150, 255]]);
}

#[test]
fn bands_clamp_to_height() {
    let img = gradient(3, 4);
    let bands = average_rows(&img, 10);
    assert_eq!(bands.len(), 4);
    for (r, row) in bands.iter().enumerate() {
        for c in 0..3 {
            assert_eq!(row[c], img.pixels[r * 3 + c]);
        }
    }
}

#[test]
fn bands_of_empty_image() {
    let img = GrayImage::new(3, 0, vec![]).unwrap();
    assert!(average_rows(&img, 4).is_empty());
}

#[test]
fn range_is_global() {
    let bands = vec![vec![40, 90], vec![12, 200]];
    assert_eq!(intensity_range(&bands), (12, 200));
    assert_eq!(intensity_range(&vec![]), (255, 0));
}

#[test]
fn frequencies_rescale_and_hold() {
    let bands = vec![vec![0, 255]];
    let c = config(1, 2, 1, 2_500_000, 1_000, 2_000_000, 400_000);
    let f = make_frequencies(&bands, 2, &c);
    assert_eq!(f.den, 255);
    // ceil(2 * 2.5) = 5 samples reading columns 0, 0, 0, 1, 1
    let dark = 2_000_000 * 255;
    let light = 1_000 * 255;
    assert_eq!(f.rows, vec![vec![dark, dark, dark, light, light]]);
}

#[test]
fn frequencies_of_midtones() {
    let bands = vec![vec![50, 100], vec![150, 150]];
    let c = config(2, 2, 2, 1_000_000, 0, 1_000_000, 400_000);
    let f = make_frequencies(&bands, 2, &c);
    assert_eq!(f.den, 100);
    assert_eq!(f.rows, vec![vec![100_000_000, 50_000_000], vec![0, 0]]);
}

#[test]
fn phase_is_cumulative_per_row() {
    let bands = vec![vec![0, 255], vec![255, 0]];
    let c = config(2, 2, 2, 1_000_000, 1_000_000, 3_000_000, 400_000);
    let f = make_frequencies(&bands, 2, &c);
    let p = integrate_phase(&f, c.sample_freq);
    assert_eq!(p.den, 255 * 1_000_000);
    assert_eq!(p.rows, vec![vec![765_000_000, 1_020_000_000], vec![255_000_000, 1_020_000_000]]);
    let q = make_lines(&bands, 2, &c);
    assert_eq!(q.rows, p.rows);
    assert_eq!(q.den, p.den);
}

#[test]
fn render_exact_coordinates() {
    let c = config(2, 10, 4, 1_000_000, 1_000, 2_000_000, 500_000);
    let sines = vec![vec![0, 1_000_000], vec![-1_000_000, 500_000]];
    let doc = render(&sines, &c);
    assert_eq!(doc.width, 10);
    assert_eq!(doc.height, 4);
    assert_eq!(doc.paths.len(), 2);
    assert_eq!(doc.paths[0].x_den, 2);
    assert_eq!(doc.paths[0].points[1].x, 10);
    // row height 2, amplitude 1 pixel
    assert_eq!(y_of(&doc, 0, 0), 1.0);
    assert_eq!(y_of(&doc, 0, 1), 2.0);
    assert_eq!(y_of(&doc, 1, 0), 2.0);
    assert_eq!(y_of(&doc, 1, 1), 3.5);
    assert_eq!(x_of(&doc, 1, 1), 5.0);
}

#[test]
fn deterministic_output() {
    let img = gradient(7, 9);
    let c = config(3, 70, 90, 2_000_000, 1_000, 2_000_000, 400_000);
    let a = process_gray(&img, &c).unwrap();
    let b = process_gray(&img.clone(), &c).unwrap();
    assert_eq!(a.rows, b.rows);
    assert_eq!(a.den, b.den);
    let da = render(&sines_of(&a), &c);
    let db = render(&sines_of(&b), &c);
    assert_eq!(da.y_den, db.y_den);
    for r in 0..da.paths.len() {
        assert_eq!(da.paths[r].points, db.paths[r].points);
    }
}

#[test]
fn row_count_is_min_of_lines_and_height() {
    let img = gradient(5, 3);
    let c = config(8, 50, 30, 1_000_000, 1_000, 2_000_000, 400_000);
    let p = process_gray(&img, &c).unwrap();
    assert_eq!(p.rows.len(), 3);
    assert_eq!(render(&sines_of(&p), &c).paths.len(), 3);
    let c2 = config(2, 50, 30, 1_000_000, 1_000, 2_000_000, 400_000);
    assert_eq!(process_gray(&img, &c2).unwrap().rows.len(), 2);
}

#[test]
fn frequencies_stay_in_range() {
    let img = gradient(9, 8);
    let c = config(4, 90, 80, 3_000_000, 1_000, 2_000_000, 400_000);
    let bands = average_rows(&img, c.lines);
    let f = make_frequencies(&bands, 9, &c);
    for row in &f.rows {
        assert_eq!(row.len(), 27);
        for &num in row {
            assert!(c.min_freq as u64 * f.den <= num && num <= c.max_freq as u64 * f.den);
        }
    }
}

#[test]
fn solid_image_gives_min_frequency() {
    let img = GrayImage::filled(6, 5, 77);
    let c = config(3, 6, 5, 2_000_000, 1_000, 2_000_000, 400_000);
    let f = make_frequencies(&average_rows(&img, 3), 6, &c);
    assert_eq!(f.den, 1);
    assert!(f.rows.iter().all(|row| row.iter().all(|&v| v == 1_000)));
}

#[test]
fn phase_never_decreases() {
    let img = gradient(11, 6);
    let c = config(3, 110, 60, 4_000_000, 1_000, 2_000_000, 400_000);
    let p = process_gray(&img, &c).unwrap();
    for row in &p.rows {
        for n in 1..row.len() {
            assert!(row[n - 1] <= row[n]);
        }
    }
}

#[test]
fn points_stay_in_their_band() {
    let img = gradient(8, 8);
    let c = config(4, 80, 40, 5_000_000, 1_000, 2_000_000, 700_000);
    let p = process_gray(&img, &c).unwrap();
    let doc = render(&sines_of(&p), &c);
    let row_height = 40.0 / 4.0;
    let amp = 0.7 * row_height;
    for r in 0..doc.paths.len() {
        let centre = (r as f64 + 0.5) * row_height;
        for n in 0..doc.paths[r].points.len() {
            let y = y_of(&doc, r, n);
            assert!(y >= centre - amp - 1e-9 && y <= centre + amp + 1e-9);
            let x = x_of(&doc, r, n);
            assert!(x >= 0.0 && x <= 80.0);
        }
    }
}

#[test]
fn doubling_width_doubles_x() {
    let img = gradient(6, 6);
    let c = config(3, 60, 60, 2_000_000, 1_000, 2_000_000, 400_000);
    let wide = SinusoidShadingConfig { width: 120, ..c };
    let p = process_gray(&img, &c).unwrap();
    let pw = process_gray(&img, &wide).unwrap();
    assert_eq!(p.rows, pw.rows);
    let doc = render(&sines_of(&p), &c);
    let docw = render(&sines_of(&pw), &wide);
    for r in 0..doc.paths.len() {
        for n in 0..doc.paths[r].points.len() {
            assert_eq!(x_of(&docw, r, n), 2.0 * x_of(&doc, r, n));
            assert_eq!(y_of(&docw, r, n), y_of(&doc, r, n));
        }
    }
}

#[test]
fn degenerate_configs_are_rejected() {
    let img = gradient(4, 4);
    let good = config(2, 4, 4, 1_000_000, 1_000, 2_000_000, 400_000);
    assert!(good.validate().is_ok());
    let cases = [
        (SinusoidShadingConfig { lines: 0, ..good }, ValidationError::ZeroLines),
        (SinusoidShadingConfig { width: 0, ..good }, ValidationError::ZeroWidth),
        (SinusoidShadingConfig { height: 0, ..good }, ValidationError::ZeroHeight),
        (SinusoidShadingConfig { sample_freq: 0, ..good }, ValidationError::NonPositiveSampleFreq),
    ];
    for (c, e) in cases {
        assert_eq!(c.validate(), Err(e));
        assert_eq!(process_gray(&img, &c).err(), Some(e));
    }
}

#[test]
fn default_config() {
    let c = SinusoidShadingConfig::default();
    assert_eq!(c, config(64, 512, 512, 5_000_000, 1_000, 2_000_000, 400_000));
}

#[test]
fn gray_image_checks_buffer_length() {
    assert!(GrayImage::new(3, 2, vec![0; 5]).is_none());
    assert!(GrayImage::new(3, 2, vec![0; 6]).is_some());
}

#[test]
fn decoded_image_is_converted_to_gray() {
    let raw: Vec<u8> = (0..48u32).map(|v| (v * 5) as u8).collect();
    let luma = image::GrayImage::from_raw(8, 6, raw.clone()).unwrap();
    let dynamic = image::DynamicImage::ImageLuma8(luma);
    let c = config(3, 80, 60, 2_000_000, 1_000, 2_000_000, 400_000);
    let p = process_image(&dynamic, &c).unwrap();
    let q = process_gray(&GrayImage::new(8, 6, raw).unwrap(), &c).unwrap();
    assert_eq!(p.rows, q.rows);
    assert_eq!(p.den, q.den);
    assert_eq!(p.rows[0].len(), 16);

    let rgb = image::RgbImage::from_pixel(4, 2, image::Rgb([255, 255, 255]));
    let p = process_image(&image::DynamicImage::ImageRgb8(rgb), &c).unwrap();
    assert_eq!(p.rows.len(), 2);
    assert!(p.rows.iter().all(|row| row.len() == 8));
    assert_eq!(process_image(&image::DynamicImage::new_luma8(2, 2), &SinusoidShadingConfig { lines: 0, ..c }).err(), Some(ValidationError::ZeroLines));
}
