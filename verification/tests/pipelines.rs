use rusty_herbarium::buffer::ImageBuf;
use rusty_herbarium::detect::BorderScanConfig;
use rusty_herbarium::detect::ColumnScanConfig;
use rusty_herbarium::detect::EdgeScanConfig;
use rusty_herbarium::error::PipelineError;
use rusty_herbarium::normalize::normalize_fixed_margin;
use rusty_herbarium::normalize::preprocessing_step_1;
use rusty_herbarium::normalize::preprocessing_step_2;
use rusty_herbarium::normalize::DetectedMarginConfig;
use rusty_herbarium::normalize::FixedMarginConfig;
use rusty_herbarium::pixel::Rgba;
use rusty_herbarium::resample::ResampleFilter;

const WHITE: Rgba = Rgba { red: 255, green: 255, blue: 255, alpha: 255 };
const BLACK: Rgba = Rgba { red: 0, green: 0, blue: 0, alpha: 255 };

fn textured_image(width: usize, height: usize) -> ImageBuf {
    let mut pixels = Vec::new();
    for y in 0..height {
        for x in 0..width {
            pixels.push(Rgba {
                red: ((x * 13 + y * 3) % 256) as u8,
                green: ((x * 5 + y * 17) % 256) as u8,
                blue: ((x + 2 * y) % 256) as u8,
                alpha: 255,
            });
        }
    }
    ImageBuf { width, height, pixels }
}

#[test]
fn fixed_margin_pipeline_is_deterministic() {
    // Tall enough that the 80 + 140 vertical margins leave rows over.
    let img = textured_image(90, 260);
    let cfg = FixedMarginConfig::train_defaults(24, 30);
    let a = normalize_fixed_margin(&img, &cfg).unwrap();
    let b = normalize_fixed_margin(&img, &cfg).unwrap();
    assert_eq!(a.width, 24);
    assert_eq!(a.height, 30);
    assert_eq!(a.width, b.width);
    assert_eq!(a.height, b.height);
    assert_eq!(a.pixels, b.pixels);
}

#[test]
fn fixed_margin_pipeline_rejects_oversized_margins() {
    let img = textured_image(50, 100);
    // 30 + 30 margins exceed a width of 50.
    let cfg = FixedMarginConfig::train_defaults(24, 30);
    assert_eq!(normalize_fixed_margin(&img, &cfg).unwrap_err(), PipelineError::Geometry);
}

#[test]
fn fixed_margin_pipeline_rejects_empty_target() {
    let img = textured_image(90, 260);
    let cfg = FixedMarginConfig::train_defaults(0, 30);
    assert_eq!(normalize_fixed_margin(&img, &cfg).unwrap_err(), PipelineError::Geometry);
}

#[test]
fn detected_margin_pipeline_strips_border_and_resizes() {
    // A 300-wide, 1000-tall sheet with a 30-pixel black border, so every
    // standard window (side columns 10..40, top rows 20..100, bottom rows
    // 10..50) starts inside the border and sees the transition.
    let side = 30;
    let (w, h) = (300usize, 1000usize);
    let mut pixels = Vec::new();
    for y in 0..h {
        for x in 0..w {
            let in_border = x < side || y < side || x >= w - side || y >= h - side;
            pixels.push(if in_border { BLACK } else { WHITE });
        }
    }
    let img = ImageBuf { width: w, height: h, pixels };
    let out = preprocessing_step_1(&img, &DetectedMarginConfig::standard()).unwrap();
    assert_eq!(out.width, 600);
    assert_eq!(out.height, 800);
    // The interior was uniformly white, and so is its resampling.
    for p in &out.pixels {
        assert_eq!((p.red, p.green, p.blue), (255, 255, 255));
    }
}

#[test]
fn detected_margin_pipeline_reports_missing_border() {
    let img = ImageBuf { width: 300, height: 1000, pixels: vec![BLACK; 300 * 1000] };
    assert_eq!(
        preprocessing_step_1(&img, &DetectedMarginConfig::standard()).unwrap_err(),
        PipelineError::BorderNotFound,
    );
}

#[test]
fn detected_margin_pipeline_rejects_empty_target() {
    let side = 30;
    let (w, h) = (300usize, 1000usize);
    let mut pixels = Vec::new();
    for y in 0..h {
        for x in 0..w {
            let in_border = x < side || y < side || x >= w - side || y >= h - side;
            pixels.push(if in_border { BLACK } else { WHITE });
        }
    }
    let img = ImageBuf { width: w, height: h, pixels };
    let cfg = DetectedMarginConfig {
        target_width: 0,
        ..DetectedMarginConfig::standard()
    };
    assert_eq!(preprocessing_step_1(&img, &cfg).unwrap_err(), PipelineError::Geometry);
}

#[test]
fn secondary_cutoff_crops_at_the_first_content_row() {
    // All white except one black row at y = 25.  Flipped vertically the
    // black row lands at 39 - 25 = 14; inverted it turns white, and white
    // and black are fixed points of the contrast boost.  The scan walks
    // rows 10..20 of the middle columns, so the cutoff is 14 and the
    // result loses 14 rows.
    let (w, h) = (300usize, 40usize);
    let mut pixels = vec![WHITE; w * h];
    for x in 0..w {
        pixels[25 * w + x] = BLACK;
    }
    let img = ImageBuf { width: w, height: h, pixels };
    let out = preprocessing_step_2(&img).unwrap();
    assert_eq!(out.width, 300);
    assert_eq!(out.height, 40 - 14);
}

#[test]
fn secondary_cutoff_without_content_keeps_the_height() {
    let (w, h) = (300usize, 40usize);
    let img = ImageBuf { width: w, height: h, pixels: vec![WHITE; w * h] };
    // Inverted, every scanned pixel is black: no content row, cutoff zero.
    let out = preprocessing_step_2(&img).unwrap();
    assert_eq!(out.width, 300);
    assert_eq!(out.height, 40);
}

#[test]
fn custom_scan_config_round_trips_through_step_1() {
    // A small sheet with windows tailored to it.
    let side = 10;
    let (w, h) = (100usize, 100usize);
    let mut pixels = Vec::new();
    for y in 0..h {
        for x in 0..w {
            let in_border = x < side || y < side || x >= w - side || y >= h - side;
            pixels.push(if in_border { BLACK } else { WHITE });
        }
    }
    let img = ImageBuf { width: w, height: h, pixels };
    let cfg = DetectedMarginConfig {
        scan: BorderScanConfig {
            side: EdgeScanConfig { row_lo: 20, row_hi: 80, col_lo: 0, col_hi: 20, threshold: 100 },
            top: ColumnScanConfig { row_lo: 0, row_hi: 20, threshold: 100 },
            bottom: ColumnScanConfig { row_lo: 0, row_hi: 20, threshold: 100 },
        },
        target_width: 40,
        target_height: 40,
        filter: ResampleFilter::CatmullRom,
    };
    let out = preprocessing_step_1(&img, &cfg).unwrap();
    assert_eq!(out.width, 40);
    assert_eq!(out.height, 40);
    for p in &out.pixels {
        assert_eq!((p.red, p.green, p.blue), (255, 255, 255));
    }
}
