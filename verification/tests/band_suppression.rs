use rusty_herbarium::bands::preprocessing_step_3;
use rusty_herbarium::bands::preprocessing_step_4;
use rusty_herbarium::buffer::ImageBuf;
use rusty_herbarium::error::PipelineError;
use rusty_herbarium::features::train_image_features;
use rusty_herbarium::normalize::DetectedMarginConfig;
use rusty_herbarium::pixel::Rgba;

fn solid(width: usize, height: usize, p: Rgba) -> ImageBuf {
    ImageBuf { width, height, pixels: vec![p; width * height] }
}

#[test]
fn rectangular_pass_repaints_only_flat_strip_pixels() {
    // The replacement color has a wide channel span, so repainted pixels
    // never qualify again.
    let varied = Rgba { red: 100, green: 150, blue: 200, alpha: 255 };
    let mut img = solid(60, 45, varied);
    // A near-uniform pixel in the left strip.
    img.pixels[0] = Rgba { red: 100, green: 105, blue: 108, alpha: 9 };
    // A strongly colored pixel next to it.
    img.pixels[1] = Rgba { red: 0, green: 200, blue: 50, alpha: 255 };
    let out = preprocessing_step_4(&img);
    assert_eq!(out.width, 60);
    assert_eq!(out.height, 45);
    // Repainted with the color at (4, 40), keeping its own alpha.
    assert_eq!(out.pixels[0], Rgba { red: 100, green: 150, blue: 200, alpha: 9 });
    assert_eq!(out.pixels[1], Rgba { red: 0, green: 200, blue: 50, alpha: 255 });
    // The replacement pixel itself had a wide span and stays.
    assert_eq!(out.pixels[40 * 60 + 4], varied);
}

#[test]
fn statistical_pass_repaints_low_variance_windows() {
    // One window per row (width 19).  Every flat run — mid-gray,
    // near-white and near-black alike — is repainted with the color at
    // (4, 40); only the high-variance row stays.
    let gray = Rgba { red: 128, green: 128, blue: 128, alpha: 255 };
    let replacement = Rgba { red: 100, green: 150, blue: 200, alpha: 255 };
    let mut img = solid(19, 45, gray);
    for x in 0..19 {
        // Row 0: alternating black and white, high variance.
        img.pixels[x] = if x % 2 == 0 {
            Rgba { red: 0, green: 0, blue: 0, alpha: 255 }
        } else {
            Rgba { red: 255, green: 255, blue: 255, alpha: 255 }
        };
        // Row 1: a near-white run.
        img.pixels[19 + x] = Rgba { red: 240, green: 250, blue: 245, alpha: 255 };
        // Row 2: a near-black run.
        img.pixels[2 * 19 + x] = Rgba { red: 10, green: 20, blue: 30, alpha: 255 };
        // Row 40 carries the replacement color.
        img.pixels[40 * 19 + x] = replacement;
    }
    let copy = ImageBuf { width: img.width, height: img.height, pixels: img.pixels.clone() };
    let out = preprocessing_step_3(copy);
    assert_eq!(out.width, 19);
    assert_eq!(out.height, 45);
    for x in 0..19 {
        // The high-variance row is the only one left untouched.
        assert_eq!(out.pixels[x], img.pixels[x]);
        // Near-white and near-black runs are nulled out too.
        assert_eq!(out.pixels[19 + x], replacement);
        assert_eq!(out.pixels[2 * 19 + x], replacement);
        // A mid-gray row was repainted.
        assert_eq!(out.pixels[10 * 19 + x], replacement);
        // The replacement row is itself low-variance and repaints to its
        // own color.
        assert_eq!(out.pixels[40 * 19 + x], replacement);
    }
}

#[test]
fn statistical_pass_nulls_a_near_white_sheet() {
    // Every channel at or above 220: each window is a flat run, so the
    // whole sheet is overwritten with the color sampled at (4, 40).
    let white_ish = Rgba { red: 220, green: 220, blue: 220, alpha: 255 };
    let replacement = Rgba { red: 250, green: 250, blue: 250, alpha: 255 };
    let mut img = solid(19, 45, white_ish);
    for x in 0..19 {
        img.pixels[40 * 19 + x] = replacement;
    }
    let out = preprocessing_step_3(img);
    for p in &out.pixels {
        assert_eq!(*p, replacement);
    }
}

#[test]
fn overlapping_windows_read_earlier_repaints() {
    // Two windows per row (width 20).  The replacement color is black, so
    // once the first window is repainted the second one, sliding a single
    // column, sees eighteen black pixels against one mid-gray: a
    // high-variance mix that leaves the last column untouched.
    // Independent windows would have repainted the whole row.
    let gray = Rgba { red: 128, green: 128, blue: 128, alpha: 255 };
    let black = Rgba { red: 0, green: 0, blue: 0, alpha: 255 };
    let mut img = solid(20, 45, gray);
    for x in 0..20 {
        img.pixels[40 * 20 + x] = black;
    }
    let out = preprocessing_step_3(img);
    for x in 0..19 {
        assert_eq!(out.pixels[10 * 20 + x], black);
    }
    assert_eq!(out.pixels[10 * 20 + 19], gray);
    for x in 0..20 {
        assert_eq!(out.pixels[40 * 20 + x], black);
    }
}

#[test]
fn error_descriptions_name_the_failure() {
    assert_eq!(
        PipelineError::Geometry.describe(),
        "crop or resize would leave an empty image",
    );
    assert_eq!(
        PipelineError::BorderNotFound.describe(),
        "no border offset candidate in the scan window",
    );
    assert_eq!(
        PipelineError::DimensionMismatch.describe(),
        "feature row length differs from the dataset's",
    );
}

#[test]
fn training_rows_from_a_synthetic_sheet() {
    let side = 30;
    let (w, h) = (300usize, 1000usize);
    let mut pixels = Vec::new();
    for y in 0..h {
        for x in 0..w {
            let in_border = x < side || y < side || x >= w - side || y >= h - side;
            pixels.push(if in_border {
                Rgba { red: 0, green: 0, blue: 0, alpha: 255 }
            } else {
                Rgba { red: 255, green: 255, blue: 255, alpha: 255 }
            });
        }
    }
    let img = ImageBuf { width: w, height: h, pixels };
    let rows = train_image_features(&img, &DetectedMarginConfig::standard(), 60, 78).unwrap();
    assert_eq!(rows.len(), 4);
    for row in &rows {
        assert_eq!(row.len(), 60 * 78);
    }
    // The sheet's interior is uniform, so all four rotations scan the
    // same constant intensity.
    let v = rows[0][0];
    for row in &rows {
        for value in row {
            assert_eq!(*value, v);
        }
    }
    // The constant is the gray the pipeline's inversions and contrast
    // adjustments leave for a white interior.
    assert!((v as i32 - 231).abs() <= 1);
}
