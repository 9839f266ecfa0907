use rusty_herbarium::buffer::GrayBuf;
use rusty_herbarium::buffer::ImageBuf;
use rusty_herbarium::error::PipelineError;
use rusty_herbarium::features::augmented_gray_features;
use rusty_herbarium::features::extract_gray_features;
use rusty_herbarium::features::extract_rgb_features;
use rusty_herbarium::features::extract_rgb_features_thresholded;
use rusty_herbarium::features::normalize_and_extract_rgb;
use rusty_herbarium::features::sparse_rgb_entries;
use rusty_herbarium::features::Dataset;
use rusty_herbarium::normalize::FixedMarginConfig;
use rusty_herbarium::ops::rotate180;
use rusty_herbarium::ops::rotate270;
use rusty_herbarium::ops::rotate90;
use rusty_herbarium::pixel::Rgba;

fn sample_image(width: usize, height: usize) -> ImageBuf {
    let mut pixels = Vec::new();
    for y in 0..height {
        for x in 0..width {
            pixels.push(Rgba {
                red: ((x * 31 + y * 7) % 256) as u8,
                green: ((x * 3 + y * 19) % 256) as u8,
                blue: ((5 * x + y) % 256) as u8,
                alpha: 255,
            });
        }
    }
    ImageBuf { width, height, pixels }
}

#[test]
fn rgb_features_have_fixed_length_and_unit_range() {
    let img = sample_image(7, 5);
    let features = extract_rgb_features(&img);
    assert_eq!(features.len(), 7 * 5 * 3);
    for v in &features {
        let f = *v as f32 / 255.0;
        assert!((0.0..=1.0).contains(&f));
    }
    // Column-major order: the first three values belong to pixel (0, 0),
    // the next three to pixel (0, 1).
    assert_eq!(features[0], img.pixels[0].red);
    assert_eq!(features[1], img.pixels[0].green);
    assert_eq!(features[2], img.pixels[0].blue);
    assert_eq!(features[3], img.pixels[7].red);
    assert_eq!(features[4], img.pixels[7].green);
    assert_eq!(features[5], img.pixels[7].blue);
}

#[test]
fn thresholded_features_zero_out_near_black_pixels() {
    let img = ImageBuf {
        width: 2,
        height: 1,
        pixels: vec![
            Rgba { red: 21, green: 22, blue: 23, alpha: 255 },
            Rgba { red: 21, green: 20, blue: 23, alpha: 255 },
        ],
    };
    let features = extract_rgb_features_thresholded(&img, 20);
    // The first pixel exceeds the floor on every channel; the second does
    // not (green is exactly 20), so its slots stay zero.
    assert_eq!(features, vec![21, 22, 23, 0, 0, 0]);
}

#[test]
fn sparse_entries_match_the_thresholded_vector() {
    let img = sample_image(6, 4);
    let floor = 100;
    let dense = extract_rgb_features_thresholded(&img, floor);
    let sparse = sparse_rgb_entries(&img, floor);
    // Every entry names a written slot.
    for (idx, value) in &sparse {
        assert!(*idx < dense.len());
        assert_eq!(dense[*idx], *value);
        assert_ne!(*value, 0);
    }
    // Every written slot appears among the entries.
    let written: Vec<usize> = sparse.iter().map(|e| e.0).collect();
    for (idx, value) in dense.iter().enumerate() {
        if *value != 0 {
            assert!(written.contains(&idx));
        }
    }
    // Entries come in scan order.
    for pair in written.windows(2) {
        assert!(pair[0] < pair[1]);
    }
}

#[test]
fn gray_features_scan_column_major() {
    // 2 wide, 3 tall:
    //   1 2
    //   3 4
    //   5 6
    let g = GrayBuf { width: 2, height: 3, data: vec![1, 2, 3, 4, 5, 6] };
    let features = extract_gray_features(&g);
    assert_eq!(features, vec![1, 3, 5, 2, 4, 6]);
}

#[test]
fn augmentation_emits_four_rows_matching_the_rotations() {
    let mut data = Vec::new();
    for i in 0..(5 * 4) {
        data.push((i * 11 % 256) as u8);
    }
    let g = GrayBuf { width: 5, height: 4, data };
    let rows = augmented_gray_features(&g);
    assert_eq!(rows.len(), 4);
    assert_eq!(rows[0], extract_gray_features(&g));
    assert_eq!(rows[1], extract_gray_features(&rotate90(&g)));
    assert_eq!(rows[2], extract_gray_features(&rotate180(&g)));
    assert_eq!(rows[3], extract_gray_features(&rotate270(&g)));
    for row in &rows {
        assert_eq!(row.len(), 5 * 4);
    }
}

#[test]
fn dataset_rejects_rows_of_the_wrong_length() {
    let mut ds = Dataset::new(6);
    assert!(ds.push_row(vec![1, 2, 3, 4, 5, 6], 7).is_ok());
    assert_eq!(
        ds.push_row(vec![1, 2, 3], 7).unwrap_err(),
        PipelineError::DimensionMismatch,
    );
    assert_eq!(ds.len(), 1);
    assert_eq!(ds.labels, vec![7]);
}

#[test]
fn dataset_replicates_the_label_over_an_augmented_batch() {
    let mut ds = Dataset::new(2);
    let batch = vec![vec![1, 2], vec![3, 4], vec![5, 6], vec![7, 8]];
    ds.push_augmented(batch, 42).unwrap();
    assert_eq!(ds.len(), 4);
    assert_eq!(ds.labels, vec![42, 42, 42, 42]);
    assert_eq!(ds.rows[2], vec![5, 6]);
    let bad = vec![vec![1, 2], vec![3]];
    assert_eq!(ds.push_augmented(bad, 1).unwrap_err(), PipelineError::DimensionMismatch);
    assert_eq!(ds.len(), 4);
}

#[test]
fn normalized_features_have_the_configured_length() {
    // Tall enough that the 80 + 140 vertical margins leave rows over.
    let img = sample_image(90, 260);
    let cfg = FixedMarginConfig::train_defaults(12, 16);
    let features = normalize_and_extract_rgb(&img, &cfg).unwrap();
    assert_eq!(features.len(), 12 * 16 * 3);
    let again = normalize_and_extract_rgb(&img, &cfg).unwrap();
    assert_eq!(features, again);
}
