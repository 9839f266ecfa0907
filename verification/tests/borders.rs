use rusty_herbarium::buffer::ImageBuf;
use rusty_herbarium::detect::detect_and_crop_borders;
use rusty_herbarium::detect::detect_left_offset;
use rusty_herbarium::detect::detect_top_offset;
use rusty_herbarium::detect::BorderScanConfig;
use rusty_herbarium::detect::ColumnScanConfig;
use rusty_herbarium::detect::EdgeScanConfig;
use rusty_herbarium::error::PipelineError;
use rusty_herbarium::ops::crop_image;
use rusty_herbarium::pixel::Rgba;

const WHITE: Rgba = Rgba { red: 255, green: 255, blue: 255, alpha: 255 };
const BLACK: Rgba = Rgba { red: 0, green: 0, blue: 0, alpha: 255 };

/// An all-white square with a black border of the given width on all sides.
fn bordered_square(side: usize, border: usize) -> ImageBuf {
    let mut pixels = Vec::new();
    for y in 0..side {
        for x in 0..side {
            let in_border =
                x < border || y < border || x >= side - border || y >= side - border;
            pixels.push(if in_border { BLACK } else { WHITE });
        }
    }
    ImageBuf { width: side, height: side, pixels }
}

fn small_scan_config() -> BorderScanConfig {
    BorderScanConfig {
        side: EdgeScanConfig { row_lo: 20, row_hi: 80, col_lo: 0, col_hi: 20, threshold: 100 },
        top: ColumnScanConfig { row_lo: 0, row_hi: 20, threshold: 100 },
        bottom: ColumnScanConfig { row_lo: 0, row_hi: 20, threshold: 100 },
    }
}

#[test]
fn fixed_crop_of_bordered_square_is_all_white() {
    let img = bordered_square(100, 10);
    let out = crop_image(&img, 10, 10, 10, 10).unwrap();
    assert_eq!(out.width, 80);
    assert_eq!(out.height, 80);
    for p in &out.pixels {
        assert_eq!(*p, WHITE);
    }
}

#[test]
fn detector_recovers_the_border_offsets() {
    let img = bordered_square(100, 10);
    let (cropped, offsets) = detect_and_crop_borders(&img, &small_scan_config()).unwrap();
    assert_eq!(offsets.from_left, 10);
    assert_eq!(offsets.from_right, 10);
    assert_eq!(offsets.from_top, 10);
    assert_eq!(offsets.from_bottom, 10);
    assert_eq!(cropped.width, 80);
    assert_eq!(cropped.height, 80);
    for p in &cropped.pixels {
        assert_eq!(*p, WHITE);
    }
}

#[test]
fn side_scan_without_bright_pixel_fails() {
    let img = ImageBuf { width: 100, height: 100, pixels: vec![BLACK; 100 * 100] };
    let cfg = small_scan_config();
    assert_eq!(detect_left_offset(&img, &cfg.side).unwrap_err(), PipelineError::BorderNotFound);
    assert_eq!(
        detect_and_crop_borders(&img, &cfg).unwrap_err(),
        PipelineError::BorderNotFound,
    );
}

#[test]
fn column_scan_without_bright_pixel_fails() {
    let img = ImageBuf { width: 100, height: 100, pixels: vec![BLACK; 100 * 100] };
    let cfg = small_scan_config();
    assert_eq!(detect_top_offset(&img, &cfg.top).unwrap_err(), PipelineError::BorderNotFound);
}

#[test]
fn border_of_width_zero_yields_no_offset() {
    // Every window row starts bright: the candidate list stays empty.
    let img = ImageBuf { width: 100, height: 100, pixels: vec![WHITE; 100 * 100] };
    let cfg = small_scan_config();
    assert_eq!(detect_left_offset(&img, &cfg.side).unwrap_err(), PipelineError::BorderNotFound);
}

#[test]
fn empty_scan_window_yields_no_offset() {
    // The window lies entirely below the image.
    let img = bordered_square(100, 10);
    let cfg = EdgeScanConfig { row_lo: 200, row_hi: 300, col_lo: 0, col_hi: 20, threshold: 100 };
    assert_eq!(detect_left_offset(&img, &cfg).unwrap_err(), PipelineError::BorderNotFound);
}
