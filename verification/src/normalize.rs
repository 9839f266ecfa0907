//! The two normalization pipelines that turn a raw decoded image into a
//! fixed-size buffer ready for feature extraction.
//!
//! The fixed-margin pipeline crops constant margins, inverts, brightens,
//! boosts contrast and resizes.  The detected-margin pipeline strips the
//! sheet border found by the scans in [`crate::detect`], cuts a secondary
//! horizontal line found on an inverted, contrast-boosted copy, and resizes.

#![verifier::loop_isolation(false)]

use vstd::prelude::*;
use crate::buffer::ImageBuf;
use crate::buffer::ImgV;
use crate::detect::BorderScanConfig;
use crate::detect::ColumnScanConfig;
use crate::detect::EdgeScanConfig;
use crate::detect::detect_and_crop_borders;
use crate::detect::spec_detect_and_crop;
use crate::error::PipelineError;
use crate::grid::lemma_mul_le;
use crate::ops::brighten_image;
use crate::ops::crop_image;
use crate::ops::flip_vertical;
use crate::ops::invert_image;
use crate::ops::spec_brighten;
use crate::ops::spec_crop;
use crate::ops::spec_crop_valid;
use crate::ops::spec_flip_v;
use crate::ops::spec_invert;
use crate::resample::ResampleFilter;
use crate::resample::contrast_image;
use crate::resample::resize_image;
use crate::resample::spec_contrast;
use crate::resample::spec_resize;

verus! {

/// How far from each side the secondary cutoff scan stays.
pub const CUTOFF_SIDE_MARGIN: usize = 130;

/// The first row the secondary cutoff scan inspects.
pub const CUTOFF_FIRST_ROW: usize = 10;

/// A channel below this level counts as dark for the secondary cutoff scan.
pub const CUTOFF_CHANNEL_FLOOR: u8 = 110;

/// The contrast boost (in percent) under which the secondary cutoff line is
/// sought, undone afterwards by its negation.
pub const CUTOFF_CONTRAST_BOOST: i16 = 10;

/// The constants of the fixed-margin pipeline: the four crop margins, the
/// brightness and contrast adjustments, and the target size and filter of
/// the final resize.
#[derive(Clone, Copy, Debug, PartialEq, Eq, Structural)]
pub struct FixedMarginConfig {
    pub left_margin: usize,
    pub right_margin: usize,
    pub top_margin: usize,
    pub bottom_margin: usize,
    pub brighten_by: i32,
    pub contrast_by: i16,
    pub target_width: usize,
    pub target_height: usize,
    pub filter: ResampleFilter,
}

/// The constants of the detected-margin pipeline: the border scan windows
/// and the target size and filter of the final resize.
#[derive(Clone, Copy, Debug, PartialEq, Eq, Structural)]
pub struct DetectedMarginConfig {
    pub scan: BorderScanConfig,
    pub target_width: usize,
    pub target_height: usize,
    pub filter: ResampleFilter,
}

impl FixedMarginConfig {
    /// The fixed-margin constants used when assembling training data:
    /// generous margins (most from the bottom, where roots carry few
    /// identifying features), a strong brightness and contrast boost, and a
    /// Gaussian resize to the given target.
    pub fn train_defaults(target_width: usize, target_height: usize) -> (r: FixedMarginConfig)
        ensures
            r == (FixedMarginConfig {
                left_margin: 30,
                right_margin: 30,
                top_margin: 80,
                bottom_margin: 140,
                brighten_by: 30,
                contrast_by: 60,
                target_width,
                target_height,
                filter: ResampleFilter::Gaussian,
            }),
    {
        FixedMarginConfig {
            left_margin: 30,
            right_margin: 30,
            top_margin: 80,
            bottom_margin: 140,
            brighten_by: 30,
            contrast_by: 60,
            target_width,
            target_height,
            filter: ResampleFilter::Gaussian,
        }
    }

    /// The fixed-margin constants used when assembling test data: the same
    /// margins as [`FixedMarginConfig::train_defaults`] with a gentler
    /// brightness and contrast boost.
    pub fn test_defaults(target_width: usize, target_height: usize) -> (r: FixedMarginConfig)
        ensures
            r == (FixedMarginConfig {
                left_margin: 30,
                right_margin: 30,
                top_margin: 80,
                bottom_margin: 140,
                brighten_by: 10,
                contrast_by: 20,
                target_width,
                target_height,
                filter: ResampleFilter::Gaussian,
            }),
    {
        FixedMarginConfig {
            left_margin: 30,
            right_margin: 30,
            top_margin: 80,
            bottom_margin: 140,
            brighten_by: 10,
            contrast_by: 20,
            target_width,
            target_height,
            filter: ResampleFilter::Gaussian,
        }
    }
}

impl DetectedMarginConfig {
    /// The detected-margin constants tuned for herbarium sheet scans of
    /// roughly 680 by 1000 pixels: side scans over rows 100..900 and
    /// columns 10..40, column scans over rows 20..100 and 10..50, a
    /// brightness threshold of 100 everywhere, and a Catmull-Rom resize to
    /// 600 by 800.
    pub fn standard() -> (r: DetectedMarginConfig)
        ensures
            r == (DetectedMarginConfig {
                scan: BorderScanConfig {
                    side: EdgeScanConfig {
                        row_lo: 100,
                        row_hi: 900,
                        col_lo: 10,
                        col_hi: 40,
                        threshold: 100,
                    },
                    top: ColumnScanConfig { row_lo: 20, row_hi: 100, threshold: 100 },
                    bottom: ColumnScanConfig { row_lo: 10, row_hi: 50, threshold: 100 },
                },
                target_width: 600,
                target_height: 800,
                filter: ResampleFilter::CatmullRom,
            }),
    {
        DetectedMarginConfig {
            scan: BorderScanConfig {
                side: EdgeScanConfig {
                    row_lo: 100,
                    row_hi: 900,
                    col_lo: 10,
                    col_hi: 40,
                    threshold: 100,
                },
                top: ColumnScanConfig { row_lo: 20, row_hi: 100, threshold: 100 },
                bottom: ColumnScanConfig { row_lo: 10, row_hi: 50, threshold: 100 },
            },
            target_width: 600,
            target_height: 800,
            filter: ResampleFilter::CatmullRom,
        }
    }
}

/// The fixed-margin pipeline as one function of the input image: crop,
/// invert, brighten, boost contrast, resize.
pub open spec fn spec_normalize_fixed(v: ImgV, cfg: FixedMarginConfig) -> Result<
    ImgV,
    PipelineError,
> {
    if !spec_crop_valid(
        v,
        cfg.left_margin as int,
        cfg.right_margin as int,
        cfg.top_margin as int,
        cfg.bottom_margin as int,
    ) || cfg.target_width == 0 || cfg.target_height == 0 {
        Err(PipelineError::Geometry)
    } else {
        Ok(spec_resize(
            spec_contrast(
                spec_brighten(
                    spec_invert(spec_crop(
                        v,
                        cfg.left_margin as int,
                        cfg.right_margin as int,
                        cfg.top_margin as int,
                        cfg.bottom_margin as int,
                    )),
                    cfg.brighten_by as int,
                ),
                cfg.contrast_by as int,
            ),
            cfg.target_width as int,
            cfg.target_height as int,
            cfg.filter,
        ))
    }
}

/// Normalize an image with constant margins: crop the four margins, invert
/// the colors, brighten, boost the contrast and resize to the target size.
/// The result is a function of the input image and the constants alone.
/// Fails with a geometry error when the margins leave no pixel or the
/// target size is empty.
pub fn normalize_fixed_margin(img: &ImageBuf, cfg: &FixedMarginConfig) -> (r: Result<
    ImageBuf,
    PipelineError,
>)
    requires
        img@.wf(),
        cfg.target_width <= 0xffff_ffff,
        cfg.target_height <= 0xffff_ffff,
        4 * cfg.target_width * cfg.target_height <= usize::MAX,
        4 * img@.width * cfg.target_height <= usize::MAX,
    ensures
        r is Ok <==> spec_normalize_fixed(img@, *cfg) is Ok,
        r is Ok ==> {
            &&& r->Ok_0@.wf()
            &&& r->Ok_0@ == spec_normalize_fixed(img@, *cfg)->Ok_0
            &&& r->Ok_0@.width == cfg.target_width
            &&& r->Ok_0@.height == cfg.target_height
        },
        r is Err ==> r->Err_0 == PipelineError::Geometry,
{
    let cropped = match crop_image(
        img,
        cfg.left_margin,
        cfg.right_margin,
        cfg.top_margin,
        cfg.bottom_margin,
    ) {
        Ok(v) => v,
        Err(e) => {
            return Err(e);
        },
    };
    let inverted = invert_image(&cropped);
    let brightened = brighten_image(&inverted, cfg.brighten_by);
    let contrasted = contrast_image(&brightened, cfg.contrast_by);
    proof {
        lemma_mul_le(
            4 * contrasted@.width as int,
            cfg.target_height as int,
            4 * img@.width as int,
            cfg.target_height as int,
        );
    }
    resize_image(&contrasted, cfg.target_width, cfg.target_height, cfg.filter)
}

/// Does the stretch of row `y` between the side margins hold any pixel with
/// a channel at or above the content floor?
pub open spec fn spec_row_has_content(v: ImgV, y: int) -> bool {
    !(forall|x: int| CUTOFF_SIDE_MARGIN <= x < v.width - CUTOFF_SIDE_MARGIN ==> (
        v.pix(x, y).red < CUTOFF_CHANNEL_FLOOR
        && v.pix(x, y).green < CUTOFF_CHANNEL_FLOOR
        && v.pix(x, y).blue < CUTOFF_CHANNEL_FLOOR
    ))
}

/// The first row in `y..y_hi` whose middle stretch holds content, or zero.
/// With every retained sample at least the content floor, this is exactly
/// where the mean intensity of the retained samples first exceeds one.
pub open spec fn spec_cutoff_from(v: ImgV, y: int, y_hi: int) -> int
    decreases y_hi - y,
{
    if y < 0 || y >= y_hi {
        0
    } else if spec_row_has_content(v, y) {
        y
    } else {
        spec_cutoff_from(v, y + 1, y_hi)
    }
}

/// The secondary cutoff row of an image: the first content row in the upper
/// half, skipping the first few rows.
pub open spec fn spec_cutoff(v: ImgV) -> int {
    spec_cutoff_from(v, CUTOFF_FIRST_ROW as int, (v.height / 2) as int)
}

/// The cutoff row is zero or lies inside the scanned range.
proof fn lemma_cutoff_bounds(v: ImgV, y: int, y_hi: int)
    requires
        0 <= y,
    ensures
        0 <= spec_cutoff_from(v, y, y_hi),
        spec_cutoff_from(v, y, y_hi) < y_hi || spec_cutoff_from(v, y, y_hi) == 0,
    decreases y_hi - y,
{
    if y < 0 || y >= y_hi {
    } else if spec_row_has_content(v, y) {
    } else {
        lemma_cutoff_bounds(v, y + 1, y_hi);
    }
}

/// Executable form of [`spec_row_has_content`].
fn row_has_content(img: &ImageBuf, y: usize) -> (r: bool)
    requires
        img@.wf(),
        img@.width >= CUTOFF_SIDE_MARGIN,
        y < img@.height,
    ensures
        r == spec_row_has_content(img@, y as int),
{
    let x_hi: usize = img.width - CUTOFF_SIDE_MARGIN;
    let mut x: usize = CUTOFF_SIDE_MARGIN;
    while x < x_hi
        invariant
            CUTOFF_SIDE_MARGIN <= x <= x_hi || x == CUTOFF_SIDE_MARGIN,
            forall|j: int| CUTOFF_SIDE_MARGIN <= j < x ==> (
                img@.pix(j, y as int).red < CUTOFF_CHANNEL_FLOOR
                && img@.pix(j, y as int).green < CUTOFF_CHANNEL_FLOOR
                && img@.pix(j, y as int).blue < CUTOFF_CHANNEL_FLOOR
            ),
        decreases x_hi - x,
    {
        let p = img.get(x, y);
        if !(p.red < CUTOFF_CHANNEL_FLOOR && p.green < CUTOFF_CHANNEL_FLOOR
            && p.blue < CUTOFF_CHANNEL_FLOOR) {
            return true;
        }
        x = x + 1;
    }
    false
}

/// Find the secondary cutoff row of `img`.
fn find_cutoff(img: &ImageBuf) -> (r: usize)
    requires
        img@.wf(),
        img@.width >= CUTOFF_SIDE_MARGIN,
    ensures
        r as int == spec_cutoff(img@),
{
    let y_hi: usize = img.height / 2;
    if CUTOFF_FIRST_ROW >= y_hi {
        return 0;
    }
    let mut y: usize = CUTOFF_FIRST_ROW;
    while y < y_hi
        invariant
            CUTOFF_FIRST_ROW <= y <= y_hi,
            y_hi <= img@.height,
            spec_cutoff(img@) == spec_cutoff_from(img@, y as int, y_hi as int),
        decreases y_hi - y,
    {
        if row_has_content(img, y) {
            return y;
        }
        proof {
            assert(spec_cutoff_from(img@, y as int, y_hi as int)
                == spec_cutoff_from(img@, y as int + 1, y_hi as int));
        }
        y = y + 1;
    }
    0
}

/// The secondary-cutoff pipeline as one function of the input image.
pub open spec fn spec_step2(v: ImgV) -> Result<ImgV, PipelineError> {
    let boosted = spec_contrast(spec_invert(spec_flip_v(v)), CUTOFF_CONTRAST_BOOST as int);
    let cut = spec_cutoff(boosted);
    if v.height < 1 {
        Err(PipelineError::Geometry)
    } else {
        Ok(spec_invert(spec_contrast(
            spec_flip_v(spec_crop(boosted, 0, 0, cut, 0)),
            -(CUTOFF_CONTRAST_BOOST as int),
        )))
    }
}

/// Cut away everything below the secondary horizontal cutoff line: flip the
/// image, invert it and boost its contrast, scan the upper half for the
/// first row whose middle stretch holds a bright-enough pixel, crop there,
/// then flip back and undo the contrast boost and inversion.
pub fn preprocessing_step_2(img: &ImageBuf) -> (r: Result<ImageBuf, PipelineError>)
    requires
        img@.wf(),
        img@.width >= CUTOFF_SIDE_MARGIN,
    ensures
        r is Ok <==> img@.height >= 1,
        r is Ok ==> {
            &&& r->Ok_0@.wf()
            &&& Ok::<ImgV, PipelineError>(r->Ok_0@) == spec_step2(img@)
            &&& r->Ok_0@.width == img@.width
            &&& r->Ok_0@.height == img@.height - spec_cutoff(
                spec_contrast(spec_invert(spec_flip_v(img@)), CUTOFF_CONTRAST_BOOST as int),
            )
            &&& r->Ok_0@.height >= 1
        },
        r is Err ==> r->Err_0 == PipelineError::Geometry,
{
    let flipped = flip_vertical(img);
    let inverted = invert_image(&flipped);
    let boosted = contrast_image(&inverted, CUTOFF_CONTRAST_BOOST);
    let cut = find_cutoff(&boosted);
    proof {
        lemma_cutoff_bounds(
            boosted@,
            CUTOFF_FIRST_ROW as int,
            (boosted@.height / 2) as int,
        );
    }
    let cropped = match crop_image(&boosted, 0, 0, cut, 0) {
        Ok(v) => v,
        Err(e) => {
            return Err(e);
        },
    };
    let unflipped = flip_vertical(&cropped);
    let restored = contrast_image(&unflipped, -CUTOFF_CONTRAST_BOOST);
    Ok(invert_image(&restored))
}

/// The detected-margin pipeline as one function of the input image: strip
/// the detected border, then resize to the target size.
pub open spec fn spec_step1(v: ImgV, cfg: DetectedMarginConfig) -> Result<ImgV, PipelineError> {
    match spec_detect_and_crop(v, cfg.scan) {
        Err(e) => Err(e),
        Ok(bc) => if cfg.target_width == 0 || cfg.target_height == 0 {
            Err(PipelineError::Geometry)
        } else {
            Ok(spec_resize(bc.img, cfg.target_width as int, cfg.target_height as int, cfg.filter))
        },
    }
}

/// Strip the sheet border found by the four sequential scans, then resize
/// to the configured target size.  Fails with a border error when a scan
/// window yields no offset, and with a geometry error when the target size
/// is empty.
pub fn preprocessing_step_1(img: &ImageBuf, cfg: &DetectedMarginConfig) -> (r: Result<
    ImageBuf,
    PipelineError,
>)
    requires
        img@.wf(),
        cfg.target_width <= 0xffff_ffff,
        cfg.target_height <= 0xffff_ffff,
        4 * cfg.target_width * cfg.target_height <= usize::MAX,
        4 * img@.width * cfg.target_height <= usize::MAX,
    ensures
        r is Ok <==> (spec_detect_and_crop(img@, cfg.scan) is Ok && cfg.target_width >= 1
            && cfg.target_height >= 1),
        r is Ok ==> {
            &&& r->Ok_0@.wf()
            &&& Ok::<ImgV, PipelineError>(r->Ok_0@) == spec_step1(img@, *cfg)
            &&& r->Ok_0@.width == cfg.target_width
            &&& r->Ok_0@.height == cfg.target_height
        },
        r is Err ==> r->Err_0 == spec_step1(img@, *cfg)->Err_0,
{
    let stripped = match detect_and_crop_borders(img, &cfg.scan) {
        Ok(v) => v.0,
        Err(e) => {
            return Err(e);
        },
    };
    proof {
        lemma_mul_le(
            4 * stripped@.width as int,
            cfg.target_height as int,
            4 * img@.width as int,
            cfg.target_height as int,
        );
    }
    resize_image(&stripped, cfg.target_width, cfg.target_height, cfg.filter)
}

} // verus!
