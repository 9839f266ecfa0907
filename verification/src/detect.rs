//! Border detection: scanning rows or a column near an edge for the first
//! pixel bright enough to count as sheet content.
//!
//! A side scan walks every row of a window left to right and notes where the
//! row first turns bright; the border offset is the greatest such position
//! over the window.  A row that never turns bright contributes no candidate,
//! and with no candidate at all (or a border of width zero) the offset does
//! not exist.  Top and bottom borders are found the same way along the first
//! column.  The right and bottom edges reuse the side and column scans on a
//! mirrored buffer.

#![verifier::loop_isolation(false)]

use vstd::prelude::*;
use crate::buffer::ImageBuf;
use crate::buffer::ImgV;
use crate::ops::crop_image;
use crate::ops::flip_horizontal;
use crate::ops::flip_vertical;
use crate::ops::spec_crop;
use crate::ops::spec_flip_h;
use crate::ops::spec_flip_v;
use crate::ops::lemma_crop_pix;
use crate::ops::lemma_flip_h_pix;
use crate::ops::lemma_flip_v_pix;
use crate::buffer::lemma_pix_ext;
use crate::error::PipelineError;
use crate::pixel::is_bright;
use crate::pixel::spec_is_bright;

verus! {

/// Window and threshold for one side scan: rows `row_lo..row_hi` are walked
/// over columns `col_lo..col_hi`.
#[derive(Clone, Copy, Debug, PartialEq, Eq, Structural)]
pub struct EdgeScanConfig {
    pub row_lo: usize,
    pub row_hi: usize,
    pub col_lo: usize,
    pub col_hi: usize,
    pub threshold: u8,
}

/// Window and threshold for one column scan: rows `row_lo..row_hi` of the
/// first column are walked top to bottom.
#[derive(Clone, Copy, Debug, PartialEq, Eq, Structural)]
pub struct ColumnScanConfig {
    pub row_lo: usize,
    pub row_hi: usize,
    pub threshold: u8,
}

/// The four border offsets of one image, each the count of rows or columns
/// to strip from its edge; the sides apply to the full buffer, top and
/// bottom to the buffer the side crops leave.
#[derive(Clone, Copy, Debug, PartialEq, Eq, Structural)]
pub struct BorderOffsets {
    pub from_left: usize,
    pub from_right: usize,
    pub from_top: usize,
    pub from_bottom: usize,
}

/// An `Option<usize>` as an `Option<int>`.
pub open spec fn opt_int(o: Option<usize>) -> Option<int> {
    match o {
        Option::Some(x) => Option::Some(x as int),
        Option::None => Option::None,
    }
}

/// The larger of two optional values; `None` is the unit.
pub open spec fn spec_opt_max(a: Option<int>, b: Option<int>) -> Option<int> {
    match a {
        Option::None => b,
        Option::Some(x) => match b {
            Option::None => Option::Some(x),
            Option::Some(y) => if x >= y { Option::Some(x) } else { Option::Some(y) },
        },
    }
}

/// The first column at or after `x` (and before `x_hi` and the image's
/// width) where row `y` is bright.
pub open spec fn spec_first_bright_in_row(v: ImgV, y: int, x: int, x_hi: int, threshold: u8)
    -> Option<int>
    decreases x_hi - x,
{
    if x < 0 || x >= x_hi || x >= v.width {
        Option::None
    } else if spec_is_bright(v.pix(x, y), threshold) {
        Option::Some(x)
    } else {
        spec_first_bright_in_row(v, y, x + 1, x_hi, threshold)
    }
}

/// The greatest first-bright column over the rows `y..y_hi` (clipped to the
/// image) of a side scan window.
pub open spec fn spec_row_scan_max(v: ImgV, y: int, y_hi: int, x_lo: int, x_hi: int, threshold: u8)
    -> Option<int>
    decreases y_hi - y,
{
    if y < 0 || y >= y_hi || y >= v.height {
        Option::None
    } else {
        spec_opt_max(
            spec_first_bright_in_row(v, y, x_lo, x_hi, threshold),
            spec_row_scan_max(v, y + 1, y_hi, x_lo, x_hi, threshold),
        )
    }
}

/// The left border offset under a side scan: the greatest first-bright
/// column of the window, provided some row turned bright strictly inside
/// the window.  `None` means the offset does not exist.
pub open spec fn spec_left_offset(v: ImgV, cfg: EdgeScanConfig) -> Option<int> {
    match spec_row_scan_max(
        v,
        cfg.row_lo as int,
        cfg.row_hi as int,
        cfg.col_lo as int,
        cfg.col_hi as int,
        cfg.threshold,
    ) {
        Option::None => Option::None,
        Option::Some(m) => if m > cfg.col_lo {
            Option::Some(m)
        } else {
            Option::None
        },
    }
}

/// The first row at or after `y` (and before `y_hi` and the image's height)
/// where the first column is bright.
pub open spec fn spec_first_bright_in_column(v: ImgV, y: int, y_hi: int, threshold: u8)
    -> Option<int>
    decreases y_hi - y,
{
    if y < 0 || y >= y_hi || y >= v.height || v.width == 0 {
        Option::None
    } else if spec_is_bright(v.pix(0, y), threshold) {
        Option::Some(y)
    } else {
        spec_first_bright_in_column(v, y + 1, y_hi, threshold)
    }
}

/// The top border offset under a column scan: the first bright row of the
/// window, provided it lies strictly inside the window.
pub open spec fn spec_top_offset(v: ImgV, cfg: ColumnScanConfig) -> Option<int> {
    match spec_first_bright_in_column(v, cfg.row_lo as int, cfg.row_hi as int, cfg.threshold) {
        Option::None => Option::None,
        Option::Some(f) => if f > cfg.row_lo {
            Option::Some(f)
        } else {
            Option::None
        },
    }
}

/// A first-bright column lies inside both the window and the image.
pub proof fn lemma_first_bright_bounds(v: ImgV, y: int, x: int, x_hi: int, threshold: u8)
    ensures
        spec_first_bright_in_row(v, y, x, x_hi, threshold) matches Option::Some(f) ==>
            x <= f < x_hi && f < v.width,
    decreases x_hi - x,
{
    if x < 0 || x >= x_hi || x >= v.width {
    } else if spec_is_bright(v.pix(x, y), threshold) {
    } else {
        lemma_first_bright_bounds(v, y, x + 1, x_hi, threshold);
    }
}

/// A side scan's result lies inside both the window and the image, and only
/// an image with at least one row can produce one.
pub proof fn lemma_row_scan_bounds(v: ImgV, y: int, y_hi: int, x_lo: int, x_hi: int, threshold: u8)
    ensures
        spec_row_scan_max(v, y, y_hi, x_lo, x_hi, threshold) matches Option::Some(m) ==>
            x_lo <= m < x_hi && m < v.width && v.height >= 1,
    decreases y_hi - y,
{
    if y < 0 || y >= y_hi || y >= v.height {
    } else {
        lemma_first_bright_bounds(v, y, x_lo, x_hi, threshold);
        lemma_row_scan_bounds(v, y + 1, y_hi, x_lo, x_hi, threshold);
    }
}

/// A column scan's result lies inside both the window and the image, and
/// only an image with at least one column can produce one.
pub proof fn lemma_column_scan_bounds(v: ImgV, y: int, y_hi: int, threshold: u8)
    ensures
        spec_first_bright_in_column(v, y, y_hi, threshold) matches Option::Some(f) ==>
            y <= f < y_hi && f < v.height && v.width >= 1,
    decreases y_hi - y,
{
    if y < 0 || y >= y_hi || y >= v.height || v.width == 0 {
    } else if spec_is_bright(v.pix(0, y), threshold) {
    } else {
        lemma_column_scan_bounds(v, y + 1, y_hi, threshold);
    }
}


/// A row whose window is dark before column `f` and bright at `f` first
/// turns bright exactly there.
pub proof fn lemma_first_bright_found_at(v: ImgV, y: int, x: int, x_hi: int, threshold: u8, f: int)
    requires
        0 <= x <= f,
        f < x_hi,
        f < v.width,
        spec_is_bright(v.pix(f, y), threshold),
        forall|j: int| x <= j < f ==> !spec_is_bright(#[trigger] v.pix(j, y), threshold),
    ensures
        spec_first_bright_in_row(v, y, x, x_hi, threshold) == Option::Some(f),
    decreases f - x,
{
    if x == f {
    } else {
        lemma_first_bright_found_at(v, y, x + 1, x_hi, threshold, f);
    }
}

/// A row that stays dark across its whole window never turns bright.
pub proof fn lemma_first_bright_nowhere(v: ImgV, y: int, x: int, x_hi: int, threshold: u8)
    requires
        forall|j: int|
            x <= j < x_hi && 0 <= j < v.width ==> !spec_is_bright(
                #[trigger] v.pix(j, y),
                threshold,
            ),
    ensures
        spec_first_bright_in_row(v, y, x, x_hi, threshold) is None,
    decreases x_hi - x,
{
    if x < 0 || x >= x_hi || x >= v.width {
    } else {
        lemma_first_bright_nowhere(v, y, x + 1, x_hi, threshold);
    }
}

/// When every scanned row either never turns bright or first turns bright
/// at `b`, the side scan yields `b` exactly when some scanned row does
/// turn bright.
proof fn lemma_row_scan_classified(
    v: ImgV,
    y: int,
    y_hi: int,
    x_lo: int,
    x_hi: int,
    threshold: u8,
    b: int,
)
    requires
        0 <= y,
        forall|r: int|
            y <= r < y_hi && 0 <= r < v.height ==> (#[trigger] spec_first_bright_in_row(
                v,
                r,
                x_lo,
                x_hi,
                threshold,
            ) is None || spec_first_bright_in_row(v, r, x_lo, x_hi, threshold) == Option::Some(b)),
    ensures
        spec_row_scan_max(v, y, y_hi, x_lo, x_hi, threshold) is None || spec_row_scan_max(
            v,
            y,
            y_hi,
            x_lo,
            x_hi,
            threshold,
        ) == Option::Some(b),
        (exists|r: int|
            y <= r < y_hi && 0 <= r < v.height && #[trigger] spec_first_bright_in_row(
                v,
                r,
                x_lo,
                x_hi,
                threshold,
            ) == Option::Some(b)) ==> spec_row_scan_max(v, y, y_hi, x_lo, x_hi, threshold)
            == Option::Some(b),
    decreases y_hi - y,
{
    if y >= y_hi || y >= v.height {
    } else {
        lemma_row_scan_classified(v, y + 1, y_hi, x_lo, x_hi, threshold, b);
        if exists|r: int|
            y <= r < y_hi && 0 <= r < v.height && #[trigger] spec_first_bright_in_row(
                v,
                r,
                x_lo,
                x_hi,
                threshold,
            ) == Option::Some(b) {
            let r0 = choose|r: int|
                y <= r < y_hi && 0 <= r < v.height && #[trigger] spec_first_bright_in_row(
                    v,
                    r,
                    x_lo,
                    x_hi,
                    threshold,
                ) == Option::Some(b);
            if r0 > y {
                assert(y + 1 <= r0 < y_hi && 0 <= r0 < v.height && spec_first_bright_in_row(
                    v,
                    r0,
                    x_lo,
                    x_hi,
                    threshold,
                ) == Option::Some(b));
            }
        }
    }
}

/// The side scan recovers a border of any width exactly: if, inside the
/// window, every pixel left of column `b` is dark, every scanned row is
/// bright at `b` or dark across the whole window, and at least one scanned
/// row is bright at `b`, then the detected offset is `b` — whatever the
/// border width, the image size and the conforming window.
pub proof fn lemma_side_scan_recovers_border(v: ImgV, cfg: EdgeScanConfig, b: int)
    requires
        cfg.col_lo < b < cfg.col_hi,
        b < v.width,
        forall|y: int, j: int|
            cfg.row_lo <= y < cfg.row_hi && 0 <= y < v.height && cfg.col_lo <= j < b
                ==> !spec_is_bright(#[trigger] v.pix(j, y), cfg.threshold),
        forall|y: int|
            cfg.row_lo <= y < cfg.row_hi && 0 <= y < v.height ==> (spec_is_bright(
                #[trigger] v.pix(b, y),
                cfg.threshold,
            ) || (forall|j: int|
                b <= j < cfg.col_hi && j < v.width ==> !spec_is_bright(
                    #[trigger] v.pix(j, y),
                    cfg.threshold,
                ))),
        exists|y: int|
            cfg.row_lo <= y < cfg.row_hi && 0 <= y < v.height && spec_is_bright(
                #[trigger] v.pix(b, y),
                cfg.threshold,
            ),
    ensures
        spec_left_offset(v, cfg) == Option::Some(b),
{
    assert forall|r: int|
        cfg.row_lo <= r < cfg.row_hi && 0 <= r < v.height implies (
        #[trigger] spec_first_bright_in_row(
            v,
            r,
            cfg.col_lo as int,
            cfg.col_hi as int,
            cfg.threshold,
        ) is None || spec_first_bright_in_row(
            v,
            r,
            cfg.col_lo as int,
            cfg.col_hi as int,
            cfg.threshold,
        ) == Option::Some(b)) by {
        if spec_is_bright(v.pix(b, r), cfg.threshold) {
            lemma_first_bright_found_at(
                v,
                r,
                cfg.col_lo as int,
                cfg.col_hi as int,
                cfg.threshold,
                b,
            );
        } else {
            lemma_first_bright_nowhere(v, r, cfg.col_lo as int, cfg.col_hi as int, cfg.threshold);
        }
    }
    lemma_row_scan_classified(
        v,
        cfg.row_lo as int,
        cfg.row_hi as int,
        cfg.col_lo as int,
        cfg.col_hi as int,
        cfg.threshold,
        b,
    );
    let y0 = choose|y: int|
        cfg.row_lo <= y < cfg.row_hi && 0 <= y < v.height && spec_is_bright(
            #[trigger] v.pix(b, y),
            cfg.threshold,
        );
    lemma_first_bright_found_at(v, y0, cfg.col_lo as int, cfg.col_hi as int, cfg.threshold, b);
    assert(cfg.row_lo <= y0 < cfg.row_hi && 0 <= y0 < v.height && spec_first_bright_in_row(
        v,
        y0,
        cfg.col_lo as int,
        cfg.col_hi as int,
        cfg.threshold,
    ) == Option::Some(b));
}

/// A column whose window is dark before row `f` and bright at `f` first
/// turns bright exactly there.
proof fn lemma_first_bright_in_column_found_at(v: ImgV, y: int, y_hi: int, threshold: u8, f: int)
    requires
        v.width >= 1,
        0 <= y <= f,
        f < y_hi,
        f < v.height,
        spec_is_bright(v.pix(0, f), threshold),
        forall|j: int| y <= j < f ==> !spec_is_bright(#[trigger] v.pix(0, j), threshold),
    ensures
        spec_first_bright_in_column(v, y, y_hi, threshold) == Option::Some(f),
    decreases f - y,
{
    if y == f {
    } else {
        lemma_first_bright_in_column_found_at(v, y + 1, y_hi, threshold, f);
    }
}

/// The column scan recovers a border of any height exactly: if the first
/// column is dark on every scanned row before `b` and bright at `b`, the
/// detected offset is `b` — whatever the border height, the image size and
/// the conforming window.
pub proof fn lemma_column_scan_recovers_border(v: ImgV, cfg: ColumnScanConfig, b: int)
    requires
        v.width >= 1,
        cfg.row_lo < b < cfg.row_hi,
        b < v.height,
        forall|y: int|
            cfg.row_lo <= y < b ==> !spec_is_bright(#[trigger] v.pix(0, y), cfg.threshold),
        spec_is_bright(v.pix(0, b), cfg.threshold),
    ensures
        spec_top_offset(v, cfg) == Option::Some(b),
{
    lemma_first_bright_in_column_found_at(
        v,
        cfg.row_lo as int,
        cfg.row_hi as int,
        cfg.threshold,
        b,
    );
}


/// Is `v` a sheet with a uniform dark border `border` pixels wide: bright
/// exactly on the interior rectangle?
pub open spec fn spec_uniform_border(v: ImgV, border: int, threshold: u8) -> bool {
    forall|x: int, y: int|
        0 <= x < v.width && 0 <= y < v.height ==> (spec_is_bright(
            #[trigger] v.pix(x, y),
            threshold,
        ) <==> (border <= x < v.width - border && border <= y < v.height - border))
}

/// The sequential detector recovers a uniform border exactly: on any sheet
/// that is dark in a border of width `b` and bright inside, under any
/// windows that straddle the border's edge (with side rows that reach the
/// interior), all four detected offsets equal `b` and the crop is exactly
/// the interior rectangle.
pub proof fn lemma_detector_recovers_uniform_border(v: ImgV, cfg: BorderScanConfig, b: int)
    requires
        v.data.len() == v.width * v.height,
        0 < b,
        2 * b < v.width,
        2 * b < v.height,
        spec_uniform_border(v, b, cfg.side.threshold),
        cfg.top.threshold == cfg.side.threshold,
        cfg.bottom.threshold == cfg.side.threshold,
        cfg.side.col_lo < b < cfg.side.col_hi,
        cfg.side.row_lo < cfg.side.row_hi,
        cfg.side.row_lo < v.height - b,
        b < cfg.side.row_hi,
        cfg.top.row_lo < b < cfg.top.row_hi,
        cfg.bottom.row_lo < b < cfg.bottom.row_hi,
    ensures
        spec_detect_and_crop(v, cfg) is Ok,
        spec_detect_and_crop(v, cfg)->Ok_0.from_left == b,
        spec_detect_and_crop(v, cfg)->Ok_0.from_right == b,
        spec_detect_and_crop(v, cfg)->Ok_0.from_top == b,
        spec_detect_and_crop(v, cfg)->Ok_0.from_bottom == b,
        spec_detect_and_crop(v, cfg)->Ok_0.img == spec_crop(v, b, b, b, b),
{
    let w = v.width as int;
    let h = v.height as int;
    let thr = cfg.side.threshold;
    let s1 = spec_crop(v, b, 0, 0, 0);
    let m1 = spec_flip_h(s1);
    let s2 = spec_flip_h(spec_crop(m1, b, 0, 0, 0));
    let m2 = spec_flip_v(spec_crop(s2, 0, 0, b, 0));
    // a row of the side window that crosses the interior
    let y0 = if cfg.side.row_lo as int >= b {
        cfg.side.row_lo as int
    } else {
        b
    };

    // pixel formulas of the three mirrored or cropped intermediates
    assert forall|x: int, y: int| 0 <= x < w - b && 0 <= y < h implies #[trigger] m1.pix(x, y)
        == v.pix(w - 1 - x, y) by {
        lemma_flip_h_pix(s1, x, y);
        lemma_crop_pix(v, b, 0, 0, 0, w - b - 1 - x, y);
    }
    assert forall|x: int, y: int| 0 <= x < w - 2 * b && 0 <= y < h implies #[trigger] s2.pix(x, y)
        == v.pix(b + x, y) by {
        let c = spec_crop(m1, b, 0, 0, 0);
        lemma_flip_h_pix(c, x, y);
        lemma_crop_pix(m1, b, 0, 0, 0, w - 2 * b - 1 - x, y);
        assert(m1.pix(w - b - 1 - x, y) == v.pix(b + x, y));
    }
    assert forall|x: int, y: int| 0 <= x < w - 2 * b && 0 <= y < h - b implies #[trigger] m2.pix(
        x,
        y,
    ) == v.pix(b + x, h - 1 - y) by {
        let c = spec_crop(s2, 0, 0, b, 0);
        lemma_flip_v_pix(c, x, y);
        lemma_crop_pix(s2, 0, 0, b, 0, x, h - b - 1 - y);
        assert(s2.pix(x, h - 1 - y) == v.pix(b + x, h - 1 - y));
    }

    // first edge: the side scan on the sheet itself
    assert forall|y: int, j: int|
        cfg.side.row_lo <= y < cfg.side.row_hi && 0 <= y < h && cfg.side.col_lo <= j < b
            implies !spec_is_bright(#[trigger] v.pix(j, y), thr) by {}
    assert forall|y: int| cfg.side.row_lo <= y < cfg.side.row_hi && 0 <= y < h implies (
    spec_is_bright(#[trigger] v.pix(b, y), thr) || (forall|j: int|
        b <= j < cfg.side.col_hi && j < v.width ==> !spec_is_bright(
            #[trigger] v.pix(j, y),
            thr,
        ))) by {
        if !(b <= y < h - b) {
            assert forall|j: int| b <= j < cfg.side.col_hi && j < v.width implies !spec_is_bright(
                #[trigger] v.pix(j, y),
                thr,
            ) by {}
        }
    }
    assert(cfg.side.row_lo <= y0 < cfg.side.row_hi && 0 <= y0 < h && spec_is_bright(
        v.pix(b, y0),
        thr,
    ));
    lemma_side_scan_recovers_border(v, cfg.side, b);

    // second edge: the same scan on the mirrored remainder
    assert(m1.width == w - b && m1.height == h);
    assert forall|y: int, j: int|
        cfg.side.row_lo <= y < cfg.side.row_hi && 0 <= y < h && cfg.side.col_lo <= j < b
            implies !spec_is_bright(#[trigger] m1.pix(j, y), thr) by {
        assert(m1.pix(j, y) == v.pix(w - 1 - j, y));
    }
    assert forall|y: int| cfg.side.row_lo <= y < cfg.side.row_hi && 0 <= y < h implies (
    spec_is_bright(#[trigger] m1.pix(b, y), thr) || (forall|j: int|
        b <= j < cfg.side.col_hi && j < m1.width ==> !spec_is_bright(
            #[trigger] m1.pix(j, y),
            thr,
        ))) by {
        if b <= y < h - b {
            assert(m1.pix(b, y) == v.pix(w - 1 - b, y));
        } else {
            assert forall|j: int| b <= j < cfg.side.col_hi && j < m1.width implies !spec_is_bright(
                #[trigger] m1.pix(j, y),
                thr,
            ) by {
                assert(m1.pix(j, y) == v.pix(w - 1 - j, y));
            }
        }
    }
    assert(m1.pix(b, y0) == v.pix(w - 1 - b, y0));
    assert(cfg.side.row_lo <= y0 < cfg.side.row_hi && 0 <= y0 < m1.height && spec_is_bright(
        m1.pix(b, y0),
        thr,
    ));
    lemma_side_scan_recovers_border(m1, cfg.side, b);

    // third edge: the column scan on the side-cropped sheet
    assert(s2.width == w - 2 * b && s2.height == h);
    assert forall|y: int| cfg.top.row_lo <= y < b implies !spec_is_bright(
        #[trigger] s2.pix(0, y),
        cfg.top.threshold,
    ) by {
        assert(s2.pix(0, y) == v.pix(b, y));
    }
    assert(s2.pix(0, b) == v.pix(b, b));
    assert(spec_is_bright(s2.pix(0, b), cfg.top.threshold));
    lemma_column_scan_recovers_border(s2, cfg.top, b);

    // fourth edge: the column scan on the mirrored remainder
    assert(m2.width == w - 2 * b && m2.height == h - b);
    assert forall|y: int| cfg.bottom.row_lo <= y < b implies !spec_is_bright(
        #[trigger] m2.pix(0, y),
        cfg.bottom.threshold,
    ) by {
        assert(m2.pix(0, y) == v.pix(b, h - 1 - y));
    }
    assert(m2.pix(0, b) == v.pix(b, h - 1 - b));
    assert(spec_is_bright(m2.pix(0, b), cfg.bottom.threshold));
    lemma_column_scan_recovers_border(m2, cfg.bottom, b);

    // the crop the four offsets leave is the interior rectangle
    let out = spec_flip_v(spec_crop(m2, 0, 0, b, 0));
    let target = spec_crop(v, b, b, b, b);
    assert forall|x: int, y: int| 0 <= x < w - 2 * b && 0 <= y < h - 2 * b implies #[trigger] out
        .pix(x, y) == target.pix(x, y) by {
        let c = spec_crop(m2, 0, 0, b, 0);
        lemma_flip_v_pix(c, x, y);
        lemma_crop_pix(m2, 0, 0, b, 0, x, h - 2 * b - 1 - y);
        assert(m2.pix(x, h - b - 1 - y) == v.pix(b + x, b + y));
        lemma_crop_pix(v, b, b, b, b, x, y);
    }
    lemma_pix_ext(out, target);
}

/// Taking the maximum in any association gives the same result.
proof fn lemma_opt_max_assoc(a: Option<int>, b: Option<int>, c: Option<int>)
    ensures
        spec_opt_max(a, spec_opt_max(b, c)) == spec_opt_max(spec_opt_max(a, b), c),
{
}

/// The larger of two optional offsets.
fn opt_max_usize(a: Option<usize>, b: Option<usize>) -> (r: Option<usize>)
    ensures
        opt_int(r) == spec_opt_max(opt_int(a), opt_int(b)),
{
    match a {
        Option::None => b,
        Option::Some(x) => match b {
            Option::None => Option::Some(x),
            Option::Some(y) => if x >= y {
                Option::Some(x)
            } else {
                Option::Some(y)
            },
        },
    }
}

/// Walk row `y` from `x_lo` towards `x_hi` and report where it first turns
/// bright.
fn first_bright_in_row(img: &ImageBuf, y: usize, x_lo: usize, x_hi: usize, threshold: u8)
    -> (r: Option<usize>)
    requires
        img@.wf(),
        y < img@.height,
    ensures
        opt_int(r) == spec_first_bright_in_row(img@, y as int, x_lo as int, x_hi as int, threshold),
{
    let hi: usize = if x_hi < img.width {
        x_hi
    } else {
        img.width
    };
    if x_lo >= hi {
        return Option::None;
    }
    let mut x: usize = x_lo;
    while x < hi
        invariant
            x_lo <= x <= hi,
            spec_first_bright_in_row(img@, y as int, x_lo as int, x_hi as int, threshold)
                == spec_first_bright_in_row(img@, y as int, x as int, x_hi as int, threshold),
        decreases hi - x,
    {
        let p = img.get(x, y);
        if is_bright(&p, threshold) {
            return Option::Some(x);
        }
        proof {
            assert(spec_first_bright_in_row(img@, y as int, x as int, x_hi as int, threshold)
                == spec_first_bright_in_row(img@, y as int, x as int + 1, x_hi as int, threshold));
        }
        x = x + 1;
    }
    Option::None
}

/// Walk the window's rows and report the greatest first-bright column.
fn row_scan_max(img: &ImageBuf, cfg: &EdgeScanConfig) -> (r: Option<usize>)
    requires
        img@.wf(),
    ensures
        opt_int(r) == spec_row_scan_max(
            img@,
            cfg.row_lo as int,
            cfg.row_hi as int,
            cfg.col_lo as int,
            cfg.col_hi as int,
            cfg.threshold,
        ),
{
    let y_end: usize = if cfg.row_hi < img.height {
        cfg.row_hi
    } else {
        img.height
    };
    if cfg.row_lo >= y_end {
        return Option::None;
    }
    let mut best: Option<usize> = Option::None;
    let mut y: usize = cfg.row_lo;
    while y < y_end
        invariant
            cfg.row_lo <= y <= y_end,
            spec_opt_max(
                opt_int(best),
                spec_row_scan_max(
                    img@,
                    y as int,
                    cfg.row_hi as int,
                    cfg.col_lo as int,
                    cfg.col_hi as int,
                    cfg.threshold,
                ),
            ) == spec_row_scan_max(
                img@,
                cfg.row_lo as int,
                cfg.row_hi as int,
                cfg.col_lo as int,
                cfg.col_hi as int,
                cfg.threshold,
            ),
        decreases y_end - y,
    {
        let fb = first_bright_in_row(img, y, cfg.col_lo, cfg.col_hi, cfg.threshold);
        proof {
            lemma_opt_max_assoc(
                opt_int(best),
                opt_int(fb),
                spec_row_scan_max(
                    img@,
                    y as int + 1,
                    cfg.row_hi as int,
                    cfg.col_lo as int,
                    cfg.col_hi as int,
                    cfg.threshold,
                ),
            );
        }
        best = opt_max_usize(best, fb);
        y = y + 1;
    }
    best
}

/// Walk the window's rows along the first column and report the first
/// bright one.
fn first_bright_in_column(img: &ImageBuf, cfg: &ColumnScanConfig) -> (r: Option<usize>)
    requires
        img@.wf(),
    ensures
        opt_int(r) == spec_first_bright_in_column(
            img@,
            cfg.row_lo as int,
            cfg.row_hi as int,
            cfg.threshold,
        ),
{
    let y_end: usize = if cfg.row_hi < img.height {
        cfg.row_hi
    } else {
        img.height
    };
    if cfg.row_lo >= y_end || img.width == 0 {
        return Option::None;
    }
    let mut y: usize = cfg.row_lo;
    while y < y_end
        invariant
            cfg.row_lo <= y <= y_end,
            img@.width >= 1,
            spec_first_bright_in_column(img@, cfg.row_lo as int, cfg.row_hi as int, cfg.threshold)
                == spec_first_bright_in_column(img@, y as int, cfg.row_hi as int, cfg.threshold),
        decreases y_end - y,
    {
        let p = img.get(0, y);
        if is_bright(&p, cfg.threshold) {
            return Option::Some(y);
        }
        proof {
            assert(spec_first_bright_in_column(img@, y as int, cfg.row_hi as int, cfg.threshold)
                == spec_first_bright_in_column(img@, y as int + 1, cfg.row_hi as int, cfg.threshold));
        }
        y = y + 1;
    }
    Option::None
}

/// Find the left border offset of `img` under the side scan `cfg`.
/// Fails when no row of the window turns bright, or when the border found
/// has width zero.
pub fn detect_left_offset(img: &ImageBuf, cfg: &EdgeScanConfig) -> (r: Result<
    usize,
    PipelineError,
>)
    requires
        img@.wf(),
    ensures
        r is Ok <==> spec_left_offset(img@, *cfg) is Some,
        r is Ok ==> {
            &&& opt_int(Option::Some(r->Ok_0)) == spec_left_offset(img@, *cfg)
            &&& cfg.col_lo < r->Ok_0 < img@.width
            &&& img@.height >= 1
        },
        r is Err ==> r->Err_0 == PipelineError::BorderNotFound,
{
    proof {
        lemma_row_scan_bounds(
            img@,
            cfg.row_lo as int,
            cfg.row_hi as int,
            cfg.col_lo as int,
            cfg.col_hi as int,
            cfg.threshold,
        );
    }
    match row_scan_max(img, cfg) {
        Option::None => Err(PipelineError::BorderNotFound),
        Option::Some(m) => {
            if m > cfg.col_lo {
                Ok(m)
            } else {
                Err(PipelineError::BorderNotFound)
            }
        },
    }
}

/// Find the top border offset of `img` under the column scan `cfg`.
/// Fails when the window's stretch of the first column never turns bright,
/// or when the border found has height zero.
pub fn detect_top_offset(img: &ImageBuf, cfg: &ColumnScanConfig) -> (r: Result<
    usize,
    PipelineError,
>)
    requires
        img@.wf(),
    ensures
        r is Ok <==> spec_top_offset(img@, *cfg) is Some,
        r is Ok ==> {
            &&& opt_int(Option::Some(r->Ok_0)) == spec_top_offset(img@, *cfg)
            &&& cfg.row_lo < r->Ok_0 < img@.height
            &&& img@.width >= 1
        },
        r is Err ==> r->Err_0 == PipelineError::BorderNotFound,
{
    proof {
        lemma_column_scan_bounds(img@, cfg.row_lo as int, cfg.row_hi as int, cfg.threshold);
    }
    match first_bright_in_column(img, cfg) {
        Option::None => Err(PipelineError::BorderNotFound),
        Option::Some(f) => {
            if f > cfg.row_lo {
                Ok(f)
            } else {
                Err(PipelineError::BorderNotFound)
            }
        },
    }
}

/// The scan windows of a whole border detection: the side window serves the
/// left edge and, mirrored, the right edge; the two column windows serve the
/// top and bottom edges.
#[derive(Clone, Copy, Debug, PartialEq, Eq, Structural)]
pub struct BorderScanConfig {
    pub side: EdgeScanConfig,
    pub top: ColumnScanConfig,
    pub bottom: ColumnScanConfig,
}

/// Model of a finished border detection: the cropped image and the four
/// offsets that produced it.
pub ghost struct BorderCropV {
    pub img: ImgV,
    pub from_left: int,
    pub from_right: int,
    pub from_top: int,
    pub from_bottom: int,
}

/// The sequential border detection: each edge is found against the buffer
/// the previous crops left, the right and bottom edges on a mirrored copy.
pub open spec fn spec_detect_and_crop(v: ImgV, cfg: BorderScanConfig) -> Result<
    BorderCropV,
    PipelineError,
> {
    match spec_left_offset(v, cfg.side) {
        Option::None => Err(PipelineError::BorderNotFound),
        Option::Some(l) => {
            let v1 = spec_crop(v, l, 0, 0, 0);
            match spec_left_offset(spec_flip_h(v1), cfg.side) {
                Option::None => Err(PipelineError::BorderNotFound),
                Option::Some(r) => {
                    let v2 = spec_flip_h(spec_crop(spec_flip_h(v1), r, 0, 0, 0));
                    match spec_top_offset(v2, cfg.top) {
                        Option::None => Err(PipelineError::BorderNotFound),
                        Option::Some(t) => {
                            let v3 = spec_crop(v2, 0, 0, t, 0);
                            match spec_top_offset(spec_flip_v(v3), cfg.bottom) {
                                Option::None => Err(PipelineError::BorderNotFound),
                                Option::Some(b) => Ok(BorderCropV {
                                    img: spec_flip_v(spec_crop(spec_flip_v(v3), 0, 0, b, 0)),
                                    from_left: l,
                                    from_right: r,
                                    from_top: t,
                                    from_bottom: b,
                                }),
                            }
                        },
                    }
                },
            }
        },
    }
}

/// Strip the sheet border from `img`: find and remove the left, right, top
/// and bottom borders in that order, each against the buffer the previous
/// removals left.  Returns the cropped image and the four offsets.
pub fn detect_and_crop_borders(img: &ImageBuf, cfg: &BorderScanConfig) -> (r: Result<
    (ImageBuf, BorderOffsets),
    PipelineError,
>)
    requires
        img@.wf(),
    ensures
        r is Ok <==> spec_detect_and_crop(img@, *cfg) is Ok,
        r is Ok ==> {
            let bc = spec_detect_and_crop(img@, *cfg)->Ok_0;
            &&& r->Ok_0.0@.wf()
            &&& r->Ok_0.0@ == bc.img
            &&& r->Ok_0.1.from_left == bc.from_left
            &&& r->Ok_0.1.from_right == bc.from_right
            &&& r->Ok_0.1.from_top == bc.from_top
            &&& r->Ok_0.1.from_bottom == bc.from_bottom
            &&& bc.from_left + bc.from_right < img@.width
            &&& bc.from_top + bc.from_bottom < img@.height
            &&& r->Ok_0.0@.width == img@.width - bc.from_left - bc.from_right
            &&& r->Ok_0.0@.height == img@.height - bc.from_top - bc.from_bottom
        },
        r is Err ==> r->Err_0 == PipelineError::BorderNotFound,
{
    let from_left = match detect_left_offset(img, &cfg.side) {
        Ok(v) => v,
        Err(e) => {
            return Err(e);
        },
    };
    let c1 = match crop_image(img, from_left, 0, 0, 0) {
        Ok(v) => v,
        Err(e) => {
            proof {
                assert(false);
            }
            return Err(e);
        },
    };
    let f1 = flip_horizontal(&c1);
    let from_right = match detect_left_offset(&f1, &cfg.side) {
        Ok(v) => v,
        Err(e) => {
            return Err(e);
        },
    };
    let c2m = match crop_image(&f1, from_right, 0, 0, 0) {
        Ok(v) => v,
        Err(e) => {
            proof {
                assert(false);
            }
            return Err(e);
        },
    };
    let c2 = flip_horizontal(&c2m);
    let from_top = match detect_top_offset(&c2, &cfg.top) {
        Ok(v) => v,
        Err(e) => {
            return Err(e);
        },
    };
    let c3 = match crop_image(&c2, 0, 0, from_top, 0) {
        Ok(v) => v,
        Err(e) => {
            proof {
                assert(false);
            }
            return Err(e);
        },
    };
    let f3 = flip_vertical(&c3);
    let from_bottom = match detect_top_offset(&f3, &cfg.bottom) {
        Ok(v) => v,
        Err(e) => {
            return Err(e);
        },
    };
    let c4m = match crop_image(&f3, 0, 0, from_bottom, 0) {
        Ok(v) => v,
        Err(e) => {
            proof {
                assert(false);
            }
            return Err(e);
        },
    };
    let out = flip_vertical(&c4m);
    let offsets = BorderOffsets { from_left, from_right, from_top, from_bottom };
    Ok((out, offsets))
}


} // verus!
