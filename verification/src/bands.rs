//! Suppression of residual scanner bands along the borders.
//!
//! Both passes overwrite suspect pixels with one replacement color sampled
//! from a fixed interior coordinate.  The rectangular pass repaints every
//! near-uniform pixel inside four fixed border strips.  The statistical
//! pass slides a 19-column window along every row and repaints every
//! window whose channel deviations stay small — near-white runs,
//! near-black runs and flat color bands alike — leaving only windows with
//! higher per-window color variance untouched.

#![verifier::loop_isolation(false)]

use vstd::prelude::*;
use crate::buffer::ImageBuf;
use crate::buffer::ImgV;
use crate::features::spec_rgb_channel;
use crate::grid::lemma_grid_index_bound;
use crate::grid::lemma_grid_index_roundtrip;
use crate::pixel::Rgba;
use crate::pixel::is_flat;
use crate::pixel::spec_is_flat;

verus! {

/// The column of the pixel whose color repaints suspect bands.
pub const REPLACEMENT_X: usize = 4;

/// The row of the replacement pixel.
pub const REPLACEMENT_Y: usize = 40;

/// How many levels the channels of a pixel may span and still count as
/// near-uniform for the rectangular pass.
pub const FLAT_BAND: u8 = 10;

/// The width of the strips the rectangular pass covers on the left and
/// right edges.
pub const SIDE_STRIP: usize = 55;

/// The height of the strips the rectangular pass covers on the top and
/// bottom edges.
pub const TOP_STRIP: usize = 40;

/// The width of the sliding window of the statistical pass.
pub const BAND_WINDOW: usize = 19;

/// A channel keeps its window untouched when its scaled squared deviation
/// exceeds this: the population standard deviation of the 19 samples (with
/// every deviation scaled by the window width) exceeds 9.  The window is
/// the whole population, so the same definition judges all three channels.
pub const SQDEV_CEIL: i64 = 81 * 361 * 19;

/// `p` repainted with the replacement color; its own alpha is kept.
pub open spec fn spec_repaint(p: Rgba, rep: Rgba) -> Rgba {
    Rgba { red: rep.red, green: rep.green, blue: rep.blue, alpha: p.alpha }
}

/// One rectangular pass: every near-uniform pixel inside the given strip
/// is repainted.
pub open spec fn spec_band_region(
    v: ImgV,
    rep: Rgba,
    x_lo: int,
    x_hi: int,
    y_lo: int,
    y_hi: int,
) -> ImgV {
    ImgV {
        width: v.width,
        height: v.height,
        data: Seq::new(v.data.len(), |i: int| {
            let x = i % v.width as int;
            let y = i / v.width as int;
            if x_lo <= x && x < x_hi && y_lo <= y && y < y_hi && spec_is_flat(v.data[i], FLAT_BAND) {
                spec_repaint(v.data[i], rep)
            } else {
                v.data[i]
            }
        }),
    }
}

/// The rectangular pass over all four border strips, left, right, bottom
/// and top in that order, each pass reading what the previous one wrote.
pub open spec fn spec_step4(v: ImgV) -> ImgV {
    let rep = v.pix(REPLACEMENT_X as int, REPLACEMENT_Y as int);
    let w = v.width as int;
    let h = v.height as int;
    let a = spec_band_region(v, rep, 0, SIDE_STRIP as int, 0, h);
    let b = spec_band_region(a, rep, w - SIDE_STRIP, w, 0, h);
    let c = spec_band_region(b, rep, 0, w, h - TOP_STRIP, h);
    spec_band_region(c, rep, 0, w, 0, TOP_STRIP as int)
}

/// Repaint every near-uniform pixel inside one strip.
fn apply_band_region(
    img: &ImageBuf,
    rep: Rgba,
    x_lo: usize,
    x_hi: usize,
    y_lo: usize,
    y_hi: usize,
) -> (r: ImageBuf)
    requires
        img@.wf(),
    ensures
        r@.wf(),
        r@ == spec_band_region(img@, rep, x_lo as int, x_hi as int, y_lo as int, y_hi as int),
{
    let ghost target = spec_band_region(
        img@,
        rep,
        x_lo as int,
        x_hi as int,
        y_lo as int,
        y_hi as int,
    );
    let total: usize = img.pixels.len();
    let mut pixels: Vec<Rgba> = Vec::new();
    let mut i: usize = 0;
    while i < total
        invariant
            i <= total,
            pixels@.len() == i,
            forall|j: int| 0 <= j < i ==> pixels@[j] == target.data[j],
        decreases total - i,
    {
        let p = img.pixels[i];
        let x: usize = i % img.width;
        let y: usize = i / img.width;
        if x_lo <= x && x < x_hi && y_lo <= y && y < y_hi && is_flat(&p, FLAT_BAND) {
            pixels.push(Rgba { red: rep.red, green: rep.green, blue: rep.blue, alpha: p.alpha });
        } else {
            pixels.push(p);
        }
        i = i + 1;
    }
    let out = ImageBuf { width: img.width, height: img.height, pixels };
    proof {
        assert(out@.data =~= target.data);
        assert(out@ =~= target);
    }
    out
}

/// Null out residual scanner bands in the four border strips: sample the
/// replacement color at the fixed interior coordinate, then repaint every
/// pixel of the left, right, bottom and top strips whose channels span at
/// most [`FLAT_BAND`] levels.
pub fn preprocessing_step_4(img: &ImageBuf) -> (r: ImageBuf)
    requires
        img@.wf(),
        img@.width >= SIDE_STRIP,
        img@.height >= TOP_STRIP + 1,
        img@.height >= REPLACEMENT_Y + 1,
    ensures
        r@.wf(),
        r@.width == img@.width,
        r@.height == img@.height,
        r@ == spec_step4(img@),
{
    let rep = img.get(REPLACEMENT_X, REPLACEMENT_Y);
    let a = apply_band_region(img, rep, 0, SIDE_STRIP, 0, img.height);
    let b = apply_band_region(&a, rep, img.width - SIDE_STRIP, img.width, 0, img.height);
    let c = apply_band_region(&b, rep, 0, img.width, img.height - TOP_STRIP, img.height);
    apply_band_region(&c, rep, 0, img.width, 0, TOP_STRIP)
}

/// The sum of channel `c` over the first `k` pixels of the window starting
/// at column `x0` of row `y`.
pub open spec fn spec_window_sum(v: ImgV, y: int, x0: int, k: int, c: int) -> int
    decreases k,
{
    if k <= 0 {
        0
    } else {
        spec_window_sum(v, y, x0, k - 1, c) + spec_rgb_channel(v.pix(x0 + k - 1, y), c)
    }
}

/// The sum over the first `k` pixels of the window of the squared deviation
/// of channel `c`, with every deviation scaled by the window width: each
/// term is `(19 value - total)^2` where `total` is the window's channel sum.
pub open spec fn spec_window_sqdev(v: ImgV, y: int, x0: int, k: int, c: int, total: int) -> int
    decreases k,
{
    if k <= 0 {
        0
    } else {
        let d = 19 * spec_rgb_channel(v.pix(x0 + k - 1, y), c) - total;
        spec_window_sqdev(v, y, x0, k - 1, c, total) + d * d
    }
}

/// Is the window at (`x0`, `y`) a low-variance band to repaint?  Every
/// channel's standard deviation must stay within the ceiling; near-white
/// and near-black runs are themselves low-variance, so they are repainted
/// too, and only windows with higher per-window color variance stay.
pub open spec fn spec_window_uniform(v: ImgV, y: int, x0: int) -> bool {
    let sr = spec_window_sum(v, y, x0, BAND_WINDOW as int, 0);
    let sg = spec_window_sum(v, y, x0, BAND_WINDOW as int, 1);
    let sb = spec_window_sum(v, y, x0, BAND_WINDOW as int, 2);
    &&& spec_window_sqdev(v, y, x0, BAND_WINDOW as int, 0, sr) <= SQDEV_CEIL
    &&& spec_window_sqdev(v, y, x0, BAND_WINDOW as int, 1, sg) <= SQDEV_CEIL
    &&& spec_window_sqdev(v, y, x0, BAND_WINDOW as int, 2, sb) <= SQDEV_CEIL
}

/// The window at (`x0`, `y`) repainted unconditionally.
pub open spec fn spec_repaint_window(v: ImgV, rep: Rgba, y: int, x0: int) -> ImgV {
    ImgV {
        width: v.width,
        height: v.height,
        data: Seq::new(v.data.len(), |i: int| {
            let x = i % v.width as int;
            let yy = i / v.width as int;
            if yy == y && x0 <= x && x < x0 + BAND_WINDOW {
                spec_repaint(v.data[i], rep)
            } else {
                v.data[i]
            }
        }),
    }
}

/// The window at (`x0`, `y`) repainted exactly when it is a low-variance
/// band.
pub open spec fn spec_apply_window(v: ImgV, rep: Rgba, y: int, x0: int) -> ImgV {
    if spec_window_uniform(v, y, x0) {
        spec_repaint_window(v, rep, y, x0)
    } else {
        v
    }
}

/// How many sliding windows one row holds.
pub open spec fn spec_window_count(width: nat) -> int {
    if width >= BAND_WINDOW {
        width - (BAND_WINDOW - 1)
    } else {
        0
    }
}

/// The first `n` windows of row `y` applied left to right, each reading
/// what the previous ones wrote.
pub open spec fn spec_row_pass(v: ImgV, rep: Rgba, y: int, n: int) -> ImgV
    decreases n,
{
    if n <= 0 {
        v
    } else {
        spec_apply_window(spec_row_pass(v, rep, y, n - 1), rep, y, n - 1)
    }
}

/// The first `n` rows fully processed, top to bottom.
pub open spec fn spec_rows_pass(v: ImgV, rep: Rgba, n: int, windows: int) -> ImgV
    decreases n,
{
    if n <= 0 {
        v
    } else {
        spec_row_pass(spec_rows_pass(v, rep, n - 1, windows), rep, n - 1, windows)
    }
}

/// The whole statistical pass as one function of the input image.
pub open spec fn spec_step3(v: ImgV) -> ImgV {
    spec_rows_pass(
        v,
        v.pix(REPLACEMENT_X as int, REPLACEMENT_Y as int),
        v.height as int,
        spec_window_count(v.width),
    )
}

/// The three channel sums of the window at (`x0`, `y`).
fn window_sums(img: &ImageBuf, y: usize, x0: usize) -> (r: (u32, u32, u32))
    requires
        img@.wf(),
        y < img@.height,
        x0 + BAND_WINDOW <= img@.width,
    ensures
        r.0 as int == spec_window_sum(img@, y as int, x0 as int, BAND_WINDOW as int, 0),
        r.1 as int == spec_window_sum(img@, y as int, x0 as int, BAND_WINDOW as int, 1),
        r.2 as int == spec_window_sum(img@, y as int, x0 as int, BAND_WINDOW as int, 2),
        r.0 <= 255 * BAND_WINDOW && r.1 <= 255 * BAND_WINDOW && r.2 <= 255 * BAND_WINDOW,
{
    let mut sr: u32 = 0;
    let mut sg: u32 = 0;
    let mut sb: u32 = 0;
    let mut k: usize = 0;
    while k < BAND_WINDOW
        invariant
            k <= BAND_WINDOW,
            sr as int == spec_window_sum(img@, y as int, x0 as int, k as int, 0),
            sg as int == spec_window_sum(img@, y as int, x0 as int, k as int, 1),
            sb as int == spec_window_sum(img@, y as int, x0 as int, k as int, 2),
            sr <= 255 * k && sg <= 255 * k && sb <= 255 * k,
        decreases BAND_WINDOW - k,
    {
        let p = img.get(x0 + k, y);
        sr = sr + p.red as u32;
        sg = sg + p.green as u32;
        sb = sb + p.blue as u32;
        k = k + 1;
    }
    (sr, sg, sb)
}

/// The three scaled squared-deviation sums of the window at (`x0`, `y`),
/// taken against the given channel totals.
fn window_sqdevs(img: &ImageBuf, y: usize, x0: usize, sr: u32, sg: u32, sb: u32) -> (r: (
    i64,
    i64,
    i64,
))
    requires
        img@.wf(),
        y < img@.height,
        x0 + BAND_WINDOW <= img@.width,
        sr <= 255 * BAND_WINDOW,
        sg <= 255 * BAND_WINDOW,
        sb <= 255 * BAND_WINDOW,
    ensures
        r.0 as int == spec_window_sqdev(img@, y as int, x0 as int, BAND_WINDOW as int, 0, sr as int),
        r.1 as int == spec_window_sqdev(img@, y as int, x0 as int, BAND_WINDOW as int, 1, sg as int),
        r.2 as int == spec_window_sqdev(img@, y as int, x0 as int, BAND_WINDOW as int, 2, sb as int),
{
    let mut dr: i64 = 0;
    let mut dg: i64 = 0;
    let mut db: i64 = 0;
    let mut k: usize = 0;
    while k < BAND_WINDOW
        invariant
            k <= BAND_WINDOW,
            dr as int == spec_window_sqdev(img@, y as int, x0 as int, k as int, 0, sr as int),
            dg as int == spec_window_sqdev(img@, y as int, x0 as int, k as int, 1, sg as int),
            db as int == spec_window_sqdev(img@, y as int, x0 as int, k as int, 2, sb as int),
            0 <= dr <= 23474025 * k && 0 <= dg <= 23474025 * k && 0 <= db <= 23474025 * k,
        decreases BAND_WINDOW - k,
    {
        let p = img.get(x0 + k, y);
        let ddr: i64 = 19 * (p.red as i64) - (sr as i64);
        let ddg: i64 = 19 * (p.green as i64) - (sg as i64);
        let ddb: i64 = 19 * (p.blue as i64) - (sb as i64);
        proof {
            assert(ddr * ddr <= 23474025 && ddg * ddg <= 23474025 && ddb * ddb <= 23474025)
                by (nonlinear_arith)
                requires
                    -4845 <= ddr <= 4845,
                    -4845 <= ddg <= 4845,
                    -4845 <= ddb <= 4845,
            ;
            assert(0 <= ddr * ddr && 0 <= ddg * ddg && 0 <= ddb * ddb) by (nonlinear_arith);
        }
        dr = dr + ddr * ddr;
        dg = dg + ddg * ddg;
        db = db + ddb * ddb;
        k = k + 1;
    }
    (dr, dg, db)
}

/// Decide whether the window at (`x0`, `y`) is a low-variance band.
fn window_uniform(img: &ImageBuf, y: usize, x0: usize) -> (r: bool)
    requires
        img@.wf(),
        y < img@.height,
        x0 + BAND_WINDOW <= img@.width,
    ensures
        r == spec_window_uniform(img@, y as int, x0 as int),
{
    let (sr, sg, sb) = window_sums(img, y, x0);
    let (dr, dg, db) = window_sqdevs(img, y, x0, sr, sg, sb);
    dr <= SQDEV_CEIL && dg <= SQDEV_CEIL && db <= SQDEV_CEIL
}

/// Repaint the window at (`x0`, `y`) with the replacement color.
fn repaint_window(img: &mut ImageBuf, rep: Rgba, y: usize, x0: usize)
    requires
        old(img)@.wf(),
        y < old(img)@.height,
        x0 + BAND_WINDOW <= old(img)@.width,
    ensures
        final(img)@.wf(),
        final(img)@ == spec_repaint_window(old(img)@, rep, y as int, x0 as int),
{
    let ghost orig = img@;
    let mut k: usize = 0;
    while k < BAND_WINDOW
        invariant
            k <= BAND_WINDOW,
            img@.wf(),
            img@.width == orig.width,
            img@.height == orig.height,
            forall|i: int| 0 <= i < orig.data.len() ==> img@.data[i] == ({
                let x = i % orig.width as int;
                let yy = i / orig.width as int;
                if yy == y && x0 <= x && x < x0 + k {
                    spec_repaint(orig.data[i], rep)
                } else {
                    orig.data[i]
                }
            }),
        decreases BAND_WINDOW - k,
    {
        let keep = img.get(x0 + k, y);
        proof {
            lemma_grid_index_bound(x0 as int + k, y as int, orig.width as int, orig.height as int);
            lemma_grid_index_roundtrip(x0 as int + k, y as int, orig.width as int);
        }
        img.set(x0 + k, y, Rgba { red: rep.red, green: rep.green, blue: rep.blue, alpha: keep.alpha });
        proof {
            assert forall|i: int| 0 <= i < orig.data.len() implies img@.data[i] == ({
                let x = i % orig.width as int;
                let yy = i / orig.width as int;
                if yy == y && x0 <= x && x < x0 + k + 1 {
                    spec_repaint(orig.data[i], rep)
                } else {
                    orig.data[i]
                }
            }) by {
                crate::grid::lemma_grid_index_split(i, orig.width as int);
            }
        }
        k = k + 1;
    }
    proof {
        assert(img@.data =~= spec_repaint_window(orig, rep, y as int, x0 as int).data);
        assert(img@ =~= spec_repaint_window(orig, rep, y as int, x0 as int));
    }
}

/// Null out residual bands with a sliding statistical window: walk every
/// row with a 19-column window and repaint each window whose channel
/// deviations stay within the ceiling — near-white runs, near-black runs
/// and flat color bands alike.  Overlapping windows read what earlier
/// repaints wrote, as the windows slide one column at a time.
pub fn preprocessing_step_3(img: ImageBuf) -> (r: ImageBuf)
    requires
        img@.wf(),
        img@.width >= REPLACEMENT_X + 1,
        img@.height >= REPLACEMENT_Y + 1,
    ensures
        r@.wf(),
        r@.width == img@.width,
        r@.height == img@.height,
        r@ == spec_step3(img@),
{
    let mut buf = img;
    let ghost orig = buf@;
    let rep = buf.get(REPLACEMENT_X, REPLACEMENT_Y);
    let windows: usize = if buf.width >= BAND_WINDOW {
        buf.width - (BAND_WINDOW - 1)
    } else {
        0
    };
    let height: usize = buf.height;
    let mut y: usize = 0;
    while y < height
        invariant
            y <= orig.height,
            buf@.wf(),
            buf@.width == orig.width,
            buf@.height == orig.height,
            windows as int == spec_window_count(orig.width),
            buf@ == spec_rows_pass(orig, rep, y as int, windows as int),
        decreases height - y,
    {
        let ghost row_start = buf@;
        let mut x0: usize = 0;
        while x0 < windows
            invariant
                x0 <= windows,
                y < orig.height,
                buf@.wf(),
                buf@.width == orig.width,
                buf@.height == orig.height,
                windows as int == spec_window_count(orig.width),
                row_start == spec_rows_pass(orig, rep, y as int, windows as int),
                buf@ == spec_row_pass(row_start, rep, y as int, x0 as int),
            decreases windows - x0,
        {
            if window_uniform(&buf, y, x0) {
                repaint_window(&mut buf, rep, y, x0);
            }
            proof {
                assert(spec_row_pass(row_start, rep, y as int, x0 as int + 1)
                    == spec_apply_window(
                        spec_row_pass(row_start, rep, y as int, x0 as int),
                        rep,
                        y as int,
                        x0 as int,
                    ));
            }
            x0 = x0 + 1;
        }
        proof {
            assert(spec_rows_pass(orig, rep, y as int + 1, windows as int)
                == spec_row_pass(
                    spec_rows_pass(orig, rep, y as int, windows as int),
                    rep,
                    y as int,
                    windows as int,
                ));
        }
        y = y + 1;
    }
    buf
}

} // verus!
