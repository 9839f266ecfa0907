//! Feature-vector extraction and dataset assembly.
//!
//! A feature value is one 8-bit intensity; consumers divide by 255 to land
//! in the unit interval.  Scan order is fixed: the outer loop walks the
//! columns left to right, the inner loop each column top to bottom.

#![verifier::loop_isolation(false)]

use vstd::prelude::*;
use crate::buffer::GrayBuf;
use crate::buffer::GrayV;
use crate::buffer::ImageBuf;
use crate::buffer::ImgV;
use crate::error::PipelineError;
use crate::grid::lemma_grid_index_bound;
use crate::grid::lemma_flat_index_coords;
use crate::grid::lemma_grid_index_roundtrip;
use crate::grid::lemma_mul_comm;
use crate::grid::lemma_row_step;
use crate::grid::lemma_scale_assoc;
use crate::normalize::DetectedMarginConfig;
use crate::normalize::FixedMarginConfig;
use crate::normalize::CUTOFF_SIDE_MARGIN;
use crate::normalize::normalize_fixed_margin;
use crate::normalize::preprocessing_step_1;
use crate::normalize::preprocessing_step_2;
use crate::normalize::spec_normalize_fixed;
use crate::normalize::spec_step1;
use crate::normalize::spec_step2;
use crate::ops::rotate90;
use crate::ops::rotate180;
use crate::ops::rotate270;
use crate::ops::spec_rotate90;
use crate::ops::spec_rotate180;
use crate::ops::spec_rotate270;
use crate::pixel::Rgba;
use crate::pixel::is_bright;
use crate::pixel::spec_is_bright;
use crate::resample::ResampleFilter;
use crate::resample::grayscale_image;
use crate::resample::resize_image;
use crate::resample::spec_grayscale;
use crate::resample::spec_resize;

verus! {

/// The channel `c` (red, green or blue) of a pixel.
pub open spec fn spec_rgb_channel(p: Rgba, c: int) -> u8 {
    if c == 0 {
        p.red
    } else if c == 1 {
        p.green
    } else {
        p.blue
    }
}

/// The dense RGB feature sequence of an image: three channel values per
/// pixel, pixels in column-major order.
pub open spec fn spec_scan_rgb(v: ImgV) -> Seq<u8> {
    Seq::new(3 * (v.width * v.height), |k: int|
        spec_rgb_channel(v.pix((k / 3) / v.height as int, (k / 3) % v.height as int), k % 3))
}

/// The thresholded RGB feature sequence: as [`spec_scan_rgb`], but a pixel
/// writes its channels only when all three exceed `floor`; the slots of the
/// other pixels keep their pre-allocated zero.
pub open spec fn spec_scan_rgb_thresholded(v: ImgV, floor: u8) -> Seq<u8> {
    Seq::new(3 * (v.width * v.height), |k: int|
        if spec_is_bright(v.pix((k / 3) / v.height as int, (k / 3) % v.height as int), floor) {
            spec_rgb_channel(v.pix((k / 3) / v.height as int, (k / 3) % v.height as int), k % 3)
        } else {
            0u8
        })
}

/// The grayscale feature sequence of an image: one intensity per pixel,
/// pixels in column-major order.
pub open spec fn spec_scan_gray(g: GrayV) -> Seq<u8> {
    Seq::new(g.width * g.height, |p: int| g.pix(p / g.height as int, p % g.height as int))
}

/// Extract the dense RGB feature vector of `img`: the red, green and blue
/// channels of every pixel, columns outermost.  The length is exactly
/// three values per pixel whatever the image holds.
pub fn extract_rgb_features(img: &ImageBuf) -> (r: Vec<u8>)
    requires
        img@.wf(),
    ensures
        r@.len() == 3 * (img@.width * img@.height),
        r@ == spec_scan_rgb(img@),
{
    proof {
        lemma_scale_assoc(4, img@.width as int, img@.height as int);
    }
    let mut out: Vec<u8> = Vec::new();
    let mut x: usize = 0;
    while x < img.width
        invariant
            x <= img@.width,
            out@.len() == 3 * (x * img@.height),
            forall|j: int| 0 <= j < out@.len() ==> out@[j] == spec_scan_rgb(img@)[j],
        decreases img@.width - x,
    {
        let mut y: usize = 0;
        while y < img.height
            invariant
                x < img@.width,
                y <= img@.height,
                out@.len() == 3 * (x * img@.height + y),
                forall|j: int| 0 <= j < out@.len() ==> out@[j] == spec_scan_rgb(img@)[j],
            decreases img@.height - y,
        {
            let p = img.get(x, y);
            proof {
                lemma_mul_comm(img@.height as int, img@.width as int);
                lemma_grid_index_bound(y as int, x as int, img@.height as int, img@.width as int);
                lemma_grid_index_roundtrip(y as int, x as int, img@.height as int);
                lemma_grid_index_roundtrip(0, x as int * img@.height as int + y, 3);
                lemma_grid_index_roundtrip(1, x as int * img@.height as int + y, 3);
                lemma_grid_index_roundtrip(2, x as int * img@.height as int + y, 3);
            }
            out.push(p.red);
            out.push(p.green);
            out.push(p.blue);
            y = y + 1;
        }
        proof {
            lemma_row_step(x as int, img@.height as int);
        }
        x = x + 1;
    }
    proof {
        lemma_scale_assoc(3, img@.width as int, img@.height as int);
        assert(out@ =~= spec_scan_rgb(img@));
    }
    out
}

/// Extract the thresholded RGB feature vector of `img`: a pixel writes its
/// channels only when all three exceed `floor`, so near-black pixels leave
/// their three slots at zero.  The length is exactly three values per pixel.
pub fn extract_rgb_features_thresholded(img: &ImageBuf, floor: u8) -> (r: Vec<u8>)
    requires
        img@.wf(),
    ensures
        r@.len() == 3 * (img@.width * img@.height),
        r@ == spec_scan_rgb_thresholded(img@, floor),
{
    proof {
        lemma_scale_assoc(4, img@.width as int, img@.height as int);
    }
    let mut out: Vec<u8> = Vec::new();
    let mut x: usize = 0;
    while x < img.width
        invariant
            x <= img@.width,
            out@.len() == 3 * (x * img@.height),
            forall|j: int| 0 <= j < out@.len() ==> out@[j] == spec_scan_rgb_thresholded(img@, floor)[j],
        decreases img@.width - x,
    {
        let mut y: usize = 0;
        while y < img.height
            invariant
                x < img@.width,
                y <= img@.height,
                out@.len() == 3 * (x * img@.height + y),
                forall|j: int| 0 <= j < out@.len() ==> out@[j] == spec_scan_rgb_thresholded(img@, floor)[j],
            decreases img@.height - y,
        {
            let p = img.get(x, y);
            proof {
                lemma_mul_comm(img@.height as int, img@.width as int);
                lemma_grid_index_bound(y as int, x as int, img@.height as int, img@.width as int);
                lemma_grid_index_roundtrip(y as int, x as int, img@.height as int);
                lemma_grid_index_roundtrip(0, x as int * img@.height as int + y, 3);
                lemma_grid_index_roundtrip(1, x as int * img@.height as int + y, 3);
                lemma_grid_index_roundtrip(2, x as int * img@.height as int + y, 3);
            }
            if is_bright(&p, floor) {
                out.push(p.red);
                out.push(p.green);
                out.push(p.blue);
            } else {
                out.push(0);
                out.push(0);
                out.push(0);
            }
            y = y + 1;
        }
        proof {
            lemma_row_step(x as int, img@.height as int);
        }
        x = x + 1;
    }
    proof {
        lemma_scale_assoc(3, img@.width as int, img@.height as int);
        assert(out@ =~= spec_scan_rgb_thresholded(img@, floor));
    }
    out
}

/// Extract the grayscale feature vector of `img`: one intensity per pixel,
/// columns outermost.  The length is exactly one value per pixel.
pub fn extract_gray_features(img: &GrayBuf) -> (r: Vec<u8>)
    requires
        img@.wf(),
    ensures
        r@.len() == img@.width * img@.height,
        r@ == spec_scan_gray(img@),
{
    let mut out: Vec<u8> = Vec::new();
    let mut x: usize = 0;
    while x < img.width
        invariant
            x <= img@.width,
            out@.len() == x * img@.height,
            forall|j: int| 0 <= j < out@.len() ==> out@[j] == spec_scan_gray(img@)[j],
        decreases img@.width - x,
    {
        let mut y: usize = 0;
        while y < img.height
            invariant
                x < img@.width,
                y <= img@.height,
                out@.len() == x * img@.height + y,
                forall|j: int| 0 <= j < out@.len() ==> out@[j] == spec_scan_gray(img@)[j],
            decreases img@.height - y,
        {
            let p = img.get(x, y);
            proof {
                lemma_mul_comm(img@.height as int, img@.width as int);
                lemma_grid_index_bound(y as int, x as int, img@.height as int, img@.width as int);
                lemma_grid_index_roundtrip(y as int, x as int, img@.height as int);
            }
            out.push(p);
            y = y + 1;
        }
        proof {
            lemma_row_step(x as int, img@.height as int);
        }
        x = x + 1;
    }
    proof {
        lemma_mul_comm(img@.width as int, img@.height as int);
        assert(out@ =~= spec_scan_gray(img@));
    }
    out
}

/// Extract four grayscale feature vectors from one image: the image as it
/// stands, then the same image turned by a quarter, a half and three
/// quarters, each scanned identically.
pub fn augmented_gray_features(img: &GrayBuf) -> (r: Vec<Vec<u8>>)
    requires
        img@.wf(),
    ensures
        r@.len() == 4,
        r@[0]@ == spec_scan_gray(img@),
        r@[1]@ == spec_scan_gray(spec_rotate90(img@)),
        r@[2]@ == spec_scan_gray(spec_rotate180(img@)),
        r@[3]@ == spec_scan_gray(spec_rotate270(img@)),
{
    let base = extract_gray_features(img);
    let quarter = rotate90(img);
    let quarter_row = extract_gray_features(&quarter);
    let half = rotate180(img);
    let half_row = extract_gray_features(&half);
    let three_quarters = rotate270(img);
    let three_quarters_row = extract_gray_features(&three_quarters);
    let mut out: Vec<Vec<u8>> = Vec::new();
    out.push(base);
    out.push(quarter_row);
    out.push(half_row);
    out.push(three_quarters_row);
    out
}

/// A dataset under assembly: one label per feature row, every row of one
/// length.
pub struct Dataset {
    pub rows: Vec<Vec<u8>>,
    pub labels: Vec<i32>,
    pub row_len: usize,
}

impl Dataset {
    /// Rows and labels stay in step and every row has the fixed length.
    pub open spec fn wf(&self) -> bool {
        &&& self.rows@.len() == self.labels@.len()
        &&& forall|i: int| 0 <= i < self.rows@.len() ==> self.rows@[i]@.len() == self.row_len
    }

    /// An empty dataset whose rows will have length `row_len`.
    pub fn new(row_len: usize) -> (r: Dataset)
        ensures
            r.wf(),
            r.rows@.len() == 0,
            r.labels@.len() == 0,
            r.row_len == row_len,
    {
        Dataset { rows: Vec::new(), labels: Vec::new(), row_len }
    }

    /// How many rows the dataset holds.
    pub fn len(&self) -> (r: usize)
        ensures
            r == self.rows@.len(),
    {
        self.rows.len()
    }

    /// Append one feature row with its label.  Fails, leaving the dataset
    /// unchanged, exactly when the row's length differs from the dataset's.
    pub fn push_row(&mut self, row: Vec<u8>, label: i32) -> (r: Result<(), PipelineError>)
        requires
            old(self).wf(),
        ensures
            final(self).wf(),
            final(self).row_len == old(self).row_len,
            r is Ok <==> row@.len() == old(self).row_len,
            r is Ok ==> final(self).rows@ == old(self).rows@.push(row)
                && final(self).labels@ == old(self).labels@.push(label),
            r is Err ==> *final(self) == *old(self) && r->Err_0 == PipelineError::DimensionMismatch,
    {
        if row.len() != self.row_len {
            return Err(PipelineError::DimensionMismatch);
        }
        self.rows.push(row);
        self.labels.push(label);
        Ok(())
    }

    /// Append a batch of feature rows sharing one label, replicating the
    /// label once per row.  Fails, leaving the dataset unchanged, exactly
    /// when some row's length differs from the dataset's.
    pub fn push_augmented(&mut self, batch: Vec<Vec<u8>>, label: i32) -> (r: Result<
        (),
        PipelineError,
    >)
        requires
            old(self).wf(),
        ensures
            final(self).wf(),
            final(self).row_len == old(self).row_len,
            r is Ok <==> (forall|i: int| 0 <= i < batch@.len() ==> batch@[i]@.len() == old(
                self,
            ).row_len),
            r is Ok ==> final(self).rows@ == old(self).rows@ + batch@
                && final(self).labels@ == old(self).labels@ + Seq::new(batch@.len(), |i: int| label),
            r is Err ==> *final(self) == *old(self) && r->Err_0 == PipelineError::DimensionMismatch,
    {
        let mut i: usize = 0;
        while i < batch.len()
            invariant
                i <= batch@.len(),
                forall|j: int| 0 <= j < i ==> batch@[j]@.len() == old(self).row_len,
                self == old(self),
            decreases batch@.len() - i,
        {
            if batch[i].len() != self.row_len {
                return Err(PipelineError::DimensionMismatch);
            }
            i = i + 1;
        }
        let mut batch = batch;
        let ghost batch_snapshot = batch@;
        let ghost rows0 = self.rows@;
        let ghost labels0 = self.labels@;
        let mut taken: usize = 0;
        while batch.len() > 0
            invariant
                taken + batch@.len() == batch_snapshot.len(),
                batch@ == batch_snapshot.skip(taken as int),
                self.rows@ == rows0 + batch_snapshot.take(taken as int),
                self.labels@ == labels0 + Seq::new(taken as nat, |i: int| label),
                self.row_len == old(self).row_len,
                forall|i: int| 0 <= i < batch_snapshot.len() ==> batch_snapshot[i]@.len() == old(
                    self,
                ).row_len,
            decreases batch@.len(),
        {
            let row = batch.remove(0);
            self.rows.push(row);
            self.labels.push(label);
            proof {
                assert(batch@ =~= batch_snapshot.skip(taken as int + 1));
                assert(self.rows@ =~= rows0 + batch_snapshot.take(taken as int + 1));
                assert(self.labels@ =~= labels0 + Seq::new(taken as nat + 1, |i: int| label));
            }
            taken = taken + 1;
        }
        proof {
            assert(batch_snapshot.take(taken as int) =~= batch_snapshot);
            assert(self.rows@ =~= rows0 + batch_snapshot);
        }
        Ok(())
    }
}

/// The sparse RGB feature entries of the pixels from `p` on: for each pixel
/// whose channels all exceed `floor`, its three dense slots paired with
/// their values, in scan order.
pub open spec fn spec_sparse_from(v: ImgV, floor: u8, p: int) -> Seq<(usize, u8)>
    decreases v.width * v.height - p,
{
    if p < 0 || p >= v.width * v.height {
        Seq::empty()
    } else {
        let px = v.pix(p / v.height as int, p % v.height as int);
        let rest = spec_sparse_from(v, floor, p + 1);
        if spec_is_bright(px, floor) {
            seq![
                ((3 * p) as usize, px.red),
                ((3 * p + 1) as usize, px.green),
                ((3 * p + 2) as usize, px.blue),
            ] + rest
        } else {
            rest
        }
    }
}

/// The sparse RGB feature entries of an image: exactly the slots that
/// [`spec_scan_rgb_thresholded`] fills with a channel value, each paired
/// with that value.
pub open spec fn spec_sparse_rgb(v: ImgV, floor: u8) -> Seq<(usize, u8)> {
    spec_sparse_from(v, floor, 0)
}

/// Extract the sparse RGB feature entries of `img`: one `(slot, value)`
/// pair per written channel of [`extract_rgb_features_thresholded`], in
/// scan order; near-black pixels contribute no entry.
pub fn sparse_rgb_entries(img: &ImageBuf, floor: u8) -> (r: Vec<(usize, u8)>)
    requires
        img@.wf(),
    ensures
        r@ == spec_sparse_rgb(img@, floor),
{
    proof {
        lemma_scale_assoc(4, img@.width as int, img@.height as int);
        lemma_mul_comm(img@.width as int, img@.height as int);
    }
    let total: usize = img.pixels.len();
    let mut out: Vec<(usize, u8)> = Vec::new();
    let mut p: usize = 0;
    while p < total
        invariant
            p <= total,
            total == img@.width * img@.height,
            3 * total <= usize::MAX,
            spec_sparse_rgb(img@, floor) =~= out@ + spec_sparse_from(img@, floor, p as int),
        decreases total - p,
    {
        proof {
            lemma_flat_index_coords(p as int, img@.width as int, img@.height as int);
        }
        let x: usize = p / img.height;
        let y: usize = p % img.height;
        let px = img.get(x, y);
        if is_bright(&px, floor) {
            out.push((3 * p, px.red));
            out.push((3 * p + 1, px.green));
            out.push((3 * p + 2, px.blue));
        }
        proof {
            assert(out@ + spec_sparse_from(img@, floor, p as int + 1)
                =~= spec_sparse_rgb(img@, floor));
        }
        p = p + 1;
    }
    proof {
        assert(out@ =~= spec_sparse_rgb(img@, floor));
    }
    out
}

/// Does slot `k` of the dense scan belong to a pixel whose channels all
/// exceed `floor`?
pub open spec fn spec_slot_pixel_bright(v: ImgV, floor: u8, k: int) -> bool {
    spec_is_bright(v.pix((k / 3) / v.height as int, (k / 3) % v.height as int), floor)
}

/// Entries of the sparse tail from pixel `p` on: each names a slot at or
/// past `3 p`, reads back the thresholded dense value there, and the slots
/// strictly increase; and every bright pixel from `p` on has its three
/// slots present.
proof fn lemma_sparse_from_matches(v: ImgV, floor: u8, p: int)
    requires
        v.wf(),
        0 <= p,
    ensures
        forall|j: int| 0 <= j < spec_sparse_from(v, floor, p).len() ==> {
            &&& 3 * p <= (#[trigger] spec_sparse_from(v, floor, p)[j]).0 < 3 * (v.width
                * v.height)
            &&& spec_scan_rgb_thresholded(v, floor)[spec_sparse_from(v, floor, p)[j].0 as int]
                == spec_sparse_from(v, floor, p)[j].1
        },
        forall|j1: int, j2: int|
            0 <= j1 < j2 < spec_sparse_from(v, floor, p).len() ==> (#[trigger] spec_sparse_from(
                v,
                floor,
                p,
            )[j1]).0 < (#[trigger] spec_sparse_from(v, floor, p)[j2]).0,
        forall|k: int|
            3 * p <= k < 3 * (v.width * v.height) && #[trigger] spec_slot_pixel_bright(
                v,
                floor,
                k,
            ) ==> exists|j: int|
                0 <= j < spec_sparse_from(v, floor, p).len() && #[trigger] spec_sparse_from(
                    v,
                    floor,
                    p,
                )[j].0 == k,
    decreases v.width * v.height - p,
{
    lemma_scale_assoc(4, v.width as int, v.height as int);
    lemma_scale_assoc(3, v.width as int, v.height as int);
    if p >= v.width * v.height {
    } else {
        lemma_sparse_from_matches(v, floor, p + 1);
        lemma_flat_index_coords(p, v.width as int, v.height as int);
        let px = v.pix(p / v.height as int, p % v.height as int);
        let rest = spec_sparse_from(v, floor, p + 1);
        lemma_grid_index_roundtrip(0, p, 3);
        lemma_grid_index_roundtrip(1, p, 3);
        lemma_grid_index_roundtrip(2, p, 3);
        if spec_is_bright(px, floor) {
            let whole = spec_sparse_from(v, floor, p);
            assert(whole.len() == 3 + rest.len());
            assert(whole[0].0 == 3 * p && whole[1].0 == 3 * p + 1 && whole[2].0 == 3 * p + 2);
            assert forall|k: int|
                3 * p <= k < 3 * (v.width * v.height) && #[trigger] spec_slot_pixel_bright(
                    v,
                    floor,
                    k,
                ) implies exists|j: int| 0 <= j < whole.len() && #[trigger] whole[j].0 == k by {
                lemma_grid_index_roundtrip(k % 3, k / 3, 3);
                if k == 3 * p {
                    assert(whole[0].0 == k);
                } else if k == 3 * p + 1 {
                    assert(whole[1].0 == k);
                } else if k == 3 * p + 2 {
                    assert(whole[2].0 == k);
                } else {
                    let j0 = choose|j: int| 0 <= j < rest.len() && #[trigger] rest[j].0 == k;
                    assert(whole[j0 + 3].0 == k);
                }
            }
        } else {
            assert forall|k: int|
                3 * p <= k < 3 * (v.width * v.height) && #[trigger] spec_slot_pixel_bright(
                    v,
                    floor,
                    k,
                ) implies exists|j: int|
                    0 <= j < spec_sparse_from(v, floor, p).len() && #[trigger] spec_sparse_from(
                        v,
                        floor,
                        p,
                    )[j].0 == k by {
                if 3 * p <= k < 3 * p + 3 {
                    assert((k / 3) == p);
                } else {
                    let j0 = choose|j: int| 0 <= j < rest.len() && #[trigger] rest[j].0 == k;
                    assert(spec_sparse_from(v, floor, p)[j0].0 == k);
                }
            }
        }
    }
}

/// The sparse entries are the thresholded dense vector exactly: each entry
/// reads back the value at its slot, the slots strictly increase, and a
/// bright pixel's three slots are always present.
pub proof fn lemma_sparse_matches_dense(v: ImgV, floor: u8)
    requires
        v.wf(),
    ensures
        forall|j: int| 0 <= j < spec_sparse_rgb(v, floor).len() ==> {
            &&& (#[trigger] spec_sparse_rgb(v, floor)[j]).0 < 3 * (v.width * v.height)
            &&& spec_scan_rgb_thresholded(v, floor)[spec_sparse_rgb(v, floor)[j].0 as int]
                == spec_sparse_rgb(v, floor)[j].1
        },
        forall|j1: int, j2: int|
            0 <= j1 < j2 < spec_sparse_rgb(v, floor).len() ==> (#[trigger] spec_sparse_rgb(
                v,
                floor,
            )[j1]).0 < (#[trigger] spec_sparse_rgb(v, floor)[j2]).0,
        forall|k: int|
            0 <= k < 3 * (v.width * v.height) && #[trigger] spec_slot_pixel_bright(
                v,
                floor,
                k,
            ) ==> exists|j: int|
                0 <= j < spec_sparse_rgb(v, floor).len() && #[trigger] spec_sparse_rgb(
                    v,
                    floor,
                )[j].0 == k,
{
    lemma_sparse_from_matches(v, floor, 0);
    assert forall|k: int|
        0 <= k < 3 * (v.width * v.height) && #[trigger] spec_slot_pixel_bright(
            v,
            floor,
            k,
        ) implies exists|j: int|
            0 <= j < spec_sparse_rgb(v, floor).len() && #[trigger] spec_sparse_rgb(
                v,
                floor,
            )[j].0 == k by {
        let j0 = choose|j: int|
            0 <= j < spec_sparse_from(v, floor, 0).len() && #[trigger] spec_sparse_from(
                v,
                floor,
                0,
            )[j].0 == k;
        assert(spec_sparse_rgb(v, floor)[j0].0 == k);
    }
}

/// Normalize an image with constant margins and extract its dense RGB
/// feature vector: the per-image path of training-data assembly.
pub fn normalize_and_extract_rgb(img: &ImageBuf, cfg: &FixedMarginConfig) -> (r: Result<
    Vec<u8>,
    PipelineError,
>)
    requires
        img@.wf(),
        cfg.target_width <= 0xffff_ffff,
        cfg.target_height <= 0xffff_ffff,
        4 * cfg.target_width * cfg.target_height <= usize::MAX,
        4 * img@.width * cfg.target_height <= usize::MAX,
    ensures
        r is Ok <==> spec_normalize_fixed(img@, *cfg) is Ok,
        r is Ok ==> r->Ok_0@ == spec_scan_rgb(spec_normalize_fixed(img@, *cfg)->Ok_0)
            && r->Ok_0@.len() == 3 * (cfg.target_width * cfg.target_height),
        r is Err ==> r->Err_0 == PipelineError::Geometry,
{
    let normalized = match normalize_fixed_margin(img, cfg) {
        Ok(v) => v,
        Err(e) => {
            return Err(e);
        },
    };
    Ok(extract_rgb_features(&normalized))
}

/// Normalize an image with constant margins and extract its thresholded
/// RGB feature vector: the per-image path of test-data assembly, where
/// near-black pixels leave their slots at zero.
pub fn normalize_and_extract_rgb_thresholded(
    img: &ImageBuf,
    cfg: &FixedMarginConfig,
    floor: u8,
) -> (r: Result<Vec<u8>, PipelineError>)
    requires
        img@.wf(),
        cfg.target_width <= 0xffff_ffff,
        cfg.target_height <= 0xffff_ffff,
        4 * cfg.target_width * cfg.target_height <= usize::MAX,
        4 * img@.width * cfg.target_height <= usize::MAX,
    ensures
        r is Ok <==> spec_normalize_fixed(img@, *cfg) is Ok,
        r is Ok ==> r->Ok_0@ == spec_scan_rgb_thresholded(
            spec_normalize_fixed(img@, *cfg)->Ok_0,
            floor,
        ) && r->Ok_0@.len() == 3 * (cfg.target_width * cfg.target_height),
        r is Err ==> r->Err_0 == PipelineError::Geometry,
{
    let normalized = match normalize_fixed_margin(img, cfg) {
        Ok(v) => v,
        Err(e) => {
            return Err(e);
        },
    };
    Ok(extract_rgb_features_thresholded(&normalized, floor))
}

/// The grayscale image that training-data assembly extracts its four
/// feature rows from: the detected-margin pipeline, the secondary cutoff,
/// a Catmull-Rom resize to `width` by `height`, then grayscale conversion.
pub open spec fn spec_train_gray(v: ImgV, cfg: DetectedMarginConfig, width: int, height: int)
    -> Result<GrayV, PipelineError> {
    match spec_step1(v, cfg) {
        Err(e) => Err(e),
        Ok(s1) => match spec_step2(s1) {
            Err(e) => Err(e),
            Ok(s2) => if width >= 1 && height >= 1 {
                Ok(spec_grayscale(spec_resize(s2, width, height, ResampleFilter::CatmullRom)))
            } else {
                Err(PipelineError::Geometry)
            },
        },
    }
}

/// Turn one training image into its four augmented grayscale feature rows:
/// strip the detected border, cut at the secondary line, resize to `width`
/// by `height` with the Catmull-Rom filter, convert to grayscale, and scan
/// the result and its three rotations.
pub fn train_image_features(
    img: &ImageBuf,
    cfg: &DetectedMarginConfig,
    width: usize,
    height: usize,
) -> (r: Result<Vec<Vec<u8>>, PipelineError>)
    requires
        img@.wf(),
        cfg.target_width <= 0xffff_ffff,
        cfg.target_height <= 0xffff_ffff,
        4 * cfg.target_width * cfg.target_height <= usize::MAX,
        cfg.target_width >= CUTOFF_SIDE_MARGIN,
        4 * img@.width * cfg.target_height <= usize::MAX,
        width <= 0xffff_ffff,
        height <= 0xffff_ffff,
        4 * width * height <= usize::MAX,
        4 * cfg.target_width * height <= usize::MAX,
    ensures
        r is Ok <==> spec_train_gray(img@, *cfg, width as int, height as int) is Ok,
        r is Ok ==> {
            let g = spec_train_gray(img@, *cfg, width as int, height as int)->Ok_0;
            &&& r->Ok_0@.len() == 4
            &&& r->Ok_0@[0]@ == spec_scan_gray(g)
            &&& r->Ok_0@[1]@ == spec_scan_gray(spec_rotate90(g))
            &&& r->Ok_0@[2]@ == spec_scan_gray(spec_rotate180(g))
            &&& r->Ok_0@[3]@ == spec_scan_gray(spec_rotate270(g))
            &&& forall|i: int| 0 <= i < 4 ==> r->Ok_0@[i]@.len() == width * height
        },
        r is Err ==> r->Err_0 == spec_train_gray(img@, *cfg, width as int, height as int)->Err_0,
{
    let stripped = match preprocessing_step_1(img, cfg) {
        Ok(v) => v,
        Err(e) => {
            return Err(e);
        },
    };
    let cut = match preprocessing_step_2(&stripped) {
        Ok(v) => v,
        Err(e) => {
            proof {
                assert(false);
            }
            return Err(e);
        },
    };
    let resized = match resize_image(&cut, width, height, ResampleFilter::CatmullRom) {
        Ok(v) => v,
        Err(e) => {
            return Err(e);
        },
    };
    let gray = grayscale_image(&resized);
    proof {
        lemma_mul_comm(width as int, height as int);
    }
    Ok(augmented_gray_features(&gray))
}

} // verus!
