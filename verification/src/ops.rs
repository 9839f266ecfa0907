//! Verified geometric and per-pixel transforms: crop, invert, brighten,
//! flips and right-angle rotations.

#![verifier::loop_isolation(false)]

use vstd::prelude::*;
use crate::buffer::GrayBuf;
use crate::buffer::GrayV;
use crate::buffer::ImageBuf;
use crate::buffer::ImgV;
use crate::error::PipelineError;
use crate::grid::lemma_grid_index_bound;
use crate::grid::lemma_grid_index_roundtrip;
use crate::grid::lemma_mul_comm;
use crate::grid::lemma_row_step;
use crate::grid::lemma_mul_le;
use crate::grid::lemma_scale_assoc;
use crate::pixel::Rgba;

verus! {

/// A pixel with each color channel replaced by its distance from full
/// intensity; the alpha channel is kept.
pub open spec fn spec_invert_pixel(p: Rgba) -> Rgba {
    Rgba {
        red: (255 - p.red) as u8,
        green: (255 - p.green) as u8,
        blue: (255 - p.blue) as u8,
        alpha: p.alpha,
    }
}

/// Color inversion of a whole image.
pub open spec fn spec_invert(v: ImgV) -> ImgV {
    ImgV { width: v.width, height: v.height, data: v.data.map_values(|p: Rgba| spec_invert_pixel(p)) }
}

/// An intensity shifted by `delta` and clamped to the 8-bit range.
pub open spec fn spec_clamp_channel(x: int) -> u8 {
    if x < 0 {
        0
    } else if x > 255 {
        255
    } else {
        x as u8
    }
}

/// A pixel with each color channel shifted by `delta` and clamped; the alpha
/// channel is kept.
pub open spec fn spec_brighten_pixel(p: Rgba, delta: int) -> Rgba {
    Rgba {
        red: spec_clamp_channel(p.red + delta),
        green: spec_clamp_channel(p.green + delta),
        blue: spec_clamp_channel(p.blue + delta),
        alpha: p.alpha,
    }
}

/// Brightness shift of a whole image.
pub open spec fn spec_brighten(v: ImgV, delta: int) -> ImgV {
    ImgV {
        width: v.width,
        height: v.height,
        data: v.data.map_values(|p: Rgba| spec_brighten_pixel(p, delta)),
    }
}

/// Do the margins leave at least one column and one row?
pub open spec fn spec_crop_valid(v: ImgV, left: int, right: int, top: int, bottom: int) -> bool {
    left + right < v.width && top + bottom < v.height
}

/// The image with `left`/`right` columns and `top`/`bottom` rows removed
/// from the respective edges.
pub open spec fn spec_crop(v: ImgV, left: int, right: int, top: int, bottom: int) -> ImgV {
    let width = (v.width - left - right) as nat;
    let height = (v.height - top - bottom) as nat;
    ImgV {
        width,
        height,
        data: Seq::new(width * height, |i: int| v.pix(left + i % width as int, top + i / width as int)),
    }
}

/// The image mirrored around its vertical axis.
pub open spec fn spec_flip_h(v: ImgV) -> ImgV {
    ImgV {
        width: v.width,
        height: v.height,
        data: Seq::new(v.width * v.height, |i: int|
            v.pix(v.width - 1 - i % v.width as int, i / v.width as int)),
    }
}

/// The image mirrored around its horizontal axis.
pub open spec fn spec_flip_v(v: ImgV) -> ImgV {
    ImgV {
        width: v.width,
        height: v.height,
        data: Seq::new(v.width * v.height, |i: int|
            v.pix(i % v.width as int, v.height - 1 - i / v.width as int)),
    }
}

/// The grayscale image turned a quarter turn clockwise.
pub open spec fn spec_rotate90(g: GrayV) -> GrayV {
    GrayV {
        width: g.height,
        height: g.width,
        data: Seq::new(g.height * g.width, |i: int|
            g.pix(i / g.height as int, g.height - 1 - i % g.height as int)),
    }
}

/// The grayscale image turned a half turn.
pub open spec fn spec_rotate180(g: GrayV) -> GrayV {
    GrayV {
        width: g.width,
        height: g.height,
        data: Seq::new(g.width * g.height, |i: int|
            g.pix(g.width - 1 - i % g.width as int, g.height - 1 - i / g.width as int)),
    }
}

/// The grayscale image turned a quarter turn counter-clockwise.
pub open spec fn spec_rotate270(g: GrayV) -> GrayV {
    GrayV {
        width: g.height,
        height: g.width,
        data: Seq::new(g.height * g.width, |i: int|
            g.pix(g.width - 1 - i / g.height as int, i % g.height as int)),
    }
}


/// Reading one pixel of a crop: cell `(x, y)` of the result is cell
/// `(left + x, top + y)` of the source.
pub proof fn lemma_crop_pix(v: ImgV, left: int, right: int, top: int, bottom: int, x: int, y: int)
    requires
        0 <= left,
        0 <= top,
        0 <= x < v.width - left - right,
        0 <= y < v.height - top - bottom,
    ensures
        spec_crop(v, left, right, top, bottom).pix(x, y) == v.pix(left + x, top + y),
{
    let width = (v.width - left - right) as int;
    let height = (v.height - top - bottom) as int;
    lemma_grid_index_bound(x, y, width, height);
    lemma_grid_index_roundtrip(x, y, width);
}

/// Reading one pixel of a horizontal mirror: cell `(x, y)` of the result
/// is cell `(width - 1 - x, y)` of the source.
pub proof fn lemma_flip_h_pix(v: ImgV, x: int, y: int)
    requires
        0 <= x < v.width,
        0 <= y < v.height,
    ensures
        spec_flip_h(v).pix(x, y) == v.pix(v.width - 1 - x, y),
{
    lemma_grid_index_bound(x, y, v.width as int, v.height as int);
    lemma_grid_index_roundtrip(x, y, v.width as int);
}

/// Reading one pixel of a vertical mirror: cell `(x, y)` of the result is
/// cell `(x, height - 1 - y)` of the source.
pub proof fn lemma_flip_v_pix(v: ImgV, x: int, y: int)
    requires
        0 <= x < v.width,
        0 <= y < v.height,
    ensures
        spec_flip_v(v).pix(x, y) == v.pix(x, v.height - 1 - y),
{
    lemma_grid_index_bound(x, y, v.width as int, v.height as int);
    lemma_grid_index_roundtrip(x, y, v.width as int);
}

/// Inverting twice restores every pixel: inversion is an involution.
pub proof fn lemma_invert_involutive(v: ImgV)
    ensures
        spec_invert(spec_invert(v)) == v,
{
    assert(spec_invert(spec_invert(v)).data =~= v.data);
    assert(spec_invert(spec_invert(v)) =~= v);
}

/// Executable form of [`spec_invert_pixel`].
fn invert_pixel(p: &Rgba) -> (r: Rgba)
    ensures
        r == spec_invert_pixel(*p),
{
    Rgba { red: 255 - p.red, green: 255 - p.green, blue: 255 - p.blue, alpha: p.alpha }
}

/// Invert the colors of every pixel.
pub fn invert_image(img: &ImageBuf) -> (r: ImageBuf)
    requires
        img@.wf(),
    ensures
        r@.wf(),
        r@ == spec_invert(img@),
{
    let total: usize = img.pixels.len();
    let mut pixels: Vec<Rgba> = Vec::new();
    let mut i: usize = 0;
    while i < total
        invariant
            i <= total,
            pixels@.len() == i,
            forall|j: int| 0 <= j < i ==> pixels@[j] == spec_invert_pixel(img@.data[j]),
        decreases total - i,
    {
        let p = invert_pixel(&img.pixels[i]);
        pixels.push(p);
        i = i + 1;
    }
    let out = ImageBuf { width: img.width, height: img.height, pixels };
    proof {
        assert(out@.data =~= spec_invert(img@).data);
        assert(out@ =~= spec_invert(img@));
    }
    out
}

/// Executable form of [`spec_brighten_pixel`].
fn brighten_pixel(p: &Rgba, delta: i32) -> (r: Rgba)
    ensures
        r == spec_brighten_pixel(*p, delta as int),
{
    let red: i64 = p.red as i64 + delta as i64;
    let green: i64 = p.green as i64 + delta as i64;
    let blue: i64 = p.blue as i64 + delta as i64;
    Rgba {
        red: if red < 0 { 0 } else if red > 255 { 255 } else { red as u8 },
        green: if green < 0 { 0 } else if green > 255 { 255 } else { green as u8 },
        blue: if blue < 0 { 0 } else if blue > 255 { 255 } else { blue as u8 },
        alpha: p.alpha,
    }
}

/// Shift the brightness of every pixel by `delta`, clamping to the 8-bit
/// range; the alpha channel is kept.
pub fn brighten_image(img: &ImageBuf, delta: i32) -> (r: ImageBuf)
    requires
        img@.wf(),
    ensures
        r@.wf(),
        r@ == spec_brighten(img@, delta as int),
{
    let total: usize = img.pixels.len();
    let mut pixels: Vec<Rgba> = Vec::new();
    let mut i: usize = 0;
    while i < total
        invariant
            i <= total,
            pixels@.len() == i,
            forall|j: int| 0 <= j < i ==> pixels@[j] == spec_brighten_pixel(img@.data[j], delta as int),
        decreases total - i,
    {
        let p = brighten_pixel(&img.pixels[i], delta);
        pixels.push(p);
        i = i + 1;
    }
    let out = ImageBuf { width: img.width, height: img.height, pixels };
    proof {
        assert(out@.data =~= spec_brighten(img@, delta as int).data);
        assert(out@ =~= spec_brighten(img@, delta as int));
    }
    out
}

/// Remove `from_left`/`from_right` columns and `from_top`/`from_bottom` rows
/// from the edges, in that order; each margin is measured against the buffer
/// left by the previous removal.  Fails with a geometry error when no column
/// or no row would remain.
pub fn crop_image(
    img: &ImageBuf,
    from_left: usize,
    from_right: usize,
    from_top: usize,
    from_bottom: usize,
) -> (r: Result<ImageBuf, PipelineError>)
    requires
        img@.wf(),
    ensures
        r is Ok <==> spec_crop_valid(
            img@,
            from_left as int,
            from_right as int,
            from_top as int,
            from_bottom as int,
        ),
        r is Ok ==> {
            let out = spec_crop(
                img@,
                from_left as int,
                from_right as int,
                from_top as int,
                from_bottom as int,
            );
            &&& r->Ok_0@.wf()
            &&& r->Ok_0@ == out
            &&& out.width == img@.width - from_left - from_right
            &&& out.height == img@.height - from_top - from_bottom
        },
        r is Err ==> r->Err_0 == PipelineError::Geometry,
{
    if from_left >= img.width || from_right >= img.width - from_left {
        return Err(PipelineError::Geometry);
    }
    if from_top >= img.height || from_bottom >= img.height - from_top {
        return Err(PipelineError::Geometry);
    }
    let new_width: usize = img.width - from_left - from_right;
    let new_height: usize = img.height - from_top - from_bottom;
    let ghost out_v = spec_crop(
        img@,
        from_left as int,
        from_right as int,
        from_top as int,
        from_bottom as int,
    );
    proof {
        lemma_scale_assoc(4, img@.width as int, img@.height as int);
        lemma_mul_le(new_width as int, new_height as int, img@.width as int, img@.height as int);
        lemma_mul_le(
            4 * new_width as int,
            new_height as int,
            4 * img@.width as int,
            img@.height as int,
        );
        lemma_scale_assoc(4, new_width as int, new_height as int);
    }
    let mut pixels: Vec<Rgba> = Vec::new();
    let mut y: usize = 0;
    while y < new_height
        invariant
            y <= new_height,
            pixels@.len() == y * new_width,
            forall|j: int| 0 <= j < y * new_width ==> pixels@[j] == out_v.data[j],
        decreases new_height - y,
    {
        let mut x: usize = 0;
        while x < new_width
            invariant
                y < new_height,
                x <= new_width,
                pixels@.len() == y * new_width + x,
                forall|j: int| 0 <= j < y * new_width + x ==> pixels@[j] == out_v.data[j],
            decreases new_width - x,
        {
            proof {
                lemma_grid_index_bound(x as int, y as int, new_width as int, new_height as int);
                lemma_grid_index_roundtrip(x as int, y as int, new_width as int);
            }
            let p = img.get(from_left + x, from_top + y);
            pixels.push(p);
            x = x + 1;
        }
        proof {
            lemma_row_step(y as int, new_width as int);
        }
        y = y + 1;
    }
    let out = ImageBuf { width: new_width, height: new_height, pixels };
    proof {
        lemma_mul_comm(new_width as int, new_height as int);
        assert(out@.data =~= out_v.data);
        assert(out@ =~= out_v);
    }
    Ok(out)
}

/// Mirror the image around its vertical axis.
pub fn flip_horizontal(img: &ImageBuf) -> (r: ImageBuf)
    requires
        img@.wf(),
    ensures
        r@.wf(),
        r@ == spec_flip_h(img@),
{
    let mut pixels: Vec<Rgba> = Vec::new();
    let mut y: usize = 0;
    while y < img.height
        invariant
            y <= img@.height,
            pixels@.len() == y * img@.width,
            forall|j: int| 0 <= j < y * img@.width ==> pixels@[j] == spec_flip_h(img@).data[j],
        decreases img@.height - y,
    {
        let mut x: usize = 0;
        while x < img.width
            invariant
                y < img@.height,
                x <= img@.width,
                pixels@.len() == y * img@.width + x,
                forall|j: int| 0 <= j < y * img@.width + x ==> pixels@[j] == spec_flip_h(img@).data[j],
            decreases img@.width - x,
        {
            proof {
                lemma_grid_index_bound(x as int, y as int, img@.width as int, img@.height as int);
                lemma_grid_index_roundtrip(x as int, y as int, img@.width as int);
            }
            let p = img.get(img.width - 1 - x, y);
            pixels.push(p);
            x = x + 1;
        }
        proof {
            lemma_row_step(y as int, img@.width as int);
        }
        y = y + 1;
    }
    let out = ImageBuf { width: img.width, height: img.height, pixels };
    proof {
        lemma_mul_comm(img@.width as int, img@.height as int);
        assert(out@.data =~= spec_flip_h(img@).data);
        assert(out@ =~= spec_flip_h(img@));
    }
    out
}

/// Mirror the image around its horizontal axis.
pub fn flip_vertical(img: &ImageBuf) -> (r: ImageBuf)
    requires
        img@.wf(),
    ensures
        r@.wf(),
        r@ == spec_flip_v(img@),
{
    let mut pixels: Vec<Rgba> = Vec::new();
    let mut y: usize = 0;
    while y < img.height
        invariant
            y <= img@.height,
            pixels@.len() == y * img@.width,
            forall|j: int| 0 <= j < y * img@.width ==> pixels@[j] == spec_flip_v(img@).data[j],
        decreases img@.height - y,
    {
        let mut x: usize = 0;
        while x < img.width
            invariant
                y < img@.height,
                x <= img@.width,
                pixels@.len() == y * img@.width + x,
                forall|j: int| 0 <= j < y * img@.width + x ==> pixels@[j] == spec_flip_v(img@).data[j],
            decreases img@.width - x,
        {
            proof {
                lemma_grid_index_bound(x as int, y as int, img@.width as int, img@.height as int);
                lemma_grid_index_roundtrip(x as int, y as int, img@.width as int);
            }
            let p = img.get(x, img.height - 1 - y);
            pixels.push(p);
            x = x + 1;
        }
        proof {
            lemma_row_step(y as int, img@.width as int);
        }
        y = y + 1;
    }
    let out = ImageBuf { width: img.width, height: img.height, pixels };
    proof {
        lemma_mul_comm(img@.width as int, img@.height as int);
        assert(out@.data =~= spec_flip_v(img@).data);
        assert(out@ =~= spec_flip_v(img@));
    }
    out
}

/// Turn the grayscale image a quarter turn clockwise.
pub fn rotate90(img: &GrayBuf) -> (r: GrayBuf)
    requires
        img@.wf(),
    ensures
        r@.wf(),
        r@ == spec_rotate90(img@),
{
    let new_width: usize = img.height;
    let new_height: usize = img.width;
    let mut data: Vec<u8> = Vec::new();
    let mut y: usize = 0;
    while y < new_height
        invariant
            y <= new_height,
            data@.len() == y * new_width,
            forall|j: int| 0 <= j < y * new_width ==> data@[j] == spec_rotate90(img@).data[j],
        decreases new_height - y,
    {
        let mut x: usize = 0;
        while x < new_width
            invariant
                y < new_height,
                x <= new_width,
                data@.len() == y * new_width + x,
                forall|j: int| 0 <= j < y * new_width + x ==> data@[j] == spec_rotate90(img@).data[j],
            decreases new_width - x,
        {
            proof {
                lemma_grid_index_bound(x as int, y as int, new_width as int, new_height as int);
                lemma_grid_index_roundtrip(x as int, y as int, new_width as int);
            }
            let p = img.get(y, img.height - 1 - x);
            data.push(p);
            x = x + 1;
        }
        proof {
            lemma_row_step(y as int, new_width as int);
        }
        y = y + 1;
    }
    let out = GrayBuf { width: new_width, height: new_height, data };
    proof {
        lemma_mul_comm(new_width as int, new_height as int);
        assert(out@.data =~= spec_rotate90(img@).data);
        assert(out@ =~= spec_rotate90(img@));
    }
    out
}

/// Turn the grayscale image a half turn.
pub fn rotate180(img: &GrayBuf) -> (r: GrayBuf)
    requires
        img@.wf(),
    ensures
        r@.wf(),
        r@ == spec_rotate180(img@),
{
    let mut data: Vec<u8> = Vec::new();
    let mut y: usize = 0;
    while y < img.height
        invariant
            y <= img@.height,
            data@.len() == y * img@.width,
            forall|j: int| 0 <= j < y * img@.width ==> data@[j] == spec_rotate180(img@).data[j],
        decreases img@.height - y,
    {
        let mut x: usize = 0;
        while x < img.width
            invariant
                y < img@.height,
                x <= img@.width,
                data@.len() == y * img@.width + x,
                forall|j: int| 0 <= j < y * img@.width + x ==> data@[j] == spec_rotate180(img@).data[j],
            decreases img@.width - x,
        {
            proof {
                lemma_grid_index_bound(x as int, y as int, img@.width as int, img@.height as int);
                lemma_grid_index_roundtrip(x as int, y as int, img@.width as int);
            }
            let p = img.get(img.width - 1 - x, img.height - 1 - y);
            data.push(p);
            x = x + 1;
        }
        proof {
            lemma_row_step(y as int, img@.width as int);
        }
        y = y + 1;
    }
    let out = GrayBuf { width: img.width, height: img.height, data };
    proof {
        lemma_mul_comm(img@.width as int, img@.height as int);
        assert(out@.data =~= spec_rotate180(img@).data);
        assert(out@ =~= spec_rotate180(img@));
    }
    out
}

/// Turn the grayscale image a quarter turn counter-clockwise.
pub fn rotate270(img: &GrayBuf) -> (r: GrayBuf)
    requires
        img@.wf(),
    ensures
        r@.wf(),
        r@ == spec_rotate270(img@),
{
    let new_width: usize = img.height;
    let new_height: usize = img.width;
    let mut data: Vec<u8> = Vec::new();
    let mut y: usize = 0;
    while y < new_height
        invariant
            y <= new_height,
            data@.len() == y * new_width,
            forall|j: int| 0 <= j < y * new_width ==> data@[j] == spec_rotate270(img@).data[j],
        decreases new_height - y,
    {
        let mut x: usize = 0;
        while x < new_width
            invariant
                y < new_height,
                x <= new_width,
                data@.len() == y * new_width + x,
                forall|j: int| 0 <= j < y * new_width + x ==> data@[j] == spec_rotate270(img@).data[j],
            decreases new_width - x,
        {
            proof {
                lemma_grid_index_bound(x as int, y as int, new_width as int, new_height as int);
                lemma_grid_index_roundtrip(x as int, y as int, new_width as int);
            }
            let p = img.get(img.width - 1 - y, x);
            data.push(p);
            x = x + 1;
        }
        proof {
            lemma_row_step(y as int, new_width as int);
        }
        y = y + 1;
    }
    let out = GrayBuf { width: new_width, height: new_height, data };
    proof {
        lemma_mul_comm(new_width as int, new_height as int);
        assert(out@.data =~= spec_rotate270(img@).data);
        assert(out@ =~= spec_rotate270(img@));
    }
    out
}

} // verus!
