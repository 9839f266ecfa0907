//! Contrast adjustment, resampling and grayscale conversion.
//!
//! These three transforms are delegated to the `image` crate through trusted
//! wrappers over flat RGBA byte buffers; the public functions here lift the
//! wrappers' contracts back to the pixel-grid model.

#![verifier::loop_isolation(false)]

use vstd::prelude::*;
use crate::buffer::GrayBuf;
use crate::buffer::GrayV;
use crate::buffer::ImageBuf;
use crate::buffer::ImgV;
use crate::buffer::from_rgba_bytes;
use crate::buffer::lemma_rgba_bytes_at;
use crate::buffer::rgba_bytes;
use crate::buffer::to_rgba_bytes;
use crate::error::PipelineError;
use crate::grid::lemma_grid_index_roundtrip;
use crate::grid::lemma_scale_assoc;
use crate::pixel::Rgba;

verus! {

/// Which resampling kernel a resize uses.
#[derive(Clone, Copy, Debug, PartialEq, Eq, Structural)]
pub enum ResampleFilter {
    /// A Gaussian kernel: soft, slightly blurring.
    Gaussian,
    /// A Catmull-Rom kernel: sharper, cubic interpolation.
    CatmullRom,
}

/// The channel intensity that a contrast adjustment of the given amount
/// (in percent) maps `c` to.  The exact tone curve is the `image` crate's;
/// only that it is a fixed per-channel function of the amount is relied on.
pub uninterp spec fn contrast_of(amount: int, c: u8) -> u8;

/// The flat RGBA bytes of the `new_width`-by-`new_height` resampling of a
/// `width`-by-`height` RGBA byte buffer under the given filter.  The exact
/// kernel arithmetic is the `image` crate's; only that it is a fixed
/// function of the source pixels and the filter is relied on.
pub uninterp spec fn resize_rgba(
    data: Seq<u8>,
    width: int,
    height: int,
    new_width: int,
    new_height: int,
    filter: ResampleFilter,
) -> Seq<u8>;

/// The grayscale intensity of a color: the sRGB-weighted integer average
/// `(2126 r + 7152 g + 722 b) / 10000`.
pub open spec fn spec_luma(r: u8, g: u8, b: u8) -> u8 {
    ((2126 * r + 7152 * g + 722 * b) / 10000) as u8
}

/// A pixel with every channel, alpha included, sent through the contrast
/// tone curve.
pub open spec fn spec_contrast_pixel(p: Rgba, amount: int) -> Rgba {
    Rgba {
        red: contrast_of(amount, p.red),
        green: contrast_of(amount, p.green),
        blue: contrast_of(amount, p.blue),
        alpha: contrast_of(amount, p.alpha),
    }
}

/// Contrast adjustment of a whole image.
pub open spec fn spec_contrast(v: ImgV, amount: int) -> ImgV {
    ImgV {
        width: v.width,
        height: v.height,
        data: v.data.map_values(|p: Rgba| spec_contrast_pixel(p, amount)),
    }
}

/// A byte sequence regrouped into RGBA pixels.
pub open spec fn pixels_of_bytes(b: Seq<u8>) -> Seq<Rgba> {
    Seq::new(b.len() / 4, |i: int| Rgba {
        red: b[4 * i],
        green: b[4 * i + 1],
        blue: b[4 * i + 2],
        alpha: b[4 * i + 3],
    })
}

/// Resampling of a whole image to the given dimensions.
pub open spec fn spec_resize(v: ImgV, new_width: int, new_height: int, filter: ResampleFilter) -> ImgV {
    ImgV {
        width: new_width as nat,
        height: new_height as nat,
        data: pixels_of_bytes(resize_rgba(
            rgba_bytes(v.data),
            v.width as int,
            v.height as int,
            new_width,
            new_height,
            filter,
        )),
    }
}

/// Grayscale conversion of a whole image; the alpha channel is discarded.
pub open spec fn spec_grayscale(v: ImgV) -> GrayV {
    GrayV {
        width: v.width,
        height: v.height,
        data: Seq::new(v.data.len(), |i: int| spec_luma(v.data[i].red, v.data[i].green, v.data[i].blue)),
    }
}

/// Relies on `image::imageops::contrast`: it sends every channel of every
/// pixel (alpha included) through one clamped tone curve that depends on the
/// adjustment amount alone, and it keeps the dimensions.
#[verifier::external_body]
fn contrast_rgba_bytes(width: usize, height: usize, data: &Vec<u8>, amount: i16) -> (r: Vec<u8>)
    requires
        data@.len() == 4 * width * height,
        width <= 0xffff_ffff,
        height <= 0xffff_ffff,
    ensures
        r@.len() == data@.len(),
        forall|k: int| 0 <= k < data@.len() ==> r@[k] == contrast_of(amount as int, data@[k]),
{
    let buf: image::RgbaImage =
        image::RgbaImage::from_raw(width as u32, height as u32, data.clone()).unwrap();
    image::imageops::contrast(&buf, amount.into()).into_raw()
}

/// Relies on `image::imageops::resize`: the result has exactly the requested
/// dimensions and depends only on the source pixels, the source dimensions,
/// the target dimensions and the filter.  The resampler also builds an
/// intermediate source-width by target-height buffer, so that byte count
/// must fit the machine as well.
#[verifier::external_body]
fn resize_rgba_bytes(
    width: usize,
    height: usize,
    data: &Vec<u8>,
    new_width: usize,
    new_height: usize,
    filter: ResampleFilter,
) -> (r: Vec<u8>)
    requires
        data@.len() == 4 * width * height,
        1 <= width <= 0xffff_ffff,
        1 <= height <= 0xffff_ffff,
        1 <= new_width <= 0xffff_ffff,
        1 <= new_height <= 0xffff_ffff,
        4 * new_width * new_height <= usize::MAX,
        4 * width * new_height <= usize::MAX,
    ensures
        r@.len() == 4 * new_width * new_height,
        r@ == resize_rgba(
            data@,
            width as int,
            height as int,
            new_width as int,
            new_height as int,
            filter,
        ),
{
    let buf: image::RgbaImage =
        image::RgbaImage::from_raw(width as u32, height as u32, data.clone()).unwrap();
    let kernel = match filter {
        ResampleFilter::Gaussian => image::imageops::FilterType::Gaussian,
        ResampleFilter::CatmullRom => image::imageops::FilterType::CatmullRom,
    };
    image::imageops::resize(&buf, new_width as u32, new_height as u32, kernel).into_raw()
}

/// Relies on `image::imageops::grayscale`: each pixel becomes the integer
/// sRGB-weighted average `(2126 r + 7152 g + 722 b) / 10000` of its color
/// channels, and the dimensions are kept.
#[verifier::external_body]
fn grayscale_rgba_bytes(width: usize, height: usize, data: &Vec<u8>) -> (r: Vec<u8>)
    requires
        data@.len() == 4 * width * height,
        width <= 0xffff_ffff,
        height <= 0xffff_ffff,
    ensures
        r@.len() == width * height,
        forall|i: int| 0 <= i < width * height ==> r@[i] == spec_luma(
            data@[4 * i],
            data@[4 * i + 1],
            data@[4 * i + 2],
        ),
{
    let buf: image::RgbaImage =
        image::RgbaImage::from_raw(width as u32, height as u32, data.clone()).unwrap();
    image::imageops::grayscale(&buf).into_raw()
}

/// Adjust the contrast of every pixel by `amount` percent.
pub fn contrast_image(img: &ImageBuf, amount: i16) -> (r: ImageBuf)
    requires
        img@.wf(),
    ensures
        r@.wf(),
        r@ == spec_contrast(img@, amount as int),
{
    let bytes = to_rgba_bytes(img);
    let out_bytes = contrast_rgba_bytes(img.width, img.height, &bytes, amount);
    let out = from_rgba_bytes(img.width, img.height, &out_bytes);
    proof {
        assert forall|i: int| 0 <= i < img@.data.len() implies out@.data[i] == spec_contrast_pixel(
            img@.data[i],
            amount as int,
        ) by {
            lemma_rgba_bytes_at(img@.data, i, 0);
            lemma_rgba_bytes_at(img@.data, i, 1);
            lemma_rgba_bytes_at(img@.data, i, 2);
            lemma_rgba_bytes_at(img@.data, i, 3);
        }
        assert(out@.data =~= spec_contrast(img@, amount as int).data);
        assert(out@ =~= spec_contrast(img@, amount as int));
    }
    out
}

/// Resample the image to `new_width` by `new_height` with the given filter.
/// Fails with a geometry error when the source or the target has no area.
pub fn resize_image(
    img: &ImageBuf,
    new_width: usize,
    new_height: usize,
    filter: ResampleFilter,
) -> (r: Result<ImageBuf, PipelineError>)
    requires
        img@.wf(),
        new_width <= 0xffff_ffff,
        new_height <= 0xffff_ffff,
        4 * new_width * new_height <= usize::MAX,
        4 * img@.width * new_height <= usize::MAX,
    ensures
        r is Ok <==> (1 <= img@.width && 1 <= img@.height && 1 <= new_width && 1 <= new_height),
        r is Ok ==> {
            &&& r->Ok_0@.wf()
            &&& r->Ok_0@ == spec_resize(img@, new_width as int, new_height as int, filter)
            &&& r->Ok_0@.width == new_width
            &&& r->Ok_0@.height == new_height
        },
        r is Err ==> r->Err_0 == PipelineError::Geometry,
{
    if img.width == 0 || img.height == 0 || new_width == 0 || new_height == 0 {
        return Err(PipelineError::Geometry);
    }
    let bytes = to_rgba_bytes(img);
    let out_bytes = resize_rgba_bytes(img.width, img.height, &bytes, new_width, new_height, filter);
    let out = from_rgba_bytes(new_width, new_height, &out_bytes);
    let ghost target = spec_resize(img@, new_width as int, new_height as int, filter);
    proof {
        lemma_scale_assoc(4, new_width as int, new_height as int);
        lemma_grid_index_roundtrip(0, (new_width * new_height) as int, 4);
        assert(out@.data =~= target.data);
        assert(out@ =~= target);
    }
    Ok(out)
}

/// Convert the image to grayscale; the alpha channel is discarded.
pub fn grayscale_image(img: &ImageBuf) -> (r: GrayBuf)
    requires
        img@.wf(),
    ensures
        r@.wf(),
        r@ == spec_grayscale(img@),
{
    proof {
        lemma_scale_assoc(4, img@.width as int, img@.height as int);
    }
    let bytes = to_rgba_bytes(img);
    let data = grayscale_rgba_bytes(img.width, img.height, &bytes);
    let out = GrayBuf { width: img.width, height: img.height, data };
    proof {
        assert forall|i: int| 0 <= i < img@.data.len() implies out@.data[i] == spec_grayscale(
            img@,
        ).data[i] by {
            lemma_rgba_bytes_at(img@.data, i, 0);
            lemma_rgba_bytes_at(img@.data, i, 1);
            lemma_rgba_bytes_at(img@.data, i, 2);
        }
        assert(out@.data =~= spec_grayscale(img@).data);
        assert(out@ =~= spec_grayscale(img@));
    }
    out
}

} // verus!
