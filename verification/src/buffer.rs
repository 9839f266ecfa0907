//! Owned raster buffers and their mathematical models.
//!
//! An image is a row-major grid: the pixel at column `x`, row `y` sits at
//! flat index `y * width + x` of the backing vector.

#![verifier::loop_isolation(false)]

use vstd::prelude::*;
use crate::grid::lemma_grid_index_bound;
use crate::grid::lemma_grid_index_roundtrip;
use crate::grid::lemma_grid_index_split;
use crate::grid::lemma_scale_assoc;
use crate::pixel::Rgba;

verus! {

/// Model of an RGBA raster: dimensions plus the row-major pixel sequence.
#[verifier::ext_equal]
pub ghost struct ImgV {
    pub width: nat,
    pub height: nat,
    pub data: Seq<Rgba>,
}

impl ImgV {
    /// The backing sequence covers the grid exactly, and the raster fits the
    /// machine: each dimension fits in 32 bits and the byte count in a usize.
    pub open spec fn wf(self) -> bool {
        &&& self.data.len() == self.width * self.height
        &&& self.width <= 0xffff_ffff
        &&& self.height <= 0xffff_ffff
        &&& 4 * self.width * self.height <= usize::MAX
    }

    /// Is `(x, y)` inside the grid?
    pub open spec fn contains(self, x: int, y: int) -> bool {
        0 <= x < self.width && 0 <= y < self.height
    }

    /// The pixel at column `x`, row `y`.
    pub open spec fn pix(self, x: int, y: int) -> Rgba {
        self.data[y * self.width + x]
    }
}

/// Model of a single-channel (grayscale) raster.
#[verifier::ext_equal]
pub ghost struct GrayV {
    pub width: nat,
    pub height: nat,
    pub data: Seq<u8>,
}

impl GrayV {
    /// The backing sequence covers the grid exactly and the raster fits the
    /// machine.
    pub open spec fn wf(self) -> bool {
        &&& self.data.len() == self.width * self.height
        &&& self.width <= 0xffff_ffff
        &&& self.height <= 0xffff_ffff
        &&& self.width * self.height <= usize::MAX
    }

    /// Is `(x, y)` inside the grid?
    pub open spec fn contains(self, x: int, y: int) -> bool {
        0 <= x < self.width && 0 <= y < self.height
    }

    /// The intensity at column `x`, row `y`.
    pub open spec fn pix(self, x: int, y: int) -> u8 {
        self.data[y * self.width + x]
    }
}

/// An owned 8-bit RGBA image.
#[derive(Debug)]
pub struct ImageBuf {
    pub width: usize,
    pub height: usize,
    pub pixels: Vec<Rgba>,
}

impl View for ImageBuf {
    type V = ImgV;

    open spec fn view(&self) -> ImgV {
        ImgV { width: self.width as nat, height: self.height as nat, data: self.pixels@ }
    }
}

impl ImageBuf {
    /// A `width`-by-`height` image with every pixel set to `fill`.
    pub fn new(width: usize, height: usize, fill: Rgba) -> (r: ImageBuf)
        requires
            width <= 0xffff_ffff,
            height <= 0xffff_ffff,
            4 * width * height <= usize::MAX,
        ensures
            r@.wf(),
            r@.width == width,
            r@.height == height,
            forall|i: int| 0 <= i < width * height ==> r@.data[i] == fill,
    {
        proof {
            lemma_scale_assoc(4, width as int, height as int);
        }
        let total: usize = width * height;
        let mut pixels: Vec<Rgba> = Vec::new();
        let mut i: usize = 0;
        while i < total
            invariant
                i <= total,
                pixels@.len() == i,
                forall|j: int| 0 <= j < i ==> pixels@[j] == fill,
            decreases total - i,
        {
            pixels.push(fill);
            i = i + 1;
        }
        ImageBuf { width, height, pixels }
    }

    /// An image built from an explicit row-major pixel vector.
    pub fn from_pixels(width: usize, height: usize, pixels: Vec<Rgba>) -> (r: ImageBuf)
        requires
            width <= 0xffff_ffff,
            height <= 0xffff_ffff,
            4 * width * height <= usize::MAX,
            pixels@.len() == width * height,
        ensures
            r@.wf(),
            r@ == (ImgV { width: width as nat, height: height as nat, data: pixels@ }),
    {
        ImageBuf { width, height, pixels }
    }

    /// The pixel at column `x`, row `y`.
    pub fn get(&self, x: usize, y: usize) -> (r: Rgba)
        requires
            self@.wf(),
            self@.contains(x as int, y as int),
        ensures
            r == self@.pix(x as int, y as int),
    {
        proof {
            lemma_scale_assoc(4, self@.width as int, self@.height as int);
            lemma_grid_index_bound(x as int, y as int, self@.width as int, self@.height as int);
        }
        self.pixels[y * self.width + x]
    }

    /// Overwrite the pixel at column `x`, row `y`.
    pub fn set(&mut self, x: usize, y: usize, p: Rgba)
        requires
            old(self)@.wf(),
            old(self)@.contains(x as int, y as int),
        ensures
            final(self)@.wf(),
            final(self)@.width == old(self)@.width,
            final(self)@.height == old(self)@.height,
            final(self)@.data == old(self)@.data.update(
                y as int * old(self)@.width as int + x as int,
                p,
            ),
    {
        proof {
            lemma_scale_assoc(4, self@.width as int, self@.height as int);
            lemma_grid_index_bound(x as int, y as int, self@.width as int, self@.height as int);
        }
        let i: usize = y * self.width + x;
        self.pixels.set(i, p);
    }
}

/// An owned 8-bit grayscale image.
#[derive(Debug)]
pub struct GrayBuf {
    pub width: usize,
    pub height: usize,
    pub data: Vec<u8>,
}

impl View for GrayBuf {
    type V = GrayV;

    open spec fn view(&self) -> GrayV {
        GrayV { width: self.width as nat, height: self.height as nat, data: self.data@ }
    }
}

impl GrayBuf {
    /// A grayscale image built from an explicit row-major intensity vector.
    pub fn from_data(width: usize, height: usize, data: Vec<u8>) -> (r: GrayBuf)
        requires
            width <= 0xffff_ffff,
            height <= 0xffff_ffff,
            width * height <= usize::MAX,
            data@.len() == width * height,
        ensures
            r@.wf(),
            r@ == (GrayV { width: width as nat, height: height as nat, data: data@ }),
    {
        GrayBuf { width, height, data }
    }

    /// The intensity at column `x`, row `y`.
    pub fn get(&self, x: usize, y: usize) -> (r: u8)
        requires
            self@.wf(),
            self@.contains(x as int, y as int),
        ensures
            r == self@.pix(x as int, y as int),
    {
        proof {
            lemma_grid_index_bound(x as int, y as int, self@.width as int, self@.height as int);
        }
        self.data[y * self.width + x]
    }
}


/// Two rasters with the same dimensions, full backing sequences and equal
/// pixels everywhere are equal.
pub proof fn lemma_pix_ext(a: ImgV, b: ImgV)
    requires
        a.width == b.width,
        a.height == b.height,
        a.data.len() == a.width * a.height,
        b.data.len() == b.width * b.height,
        forall|x: int, y: int|
            0 <= x < a.width && 0 <= y < a.height ==> #[trigger] a.pix(x, y) == b.pix(x, y),
    ensures
        a == b,
{
    assert forall|i: int| 0 <= i < a.data.len() implies a.data[i] == b.data[i] by {
        let w = a.width as int;
        let h = a.height as int;
        assert(w >= 1 && h >= 1) by (nonlinear_arith)
            requires
                0 <= i < w * h,
                0 <= w,
                0 <= h,
        ;
        lemma_grid_index_split(i, w);
        let x = i % w;
        let y = i / w;
        assert(y < h) by (nonlinear_arith)
            requires
                i == y * w + x,
                0 <= x < w,
                0 <= y,
                i < w * h,
        ;
        assert(a.pix(x, y) == b.pix(x, y));
    }
    assert(a.data =~= b.data);
    assert(a =~= b);
}

/// The channel `c` (red, green, blue, alpha in that order) of a pixel.
pub open spec fn spec_channel_at(p: Rgba, c: int) -> u8 {
    if c == 0 {
        p.red
    } else if c == 1 {
        p.green
    } else if c == 2 {
        p.blue
    } else {
        p.alpha
    }
}

/// A pixel sequence flattened to interleaved RGBA bytes.
pub open spec fn rgba_bytes(s: Seq<Rgba>) -> Seq<u8> {
    Seq::new(4 * s.len(), |i: int| spec_channel_at(s[i / 4], i % 4))
}

/// Reading one channel out of the flattened byte sequence.
pub proof fn lemma_rgba_bytes_at(s: Seq<Rgba>, i: int, c: int)
    requires
        0 <= i < s.len(),
        0 <= c < 4,
    ensures
        rgba_bytes(s)[4 * i + c] == spec_channel_at(s[i], c),
{
    lemma_grid_index_roundtrip(c, i, 4);
}

/// An image flattened to interleaved RGBA bytes, row by row.
pub fn to_rgba_bytes(img: &ImageBuf) -> (r: Vec<u8>)
    requires
        img@.wf(),
    ensures
        r@.len() == 4 * img@.width * img@.height,
        r@ == rgba_bytes(img@.data),
{
    proof {
        lemma_scale_assoc(4, img@.width as int, img@.height as int);
    }
    let total: usize = img.pixels.len();
    let mut out: Vec<u8> = Vec::new();
    let mut i: usize = 0;
    while i < total
        invariant
            i <= total,
            out@.len() == 4 * i,
            forall|j: int| 0 <= j < 4 * i ==> out@[j] == rgba_bytes(img@.data)[j],
        decreases total - i,
    {
        let p = img.pixels[i];
        out.push(p.red);
        out.push(p.green);
        out.push(p.blue);
        out.push(p.alpha);
        proof {
            lemma_rgba_bytes_at(img@.data, i as int, 0);
            lemma_rgba_bytes_at(img@.data, i as int, 1);
            lemma_rgba_bytes_at(img@.data, i as int, 2);
            lemma_rgba_bytes_at(img@.data, i as int, 3);
        }
        i = i + 1;
    }
    proof {
        assert(out@ =~= rgba_bytes(img@.data));
    }
    out
}

/// An image rebuilt from interleaved RGBA bytes.
pub fn from_rgba_bytes(width: usize, height: usize, bytes: &Vec<u8>) -> (r: ImageBuf)
    requires
        width <= 0xffff_ffff,
        height <= 0xffff_ffff,
        4 * width * height <= usize::MAX,
        bytes@.len() == 4 * width * height,
    ensures
        r@.wf(),
        r@.width == width,
        r@.height == height,
        forall|i: int| 0 <= i < width * height ==> r@.data[i] == (Rgba {
            red: bytes@[4 * i],
            green: bytes@[4 * i + 1],
            blue: bytes@[4 * i + 2],
            alpha: bytes@[4 * i + 3],
        }),
{
    proof {
        lemma_scale_assoc(4, width as int, height as int);
        lemma_grid_index_roundtrip(0, (width * height) as int, 4);
    }
    let total: usize = bytes.len() / 4;
    let mut pixels: Vec<Rgba> = Vec::new();
    let mut i: usize = 0;
    while i < total
        invariant
            i <= total,
            pixels@.len() == i,
            forall|j: int| 0 <= j < i ==> pixels@[j] == (Rgba {
                red: bytes@[4 * j],
                green: bytes@[4 * j + 1],
                blue: bytes@[4 * j + 2],
                alpha: bytes@[4 * j + 3],
            }),
        decreases total - i,
    {
        let base: usize = 4 * i;
        pixels.push(Rgba {
            red: bytes[base],
            green: bytes[base + 1],
            blue: bytes[base + 2],
            alpha: bytes[base + 3],
        });
        i = i + 1;
    }
    ImageBuf { width, height, pixels }
}

} // verus!
