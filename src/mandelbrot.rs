//! The Mandelbrot image's pixel grid: the order in which pixels are sampled,
//! and the RGBA buffer built from their escape iteration counts.
use vstd::prelude::*;
use vstd::arithmetic::div_mod::lemma_fundamental_div_mod_converse;
use vstd::arithmetic::mul::{
    lemma_mul_inequality, lemma_mul_is_commutative, lemma_mul_is_distributive_add_other_way,
};
use crate::palette::{color_of_iterations, palette, Color, PALETTE_SIZE};

verus! {

/// Size of the image in pixels.
#[derive(Clone, Copy, Debug, PartialEq, Eq, Structural)]
pub struct Image {
    pub width: u32,
    pub height: u32,
}

impl Image {
    pub open spec fn pixel_count(self) -> int {
        self.width * self.height
    }
}

/// The pixel `(x, y)` sampled `k`-th, row-major: rows from the top, and
/// within a row each column from the left, so pixel `(x, y)` is sample
/// `y * width + x`.
pub open spec fn sample_pixel(image: Image, k: int) -> (u32, u32) {
    ((k % image.width as int) as u32, (k / image.width as int) as u32)
}

/// The four bytes `(R, G, B, 255)` of a pixel whose point escaped after
/// `iterations` steps.
pub open spec fn rgba(iterations: i32) -> Seq<u8> {
    let (red, green, blue) = palette((iterations as int) % (PALETTE_SIZE as int));
    seq![red, green, blue, 255u8]
}

/// The buffer of the pixels with these iteration counts, four bytes each, in
/// the same order.
pub open spec fn pixel_buffer(iterations: Seq<i32>) -> Seq<u8>
    decreases iterations.len(),
{
    if iterations.len() == 0 {
        seq![]
    } else {
        pixel_buffer(iterations.drop_last()) + rgba(iterations.last())
    }
}

/// Pixel `k` of a buffer occupies bytes `4k` to `4k + 3`.
pub proof fn lemma_pixel_buffer_layout(iterations: Seq<i32>)
    ensures
        pixel_buffer(iterations).len() == 4 * iterations.len(),
        forall|k: int, j: int|
            0 <= k < iterations.len() && 0 <= j < 4 ==> #[trigger] pixel_buffer(iterations)[4 * k + j]
                == rgba(iterations[k])[j],
    decreases iterations.len(),
{
    if iterations.len() > 0 {
        let init = iterations.drop_last();
        lemma_pixel_buffer_layout(init);
        assert forall|k: int, j: int|
            0 <= k < iterations.len() && 0 <= j < 4 implies #[trigger] pixel_buffer(iterations)[4 * k
                + j] == rgba(iterations[k])[j] by {
            if k < init.len() {
                assert(pixel_buffer(init)[4 * k + j] == rgba(init[k])[j]);
            }
        }
    }
}

/// A buffer built from one count per pixel of a `width` by `height` image is
/// `width * height * 4` bytes long.
pub proof fn lemma_buffer_size(image: Image, iterations: Seq<i32>)
    requires
        iterations.len() == image.pixel_count(),
    ensures
        pixel_buffer(iterations).len() == image.width * image.height * 4,
{
    lemma_pixel_buffer_layout(iterations);
}

/// Pixel `(x, y)` of the image is sample `y * width + x`, so its four bytes
/// start at `(y * width + x) * 4`.
pub proof fn lemma_pixel_position(image: Image, x: u32, y: u32)
    requires
        x < image.width,
        y < image.height,
    ensures
        sample_pixel(image, y * image.width + x) == (x, y),
        (y * image.width + x) * 4 == 4 * (y * image.width + x),
{
    lemma_fundamental_div_mod_converse(
        y * image.width + x,
        image.width as int,
        y as int,
        x as int,
    );
}

/// Every pixel `(x, y)` of the image, in sampling order.
pub fn pixel_order(image: Image) -> (r: Vec<(u32, u32)>)
    requires
        image.pixel_count() <= usize::MAX,
    ensures
        r@.len() == image.pixel_count(),
        forall|k: int| 0 <= k < r@.len() ==> #[trigger] r@[k] == sample_pixel(image, k),
{
    let mut out: Vec<(u32, u32)> = Vec::new();
    let w = image.width;
    let h = image.height;
    let mut y: u32 = 0;
    while y < h
        invariant
            y <= h,
            out@.len() == y * w,
            forall|k: int| 0 <= k < out@.len() ==> #[trigger] out@[k] == sample_pixel(image, k),
            w == image.width,
            h == image.height,
            image.pixel_count() <= usize::MAX,
        decreases h - y,
    {
        let mut x: u32 = 0;
        while x < w
            invariant
                y < h,
                x <= w,
                out@.len() == y * w + x,
                forall|k: int| 0 <= k < out@.len() ==> #[trigger] out@[k] == sample_pixel(image, k),
                w == image.width,
                h == image.height,
                image.pixel_count() <= usize::MAX,
            decreases w - x,
        {
            proof {
                lemma_fundamental_div_mod_converse(y * w + x, w as int, y as int, x as int);
                lemma_mul_inequality(y as int + 1, h as int, w as int);
                lemma_mul_is_distributive_add_other_way(w as int, y as int, 1);
                lemma_mul_is_commutative(w as int, h as int);
            }
            out.push((x, y));
            x = x + 1;
        }
        proof {
            lemma_mul_is_distributive_add_other_way(w as int, y as int, 1);
        }
        y = y + 1;
    }
    proof {
        lemma_mul_is_commutative(w as int, h as int);
    }
    out
}

/// The row-major RGBA buffer of the image: for each pixel in sampling order
/// (count `k` is pixel `sample_pixel(image, k)`), its
/// palette colour for the iteration count given for it, then 255.
pub fn get_mandelbrotdata(image: Image, iterations: &Vec<i32>) -> (r: Vec<u8>)
    requires
        iterations@.len() == image.pixel_count(),
        4 * image.pixel_count() <= usize::MAX,
        forall|k: int| 0 <= k < iterations@.len() ==> #[trigger] iterations@[k] >= 0,
    ensures
        r@ == pixel_buffer(iterations@),
        r@.len() == image.width * image.height * 4,
        forall|k: int, j: int|
            0 <= k < image.pixel_count() && 0 <= j < 4 ==> #[trigger] r@[4 * k + j] == rgba(
                iterations@[k],
            )[j],
{
    let mut data: Vec<u8> = Vec::new();
    let n = iterations.len();
    let mut i: usize = 0;
    while i < n
        invariant
            n == iterations@.len(),
            i <= n,
            4 * n <= usize::MAX,
            data@ == pixel_buffer(iterations@.subrange(0, i as int)),
            data@.len() == 4 * i,
            forall|k: int| 0 <= k < iterations@.len() ==> #[trigger] iterations@[k] >= 0,
        decreases n - i,
    {
        let color: Color = color_of_iterations(iterations[i]);
        data.push(color.red);
        data.push(color.green);
        data.push(color.blue);
        data.push(255);
        proof {
            let s = iterations@.subrange(0, i + 1);
            assert(s.drop_last() =~= iterations@.subrange(0, i as int));
            assert(data@ =~= pixel_buffer(s));
        }
        i = i + 1;
    }
    proof {
        assert(iterations@.subrange(0, n as int) =~= iterations@);
        lemma_pixel_buffer_layout(iterations@);
        lemma_buffer_size(image, iterations@);
    }
    data
}

} // verus!
