//! The correlation operator.
//!
//! For every sample of the input, the kernel is laid over the image with its
//! anchor on that sample; each cell's weight is multiplied with the sample
//! beneath it (of the same channel), coordinates beyond the image being
//! mirrored back inside, and the products are added up. The sum, divided by
//! the kernel's divisor, is rounded and saturated into a sample. The kernel is
//! applied as written, without being flipped.
use crate::border::{border, reflect_101};
use crate::error::ErrorKind;
use crate::image::{lemma_index_of_in_bounds, Image, ImageView};
use crate::kernel::{Kernel, KernelView};
use crate::rounding::{clamp_to_sample_range, quantize};
use vstd::prelude::*;

verus! {

/// Largest magnitude of one product of a weight numerator and a sample:
/// `2^31 * 255`.
const TAP_BOUND: i128 = 547_608_330_240;

/// The sample that lies beneath cell `(i, j)` of the kernel when its anchor
/// is on pixel `(x, y)`.
pub open spec fn neighbour(img: ImageView, k: KernelView, x: int, y: int, c: int, i: int, j: int) -> u8 {
    img.sample(
        reflect_101(x + j - k.anchor_x, img.width as int),
        reflect_101(y + i - k.anchor_y, img.height as int),
        c,
    )
}

/// Contribution of cell `(i, j)` to the sum for `(x, y, c)`.
pub open spec fn tap(img: ImageView, k: KernelView, x: int, y: int, c: int, i: int, j: int) -> int {
    k.weight(i, j) * neighbour(img, k, x, y, c, i, j)
}

/// Sum of the contributions of the first `cols` cells of kernel row `i`.
pub open spec fn row_sum(img: ImageView, k: KernelView, x: int, y: int, c: int, i: int, cols: nat) -> int
    decreases cols,
{
    if cols == 0 {
        0
    } else {
        row_sum(img, k, x, y, c, i, (cols - 1) as nat) + tap(img, k, x, y, c, i, cols - 1)
    }
}

/// Sum of the contributions of the first `rows` rows of the kernel.
pub open spec fn window_sum(img: ImageView, k: KernelView, x: int, y: int, c: int, rows: nat) -> int
    decreases rows,
{
    if rows == 0 {
        0
    } else {
        window_sum(img, k, x, y, c, (rows - 1) as nat) + row_sum(img, k, x, y, c, rows - 1, k.width)
    }
}

/// Numerator of the exact weighted sum for `(x, y, c)`: every cell of the
/// kernel times the sample beneath it.
pub open spec fn weighted_sum(img: ImageView, k: KernelView, x: int, y: int, c: int) -> int {
    window_sum(img, k, x, y, c, k.height)
}

/// The output sample for `(x, y, c)`.
pub open spec fn filtered_sample(img: ImageView, k: KernelView, x: int, y: int, c: int) -> u8 {
    quantize(weighted_sum(img, k, x, y, c), k.divisor)
}

/// The image of the same shape whose every sample is the filtered sample at
/// its position.
pub open spec fn convolved(img: ImageView, k: KernelView) -> ImageView {
    ImageView {
        samples: Seq::new(
            img.samples.len(),
            |t: int| filtered_sample(img, k, img.column_of(t), img.row_of(t), img.channel_of(t)),
        ),
        ..img
    }
}

/// Reading the filtered image at a position gives the filtered sample of that
/// position.
pub proof fn lemma_convolved_sample(img: ImageView, k: KernelView, x: int, y: int, c: int)
    requires
        img.wf(),
        img.in_bounds(x, y, c),
    ensures
        convolved(img, k).wf(),
        convolved(img, k).sample(x, y, c) == filtered_sample(img, k, x, y, c),
{
    lemma_index_of_in_bounds(img, x, y, c);
}

/// Exact weighted sum for one output sample.
#[verifier::loop_isolation(false)]
fn weighted_sum_at(image: &Image, kernel: &Kernel, x: usize, y: usize, c: usize) -> (sum: i128)
    requires
        kernel@.wf(),
        image@.in_bounds(x as int, y as int, c as int),
    ensures
        sum == weighted_sum(image@, kernel@, x as int, y as int, c as int),
{
    let width: usize = image.width();
    let height: usize = image.height();
    let cols: usize = kernel.width;
    let rows: usize = kernel.height;
    let cells: usize = kernel.weights.len();
    let ghost img: ImageView = image@;
    let ghost k: KernelView = kernel@;
    assert(k.weights.len() == cells);
    let mut acc: i128 = 0;
    let mut i: usize = 0;
    while i < rows
        invariant
            0 <= i <= rows,
            acc == window_sum(img, k, x as int, y as int, c as int, i as nat),
            -(i * cols) * TAP_BOUND <= acc <= (i * cols) * TAP_BOUND,
        decreases rows - i,
    {
        let by: usize = border(y as i128 + i as i128 - kernel.anchor_y as i128, height);
        proof {
            assert(0 <= i * cols && i * cols + cols <= rows * cols) by (nonlinear_arith)
                requires
                    0 <= i < rows,
                    0 <= cols,
            ;
            assert(rows * cols == cols * rows) by (nonlinear_arith);
        }
        let mut j: usize = 0;
        while j < cols
            invariant
                0 <= j <= cols,
                acc == window_sum(img, k, x as int, y as int, c as int, i as nat) + row_sum(
                    img,
                    k,
                    x as int,
                    y as int,
                    c as int,
                    i as int,
                    j as nat,
                ),
                -(i * cols + j) * TAP_BOUND <= acc <= (i * cols + j) * TAP_BOUND,
            decreases cols - j,
        {
            let bx: usize = border(x as i128 + j as i128 - kernel.anchor_x as i128, width);
            let weight: i32 = kernel.weights[i * cols + j];
            let value: u8 = image.sample(bx, by, c);
            assert(weight as int == k.weight(i as int, j as int));
            assert(value == neighbour(img, k, x as int, y as int, c as int, i as int, j as int));
            assert(-TAP_BOUND <= weight * value <= TAP_BOUND) by (nonlinear_arith)
                requires
                    -0x8000_0000 <= weight < 0x8000_0000,
                    0 <= value <= 255,
            ;
            acc = acc + (weight as i128) * (value as i128);
            j += 1;
        }
        i += 1;
        assert(i * cols == (i - 1) * cols + cols) by (nonlinear_arith);
    }
    acc
}

/// Correlates `kernel` against `image`.
///
/// The result has the shape of the input, and each of its samples is the
/// rounded, saturated weighted sum of the input neighbourhood around the same
/// position. An invalid kernel is reported as [`ErrorKind::InvalidKernel`];
/// with a valid kernel, an image without pixels is reported as
/// [`ErrorKind::EmptyImage`]. Nothing else fails.
#[verifier::loop_isolation(false)]
pub fn convolve(image: &Image, kernel: &Kernel) -> (out: Result<Image, ErrorKind>)
    ensures
        out is Ok <==> kernel@.wf() && !image@.is_empty(),
        out matches Ok(filtered) ==> {
            &&& filtered@ == convolved(image@, kernel@)
            &&& filtered@.wf()
            &&& filtered@.width == image@.width
            &&& filtered@.height == image@.height
            &&& filtered@.channels == image@.channels
            &&& forall|x: int, y: int, c: int|
                image@.in_bounds(x, y, c) ==> #[trigger] filtered@.sample(x, y, c) == filtered_sample(
                    image@,
                    kernel@,
                    x,
                    y,
                    c,
                )
        },
        out matches Err(e) ==> if kernel@.wf() {
            e is EmptyImage
        } else {
            e is InvalidKernel
        },
{
    if !kernel.is_valid() {
        return Err(ErrorKind::InvalidKernel);
    }
    if image.is_empty() {
        return Err(ErrorKind::EmptyImage);
    }
    let width: usize = image.width();
    let height: usize = image.height();
    let channels: usize = image.channels();
    let ghost img: ImageView = image@;
    let ghost k: KernelView = kernel@;
    let ghost target: Seq<u8> = convolved(img, k).samples;
    let mut data: Vec<u8> = Vec::new();
    assert(img.index_of(0, 0, 0) == 0) by (nonlinear_arith);
    let mut y: usize = 0;
    while y < height
        invariant
            0 <= y <= height,
            data@.len() == img.index_of(0, y as int, 0),
            forall|t: int| 0 <= t < data@.len() ==> data@[t] == target[t],
        decreases height - y,
    {
        let mut x: usize = 0;
        while x < width
            invariant
                0 <= x <= width,
                data@.len() == img.index_of(x as int, y as int, 0),
                forall|t: int| 0 <= t < data@.len() ==> data@[t] == target[t],
            decreases width - x,
        {
            let mut c: usize = 0;
            while c < channels
                invariant
                    0 <= c <= channels,
                    data@.len() == img.index_of(x as int, y as int, c as int),
                    forall|t: int| 0 <= t < data@.len() ==> data@[t] == target[t],
                decreases channels - c,
            {
                let sum: i128 = weighted_sum_at(image, kernel, x, y, c);
                let value: u8 = clamp_to_sample_range(sum, kernel.divisor);
                proof {
                    lemma_index_of_in_bounds(img, x as int, y as int, c as int);
                }
                data.push(value);
                c += 1;
            }
            assert(img.index_of(x as int, y as int, channels as int) == img.index_of(x + 1, y as int, 0))
                by (nonlinear_arith)
                requires
                    channels == img.channels,
            ;
            x += 1;
        }
        assert(img.index_of(width as int, y as int, 0) == img.index_of(0, y + 1, 0)) by (nonlinear_arith)
            requires
                width == img.width,
        ;
        y += 1;
    }
    assert(data@.len() == img.samples.len()) by (nonlinear_arith)
        requires
            data@.len() == img.index_of(0, height as int, 0),
            height == img.height,
            img.samples.len() == img.width * img.height * img.channels,
    ;
    assert(data@ =~= target);
    let filtered: Image = Image::assemble(width, height, channels, data);
    proof {
        assert forall|x: int, y: int, c: int| image@.in_bounds(x, y, c) implies #[trigger] filtered@.sample(
            x,
            y,
            c,
        ) == filtered_sample(image@, kernel@, x, y, c) by {
            lemma_convolved_sample(img, k, x, y, c);
        }
    }
    Ok(filtered)
}

} // verus!
