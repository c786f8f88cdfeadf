//! Properties of the correlation operator that hold for every image and
//! kernel.
use crate::border::{lemma_reflect_101_near_edges, mirror_once};
use crate::catalog::{centered_3x3, gaussian, sharpen};
use crate::engine::{convolved, filtered_sample, neighbour, row_sum, tap, weighted_sum, window_sum};
use crate::image::{lemma_slot_decodes, ImageView};
use crate::kernel::KernelView;
use crate::rounding::{lemma_round_exact, quantize};
use vstd::prelude::*;

verus! {

/// A kernel that passes images through: its anchor cell weighs exactly one
/// (numerator equal to the divisor) and every other cell weighs nothing.
pub open spec fn is_identity(k: KernelView) -> bool {
    &&& k.wf()
    &&& forall|i: int, j: int|
        0 <= i < k.height && 0 <= j < k.width ==> #[trigger] k.weight(i, j) == if i == k.anchor_y && j
            == k.anchor_x {
            k.divisor
        } else {
            0
        }
}

/// The 3×3 kernel with weight one at its center and zero elsewhere.
pub open spec fn identity_3x3() -> KernelView {
    centered_3x3(seq![0, 0, 0, 0, 1, 0, 0, 0, 0], 1)
}

/// The cell beneath the anchor is the pixel being computed.
pub proof fn lemma_anchor_neighbour(img: ImageView, k: KernelView, x: int, y: int, c: int)
    requires
        img.wf(),
        img.in_bounds(x, y, c),
    ensures
        neighbour(img, k, x, y, c, k.anchor_y as int, k.anchor_x as int) == img.sample(x, y, c),
{
    lemma_reflect_101_near_edges(x, img.width as int);
    lemma_reflect_101_near_edges(y, img.height as int);
}

/// Under an identity kernel a row of the window adds up to nothing, except
/// for the anchor's row once the anchor cell is included.
proof fn lemma_identity_row(img: ImageView, k: KernelView, x: int, y: int, c: int, i: int, cols: nat)
    requires
        is_identity(k),
        0 <= i < k.height,
        cols <= k.width,
    ensures
        row_sum(img, k, x, y, c, i, cols) == if i == k.anchor_y && k.anchor_x < cols {
            k.divisor * neighbour(img, k, x, y, c, i, k.anchor_x as int)
        } else {
            0
        },
    decreases cols,
{
    if cols > 0 {
        let j: int = cols - 1;
        lemma_identity_row(img, k, x, y, c, i, j as nat);
        let w: int = k.weight(i, j);
        let s: int = neighbour(img, k, x, y, c, i, j) as int;
        if !(i == k.anchor_y && j == k.anchor_x) {
            assert(w * s == 0) by (nonlinear_arith)
                requires
                    w == 0,
            ;
        }
    }
}

/// Under an identity kernel the window adds up to the anchor's tap alone.
proof fn lemma_identity_window(img: ImageView, k: KernelView, x: int, y: int, c: int, rows: nat)
    requires
        is_identity(k),
        rows <= k.height,
    ensures
        window_sum(img, k, x, y, c, rows) == if k.anchor_y < rows {
            k.divisor * neighbour(img, k, x, y, c, k.anchor_y as int, k.anchor_x as int)
        } else {
            0
        },
    decreases rows,
{
    if rows > 0 {
        lemma_identity_window(img, k, x, y, c, (rows - 1) as nat);
        lemma_identity_row(img, k, x, y, c, rows - 1, k.width);
    }
}

/// An identity kernel reproduces every sample.
pub proof fn lemma_identity_sample(img: ImageView, k: KernelView, x: int, y: int, c: int)
    requires
        img.wf(),
        is_identity(k),
        img.in_bounds(x, y, c),
    ensures
        filtered_sample(img, k, x, y, c) == img.sample(x, y, c),
{
    lemma_identity_window(img, k, x, y, c, k.height);
    lemma_anchor_neighbour(img, k, x, y, c);
    let s: int = img.sample(x, y, c) as int;
    assert(k.divisor * s == s * k.divisor) by (nonlinear_arith);
    lemma_round_exact(s, k.divisor);
}

/// Filtering with an identity kernel returns the input image unchanged.
pub proof fn lemma_identity_kernel(img: ImageView, k: KernelView)
    requires
        img.wf(),
        is_identity(k),
    ensures
        convolved(img, k) == img,
{
    assert forall|t: int| 0 <= t < img.samples.len() implies convolved(img, k).samples[t]
        == img.samples[t] by {
        lemma_slot_decodes(img, t);
        lemma_identity_sample(img, k, img.column_of(t), img.row_of(t), img.channel_of(t));
    }
    assert(convolved(img, k).samples =~= img.samples);
}

/// The 3×3 kernel with a single one at its center is an identity kernel, so
/// filtering with it returns the input image unchanged.
pub proof fn lemma_identity_3x3(img: ImageView)
    requires
        img.wf(),
    ensures
        is_identity(identity_3x3()),
        convolved(img, identity_3x3()) == img,
{
    let k: KernelView = identity_3x3();
    assert forall|i: int, j: int| 0 <= i < k.height && 0 <= j < k.width implies #[trigger] k.weight(i, j)
        == if i == k.anchor_y && j == k.anchor_x {
        k.divisor
    } else {
        0
    } by {
        assert(0 <= i * 3 + j < 9);
    }
    lemma_identity_kernel(img, k);
}

/// For a 3×3 kernel the weighted sum is the sum of its nine taps.
pub proof fn lemma_weighted_sum_3x3(img: ImageView, k: KernelView, x: int, y: int, c: int)
    requires
        k.width == 3,
        k.height == 3,
    ensures
        weighted_sum(img, k, x, y, c) == tap(img, k, x, y, c, 0, 0) + tap(img, k, x, y, c, 0, 1) + tap(
            img,
            k,
            x,
            y,
            c,
            0,
            2,
        ) + tap(img, k, x, y, c, 1, 0) + tap(img, k, x, y, c, 1, 1) + tap(img, k, x, y, c, 1, 2) + tap(
            img,
            k,
            x,
            y,
            c,
            2,
            0,
        ) + tap(img, k, x, y, c, 2, 1) + tap(img, k, x, y, c, 2, 2),
{
    reveal_with_fuel(row_sum, 4);
    reveal_with_fuel(window_sum, 4);
}

/// The tap of cell `(i, j)` when the sample beneath it lies less than one
/// image size beyond the image: the cell's weight times the sample at the
/// position mirrored once.
pub proof fn lemma_tap_near_edges(
    img: ImageView,
    k: KernelView,
    x: int,
    y: int,
    c: int,
    i: int,
    j: int,
    weight: int,
)
    requires
        img.width >= 1,
        img.height >= 1,
        -img.width < x + j - k.anchor_x < 2 * img.width - 1,
        -img.height < y + i - k.anchor_y < 2 * img.height - 1,
        k.weight(i, j) == weight,
    ensures
        tap(img, k, x, y, c, i, j) == weight * img.sample(
            mirror_once(x + j - k.anchor_x, img.width as int),
            mirror_once(y + i - k.anchor_y, img.height as int),
            c,
        ),
{
    lemma_reflect_101_near_edges(x + j - k.anchor_x, img.width as int);
    lemma_reflect_101_near_edges(y + i - k.anchor_y, img.height as int);
}

/// Away from the border the binomial blur weighs the pixel itself four
/// times, its four edge neighbours twice and its four corner neighbours once.
pub proof fn lemma_gaussian_interior(img: ImageView, x: int, y: int, c: int)
    requires
        1 <= x < img.width - 1,
        1 <= y < img.height - 1,
    ensures
        weighted_sum(img, gaussian(), x, y, c) == img.sample(x - 1, y - 1, c) + 2 * img.sample(x, y - 1, c)
            + img.sample(x + 1, y - 1, c) + 2 * img.sample(x - 1, y, c) + 4 * img.sample(x, y, c) + 2
            * img.sample(x + 1, y, c) + img.sample(x - 1, y + 1, c) + 2 * img.sample(x, y + 1, c)
            + img.sample(x + 1, y + 1, c),
        filtered_sample(img, gaussian(), x, y, c) == quantize(weighted_sum(img, gaussian(), x, y, c), 16),
{
    let k: KernelView = gaussian();
    lemma_weighted_sum_3x3(img, k, x, y, c);
    assert(tap(img, k, x, y, c, 0, 0) == img.sample(x - 1, y - 1, c)) by {
        lemma_tap_near_edges(img, k, x, y, c, 0, 0, 1);
    }
    assert(tap(img, k, x, y, c, 0, 1) == 2 * img.sample(x, y - 1, c)) by {
        lemma_tap_near_edges(img, k, x, y, c, 0, 1, 2);
    }
    assert(tap(img, k, x, y, c, 0, 2) == img.sample(x + 1, y - 1, c)) by {
        lemma_tap_near_edges(img, k, x, y, c, 0, 2, 1);
    }
    assert(tap(img, k, x, y, c, 1, 0) == 2 * img.sample(x - 1, y, c)) by {
        lemma_tap_near_edges(img, k, x, y, c, 1, 0, 2);
    }
    assert(tap(img, k, x, y, c, 1, 1) == 4 * img.sample(x, y, c)) by {
        lemma_tap_near_edges(img, k, x, y, c, 1, 1, 4);
    }
    assert(tap(img, k, x, y, c, 1, 2) == 2 * img.sample(x + 1, y, c)) by {
        lemma_tap_near_edges(img, k, x, y, c, 1, 2, 2);
    }
    assert(tap(img, k, x, y, c, 2, 0) == img.sample(x - 1, y + 1, c)) by {
        lemma_tap_near_edges(img, k, x, y, c, 2, 0, 1);
    }
    assert(tap(img, k, x, y, c, 2, 1) == 2 * img.sample(x, y + 1, c)) by {
        lemma_tap_near_edges(img, k, x, y, c, 2, 1, 2);
    }
    assert(tap(img, k, x, y, c, 2, 2) == img.sample(x + 1, y + 1, c)) by {
        lemma_tap_near_edges(img, k, x, y, c, 2, 2, 1);
    }
}

/// At the top-left corner the sharpening kernel sees the row below and the
/// column to the right twice each, once directly and once mirrored, and
/// never the corner pixel a second time.
pub proof fn lemma_sharpen_at_corner(img: ImageView, c: int)
    requires
        img.width >= 2,
        img.height >= 2,
    ensures
        weighted_sum(img, sharpen(), 0, 0, c) == 5 * img.sample(0, 0, c) - 2 * img.sample(1, 0, c) - 2
            * img.sample(0, 1, c),
        filtered_sample(img, sharpen(), 0, 0, c) == quantize(weighted_sum(img, sharpen(), 0, 0, c), 1),
{
    let k: KernelView = sharpen();
    lemma_weighted_sum_3x3(img, k, 0, 0, c);
    assert(tap(img, k, 0, 0, c, 0, 0) == 0) by {
        lemma_tap_near_edges(img, k, 0, 0, c, 0, 0, 0);
    }
    assert(tap(img, k, 0, 0, c, 0, 1) == -img.sample(0, 1, c)) by {
        lemma_tap_near_edges(img, k, 0, 0, c, 0, 1, -1);
    }
    assert(tap(img, k, 0, 0, c, 0, 2) == 0) by {
        lemma_tap_near_edges(img, k, 0, 0, c, 0, 2, 0);
    }
    assert(tap(img, k, 0, 0, c, 1, 0) == -img.sample(1, 0, c)) by {
        lemma_tap_near_edges(img, k, 0, 0, c, 1, 0, -1);
    }
    assert(tap(img, k, 0, 0, c, 1, 1) == 5 * img.sample(0, 0, c)) by {
        lemma_tap_near_edges(img, k, 0, 0, c, 1, 1, 5);
    }
    assert(tap(img, k, 0, 0, c, 1, 2) == -img.sample(1, 0, c)) by {
        lemma_tap_near_edges(img, k, 0, 0, c, 1, 2, -1);
    }
    assert(tap(img, k, 0, 0, c, 2, 0) == 0) by {
        lemma_tap_near_edges(img, k, 0, 0, c, 2, 0, 0);
    }
    assert(tap(img, k, 0, 0, c, 2, 1) == -img.sample(0, 1, c)) by {
        lemma_tap_near_edges(img, k, 0, 0, c, 2, 1, -1);
    }
    assert(tap(img, k, 0, 0, c, 2, 2) == 0) by {
        lemma_tap_near_edges(img, k, 0, 0, c, 2, 2, 0);
    }
}

/// Scaling the kernel scales every partial sum of a row.
proof fn lemma_scaled_row(
    img: ImageView,
    k: KernelView,
    numer: int,
    denom: int,
    x: int,
    y: int,
    c: int,
    i: int,
    cols: nat,
)
    requires
        k.wf(),
        0 <= i < k.height,
        cols <= k.width,
    ensures
        row_sum(img, k.scaled(numer, denom), x, y, c, i, cols) == numer * row_sum(img, k, x, y, c, i, cols),
    decreases cols,
{
    if cols > 0 {
        let j: int = cols - 1;
        lemma_scaled_row(img, k, numer, denom, x, y, c, i, j as nat);
        let width: int = k.width as int;
        let height: int = k.height as int;
        assert(0 <= i * width + j < width * height) by (nonlinear_arith)
            requires
                0 <= i < height,
                0 <= j < width,
        ;
        let w: int = k.weight(i, j);
        let s: int = neighbour(img, k, x, y, c, i, j) as int;
        let rest: int = row_sum(img, k, x, y, c, i, j as nat);
        assert(k.scaled(numer, denom).weight(i, j) == numer * w);
        assert(neighbour(img, k.scaled(numer, denom), x, y, c, i, j) == neighbour(img, k, x, y, c, i, j));
        assert(numer * rest + (numer * w) * s == numer * (rest + w * s)) by (nonlinear_arith);
    } else {
        assert(numer * 0 == 0);
    }
}

/// Scaling the kernel scales every partial sum of the window.
proof fn lemma_scaled_window(
    img: ImageView,
    k: KernelView,
    numer: int,
    denom: int,
    x: int,
    y: int,
    c: int,
    rows: nat,
)
    requires
        k.wf(),
        rows <= k.height,
    ensures
        window_sum(img, k.scaled(numer, denom), x, y, c, rows) == numer * window_sum(img, k, x, y, c, rows),
    decreases rows,
{
    if rows > 0 {
        lemma_scaled_window(img, k, numer, denom, x, y, c, (rows - 1) as nat);
        lemma_scaled_row(img, k, numer, denom, x, y, c, rows - 1, k.width);
        let above: int = window_sum(img, k, x, y, c, (rows - 1) as nat);
        let row: int = row_sum(img, k, x, y, c, rows - 1, k.width);
        assert(numer * above + numer * row == numer * (above + row)) by (nonlinear_arith);
    } else {
        assert(numer * 0 == 0);
    }
}

/// The weighted sum is linear in the kernel: scaling every weight by
/// `numer / denom` multiplies every numerator sum by `numer` and the divisor
/// by `denom`.
pub proof fn lemma_scaled_kernel_scales_sum(
    img: ImageView,
    k: KernelView,
    numer: int,
    denom: int,
    x: int,
    y: int,
    c: int,
)
    requires
        k.wf(),
        denom >= 1,
    ensures
        k.scaled(numer, denom).wf(),
        k.scaled(numer, denom).divisor == k.divisor * denom,
        weighted_sum(img, k.scaled(numer, denom), x, y, c) == numer * weighted_sum(img, k, x, y, c),
{
    lemma_scaled_window(img, k, numer, denom, x, y, c, k.height);
    assert(k.divisor * denom >= 1) by (nonlinear_arith)
        requires
            k.divisor >= 1,
            denom >= 1,
    ;
}

/// Where neither rounding nor saturation interferes, scaling the kernel
/// scales the output. If the exact value under `k` is an integer within the
/// sample range, and `numer / denom` times that value is again an integer
/// within the sample range, then the sample under the scaled kernel is
/// `numer / denom` times the sample under `k`.
pub proof fn lemma_scaled_kernel_scales_sample(
    img: ImageView,
    k: KernelView,
    numer: int,
    denom: int,
    x: int,
    y: int,
    c: int,
)
    requires
        k.wf(),
        denom >= 1,
        weighted_sum(img, k, x, y, c) % k.divisor == 0,
        0 <= weighted_sum(img, k, x, y, c) / k.divisor <= 255,
        (numer * (weighted_sum(img, k, x, y, c) / k.divisor)) % denom == 0,
        0 <= (numer * (weighted_sum(img, k, x, y, c) / k.divisor)) / denom <= 255,
    ensures
        filtered_sample(img, k, x, y, c) == weighted_sum(img, k, x, y, c) / k.divisor,
        filtered_sample(img, k.scaled(numer, denom), x, y, c) * denom == numer * filtered_sample(
            img,
            k,
            x,
            y,
            c,
        ),
{
    let sum: int = weighted_sum(img, k, x, y, c);
    let d: int = k.divisor;
    let exact: int = sum / d;
    let target: int = (numer * exact) / denom;
    lemma_scaled_kernel_scales_sum(img, k, numer, denom, x, y, c);
    vstd::arithmetic::div_mod::lemma_fundamental_div_mod(sum, d);
    assert(sum == exact * d) by (nonlinear_arith)
        requires
            sum == d * exact + sum % d,
            sum % d == 0,
    ;
    lemma_round_exact(exact, d);
    vstd::arithmetic::div_mod::lemma_fundamental_div_mod(numer * exact, denom);
    assert(numer * exact == target * denom) by (nonlinear_arith)
        requires
            numer * exact == denom * target + (numer * exact) % denom,
            (numer * exact) % denom == 0,
    ;
    assert(numer * sum == target * (d * denom)) by (nonlinear_arith)
        requires
            sum == exact * d,
            numer * exact == target * denom,
    ;
    assert(d * denom >= 1) by (nonlinear_arith)
        requires
            d >= 1,
            denom >= 1,
    ;
    lemma_round_exact(target, d * denom);
}

} // verus!
