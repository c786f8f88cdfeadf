//! The fixed set of named 3×3 filters.
//!
//! In declaration order: `average` (box blur), `gaussian` (binomial blur),
//! `sobel-x` and `sobel-y` (horizontal and vertical gradient) and `sharpen`.
//! All are anchored at their center.
use crate::kernel::{Kernel, KernelView};
use vstd::prelude::*;
use vstd::string::StringExecFns;

verus! {

/// A centered 3×3 kernel with the given numerators and divisor.
pub open spec fn centered_3x3(weights: Seq<int>, divisor: int) -> KernelView {
    KernelView { width: 3, height: 3, weights, divisor, anchor_x: 1, anchor_y: 1 }
}

/// Box blur: every weight is `1/9`.
pub open spec fn average() -> KernelView {
    centered_3x3(seq![1, 1, 1, 1, 1, 1, 1, 1, 1], 9)
}

/// Binomial blur: `1/16 1/8 1/16`, `1/8 1/4 1/8`, `1/16 1/8 1/16`.
pub open spec fn gaussian() -> KernelView {
    centered_3x3(seq![1, 2, 1, 2, 4, 2, 1, 2, 1], 16)
}

/// Horizontal gradient: `-1 0 1`, `-2 0 2`, `-1 0 1`.
pub open spec fn sobel_x() -> KernelView {
    centered_3x3(seq![-1, 0, 1, -2, 0, 2, -1, 0, 1], 1)
}

/// Vertical gradient: `-1 -2 -1`, `0 0 0`, `1 2 1`.
pub open spec fn sobel_y() -> KernelView {
    centered_3x3(seq![-1, -2, -1, 0, 0, 0, 1, 2, 1], 1)
}

/// Sharpening: `0 -1 0`, `-1 5 -1`, `0 -1 0`.
pub open spec fn sharpen() -> KernelView {
    centered_3x3(seq![0, -1, 0, -1, 5, -1, 0, -1, 0], 1)
}

/// Suffix that turns a filter name into the name of its output file.
pub open spec fn file_suffix() -> Seq<char> {
    "_filter.jpg"@
}

/// Mathematical content of a [`CatalogEntry`].
pub struct EntryView {
    /// Name under which results are reported.
    pub name: Seq<char>,
    /// The kernel to apply.
    pub kernel: KernelView,
}

/// A named kernel.
#[derive(Clone, Debug, PartialEq, Eq)]
pub struct CatalogEntry {
    /// Name under which results are reported.
    pub name: String,
    /// The kernel to apply.
    pub kernel: Kernel,
}

impl View for CatalogEntry {
    type V = EntryView;

    open spec fn view(&self) -> EntryView {
        EntryView { name: self.name@, kernel: self.kernel@ }
    }
}

/// Name of the file that holds the output of the filter called `name`: the
/// name followed by `_filter.jpg`.
pub fn output_file_name(name: &str) -> (file: String)
    ensures
        file@ == name@ + file_suffix(),
{
    String::from_str(name).concat("_filter.jpg")
}

/// Assembles a centered 3×3 kernel.
fn three_by_three(weights: Vec<i32>, divisor: u32) -> (kernel: Kernel)
    requires
        weights@.len() == 9,
        divisor >= 1,
    ensures
        kernel@ == centered_3x3(weights@.map_values(|w: i32| w as int), divisor as int),
        kernel@.wf(),
        kernel@.centered(),
{
    let kernel = Kernel { width: 3, height: 3, weights, divisor, anchor_x: 1, anchor_y: 1 };
    assert(kernel@.weights.len() == 9);
    kernel
}

/// The box-blur kernel.
pub fn average_kernel() -> (kernel: Kernel)
    ensures
        kernel@ == average(),
        kernel@.wf(),
{
    let kernel = three_by_three(vec![1, 1, 1, 1, 1, 1, 1, 1, 1], 9);
    assert(kernel@.weights =~= average().weights);
    kernel
}

/// The binomial-blur kernel.
pub fn gaussian_kernel() -> (kernel: Kernel)
    ensures
        kernel@ == gaussian(),
        kernel@.wf(),
{
    let kernel = three_by_three(vec![1, 2, 1, 2, 4, 2, 1, 2, 1], 16);
    assert(kernel@.weights =~= gaussian().weights);
    kernel
}

/// The horizontal-gradient kernel.
pub fn sobel_x_kernel() -> (kernel: Kernel)
    ensures
        kernel@ == sobel_x(),
        kernel@.wf(),
{
    let kernel = three_by_three(vec![-1, 0, 1, -2, 0, 2, -1, 0, 1], 1);
    assert(kernel@.weights =~= sobel_x().weights);
    kernel
}

/// The vertical-gradient kernel.
pub fn sobel_y_kernel() -> (kernel: Kernel)
    ensures
        kernel@ == sobel_y(),
        kernel@.wf(),
{
    let kernel = three_by_three(vec![-1, -2, -1, 0, 0, 0, 1, 2, 1], 1);
    assert(kernel@.weights =~= sobel_y().weights);
    kernel
}

/// The sharpening kernel.
pub fn sharpen_kernel() -> (kernel: Kernel)
    ensures
        kernel@ == sharpen(),
        kernel@.wf(),
{
    let kernel = three_by_three(vec![0, -1, 0, -1, 5, -1, 0, -1, 0], 1);
    assert(kernel@.weights =~= sharpen().weights);
    kernel
}

/// What [`catalog`] returns.
pub open spec fn catalog_view() -> Seq<EntryView> {
    seq![
        EntryView { name: "average"@, kernel: average() },
        EntryView { name: "gaussian"@, kernel: gaussian() },
        EntryView { name: "sobel-x"@, kernel: sobel_x() },
        EntryView { name: "sobel-y"@, kernel: sobel_y() },
        EntryView { name: "sharpen"@, kernel: sharpen() },
    ]
}

/// The catalog has five entries and every one of them holds a valid,
/// centered 3×3 kernel.
pub proof fn lemma_catalog_is_valid()
    ensures
        catalog_view().len() == 5,
        forall|i: int|
            0 <= i < 5 ==> {
                &&& (#[trigger] catalog_view()[i]).kernel.wf()
                &&& catalog_view()[i].kernel.centered()
                &&& catalog_view()[i].kernel.width == 3
                &&& catalog_view()[i].kernel.height == 3
            },
{
}

/// The five named filters, in declaration order.
pub fn catalog() -> (entries: Vec<CatalogEntry>)
    ensures
        entries@.map_values(|e: CatalogEntry| e@) == catalog_view(),
        forall|i: int| 0 <= i < entries@.len() ==> (#[trigger] entries@[i])@.kernel.wf(),
{
    let mut entries: Vec<CatalogEntry> = Vec::new();
    entries.push(CatalogEntry { name: String::from_str("average"), kernel: average_kernel() });
    entries.push(CatalogEntry { name: String::from_str("gaussian"), kernel: gaussian_kernel() });
    entries.push(CatalogEntry { name: String::from_str("sobel-x"), kernel: sobel_x_kernel() });
    entries.push(CatalogEntry { name: String::from_str("sobel-y"), kernel: sobel_y_kernel() });
    entries.push(CatalogEntry { name: String::from_str("sharpen"), kernel: sharpen_kernel() });
    assert(entries@.map_values(|e: CatalogEntry| e@) =~= catalog_view());
    entries
}

} // verus!
