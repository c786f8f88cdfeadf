//! Running a catalog of filters over one source image.
//!
//! Every entry is applied independently and in catalog order. An entry whose
//! kernel is invalid contributes a failure and leaves the other entries
//! untouched; only a source image without pixels stops the whole run.
use crate::catalog::{
    catalog_view, file_suffix, lemma_catalog_is_valid, output_file_name, CatalogEntry, EntryView,
};
use crate::engine::{convolve, convolved};
use crate::error::ErrorKind;
use crate::image::{Image, ImageView};
use vstd::prelude::*;

verus! {

/// Mathematical content of a [`Filtered`] result.
pub struct FilteredView {
    /// Name of the catalog entry that produced the image.
    pub name: Seq<char>,
    /// The filtered image.
    pub image: ImageView,
}

/// The output of one catalog entry.
#[derive(Clone, Debug, PartialEq, Eq)]
pub struct Filtered {
    /// Name of the catalog entry that produced the image.
    pub name: String,
    /// The filtered image.
    pub image: Image,
}

impl View for Filtered {
    type V = FilteredView;

    open spec fn view(&self) -> FilteredView {
        FilteredView { name: self.name@, image: self.image@ }
    }
}

impl Filtered {
    /// Name of the file that this output is saved under.
    pub fn file_name(&self) -> (file: String)
        ensures
            file@ == self@.name + file_suffix(),
    {
        output_file_name(self.name.as_str())
    }
}

/// What a run over a catalog produced: the outputs of the entries that could
/// be applied and one failure for each entry that could not, both in catalog
/// order.
#[derive(Debug, PartialEq, Eq)]
pub struct PipelineReport {
    /// Outputs of the entries with a valid kernel.
    pub filtered: Vec<Filtered>,
    /// One [`ErrorKind::FilterFailed`] per entry with an invalid kernel.
    pub failures: Vec<ErrorKind>,
}

/// Whether `error` reports that the entry called `name` failed for the
/// reason `cause`.
pub open spec fn is_failure_of(error: ErrorKind, name: Seq<char>, cause: ErrorKind) -> bool {
    &&& error matches ErrorKind::FilterFailed { name: failed, cause: inner }
    &&& failed@ == name
    &&& *inner == cause
}

/// The output that a catalog entry contributes for a non-empty image, if its
/// kernel is valid.
pub open spec fn output_of(img: ImageView, entry: EntryView) -> Option<FilteredView> {
    if entry.kernel.wf() {
        Some(FilteredView { name: entry.name, image: convolved(img, entry.kernel) })
    } else {
        None
    }
}

/// The name under which a catalog entry is reported as failed, if its kernel
/// is invalid.
pub open spec fn failure_of(entry: EntryView) -> Option<Seq<char>> {
    if entry.kernel.wf() {
        None
    } else {
        Some(entry.name)
    }
}

/// Outputs of a catalog for a non-empty image: one per entry with a valid
/// kernel, in catalog order.
pub open spec fn outputs(img: ImageView, entries: Seq<EntryView>) -> Seq<FilteredView> {
    entries.filter_map(|entry: EntryView| output_of(img, entry))
}

/// Names of the entries of a catalog whose kernel is invalid, in catalog
/// order.
pub open spec fn failed_names(entries: Seq<EntryView>) -> Seq<Seq<char>> {
    entries.filter_map(|entry: EntryView| failure_of(entry))
}

/// Every entry contributes either an output or a failure, never both.
pub proof fn lemma_report_is_complete(img: ImageView, entries: Seq<EntryView>)
    ensures
        outputs(img, entries).len() + failed_names(entries).len() == entries.len(),
    decreases entries.len(),
{
    if entries.len() > 0 {
        lemma_report_is_complete(img, entries.drop_last());
    }
}

/// Every output of a run has the shape of the source image.
pub proof fn lemma_outputs_keep_shape(img: ImageView, entries: Seq<EntryView>, n: int)
    requires
        0 <= n < outputs(img, entries).len(),
    ensures
        outputs(img, entries)[n].image.width == img.width,
        outputs(img, entries)[n].image.height == img.height,
        outputs(img, entries)[n].image.channels == img.channels,
        outputs(img, entries)[n].image.samples.len() == img.samples.len(),
    decreases entries.len(),
{
    if entries.len() > 0 {
        let rest: Seq<EntryView> = entries.drop_last();
        if n < outputs(img, rest).len() {
            lemma_outputs_keep_shape(img, rest, n);
        }
    }
}

/// A catalog of valid kernels yields one output per entry, in catalog order,
/// and no failure.
pub proof fn lemma_valid_catalog_succeeds(img: ImageView, entries: Seq<EntryView>)
    requires
        forall|i: int| 0 <= i < entries.len() ==> (#[trigger] entries[i]).kernel.wf(),
    ensures
        failed_names(entries).len() == 0,
        outputs(img, entries).len() == entries.len(),
        forall|i: int|
            0 <= i < entries.len() ==> #[trigger] outputs(img, entries)[i] == (FilteredView {
                name: entries[i].name,
                image: convolved(img, entries[i].kernel),
            }),
    decreases entries.len(),
{
    if entries.len() > 0 {
        let rest: Seq<EntryView> = entries.drop_last();
        assert forall|i: int| 0 <= i < rest.len() implies (#[trigger] rest[i]).kernel.wf() by {
            assert(rest[i] == entries[i]);
        }
        lemma_valid_catalog_succeeds(img, rest);
        assert(entries.last() == entries[entries.len() - 1]);
        assert forall|i: int| 0 <= i < entries.len() implies #[trigger] outputs(img, entries)[i] == (
        FilteredView { name: entries[i].name, image: convolved(img, entries[i].kernel) }) by {
            if i < rest.len() {
                assert(outputs(img, rest)[i] == (FilteredView {
                    name: rest[i].name,
                    image: convolved(img, rest[i].kernel),
                }));
                assert(rest[i] == entries[i]);
            }
        }
    }
}

/// Running the fixed catalog yields its five outputs, in declaration order,
/// and no failure.
pub proof fn lemma_catalog_run_succeeds(img: ImageView)
    ensures
        failed_names(catalog_view()).len() == 0,
        outputs(img, catalog_view()).len() == 5,
        forall|i: int|
            0 <= i < 5 ==> #[trigger] outputs(img, catalog_view())[i] == (FilteredView {
                name: catalog_view()[i].name,
                image: convolved(img, catalog_view()[i].kernel),
            }),
{
    lemma_catalog_is_valid();
    lemma_valid_catalog_succeeds(img, catalog_view());
}

/// Applies one catalog entry to an image.
///
/// Succeeds exactly when the entry's kernel is valid and the image has
/// pixels. Otherwise the failure names the entry and carries the cause:
/// an invalid kernel, or else an empty image.
pub fn apply_entry(image: &Image, entry: &CatalogEntry) -> (out: Result<Filtered, ErrorKind>)
    ensures
        out is Ok <==> entry@.kernel.wf() && !image@.is_empty(),
        out matches Ok(filtered) ==> filtered@ == (FilteredView {
            name: entry@.name,
            image: convolved(image@, entry@.kernel),
        }),
        out matches Err(e) ==> is_failure_of(
            e,
            entry@.name,
            if entry@.kernel.wf() {
                ErrorKind::EmptyImage
            } else {
                ErrorKind::InvalidKernel
            },
        ),
{
    match convolve(image, &entry.kernel) {
        Ok(filtered) => Ok(Filtered { name: entry.name.clone(), image: filtered }),
        Err(cause) => Err(ErrorKind::FilterFailed { name: entry.name.clone(), cause: Box::new(cause) }),
    }
}

/// Applies every entry of `catalog` to `image`, in order.
///
/// An image without pixels stops the run with [`ErrorKind::EmptyImage`].
/// Otherwise the report holds the output of every entry whose kernel is valid
/// and a failure for every other entry.
#[verifier::loop_isolation(false)]
pub fn run_pipeline(image: &Image, catalog: &Vec<CatalogEntry>) -> (out: Result<PipelineReport, ErrorKind>)
    ensures
        out is Ok <==> !image@.is_empty(),
        out matches Err(e) ==> e is EmptyImage,
        out matches Ok(report) ==> {
            let entries: Seq<EntryView> = catalog@.map_values(|e: CatalogEntry| e@);
            &&& report.filtered@.map_values(|f: Filtered| f@) == outputs(image@, entries)
            &&& report.failures@.len() == failed_names(entries).len()
            &&& forall|i: int|
                0 <= i < report.failures@.len() ==> is_failure_of(
                    #[trigger] report.failures@[i],
                    failed_names(entries)[i],
                    ErrorKind::InvalidKernel,
                )
            &&& report.filtered@.len() + report.failures@.len() == catalog@.len()
        },
{
    if image.is_empty() {
        return Err(ErrorKind::EmptyImage);
    }
    let ghost entries: Seq<EntryView> = catalog@.map_values(|e: CatalogEntry| e@);
    let mut filtered: Vec<Filtered> = Vec::new();
    let mut failures: Vec<ErrorKind> = Vec::new();
    let mut i: usize = 0;
    assert(entries.take(0) =~= Seq::<EntryView>::empty());
    while i < catalog.len()
        invariant
            0 <= i <= catalog@.len(),
            filtered@.map_values(|f: Filtered| f@) == outputs(image@, entries.take(i as int)),
            failures@.len() == failed_names(entries.take(i as int)).len(),
            forall|n: int|
                0 <= n < failures@.len() ==> is_failure_of(
                    #[trigger] failures@[n],
                    failed_names(entries.take(i as int))[n],
                    ErrorKind::InvalidKernel,
                ),
            filtered@.len() + failures@.len() == i,
        decreases catalog@.len() - i,
    {
        let entry: &CatalogEntry = &catalog[i];
        let ghost before: Seq<EntryView> = entries.take(i as int);
        let ghost after: Seq<EntryView> = entries.take(i + 1);
        proof {
            assert(after.drop_last() =~= before);
            assert(after.last() == entry@);
        }
        match apply_entry(image, entry) {
            Ok(output) => {
                let ghost held: Seq<FilteredView> = filtered@.map_values(|f: Filtered| f@);
                filtered.push(output);
                assert(filtered@.map_values(|f: Filtered| f@) =~= held.push(output@));
                assert(outputs(image@, after) =~= outputs(image@, before).push(output@));
                assert(failed_names(after) == failed_names(before));
            },
            Err(failure) => {
                failures.push(failure);
                assert(outputs(image@, after) == outputs(image@, before));
                assert(failed_names(after) =~= failed_names(before).push(entry@.name));
            },
        }
        i += 1;
    }
    assert(entries.take(i as int) =~= entries);
    Ok(PipelineReport { filtered, failures })
}

} // verus!
