//! Finding the models in a directory tree.
//!
//! The tree is a value: what listing each directory gave, read from disk
//! by the caller beforehand. Scanning it is then a function of that value.

use vstd::prelude::*;
use crate::models::{
    model_at, qualifies, try_parse_model_file, LocalModel, LocalModelView, ModelSource,
};

verus! {

/// What came of listing one directory.
#[derive(Debug)]
pub enum Listing {
    /// The directory does not exist.
    Missing,
    /// The directory could not be listed.
    Failed { reason: String },
    /// The entries of the directory, in the order in which they were read.
    Entries { entries: Vec<Entry> },
}

/// One entry of a listed directory.
#[derive(Debug)]
pub enum Entry {
    /// A regular file, with its size where that could be read.
    File { path: String, size_bytes: Option<u64> },
    /// A directory, with what listing it gave.
    Directory { path: String, listing: Listing },
    /// Neither a regular file nor a directory.
    Other,
    /// The entry could not be read. No entry after it is looked at.
    Failed { reason: String },
}

/// Why a scan gave no models.
#[derive(Clone, Debug, PartialEq, Eq)]
pub enum ScanError {
    /// The directory itself could not be listed.
    Directory { path: String, reason: String },
    /// One entry of the directory could not be read.
    Entry { reason: String },
}

/// A `ScanError` with its texts as sequences of characters.
pub enum ScanErrorView {
    Directory { path: Seq<char>, reason: Seq<char> },
    Entry { reason: Seq<char> },
}

impl View for ScanError {
    type V = ScanErrorView;

    open spec fn view(&self) -> ScanErrorView {
        match self {
            ScanError::Directory { path, reason } => ScanErrorView::Directory {
                path: path@,
                reason: reason@,
            },
            ScanError::Entry { reason } => ScanErrorView::Entry { reason: reason@ },
        }
    }
}

impl ScanErrorView {
    /// The error in words.
    pub open spec fn message(self) -> Seq<char> {
        match self {
            ScanErrorView::Directory { path, reason } => "Failed to read directory "@ + path
                + ": "@ + reason,
            ScanErrorView::Entry { reason } => "Failed to read directory entry: "@ + reason,
        }
    }
}

impl ScanError {
    /// The error in words.
    pub fn message(&self) -> (text: String)
        ensures
            text@ == self@.message(),
    {
        match self {
            ScanError::Directory { path, reason } => {
                let mut text = "Failed to read directory ".to_owned();
                text.append(path.as_str());
                text.append(": ");
                text.append(reason.as_str());
                text
            },
            ScanError::Entry { reason } => {
                let mut text = "Failed to read directory entry: ".to_owned();
                text.append(reason.as_str());
                text
            },
        }
    }
}

/// The views of a sequence of models.
pub open spec fn views(models: Seq<LocalModel>) -> Seq<LocalModelView> {
    models.map_values(|m: LocalModel| m@)
}

/// The models found in the directory at `path` whose listing gave
/// `listing`. A missing directory holds none. A directory that could not be
/// listed, or with an entry that could not be read, is an error.
pub open spec fn models_in(path: Seq<char>, listing: Listing, source: ModelSource) -> Result<
    Seq<LocalModelView>,
    ScanErrorView,
>
    decreases listing, 0nat,
{
    match listing {
        Listing::Missing => Ok(Seq::empty()),
        Listing::Failed { reason } => Err(ScanErrorView::Directory { path, reason: reason@ }),
        Listing::Entries { entries } => models_among(entries@, source),
    }
}

/// The models found among `entries`, in their order. The first entry that
/// could not be read is an error.
pub open spec fn models_among(entries: Seq<Entry>, source: ModelSource) -> Result<
    Seq<LocalModelView>,
    ScanErrorView,
>
    decreases entries, 1nat,
{
    if entries.len() == 0 {
        Ok(Seq::empty())
    } else {
        match models_among(entries.drop_last(), source) {
            Err(e) => Err(e),
            Ok(before) => match models_of(entries.last(), source) {
                Err(e) => Err(e),
                Ok(found) => Ok(before + found),
            },
        }
    }
}

/// The models that one entry gives: a file gives itself where it
/// qualifies, a directory gives what is found in it, or nothing where
/// scanning it fails.
pub open spec fn models_of(entry: Entry, source: ModelSource) -> Result<
    Seq<LocalModelView>,
    ScanErrorView,
>
    decreases entry, 0nat,
{
    match entry {
        Entry::File { path, size_bytes } => if qualifies(path@, source) {
            Ok(seq![model_at(path@, size_bytes, source)])
        } else {
            Ok(Seq::empty())
        },
        Entry::Directory { path, listing } => match models_in(path@, listing, source) {
            Ok(found) => Ok(found),
            Err(_) => Ok(Seq::empty()),
        },
        Entry::Other => Ok(Seq::empty()),
        Entry::Failed { reason } => Err(ScanErrorView::Entry { reason: reason@ }),
    }
}

/// What a scan gave is what `expected` says, model for model or error for
/// error.
pub open spec fn scan_gave(
    outcome: Result<Vec<LocalModel>, ScanError>,
    expected: Result<Seq<LocalModelView>, ScanErrorView>,
) -> bool {
    match outcome {
        Ok(models) => expected == Ok::<Seq<LocalModelView>, ScanErrorView>(views(models@)),
        Err(e) => expected == Err::<Seq<LocalModelView>, ScanErrorView>(e@),
    }
}

/// The models found in the directory at `dir_path` whose listing gave
/// `listing`, in the order of the listing, each directory's models in the
/// place of that directory.
pub fn scan_directory_for_models(dir_path: &str, listing: &Listing, source: &ModelSource) -> (outcome:
    Result<Vec<LocalModel>, ScanError>)
    ensures
        scan_gave(outcome, models_in(dir_path@, *listing, *source)),
        *listing is Missing ==> outcome is Ok && outcome->Ok_0@.len() == 0,
    decreases listing,
{
    match listing {
        Listing::Missing => {
            let models: Vec<LocalModel> = Vec::new();
            assert(views(models@) =~= Seq::empty());
            Ok(models)
        },
        Listing::Failed { reason } => Err(
            ScanError::Directory { path: dir_path.to_owned(), reason: reason.clone() },
        ),
        Listing::Entries { entries } => {
            let mut models: Vec<LocalModel> = Vec::new();
            let mut i: usize = 0;
            assert(entries@.take(0) =~= Seq::<Entry>::empty());
            assert(views(models@) =~= Seq::empty());
            while i < entries.len()
                invariant
                    i <= entries.len(),
                    *listing == (Listing::Entries { entries: *entries }),
                    models_among(entries@.take(i as int), *source) == Ok::<
                        Seq<LocalModelView>,
                        ScanErrorView,
                    >(views(models@)),
                decreases entries.len() - i,
            {
                let ghost before = views(models@);
                proof {
                    assert(entries@.take(i + 1).drop_last() =~= entries@.take(i as int));
                    assert(entries@.take(i + 1).last() == entries@[i as int]);
                }
                match &entries[i] {
                    Entry::File { path, size_bytes } => {
                        match try_parse_model_file(path.as_str(), *size_bytes, source) {
                            Some(model) => {
                                models.push(model);
                                assert(views(models@) =~= before + seq![model@]);
                            },
                            None => {
                                assert(views(models@) =~= before + Seq::empty());
                            },
                        }
                    },
                    Entry::Directory { path, listing: inner } => {
                        match scan_directory_for_models(path.as_str(), inner, source) {
                            Ok(mut found) => {
                                let ghost inside = views(found@);
                                models.append(&mut found);
                                assert(views(models@) =~= before + inside);
                            },
                            Err(_) => {
                                assert(views(models@) =~= before + Seq::empty());
                            },
                        }
                    },
                    Entry::Other => {
                        assert(views(models@) =~= before + Seq::empty());
                    },
                    Entry::Failed { reason } => {
                        proof {
                            assert(models_of(entries@[i as int], *source) is Err);
                            assert(models_among(entries@.take(i + 1), *source) is Err);
                            lemma_error_stays(entries@, i + 1, *source);
                        }
                        return Err(ScanError::Entry { reason: reason.clone() });
                    },
                }
                i += 1;
            }
            assert(entries@.take(i as int) =~= entries@);
            Ok(models)
        },
    }
}

/// Once the first `n` entries give an error, all the entries give that
/// error.
pub proof fn lemma_error_stays(entries: Seq<Entry>, n: int, source: ModelSource)
    requires
        0 <= n <= entries.len(),
        models_among(entries.take(n), source) is Err,
    ensures
        models_among(entries, source) == models_among(entries.take(n), source),
    decreases entries.len() - n,
{
    if n == entries.len() {
        assert(entries.take(n) =~= entries);
    } else {
        assert(entries.take(n + 1).drop_last() =~= entries.take(n));
        lemma_error_stays(entries, n + 1, source);
    }
}

/// Every model of `models` was found under `source`.
pub open spec fn all_under(models: Seq<LocalModelView>, source: ModelSource) -> bool {
    forall|i: int| 0 <= i < models.len() ==> (#[trigger] models[i]).source == source
}

/// Every model that a scan finds carries the source that the scan was made
/// under, however deep in the tree it lies.
pub proof fn lemma_models_in_carry_source(path: Seq<char>, listing: Listing, source: ModelSource)
    ensures
        models_in(path, listing, source) matches Ok(models) ==> all_under(models, source),
    decreases listing, 0nat,
{
    match listing {
        Listing::Entries { entries } => {
            lemma_models_among_carry_source(entries@, source);
        },
        _ => {},
    }
}

/// Every model found among some entries carries the source of the scan.
pub proof fn lemma_models_among_carry_source(entries: Seq<Entry>, source: ModelSource)
    ensures
        models_among(entries, source) matches Ok(models) ==> all_under(models, source),
    decreases entries, 1nat,
{
    if entries.len() > 0 {
        lemma_models_among_carry_source(entries.drop_last(), source);
        match entries.last() {
            Entry::Directory { path, listing } => {
                lemma_models_in_carry_source(path@, listing, source);
            },
            _ => {},
        }
        match (models_among(entries.drop_last(), source), models_of(entries.last(), source)) {
            (Ok(before), Ok(found)) => {
                assert(all_under(found, source));
                assert forall|i: int| 0 <= i < (before + found).len() implies (#[trigger] (before
                    + found)[i]).source == source by {
                    if i < before.len() {
                        assert((before + found)[i] == before[i]);
                    } else {
                        assert((before + found)[i] == found[i - before.len()]);
                    }
                }
            },
            _ => {},
        }
    }
}

} // verus!
