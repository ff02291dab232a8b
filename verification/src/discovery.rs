//! The inventory: every model of every provider, with what went wrong on
//! the way.

use vstd::prelude::*;
use crate::models::{LocalModel, LocalModelView, ModelSource};
use crate::platform::Platform;
use crate::scan::{models_in, scan_directory_for_models, views, Listing};

verus! {

/// A directory in which a provider keeps models, with what listing it
/// gave.
#[derive(Debug)]
pub struct ProviderDirectory {
    pub path: String,
    pub listing: Listing,
}

/// What one run of discovery gave.
#[derive(Clone, Debug, PartialEq, Eq)]
pub struct ModelDiscoveryResult {
    pub models: Vec<LocalModel>,
    pub total_count: usize,
    pub total_size_bytes: u128,
    pub errors: Vec<String>,
}

/// The sizes of `models` added up.
pub open spec fn total_size(models: Seq<LocalModelView>) -> nat
    decreases models.len(),
{
    if models.len() == 0 {
        0
    } else {
        total_size(models.drop_last()) + models.last().size_bytes as nat
    }
}

/// The texts of a sequence of strings.
pub open spec fn texts(strings: Seq<String>) -> Seq<Seq<char>> {
    strings.map_values(|s: String| s@)
}

impl ModelDiscoveryResult {
    /// The count is the number of models and the total is the sum of
    /// their sizes.
    pub open spec fn well_formed(&self) -> bool {
        &&& self.total_count == self.models@.len()
        &&& self.total_size_bytes == total_size(views(self.models@))
    }
}

/// Where Ollama keeps its models under the home directory, by platform.
pub open spec fn ollama_models_suffix(platform: Platform) -> Seq<char> {
    match platform {
        Platform::Windows => "\\AppData\\Local\\ollama\\models"@,
        _ => "/.ollama/models"@,
    }
}

/// The two places under the home directory where LM Studio may keep its
/// models, by platform.
pub open spec fn lmstudio_suffixes(platform: Platform) -> (Seq<char>, Seq<char>) {
    match platform {
        Platform::Windows => (
            "\\AppData\\Roaming\\LM Studio\\models"@,
            "\\Documents\\LM Studio\\models"@,
        ),
        Platform::MacOs => (
            "/Library/Application Support/LM Studio/models"@,
            "/.lmstudio/models"@,
        ),
        Platform::Linux => ("/.config/lmstudio/models"@, "/.lmstudio/models"@),
    }
}

/// `home` with `suffix` behind it.
fn under(home: &str, suffix: &str) -> (path: String)
    ensures
        path@ == home@ + suffix@,
{
    let mut path = home.to_owned();
    path.append(suffix);
    path
}

/// The directory in which Ollama keeps its models, where the home
/// directory is known.
pub fn get_ollama_models_directory(home: Option<&str>, platform: Platform) -> (directory: Option<
    String,
>)
    ensures
        match directory {
            Some(d) => home is Some && d@ == home->0@ + ollama_models_suffix(platform),
            None => home is None,
        },
{
    match home {
        Some(h) => {
            match platform {
                Platform::Windows => Some(under(h, "\\AppData\\Local\\ollama\\models")),
                _ => Some(under(h, "/.ollama/models")),
            }
        },
        None => None,
    }
}

/// The directories in which LM Studio may keep its models: two where the
/// home directory is known, none where it is not.
pub fn get_lmstudio_directories(home: Option<&str>, platform: Platform) -> (directories: Vec<
    String,
>)
    ensures
        match home {
            Some(h) => texts(directories@) == seq![
                h@ + lmstudio_suffixes(platform).0,
                h@ + lmstudio_suffixes(platform).1,
            ],
            None => directories@.len() == 0,
        },
{
    let mut directories: Vec<String> = Vec::new();
    match home {
        Some(h) => {
            match platform {
                Platform::Windows => {
                    directories.push(under(h, "\\AppData\\Roaming\\LM Studio\\models"));
                    directories.push(under(h, "\\Documents\\LM Studio\\models"));
                },
                Platform::MacOs => {
                    directories.push(under(h, "/Library/Application Support/LM Studio/models"));
                    directories.push(under(h, "/.lmstudio/models"));
                },
                Platform::Linux => {
                    directories.push(under(h, "/.config/lmstudio/models"));
                    directories.push(under(h, "/.lmstudio/models"));
                },
            }
            assert(texts(directories@) =~= seq![
                h@ + lmstudio_suffixes(platform).0,
                h@ + lmstudio_suffixes(platform).1,
            ]);
        },
        None => {},
    }
    directories
}

/// What scanning Ollama's directory gives: its models, or why there are
/// none. No directory is given where the home directory is not known.
pub open spec fn ollama_outcome(ollama: Option<ProviderDirectory>) -> Result<
    Seq<LocalModelView>,
    Seq<char>,
> {
    match ollama {
        None => Err("Could not determine home directory"@),
        Some(directory) => match models_in(
            directory.path@,
            directory.listing,
            ModelSource::Ollama,
        ) {
            Ok(models) => Ok(models),
            Err(e) => Err("Failed to scan Ollama directory: "@ + e.message()),
        },
    }
}

/// The models of LM Studio's directories, one directory after the other.
/// A directory whose scan fails gives none.
pub open spec fn lmstudio_models(directories: Seq<ProviderDirectory>) -> Seq<LocalModelView>
    decreases directories.len(),
{
    if directories.len() == 0 {
        Seq::empty()
    } else {
        let last = directories.last();
        lmstudio_models(directories.drop_last()) + (match models_in(
            last.path@,
            last.listing,
            ModelSource::LmStudio,
        ) {
            Ok(models) => models,
            Err(_) => Seq::empty(),
        })
    }
}

/// All the models that discovery gives: Ollama's, then LM Studio's.
pub open spec fn discovered_models(
    ollama: Option<ProviderDirectory>,
    lmstudio: Seq<ProviderDirectory>,
) -> Seq<LocalModelView> {
    (match ollama_outcome(ollama) {
        Ok(models) => models,
        Err(_) => Seq::empty(),
    }) + lmstudio_models(lmstudio)
}

/// The errors that discovery reports: Ollama's failure, if it failed.
pub open spec fn discovery_errors(ollama: Option<ProviderDirectory>) -> Seq<Seq<char>> {
    match ollama_outcome(ollama) {
        Ok(_) => Seq::empty(),
        Err(e) => seq!["Ollama model discovery error: "@ + e],
    }
}

/// The sum of the sizes of some models is at most as many times the
/// greatest size as there are models.
pub proof fn lemma_total_size_bound(models: Seq<LocalModelView>)
    ensures
        total_size(models) <= models.len() * u64::MAX,
    decreases models.len(),
{
    if models.len() > 0 {
        lemma_total_size_bound(models.drop_last());
        assert((models.len() - 1) * u64::MAX + u64::MAX == models.len() * u64::MAX)
            by (nonlinear_arith);
    }
}

/// The total size of two sequences of models, one after the other, is the
/// sum of their total sizes.
pub proof fn lemma_total_size_concat(a: Seq<LocalModelView>, b: Seq<LocalModelView>)
    ensures
        total_size(a + b) == total_size(a) + total_size(b),
    decreases b.len(),
{
    if b.len() == 0 {
        assert(a + b =~= a);
    } else {
        assert((a + b).drop_last() =~= a + b.drop_last());
        lemma_total_size_concat(a, b.drop_last());
    }
}

/// The sizes of `models` added up.
pub fn sum_sizes(models: &Vec<LocalModel>) -> (total: u128)
    ensures
        total == total_size(views(models@)),
{
    let mut total: u128 = 0;
    let mut i: usize = 0;
    assert(views(models@).take(0) =~= Seq::empty());
    while i < models.len()
        invariant
            i <= models.len(),
            total == total_size(views(models@).take(i as int)),
        decreases models.len() - i,
    {
        proof {
            let all = views(models@);
            assert(all.take(i + 1).drop_last() =~= all.take(i as int));
            assert(all.take(i + 1).last() == models@[i as int]@);
            lemma_total_size_bound(all.take(i as int));
            assert(i * u64::MAX <= usize::MAX * u64::MAX) by (nonlinear_arith)
                requires
                    i <= usize::MAX,
            ;
            assert(usize::MAX * u64::MAX + u64::MAX <= u128::MAX) by (nonlinear_arith)
                requires
                    usize::MAX <= u64::MAX,
            ;
        }
        total = total + models[i].size_bytes as u128;
        i += 1;
    }
    assert(views(models@).take(i as int) =~= views(models@));
    total
}

/// Ollama's models, or why there are none.
pub fn discover_ollama_models(ollama: &Option<ProviderDirectory>) -> (outcome: Result<
    Vec<LocalModel>,
    String,
>)
    ensures
        match outcome {
            Ok(models) => ollama_outcome(*ollama) == Ok::<Seq<LocalModelView>, Seq<char>>(
                views(models@),
            ),
            Err(e) => ollama_outcome(*ollama) == Err::<Seq<LocalModelView>, Seq<char>>(e@),
        },
{
    match ollama {
        None => Err("Could not determine home directory".to_owned()),
        Some(directory) => {
            match scan_directory_for_models(
                directory.path.as_str(),
                &directory.listing,
                &ModelSource::Ollama,
            ) {
                Ok(models) => Ok(models),
                Err(e) => {
                    let mut text = "Failed to scan Ollama directory: ".to_owned();
                    let message = e.message();
                    text.append(message.as_str());
                    Err(text)
                },
            }
        },
    }
}

/// LM Studio's models. A directory whose scan fails is passed over.
pub fn discover_lmstudio_models(directories: &Vec<ProviderDirectory>) -> (models: Vec<LocalModel>)
    ensures
        views(models@) == lmstudio_models(directories@),
{
    let mut models: Vec<LocalModel> = Vec::new();
    let mut i: usize = 0;
    assert(directories@.take(0) =~= Seq::<ProviderDirectory>::empty());
    assert(views(models@) =~= Seq::empty());
    while i < directories.len()
        invariant
            i <= directories.len(),
            views(models@) == lmstudio_models(directories@.take(i as int)),
        decreases directories.len() - i,
    {
        let ghost before = views(models@);
        proof {
            assert(directories@.take(i + 1).drop_last() =~= directories@.take(i as int));
            assert(directories@.take(i + 1).last() == directories@[i as int]);
        }
        let directory = &directories[i];
        match scan_directory_for_models(
            directory.path.as_str(),
            &directory.listing,
            &ModelSource::LmStudio,
        ) {
            Ok(mut found) => {
                let ghost inside = views(found@);
                models.append(&mut found);
                assert(views(models@) =~= before + inside);
            },
            Err(_) => {
                assert(views(models@) =~= before + Seq::empty());
            },
        }
        i += 1;
    }
    assert(directories@.take(i as int) =~= directories@);
    models
}

/// The inventory of all providers. It is given whatever went wrong: a
/// failure of Ollama's scan is reported among the errors, a failure of one
/// of LM Studio's directories is passed over.
pub fn discover_local_models(
    ollama: &Option<ProviderDirectory>,
    lmstudio: &Vec<ProviderDirectory>,
) -> (result: ModelDiscoveryResult)
    ensures
        views(result.models@) == discovered_models(*ollama, lmstudio@),
        texts(result.errors@) == discovery_errors(*ollama),
        result.well_formed(),
{
    let mut models: Vec<LocalModel> = Vec::new();
    let mut errors: Vec<String> = Vec::new();
    assert(views(models@) =~= Seq::empty());
    match discover_ollama_models(ollama) {
        Ok(mut found) => {
            let ghost inside = views(found@);
            models.append(&mut found);
            assert(views(models@) =~= inside);
            assert(texts(errors@) =~= Seq::empty());
        },
        Err(e) => {
            let mut text = "Ollama model discovery error: ".to_owned();
            text.append(e.as_str());
            errors.push(text);
            assert(texts(errors@) =~= seq!["Ollama model discovery error: "@ + e@]);
        },
    }
    let ghost first = views(models@);
    let mut found = discover_lmstudio_models(lmstudio);
    let ghost second = views(found@);
    models.append(&mut found);
    assert(views(models@) =~= first + second);
    let total = sum_sizes(&models);
    ModelDiscoveryResult { total_count: models.len(), models, total_size_bytes: total, errors }
}

} // verus!
