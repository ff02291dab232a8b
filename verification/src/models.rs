//! What a discovered model is, and how one is read off a file's path.

use vstd::prelude::*;
use vstd::slice::slice_subrange;
use crate::paths::{
    file_name, file_name_bounds, file_stem, is_separator, lemma_file_name_of_joined,
    lemma_stem_of_name, stem_length,
};
use crate::text::{
    after_first, before_first, chars_of, contains, ends_with, find, first_piece_end, has_suffix,
    lemma_contains, lemma_find_first, lemma_find_none, lemma_occurs_single, occurs_at, piece_end,
    same_text, second_piece, single,
};

verus! {

/// The convention under which a model was found: it decides where models
/// are looked for and how they are named.
#[derive(Clone, Copy, Debug, PartialEq, Eq)]
pub enum ModelSource {
    Ollama,
    LmStudio,
    Other,
}

/// One model file found on disk.
#[derive(Clone, Debug, PartialEq, Eq)]
pub struct LocalModel {
    pub name: String,
    pub path: String,
    pub size_bytes: u64,
    pub source: ModelSource,
    pub format: Option<String>,
}

/// A `LocalModel` with its texts as sequences of characters.
pub struct LocalModelView {
    pub name: Seq<char>,
    pub path: Seq<char>,
    pub size_bytes: u64,
    pub source: ModelSource,
    pub format: Option<Seq<char>>,
}

impl View for LocalModel {
    type V = LocalModelView;

    open spec fn view(&self) -> LocalModelView {
        LocalModelView {
            name: self.name@,
            path: self.path@,
            size_bytes: self.size_bytes,
            source: self.source,
            format: match self.format {
                Some(f) => Some(f@),
                None => None,
            },
        }
    }
}

/// The format that a file name stands for, by its ending.
pub open spec fn format_of(file_name: Seq<char>) -> Option<Seq<char>> {
    if ends_with(file_name, ".gguf"@) {
        Some("GGUF"@)
    } else if ends_with(file_name, ".bin"@) {
        Some("BIN"@)
    } else if ends_with(file_name, ".safetensors"@) {
        Some("SafeTensors"@)
    } else {
        None
    }
}

/// A file of this name is a model under `source`: it has one of the known
/// endings, or it is an Ollama file called `model`.
pub open spec fn is_model_name(file_name: Seq<char>, source: ModelSource) -> bool {
    ||| ends_with(file_name, ".gguf"@)
    ||| ends_with(file_name, ".bin"@)
    ||| ends_with(file_name, ".safetensors"@)
    ||| (source == ModelSource::Ollama && file_name == "model"@)
}

/// The file at `path` is a model under `source`.
pub open spec fn qualifies(path: Seq<char>, source: ModelSource) -> bool {
    match file_name(path) {
        Some(name) => is_model_name(name, source),
        None => false,
    }
}

/// The text that follows the `manifests` segment of `path`, up to the next
/// such segment, where `path` has one in either way of writing separators.
pub open spec fn manifest_remainder(path: Seq<char>) -> Option<Seq<char>> {
    if contains(path, "/manifests/"@) {
        after_first(path, "/manifests/"@)
    } else {
        after_first(path, "\\manifests\\"@)
    }
}

/// The separator by which the text after `manifests` is cut: `/` where it
/// holds one, else `\`.
pub open spec fn remainder_separator(remainder: Seq<char>) -> Seq<char> {
    if contains(remainder, seq!['/']) {
        seq!['/']
    } else {
        seq!['\\']
    }
}

/// The name that the text after `manifests` gives: its first two
/// components joined by a colon, or all of it where it has only one.
pub open spec fn manifest_name(remainder: Seq<char>) -> Seq<char> {
    let separator = remainder_separator(remainder);
    match after_first(remainder, separator) {
        Some(tag) => before_first(remainder, separator) + seq![':'] + tag,
        None => remainder,
    }
}

/// The display name of the model at `path` under `source`.
pub open spec fn model_name(path: Seq<char>, source: ModelSource) -> Seq<char> {
    match source {
        ModelSource::Ollama => match manifest_remainder(path) {
            Some(remainder) => manifest_name(remainder),
            None => file_stem(path),
        },
        _ => file_stem(path),
    }
}

/// The model that the file at `path` is, given its size where that could
/// be read. A size that could not be read counts as zero.
pub open spec fn model_at(path: Seq<char>, size: Option<u64>, source: ModelSource)
    -> LocalModelView {
    LocalModelView {
        name: model_name(path, source),
        path,
        size_bytes: match size {
            Some(n) => n,
            None => 0,
        },
        source,
        format: match file_name(path) {
            Some(name) => format_of(name),
            None => None,
        },
    }
}

/// Whether `s` ends with `suffix`.
fn ends_in(s: &[char], suffix: &str) -> (r: bool)
    ensures
        r == ends_with(s@, suffix@),
{
    let t = chars_of(suffix);
    has_suffix(s, t.as_slice())
}

/// The format that a file name stands for.
pub fn determine_model_format(filename: &str) -> (format: Option<String>)
    ensures
        match format {
            Some(f) => format_of(filename@) == Some(f@),
            None => format_of(filename@) is None,
        },
{
    let name = chars_of(filename);
    if ends_in(name.as_slice(), ".gguf") {
        Some("GGUF".to_owned())
    } else if ends_in(name.as_slice(), ".bin") {
        Some("BIN".to_owned())
    } else if ends_in(name.as_slice(), ".safetensors") {
        Some("SafeTensors".to_owned())
    } else {
        None
    }
}

/// Whether a file of this name is a model under `source`.
pub fn is_model_file_name(file_name: &str, source: &ModelSource) -> (r: bool)
    ensures
        r == is_model_name(file_name@, *source),
{
    let name = chars_of(file_name);
    let s = name.as_slice();
    if ends_in(s, ".gguf") || ends_in(s, ".bin") || ends_in(s, ".safetensors") {
        return true;
    }
    match source {
        ModelSource::Ollama => {
            let model = chars_of("model");
            same_text(s, model.as_slice())
        },
        _ => false,
    }
}

/// The stem of the file name of `path`, whose characters are `chars`.
fn stem_of_path(path: &str, chars: &[char]) -> (stem: String)
    requires
        chars@ == path@,
    ensures
        stem@ == file_stem(path@),
{
    match file_name_bounds(chars) {
        Some((start, end)) => {
            let name = slice_subrange(chars, start, end);
            let len = stem_length(name);
            assert(name@.take(len as int) =~= path@.subrange(start as int, start + len));
            path.substring_char(start, start + len).to_owned()
        },
        None => String::new(),
    }
}

/// The name that the characters of `path` from `from` to `to` give, read
/// as the text after a `manifests` segment.
fn name_from_manifest(path: &str, chars: &[char], from: usize, to: usize) -> (name: String)
    requires
        chars@ == path@,
        from <= to <= chars.len(),
    ensures
        name@ == manifest_name(path@.subrange(from as int, to as int)),
{
    let remainder = slice_subrange(chars, from, to);
    let slash = single('/');
    let separator = if find(remainder, slash.as_slice(), 0).is_some() {
        slash
    } else {
        single('\\')
    };
    assert(separator@ == remainder_separator(remainder@));
    match second_piece(remainder, separator.as_slice()) {
        Some((a, b)) => {
            let e = first_piece_end(remainder, separator.as_slice(), 0);
            let mut name = path.substring_char(from, from + e).to_owned();
            name.append(":");
            name.append(path.substring_char(from + a, from + b));
            proof {
                reveal_strlit(":");
                assert(":"@ =~= seq![':']);
                assert(path@.subrange(from as int, from + e) =~= remainder@.subrange(0, e as int));
                assert(path@.subrange(from + a, from + b) =~= remainder@.subrange(
                    a as int,
                    b as int,
                ));
            }
            name
        },
        None => path.substring_char(from, to).to_owned(),
    }
}

/// The display name of the model at `path` under `source`.
pub fn extract_model_name(path: &str, source: &ModelSource) -> (name: String)
    ensures
        name@ == model_name(path@, *source),
{
    let chars = chars_of(path);
    let s = chars.as_slice();
    match source {
        ModelSource::Ollama => {
            let forward = chars_of("/manifests/");
            let piece = if find(s, forward.as_slice(), 0).is_some() {
                second_piece(s, forward.as_slice())
            } else {
                let backward = chars_of("\\manifests\\");
                second_piece(s, backward.as_slice())
            };
            match piece {
                Some((from, to)) => name_from_manifest(path, s, from, to),
                None => stem_of_path(path, s),
            }
        },
        _ => stem_of_path(path, s),
    }
}

/// The model that the file at `path` is under `source`, if it is one.
/// `size_bytes` is the file's size where it could be read.
pub fn try_parse_model_file(path: &str, size_bytes: Option<u64>, source: &ModelSource) -> (model:
    Option<LocalModel>)
    ensures
        match model {
            Some(m) => qualifies(path@, *source) && m@ == model_at(path@, size_bytes, *source),
            None => !qualifies(path@, *source),
        },
{
    let chars = chars_of(path);
    let s = chars.as_slice();
    let (start, end) = match file_name_bounds(s) {
        Some(bounds) => bounds,
        None => {
            return None;
        },
    };
    let file_name = path.substring_char(start, end);
    if !is_model_file_name(file_name, source) {
        return None;
    }
    let size: u64 = match size_bytes {
        Some(n) => n,
        None => 0,
    };
    Some(
        LocalModel {
            name: extract_model_name(path, source),
            path: path.to_owned(),
            size_bytes: size,
            source: *source,
            format: determine_model_format(file_name),
        },
    )
}

/// A file called `model` is a model under Ollama and under no other source,
/// wherever it lies, and it has no format.
pub proof fn lemma_file_called_model(path: Seq<char>)
    requires
        file_name(path) == Some("model"@),
    ensures
        qualifies(path, ModelSource::Ollama),
        !qualifies(path, ModelSource::LmStudio),
        !qualifies(path, ModelSource::Other),
        format_of("model"@) is None,
{
    reveal_strlit("model");
    reveal_strlit(".gguf");
    reveal_strlit(".bin");
    reveal_strlit(".safetensors");
    let name = "model"@;
    assert(!ends_with(name, ".gguf"@)) by {
        if ends_with(name, ".gguf"@) {
            assert(name.subrange(0, 5)[0] == 'm');
        }
    }
    assert(!ends_with(name, ".bin"@)) by {
        if ends_with(name, ".bin"@) {
            assert(name.subrange(1, 5)[0] == 'o');
        }
    }
    assert(!ends_with(name, ".safetensors"@));
}

/// A name that ends in `.gguf` is a model under every source, and its
/// format is GGUF.
pub proof fn lemma_gguf_name(base: Seq<char>, source: ModelSource)
    ensures
        is_model_name(base + ".gguf"@, source),
        format_of(base + ".gguf"@) == Some("GGUF"@),
{
    let name = base + ".gguf"@;
    assert(name.subrange(name.len() - ".gguf"@.len(), name.len() as int) =~= ".gguf"@);
}

/// Under a source other than Ollama, the file `base.gguf` in any directory
/// is a model whose name is `base`: for every base that is not empty and
/// holds no separator.
pub proof fn lemma_named_by_stem(
    directory: Seq<char>,
    separator: char,
    base: Seq<char>,
    size: Option<u64>,
    source: ModelSource,
)
    requires
        is_separator(separator),
        base.len() > 0,
        forall|i: int| 0 <= i < base.len() ==> !is_separator(base[i]),
        source != ModelSource::Ollama,
    ensures
        qualifies(directory + seq![separator] + (base + ".gguf"@), source),
        model_at(directory + seq![separator] + (base + ".gguf"@), size, source).name == base,
        model_at(directory + seq![separator] + (base + ".gguf"@), size, source).format == Some(
            "GGUF"@,
        ),
{
    reveal_strlit(".gguf");
    reveal_strlit("gguf");
    let name = base + ".gguf"@;
    assert(name =~= base + seq!['.'] + "gguf"@);
    assert forall|i: int| 0 <= i < name.len() implies !is_separator(name[i]) by {
        if i < base.len() {
            assert(name[i] == base[i]);
        }
    }
    assert(name.len() >= 6);
    lemma_file_name_of_joined(directory, separator, name);
    lemma_stem_of_name(base, "gguf"@);
    lemma_gguf_name(base, source);
}

/// The text after `manifests` names a model by its first two components:
/// where it is a repository, a separator and a tag, with nothing behind
/// them or more behind another separator, the name is the repository, a
/// colon and the tag. This holds for `/`, and for `\` where the text
/// holds no `/`.
pub proof fn lemma_manifest_name(
    repository: Seq<char>,
    separator: char,
    tag: Seq<char>,
    more: Seq<char>,
)
    requires
        is_separator(separator),
        forall|i: int| 0 <= i < repository.len() ==> !is_separator(repository[i]),
        forall|i: int| 0 <= i < tag.len() ==> !is_separator(tag[i]),
        more.len() == 0 || more[0] == separator,
        separator == '\\' ==> forall|i: int| 0 <= i < more.len() ==> more[i] != '/',
    ensures
        manifest_name(repository + seq![separator] + tag + more) == repository + seq![':'] + tag,
{
    let text = repository + seq![separator] + tag + more;
    let first: int = repository.len() as int;
    let from: int = first + 1;
    let to: int = from + tag.len();
    assert(text[first] == separator);
    assert forall|j: int| 0 <= j < first implies text[j] == repository[j] by {}
    assert forall|j: int| from <= j < to implies text[j] == tag[j - from] by {}
    assert forall|j: int| to <= j < text.len() implies text[j] == more[j - to] by {}
    if separator == '/' {
        lemma_occurs_single(text, '/', first);
        lemma_contains(text, seq!['/']);
    } else {
        assert forall|j: int| !occurs_at(text, seq!['/'], j) by {
            lemma_occurs_single(text, '/', j);
        }
        lemma_contains(text, seq!['/']);
    }
    let pattern = seq![separator];
    assert(pattern == remainder_separator(text));
    assert forall|j: int| 0 <= j < first implies !occurs_at(text, pattern, j) by {
        lemma_occurs_single(text, separator, j);
    }
    lemma_occurs_single(text, separator, first);
    lemma_find_first(text, pattern, 0, first);
    assert forall|j: int| from <= j < to implies !occurs_at(text, pattern, j) by {
        lemma_occurs_single(text, separator, j);
    }
    if more.len() == 0 {
        assert forall|j: int| from <= j implies !occurs_at(text, pattern, j) by {
            lemma_occurs_single(text, separator, j);
        }
        lemma_find_none(text, pattern, from);
    } else {
        lemma_occurs_single(text, separator, to);
        lemma_find_first(text, pattern, from, to);
    }
    assert(piece_end(text, pattern, from) == to);
    assert(text.subrange(from, to) =~= tag);
    assert(text.subrange(0, first) =~= repository);
}

/// The `manifests` segment, written with `separator` on both sides.
pub open spec fn manifests_marker(separator: char) -> Seq<char> {
    seq![separator] + "manifests"@ + seq![separator]
}

/// Under Ollama, a file that lies below `manifests`, then a repository,
/// then a tag, is named by the repository, a colon and the tag. This holds
/// in either way of writing separators, for every directory above that
/// does not itself hold the word `manifests`, and every tag but that
/// word. With `\` as the separator the directory above must hold no `/`.
pub proof fn lemma_name_below_manifests(
    above: Seq<char>,
    separator: char,
    repository: Seq<char>,
    tag: Seq<char>,
    file: Seq<char>,
)
    requires
        is_separator(separator),
        !contains(above, "manifests"@),
        separator == '\\' ==> forall|i: int| 0 <= i < above.len() ==> above[i] != '/',
        forall|i: int| 0 <= i < repository.len() ==> !is_separator(repository[i]),
        forall|i: int| 0 <= i < tag.len() ==> !is_separator(tag[i]),
        forall|i: int| 0 <= i < file.len() ==> !is_separator(file[i]),
        tag != "manifests"@,
    ensures
        model_name(
            above + manifests_marker(separator) + repository + seq![separator] + tag + seq![
                separator,
            ] + file,
            ModelSource::Ollama,
        ) == repository + seq![':'] + tag,
{
    reveal_strlit("manifests");
    reveal_strlit("/manifests/");
    reveal_strlit("\\manifests\\");
    let word = "manifests"@;
    let marker = manifests_marker(separator);
    let more = seq![separator] + file;
    let remainder = repository + seq![separator] + tag + more;
    let path = above + marker + repository + seq![separator] + tag + seq![separator] + file;
    let at: int = above.len() as int;
    let from: int = at + 11;
    let first: int = from + repository.len();
    let second: int = first + 1 + tag.len();
    assert(marker.len() == 11);
    assert(marker[0] == separator && marker[10] == separator);
    assert forall|k: int| 1 <= k <= 9 implies marker[k] == word[k - 1] && !is_separator(
        marker[k],
    ) by {}
    assert(path =~= above + marker + remainder);
    assert forall|i: int| 0 <= i < at implies path[i] == above[i] by {}
    assert forall|i: int| at <= i < from implies path[i] == marker[i - at] by {}
    assert forall|i: int| from <= i < path.len() implies path[i] == remainder[i - from] by {}
    assert forall|i: int| from <= i < path.len() && is_separator(path[i]) implies i == first || i
        == second by {
        let k = i - from;
        if k < repository.len() {
            assert(remainder[k] == repository[k]);
        } else if first < i < second {
            assert(remainder[k] == tag[i - first - 1]);
        } else if i > second {
            assert(remainder[k] == file[i - second - 1]);
        }
    }
    assert(path.subrange(at, at + 11) =~= marker);
    assert(occurs_at(path, marker, at));
    assert forall|j: int| 0 <= j < at implies !occurs_at(path, marker, j) by {
        if occurs_at(path, marker, j) {
            let found = path.subrange(j, j + 11);
            assert forall|k: int| 0 <= k < 11 implies path[j + k] == marker[k] by {
                assert(found[k] == path[j + k]);
            }
            if j + 10 <= at {
                assert(above.subrange(j + 1, j + 10) =~= word) by {
                    assert forall|k: int| 0 <= k < 9 implies above.subrange(j + 1, j + 10)[k]
                        == word[k] by {
                        assert(path[j + 1 + k] == marker[k + 1]);
                    }
                }
                assert(occurs_at(above, word, j + 1));
                lemma_contains(above, word);
            } else {
                assert(path[at] == marker[at - j]);
            }
        }
    }
    lemma_find_first(path, marker, 0, at);
    assert forall|j: int| from <= j implies !occurs_at(path, marker, j) by {
        if occurs_at(path, marker, j) {
            let found = path.subrange(j, j + 11);
            assert forall|k: int| 0 <= k < 11 implies path[j + k] == marker[k] by {
                assert(found[k] == path[j + k]);
            }
            assert(path[j] == marker[0]);
            assert(path[j + 10] == marker[10]);
            assert(j == first && j + 10 == second);
            assert(tag =~= word) by {
                assert forall|k: int| 0 <= k < 9 implies tag[k] == word[k] by {
                    assert(path[j + 1 + k] == marker[k + 1]);
                    assert(path[first + 1 + k] == remainder[first + 1 + k - from]);
                }
            }
        }
    }
    lemma_find_none(path, marker, from);
    assert(path.subrange(from, path.len() as int) =~= remainder);
    assert(after_first(path, marker) == Some(remainder));
    if separator == '/' {
        assert(marker =~= "/manifests/"@);
    } else {
        assert(marker =~= "\\manifests\\"@);
        assert forall|j: int| !occurs_at(path, "/manifests/"@, j) by {
            if occurs_at(path, "/manifests/"@, j) {
                assert(path.subrange(j, j + 11)[0] == path[j]);
                assert(path[j] == '/');
                if j < at {
                } else if j < from {
                } else {
                    assert(j == first || j == second);
                }
            }
        }
        lemma_contains(path, "/manifests/"@);
    }
    lemma_contains(path, marker);
    assert(manifest_remainder(path) == Some(remainder));
    lemma_manifest_name(repository, separator, tag, more);
}

} // verus!
