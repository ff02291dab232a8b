//! Whether Ollama is installed and running, decided from what was found on
//! the host.

use vstd::prelude::*;
use crate::platform::Platform;
use crate::text::{chars_of, last_word, last_word_bounds};

verus! {

/// How far Ollama is present on the host.
#[derive(Clone, Copy, Debug, PartialEq, Eq)]
pub enum OllamaStatus {
    NotInstalled,
    InstalledNotRunning,
    Running,
}

/// What the search for Ollama gave.
#[derive(Clone, Debug, PartialEq, Eq)]
pub struct OllamaDetectionResult {
    pub status: OllamaStatus,
    pub binary_path: Option<String>,
    pub api_accessible: bool,
    pub version: Option<String>,
}

/// The text of a string that may be absent.
pub open spec fn text_of(s: Option<String>) -> Option<Seq<char>> {
    match s {
        Some(t) => Some(t@),
        None => None,
    }
}

/// The places where Ollama's binary is looked for when it is not on the
/// search path, in the order in which they are tried.
pub open spec fn fallback_paths(platform: Platform) -> Seq<Seq<char>> {
    match platform {
        Platform::Windows => seq![
            "C:\\Program Files\\Ollama\\ollama.exe"@,
            "C:\\Program Files (x86)\\Ollama\\ollama.exe"@,
        ],
        Platform::MacOs => seq![
            "/usr/local/bin/ollama"@,
            "/opt/homebrew/bin/ollama"@,
            "/Applications/Ollama.app/Contents/Resources/ollama"@,
        ],
        Platform::Linux => seq![
            "/usr/local/bin/ollama"@,
            "/usr/bin/ollama"@,
            "/opt/ollama/bin/ollama"@,
        ],
    }
}

/// The texts of a sequence of literals.
pub open spec fn literal_texts(paths: Seq<&'static str>) -> Seq<Seq<char>> {
    paths.map_values(|p: &'static str| p@)
}

/// The places where Ollama's binary is looked for when it is not on the
/// search path.
pub fn fallback_binary_paths(platform: Platform) -> (paths: Vec<&'static str>)
    ensures
        literal_texts(paths@) == fallback_paths(platform),
{
    let mut paths: Vec<&'static str> = Vec::new();
    match platform {
        Platform::Windows => {
            paths.push("C:\\Program Files\\Ollama\\ollama.exe");
            paths.push("C:\\Program Files (x86)\\Ollama\\ollama.exe");
        },
        Platform::MacOs => {
            paths.push("/usr/local/bin/ollama");
            paths.push("/opt/homebrew/bin/ollama");
            paths.push("/Applications/Ollama.app/Contents/Resources/ollama");
        },
        Platform::Linux => {
            paths.push("/usr/local/bin/ollama");
            paths.push("/usr/bin/ollama");
            paths.push("/opt/ollama/bin/ollama");
        },
    }
    assert(literal_texts(paths@) =~= fallback_paths(platform));
    paths
}

/// The place `i` of `paths` exists, by what `exists` says of it. A place of
/// which it says nothing does not.
pub open spec fn is_there(exists: Seq<bool>, i: int) -> bool {
    0 <= i < exists.len() && exists[i]
}

/// The first of `paths` that exists, looking at the first `n` of them.
pub open spec fn first_existing(paths: Seq<Seq<char>>, exists: Seq<bool>, n: int) -> Option<
    Seq<char>,
>
    decreases n,
{
    if n <= 0 || n > paths.len() {
        None
    } else {
        match first_existing(paths, exists, n - 1) {
            Some(p) => Some(p),
            None => if is_there(exists, n - 1) {
                Some(paths[n - 1])
            } else {
                None
            },
        }
    }
}

/// Where Ollama's binary is: where the search path has it, else the first
/// of the fallback places that exists.
pub open spec fn binary_location(
    on_search_path: Option<Seq<char>>,
    platform: Platform,
    exists: Seq<bool>,
) -> Option<Seq<char>> {
    match on_search_path {
        Some(path) => Some(path),
        None => first_existing(
            fallback_paths(platform),
            exists,
            fallback_paths(platform).len() as int,
        ),
    }
}

/// Where Ollama's binary is. `on_search_path` is where the search path has
/// it, and `exists` says of each fallback place, in order, whether it
/// exists.
pub fn find_ollama_binary(on_search_path: Option<String>, platform: Platform, exists: &[bool]) -> (found:
    Option<String>)
    ensures
        text_of(found) == binary_location(text_of(on_search_path), platform, exists@),
{
    match on_search_path {
        Some(path) => {
            return Some(path);
        },
        None => {},
    }
    let paths = fallback_binary_paths(platform);
    let ghost all = fallback_paths(platform);
    let mut i: usize = 0;
    while i < paths.len()
        invariant
            i <= paths.len(),
            all == fallback_paths(platform),
            literal_texts(paths@) == all,
            on_search_path is None,
            first_existing(all, exists@, i as int) is None,
        decreases paths.len() - i,
    {
        assert(literal_texts(paths@)[i as int] == paths@[i as int]@);
        if i < exists.len() && exists[i] {
            proof {
                lemma_first_existing_stays(all, exists@, i + 1, all.len() as int);
            }
            return Some(paths[i].to_owned());
        }
        i += 1;
    }
    None
}

/// A place found among the first `n` is the one found among the first `m`,
/// for any `m` from `n` on.
pub proof fn lemma_first_existing_stays(paths: Seq<Seq<char>>, exists: Seq<bool>, n: int, m: int)
    requires
        0 <= n <= m <= paths.len(),
        first_existing(paths, exists, n) is Some,
    ensures
        first_existing(paths, exists, m) == first_existing(paths, exists, n),
    decreases m - n,
{
    if n < m {
        lemma_first_existing_stays(paths, exists, n, m - 1);
    }
}

/// The version that the output of Ollama's version command states: its
/// last word. There is none where the command gave no output.
pub open spec fn version_in(output: Option<Seq<char>>) -> Option<Seq<char>> {
    match output {
        Some(text) => last_word(text),
        None => None,
    }
}

/// The version that the output of Ollama's version command states.
/// `output` is absent where the command could not be run or failed.
pub fn get_ollama_version(output: Option<&str>) -> (version: Option<String>)
    ensures
        text_of(version) == version_in(
            match output {
                Some(text) => Some(text@),
                None => None,
            },
        ),
{
    match output {
        Some(text) => {
            let chars = chars_of(text);
            match last_word_bounds(chars.as_slice()) {
                Some((a, b)) => Some(text.substring_char(a, b).to_owned()),
                None => None,
            }
        },
        None => None,
    }
}

/// The status that a binary and the answer of the interface give.
pub open spec fn status_of(has_binary: bool, api_accessible: bool) -> OllamaStatus {
    if !has_binary {
        OllamaStatus::NotInstalled
    } else if api_accessible {
        OllamaStatus::Running
    } else {
        OllamaStatus::InstalledNotRunning
    }
}

/// What the search for Ollama gave. Without a binary nothing else counts:
/// the interface is taken not to answer and no version is given.
pub fn detect_ollama_installation(
    binary_path: Option<String>,
    api_accessible: bool,
    version: Option<String>,
) -> (result: OllamaDetectionResult)
    ensures
        result.status == status_of(binary_path is Some, api_accessible),
        result.binary_path == binary_path,
        result.api_accessible == (binary_path is Some && api_accessible),
        result.version == (if binary_path is Some {
            version
        } else {
            None
        }),
{
    if binary_path.is_none() {
        return OllamaDetectionResult {
            status: OllamaStatus::NotInstalled,
            binary_path: None,
            api_accessible: false,
            version: None,
        };
    }
    let status = if api_accessible {
        OllamaStatus::Running
    } else {
        OllamaStatus::InstalledNotRunning
    };
    OllamaDetectionResult { status, binary_path, api_accessible, version }
}

} // verus!
