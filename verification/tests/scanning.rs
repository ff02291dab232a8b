use model_inventory::models::ModelSource;
use model_inventory::scan::{scan_directory_for_models, Entry, Listing, ScanError};

fn file(path: &str, size: u64) -> Entry {
    Entry::File { path: path.to_string(), size_bytes: Some(size) }
}

fn dir(path: &str, entries: Vec<Entry>) -> Entry {
    Entry::Directory { path: path.to_string(), listing: Listing::Entries { entries } }
}

#[test]
fn missing_root_gives_no_models_and_no_error() {
    for source in [ModelSource::Ollama, ModelSource::LmStudio, ModelSource::Other] {
        let found = scan_directory_for_models("/nowhere", &Listing::Missing, &source);
        assert_eq!(found, Ok(vec![]));
    }
}

#[test]
fn unreadable_root_is_an_error() {
    let listing = Listing::Failed { reason: "permission denied".to_string() };
    let outcome = scan_directory_for_models("/root/models", &listing, &ModelSource::Other);
    let error = outcome.expect_err("a directory that cannot be listed gives an error");
    assert_eq!(
        error,
        ScanError::Directory {
            path: "/root/models".to_string(),
            reason: "permission denied".to_string(),
        }
    );
    assert_eq!(error.message(), "Failed to read directory /root/models: permission denied");
}

#[test]
fn models_come_in_the_order_of_the_listing() {
    let listing = Listing::Entries {
        entries: vec![
            file("/m/b.gguf", 2),
            file("/m/readme.txt", 100),
            dir("/m/sub", vec![file("/m/sub/c.bin", 3), dir("/m/sub/deep", vec![file("/m/sub/deep/d.safetensors", 4)])]),
            Entry::Other,
            file("/m/a.gguf", 1),
        ],
    };
    let models = scan_directory_for_models("/m", &listing, &ModelSource::LmStudio)
        .expect("every entry could be read");
    let names: Vec<&str> = models.iter().map(|m| m.name.as_str()).collect();
    assert_eq!(names, vec!["b", "c", "d", "a"]);
    let sizes: Vec<u64> = models.iter().map(|m| m.size_bytes).collect();
    assert_eq!(sizes, vec![2, 3, 4, 1]);
    assert!(models.iter().all(|m| m.source == ModelSource::LmStudio));
    assert_eq!(models[2].path, "/m/sub/deep/d.safetensors");
    assert_eq!(models[2].format, Some("SafeTensors".to_string()));
}

#[test]
fn failure_below_the_root_is_passed_over() {
    let listing = Listing::Entries {
        entries: vec![
            file("/m/a.gguf", 1),
            Entry::Directory {
                path: "/m/locked".to_string(),
                listing: Listing::Failed { reason: "permission denied".to_string() },
            },
            dir(
                "/m/half",
                vec![file("/m/half/lost.gguf", 9), Entry::Failed { reason: "io".to_string() }],
            ),
            Entry::Directory { path: "/m/gone".to_string(), listing: Listing::Missing },
            file("/m/z.bin", 2),
        ],
    };
    let models = scan_directory_for_models("/m", &listing, &ModelSource::Other)
        .expect("the root's own entries could be read");
    let names: Vec<&str> = models.iter().map(|m| m.name.as_str()).collect();
    assert_eq!(names, vec!["a", "z"]);
}

#[test]
fn unreadable_entry_of_the_root_is_an_error() {
    let listing = Listing::Entries {
        entries: vec![
            file("/m/a.gguf", 1),
            Entry::Failed { reason: "stale handle".to_string() },
            Entry::Failed { reason: "second".to_string() },
            file("/m/b.gguf", 2),
        ],
    };
    let error = scan_directory_for_models("/m", &listing, &ModelSource::Other)
        .expect_err("an entry that cannot be read gives an error");
    assert_eq!(error, ScanError::Entry { reason: "stale handle".to_string() });
    assert_eq!(error.message(), "Failed to read directory entry: stale handle");
}

#[test]
fn empty_directory_holds_no_models() {
    let listing = Listing::Entries { entries: vec![] };
    assert_eq!(scan_directory_for_models("/m", &listing, &ModelSource::Ollama), Ok(vec![]));
}

#[test]
fn source_decides_what_a_file_called_model_is() {
    let entries = || vec![Entry::File { path: "/o/manifests/llama3/8b/model".to_string(), size_bytes: None }];
    let under_ollama =
        scan_directory_for_models("/o", &Listing::Entries { entries: entries() }, &ModelSource::Ollama)
            .expect("readable");
    assert_eq!(under_ollama.len(), 1);
    assert_eq!(under_ollama[0].name, "llama3:8b");
    assert_eq!(under_ollama[0].size_bytes, 0);
    let under_other =
        scan_directory_for_models("/o", &Listing::Entries { entries: entries() }, &ModelSource::Other)
            .expect("readable");
    assert!(under_other.is_empty());
}
