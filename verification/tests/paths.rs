use model_inventory::paths::{file_name_bounds, is_separator_char, stem_length};

fn file_name(path: &str) -> Option<String> {
    let c: Vec<char> = path.chars().collect();
    file_name_bounds(&c).map(|(a, b)| c[a..b].iter().collect())
}

fn stem(name: &str) -> String {
    let c: Vec<char> = name.chars().collect();
    c[..stem_length(&c)].iter().collect()
}

#[test]
fn both_slashes_separate() {
    assert!(is_separator_char('/'));
    assert!(is_separator_char('\\'));
    assert!(!is_separator_char(':'));
    assert!(!is_separator_char('.'));
}

#[test]
fn file_name_is_the_last_segment_that_names_something() {
    assert_eq!(file_name("/a/b/c.gguf"), Some("c.gguf".to_string()));
    assert_eq!(file_name("c.gguf"), Some("c.gguf".to_string()));
    assert_eq!(file_name("C:\\a\\c.gguf"), Some("c.gguf".to_string()));
    assert_eq!(file_name("a/b\\c"), Some("c".to_string()));
    assert_eq!(file_name("/a/b/"), Some("b".to_string()));
    assert_eq!(file_name("/a/b//"), Some("b".to_string()));
    assert_eq!(file_name("/a/b/."), Some("b".to_string()));
    assert_eq!(file_name("/a/b/./"), Some("b".to_string()));
    assert_eq!(file_name("/a/b/././/."), Some("b".to_string()));
    assert_eq!(file_name("/a/.b"), Some(".b".to_string()));
    assert_eq!(file_name("/a/b."), Some("b.".to_string()));
    assert_eq!(file_name("/a/..."), Some("...".to_string()));
    assert_eq!(file_name("a"), Some("a".to_string()));
}

#[test]
fn some_paths_have_no_file_name() {
    assert_eq!(file_name(""), None);
    assert_eq!(file_name("/"), None);
    assert_eq!(file_name("//"), None);
    assert_eq!(file_name("."), None);
    assert_eq!(file_name("./"), None);
    assert_eq!(file_name("/."), None);
    assert_eq!(file_name(".."), None);
    assert_eq!(file_name("/a/.."), None);
    assert_eq!(file_name("/a/../"), None);
    assert_eq!(file_name("/a/../."), None);
    assert_eq!(file_name("\\"), None);
}

#[test]
fn file_names_agree_with_the_standard_library_on_forward_slashes() {
    let paths = [
        "", "/", "a", "/a", "a/", "a/b", "/a/b/", "a//b", "a/./b", "a/b/.", "a/b/./", ".", "./",
        "./a", "..", "a/..", "../a", "a/../", "/.", "/..", "...", "a/...", ".a", "a.", "a/.b/",
        "/x/manifests/llama3/8b/model", "é/ü.gguf",
    ];
    for p in paths {
        let theirs = std::path::Path::new(p)
            .file_name()
            .map(|n| n.to_string_lossy().to_string());
        assert_eq!(file_name(p), theirs, "on {:?}", p);
    }
}

#[test]
fn stem_ends_at_the_last_dot() {
    assert_eq!(stem("foo.gguf"), "foo");
    assert_eq!(stem("foo.tar.gz"), "foo.tar");
    assert_eq!(stem("foo"), "foo");
    assert_eq!(stem(".foo"), ".foo");
    assert_eq!(stem(".foo.bar"), ".foo");
    assert_eq!(stem("foo."), "foo");
    assert_eq!(stem("..."), "..");
    assert_eq!(stem(""), "");
}

#[test]
fn stems_agree_with_the_standard_library() {
    for name in ["a", "a.b", ".a", "a.", "a.b.c", "...", ".a.b", "model", "x.gguf", "ü.é", "a..b"] {
        let theirs = std::path::Path::new(name)
            .file_stem()
            .map(|n| n.to_string_lossy().to_string())
            .unwrap_or_default();
        assert_eq!(stem(name), theirs, "on {:?}", name);
    }
}
