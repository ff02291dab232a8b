use model_inventory::detection::{
    detect_ollama_installation, fallback_binary_paths, find_ollama_binary, get_ollama_version,
    OllamaDetectionResult, OllamaStatus,
};
use model_inventory::platform::Platform;

#[test]
fn without_a_binary_ollama_is_not_installed() {
    let result = detect_ollama_installation(None, true, Some("0.1.32".to_string()));
    assert_eq!(
        result,
        OllamaDetectionResult {
            status: OllamaStatus::NotInstalled,
            binary_path: None,
            api_accessible: false,
            version: None,
        }
    );
}

#[test]
fn with_a_binary_the_interface_decides() {
    let path = Some("/usr/bin/ollama".to_string());
    let running = detect_ollama_installation(path.clone(), true, Some("0.1.32".to_string()));
    assert_eq!(running.status, OllamaStatus::Running);
    assert_eq!(running.binary_path, path);
    assert!(running.api_accessible);
    assert_eq!(running.version, Some("0.1.32".to_string()));
    let stopped = detect_ollama_installation(path.clone(), false, None);
    assert_eq!(stopped.status, OllamaStatus::InstalledNotRunning);
    assert_eq!(stopped.binary_path, path);
    assert!(!stopped.api_accessible);
    assert_eq!(stopped.version, None);
}

#[test]
fn version_is_the_last_word_of_the_output() {
    assert_eq!(get_ollama_version(Some("ollama version is 0.1.32\n")), Some("0.1.32".to_string()));
    assert_eq!(get_ollama_version(Some("0.5.0")), Some("0.5.0".to_string()));
    assert_eq!(get_ollama_version(Some("  \n")), None);
    assert_eq!(get_ollama_version(Some("")), None);
    assert_eq!(get_ollama_version(None), None);
}

#[test]
fn search_path_wins_over_the_fallback_places() {
    let found = find_ollama_binary(
        Some("/opt/bin/ollama".to_string()),
        Platform::Linux,
        &[true, true, true],
    );
    assert_eq!(found, Some("/opt/bin/ollama".to_string()));
}

#[test]
fn first_fallback_place_that_exists_is_taken() {
    assert_eq!(
        find_ollama_binary(None, Platform::Linux, &[false, true, true]),
        Some("/usr/bin/ollama".to_string())
    );
    assert_eq!(
        find_ollama_binary(None, Platform::Linux, &[true, false, false]),
        Some("/usr/local/bin/ollama".to_string())
    );
    assert_eq!(
        find_ollama_binary(None, Platform::MacOs, &[false, false, true]),
        Some("/Applications/Ollama.app/Contents/Resources/ollama".to_string())
    );
    assert_eq!(
        find_ollama_binary(None, Platform::Windows, &[false, true]),
        Some("C:\\Program Files (x86)\\Ollama\\ollama.exe".to_string())
    );
    assert_eq!(find_ollama_binary(None, Platform::Linux, &[false, false, false]), None);
    // A place of which nothing is said does not exist.
    assert_eq!(find_ollama_binary(None, Platform::Linux, &[]), None);
    assert_eq!(find_ollama_binary(None, Platform::Linux, &[false]), None);
    // What is said of places that there are not is not heard.
    assert_eq!(find_ollama_binary(None, Platform::Windows, &[false, false, true]), None);
}

#[test]
fn fallback_places_depend_on_the_platform() {
    assert_eq!(
        fallback_binary_paths(Platform::Linux),
        vec!["/usr/local/bin/ollama", "/usr/bin/ollama", "/opt/ollama/bin/ollama"]
    );
    assert_eq!(
        fallback_binary_paths(Platform::MacOs),
        vec![
            "/usr/local/bin/ollama",
            "/opt/homebrew/bin/ollama",
            "/Applications/Ollama.app/Contents/Resources/ollama"
        ]
    );
    assert_eq!(
        fallback_binary_paths(Platform::Windows),
        vec![
            "C:\\Program Files\\Ollama\\ollama.exe",
            "C:\\Program Files (x86)\\Ollama\\ollama.exe"
        ]
    );
}
