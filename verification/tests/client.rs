use glass_easel_analyzer::client::{client_supported, ClientFeatures};

fn features(a: Option<bool>, b: Option<bool>, c: Option<bool>, d: Option<bool>) -> ClientFeatures {
    ClientFeatures { workspace_folders: a, watched_files_registration: b, definition_links: c, declaration_links: d }
}

#[test]
fn client_needs_every_capability() {
    assert!(client_supported(&features(Some(true), Some(true), Some(true), Some(true))));
    assert!(!client_supported(&features(None, Some(true), Some(true), Some(true))));
    assert!(!client_supported(&features(Some(true), Some(false), Some(true), Some(true))));
    assert!(!client_supported(&features(Some(true), Some(true), None, Some(true))));
    assert!(!client_supported(&features(Some(true), Some(true), Some(true), Some(false))));
}
