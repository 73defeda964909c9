use dockedit::mac_app::{bundle_stem, resolve_display_name, BundleError, MacApp};

fn descriptor(id: Option<&str>, display: Option<&str>, name: Option<&str>) -> Vec<u8> {
    let mut d = plist::Dictionary::new();
    if let Some(v) = id {
        d.insert("CFBundleIdentifier".to_string(), plist::Value::String(v.to_string()));
    }
    if let Some(v) = display {
        d.insert("CFBundleDisplayName".to_string(), plist::Value::String(v.to_string()));
    }
    if let Some(v) = name {
        d.insert("CFBundleName".to_string(), plist::Value::String(v.to_string()));
    }
    let mut out = Vec::new();
    plist::Value::Dictionary(d).to_writer_xml(&mut out).unwrap();
    out
}

#[test]
fn example_scenario_resolves_all_fields() {
    let bytes = descriptor(Some("com.example.Foo"), Some("Foo App"), None);
    let app = MacApp::from_descriptor("/Applications/Foo.app", &bytes).unwrap();
    assert_eq!(app.path, "/Applications/Foo.app");
    assert_eq!(app.display_name, "Foo App");
    assert_eq!(app.bundle_id, "com.example.Foo");
}

#[test]
fn display_name_falls_back_to_file_stem() {
    let bytes = descriptor(Some("com.example.Foo"), None, None);
    let app = MacApp::from_descriptor("/Applications/Foo.app", &bytes).unwrap();
    assert_eq!(app.display_name, "Foo");
}

#[test]
fn display_name_falls_back_to_generic_name() {
    let bytes = descriptor(Some("com.example.Foo"), None, Some("Foo Generic"));
    let app = MacApp::from_descriptor("/Applications/Foo.app", &bytes).unwrap();
    assert_eq!(app.display_name, "Foo Generic");
}

#[test]
fn explicit_display_name_wins_over_generic() {
    let bytes = descriptor(Some("com.example.Foo"), Some("Shown"), Some("Generic"));
    let app = MacApp::from_descriptor("/Applications/Foo.app", &bytes).unwrap();
    assert_eq!(app.display_name, "Shown");
}

#[test]
fn missing_identifier_is_rejected() {
    let bytes = descriptor(None, Some("Foo App"), Some("Foo"));
    let r = MacApp::from_descriptor("/Applications/Foo.app", &bytes);
    assert_eq!(
        r,
        Err(BundleError::MissingBundleId("/Applications/Foo.app".to_string()))
    );
}

#[test]
fn path_without_bundle_extension_is_invalid() {
    let bytes = descriptor(Some("com.example.Foo"), None, None);
    let r = MacApp::from_descriptor("/Applications/Foo.txt", &bytes);
    assert_eq!(
        r,
        Err(BundleError::InvalidBundle("/Applications/Foo.txt".to_string()))
    );
}

#[test]
fn garbage_descriptor_is_malformed() {
    let r = MacApp::from_descriptor("/Applications/Foo.app", b"not a plist");
    assert!(matches!(r, Err(BundleError::DescriptorMalformed(_))));
}

#[test]
fn malformed_descriptor_error_names_the_bundle() {
    let r = MacApp::from_descriptor("/Applications/Foo.app", b"not a plist");
    match r {
        Err(BundleError::DescriptorMalformed(m)) => {
            assert!(m.starts_with("/Applications/Foo.app: "));
        }
        other => panic!("expected a malformed-descriptor error, got {:?}", other),
    }
}

#[test]
fn wrongly_typed_identifier_is_malformed() {
    let mut d = plist::Dictionary::new();
    d.insert("CFBundleIdentifier".to_string(), plist::Value::Integer(plist::Integer::from(3i64)));
    let mut bytes = Vec::new();
    plist::Value::Dictionary(d).to_writer_xml(&mut bytes).unwrap();
    let r = MacApp::from_descriptor("/Applications/Foo.app", &bytes);
    assert!(matches!(r, Err(BundleError::DescriptorMalformed(_))));
}

#[test]
fn bundle_stem_strips_extension() {
    assert_eq!(bundle_stem("/Applications/Foo.app"), Some("Foo".to_string()));
}

#[test]
fn bundle_stem_ignores_trailing_separators() {
    assert_eq!(bundle_stem("/Applications/Bar.app/"), Some("Bar".to_string()));
}

#[test]
fn bundle_stem_strips_repeated_extensions() {
    assert_eq!(bundle_stem("/tmp/Foo.app.app"), Some("Foo".to_string()));
}

#[test]
fn bundle_stem_keeps_inner_dots() {
    assert_eq!(bundle_stem("/opt/My.Tool.app"), Some("My.Tool".to_string()));
}

#[test]
fn bundle_stem_rejects_bare_extension() {
    assert_eq!(bundle_stem("/Applications/.app"), None);
    assert_eq!(bundle_stem("app"), None);
    assert_eq!(bundle_stem("/Applications/Foo"), None);
    assert_eq!(bundle_stem(""), None);
}

#[test]
fn resolve_display_name_takes_first_present() {
    let sources = vec![None, Some("second".to_string()), Some("third".to_string())];
    assert_eq!(resolve_display_name(&sources), Some("second".to_string()));
    let none: Vec<Option<String>> = vec![None, None];
    assert_eq!(resolve_display_name(&none), None);
    let empty: Vec<Option<String>> = Vec::new();
    assert_eq!(resolve_display_name(&empty), None);
}
