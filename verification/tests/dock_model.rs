use dockedit::dock::{Dock, DockError, DockItem, DockItemKind, FileLocation, TileMetadata};
use dockedit::mac_app::MacApp;

fn xml_bytes(v: &plist::Value) -> Vec<u8> {
    let mut out = Vec::new();
    v.to_writer_xml(&mut out).unwrap();
    out
}

fn tile(url: Option<(&str, i32)>, label: Option<&str>, bundle: Option<&str>, kind: &str) -> plist::Value {
    let mut data = plist::Dictionary::new();
    if let Some((u, t)) = url {
        let mut fd = plist::Dictionary::new();
        fd.insert("_CFURLString".to_string(), plist::Value::String(u.to_string()));
        fd.insert("_CFURLStringType".to_string(), plist::Value::Integer(plist::Integer::from(t as i64)));
        data.insert("file-data".to_string(), plist::Value::Dictionary(fd));
    }
    if let Some(l) = label {
        data.insert("file-label".to_string(), plist::Value::String(l.to_string()));
    }
    if let Some(b) = bundle {
        data.insert("bundle-identifier".to_string(), plist::Value::String(b.to_string()));
    }
    let mut entry = plist::Dictionary::new();
    entry.insert("tile-data".to_string(), plist::Value::Dictionary(data));
    entry.insert("tile-type".to_string(), plist::Value::String(kind.to_string()));
    plist::Value::Dictionary(entry)
}

fn doc(apps: Option<Vec<plist::Value>>, others: Option<Vec<plist::Value>>) -> plist::Value {
    let mut top = plist::Dictionary::new();
    if let Some(a) = apps {
        top.insert("persistent-apps".to_string(), plist::Value::Array(a));
    }
    if let Some(o) = others {
        top.insert("persistent-others".to_string(), plist::Value::Array(o));
    }
    plist::Value::Dictionary(top)
}

fn sample_app() -> MacApp {
    MacApp {
        path: "/Applications/Foo.app".to_string(),
        display_name: "Foo App".to_string(),
        bundle_id: "com.example.Foo".to_string(),
    }
}

#[test]
fn load_empty_document_keeps_lists_absent() {
    let bytes = xml_bytes(&doc(None, None));
    let d = Dock::load(&bytes).unwrap();
    assert_eq!(d.applications, None);
    assert_eq!(d.others, None);
}

#[test]
fn load_reads_applications() {
    let bytes = xml_bytes(&doc(
        Some(vec![tile(
            Some(("file:///Applications/Safari.app", 15)),
            Some("Safari"),
            Some("com.apple.Safari"),
            "file-tile",
        )]),
        Some(vec![]),
    ));
    let d = Dock::load(&bytes).unwrap();
    let apps = d.applications.as_ref().unwrap();
    assert_eq!(apps.len(), 1);
    assert_eq!(apps[0].kind, DockItemKind::FileTile);
    let meta = &apps[0].metadata;
    assert_eq!(meta.display_name.as_deref(), Some("Safari"));
    assert_eq!(meta.bundle_id.as_deref(), Some("com.apple.Safari"));
    let loc = meta.location.as_ref().unwrap();
    assert_eq!(loc.url, "file:///Applications/Safari.app");
    assert_eq!(loc.url_type, 15);
    assert_eq!(d.others.as_ref().unwrap().len(), 0);
}

#[test]
fn round_trip_preserves_everything_modeled() {
    let bytes = xml_bytes(&doc(
        Some(vec![
            tile(Some(("file:///Applications/A.app", 15)), Some("A"), Some("com.a"), "file-tile"),
            tile(None, Some("gap"), None, "spacer-tile"),
        ]),
        Some(vec![tile(None, Some("Stuff"), None, "directory-tile")]),
    ));
    let first = Dock::load(&bytes).unwrap();
    let written = first.serialize().unwrap();
    let second = Dock::load(&written).unwrap();
    assert_eq!(first, second);
}

#[test]
fn round_trip_through_binary_serialization() {
    let mut d = Dock { applications: None, others: None };
    d.add_app(&sample_app());
    let written = d.serialize().unwrap();
    let reloaded = Dock::load(&written).unwrap();
    assert_eq!(d, reloaded);
}

#[test]
fn unknown_tile_kind_is_tolerated_and_round_trips() {
    let bytes = xml_bytes(&doc(Some(vec![tile(None, None, None, "widget-tile")]), None));
    let d = Dock::load(&bytes).unwrap();
    let apps = d.applications.as_ref().unwrap();
    assert_eq!(apps[0].kind, DockItemKind::Unknown("widget-tile".to_string()));
    let written = d.serialize().unwrap();
    let again = Dock::load(&written).unwrap();
    assert_eq!(
        again.applications.as_ref().unwrap()[0].kind,
        DockItemKind::Unknown("widget-tile".to_string())
    );
}

#[test]
fn add_app_appends_at_the_end() {
    let bytes = xml_bytes(&doc(
        Some(vec![tile(None, Some("first"), None, "file-tile")]),
        None,
    ));
    let mut d = Dock::load(&bytes).unwrap();
    d.add_app(&sample_app());
    let apps = d.applications.as_ref().unwrap();
    assert_eq!(apps.len(), 2);
    assert_eq!(apps[0].metadata.display_name.as_deref(), Some("first"));
    let new = &apps[1];
    assert_eq!(new.kind, DockItemKind::FileTile);
    assert_eq!(new.metadata.display_name.as_deref(), Some("Foo App"));
    assert_eq!(new.metadata.bundle_id.as_deref(), Some("com.example.Foo"));
    let loc = new.metadata.location.as_ref().unwrap();
    assert_eq!(loc.url, "file:///Applications/Foo.app");
    assert_eq!(loc.url_type, 15);
    assert_eq!(d.others, None);
}

#[test]
fn add_app_turns_absent_into_one_entry() {
    let mut d = Dock { applications: None, others: None };
    d.add_app(&sample_app());
    let apps = d.applications.as_ref().unwrap();
    assert_eq!(apps.len(), 1);
    assert_eq!(apps[0], DockItem::new(&sample_app()));
}

#[test]
fn add_app_does_not_deduplicate() {
    let mut d = Dock { applications: None, others: None };
    d.add_app(&sample_app());
    d.add_app(&sample_app());
    let apps = d.applications.as_ref().unwrap();
    assert_eq!(apps.len(), 2);
    assert_eq!(apps[0], apps[1]);
}

#[test]
fn dock_item_new_builds_the_entry() {
    let item = DockItem::new(&sample_app());
    let expected = DockItem {
        kind: DockItemKind::FileTile,
        metadata: TileMetadata {
            location: Some(FileLocation {
                url: "file:///Applications/Foo.app".to_string(),
                url_type: 15,
            }),
            display_name: Some("Foo App".to_string()),
            bundle_id: Some("com.example.Foo".to_string()),
        },
    };
    assert_eq!(item, expected);
}

#[test]
fn garbage_bytes_are_malformed() {
    let r = Dock::load(b"this is not a property list at all");
    assert!(matches!(r, Err(DockError::Malformed(_))));
}

#[test]
fn wrongly_typed_tile_type_is_malformed() {
    let mut entry = plist::Dictionary::new();
    entry.insert("tile-data".to_string(), plist::Value::Dictionary(plist::Dictionary::new()));
    entry.insert("tile-type".to_string(), plist::Value::Integer(plist::Integer::from(3i64)));
    let bytes = xml_bytes(&doc(Some(vec![plist::Value::Dictionary(entry)]), None));
    assert!(matches!(Dock::load(&bytes), Err(DockError::Malformed(_))));
}

#[test]
fn missing_tile_data_is_malformed() {
    let mut entry = plist::Dictionary::new();
    entry.insert("tile-type".to_string(), plist::Value::String("file-tile".to_string()));
    let bytes = xml_bytes(&doc(Some(vec![plist::Value::Dictionary(entry)]), None));
    assert!(matches!(Dock::load(&bytes), Err(DockError::Malformed(_))));
}

#[test]
fn url_type_out_of_range_is_malformed() {
    let mut fd = plist::Dictionary::new();
    fd.insert("_CFURLString".to_string(), plist::Value::String("file:///x.app".to_string()));
    fd.insert(
        "_CFURLStringType".to_string(),
        plist::Value::Integer(plist::Integer::from(1i64 << 40)),
    );
    let mut data = plist::Dictionary::new();
    data.insert("file-data".to_string(), plist::Value::Dictionary(fd));
    let mut entry = plist::Dictionary::new();
    entry.insert("tile-data".to_string(), plist::Value::Dictionary(data));
    entry.insert("tile-type".to_string(), plist::Value::String("file-tile".to_string()));
    let bytes = xml_bytes(&doc(Some(vec![plist::Value::Dictionary(entry)]), None));
    assert!(matches!(Dock::load(&bytes), Err(DockError::Malformed(_))));
}

#[test]
fn nonstandard_url_type_is_passed_through() {
    let bytes = xml_bytes(&doc(
        Some(vec![tile(Some(("file:///x.app", 9)), None, None, "file-tile")]),
        None,
    ));
    let d = Dock::load(&bytes).unwrap();
    let loc = d.applications.as_ref().unwrap()[0].metadata.location.as_ref().unwrap();
    assert_eq!(loc.url_type, 9);
    let written = d.serialize().unwrap();
    let again = Dock::load(&written).unwrap();
    let loc2 = again.applications.as_ref().unwrap()[0].metadata.location.as_ref().unwrap();
    assert_eq!(loc2.url_type, 9);
}

#[test]
fn unknown_top_level_keys_are_ignored_on_load() {
    let mut top = plist::Dictionary::new();
    top.insert("mod-count".to_string(), plist::Value::Integer(plist::Integer::from(7i64)));
    let bytes = xml_bytes(&plist::Value::Dictionary(top));
    let d = Dock::load(&bytes).unwrap();
    assert_eq!(d.applications, None);
    assert_eq!(d.others, None);
}

#[test]
fn non_dictionary_root_is_malformed() {
    let bytes = xml_bytes(&plist::Value::Array(vec![]));
    assert!(matches!(Dock::load(&bytes), Err(DockError::Malformed(_))));
}
