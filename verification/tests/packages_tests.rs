use nix_software_center::packages::{appstream_documents, appstream_documents_gz, AppData, AppStreamIndex, LocalizedText};
use std::io::Write;

fn text(s: &str) -> Option<LocalizedText> {
    Some(LocalizedText::from_entries(vec![("de".to_string(), format!("{s} (de)")), ("C".to_string(), s.to_string())]))
}

fn app(pkg: &str, name: &str) -> AppData {
    AppData {
        metatype: "desktop-application".to_string(),
        id: format!("{pkg}.desktop"),
        package: pkg.to_string(),
        name: text(name),
        description: None,
        summary: None,
        url: None,
        icon: None,
        launchable: None,
        provides: None,
        screenshots: None,
        categories: None,
        releases: None,
        branding: None,
    }
}

#[test]
fn untranslated_text_is_found() {
    assert_eq!(text("Editor").unwrap().get_c(), Some("Editor".to_string()));
    let none = LocalizedText::from_entries(vec![("fr".to_string(), "x".to_string())]);
    assert_eq!(none.get_c(), None);
}

#[test]
fn later_entry_replaces_earlier() {
    let idx = AppStreamIndex::from_apps(vec![app("gimp", "Old"), app("inkscape", "Inkscape"), app("gimp", "GIMP")]);
    assert_eq!(idx.get(&"gimp".to_string()).unwrap().name.as_ref().unwrap().get_c(), Some("GIMP".to_string()));
    assert!(idx.contains_key(&"inkscape".to_string()));
    assert!(!idx.contains_key(&"krita".to_string()));
    assert_eq!(idx.apps().len(), 2);
}

#[test]
fn insert_replaces_by_package() {
    let mut idx = AppStreamIndex::new();
    idx.insert(app("vlc", "VLC"));
    idx.insert(app("vlc", "VLC media player"));
    assert_eq!(idx.apps().len(), 1);
    assert_eq!(idx.get(&"vlc".to_string()).unwrap().name.as_ref().unwrap().get_c(), Some("VLC media player".to_string()));
}

#[test]
fn collection_is_split_into_documents() {
    let docs = appstream_documents("header\n---\nfirst: 1\n---\nsecond: 2");
    assert_eq!(docs, vec!["first: 1".to_string(), "second: 2".to_string()]);
}

#[test]
fn collection_without_documents() {
    assert!(appstream_documents("only a header").is_empty());
}

#[test]
fn repeated_locale_keeps_its_last_text() {
    let t = LocalizedText::from_entries(vec![
        ("C".to_string(), "first".to_string()),
        ("de".to_string(), "erst".to_string()),
        ("C".to_string(), "last".to_string()),
    ]);
    assert_eq!(t.get_c(), Some("last".to_string()));
    assert_eq!(t.entries().len(), 2);
    assert_eq!(t.entries()[0], ("de".to_string(), "erst".to_string()));
    assert_eq!(t.clone(), t);
}

fn gzip(data: &[u8]) -> Vec<u8> {
    let mut e = flate2::write::GzEncoder::new(Vec::new(), flate2::Compression::default());
    e.write_all(data).unwrap();
    e.finish().unwrap()
}

#[test]
fn compressed_collection_is_split() {
    let gz = gzip(b"header\n---\nfirst: 1\n---\nsecond: 2");
    assert_eq!(appstream_documents_gz(&gz), Some(vec!["first: 1".to_string(), "second: 2".to_string()]));
    assert_eq!(appstream_documents_gz(b"header\n---\nfirst: 1"), None);
    assert_eq!(appstream_documents_gz(&gzip(&[0xff, 0xfe])), None);
}
