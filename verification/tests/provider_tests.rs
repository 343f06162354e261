use nix_software_center::packages::{AppData, AppIcon, AppIconList, AppStreamIndex, LocalizedText};
use nix_software_center::provider::{result_meta, result_metas, search_query};

fn app(pkg: &str) -> AppData {
    AppData {
        metatype: "desktop-application".to_string(),
        id: pkg.to_string(),
        package: pkg.to_string(),
        name: Some(LocalizedText::from_entries(vec![("C".to_string(), "Firefox".to_string())])),
        description: None,
        summary: None,
        url: None,
        icon: Some(AppIconList {
            cached: Some(vec![
                AppIcon { name: "small.png".to_string(), width: 64, height: 64 },
                AppIcon { name: "big.png".to_string(), width: 128, height: 128 },
            ]),
            stock: None,
        }),
        launchable: None,
        provides: None,
        screenshots: None,
        categories: None,
        releases: None,
        branding: None,
    }
}

#[test]
fn terms_are_joined_with_spaces() {
    assert_eq!(search_query(&vec!["fire".to_string(), "fox".to_string()]), "fire fox");
    assert_eq!(search_query(&vec!["one".to_string()]), "one");
    assert_eq!(search_query(&Vec::new()), "");
}

#[test]
fn meta_of_an_application() {
    let idx = AppStreamIndex::from_apps(vec![app("firefox")]);
    let m = result_meta(&"firefox".to_string(), &idx);
    assert_eq!(m.id, "firefox");
    assert_eq!(m.name, "Firefox");
    assert_eq!(m.description, Some("There could have been your ad".to_string()));
    assert_eq!(m.gicon, Some("/home/dyrbk/dev/software-center/result/share/app-info/icons/nixos/128x128/big.png".to_string()));
}

#[test]
fn meta_without_data() {
    let m = result_meta(&"hello".to_string(), &AppStreamIndex::new());
    assert_eq!(m.name, "There could have been your ad");
    assert_eq!(m.gicon, None);
    let v = result_metas(&vec!["a".to_string(), "b".to_string()], &AppStreamIndex::new());
    assert_eq!(v.len(), 2);
    assert_eq!(v[1].id, "b");
}
