use nix_software_center::browse::{
    category_tile, chunks_of_ten, pkg_tile, CategoryPageAsyncMsg, CategoryPageEffect, CategoryPageModel, CategoryPageMsg, CategoryTile,
    ExplorePageEffect, ExplorePageModel, ExplorePageMsg, PkgCategory,
};
use nix_software_center::installed::InstalledItem;
use nix_software_center::package::InstallType;
use nix_software_center::packages::{AppData, AppIcon, AppIconList, AppStreamIndex, LocalizedText};
use nix_software_center::system::SystemPkgs;

fn app(pkg: &str, summary: bool) -> AppData {
    AppData {
        metatype: "desktop-application".to_string(),
        id: pkg.to_string(),
        package: pkg.to_string(),
        name: Some(LocalizedText::from_entries(vec![("C".to_string(), "Krita".to_string())])),
        description: None,
        summary: if summary { Some(LocalizedText::from_entries(vec![("C".to_string(), "Paint".to_string())])) } else { None },
        url: None,
        icon: Some(AppIconList { cached: Some(vec![AppIcon { name: "krita.png".to_string(), width: 64, height: 64 }]), stock: None }),
        launchable: None,
        provides: None,
        screenshots: None,
        categories: None,
        releases: None,
        branding: None,
    }
}

fn tile(pkg: &str) -> CategoryTile {
    category_tile(pkg.to_string(), &AppStreamIndex::new(), pkg.to_string(), "desc".to_string(), false, false)
}

fn installed(pkg: &str) -> InstalledItem {
    InstalledItem {
        name: pkg.to_string(),
        pkg: pkg.to_string(),
        pname: pkg.to_string(),
        summary: None,
        icon: None,
        pkgtype: InstallType::User,
        busy: false,
        version: "1".to_string(),
    }
}

#[test]
fn category_titles() {
    assert_eq!(PkgCategory::Audio.title(), "Audio");
    assert_eq!(PkgCategory::Utility.title(), "Utility");
    assert_eq!(PkgCategory::all().len(), 12);
    assert_eq!(PkgCategory::all()[2], PkgCategory::Games);
}

#[test]
fn tile_with_appstream_data() {
    let idx = AppStreamIndex::from_apps(vec![app("krita", true)]);
    let t = category_tile("krita".to_string(), &idx, "krita-pname".to_string(), "ignored".to_string(), true, false);
    assert_eq!(t.name, "Krita");
    assert_eq!(t.package_name, "krita-pname");
    assert_eq!(t.summary, "Paint");
    assert_eq!(t.icon, Some("krita.png".to_string()));
    assert!(t.installed_user);
    let idx = AppStreamIndex::from_apps(vec![app("krita", false)]);
    let t = category_tile("krita".to_string(), &idx, "".to_string(), "ignored".to_string(), false, false);
    assert_eq!(t.summary, "");
}

#[test]
fn tile_from_database_alone() {
    let t = tile("hello");
    assert_eq!(t.name, "hello");
    assert_eq!(t.summary, "desc");
    assert_eq!(t.icon, None);
    let p = pkg_tile(t);
    assert_eq!(p.pkg, "hello");
    assert_eq!(p.pname, "hello");
}

#[test]
fn tiles_in_chunks_of_ten() {
    let all: Vec<CategoryTile> = (0..25).map(|i| tile(&format!("p{i}"))).collect();
    let chunks = chunks_of_ten(&all);
    let sizes: Vec<usize> = chunks.iter().map(|c| c.len()).collect();
    assert_eq!(sizes, vec![10, 10, 5]);
    assert_eq!(chunks[2][4].package, "p24");
    assert!(chunks_of_ten(&Vec::new()).is_empty());
}

#[test]
fn category_page_streams_all_tiles() {
    let mut p = CategoryPageModel::new(PkgCategory::Games, SystemPkgs::Unmanaged);
    let all: Vec<CategoryTile> = (0..12).map(|i| tile(&format!("g{i}"))).collect();
    let e = p.update(CategoryPageMsg::UpdatePackages(vec![tile("r")], all));
    assert_eq!(p.recommended_apps.len(), 1);
    assert!(p.all_apps.is_empty());
    match e {
        Some(CategoryPageEffect::StreamApps(chunks)) => {
            assert_eq!(chunks.len(), 2);
            for c in chunks {
                p.update_cmd(CategoryPageAsyncMsg::ExtendApps(c));
            }
        }
        _ => panic!("expected chunks"),
    }
    assert_eq!(p.all_apps.len(), 12);
    assert_eq!(p.all_apps[11].package, "g11");
}

#[test]
fn category_page_marks_installed() {
    let mut p = CategoryPageModel::new(PkgCategory::Games, SystemPkgs::Unmanaged);
    p.update(CategoryPageMsg::UpdatePackages(vec![tile("a"), tile("b")], Vec::new()));
    p.update(CategoryPageMsg::UpdateInstalledPackages { system_packages: vec![installed("b")], user_packages: vec![installed("a")] });
    assert!(p.recommended_apps[0].installed_user);
    assert!(!p.recommended_apps[0].installed_system);
    assert!(p.recommended_apps[1].installed_system);
}

#[test]
fn explore_page() {
    let mut p = ExplorePageModel::new(SystemPkgs::Flake);
    p.update(ExplorePageMsg::UpdateRecommendedPackages(vec![pkg_tile(tile("a")), pkg_tile(tile("b"))]));
    p.update(ExplorePageMsg::UpdateInstalledPackages { system_packages: vec![], user_packages: vec![installed("b")] });
    assert!(!p.recommended_apps[0].installeduser);
    assert!(p.recommended_apps[1].installeduser);
    match p.update(ExplorePageMsg::OpenPackage("a".to_string())) {
        Some(ExplorePageEffect::ShowPackage(x, SystemPkgs::Flake)) => assert_eq!(x, "a"),
        _ => panic!("expected the package page"),
    }
}
