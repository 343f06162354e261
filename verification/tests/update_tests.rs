use nix_software_center::installed::InstalledItem;
use nix_software_center::package::InstallType;
use nix_software_center::packages::{AppData, AppIcon, AppIconList, AppStreamIndex, LocalizedText};
use nix_software_center::system::{NixDataConfig, SystemPkgs};
use nix_software_center::update::{
    after_unavailable_check, nixos_update_item, sort_unavailable, system_update_item, unavailable_item, user_update_item,
    UnavailableOutcome, UpdateItem, UpdateJob, UpdatePageEffect, UpdatePageModel, UpdatePageMsg, UpdateType,
};

fn installed(pkg: &str, version: &str) -> InstalledItem {
    InstalledItem {
        name: "Vim".to_string(),
        pkg: pkg.to_string(),
        pname: "vim".to_string(),
        summary: Some("Editor".to_string()),
        icon: None,
        pkgtype: InstallType::User,
        busy: false,
        version: version.to_string(),
    }
}

fn app(pkg: &str) -> AppData {
    AppData {
        metatype: "desktop-application".to_string(),
        id: pkg.to_string(),
        package: pkg.to_string(),
        name: Some(LocalizedText::from_entries(vec![("C".to_string(), "Nice Name".to_string())])),
        description: None,
        summary: None,
        url: None,
        icon: Some(AppIconList { cached: Some(vec![AppIcon { name: "i.png".to_string(), width: 64, height: 64 }]), stock: None }),
        launchable: None,
        provides: None,
        screenshots: None,
        categories: None,
        releases: None,
        branding: None,
    }
}

fn page() -> UpdatePageModel {
    UpdatePageModel {
        updateuserlist: Vec::new(),
        updatesystemlist: Vec::new(),
        config: NixDataConfig::empty(),
        systype: SystemPkgs::Unmanaged,
        online: true,
    }
}

fn row(pkg: Option<&str>) -> UpdateItem {
    UpdateItem {
        name: "n".to_string(),
        pname: "p".to_string(),
        pkg: pkg.map(|s| s.to_string()),
        summary: None,
        icon: None,
        pkgtype: InstallType::User,
        verfrom: None,
        verto: None,
    }
}

#[test]
fn user_update_when_versions_differ() {
    let u = user_update_item(&installed("vim", "9.0"), &"9.1".to_string()).unwrap();
    assert_eq!(u.pkg, Some("vim".to_string()));
    assert_eq!(u.verfrom, Some("9.0".to_string()));
    assert_eq!(u.verto, Some("9.1".to_string()));
    assert_eq!(u.pkgtype, InstallType::System);
    assert_eq!(u.name, "Vim");
    assert!(user_update_item(&installed("vim", "9.0"), &"9.0".to_string()).is_none());
}

#[test]
fn system_update_goes_from_running_version() {
    let u = system_update_item(&installed("vim", "9.1"), &"9.0".to_string()).unwrap();
    assert_eq!(u.verfrom, Some("9.0".to_string()));
    assert_eq!(u.verto, Some("9.1".to_string()));
    assert!(system_update_item(&installed("vim", "9.1"), &"9.1".to_string()).is_none());
}

#[test]
fn nixos_system_row() {
    let u = nixos_update_item("abc".to_string(), "def".to_string());
    assert_eq!(u.name, "NixOS System");
    assert_eq!(u.pname, "");
    assert_eq!(u.pkg, None);
    assert_eq!(u.summary, Some("NixOS internal packages and modules".to_string()));
    assert_eq!(u.verfrom, Some("abc".to_string()));
    assert_eq!(u.verto, Some("def".to_string()));
}

#[test]
fn unavailable_rows() {
    let idx = AppStreamIndex::from_apps(vec![app("vim")]);
    let a = unavailable_item(&"vim".to_string(), "removed".to_string(), &idx, Some("vim-pname".to_string()));
    assert_eq!(a.name, "Nice Name");
    assert_eq!(a.pname, "vim-pname");
    assert_eq!(a.icon, Some("i.png".to_string()));
    assert_eq!(a.message, "removed");
    let b = unavailable_item(&"vim".to_string(), "gone".to_string(), &idx, None);
    assert_eq!(b.pname, "");
    assert_eq!(b.name, "Nice Name");
    let c = unavailable_item(&"ed".to_string(), "gone".to_string(), &idx, None);
    assert_eq!(c.name, "ed");
    assert_eq!(c.icon, None);
}

#[test]
fn unavailable_sorted_by_package() {
    let v = vec![("zsh".to_string(), "a".to_string()), ("bash".to_string(), "b".to_string()), ("fish".to_string(), "c".to_string())];
    let r = sort_unavailable(&v);
    assert_eq!(r, vec![("bash".to_string(), "b".to_string()), ("fish".to_string(), "c".to_string()), ("zsh".to_string(), "a".to_string())]);
}

#[test]
fn update_needs_network() {
    let mut p = page();
    let e = p.update(UpdatePageMsg::UpdateSystem { online: false });
    assert!(matches!(e.as_slice(), [UpdatePageEffect::CheckNetwork]));
    assert!(!p.online);
}

#[test]
fn update_online_checks_unavailable_packages() {
    let mut p = page();
    let e = p.update(UpdatePageMsg::UpdateAll { online: true });
    assert!(matches!(e.as_slice(), [UpdatePageEffect::ShowRebuild, UpdatePageEffect::CheckUnavailable(UpdateType::All)]));
    assert!(p.online);
}

#[test]
fn open_row_with_package() {
    let mut p = page();
    p.update(UpdatePageMsg::Update(vec![row(Some("vim")), row(None)], Vec::new()));
    assert!(matches!(p.update(UpdatePageMsg::OpenRow(0, InstallType::User)).as_slice(), [UpdatePageEffect::OpenPkg(x)] if x == "vim"));
    assert!(p.update(UpdatePageMsg::OpenRow(1, InstallType::User)).is_empty());
    assert!(p.update(UpdatePageMsg::OpenRow(0, InstallType::System)).is_empty());
}

#[test]
fn finished_update_reloads() {
    let mut p = page();
    let e = p.update(UpdatePageMsg::DoneWorking);
    assert!(matches!(e.as_slice(), [UpdatePageEffect::RefreshIcons, UpdatePageEffect::RebuildSuccess, UpdatePageEffect::UpdateInstalledPkgs]));
    assert!(matches!(p.update(UpdatePageMsg::FailedWorking).as_slice(), [UpdatePageEffect::RebuildError]));
}

#[test]
fn unavailable_packages_are_asked_about() {
    assert!(matches!(after_unavailable_check(UpdateType::System, Vec::new(), Vec::new()), UnavailableOutcome::Start(UpdateJob::UpdateSystem)));
    assert!(matches!(after_unavailable_check(UpdateType::User, Vec::new(), Vec::new()), UnavailableOutcome::Start(UpdateJob::UpdateUserPkgs)));
    match after_unavailable_check(UpdateType::All, vec![("a".to_string(), "gone".to_string())], Vec::new()) {
        UnavailableOutcome::Ask(u, s, k) => {
            assert_eq!(u.len(), 1);
            assert!(s.is_empty());
            assert_eq!(k, UpdateType::All);
        }
        _ => panic!("expected a question"),
    }
}
