use nix_software_center::browse::PkgCategory;
use nix_software_center::package::{InstallType, PackageAction};
use nix_software_center::package_page::WorkPackage;
use nix_software_center::packages::{AppData, AppIcon, AppIconList, AppStreamIndex, LocalizedText};
use nix_software_center::system::{NixDataConfig, SystemPkgs};
use nix_software_center::update::UpdateItem;
use nix_software_center::window::{
    color_scheme, refresh_after_network_check, updates_total, with_system_update, AppAsyncMsg, AppEffect, AppModel, AppMsg, InstalledRow, StartAction,
};

fn model() -> AppModel {
    AppModel {
        config: NixDataConfig::empty(),
        busy: false,
        appdata: AppStreamIndex::new(),
        installeduserpkgs: Vec::new(),
        installedsystempkgs: Vec::new(),
        syspkgtype: SystemPkgs::Unmanaged,
        recommended_apps: Vec::new(),
        category_apps_recommended: Vec::new(),
        category_apps_all: Vec::new(),
        installedpagebusy: Vec::new(),
        online: true,
        updates_count: 0,
    }
}

fn work(pkg: &str, pname: &str, t: InstallType) -> WorkPackage {
    WorkPackage { package: pkg.to_string(), package_name: pname.to_string(), install_type: t, action: PackageAction::Remove, block: false, notify: None }
}

fn row(name: &str) -> UpdateItem {
    UpdateItem {
        name: name.to_string(),
        pname: name.to_string(),
        pkg: Some(name.to_string()),
        summary: None,
        icon: None,
        pkgtype: InstallType::System,
        verfrom: None,
        verto: None,
    }
}

#[test]
fn initialize_loads_everything() {
    let mut m = model();
    m.busy = true;
    let e = m.update(AppMsg::Initialize(AppStreamIndex::new(), vec!["firefox".to_string()], Vec::new(), Vec::new()));
    assert!(!m.busy);
    assert_eq!(m.recommended_apps, vec!["firefox".to_string()]);
    assert_eq!(e.len(), 15);
    assert!(matches!(e[1], AppEffect::FetchInstalled));
    assert!(matches!(e[3], AppEffect::LoadCategory(PkgCategory::Audio)));
    assert!(matches!(e[14], AppEffect::LoadCategory(PkgCategory::Utility)));
}

#[test]
fn load_config_decides_package_management() {
    let mut m = model();
    let mut c = NixDataConfig::empty();
    c.systemconfig = Some("/etc/nixos/configuration.nix".to_string());
    let e = m.update(AppMsg::LoadConfig { config: c, nixos: true, version: Some("24.05.1234.abcdef0".to_string()), root_channel: true });
    assert_eq!(m.syspkgtype, SystemPkgs::Flake);
    assert!(matches!(e[3], AppEffect::CheckCache(SystemPkgs::Flake)));
}

#[test]
fn flake_setting_on_nixos() {
    let mut m = model();
    let e = m.update(AppMsg::UpdateFlake { flake: Some("/etc/nixos".to_string()), flakearg: None, nixos: true });
    assert_eq!(m.syspkgtype, SystemPkgs::Flake);
    assert!(matches!(&e[0], AppEffect::SaveConfig(c) if c.flake == Some("/etc/nixos".to_string())));
    assert!(matches!(e[2], AppEffect::PkgTypes(SystemPkgs::Flake)));
}

#[test]
fn busy_marks_of_the_installed_page() {
    let mut m = model();
    m.update(AppMsg::AddInstalledToWorkQueue(work("pkgs.vim", "vim", InstallType::User)));
    assert_eq!(m.installedpagebusy, vec![("vim".to_string(), InstallType::User)]);
    let e = m.update(AppMsg::RemoveInstalledBusy(work("pkgs.vim", "vim", InstallType::User)));
    assert!(m.installedpagebusy.is_empty());
    assert_eq!(e.len(), 1);
    assert!(matches!(&e[0], AppEffect::UnsetInstalledBusy(w) if w.package == "pkgs.vim" && w.package_name == "vim"));
}

#[test]
fn dark_mode_scheme() {
    assert_eq!(color_scheme(true), "Adwaita-dark");
    assert_eq!(color_scheme(false), "Adwaita");
    let mut m = model();
    let e = m.update(AppMsg::SetDarkMode(true));
    assert!(matches!(&e[0], AppEffect::SetScheme(s) if s == "Adwaita-dark"));
}

#[test]
fn network_answers() {
    assert!(refresh_after_network_check(false, true));
    assert!(!refresh_after_network_check(true, true));
    assert!(!refresh_after_network_check(false, false));
    let mut m = model();
    let e = m.update_cmd(AppAsyncMsg::SetNetwork(false));
    assert!(!m.online);
    assert!(matches!(e[0], AppEffect::UpdateOnline(false)));
}

#[test]
fn installed_packages_answer_rebuilds_pages() {
    let mut m = model();
    let e = m.update_cmd(AppAsyncMsg::UpdateInstalledPkgs(vec!["vim".to_string()], vec![("ed".to_string(), "1.0".to_string())]));
    assert!(matches!(e.as_slice(), [AppEffect::UpdateInstalledPage]));
    assert_eq!(m.installedsystempkgs, vec!["vim".to_string()]);
}

#[test]
fn nixos_row_comes_first() {
    let r = with_system_update(vec![row("vim")], Some(("a".to_string(), "b".to_string())));
    assert_eq!(r.len(), 2);
    assert_eq!(r[0].name, "NixOS System");
    assert_eq!(r[1].name, "vim");
    assert_eq!(with_system_update(vec![row("vim")], None).len(), 1);
    assert_eq!(updates_total(&vec![row("a")], &r), Some(3));
}

fn db_row(pkg: &str, version: &str, other: Option<&str>) -> InstalledRow {
    InstalledRow {
        pkg: pkg.to_string(),
        pname: pkg.to_string(),
        version: version.to_string(),
        description: format!("{pkg} description"),
        other_version: other.map(|v| v.to_string()),
    }
}

fn krita() -> AppData {
    AppData {
        metatype: "desktop-application".to_string(),
        id: "krita".to_string(),
        package: "krita".to_string(),
        name: Some(LocalizedText::from_entries(vec![("C".to_string(), "Krita".to_string())])),
        description: None,
        summary: Some(LocalizedText::from_entries(vec![("C".to_string(), "Paint".to_string())])),
        url: None,
        icon: Some(AppIconList { cached: Some(vec![AppIcon { name: "krita.png".to_string(), width: 64, height: 64 }]), stock: None }),
        launchable: None,
        provides: None,
        screenshots: None,
        categories: None,
        releases: None,
        branding: None,
    }
}

#[test]
fn installed_page_is_assembled() {
    let mut m = model();
    m.appdata = AppStreamIndex::from_apps(vec![krita()]);
    m.syspkgtype = SystemPkgs::Flake;
    m.installedpagebusy = vec![("vim".to_string(), InstallType::User)];
    let user = vec![db_row("vim", "9.1", Some("9.2")), db_row("krita", "5.0", Some("5.0")), db_row("ed", "1.0", None)];
    let system = vec![db_row("zsh", "5.9", Some("5.8")), db_row("bash", "5.2", Some("5.2"))];
    let d = m.update_installed_page(&user, &system, Some(("old".to_string(), "new".to_string())));
    let names: Vec<&str> = d.installed_user.iter().map(|i| i.name.as_str()).collect();
    assert_eq!(names, vec!["ed", "Krita", "vim"]);
    assert_eq!(d.installed_user[1].summary, Some("Paint".to_string()));
    assert_eq!(d.installed_user[1].icon, Some("krita.png".to_string()));
    assert!(d.installed_user[2].busy);
    assert!(!d.installed_user[0].busy);
    assert_eq!(d.installed_user[0].summary, Some("ed description".to_string()));
    assert_eq!(d.installed_system.iter().map(|i| i.pkg.as_str()).collect::<Vec<_>>(), vec!["bash", "zsh"]);
    assert_eq!(d.update_user.len(), 1);
    assert_eq!(d.update_user[0].pkg, Some("vim".to_string()));
    assert_eq!(d.update_user[0].verfrom, Some("9.1".to_string()));
    assert_eq!(d.update_user[0].verto, Some("9.2".to_string()));
    assert_eq!(d.update_system.len(), 2);
    assert_eq!(d.update_system[0].name, "NixOS System");
    assert_eq!(d.update_system[1].verfrom, Some("5.8".to_string()));
    assert_eq!(d.update_system[1].verto, Some("5.9".to_string()));
    assert_eq!(d.updates_count, 3);
    assert_eq!(m.updates_count, 3);

    m.syspkgtype = SystemPkgs::Unmanaged;
    let d = m.update_installed_page(&Vec::new(), &system, Some(("old".to_string(), "new".to_string())));
    assert_eq!(d.update_system.len(), 1);
    assert_eq!(m.updates_count, 1);
}

#[test]
fn start_shows_welcome_or_checks_cache() {
    let (m, a) = AppModel::start(true, true, SystemPkgs::Unmanaged, NixDataConfig::empty(), false);
    assert!(matches!(a, StartAction::ShowWelcome));
    assert!(m.busy);
    assert_eq!(m.updates_count, 0);
    assert!(m.installedpagebusy.is_empty());
    assert!(!m.online);
    let mut c = NixDataConfig::empty();
    c.systemconfig = Some("/etc/nixos/configuration.nix".to_string());
    let (m, a) = AppModel::start(true, false, SystemPkgs::Flake, c.duplicate(), true);
    assert!(matches!(&a, StartAction::CheckCache(SystemPkgs::Flake, x) if x.systemconfig == c.systemconfig));
    assert_eq!(m.config.systemconfig, c.systemconfig);
    assert_eq!(m.syspkgtype, SystemPkgs::Flake);
}

#[test]
fn flake_packages_are_read_only_for_flakes() {
    let mut m = model();
    m.config.systemconfig = Some("/etc/nixos".to_string());
    assert_eq!(m.flake_config_to_read(), None);
    m.syspkgtype = SystemPkgs::Flake;
    assert_eq!(m.flake_config_to_read(), Some("/etc/nixos".to_string()));
    m.config.systemconfig = None;
    assert_eq!(m.flake_config_to_read(), None);
}
