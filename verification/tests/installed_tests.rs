use nix_software_center::installed::{
    add_installed_busy, installed_item, remove_installed_busy, sort_by_lower_name, InstalledItem, InstalledItemModel,
    InstalledPageEffect, InstalledPageModel, InstalledPageMsg,
};
use nix_software_center::package::{InstallType, NotifyPage, PackageAction};
use nix_software_center::package_page::WorkPackage;
use nix_software_center::packages::{AppData, AppIcon, AppIconList, AppStreamIndex, LocalizedText};
use nix_software_center::system::SystemPkgs;

fn text(s: &str) -> Option<LocalizedText> {
    Some(LocalizedText::from_entries(vec![("C".to_string(), s.to_string())]))
}

fn app(pkg: &str) -> AppData {
    AppData {
        metatype: "desktop-application".to_string(),
        id: pkg.to_string(),
        package: pkg.to_string(),
        name: text("The Editor"),
        description: None,
        summary: text("Edits text"),
        url: None,
        icon: Some(AppIconList { cached: Some(vec![AppIcon { name: "ed.png".to_string(), width: 64, height: 64 }]), stock: None }),
        launchable: None,
        provides: None,
        screenshots: None,
        categories: None,
        releases: None,
        branding: None,
    }
}

fn item(name: &str, pkg: &str, t: InstallType) -> InstalledItem {
    InstalledItem {
        name: name.to_string(),
        pkg: pkg.to_string(),
        pname: format!("{pkg}-name"),
        summary: None,
        icon: None,
        pkgtype: t,
        busy: true,
        version: "1.0".to_string(),
    }
}

fn work(pkg: &str, pname: &str, t: InstallType) -> WorkPackage {
    WorkPackage {
        package: pkg.to_string(),
        package_name: pname.to_string(),
        install_type: t,
        action: PackageAction::Remove,
        block: false,
        notify: Some(NotifyPage::Installed),
    }
}

#[test]
fn row_from_database_alone() {
    let i = installed_item(
        &"ed".to_string(),
        &"ed".to_string(),
        &"1.20".to_string(),
        &"".to_string(),
        &AppStreamIndex::new(),
        &Vec::new(),
        InstallType::User,
    );
    assert_eq!(i.name, "ed");
    assert_eq!(i.summary, None);
    assert_eq!(i.icon, None);
    assert!(!i.busy);
    assert_eq!(i.version, "1.20");
}

#[test]
fn row_with_appstream_data() {
    let idx = AppStreamIndex::from_apps(vec![app("ed")]);
    let busy = vec![("ed".to_string(), InstallType::System)];
    let i = installed_item(&"ed".to_string(), &"ed".to_string(), &"1.20".to_string(), &"line editor".to_string(), &idx, &busy, InstallType::System);
    assert_eq!(i.name, "The Editor");
    assert_eq!(i.summary, Some("Edits text".to_string()));
    assert_eq!(i.icon, Some("ed.png".to_string()));
    assert!(i.busy);
}

#[test]
fn rows_sorted_by_lowercase_name() {
    let v = vec![
        item("beta", "b", InstallType::User),
        item("Alpha", "a", InstallType::User),
        item("alpha", "a2", InstallType::User),
        item("Gamma", "g", InstallType::User),
    ];
    let r = sort_by_lower_name(v);
    let pkgs: Vec<&str> = r.iter().map(|x| x.pkg.as_str()).collect();
    assert_eq!(pkgs, vec!["a", "a2", "b", "g"]);
}

#[test]
fn row_summary_is_one_line() {
    let mut i = item("x", "x", InstallType::User);
    i.summary = Some("  two\nlines ".to_string());
    assert_eq!(InstalledItemModel::init_model(i).item.summary, Some("two lines".to_string()));
}

#[test]
fn busy_mark_added_and_removed() {
    let mut busy = Vec::new();
    add_installed_busy(&mut busy, &work("pkgs.vim", "vim", InstallType::User));
    assert_eq!(busy, vec![("vim".to_string(), InstallType::User)]);
    add_installed_busy(&mut busy, &work("pkgs.ed", "ed", InstallType::System));
    assert_eq!(busy[1], ("pkgs.ed".to_string(), InstallType::System));
    remove_installed_busy(&mut busy, &work("pkgs.vim", "vim", InstallType::User));
    assert!(!busy.contains(&("vim".to_string(), InstallType::User)));
}

#[test]
fn ending_work_drops_marks_sharing_package_or_type() {
    let mut busy = vec![
        ("vim".to_string(), InstallType::User),
        ("ed".to_string(), InstallType::User),
        ("vim".to_string(), InstallType::System),
        ("gimp".to_string(), InstallType::System),
    ];
    remove_installed_busy(&mut busy, &work("pkgs.vim", "vim", InstallType::User));
    assert_eq!(busy, vec![("gimp".to_string(), InstallType::System)]);
}

#[test]
fn remove_asks_for_work_reporting_back() {
    let mut p = InstalledPageModel::new(SystemPkgs::Unmanaged);
    match p.update(InstalledPageMsg::Remove(item("Vim", "vim", InstallType::User))) {
        Some(InstalledPageEffect::AddInstalledToWorkQueue(w)) => {
            assert_eq!(w.package, "vim");
            assert_eq!(w.package_name, "vim-name");
            assert_eq!(w.action, PackageAction::Remove);
            assert_eq!(w.notify, Some(NotifyPage::Installed));
            assert!(!w.block);
        }
        _ => panic!("expected work"),
    }
}

#[test]
fn ended_work_unsets_busy_rows() {
    let mut p = InstalledPageModel::new(SystemPkgs::Unmanaged);
    p.update(InstalledPageMsg::UpdateInstalledPackages {
        system_packages: vec![item("Ed", "ed", InstallType::System)],
        user_packages: vec![item("Vim", "vim", InstallType::User), item("Gimp", "gimp", InstallType::User)],
    });
    p.update(InstalledPageMsg::UnsetBusy(work("other", "vim-name", InstallType::User)));
    assert!(!p.installeduserlist[0].item.busy);
    assert!(p.installeduserlist[1].item.busy);
    assert!(p.installedsystemlist[0].item.busy);
    p.update(InstalledPageMsg::UnsetBusy(work("ed", "whatever", InstallType::System)));
    assert!(!p.installedsystemlist[0].item.busy);
}

#[test]
fn open_row_and_package() {
    let mut p = InstalledPageModel::new(SystemPkgs::Flake);
    p.update(InstalledPageMsg::UpdateInstalledPackages { system_packages: vec![], user_packages: vec![item("Vim", "vim", InstallType::User)] });
    assert!(matches!(p.update(InstalledPageMsg::OpenRow(0, InstallType::User)), Some(InstalledPageEffect::OpenPackage(ref x)) if x == "vim"));
    assert!(p.update(InstalledPageMsg::OpenRow(0, InstallType::System)).is_none());
    assert!(matches!(p.update(InstalledPageMsg::OpenPackage("vim".to_string())), Some(InstalledPageEffect::ShowPackage(ref x, SystemPkgs::Flake)) if x == "vim"));
    assert_eq!(p.package_page, Some("vim".to_string()));
}

#[test]
fn remove_button_marks_row_busy() {
    let mut m = InstalledItemModel::init_model(item("Vim", "vim", InstallType::User));
    m.update(nix_software_center::installed::InstalledItemInputMsg::Busy(false));
    assert!(!m.item.busy);
    match m.delete() {
        nix_software_center::installed::InstalledItemMsg::Delete(i) => {
            assert_eq!(i.pkg, "vim");
            assert!(!i.busy);
        }
    }
    assert!(m.item.busy);
}
