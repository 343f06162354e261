use nix_software_center::package::{CarouselPage, InstallType, Launch, NotifyPage, PackageAction};
use nix_software_center::package_page::PackagePageInit;
use nix_software_center::packages::{AppData, AppLaunchable, AppScreenshot, AppScreenshotImage};
use nix_software_center::screenshots::PackageAsyncMessage;
use nix_software_center::system::{NixDataConfig, SystemPkgs};
use nix_software_center::package_page::{PackageEffect, PackageMessage, PackagePageModel, WorkPackage};

fn page() -> PackagePageModel {
    PackagePageModel {
        package: "hello".to_string(),
        package_name: "hello".to_string(),
        install_type: InstallType::User,
        work_queue: Vec::new(),
        installed_user_packages: Vec::new(),
        installed_system_packages: Vec::new(),
        installed_packages: Vec::new(),
        launchable: None,
        online: true,
        system_package_type: SystemPkgs::Unmanaged,
        config: NixDataConfig::empty(),
        carousel_page: CarouselPage::Single,
        screenshot_urls: Vec::new(),
        screenshots: Vec::new(),
    }
}

fn work(pkg: &str, action: PackageAction, notify: Option<NotifyPage>) -> WorkPackage {
    WorkPackage {
        package: pkg.to_string(),
        package_name: pkg.to_string(),
        install_type: InstallType::User,
        action,
        block: false,
        notify,
    }
}

fn processed(e: &[PackageEffect]) -> Vec<String> {
    e.iter()
        .filter_map(|x| match x {
            PackageEffect::Process(w) => Some(w.package.clone()),
            _ => None,
        })
        .collect()
}

#[test]
fn install_offline_asks_for_the_network() {
    let mut p = page();
    let e = p.update(PackageMessage::Install { online: false });
    assert!(matches!(e.as_slice(), [PackageEffect::CheckNetwork]));
    assert!(!p.online);
    assert!(p.work_queue.is_empty());
}

#[test]
fn install_starts_when_the_queue_is_empty() {
    let mut p = page();
    let e = p.update(PackageMessage::Install { online: true });
    assert_eq!(processed(&e), vec!["hello".to_string()]);
    assert_eq!(p.work_queue.len(), 1);
    assert_eq!(p.work_queue[0].action, PackageAction::Install);
}

#[test]
fn queued_work_waits_and_starts_after() {
    let mut p = page();
    p.update(PackageMessage::AddToQueue(work("vim", PackageAction::Install, None)));
    let e = p.update(PackageMessage::Remove);
    assert!(processed(&e).is_empty());
    assert_eq!(p.work_queue.len(), 2);
    let e = p.update(PackageMessage::FinishedProcess { work: work("vim", PackageAction::Install, None), command_found: false });
    assert_eq!(processed(&e), vec!["hello".to_string()]);
    assert_eq!(p.work_queue.len(), 1);
}

#[test]
fn same_work_is_queued_once() {
    let mut p = page();
    p.update(PackageMessage::AddToQueue(work("vim", PackageAction::Install, None)));
    p.update(PackageMessage::AddToQueue(work("vim", PackageAction::Install, None)));
    assert_eq!(p.work_queue.len(), 1);
}

#[test]
fn finished_install_marks_installed_and_launchable() {
    let mut p = page();
    p.update(PackageMessage::Install { online: true });
    let mut w = work("hello", PackageAction::Install, None);
    w.install_type = InstallType::User;
    let e = p.update(PackageMessage::FinishedProcess { work: w, command_found: true });
    assert!(matches!(e[0], PackageEffect::RefreshIcons));
    assert!(matches!(e[1], PackageEffect::UpdateInstalledPkgs));
    assert!(p.installed_packages.contains(&"hello".to_string()));
    assert!(matches!(&p.launchable, Some(Launch::TerminalApp(x)) if x == "hello"));
}

#[test]
fn finished_work_from_installed_page_is_reported() {
    let mut p = page();
    let w = work("vim", PackageAction::Remove, Some(NotifyPage::Installed));
    p.update(PackageMessage::AddToQueue(work("vim", PackageAction::Remove, Some(NotifyPage::Installed))));
    let e = p.update(PackageMessage::FailedProcess(w));
    assert!(matches!(&e[0], PackageEffect::RemoveInstalledBusy(x) if x.package == "vim"));
    assert!(p.work_queue.is_empty());
}

#[test]
fn cancel_running_own_work_stops_it() {
    let mut p = page();
    p.update(PackageMessage::Install { online: true });
    let e = p.update(PackageMessage::Cancel);
    assert!(matches!(e.as_slice(), [PackageEffect::CancelProcess]));
    p.update(PackageMessage::CancelFinished);
    assert!(p.work_queue.is_empty());
}

#[test]
fn cancel_waiting_own_work_drops_it() {
    let mut p = page();
    p.update(PackageMessage::AddToQueue(work("vim", PackageAction::Install, None)));
    p.update(PackageMessage::Install { online: true });
    let e = p.update(PackageMessage::Cancel);
    assert!(e.is_empty());
    assert_eq!(p.work_queue.len(), 1);
    assert_eq!(p.work_queue[0].package, "vim");
}

#[test]
fn nix_shell_opens_a_terminal() {
    let mut p = page();
    let e = p.update(PackageMessage::NixShell);
    match &e[0] {
        PackageEffect::Spawn(args) => assert_eq!(args, &vec!["kgx".to_string(), "-e".to_string(), "nix shell nixpkgs#hello".to_string()]),
        _ => panic!("expected a spawn"),
    }
}

#[test]
fn launch_desktop_app() {
    let mut p = page();
    p.launchable = Some(Launch::GtkApp("org.gnome.Hello.desktop".to_string()));
    let e = p.update(PackageMessage::Launch);
    match &e[0] {
        PackageEffect::Spawn(args) => assert_eq!(args, &vec!["gtk-launch".to_string(), "org.gnome.Hello.desktop".to_string()]),
        _ => panic!("expected a spawn"),
    }
}

#[test]
fn install_type_choice_is_saved() {
    let mut p = page();
    p.installed_system_packages = vec!["hello".to_string()];
    let e = p.update(PackageMessage::SetInstallType(InstallType::System));
    assert!(matches!(e.as_slice(), [PackageEffect::SaveInstallType(InstallType::System)]));
    assert_eq!(p.install_type, InstallType::System);
    assert!(p.installed_packages.contains(&"hello".to_string()));
}

#[test]
fn new_page_takes_install_type_from_installed_packages() {
    let init = PackagePageInit { package: "hello".to_string(), syspkgs: SystemPkgs::Flake };
    let p = PackagePageModel::new(init, NixDataConfig::empty(), vec!["hello".to_string()], Vec::new(), Some(InstallType::User), true);
    assert_eq!(p.system_package_type, SystemPkgs::Flake);
    assert_eq!(p.carousel_page, CarouselPage::Single);
    assert_eq!(p.install_type, InstallType::System);
    assert_eq!(p.installed_packages, vec!["hello".to_string()]);
    assert_eq!(p.package_name, "");
    let init = PackagePageInit { package: "hello".to_string(), syspkgs: SystemPkgs::Unmanaged };
    let p = PackagePageModel::new(init, NixDataConfig::empty(), Vec::new(), Vec::new(), Some(InstallType::System), false);
    assert_eq!(p.install_type, InstallType::System);
    assert!(p.installed_packages.is_empty());
    assert!(!p.online);
}

fn appdata(desktop: Option<&str>) -> AppData {
    AppData {
        metatype: "desktop-application".to_string(),
        id: "hello".to_string(),
        package: "hello".to_string(),
        name: None,
        description: None,
        summary: None,
        url: None,
        icon: None,
        launchable: desktop.map(|d| AppLaunchable { desktopid: vec![d.to_string()] }),
        provides: None,
        screenshots: None,
        categories: None,
        releases: None,
        branding: None,
    }
}

#[test]
fn appstream_data_sets_how_to_launch() {
    let mut p = page();
    p.update(PackageMessage::UpdateAppData { data: Some(appdata(Some("hello.desktop"))), command_found: false });
    assert!(matches!(&p.launchable, Some(Launch::GtkApp(x)) if x == "hello.desktop"));
    p.update(PackageMessage::UpdateAppData { data: None, command_found: true });
    assert!(matches!(&p.launchable, Some(Launch::GtkApp(_))));
    p.installed_user_packages = vec!["hello".to_string()];
    p.update(PackageMessage::UpdateAppData { data: Some(appdata(None)), command_found: true });
    assert!(matches!(&p.launchable, Some(Launch::TerminalApp(_))));
}

#[test]
fn settings_reach_the_worker() {
    let mut p = page();
    let mut c = NixDataConfig::empty();
    c.flake = Some("/etc/nixos".to_string());
    let e = p.update(PackageMessage::UpdateConfig(c));
    assert!(matches!(&e[0], PackageEffect::SetWorkerConfig(c) if c.flake == Some("/etc/nixos".to_string())));
    let e = p.update(PackageMessage::UpdatePkgTypes(SystemPkgs::Flake));
    assert!(matches!(e.as_slice(), [PackageEffect::SetWorkerPkgTypes(SystemPkgs::Flake)]));
    assert_eq!(p.system_package_type, SystemPkgs::Flake);
    p.update(PackageMessage::SetCarouselPage(CarouselPage::Last));
    assert_eq!(p.carousel_page, CarouselPage::Last);
    assert!(matches!(p.update(PackageMessage::ShowReleases).as_slice(), [PackageEffect::PresentReleases]));
    assert!(p.update(PackageMessage::Noop).is_empty());
}

fn installed_row(pkg: &str) -> nix_software_center::installed::InstalledItem {
    nix_software_center::installed::InstalledItem {
        name: pkg.to_string(),
        pkg: pkg.to_string(),
        pname: pkg.to_string(),
        summary: None,
        icon: None,
        pkgtype: InstallType::System,
        busy: false,
        version: "1".to_string(),
    }
}

#[test]
fn installed_packages_follow_the_install_type() {
    let mut p = page();
    p.update(PackageMessage::UpdateInstalledPackages { system_packages: vec![installed_row("hello")], user_packages: vec![installed_row("vim")] });
    assert_eq!(p.installed_packages, vec!["vim".to_string()]);
    assert_eq!(p.installed_system_packages, vec!["hello".to_string()]);
    p.update(PackageMessage::SetInstallType(InstallType::System));
    assert!(p.installed_packages.contains(&"hello".to_string()));
}

fn shot(url: &str, default: Option<bool>) -> AppScreenshot {
    AppScreenshot { default, thumbnails: None, sourceimage: Some(AppScreenshotImage { url: url.to_string() }) }
}

#[test]
fn appdata_screenshots_make_slots() {
    let mut p = page();
    let mut d = appdata(None);
    d.screenshots = Some(vec![shot("a", None), shot("b", Some(true)), shot("a", Some(false))]);
    let e = p.update(PackageMessage::UpdateAppData { data: Some(d), command_found: false });
    assert_eq!(p.screenshot_urls, vec!["b".to_string(), "a".to_string()]);
    assert_eq!(p.screenshots.len(), 2);
    assert!(p.screenshots.iter().all(|s| s.path.is_none() && !s.error));
    assert_eq!(p.carousel_page, CarouselPage::First);
    assert_eq!(e.len(), 1);
    assert!(matches!(&e[0], PackageEffect::LoadScreenshots(pkg, urls) if pkg == "hello" && urls == &vec!["b".to_string(), "a".to_string()]));

    let mut d = appdata(None);
    d.screenshots = Some(vec![shot("only", None)]);
    p.update(PackageMessage::UpdateAppData { data: Some(d), command_found: false });
    assert_eq!(p.screenshots.len(), 1);
    assert_eq!(p.carousel_page, CarouselPage::Single);

    let e = p.update(PackageMessage::UpdateAppData { data: Some(appdata(None)), command_found: false });
    assert!(e.is_empty());
    assert_eq!(p.screenshot_urls, vec!["only".to_string()]);
}

#[test]
fn screenshot_answers_for_the_page() {
    let mut p = page();
    let mut d = appdata(None);
    d.screenshots = Some(vec![shot("x", None), shot("y", None)]);
    p.update(PackageMessage::UpdateAppData { data: Some(d), command_found: false });
    p.update_cmd(PackageAsyncMessage::LoadScreenshot("hello".to_string(), 1, "/c/x.png".to_string()));
    assert_eq!(p.screenshots[1].path, Some("/c/x.png".to_string()));
    p.update(PackageMessage::LoadScreenshot("vim".to_string(), 0, "/c/y.png".to_string()));
    assert_eq!(p.screenshots[0].path, None);
    p.update_cmd(PackageAsyncMessage::SetError("hello".to_string(), 0));
    assert!(p.screenshots[0].error);
    p.update(PackageMessage::SetError("hello".to_string(), 7));
    assert!(!p.screenshots[1].error);
    assert_eq!(p.screenshots.len(), 2);
}
