use nix_software_center::details::{app_links, apply_appstream_data, icon_path, largest_icon, screenshot_urls, LinkType};
use nix_software_center::package::{CarouselPage, Launch};
use nix_software_center::packages::{
    AppData, AppIcon, AppIconList, AppLaunchable, AppRelease, AppScreenshot, AppScreenshotImage, AppUrl, LocalizedText, ReleaseType,
    ReleaseUrl,
};

fn text(s: &str) -> Option<LocalizedText> {
    Some(LocalizedText::from_entries(vec![("C".to_string(), s.to_string())]))
}

fn icon(name: &str, w: u32, h: u32) -> AppIcon {
    AppIcon { name: name.to_string(), width: w, height: h }
}

fn shot(url: &str, default: Option<bool>) -> AppScreenshot {
    AppScreenshot { default, thumbnails: None, sourceimage: Some(AppScreenshotImage { url: url.to_string() }) }
}

fn empty_url() -> AppUrl {
    AppUrl {
        homepage: None,
        bugtracker: None,
        faq: None,
        help: None,
        donation: None,
        translate: None,
        contact: None,
        vcs_browser: None,
        contribute: None,
    }
}

fn app() -> AppData {
    AppData {
        metatype: "desktop-application".to_string(),
        id: "org.gnome.Hello".to_string(),
        package: "hello".to_string(),
        name: text("Hello"),
        description: text("<p>Says hello</p>"),
        summary: text("Greets you"),
        url: None,
        icon: None,
        launchable: None,
        provides: None,
        screenshots: None,
        categories: None,
        releases: None,
        branding: None,
    }
}

#[test]
fn link_titles_and_icons() {
    assert_eq!(LinkType::Website.title(), "Project Website");
    assert_eq!(LinkType::Source.title(), "Source Code");
    assert_eq!(LinkType::NixSource.icon(), Some("shoe-box-symbolic"));
}

#[test]
fn links_in_page_order() {
    let mut u = empty_url();
    u.bugtracker = Some("https://bugs".to_string());
    u.homepage = Some("https://home".to_string());
    let links = app_links(&Some(u));
    assert_eq!(links.len(), 2);
    assert_eq!(links[0].link_type, LinkType::Website);
    assert_eq!(links[0].link, "https://home");
    assert_eq!(links[1].link_type, LinkType::IssueTracker);
    assert!(app_links(&None).is_empty());
}

#[test]
fn tallest_icon_last_of_equals() {
    let icons = vec![icon("a", 64, 64), icon("b", 128, 128), icon("c", 128, 128), icon("d", 48, 48)];
    let i = largest_icon(&icons).unwrap();
    assert_eq!(i.name, "c");
    assert!(largest_icon(&Vec::new()).is_none());
}

#[test]
fn icon_file_path() {
    assert_eq!(icon_path("/share/app-info", &icon("hello.png", 64, 64)), "/share/app-info/icons/nixos/64x64/hello.png");
}

#[test]
fn default_screenshot_comes_first() {
    let v = screenshot_urls(&vec![shot("a", None), shot("b", Some(true)), shot("a", Some(false)), shot("c", Some(false))]);
    assert_eq!(v, vec!["b".to_string(), "a".to_string(), "c".to_string()]);
}

#[test]
fn known_default_screenshot_moves_to_front() {
    let v = screenshot_urls(&vec![shot("a", None), shot("b", None), shot("b", Some(true))]);
    assert_eq!(v, vec!["b".to_string(), "a".to_string()]);
}

#[test]
fn appstream_data_fills_the_page() {
    let mut d = app();
    d.icon = Some(AppIconList { cached: Some(vec![icon("s", 64, 64), icon("l", 128, 128)]), stock: None });
    d.screenshots = Some(vec![shot("one", Some(true)), shot("two", None)]);
    d.launchable = Some(AppLaunchable { desktopid: vec!["org.gnome.Hello.desktop".to_string()] });
    d.releases = Some(vec![AppRelease {
        version: Some("2.0".to_string()),
        release_type: ReleaseType::Stable,
        date: Some(1_700_000_000),
        timestamp: None,
        description: text("<p>New</p>"),
        url: Some(ReleaseUrl { details: Some("https://notes".to_string()) }),
    }]);
    let r = apply_appstream_data(&d, false, false, &"hello".to_string());
    assert_eq!(r.name, Some("Hello".to_string()));
    assert_eq!(r.summary, Some("Greets you".to_string()));
    assert_eq!(r.description, Some("Says hello".to_string()));
    assert_eq!(r.icon.unwrap().name, "l");
    let (shots, page) = r.screenshots.unwrap();
    assert_eq!(shots, vec!["one".to_string(), "two".to_string()]);
    assert_eq!(page, CarouselPage::First);
    assert!(matches!(r.launchable, Some(Launch::GtkApp(ref x)) if x == "org.gnome.Hello.desktop"));
    let rel = r.releases.unwrap();
    assert_eq!(rel[0].version, Some("2.0".to_string()));
    assert_eq!(rel[0].description, Some("New".to_string()));
    assert_eq!(rel[0].url, Some("https://notes".to_string()));
}

#[test]
fn terminal_launch_for_user_packages() {
    let r = apply_appstream_data(&app(), true, true, &"hello".to_string());
    assert!(matches!(r.launchable, Some(Launch::TerminalApp(ref x)) if x == "hello"));
    let r = apply_appstream_data(&app(), true, false, &"hello".to_string());
    assert!(r.launchable.is_none());
}

#[test]
fn database_fields_of_the_page() {
    let i = nix_software_center::details::package_info(
        "hello".to_string(),
        "2.12".to_string(),
        "".to_string(),
        "A program".to_string(),
        false,
        true,
        false,
        false,
    );
    assert_eq!(i.name, "hello");
    assert_eq!(i.summary, None);
    assert_eq!(i.description, Some("A program".to_string()));
    assert_eq!(i.version, Some("2.12".to_string()));
    assert!(i.insecure);
}

#[test]
fn nix_source_link_comes_last() {
    let mut u = empty_url();
    u.homepage = Some("https://home".to_string());
    let links = nix_software_center::details::page_links(&app_links(&Some(u)), &"pkgs/hello.nix:3".to_string());
    assert_eq!(links.len(), 2);
    assert_eq!(links[1].link_type, LinkType::NixSource);
    assert_eq!(links[1].link, "https://github.com/NixOS/nixpkgs/blob/nixos-unstable/pkgs/hello.nix#L3");
}
