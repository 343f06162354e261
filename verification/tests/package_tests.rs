use nix_software_center::package::{
    carousel_page_at, collect_platforms, initial_install_type, next_screenshot, nix_source_link, previous_screenshot,
    CarouselPage, InstallType,
};
use nix_software_center::packages::Platform;

#[test]
fn install_type_follows_where_it_is_installed() {
    assert_eq!(initial_install_type(true, false, Some(InstallType::User)), InstallType::System);
    assert_eq!(initial_install_type(false, true, Some(InstallType::System)), InstallType::User);
    assert_eq!(initial_install_type(true, true, Some(InstallType::System)), InstallType::System);
    assert_eq!(initial_install_type(false, false, None), InstallType::User);
}

#[test]
fn carousel_pages() {
    assert_eq!(carousel_page_at(0, 1), CarouselPage::Single);
    assert_eq!(carousel_page_at(0, 3), CarouselPage::First);
    assert_eq!(carousel_page_at(1, 3), CarouselPage::Middle);
    assert_eq!(carousel_page_at(2, 3), CarouselPage::Last);
}

#[test]
fn screenshot_navigation() {
    assert_eq!(previous_screenshot(0), (None, None));
    assert_eq!(previous_screenshot(1), (Some(0), Some(CarouselPage::First)));
    assert_eq!(previous_screenshot(3), (Some(2), Some(CarouselPage::Middle)));
    assert_eq!(next_screenshot(0, 3), (Some(1), CarouselPage::Middle));
    assert_eq!(next_screenshot(1, 3), (Some(2), CarouselPage::Last));
    assert_eq!(next_screenshot(2, 3), (None, CarouselPage::Last));
}

#[test]
fn source_link_points_at_the_line() {
    assert_eq!(
        nix_source_link(&"pkgs/applications/editors/vim/default.nix:42".to_string()),
        "https://github.com/NixOS/nixpkgs/blob/nixos-unstable/pkgs/applications/editors/vim/default.nix#L42"
    );
}

#[test]
fn platforms_put_the_system_first() {
    let p = Some(Platform::ListList(vec![
        vec!["x86_64-linux".to_string(), "aarch64-linux".to_string()],
        vec!["aarch64-darwin".to_string(), "x86_64-linux".to_string()],
    ]));
    let v = collect_platforms(&p, &"x86_64-linux".to_string());
    assert_eq!(v, vec!["x86_64-linux".to_string(), "aarch64-darwin".to_string(), "aarch64-linux".to_string()]);
}

#[test]
fn single_platform() {
    let v = collect_platforms(&Some(Platform::Single("i686-linux".to_string())), &"x86_64-linux".to_string());
    assert_eq!(v, vec!["x86_64-linux".to_string(), "i686-linux".to_string()]);
}
