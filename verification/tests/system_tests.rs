use nix_software_center::system::{is_flake_version, needs_welcome, system_pkgs, update_flake, update_sysconfig, NixDataConfig, SystemPkgs};

#[test]
fn flake_versions() {
    assert!(is_flake_version("24.05.20240501.abcdef1"));
    assert!(is_flake_version("24.11.dirty"));
    assert!(is_flake_version("24.11.git"));
    assert!(!is_flake_version("24.05.20240501.abcdef12"));
    assert!(!is_flake_version("24.05.4567.8a9b0c1d"));
    assert!(is_flake_version("1234567"));
}

#[test]
fn management_needs_config_and_nixos() {
    assert_eq!(system_pkgs(false, true, Some("24.05.git"), true, true), SystemPkgs::Unmanaged);
    assert_eq!(system_pkgs(true, false, Some("24.05.git"), true, true), SystemPkgs::Unmanaged);
    assert_eq!(system_pkgs(true, true, None, false, true), SystemPkgs::Unmanaged);
}

#[test]
fn management_by_flake() {
    assert_eq!(system_pkgs(true, true, Some("24.05.1234.56789ab"), true, false), SystemPkgs::Flake);
    assert_eq!(system_pkgs(true, true, Some("24.05.1234.5678"), false, false), SystemPkgs::Flake);
    assert_eq!(system_pkgs(true, true, Some("24.05.1234.5678"), true, true), SystemPkgs::Flake);
    assert_eq!(system_pkgs(true, true, Some("24.05.1234.5678"), true, false), SystemPkgs::Unmanaged);
}

#[test]
fn welcome_page() {
    assert!(needs_welcome(false, false, false, false, false));
    assert!(needs_welcome(true, true, false, false, false));
    assert!(needs_welcome(true, false, false, true, false));
    assert!(!needs_welcome(true, true, true, true, true));
    assert!(!needs_welcome(true, false, false, false, false));
}

#[test]
fn system_config_change() {
    let mut c = NixDataConfig::empty();
    c.flake = Some("/etc/nixos/flake.nix".to_string());
    let t = update_sysconfig(&mut c, SystemPkgs::Unmanaged, Some("/etc/nixos/configuration.nix".to_string()), true);
    assert_eq!(t, SystemPkgs::Flake);
    assert_eq!(c.systemconfig, Some("/etc/nixos/configuration.nix".to_string()));
    let t = update_sysconfig(&mut c, SystemPkgs::Flake, None, true);
    assert_eq!(t, SystemPkgs::Unmanaged);
    let t = update_sysconfig(&mut c, SystemPkgs::Flake, Some("x".to_string()), false);
    assert_eq!(t, SystemPkgs::Unmanaged);
}

#[test]
fn flake_change() {
    let mut c = NixDataConfig::empty();
    let t = update_flake(&mut c, SystemPkgs::Unmanaged, Some("/etc/nixos".to_string()), Some("host".to_string()), true);
    assert_eq!(t, SystemPkgs::Flake);
    assert_eq!(c.flakearg, Some("host".to_string()));
    assert_eq!(update_flake(&mut c, SystemPkgs::Flake, None, None, true), SystemPkgs::Unmanaged);
    assert_eq!(update_flake(&mut c, SystemPkgs::Flake, None, None, false), SystemPkgs::Flake);
}
