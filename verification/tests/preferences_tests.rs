use nix_software_center::package::InstallType;
use nix_software_center::preferences::{state_with_install_type, PreferencesEffect, PreferencesPageModel, PreferencesPageMsg, State};
use nix_software_center::system::NixDataConfig;

#[test]
fn saved_install_type() {
    assert_eq!(state_with_install_type(None, InstallType::System).install_type, Some(InstallType::System));
    let s = State { install_type: Some(InstallType::System) };
    assert_eq!(state_with_install_type(Some(s), InstallType::User).install_type, Some(InstallType::User));
}

#[test]
fn show_loads_the_configuration() {
    let mut p = PreferencesPageModel::new();
    let mut c = NixDataConfig::empty();
    c.systemconfig = Some("/etc/nixos/configuration.nix".to_string());
    c.flakearg = Some("host".to_string());
    let e = p.update(PreferencesPageMsg::Show(c));
    assert!(matches!(e.as_slice(), [PreferencesEffect::Present]));
    assert_eq!(p.configpath, Some("/etc/nixos/configuration.nix".to_string()));
    assert_eq!(p.flakearg, Some("host".to_string()));
}

#[test]
fn choosing_a_config_file() {
    let mut p = PreferencesPageModel::new();
    let e = p.update(PreferencesPageMsg::SetConfigPath(Some("/c.nix".to_string())));
    assert!(matches!(e.as_slice(), [PreferencesEffect::UpdateSysconfig(Some(x)), PreferencesEffect::UpdateInstalledPkgs] if x == "/c.nix"));
}

#[test]
fn clearing_the_flake_clears_its_argument() {
    let mut p = PreferencesPageModel::new();
    p.update(PreferencesPageMsg::OpenFlake);
    assert!(p.flake_pending);
    p.update(PreferencesPageMsg::SetFlakeArg(Some("host".to_string())));
    let e = p.update(PreferencesPageMsg::SetFlakePath(None));
    assert!(matches!(e.as_slice(), [PreferencesEffect::ModifyFlake]));
    assert!(!p.flake_pending);
    assert_eq!(p.flakearg, None);
}

#[test]
fn empty_flake_path_is_no_flake() {
    let mut p = PreferencesPageModel::new();
    p.update(PreferencesPageMsg::SetFlakePath(Some(String::new())));
    let e = p.update(PreferencesPageMsg::ModifyFlake);
    assert!(matches!(e.as_slice(), [PreferencesEffect::UpdateFlake(None, None)]));
    p.update(PreferencesPageMsg::SetFlakePath(Some("/etc/nixos".to_string())));
    p.update(PreferencesPageMsg::SetFlakeArg(Some("pc".to_string())));
    let e = p.update(PreferencesPageMsg::ModifyFlake);
    assert!(matches!(e.as_slice(), [PreferencesEffect::UpdateFlake(Some(f), Some(a))] if f == "/etc/nixos" && a == "pc"));
}
