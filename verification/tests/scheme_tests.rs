use nix_software_center::scheme::{parse_cli, parse_scheme, Scheme, SchemeArgError, SchemeParser};

fn nixpkg(s: &Scheme) -> Option<&str> {
    match s {
        Scheme::NixPkg(n) => Some(n.as_str()),
        _ => None,
    }
}

#[test]
fn nixpkg_uri_names_a_package() {
    let s = parse_scheme("nixpkg://firefox").unwrap();
    assert_eq!(nixpkg(&s), Some("firefox"));
}

#[test]
fn nixpkg_uri_with_dotted_attribute() {
    let s = parse_scheme("nixpkg://python3Packages.numpy").unwrap();
    assert_eq!(nixpkg(&s), Some("python3Packages.numpy"));
}

#[test]
fn appstream_uri_without_alternatives() {
    match parse_scheme("appstream://org.gnome.Evince").unwrap() {
        Scheme::AppStream { id, alt } => {
            assert_eq!(id, "org.gnome.Evince");
            assert!(alt.is_none());
        }
        _ => panic!("expected an AppStream scheme"),
    }
}

#[test]
fn appstream_uri_with_alternatives() {
    match parse_scheme("appstream://org.gnome.Evince?alt=evince,papers").unwrap() {
        Scheme::AppStream { id, alt } => {
            assert_eq!(id, "org.gnome.Evince");
            assert_eq!(alt, Some(vec!["evince".to_string(), "papers".to_string()]));
        }
        _ => panic!("expected an AppStream scheme"),
    }
}

#[test]
fn unknown_scheme_is_refused() {
    assert!(parse_scheme("https://nixos.org").is_err());
    assert!(parse_scheme("nixpkg://").is_err());
    assert!(parse_scheme("nixpkg://3d-viewer").is_err());
    assert!(parse_scheme("nixpkg://firefox extra").is_err());
}

#[test]
fn argument_parser_reports_errors() {
    let p = SchemeParser;
    assert_eq!(p.parse_ref(b"ftp://x").unwrap_err(), SchemeArgError::UnknownArgument);
    assert_eq!(p.parse_ref(&[0xff, 0xfe]).unwrap_err(), SchemeArgError::MissingRequiredArgument);
    assert_eq!(nixpkg(&p.parse_ref(b"nixpkg://hello").unwrap()), Some("hello"));
}

#[test]
fn command_line_without_uri() {
    let c = parse_cli(None).unwrap();
    assert!(c.scheme.is_none());
}

#[test]
fn command_line_with_uri() {
    let c = parse_cli(Some(b"nixpkg://gimp")).unwrap();
    assert_eq!(nixpkg(c.scheme.as_ref().unwrap()), Some("gimp"));
    assert_eq!(parse_cli(Some(b"gimp")).unwrap_err(), SchemeArgError::UnknownArgument);
}
