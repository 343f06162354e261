use nix_software_center::license::{addlicense, expression_entry_from_spdx, license_entry_from_spdx, License, SpdxLicense};
use nix_software_center::packages::{License as PkgLicense, LicenseEnum};

fn record(fullname: Option<&str>, spdxid: Option<&str>, free: Option<bool>, url: Option<&str>) -> PkgLicense {
    PkgLicense {
        free,
        fullname: fullname.map(|s| s.to_string()),
        spdxid: spdxid.map(|s| s.to_string()),
        url: url.map(|s| s.to_string()),
    }
}

fn run(l: &LicenseEnum) -> Vec<License> {
    let mut v = Vec::new();
    addlicense(l, &mut v);
    v
}

#[test]
fn spdx_expression_is_looked_up() {
    let v = run(&LicenseEnum::SingleStr("MIT".to_string()));
    assert_eq!(v.len(), 1);
    assert_eq!(v[0].fullname, "MIT License");
    assert_eq!(v[0].spdx_id, Some("MIT".to_string()));
    assert_eq!(v[0].free, Some(true));
    assert_eq!(v[0].url, Some("https://spdx.org/licenses/MIT.html".to_string()));
}

#[test]
fn unknown_expression_gives_nothing() {
    assert!(run(&LicenseEnum::SingleStr("NotALicense-9".to_string())).is_empty());
}

#[test]
fn record_with_full_name_keeps_it() {
    let v = run(&LicenseEnum::Single(record(Some("Apache License 2.0"), Some("Apache-2.0"), None, None)));
    assert_eq!(v.len(), 1);
    assert_eq!(v[0].fullname, "Apache License 2.0");
    assert_eq!(v[0].spdx_id, Some("Apache-2.0".to_string()));
    assert_eq!(v[0].free, Some(true));
    assert_eq!(v[0].url, Some("https://spdx.org/licenses/Apache-2.0.html".to_string()));
}

#[test]
fn record_fields_win_over_spdx() {
    let v = run(&LicenseEnum::Single(record(Some("Custom"), Some("MIT"), Some(false), Some("https://example.org"))));
    assert_eq!(v[0].free, Some(false));
    assert_eq!(v[0].url, Some("https://example.org".to_string()));
}

#[test]
fn record_without_names_gives_nothing() {
    assert!(run(&LicenseEnum::Single(record(None, None, Some(true), None))).is_empty());
}

#[test]
fn unfree_record_without_spdx() {
    let v = run(&LicenseEnum::Single(record(Some("Unfree"), None, Some(false), None)));
    assert_eq!(v.len(), 1);
    assert_eq!(v[0].fullname, "Unfree");
    assert_eq!(v[0].free, Some(false));
    assert_eq!(v[0].url, None);
}

#[test]
fn lists_keep_their_order() {
    let l = LicenseEnum::Mixed(vec![
        LicenseEnum::VecStr(vec!["MIT".to_string(), "bogus".to_string(), "Apache-2.0".to_string()]),
        LicenseEnum::List(vec![record(None, Some("MIT"), None, None)]),
    ]);
    let v = run(&l);
    let ids: Vec<Option<String>> = v.iter().map(|x| x.spdx_id.clone()).collect();
    assert_eq!(ids, vec![Some("MIT".to_string()), Some("Apache-2.0".to_string()), Some("MIT".to_string())]);
}

#[test]
fn licenses_are_appended() {
    let mut v = vec![License { free: None, fullname: "Old".to_string(), spdx_id: None, url: None }];
    addlicense(&LicenseEnum::SingleStr("MIT".to_string()), &mut v);
    assert_eq!(v.len(), 2);
    assert_eq!(v[0].fullname, "Old");
}

fn listed(name: &str, full: &str, osi: bool, fsf: bool) -> SpdxLicense {
    SpdxLicense { name: name.to_string(), full_name: full.to_string(), osi_approved: osi, fsf_free_libre: fsf }
}

#[test]
fn record_entry_from_the_list() {
    let r = record(Some("Some License"), None, None, None);
    let e = license_entry_from_spdx(&r, Some(listed("SL-1", "Some License 1", false, true))).unwrap();
    assert_eq!(e.fullname, "Some License");
    assert_eq!(e.free, Some(true));
    assert_eq!(e.spdx_id, None);
    assert_eq!(e.url, Some("https://spdx.org/licenses/SL-1.html".to_string()));

    let e = license_entry_from_spdx(&r, None).unwrap();
    assert_eq!(e.free, None);
    assert_eq!(e.url, None);

    let r = record(None, Some("SL-1"), Some(false), Some("https://x"));
    let e = license_entry_from_spdx(&r, Some(listed("SL-1", "Some License 1", false, false))).unwrap();
    assert_eq!(e.fullname, "Some License 1");
    assert_eq!(e.free, Some(false));
    assert_eq!(e.spdx_id, Some("SL-1".to_string()));
    assert_eq!(e.url, Some("https://x".to_string()));
    assert!(license_entry_from_spdx(&r, None).is_none());
    assert!(license_entry_from_spdx(&record(None, None, Some(true), None), Some(listed("A", "B", true, true))).is_none());
}

#[test]
fn expression_entry_from_the_list() {
    let e = expression_entry_from_spdx(Some(listed("X-2", "X License 2", true, false))).unwrap();
    assert_eq!(e.fullname, "X License 2");
    assert_eq!(e.spdx_id, Some("X-2".to_string()));
    assert_eq!(e.free, Some(true));
    assert_eq!(e.url, Some("https://spdx.org/licenses/X-2.html".to_string()));
    assert!(expression_entry_from_spdx(None).is_none());
}
