use nix_software_center::html_lead::leads_with_comment_exec;
use nix_software_center::text::{decimal_string, html_to_pango, normalize_summary};

#[test]
fn summary_is_put_on_one_line() {
    let s = normalize_summary(Some("  A simple\n  text   editor \n".to_string()));
    assert_eq!(s, Some("A simple text editor".to_string()));
}

#[test]
fn missing_summary_stays_missing() {
    assert_eq!(normalize_summary(None), None);
}

#[test]
fn summary_without_spaces_is_kept() {
    assert_eq!(normalize_summary(Some("Editor".to_string())), Some("Editor".to_string()));
}

#[test]
fn description_list_becomes_markup() {
    let m = html_to_pango("<body>some items: <ul><li>first</li><li>second</li></ul><body");
    assert_eq!(m, "some items: \n• first\n• second");
}

#[test]
fn description_link_is_kept() {
    let m = html_to_pango("<body>a nice <a href=\"https://gnome.org\">link</a>");
    assert_eq!(m, "a nice <a href=\"https://gnome.org\">link</a>");
}

#[test]
fn description_whitespace_is_flattened() {
    let m = html_to_pango("<p>Hello\n\t  world</p>");
    assert!(!m.contains('\t'));
    assert!(!m.contains("\n "));
    assert!(!m.ends_with('\n'));
    assert!(m.contains("Hello world"));
}

#[test]
fn decimal_numbers() {
    assert_eq!(decimal_string(0), "0");
    assert_eq!(decimal_string(7), "7");
    assert_eq!(decimal_string(640), "640");
    assert_eq!(decimal_string(u64::MAX), u64::MAX.to_string());
}

#[test]
fn description_starting_with_comment_is_kept_as_text() {
    assert_eq!(html_to_pango("<!--c-->x"), "<!--c-->x");
    assert_eq!(html_to_pango("<?xml version=\"1.0\"?>\n<p>x</p>"), "<?xml version=\"1.0\"?> <p>x</p>");
    assert_eq!(html_to_pango("</p><!--c-->x"), "</p><!--c-->x");
    assert_eq!(html_to_pango("&#32;<!--c-->x"), "&#32;<!--c-->x");
    assert_eq!(html_to_pango("<!doctype html><!--c-->x"), "<!doctype html><!--c-->x");
    assert_eq!(html_to_pango("x<!--c-->y"), "xy");
}

#[test]
fn description_after_skipped_start_is_converted() {
    assert_eq!(html_to_pango("</p>foo"), "foo");
    assert_eq!(html_to_pango("<!DOCTYPE html>foo"), "foo");
    assert_eq!(html_to_pango("&Tab;</x a=\"1>2\">foo"), "foo");
    assert!(!html_to_pango("</br><!--c-->x").contains("<!--"));
}

fn lead(s: &str) -> bool {
    leads_with_comment_exec(&s.chars().collect())
}

#[test]
fn comments_ahead_of_the_document() {
    assert!(lead("<!--c-->"));
    assert!(lead("\u{FEFF}  <!x>"));
    assert!(lead("<?php"));
    assert!(lead("</1>"));
    assert!(lead("</>&#x20;&NewLine;<!-- -->"));
    assert!(lead("</p class='a>b' >&#9<!---->"));
    assert!(lead("<!DocType html public \"x\"><!--c-->"));
    assert!(!lead(""));
    assert!(!lead("text<!--c-->"));
    assert!(!lead("<p><!--c-->"));
    assert!(!lead("</body><!--c-->"));
    assert!(!lead("</BR ><!--c-->"));
    assert!(!lead("&#33;<!--c-->"));
    assert!(!lead("&tab;<!--c-->"));
    assert!(!lead("</p"));
    assert!(!lead("<!doctype html"));
    assert!(!lead("</"));
    assert!(!lead("<"));
}
