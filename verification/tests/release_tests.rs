use nix_software_center::details::ReleaseItemInit;
use nix_software_center::release::{release_age_days, release_age_text, ReleaseItem};

const DAY: i64 = 86400;

#[test]
fn age_in_days() {
    assert_eq!(release_age_days(10 * DAY + 5, 0), 10);
    assert_eq!(release_age_days(0, DAY + 1), -1);
    assert_eq!(release_age_days(0, DAY - 1), 0);
}

#[test]
fn age_texts() {
    let now = 1_000 * DAY;
    assert_eq!(release_age_text(now, now - 100), "Today");
    assert_eq!(release_age_text(now, now - DAY), "A day ago");
    assert_eq!(release_age_text(now, now - 5 * DAY), "5 days ago");
    assert_eq!(release_age_text(now, now - 30 * DAY), "A month ago");
    assert_eq!(release_age_text(now, now - 65 * DAY), "2 months ago");
    assert_eq!(release_age_text(now, now - 365 * DAY), "A year ago");
    assert_eq!(release_age_text(now, now - 800 * DAY), "2 years ago");
    assert_eq!(release_age_text(now, now + 2 * DAY), "");
}

fn init(date: Option<i64>) -> ReleaseItemInit {
    ReleaseItemInit { version: Some("1.0".to_string()), date, description: Some("Fixes".to_string()), url: None, installed: true }
}

#[test]
fn row_at_a_given_time() {
    let r = ReleaseItem::at_time(init(Some(0)), 3 * DAY);
    assert_eq!(r.date, Some("3 days ago".to_string()));
    assert_eq!(r.version, Some("1.0".to_string()));
    assert!(r.installed);
    assert_eq!(ReleaseItem::at_time(init(None), 3 * DAY).date, None);
}

#[test]
fn row_now_of_an_old_release() {
    let r = ReleaseItem::init_model(init(Some(0)));
    let d = r.date.unwrap();
    assert!(d.ends_with(" years ago"), "{d}");
}

#[test]
fn latest_release_and_history() {
    let (latest, dialog) = nix_software_center::release::release_rows(vec![init(Some(1)), init(Some(2))]);
    assert_eq!(latest.unwrap().date, Some(1));
    assert_eq!(dialog.unwrap().releases.len(), 2);
    let (latest, dialog) = nix_software_center::release::release_rows(Vec::new());
    assert!(latest.is_none());
    assert!(dialog.is_none());
}
