//! Release rows of the package page: how long ago a release came out.

use vstd::prelude::*;
use vstd::string::StringExecFns;

use crate::details::ReleaseItemInit;
use crate::license::{clone_opt_string, opt_view};
use crate::text::{decimal, decimal_string};

verus! {

/// Seconds in a day.
pub const SECS_PER_DAY: u128 = 86400;

/// Whole days from `date` to `now` (both in seconds), rounded toward zero.
pub open spec fn age_days(now: int, date: int) -> int {
    let d = now - date;
    if d >= 0 { d / 86400 } else { -((-d) / 86400) }
}

/// A count with its unit: the singular phrase when the count is one, else
/// the count in decimal before the plural phrase.
pub open spec fn counted(n: int, plural_n: int, one: Seq<char>, many: Seq<char>) -> Seq<char> {
    if plural_n == 1 { one } else { decimal(n as nat) + many }
}

/// How long ago a release came out, from its age in days: nothing for a
/// date in the future, "Today", then days below thirty, months of thirty
/// days below a year, and years of 365 days. The singular form is chosen
/// from the count of 32-bit days, as the count is handed on.
pub open spec fn age_text(days: int) -> Seq<char> {
    if days < 0 {
        Seq::empty()
    } else if days == 0 {
        "Today"@
    } else if days < 30 {
        counted(days, days, "A day ago"@, " days ago"@)
    } else if days < 365 {
        counted(days / 30, days / 30, "A month ago"@, " months ago"@)
    } else {
        counted(days / 365, (days % 0x1_0000_0000) / 365, "A year ago"@, " years ago"@)
    }
}

/// The whole days from `date` to `now`.
pub fn release_age_days(now: i64, date: i64) -> (r: i128)
    ensures
        r == age_days(now as int, date as int),
{
    let d: i128 = now as i128 - date as i128;
    if d >= 0 {
        let m: u128 = d as u128;
        (m / SECS_PER_DAY) as i128
    } else {
        let m: u128 = (0 - d) as u128;
        0 - ((m / SECS_PER_DAY) as i128)
    }
}

fn counted_text(n: u64, singular: bool, one: &str, many: &str) -> (r: String)
    ensures
        r@ == (if singular { one@ } else { decimal(n as nat) + many@ }),
{
    if singular {
        String::from_str(one)
    } else {
        let mut s = decimal_string(n);
        s.append(many);
        s
    }
}

/// The text telling how long ago a release dated `date` came out, at time
/// `now` (both in seconds since the epoch).
pub fn release_age_text(now: i64, date: i64) -> (r: String)
    ensures
        r@ == age_text(age_days(now as int, date as int)),
{
    let days = release_age_days(now, date);
    if days < 0 {
        String::new()
    } else if days == 0 {
        String::from_str("Today")
    } else if days < 30 {
        counted_text(days as u64, days == 1, "A day ago", " days ago")
    } else if days < 365 {
        let m = days / 30;
        counted_text(m as u64, m == 1, "A month ago", " months ago")
    } else {
        let y = days / 365;
        let low = (days % 0x1_0000_0000) / 365;
        counted_text(y as u64, low == 1, "A year ago", " years ago")
    }
}

/// A release row as shown: the age of the release in place of its date.
#[derive(Debug)]
pub struct ReleaseItem {
    pub version: Option<String>,
    pub date: Option<String>,
    pub description: Option<String>,
    pub url: Option<String>,
    pub installed: bool,
}

/// The current time in seconds since the epoch (`chrono::Utc::now`). What
/// it returns depends on the clock and is left open.
#[verifier::external_body]
fn now_seconds() -> (r: i64) {
    chrono::Utc::now().timestamp()
}

impl ReleaseItem {
    /// The row of a release at time `now`.
    pub fn at_time(init: ReleaseItemInit, now: i64) -> (r: ReleaseItem)
        ensures
            opt_view(r.version) == opt_view(init.version),
            opt_view(r.description) == opt_view(init.description),
            opt_view(r.url) == opt_view(init.url),
            r.installed == init.installed,
            match init.date {
                Some(d) => r.date matches Some(t) && t@ == age_text(age_days(now as int, d as int)),
                None => r.date is None,
            },
    {
        let date = match init.date {
            Some(d) => Some(release_age_text(now, d)),
            None => None,
        };
        ReleaseItem { version: init.version, date, description: init.description, url: init.url, installed: init.installed }
    }

    /// The row of a release now. The age text follows the clock; which text
    /// comes out is left to [`ReleaseItem::at_time`].
    pub fn init_model(init: ReleaseItemInit) -> (r: ReleaseItem)
        ensures
            opt_view(r.version) == opt_view(init.version),
            opt_view(r.description) == opt_view(init.description),
            opt_view(r.url) == opt_view(init.url),
            r.installed == init.installed,
            r.date is Some <==> init.date is Some,
    {
        let now = now_seconds();
        ReleaseItem::at_time(init, now)
    }
}

/// The releases behind the "Version History" dialog.
#[derive(Debug)]
pub struct ReleasesInit {
    pub releases: Vec<ReleaseItemInit>,
}

/// The views of release rows.
pub open spec fn release_inits_view(v: Seq<ReleaseItemInit>) -> Seq<crate::details::ReleaseModel> {
    v.map_values(|r: ReleaseItemInit| r@)
}

/// How a package page shows its releases: the first as the latest release,
/// and all of them in the history dialog, which exists only when there are
/// any.
pub fn release_rows(releases: Vec<ReleaseItemInit>) -> (r: (Option<ReleaseItemInit>, Option<ReleasesInit>))
    ensures
        releases.len() == 0 ==> r.0 is None && r.1 is None,
        releases.len() > 0 ==> {
            &&& (r.0 matches Some(l) && l@ == releases@[0]@)
            &&& (r.1 matches Some(d) && release_inits_view(d.releases@) == release_inits_view(releases@))
        },
{
    if releases.len() == 0 {
        (None, None)
    } else {
        let first = &releases[0];
        let latest = ReleaseItemInit {
            version: clone_opt_string(&first.version),
            date: first.date,
            description: clone_opt_string(&first.description),
            url: clone_opt_string(&first.url),
            installed: first.installed,
        };
        (Some(latest), Some(ReleasesInit { releases }))
    }
}

} // verus!
