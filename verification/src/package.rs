//! The decisions of the package page: install type, platforms, links,
//! screenshot carousel, and the queue of install and remove work.

use vstd::prelude::*;
use vstd::string::StringExecFns;

use crate::packages::Platform;
use crate::text::{chars_of, char_seq_less, char_seq_lt, lemma_char_seq_lt_total, lemma_char_seq_lt_trans, string_from_chars, strictly_sorted, strings_view};

verus! {

#[derive(Debug, Clone, Copy, PartialEq, Eq, Structural)]
pub enum InstallType {
    User,
    System,
}

#[derive(Debug, Clone, Copy, PartialEq, Eq, Structural)]
pub enum PackageAction {
    Install,
    Remove,
}

#[derive(Debug, Clone, Copy, PartialEq, Eq, Structural)]
pub enum NotifyPage {
    Installed,
}

#[derive(Debug, Clone, Copy, PartialEq, Eq, Structural)]
pub enum CarouselPage {
    First,
    Middle,
    Last,
    Single,
}

/// How an installed package can be started.
#[derive(Debug)]
pub enum Launch {
    GtkApp(String),
    TerminalApp(String),
}

/// How a package is installed when the page opens: where it is installed if
/// it is installed in exactly one way, else the saved choice, else per user.
pub open spec fn spec_initial_install_type(is_system: bool, is_user: bool, saved: Option<InstallType>) -> InstallType {
    if is_system && !is_user {
        InstallType::System
    } else if !is_system && is_user {
        InstallType::User
    } else {
        match saved {
            Some(t) => t,
            None => InstallType::User,
        }
    }
}

pub fn initial_install_type(is_system: bool, is_user: bool, saved: Option<InstallType>) -> (r: InstallType)
    ensures
        r == spec_initial_install_type(is_system, is_user, saved),
{
    match (is_system, is_user) {
        (true, false) => InstallType::System,
        (false, true) => InstallType::User,
        _ => match saved {
            Some(t) => t,
            None => InstallType::User,
        },
    }
}

/// The carousel position shown for page `i` of `n` screenshots.
pub open spec fn spec_carousel_page_at(i: u32, n: u32) -> CarouselPage {
    if i == 0 && n == 1 {
        CarouselPage::Single
    } else if i == 0 {
        CarouselPage::First
    } else if i == n - 1 {
        CarouselPage::Last
    } else {
        CarouselPage::Middle
    }
}

pub fn carousel_page_at(i: u32, n: u32) -> (r: CarouselPage)
    requires
        i == 0 || n > 0,
    ensures
        r == spec_carousel_page_at(i, n),
{
    if i == 0 && n == 1 {
        CarouselPage::Single
    } else if i == 0 {
        CarouselPage::First
    } else if i == n - 1 {
        CarouselPage::Last
    } else {
        CarouselPage::Middle
    }
}

/// Going back from screenshot `i`: the page to scroll to and the position
/// to show.
pub fn previous_screenshot(i: u32) -> (r: (Option<u32>, Option<CarouselPage>))
    ensures
        r.0 == (if i > 0 { Some((i - 1) as u32) } else { None::<u32> }),
        r.1 == (if i == 1 { Some(CarouselPage::First) } else if i > 0 { Some(CarouselPage::Middle) } else { None::<CarouselPage> }),
{
    let target = if i > 0 { Some(i - 1) } else { None };
    let page = if i == 1 {
        Some(CarouselPage::First)
    } else if i > 0 {
        Some(CarouselPage::Middle)
    } else {
        None
    };
    (target, page)
}

/// Going forward from screenshot `i` of `n`: the page to scroll to and the
/// position to show.
pub fn next_screenshot(i: u32, n: u32) -> (r: (Option<u32>, CarouselPage))
    requires
        n >= 2,
    ensures
        r.0 == (if i < n - 1 { Some((i + 1) as u32) } else { None::<u32> }),
        r.1 == (if i == n - 2 { CarouselPage::Last } else if i <= n - 2 { CarouselPage::Middle } else { CarouselPage::Last }),
{
    let target = if i < n - 1 { Some(i + 1) } else { None };
    let page = if i == n - 2 {
        CarouselPage::Last
    } else if i <= n - 2 {
        CarouselPage::Middle
    } else {
        CarouselPage::Last
    };
    (target, page)
}

/// Colons of a `file:line` position turned into `#L` line anchors.
pub open spec fn anchor_lines(s: Seq<char>) -> Seq<char>
    decreases s.len(),
{
    if s.len() == 0 {
        s
    } else {
        anchor_lines(s.drop_last()) + if s.last() == ':' {
            seq!['#', 'L']
        } else {
            seq![s.last()]
        }
    }
}

/// The link to a package's definition in the nixpkgs repository.
pub open spec fn spec_nix_source_link(position: Seq<char>) -> Seq<char> {
    "https://github.com/NixOS/nixpkgs/blob/nixos-unstable/"@ + anchor_lines(position)
}

pub fn nix_source_link(position: &String) -> (r: String)
    ensures
        r@ == spec_nix_source_link(position@),
{
    let v = chars_of(position.as_str());
    let mut out: Vec<char> = Vec::new();
    let mut i: usize = 0;
    while i < v.len()
        invariant
            i <= v.len(),
            out@ == anchor_lines(v@.take(i as int)),
        decreases v.len() - i,
    {
        assert(v@.take(i + 1).drop_last() =~= v@.take(i as int));
        if v[i] == ':' {
            out.push('#');
            out.push('L');
            assert(out@ =~= anchor_lines(v@.take(i as int)) + seq!['#', 'L']);
        } else {
            out.push(v[i]);
            assert(out@ =~= anchor_lines(v@.take(i as int)) + seq![v@[i as int]]);
        }
        i = i + 1;
    }
    assert(v@.take(v.len() as int) =~= v@);
    let mut link = String::from_str("https://github.com/NixOS/nixpkgs/blob/nixos-unstable/");
    let tail = string_from_chars(out.as_slice());
    link.append(tail.as_str());
    link
}


/// `x` is one of the platforms the field names.
pub open spec fn is_platform_candidate(p: Option<Platform>, x: Seq<char>) -> bool {
    match p {
        None => false,
        Some(Platform::Single(s)) => s@ == x,
        Some(Platform::List(v)) => exists|i: int| 0 <= i < v.len() && (#[trigger] v@[i])@ == x,
        Some(Platform::ListList(vv)) => exists|i: int, j: int|
            0 <= i < vv.len() && 0 <= j < vv@[i].len() && (#[trigger] vv@[i]@[j])@ == x,
    }
}

/// Orders two strings as `String` does.
pub fn string_less(a: &String, b: &String) -> (r: bool)
    ensures
        r == char_seq_lt(a@, b@),
{
    let va = chars_of(a.as_str());
    let vb = chars_of(b.as_str());
    char_seq_less(&va, &vb)
}

/// Adds `x` to a strictly sorted list of distinct strings, keeping it sorted.
pub fn insert_sorted(sorted: &mut Vec<String>, x: String)
    requires
        strictly_sorted(strings_view(old(sorted)@)),
    ensures
        strictly_sorted(strings_view(final(sorted)@)),
        forall|y: Seq<char>| strings_view(final(sorted)@).contains(y) <==> (strings_view(old(sorted)@).contains(y) || y == x@),
{
    let ghost old_v = strings_view(sorted@);
    let mut m: usize = 0;
    while m < sorted.len()
        invariant
            m <= sorted.len(),
            old_v == strings_view(sorted@),
            sorted@ == old(sorted)@,
            strictly_sorted(old_v),
            forall|i: int| 0 <= i < m ==> old_v[i] != x@,
        decreases sorted.len() - m,
    {
        if sorted[m] == x {
            assert(old_v[m as int] == x@);
            assert forall|y: Seq<char>| old_v.contains(y) <==> (old_v.contains(y) || y == x@) by {
                if y == x@ {
                    assert(old_v[m as int] == y);
                }
            }
            return;
        }
        m = m + 1;
    }
    let mut k: usize = 0;
    while k < sorted.len() && !string_less(&x, &sorted[k])
        invariant
            k <= sorted.len(),
            old_v == strings_view(sorted@),
            strictly_sorted(old_v),
            forall|i: int| 0 <= i < old_v.len() ==> old_v[i] != x@,
            forall|i: int| 0 <= i < k ==> char_seq_lt(#[trigger] old_v[i], x@),
        decreases sorted.len() - k,
    {
        proof {
            lemma_char_seq_lt_total(old_v[k as int], x@);
        }
        k = k + 1;
    }
    let ghost kk = k as int;
    sorted.insert(k, x);
    let ghost new_v = strings_view(sorted@);
    assert(new_v =~= old_v.insert(kk, x@));
    assert forall|i: int, j: int| 0 <= i < j < new_v.len() implies char_seq_lt(#[trigger] new_v[i], #[trigger] new_v[j]) by {
        if j < kk {
        } else if j == kk {
        } else if i < kk {
            assert(new_v[j] == old_v[j - 1]);
            assert(char_seq_lt(old_v[i], x@));
            assert(char_seq_lt(x@, old_v[kk]));
            if j - 1 > kk {
                lemma_char_seq_lt_trans(x@, old_v[kk], old_v[j - 1]);
            }
            lemma_char_seq_lt_trans(old_v[i], x@, old_v[j - 1]);
        } else if i == kk {
            assert(new_v[j] == old_v[j - 1]);
            if j - 1 > kk {
                lemma_char_seq_lt_trans(x@, old_v[kk], old_v[j - 1]);
            }
        } else {
            assert(new_v[i] == old_v[i - 1] && new_v[j] == old_v[j - 1]);
        }
    }
    assert forall|y: Seq<char>| new_v.contains(y) <==> (old_v.contains(y) || y == x@) by {
        if new_v.contains(y) {
            let i = choose|i: int| 0 <= i < new_v.len() && new_v[i] == y;
            if i < kk {
                assert(old_v[i] == y);
            } else if i > kk {
                assert(old_v[i - 1] == y);
            }
        }
        if old_v.contains(y) {
            let i = choose|i: int| 0 <= i < old_v.len() && old_v[i] == y;
            if i < kk {
                assert(new_v[i] == y);
            } else {
                assert(new_v[i + 1] == y);
            }
        }
        if y == x@ {
            assert(new_v[kk] == y);
        }
    }
}

/// The platforms of a package: the build system first, then the other
/// platforms named in the field, each once, in `String` order.
pub fn collect_platforms(p: &Option<Platform>, system: &String) -> (r: Vec<String>)
    ensures
        r.len() >= 1,
        r@[0]@ == system@,
        strictly_sorted(strings_view(r@).drop_first()),
        forall|x: Seq<char>| #[trigger] strings_view(r@).drop_first().contains(x) <==> (is_platform_candidate(*p, x) && x != system@),
{
    let mut sorted: Vec<String> = Vec::new();
    match p {
        None => {},
        Some(Platform::Single(s)) => {
            if *s != *system {
                insert_sorted(&mut sorted, s.clone());
            }
        },
        Some(Platform::List(v)) => {
            let mut i: usize = 0;
            while i < v.len()
                invariant
                    i <= v.len(),
                    strictly_sorted(strings_view(sorted@)),
                    forall|y: Seq<char>| strings_view(sorted@).contains(y) <==> ((exists|m: int| 0 <= m < i && (#[trigger] v@[m])@ == y) && y != system@),
                decreases v.len() - i,
            {
                let ghost before = strings_view(sorted@);
                if v[i] != *system {
                    insert_sorted(&mut sorted, v[i].clone());
                }
                assert forall|y: Seq<char>| strings_view(sorted@).contains(y) <==> ((exists|m: int| 0 <= m < i + 1 && (#[trigger] v@[m])@ == y) && y != system@) by {
                    if (exists|m: int| 0 <= m < i + 1 && (#[trigger] v@[m])@ == y) && y != system@ {
                        let m = choose|m: int| 0 <= m < i + 1 && (#[trigger] v@[m])@ == y;
                        if m < i {
                            assert(before.contains(y));
                        }
                    }
                }
                i = i + 1;
            }
        },
        Some(Platform::ListList(vv)) => {
            let mut i: usize = 0;
            while i < vv.len()
                invariant
                    i <= vv.len(),
                    strictly_sorted(strings_view(sorted@)),
                    forall|y: Seq<char>| strings_view(sorted@).contains(y) <==> ((exists|a: int, b: int| 0 <= a < i && 0 <= b < vv@[a].len() && (#[trigger] vv@[a]@[b])@ == y) && y != system@),
                decreases vv.len() - i,
            {
                let mut j: usize = 0;
                while j < vv[i].len()
                    invariant
                        i < vv.len(),
                        j <= vv@[i as int].len(),
                        strictly_sorted(strings_view(sorted@)),
                        forall|y: Seq<char>| strings_view(sorted@).contains(y) <==> (((exists|a: int, b: int| 0 <= a < i && 0 <= b < vv@[a].len() && (#[trigger] vv@[a]@[b])@ == y) || (exists|b: int| 0 <= b < j && (#[trigger] vv@[i as int]@[b])@ == y)) && y != system@),
                    decreases vv@[i as int].len() - j,
                {
                    let ghost before = strings_view(sorted@);
                    if vv[i][j] != *system {
                        insert_sorted(&mut sorted, vv[i][j].clone());
                    }
                    assert forall|y: Seq<char>| strings_view(sorted@).contains(y) <==> (((exists|a: int, b: int| 0 <= a < i && 0 <= b < vv@[a].len() && (#[trigger] vv@[a]@[b])@ == y) || (exists|b: int| 0 <= b < j + 1 && (#[trigger] vv@[i as int]@[b])@ == y)) && y != system@) by {
                        if (exists|b: int| 0 <= b < j + 1 && (#[trigger] vv@[i as int]@[b])@ == y) && y != system@ {
                            let b = choose|b: int| 0 <= b < j + 1 && (#[trigger] vv@[i as int]@[b])@ == y;
                            if b < j {
                                assert(before.contains(y));
                            }
                        }
                    }
                    j = j + 1;
                }
                assert forall|y: Seq<char>| strings_view(sorted@).contains(y) <==> ((exists|a: int, b: int| 0 <= a < i + 1 && 0 <= b < vv@[a].len() && (#[trigger] vv@[a]@[b])@ == y) && y != system@) by {
                    if exists|a: int, b: int| 0 <= a < i + 1 && 0 <= b < vv@[a].len() && (#[trigger] vv@[a]@[b])@ == y {
                        let (a, b) = choose|a: int, b: int| 0 <= a < i + 1 && 0 <= b < vv@[a].len() && (#[trigger] vv@[a]@[b])@ == y;
                        if a == i {
                            assert(exists|b: int| 0 <= b < j && (#[trigger] vv@[i as int]@[b])@ == y);
                        }
                    }
                }
                i = i + 1;
            }
        },
    }
    let ghost rest = strings_view(sorted@);
    sorted.insert(0, system.clone());
    assert(strings_view(sorted@).drop_first() =~= rest);
    sorted
}

} // verus!
