//! AppStream metadata of packages, as read from the distribution's
//! `app-info` YAML collection.

use vstd::prelude::*;
use vstd::string::StrSliceExecFns;

use crate::text::{chars_of, chars_range, has_prefix_at, matches_at, string_from_chars, strings_view};

verus! {

#[derive(PartialEq, Eq, Clone, Debug)]
pub enum StrOrVec {
    Single(String),
    List(Vec<String>),
}

/// The platforms a package builds on, in one of the shapes nixpkgs uses.
#[derive(PartialEq, Eq, Clone, Debug)]
pub enum Platform {
    Single(String),
    List(Vec<String>),
    ListList(Vec<Vec<String>>),
}

/// The license field of a package, in one of the shapes nixpkgs uses.
#[derive(Debug)]
pub enum LicenseEnum {
    Single(License),
    List(Vec<License>),
    SingleStr(String),
    VecStr(Vec<String>),
    Mixed(Vec<LicenseEnum>),
}

#[derive(PartialEq, Eq, Clone, Debug)]
pub struct License {
    pub free: Option<bool>,
    pub fullname: Option<String>,
    pub spdxid: Option<String>,
    pub url: Option<String>,
}

#[derive(PartialEq, Eq, Clone, Debug)]
pub struct PkgMaintainer {
    pub email: Option<String>,
    pub github: Option<String>,
    pub matrix: Option<String>,
    pub name: Option<String>,
}

/// A text in several locales, as (locale, text) pairs with distinct locales.
#[derive(PartialEq, Eq, Debug)]
pub struct LocalizedText {
    entries: Vec<(String, String)>,
}

/// No locale occurs twice.
pub open spec fn distinct_locales(es: Seq<(String, String)>) -> bool {
    forall|i: int, j: int| 0 <= i < j < es.len() ==> (#[trigger] es[i]).0@ != (#[trigger] es[j]).0@
}

/// Some pair is in the locale.
pub open spec fn has_locale(es: Seq<(String, String)>, k: Seq<char>) -> bool {
    exists|j: int| 0 <= j < es.len() && (#[trigger] es[j]).0@ == k
}

/// The pairs whose locale does not come again later, in order: what a map
/// filled from the pairs in turn keeps.
pub open spec fn keep_last(es: Seq<(String, String)>) -> Seq<(String, String)>
    decreases es.len(),
{
    if es.len() == 0 {
        es
    } else {
        let rest = keep_last(es.drop_first());
        if has_locale(es.drop_first(), es[0].0@) {
            rest
        } else {
            seq![es[0]] + rest
        }
    }
}

proof fn lemma_keep_last(es: Seq<(String, String)>)
    ensures
        distinct_locales(keep_last(es)),
        forall|x: (String, String)| #[trigger] keep_last(es).contains(x) ==> es.contains(x),
    decreases es.len(),
{
    if es.len() > 0 {
        let t = es.drop_first();
        lemma_keep_last(t);
        let rest = keep_last(t);
        assert forall|x: (String, String)| #[trigger] keep_last(es).contains(x) implies es.contains(x) by {
            if rest.contains(x) {
                let j = choose|j: int| 0 <= j < t.len() && t[j] == x;
                assert(es[j + 1] == x);
            } else {
                assert(es[0] == x);
            }
        }
        if !has_locale(t, es[0].0@) {
            let out = seq![es[0]] + rest;
            assert forall|i: int, j: int| 0 <= i < j < out.len() implies (#[trigger] out[i]).0@ != (#[trigger] out[j]).0@ by {
                if i == 0 {
                    assert(rest.contains(out[j]));
                    let m = choose|m: int| 0 <= m < t.len() && t[m] == out[j];
                    assert(t[m].0@ == out[j].0@);
                } else {
                    assert(out[i] == rest[i - 1] && out[j] == rest[j - 1]);
                }
            }
        }
    }
}

/// The untranslated locale, `C`.
pub open spec fn is_c_locale(k: Seq<char>) -> bool {
    k == seq!['C']
}

/// The text under locale `C`, if there is one (the first such entry).
pub open spec fn lookup_c(es: Seq<(String, String)>) -> Option<String>
    decreases es.len(),
{
    if es.len() == 0 {
        None
    } else if is_c_locale(es[0].0@) {
        Some(es[0].1)
    } else {
        lookup_c(es.drop_first())
    }
}

/// The `C` text of an optional localised field.
pub open spec fn c_text(t: Option<LocalizedText>) -> Option<String> {
    match t {
        Some(t) => lookup_c(t.pairs()),
        None => None,
    }
}

fn is_c_key(k: &String) -> (b: bool)
    ensures
        b == is_c_locale(k@),
{
    let s = k.as_str();
    if s.unicode_len() == 1 {
        let c = s.get_char(0);
        assert(c == 'C' ==> s@ =~= seq!['C']);
        c == 'C'
    } else {
        false
    }
}

fn has_locale_after(es: &Vec<(String, String)>, i: usize, k: &String) -> (r: bool)
    requires
        i < es.len(),
    ensures
        r == has_locale(es@.subrange(i + 1, es.len() as int), k@),
{
    let ghost t = es@.subrange(i + 1, es.len() as int);
    let mut j: usize = i + 1;
    while j < es.len()
        invariant
            i < j <= es.len(),
            t == es@.subrange(i + 1, es.len() as int),
            forall|m: int| 0 <= m < j - i - 1 ==> (#[trigger] t[m]).0@ != k@,
        decreases es.len() - j,
    {
        if es[j].0 == *k {
            assert(t[j - i - 1] == es@[j as int]);
            return true;
        }
        assert(t[j - i - 1] == es@[j as int]);
        j = j + 1;
    }
    false
}

impl Clone for LocalizedText {
    /// A copy with the same pairs.
    fn clone(&self) -> (r: LocalizedText)
        ensures
            r.pairs() == self.pairs(),
    {
        proof {
            use_type_invariant(self);
        }
        let mut out: Vec<(String, String)> = Vec::new();
        let mut i: usize = 0;
        while i < self.entries.len()
            invariant
                i <= self.entries.len(),
                out@ == self.entries@.take(i as int),
            decreases self.entries.len() - i,
        {
            let p = (self.entries[i].0.clone(), self.entries[i].1.clone());
            out.push(p);
            assert(out@ =~= self.entries@.take(i + 1));
            i = i + 1;
        }
        assert(self.entries@.take(self.entries.len() as int) =~= self.entries@);
        LocalizedText { entries: out }
    }
}

impl LocalizedText {
    #[verifier::type_invariant]
    spec fn locales_distinct(&self) -> bool {
        distinct_locales(self.entries@)
    }

    /// The (locale, text) pairs.
    pub closed spec fn pairs(&self) -> Seq<(String, String)> {
        self.entries@
    }

    /// A text from (locale, text) pairs; where a locale comes more than
    /// once, its last text is kept.
    pub fn from_entries(entries: Vec<(String, String)>) -> (r: LocalizedText)
        ensures
            r.pairs() == keep_last(entries@),
            distinct_locales(r.pairs()),
    {
        let n = entries.len();
        let mut out: Vec<(String, String)> = Vec::new();
        let mut i: usize = 0;
        assert(entries@.subrange(0, n as int) =~= entries@);
        while i < n
            invariant
                i <= n,
                n == entries.len(),
                out@ + keep_last(entries@.subrange(i as int, n as int)) == keep_last(entries@),
            decreases n - i,
        {
            let ghost sub = entries@.subrange(i as int, n as int);
            assert(sub.drop_first() =~= entries@.subrange(i + 1, n as int));
            assert(sub[0] == entries@[i as int]);
            let later = has_locale_after(&entries, i, &entries[i].0);
            if !later {
                let ghost before = out@;
                let p = (entries[i].0.clone(), entries[i].1.clone());
                out.push(p);
                assert(out@ + keep_last(entries@.subrange(i + 1, n as int)) =~= before + keep_last(sub));
            }
            i = i + 1;
        }
        assert(entries@.subrange(n as int, n as int) =~= Seq::<(String, String)>::empty());
        assert(out@ + keep_last(entries@.subrange(n as int, n as int)) =~= out@);
        proof {
            lemma_keep_last(entries@);
        }
        LocalizedText { entries: out }
    }

    /// The (locale, text) pairs, each locale once.
    pub fn entries(&self) -> (r: &Vec<(String, String)>)
        ensures
            r@ == self.pairs(),
            distinct_locales(r@),
    {
        proof {
            use_type_invariant(self);
        }
        &self.entries
    }

    /// The text in the untranslated locale `C`.
    pub fn get_c(&self) -> (r: Option<String>)
        ensures
            r == lookup_c(self.pairs()),
    {
        let mut i: usize = 0;
        assert(self.entries@.subrange(0, self.entries.len() as int) =~= self.entries@);
        while i < self.entries.len()
            invariant
                i <= self.entries.len(),
                lookup_c(self.entries@) == lookup_c(self.entries@.subrange(i as int, self.entries.len() as int)),
            decreases self.entries.len() - i,
        {
            let ghost rest = self.entries@.subrange(i as int, self.entries.len() as int);
            assert(rest.drop_first() =~= self.entries@.subrange(i + 1, self.entries.len() as int));
            assert(rest[0] == self.entries@[i as int]);
            if is_c_key(&self.entries[i].0) {
                return Some(self.entries[i].1.clone());
            }
            i = i + 1;
        }
        None
    }
}

/// The `C` text of an optional localised field.
pub fn c_text_of(t: &Option<LocalizedText>) -> (r: Option<String>)
    ensures
        r == c_text(*t),
{
    match t {
        Some(t) => t.get_c(),
        None => None,
    }
}

#[derive(Debug, PartialEq, Eq, Clone)]
pub struct AppData {
    pub metatype: String,
    pub id: String,
    pub package: String,
    pub name: Option<LocalizedText>,
    pub description: Option<LocalizedText>,
    pub summary: Option<LocalizedText>,
    pub url: Option<AppUrl>,
    pub icon: Option<AppIconList>,
    pub launchable: Option<AppLaunchable>,
    pub provides: Option<AppProvides>,
    pub screenshots: Option<Vec<AppScreenshot>>,
    pub categories: Option<Vec<String>>,
    pub releases: Option<Vec<AppRelease>>,
    pub branding: Option<AppBranding>,
}

#[derive(Debug, Clone, PartialEq, Eq)]
pub struct AppUrl {
    /// Should be a link to the upstream homepage for the component.
    pub homepage: Option<String>,
    /// Should point to the software's bug tracking system, for users to report new bugs.
    pub bugtracker: Option<String>,
    /// Should link a FAQ page for this software.
    pub faq: Option<String>,
    /// Should provide a web link to an online user's reference, a software manual or help page.
    pub help: Option<String>,
    /// Should point to a webpage showing information on how to donate to the software project.
    pub donation: Option<String>,
    /// Should point to a webpage where users can submit or modify translations.
    pub translate: Option<String>,
    /// Should allow the user to contact the developer.
    pub contact: Option<String>,
    /// Should point to a webpage on which the user can browse the source code.
    pub vcs_browser: Option<String>,
    /// Should point to a webpage showing how to contribute to the software project.
    pub contribute: Option<String>,
}

#[derive(Debug, Clone, PartialEq, Eq)]
pub struct AppIconList {
    pub cached: Option<Vec<AppIcon>>,
    pub stock: Option<String>,
}

#[derive(Debug, PartialEq, Eq, Clone)]
pub struct AppIcon {
    pub name: String,
    pub width: u32,
    pub height: u32,
}

#[derive(Debug, Clone, PartialEq, Eq)]
pub struct AppLaunchable {
    pub desktopid: Vec<String>,
}

#[derive(Debug, Clone, PartialEq, Eq)]
pub struct AppProvides {
    pub binaries: Option<Vec<String>>,
    pub ids: Option<Vec<String>>,
    pub mediatypes: Option<Vec<String>>,
    pub libraries: Option<Vec<String>>,
}

#[derive(Debug, Clone, PartialEq, Eq)]
pub struct AppScreenshot {
    pub default: Option<bool>,
    pub thumbnails: Option<Vec<String>>,
    pub sourceimage: Option<AppScreenshotImage>,
}

#[derive(Debug, Clone, PartialEq, Eq)]
pub struct AppScreenshotImage {
    pub url: String,
}

/// A release of an application; dates are Unix timestamps in seconds.
#[derive(Debug, Clone, PartialEq, Eq)]
pub struct AppRelease {
    pub version: Option<String>,
    pub release_type: ReleaseType,
    pub date: Option<i64>,
    pub timestamp: Option<i64>,
    pub description: Option<LocalizedText>,
    pub url: Option<ReleaseUrl>,
}

#[derive(Debug, Clone, Copy, PartialEq, Eq)]
pub enum ReleaseType {
    Stable,
    Development,
    Snapshot,
}

impl ReleaseType {
    /// Releases are stable unless the data says otherwise.
    pub fn default_type() -> (r: ReleaseType)
        ensures
            r == ReleaseType::Stable,
    {
        ReleaseType::Stable
    }
}

#[derive(Debug, Clone, PartialEq, Eq)]
pub struct ReleaseUrl {
    pub details: Option<String>,
}

/// Brand colours of an application.
#[derive(Debug, Clone, PartialEq, Eq)]
pub struct AppBranding {
    pub colors: Vec<BrandingColor>,
}

#[derive(Debug, Clone, PartialEq, Eq)]
pub struct BrandingColor {
    pub scheme_preference: Option<BrandingColorScheme>,
    pub value: String,
}

#[derive(Debug, Clone, Copy, PartialEq, Eq)]
pub enum BrandingColorScheme {
    Light,
    Dark,
}


/// Some application in `es` belongs to package `k`.
pub open spec fn has_package(es: Seq<AppData>, k: Seq<char>) -> bool {
    exists|i: int| 0 <= i < es.len() && #[trigger] es[i].package@ == k
}

/// No two applications belong to the same package.
pub open spec fn distinct_packages(es: Seq<AppData>) -> bool {
    forall|i: int, j: int|
        0 <= i < es.len() && 0 <= j < es.len() && i != j ==> #[trigger] es[i].package@ != #[trigger] es[j].package@
}

/// The applications of `es` by package.
pub open spec fn package_map(es: Seq<AppData>) -> Map<Seq<char>, AppData> {
    Map::new(
        |k: Seq<char>| has_package(es, k),
        |k: Seq<char>| es[choose|i: int| 0 <= i < es.len() && #[trigger] es[i].package@ == k],
    )
}

proof fn lemma_package_map_at(es: Seq<AppData>, i: int)
    requires
        distinct_packages(es),
        0 <= i < es.len(),
    ensures
        package_map(es).contains_key(es[i].package@),
        package_map(es)[es[i].package@] == es[i],
{
    let k = es[i].package@;
    assert(has_package(es, k));
    let j = choose|j: int| 0 <= j < es.len() && #[trigger] es[j].package@ == k;
    assert(j == i);
}

/// The AppStream data of all packages that have some, by package attribute.
pub struct AppStreamIndex {
    entries: Vec<AppData>,
}

impl View for AppStreamIndex {
    type V = Map<Seq<char>, AppData>;

    closed spec fn view(&self) -> Map<Seq<char>, AppData> {
        package_map(self.entries@)
    }
}

impl AppStreamIndex {
    #[verifier::type_invariant]
    spec fn inv(self) -> bool {
        distinct_packages(self.entries@)
    }

    pub fn new() -> (r: AppStreamIndex)
        ensures
            r@ == Map::<Seq<char>, AppData>::empty(),
    {
        let r = AppStreamIndex { entries: Vec::new() };
        assert(r@ =~= Map::<Seq<char>, AppData>::empty());
        r
    }

    fn find(&self, package: &String) -> (r: Option<usize>)
        ensures
            match r {
                Some(i) => i < self.entries.len() && self.entries@[i as int].package@ == package@,
                None => !has_package(self.entries@, package@),
            },
    {
        let mut i: usize = 0;
        while i < self.entries.len()
            invariant
                i <= self.entries.len(),
                forall|j: int| 0 <= j < i ==> self.entries@[j].package@ != package@,
            decreases self.entries.len() - i,
        {
            if self.entries[i].package == *package {
                return Some(i);
            }
            i = i + 1;
        }
        None
    }

    /// The AppStream data of `package`, if it has some.
    pub fn get(&self, package: &String) -> (r: Option<&AppData>)
        ensures
            match r {
                Some(a) => self@.contains_key(package@) && *a == self@[package@],
                None => !self@.contains_key(package@),
            },
    {
        proof {
            use_type_invariant(self);
        }
        match self.find(package) {
            Some(i) => {
                proof {
                    lemma_package_map_at(self.entries@, i as int);
                }
                Some(&self.entries[i])
            },
            None => None,
        }
    }

    pub fn contains_key(&self, package: &String) -> (b: bool)
        ensures
            b == self@.contains_key(package@),
    {
        self.find(package).is_some()
    }

    /// Records `app` under its package, replacing what was there.
    pub fn insert(&mut self, app: AppData)
        ensures
            final(self)@ == old(self)@.insert(app.package@, app),
    {
        proof {
            use_type_invariant(&*self);
        }
        let found = self.find(&app.package);
        let mut es: Vec<AppData> = Vec::new();
        std::mem::swap(&mut es, &mut self.entries);
        let ghost old_es = es@;
        let ghost p = app.package@;
        match found {
            Some(i) => {
                es.set(i, app);
                assert(es@ == old_es.update(i as int, app));
            },
            None => {
                es.push(app);
            },
        }
        let ghost new_es = es@;
        assert(distinct_packages(new_es)) by {
            assert forall|a: int, b: int|
                0 <= a < new_es.len() && 0 <= b < new_es.len() && a != b implies #[trigger] new_es[a].package@ != #[trigger] new_es[b].package@ by {
                if a < old_es.len() && b < old_es.len() {
                    if found is Some {
                        let i = found->0 as int;
                        if a == i {
                            assert(old_es[i].package@ == p);
                        } else if b == i {
                            assert(old_es[i].package@ == p);
                        }
                    }
                } else if a >= old_es.len() {
                    assert(new_es[a] == app);
                    assert(old_es[b] == new_es[b]);
                    assert(!has_package(old_es, p));
                } else {
                    assert(new_es[b] == app);
                    assert(old_es[a] == new_es[a]);
                    assert(!has_package(old_es, p));
                }
            }
        }
        assert(package_map(new_es) =~= package_map(old_es).insert(p, app)) by {
            assert forall|k: Seq<char>| #[trigger] has_package(new_es, k) <==> (has_package(old_es, k) || k == p) by {
                if has_package(new_es, k) {
                    let j = choose|j: int| 0 <= j < new_es.len() && #[trigger] new_es[j].package@ == k;
                    if k != p {
                        assert(old_es[j] == new_es[j]);
                    }
                }
                if has_package(old_es, k) && k != p {
                    let j = choose|j: int| 0 <= j < old_es.len() && #[trigger] old_es[j].package@ == k;
                    assert(new_es[j] == old_es[j]);
                }
                if k == p {
                    match found {
                        Some(i) => {
                            assert(new_es[i as int].package@ == p);
                        },
                        None => {
                            assert(new_es[old_es.len() as int].package@ == p);
                        },
                    }
                }
            }
            assert forall|k: Seq<char>| #[trigger] package_map(new_es).contains_key(k) implies package_map(new_es)[k] == package_map(old_es).insert(p, app)[k] by {
                let j = choose|j: int| 0 <= j < new_es.len() && #[trigger] new_es[j].package@ == k;
                lemma_package_map_at(new_es, j);
                if k == p {
                    match found {
                        Some(i) => {
                            lemma_package_map_at(new_es, i as int);
                        },
                        None => {
                            lemma_package_map_at(new_es, old_es.len() as int);
                        },
                    }
                } else {
                    assert(old_es[j] == new_es[j]);
                    lemma_package_map_at(old_es, j);
                }
            }
        }
        self.entries = es;
    }

    /// All applications, each exactly once.
    pub fn apps(&self) -> (r: &Vec<AppData>)
        ensures
            distinct_packages(r@),
            package_map(r@) == self@,
    {
        proof {
            use_type_invariant(self);
        }
        &self.entries
    }

    /// The index of a list of applications; a later entry for the same
    /// package replaces an earlier one.
    pub fn from_apps(apps: Vec<AppData>) -> (r: AppStreamIndex)
        ensures
            r@ == index_of_list(apps@),
    {
        broadcast use vstd::std_specs::vec::axiom_spec_into_iter;

        let ghost all = apps@;
        let mut r = AppStreamIndex::new();
        for a in it: apps.into_iter()
            invariant
                it.seq() == all,
                r@ == index_of_list(all.take(it.index() as int)),
        {
            assert(all.take(it.index() + 1).drop_last() =~= all.take(it.index() as int));
            r.insert(a);
        }
        assert(all.take(all.len() as int) =~= all);
        r
    }
}

/// Inserting applications one after another, by package.
pub open spec fn index_of_list(apps: Seq<AppData>) -> Map<Seq<char>, AppData>
    decreases apps.len(),
{
    if apps.len() == 0 {
        Map::empty()
    } else {
        index_of_list(apps.drop_last()).insert(apps.last().package@, apps.last())
    }
}

/// Reading a list of applications keeps, for each package, its last entry:
/// an entry that no later entry shares a package with is the index's entry
/// for that package.
pub proof fn law_index_keeps_last(apps: Seq<AppData>, i: int)
    requires
        0 <= i < apps.len(),
        forall|j: int| i < j < apps.len() ==> (#[trigger] apps[j]).package@ != apps[i].package@,
    ensures
        index_of_list(apps).contains_key(apps[i].package@),
        index_of_list(apps)[apps[i].package@] == apps[i],
    decreases apps.len(),
{
    if i < apps.len() - 1 {
        let rest = apps.drop_last();
        assert forall|j: int| i < j < rest.len() implies (#[trigger] rest[j]).package@ != rest[i].package@ by {
            assert(rest[j] == apps[j]);
        }
        law_index_keeps_last(rest, i);
        assert(apps.last().package@ != apps[i].package@);
    }
}

/// The separator between the YAML documents of the AppStream collection.
pub open spec fn document_separator() -> Seq<char> {
    seq!['\n', '-', '-', '-', '\n']
}

/// First position at or after `i` where the separator starts, or -1.
pub open spec fn next_separator(s: Seq<char>, i: int) -> int
    decreases s.len() - i,
{
    if i < 0 || i + 5 > s.len() {
        -1
    } else if has_prefix_at(s, i, document_separator()) {
        i
    } else {
        next_separator(s, i + 1)
    }
}

pub proof fn lemma_next_separator(s: Seq<char>, i: int)
    requires
        0 <= i,
    ensures
        next_separator(s, i) == -1 || (i <= next_separator(s, i) && next_separator(s, i) + 5 <= s.len()),
    decreases s.len() - i,
{
    if i + 5 <= s.len() && !has_prefix_at(s, i, document_separator()) {
        lemma_next_separator(s, i + 1);
    }
}

/// `str::split` on the separator, from position `i` on.
pub open spec fn split_documents_from(s: Seq<char>, i: int) -> Seq<Seq<char>>
    decreases s.len() - i,
{
    if !(0 <= i <= s.len()) {
        Seq::empty()
    } else {
        let k = next_separator(s, i);
        proof {
            lemma_next_separator(s, i);
        }
        if k < 0 {
            seq![s.subrange(i, s.len() as int)]
        } else {
            seq![s.subrange(i, k)] + split_documents_from(s, k + 5)
        }
    }
}

/// The YAML documents of a collection: the pieces between separators,
/// without the header piece before the first one.
pub open spec fn spec_appstream_documents(s: Seq<char>) -> Seq<Seq<char>> {
    split_documents_from(s, 0).drop_first()
}

proof fn lemma_split_nonempty(s: Seq<char>, i: int)
    requires
        0 <= i <= s.len(),
    ensures
        split_documents_from(s, i).len() > 0,
    decreases s.len() - i,
{
}

/// The text that `flate2::bufread::GzDecoder` and `read_to_string` give of
/// gzip-compressed bytes: the decompressed first member, if the bytes are
/// gzip data and it is UTF-8 text.
pub uninterp spec fn gunzip_text(gz: Seq<u8>) -> Option<Seq<char>>;

/// `flate2::bufread::GzDecoder` over the bytes, read to a string: the text,
/// a function of the bytes alone, or nothing where the bytes are no gzip
/// data or the text is no UTF-8.
#[verifier::external_body]
fn gunzip(gz: &[u8]) -> (r: Option<String>)
    ensures
        match r {
            Some(s) => gunzip_text(gz@) == Some(s@),
            None => gunzip_text(gz@) is None,
        },
{
    let mut d = flate2::bufread::GzDecoder::new(gz);
    let mut s = String::new();
    match std::io::Read::read_to_string(&mut d, &mut s) {
        Ok(_) => Some(s),
        Err(_) => None,
    }
}

/// The documents of the compressed AppStream collection: decompressed, then
/// split; nothing where it cannot be decompressed.
pub fn appstream_documents_gz(gz: &[u8]) -> (r: Option<Vec<String>>)
    ensures
        match gunzip_text(gz@) {
            Some(t) => r matches Some(d) && strings_view(d@) == spec_appstream_documents(t),
            None => r is None,
        },
{
    match gunzip(gz) {
        Some(text) => Some(appstream_documents(text.as_str())),
        None => None,
    }
}

/// Splits the decompressed AppStream collection into its documents.
pub fn appstream_documents(text: &str) -> (r: Vec<String>)
    ensures
        strings_view(r@) == spec_appstream_documents(text@),
{
    let v = chars_of(text);
    let sep: Vec<char> = vec!['\n', '-', '-', '-', '\n'];
    assert(sep@ =~= document_separator());
    let mut docs: Vec<String> = Vec::new();
    let mut start: usize = 0;
    let mut i: usize = 0;
    while i < v.len() && v.len() - i >= 5
        invariant
            start <= i,
            i <= v.len(),
            start <= v.len(),
            sep@ == document_separator(),
            next_separator(v@, start as int) == next_separator(v@, i as int),
            split_documents_from(v@, 0) == strings_view(docs@) + split_documents_from(v@, start as int),
        decreases v.len() - i,
    {
        if matches_at(&v, i, &sep) {
            let piece = string_from_chars(chars_range(&v, start, i).as_slice());
            proof {
                lemma_next_separator(v@, i + 5);
                assert(strings_view(docs@.push(piece)) =~= strings_view(docs@).push(piece@));
                assert(split_documents_from(v@, start as int) =~= seq![v@.subrange(start as int, i as int)] + split_documents_from(v@, i + 5));
                assert(strings_view(docs@) + split_documents_from(v@, start as int) =~= strings_view(docs@).push(piece@) + split_documents_from(v@, i + 5));
            }
            docs.push(piece);
            start = i + 5;
            i = i + 5;
        } else {
            i = i + 1;
        }
    }
    let last = string_from_chars(chars_range(&v, start, v.len()).as_slice());
    proof {
        assert(next_separator(v@, i as int) == -1);
        assert(split_documents_from(v@, start as int) =~= seq![v@.subrange(start as int, v.len() as int)]);
        assert(strings_view(docs@.push(last)) =~= strings_view(docs@).push(last@));
    }
    docs.push(last);
    proof {
        lemma_split_nonempty(v@, 0);
    }
    docs.remove(0);
    assert(strings_view(docs@) =~= split_documents_from(v@, 0).drop_first());
    docs
}

} // verus!
