//! Installed packages: their rows, how a row is made from the package
//! database and AppStream data, the marks of rows with work running, the
//! rows offered for update, and the installed page.

use vstd::prelude::*;

use crate::license::{clone_opt_string, opt_view};
use crate::package::{InstallType, NotifyPage, PackageAction};
use crate::package_page::{WorkModel, WorkPackage};
use crate::packages::{c_text, c_text_of, AppData, AppStreamIndex};
use crate::search::{lowercase_of, to_lowercase};
use crate::system::SystemPkgs;
use crate::text::{chars_of, chars_view, normalize_summary, spec_normalize_summary, stable_sort_by_text, stable_text_order};

verus! {

/// A row of the installed page.
#[derive(Debug)]
pub struct InstalledItem {
    pub name: String,
    pub pkg: String,
    pub pname: String,
    pub summary: Option<String>,
    pub icon: Option<String>,
    pub pkgtype: InstallType,
    pub busy: bool,
    pub version: String,
}

pub struct InstalledItemView {
    pub name: Seq<char>,
    pub pkg: Seq<char>,
    pub pname: Seq<char>,
    pub summary: Option<Seq<char>>,
    pub icon: Option<Seq<char>>,
    pub pkgtype: InstallType,
    pub busy: bool,
    pub version: Seq<char>,
}

impl View for InstalledItem {
    type V = InstalledItemView;

    open spec fn view(&self) -> InstalledItemView {
        InstalledItemView {
            name: self.name@,
            pkg: self.pkg@,
            pname: self.pname@,
            summary: opt_view(self.summary),
            icon: opt_view(self.icon),
            pkgtype: self.pkgtype,
            busy: self.busy,
            version: self.version@,
        }
    }
}

impl InstalledItem {
    /// A copy with the same fields.
    pub fn duplicate(&self) -> (r: InstalledItem)
        ensures
            r@ == self@,
    {
        InstalledItem {
            name: self.name.clone(),
            pkg: self.pkg.clone(),
            pname: self.pname.clone(),
            summary: clone_opt_string(&self.summary),
            icon: clone_opt_string(&self.icon),
            pkgtype: self.pkgtype,
            busy: self.busy,
            version: self.version.clone(),
        }
    }
}

/// A row as the installed list shows it.
pub struct InstalledItemModel {
    pub item: InstalledItem,
}

/// The row shown for an item: its summary put on one line.
pub open spec fn shown_item(parent: InstalledItemView) -> InstalledItemView {
    InstalledItemView {
        summary: match parent.summary {
            Some(s) => Some(spec_normalize_summary(s)),
            None => None,
        },
        ..parent
    }
}

impl InstalledItemModel {
    /// A row with its summary put on one line.
    pub fn init_model(parent: InstalledItem) -> (r: InstalledItemModel)
        ensures
            r.item@ == shown_item(parent@),
    {
        let summary = normalize_summary(parent.summary);
        InstalledItemModel {
            item: InstalledItem {
                name: parent.name,
                pkg: parent.pkg,
                pname: parent.pname,
                summary,
                icon: parent.icon,
                pkgtype: parent.pkgtype,
                busy: parent.busy,
                version: parent.version,
            },
        }
    }

    /// Marks the row busy or not.
    pub fn set_busy(&mut self, busy: bool)
        ensures
            final(self).item@ == (InstalledItemView { busy, ..old(self).item@ }),
    {
        self.item.busy = busy;
    }
}

/// The views of rows.
pub open spec fn installed_view(v: Seq<InstalledItem>) -> Seq<InstalledItemView> {
    v.map_values(|i: InstalledItem| i@)
}

/// The views of shown rows.
pub open spec fn models_view(v: Seq<InstalledItemModel>) -> Seq<InstalledItemView> {
    v.map_values(|m: InstalledItemModel| m.item@)
}

/// A package marked busy with the way it is installed.
pub open spec fn busy_view(v: Seq<(String, InstallType)>) -> Seq<(Seq<char>, InstallType)> {
    v.map_values(|e: (String, InstallType)| (e.0@, e.1))
}

/// The cached icons of an application can be indexed: when it lists cached
/// icons, it lists at least one.
pub open spec fn icons_indexable(d: AppData) -> bool {
    match d.icon {
        Some(il) => match il.cached {
            Some(v) => v.len() > 0,
            None => true,
        },
        None => true,
    }
}

/// The untranslated name of an application, else `fallback`.
pub open spec fn name_or(d: Option<AppData>, fallback: Seq<char>) -> Seq<char> {
    match d {
        Some(d) => match c_text(d.name) {
            Some(n) => n@,
            None => fallback,
        },
        None => fallback,
    }
}

/// The summary of a row: the untranslated AppStream summary, else the
/// database description when it is not empty.
pub open spec fn row_summary(d: Option<AppData>, description: Seq<char>) -> Option<Seq<char>> {
    let from_db = if description.len() == 0 { None } else { Some(description) };
    match d {
        Some(d) => match c_text(d.summary) {
            Some(s) => Some(s@),
            None => from_db,
        },
        None => from_db,
    }
}

/// The icon of a row: the first cached icon listed.
pub open spec fn row_icon(d: Option<AppData>) -> Option<Seq<char>> {
    match d {
        Some(d) => match d.icon {
            Some(il) => match il.cached {
                Some(v) => Some(v@[0].name@),
                None => None,
            },
            None => None,
        },
        None => None,
    }
}

/// The AppStream data of a package, if any.
pub open spec fn data_of(index: Map<Seq<char>, AppData>, pkg: Seq<char>) -> Option<AppData> {
    if index.contains_key(pkg) { Some(index[pkg]) } else { None }
}

/// The row of an installed package, from its database entry (package name,
/// version, description), its AppStream data and the busy marks.
pub open spec fn spec_installed_item(
    pkg: Seq<char>,
    pname: Seq<char>,
    version: Seq<char>,
    description: Seq<char>,
    index: Map<Seq<char>, AppData>,
    busy: Seq<(Seq<char>, InstallType)>,
    pkgtype: InstallType,
) -> InstalledItemView {
    let d = data_of(index, pkg);
    InstalledItemView {
        name: name_or(d, pname),
        pkg,
        pname,
        summary: row_summary(d, description),
        icon: row_icon(d),
        pkgtype,
        busy: busy.contains((pkg, pkgtype)),
        version,
    }
}

fn busy_contains(busy: &Vec<(String, InstallType)>, pkg: &String, t: InstallType) -> (r: bool)
    ensures
        r == busy_view(busy@).contains((pkg@, t)),
{
    let mut i: usize = 0;
    while i < busy.len()
        invariant
            i <= busy.len(),
            forall|k: int| 0 <= k < i ==> (#[trigger] busy_view(busy@)[k]) != (pkg@, t),
        decreases busy.len() - i,
    {
        assert(busy_view(busy@)[i as int] == (busy@[i as int].0@, busy@[i as int].1));
        if busy[i].0 == *pkg && busy[i].1 == t {
            assert(busy_view(busy@)[i as int] == (pkg@, t));
            return true;
        }
        i = i + 1;
    }
    false
}

/// The first cached icon's name of an application whose cached icons can be
/// indexed.
fn row_icon_of(d: Option<&AppData>) -> (r: Option<String>)
    requires
        d matches Some(a) ==> icons_indexable(*a),
    ensures
        opt_view(r) == row_icon(match d { Some(a) => Some(*a), None => None }),
{
    match d {
        Some(a) => match &a.icon {
            Some(il) => match &il.cached {
                Some(v) => Some(v[0].name.clone()),
                None => None,
            },
            None => None,
        },
        None => None,
    }
}

/// Makes the row of an installed package.
pub fn installed_item(
    pkg: &String,
    pname: &String,
    version: &String,
    description: &String,
    index: &AppStreamIndex,
    busy: &Vec<(String, InstallType)>,
    pkgtype: InstallType,
) -> (r: InstalledItem)
    requires
        index@.contains_key(pkg@) ==> icons_indexable(index@[pkg@]),
    ensures
        r@ == spec_installed_item(pkg@, pname@, version@, description@, index@, busy_view(busy@), pkgtype),
{
    let d = index.get(pkg);
    let from_db = if description.as_str().is_empty() { None } else { Some(description.clone()) };
    let (name, summary) = match d {
        Some(a) => {
            let name = match c_text_of(&a.name) {
                Some(n) => n,
                None => pname.clone(),
            };
            let summary = match c_text_of(&a.summary) {
                Some(s) => Some(s),
                None => from_db,
            };
            (name, summary)
        },
        None => (pname.clone(), from_db),
    };
    InstalledItem {
        name,
        pkg: pkg.clone(),
        pname: pname.clone(),
        summary,
        icon: row_icon_of(d),
        pkgtype,
        busy: busy_contains(busy, pkg, pkgtype),
        version: version.clone(),
    }
}

/// Installed rows sorted stably by their lowercased names.
pub open spec fn sorted_by_lower_name(out: Seq<InstalledItemView>, inp: Seq<InstalledItemView>) -> bool {
    exists|perm: Seq<int>| {
        &&& perm.len() == inp.len()
        &&& out.len() == inp.len()
        &&& stable_text_order(Seq::new(inp.len(), |k: int| lowercase_of(inp[k].name)), perm, inp.len() as int)
        &&& forall|i: int| 0 <= i < out.len() ==> #[trigger] out[i] == inp[perm[i]]
    }
}

/// Sorts installed rows by their lowercased names, keeping the order of
/// equal names.
pub fn sort_by_lower_name(items: Vec<InstalledItem>) -> (r: Vec<InstalledItem>)
    ensures
        sorted_by_lower_name(installed_view(r@), installed_view(items@)),
{
    let ghost iv = installed_view(items@);
    let ghost ks = Seq::new(iv.len(), |k: int| lowercase_of(iv[k].name));
    let mut keys: Vec<Vec<char>> = Vec::new();
    let mut k: usize = 0;
    while k < items.len()
        invariant
            k <= items.len(),
            iv == installed_view(items@),
            ks == Seq::new(iv.len(), |k: int| lowercase_of(iv[k].name)),
            keys.len() == k,
            forall|j: int| 0 <= j < k ==> (#[trigger] keys@[j])@ == ks[j],
        decreases items.len() - k,
    {
        let l = to_lowercase(items[k].name.as_str());
        keys.push(chars_of(l.as_str()));
        k = k + 1;
    }
    let perm = stable_sort_by_text(&keys);
    assert(chars_view(keys@) =~= ks);
    let ghost pv = perm@.map_values(|x: usize| x as int);
    let mut out: Vec<InstalledItem> = Vec::new();
    let mut i: usize = 0;
    while i < perm.len()
        invariant
            i <= perm.len(),
            perm.len() == items.len(),
            iv == installed_view(items@),
            pv == perm@.map_values(|x: usize| x as int),
            stable_text_order(ks, pv, items.len() as int),
            out.len() == i,
            forall|j: int| 0 <= j < i ==> #[trigger] installed_view(out@)[j] == iv[pv[j]],
        decreases perm.len() - i,
    {
        assert(0 <= pv[i as int] < items.len());
        let c = items[perm[i]].duplicate();
        assert(iv[pv[i as int]] == items@[perm@[i as int] as int]@);
        let ghost before = out@;
        out.push(c);
        assert forall|j: int| 0 <= j < i + 1 implies #[trigger] installed_view(out@)[j] == iv[pv[j]] by {
            assert(installed_view(out@)[j] == out@[j]@);
            if j < i {
                assert(out@[j] == before[j]);
                assert(installed_view(before)[j] == before[j]@);
            }
        }
        i = i + 1;
    }
    assert(installed_view(out@).len() == iv.len());
    assert(pv.len() == iv.len());
    assert(forall|j: int| 0 <= j < installed_view(out@).len() ==> #[trigger] installed_view(out@)[j] == iv[pv[j]]);
    out
}

/// The package a busy mark names for a work: its package name for work per
/// user, its attribute for work on the system.
pub open spec fn busy_key(w: WorkModel) -> Seq<char> {
    match w.install_type {
        InstallType::User => w.package_name,
        InstallType::System => w.package,
    }
}

/// The marks kept when work ends: those that differ from the ended work
/// both in package and in install type.
pub open spec fn retain_busy(s: Seq<(Seq<char>, InstallType)>, p: Seq<char>, t: InstallType) -> Seq<(Seq<char>, InstallType)>
    decreases s.len(),
{
    if s.len() == 0 {
        s
    } else {
        let r = retain_busy(s.drop_last(), p, t);
        if s.last().0 != p && s.last().1 != t {
            r.push(s.last())
        } else {
            r
        }
    }
}

/// Marks the package of work sent from the installed page as busy.
pub fn add_installed_busy(busy: &mut Vec<(String, InstallType)>, work: &WorkPackage)
    ensures
        busy_view(final(busy)@) == busy_view(old(busy)@).push((busy_key(work@), work.install_type)),
{
    let p = match work.install_type {
        InstallType::User => work.package_name.clone(),
        InstallType::System => work.package.clone(),
    };
    busy.push((p, work.install_type));
    assert(busy_view(busy@) =~= busy_view(old(busy)@).push((busy_key(work@), work.install_type)));
}

/// Drops the busy marks when work ends.
pub fn remove_installed_busy(busy: &mut Vec<(String, InstallType)>, work: &WorkPackage)
    ensures
        busy_view(final(busy)@) == retain_busy(busy_view(old(busy)@), busy_key(work@), work.install_type),
{
    let p = match work.install_type {
        InstallType::User => work.package_name.clone(),
        InstallType::System => work.package.clone(),
    };
    let t = work.install_type;
    let ghost bv = busy_view(busy@);
    let mut out: Vec<(String, InstallType)> = Vec::new();
    let mut i: usize = 0;
    while i < busy.len()
        invariant
            i <= busy.len(),
            busy@ == old(busy)@,
            bv == busy_view(busy@),
            p@ == busy_key(work@),
            t == work.install_type,
            busy_view(out@) == retain_busy(bv.take(i as int), p@, t),
        decreases busy.len() - i,
    {
        assert(bv.take(i + 1).drop_last() =~= bv.take(i as int));
        assert(bv.take(i + 1).last() == (busy@[i as int].0@, busy@[i as int].1));
        if busy[i].0 != p && busy[i].1 != t {
            let ghost before = busy_view(out@);
            out.push((busy[i].0.clone(), busy[i].1));
            assert(busy_view(out@) =~= before.push((busy@[i as int].0@, busy@[i as int].1)));
        }
        i = i + 1;
    }
    assert(bv.take(busy.len() as int) =~= bv);
    *busy = out;
}

/// Once work ends, no mark names its package with its install type.
pub proof fn law_ended_work_unmarked(s: Seq<(Seq<char>, InstallType)>, p: Seq<char>, t: InstallType)
    ensures
        !retain_busy(s, p, t).contains((p, t)),
    decreases s.len(),
{
    if s.len() > 0 {
        law_ended_work_unmarked(s.drop_last(), p, t);
        let r = retain_busy(s.drop_last(), p, t);
        if s.last().0 != p && s.last().1 != t {
            assert(forall|k: int| 0 <= k < r.len() ==> r.push(s.last())[k] == r[k]);
        }
    }
}

/// The state of the installed page.
pub struct InstalledPageModel {
    pub system_package_type: SystemPkgs,
    pub installeduserlist: Vec<InstalledItemModel>,
    pub installedsystemlist: Vec<InstalledItemModel>,
    pub package_page: Option<String>,
}

/// The messages of the installed page.
pub enum InstalledPageMsg {
    UpdateInstalledPackages { system_packages: Vec<InstalledItem>, user_packages: Vec<InstalledItem> },
    UpdatePkgTypes(SystemPkgs),
    OpenRow(usize, InstallType),
    OpenPackage(String),
    Remove(InstalledItem),
    UnsetBusy(WorkPackage),
}

/// What the installed page asks for.
pub enum InstalledPageEffect {
    /// Open the package page of this package (sent back to the page).
    OpenPackage(String),
    /// Show the package page of this package.
    ShowPackage(String, SystemPkgs),
    /// Queue this work in the window.
    AddInstalledToWorkQueue(WorkPackage),
}

/// The rows shown for items.
pub open spec fn shown_rows(items: Seq<InstalledItemView>) -> Seq<InstalledItemView> {
    Seq::new(items.len(), |k: int| shown_item(items[k]))
}

/// A row belongs to ended work: by package name for work per user, by
/// attribute for work on the system, and with the same install type.
pub open spec fn row_of_work(row: InstalledItemView, w: WorkModel) -> bool {
    &&& row.pkgtype == w.install_type
    &&& match w.install_type {
        InstallType::User => row.pname == w.package_name,
        InstallType::System => row.pkg == w.package,
    }
}

/// The rows after work ends: the rows of the work are no longer busy.
pub open spec fn unset_busy_rows(rows: Seq<InstalledItemView>, w: WorkModel) -> Seq<InstalledItemView> {
    Seq::new(rows.len(), |k: int| if row_of_work(rows[k], w) { InstalledItemView { busy: false, ..rows[k] } } else { rows[k] })
}

/// The work that removes an installed row's package and reports back to the
/// installed page.
pub open spec fn removal_work(item: InstalledItemView) -> WorkModel {
    WorkModel {
        package: item.pkg,
        package_name: item.pname,
        install_type: item.pkgtype,
        action: PackageAction::Remove,
        block: false,
        notify: Some(NotifyPage::Installed),
    }
}

fn shown_models(items: &Vec<InstalledItem>) -> (r: Vec<InstalledItemModel>)
    ensures
        models_view(r@) == shown_rows(installed_view(items@)),
{
    let mut r: Vec<InstalledItemModel> = Vec::new();
    let mut i: usize = 0;
    while i < items.len()
        invariant
            i <= items.len(),
            models_view(r@) == shown_rows(installed_view(items@)).take(i as int),
        decreases items.len() - i,
    {
        let m = InstalledItemModel::init_model(items[i].duplicate());
        let ghost before = models_view(r@);
        r.push(m);
        assert(models_view(r@) =~= before.push(m.item@));
        assert(installed_view(items@)[i as int] == items@[i as int]@);
        assert(models_view(r@) =~= shown_rows(installed_view(items@)).take(i + 1));
        i = i + 1;
    }
    assert(shown_rows(installed_view(items@)).take(items.len() as int) =~= shown_rows(installed_view(items@)));
    r
}

fn unset_busy_in(rows: &mut Vec<InstalledItemModel>, work: &WorkPackage)
    ensures
        models_view(final(rows)@) == unset_busy_rows(models_view(old(rows)@), work@),
{
    let mut i: usize = 0;
    while i < rows.len()
        invariant
            i <= rows.len(),
            rows.len() == old(rows).len(),
            forall|k: int| 0 <= k < i ==> #[trigger] models_view(rows@)[k] == unset_busy_rows(models_view(old(rows)@), work@)[k],
            forall|k: int| i <= k < rows.len() ==> #[trigger] models_view(rows@)[k] == models_view(old(rows)@)[k],
        decreases rows.len() - i,
    {
        assert(models_view(rows@)[i as int] == rows@[i as int].item@);
        let ghost before = rows@;
        let hit = match work.install_type {
            InstallType::User => rows[i].item.pname == work.package_name,
            InstallType::System => rows[i].item.pkg == work.package,
        } && rows[i].item.pkgtype == work.install_type;
        if hit {
            rows[i].item.busy = false;
        }
        assert(rows.len() == before.len());
        assert forall|k: int| 0 <= k < rows.len() && k != i implies #[trigger] models_view(rows@)[k] == models_view(before)[k] by {
            assert(rows@[k] == before[k]);
        }
        assert(models_view(rows@)[i as int] == rows@[i as int].item@);
        assert(models_view(before)[i as int] == before[i as int].item@);
        i = i + 1;
    }
    assert(models_view(rows@) =~= unset_busy_rows(models_view(old(rows)@), work@));
}

impl InstalledPageModel {
    /// A page with no rows.
    pub fn new(system_package_type: SystemPkgs) -> (r: InstalledPageModel)
        ensures
            r.system_package_type == system_package_type,
            r.installeduserlist.len() == 0,
            r.installedsystemlist.len() == 0,
            r.package_page is None,
    {
        InstalledPageModel {
            system_package_type,
            installeduserlist: Vec::new(),
            installedsystemlist: Vec::new(),
            package_page: None,
        }
    }

    /// Handles a message of the installed page.
    pub fn update(&mut self, msg: InstalledPageMsg) -> (r: Option<InstalledPageEffect>)
        ensures
            match msg {
                InstalledPageMsg::UpdateInstalledPackages { system_packages, user_packages } => {
                    &&& models_view(final(self).installeduserlist@) == shown_rows(installed_view(user_packages@))
                    &&& models_view(final(self).installedsystemlist@) == shown_rows(installed_view(system_packages@))
                    &&& final(self).system_package_type == old(self).system_package_type
                    &&& final(self).package_page == old(self).package_page
                    &&& r is None
                },
                InstalledPageMsg::UpdatePkgTypes(t) => {
                    &&& final(self).system_package_type == t
                    &&& models_view(final(self).installeduserlist@) == models_view(old(self).installeduserlist@)
                    &&& models_view(final(self).installedsystemlist@) == models_view(old(self).installedsystemlist@)
                    &&& final(self).package_page == old(self).package_page
                    &&& r is None
                },
                InstalledPageMsg::OpenRow(row, t) => {
                    let list = match t {
                        InstallType::User => models_view(old(self).installeduserlist@),
                        InstallType::System => models_view(old(self).installedsystemlist@),
                    };
                    &&& models_view(final(self).installeduserlist@) == models_view(old(self).installeduserlist@)
                    &&& models_view(final(self).installedsystemlist@) == models_view(old(self).installedsystemlist@)
                    &&& final(self).system_package_type == old(self).system_package_type
                    &&& final(self).package_page == old(self).package_page
                    &&& if row < list.len() {
                        r matches Some(InstalledPageEffect::OpenPackage(p)) && p@ == list[row as int].pkg
                    } else {
                        r is None
                    }
                },
                InstalledPageMsg::OpenPackage(p) => {
                    &&& final(self).package_page == Some(p)
                    &&& models_view(final(self).installeduserlist@) == models_view(old(self).installeduserlist@)
                    &&& models_view(final(self).installedsystemlist@) == models_view(old(self).installedsystemlist@)
                    &&& final(self).system_package_type == old(self).system_package_type
                    &&& r matches Some(InstalledPageEffect::ShowPackage(q, t)) && q == p && t == old(self).system_package_type
                },
                InstalledPageMsg::Remove(item) => {
                    &&& models_view(final(self).installeduserlist@) == models_view(old(self).installeduserlist@)
                    &&& models_view(final(self).installedsystemlist@) == models_view(old(self).installedsystemlist@)
                    &&& final(self).system_package_type == old(self).system_package_type
                    &&& final(self).package_page == old(self).package_page
                    &&& r matches Some(InstalledPageEffect::AddInstalledToWorkQueue(w)) && w@ == removal_work(item@)
                },
                InstalledPageMsg::UnsetBusy(work) => {
                    &&& models_view(final(self).installeduserlist@) == (match work.install_type {
                        InstallType::User => unset_busy_rows(models_view(old(self).installeduserlist@), work@),
                        InstallType::System => models_view(old(self).installeduserlist@),
                    })
                    &&& models_view(final(self).installedsystemlist@) == (match work.install_type {
                        InstallType::System => unset_busy_rows(models_view(old(self).installedsystemlist@), work@),
                        InstallType::User => models_view(old(self).installedsystemlist@),
                    })
                    &&& final(self).system_package_type == old(self).system_package_type
                    &&& final(self).package_page == old(self).package_page
                    &&& r is None
                },
            },
    {
        match msg {
            InstalledPageMsg::UpdateInstalledPackages { system_packages, user_packages } => {
                self.installeduserlist = shown_models(&user_packages);
                self.installedsystemlist = shown_models(&system_packages);
                None
            },
            InstalledPageMsg::UpdatePkgTypes(t) => {
                self.system_package_type = t;
                None
            },
            InstalledPageMsg::OpenRow(row, t) => {
                let list = match t {
                    InstallType::User => &self.installeduserlist,
                    InstallType::System => &self.installedsystemlist,
                };
                if row < list.len() {
                    assert(models_view(list@)[row as int] == list@[row as int].item@);
                    Some(InstalledPageEffect::OpenPackage(list[row].item.pkg.clone()))
                } else {
                    None
                }
            },
            InstalledPageMsg::OpenPackage(p) => {
                let shown = p.clone();
                self.package_page = Some(p);
                Some(InstalledPageEffect::ShowPackage(shown, self.system_package_type))
            },
            InstalledPageMsg::Remove(item) => {
                Some(InstalledPageEffect::AddInstalledToWorkQueue(WorkPackage {
                    package: item.pkg,
                    package_name: item.pname,
                    install_type: item.pkgtype,
                    action: PackageAction::Remove,
                    block: false,
                    notify: Some(NotifyPage::Installed),
                }))
            },
            InstalledPageMsg::UnsetBusy(work) => {
                match work.install_type {
                    InstallType::User => unset_busy_in(&mut self.installeduserlist, &work),
                    InstallType::System => unset_busy_in(&mut self.installedsystemlist, &work),
                }
                None
            },
        }
    }
}

/// What a row tells the installed page.
pub enum InstalledItemMsg {
    /// The row's package is to be removed.
    Delete(InstalledItem),
}

/// What a row is told.
pub enum InstalledItemInputMsg {
    Busy(bool),
}

impl InstalledItemModel {
    /// Handles a message of a row.
    pub fn update(&mut self, msg: InstalledItemInputMsg)
        ensures
            match msg {
                InstalledItemInputMsg::Busy(b) => final(self).item@ == (InstalledItemView { busy: b, ..old(self).item@ }),
            },
    {
        match msg {
            InstalledItemInputMsg::Busy(b) => self.set_busy(b),
        }
    }

    /// Pressing the remove button: the row turns busy and asks for its
    /// package to be removed.
    pub fn delete(&mut self) -> (r: InstalledItemMsg)
        ensures
            final(self).item@ == (InstalledItemView { busy: true, ..old(self).item@ }),
            r matches InstalledItemMsg::Delete(i) && i@ == old(self).item@,
    {
        let item = self.item.duplicate();
        self.set_busy(true);
        InstalledItemMsg::Delete(item)
    }
}

} // verus!
