//! Updates: the rows offered for update, the packages that can no longer be
//! had, and the decisions of the update page.

use vstd::prelude::*;
use vstd::string::StringExecFns;

use crate::installed::{data_of, icons_indexable, name_or, row_icon, InstalledItem, InstalledItemView};
use crate::license::{clone_opt_string, opt_view};
use crate::package::InstallType;
use crate::packages::{c_text_of, AppData, AppStreamIndex};
use crate::system::{NixDataConfig, SystemPkgs};
use crate::text::{chars_of, chars_view, stable_sort_by_text, stable_text_order};

verus! {

/// A row of the update page.
#[derive(Debug)]
pub struct UpdateItem {
    pub name: String,
    pub pname: String,
    pub pkg: Option<String>,
    pub summary: Option<String>,
    pub icon: Option<String>,
    pub pkgtype: InstallType,
    pub verfrom: Option<String>,
    pub verto: Option<String>,
}

pub struct UpdateItemView {
    pub name: Seq<char>,
    pub pname: Seq<char>,
    pub pkg: Option<Seq<char>>,
    pub summary: Option<Seq<char>>,
    pub icon: Option<Seq<char>>,
    pub pkgtype: InstallType,
    pub verfrom: Option<Seq<char>>,
    pub verto: Option<Seq<char>>,
}

impl View for UpdateItem {
    type V = UpdateItemView;

    open spec fn view(&self) -> UpdateItemView {
        UpdateItemView {
            name: self.name@,
            pname: self.pname@,
            pkg: opt_view(self.pkg),
            summary: opt_view(self.summary),
            icon: opt_view(self.icon),
            pkgtype: self.pkgtype,
            verfrom: opt_view(self.verfrom),
            verto: opt_view(self.verto),
        }
    }
}

/// The update row of an installed package going from one version to
/// another. Rows are filed as system rows, per-user ones included.
pub open spec fn spec_update_row(item: InstalledItemView, from: Seq<char>, to: Seq<char>) -> UpdateItemView {
    UpdateItemView {
        name: item.name,
        pname: item.pname,
        pkg: Some(item.pkg),
        summary: item.summary,
        icon: item.icon,
        pkgtype: InstallType::System,
        verfrom: Some(from),
        verto: Some(to),
    }
}

fn update_row(item: &InstalledItem, from: &String, to: &String) -> (r: UpdateItem)
    ensures
        r@ == spec_update_row(item@, from@, to@),
{
    UpdateItem {
        name: item.name.clone(),
        pname: item.pname.clone(),
        pkg: Some(item.pkg.clone()),
        summary: clone_opt_string(&item.summary),
        icon: clone_opt_string(&item.icon),
        pkgtype: InstallType::System,
        verfrom: Some(from.clone()),
        verto: Some(to.clone()),
    }
}

/// The update row of a package installed per user when the newest package
/// set has another version.
pub fn user_update_item(item: &InstalledItem, newest: &String) -> (r: Option<UpdateItem>)
    ensures
        match r {
            Some(u) => item.version@ != newest@ && u@ == spec_update_row(item@, item.version@, newest@),
            None => item.version@ == newest@,
        },
{
    if item.version != *newest {
        Some(update_row(item, &item.version, newest))
    } else {
        None
    }
}

/// The update row of a package of the system when the running system has
/// another version than the package set.
pub fn system_update_item(item: &InstalledItem, current: &String) -> (r: Option<UpdateItem>)
    ensures
        match r {
            Some(u) => item.version@ != current@ && u@ == spec_update_row(item@, current@, item.version@),
            None => item.version@ == current@,
        },
{
    if item.version != *current {
        Some(update_row(item, current, &item.version))
    } else {
        None
    }
}

/// The row of the NixOS system itself, going from one flake revision to
/// another.
pub open spec fn spec_nixos_row(from: Seq<char>, to: Seq<char>) -> UpdateItemView {
    UpdateItemView {
        name: "NixOS System"@,
        pname: Seq::empty(),
        pkg: None,
        summary: Some("NixOS internal packages and modules"@),
        icon: None,
        pkgtype: InstallType::System,
        verfrom: Some(from),
        verto: Some(to),
    }
}

/// The row for updating the NixOS system itself from one flake revision to
/// another.
pub fn nixos_update_item(old: String, new: String) -> (r: UpdateItem)
    ensures
        r@ == spec_nixos_row(old@, new@),
        r.name@ == "NixOS System"@,
        r.pname@ == Seq::<char>::empty(),
        r.pkg is None,
        r.summary matches Some(s) && s@ == "NixOS internal packages and modules"@,
        r.icon is None,
        r.pkgtype == InstallType::System,
        r.verfrom == Some(old),
        r.verto == Some(new),
{
    UpdateItem {
        name: String::from_str("NixOS System"),
        pname: String::new(),
        pkg: None,
        summary: Some(String::from_str("NixOS internal packages and modules")),
        icon: None,
        pkgtype: InstallType::System,
        verfrom: Some(old),
        verto: Some(new),
    }
}

/// Which packages an update covers.
#[derive(Debug, Clone, Copy, PartialEq, Eq, Structural)]
pub enum UpdateType {
    System,
    User,
    All,
}

/// A package that is no longer available, with the reason.
#[derive(Debug)]
pub struct UnavailableItemModel {
    pub pkg: String,
    pub name: String,
    pub pname: String,
    pub icon: Option<String>,
    pub message: String,
}

pub struct UnavailableView {
    pub pkg: Seq<char>,
    pub name: Seq<char>,
    pub pname: Seq<char>,
    pub icon: Option<Seq<char>>,
    pub message: Seq<char>,
}

impl View for UnavailableItemModel {
    type V = UnavailableView;

    open spec fn view(&self) -> UnavailableView {
        UnavailableView {
            pkg: self.pkg@,
            name: self.name@,
            pname: self.pname@,
            icon: opt_view(self.icon),
            message: self.message@,
        }
    }
}

/// The row of an unavailable package. The package database is asked for its
/// package name only when it has AppStream data; `pname` is that answer,
/// `None` where the database had none.
pub open spec fn spec_unavailable_item(pkg: Seq<char>, message: Seq<char>, index: Map<Seq<char>, AppData>, pname: Option<Seq<char>>) -> UnavailableView {
    let d = data_of(index, pkg);
    match d {
        Some(_) => match pname {
            Some(p) => UnavailableView { pkg, name: name_or(d, p), pname: p, icon: row_icon(d), message },
            None => UnavailableView { pkg, name: name_or(d, pkg), pname: Seq::empty(), icon: row_icon(d), message },
        },
        None => UnavailableView { pkg, name: pkg, pname: Seq::empty(), icon: None, message },
    }
}

/// Makes the row of an unavailable package.
pub fn unavailable_item(pkg: &String, message: String, index: &AppStreamIndex, pname: Option<String>) -> (r: UnavailableItemModel)
    requires
        index@.contains_key(pkg@) ==> icons_indexable(index@[pkg@]),
    ensures
        r@ == spec_unavailable_item(pkg@, message@, index@, opt_view(pname)),
{
    match index.get(pkg) {
        Some(d) => {
            let icon = match &d.icon {
                Some(il) => match &il.cached {
                    Some(v) => Some(v[0].name.clone()),
                    None => None,
                },
                None => None,
            };
            let fallback = match &pname {
                Some(p) => p.clone(),
                None => pkg.clone(),
            };
            let name = match c_text_of(&d.name) {
                Some(n) => n,
                None => fallback,
            };
            let pname = match pname {
                Some(p) => p,
                None => String::new(),
            };
            UnavailableItemModel { pkg: pkg.clone(), name, pname, icon, message }
        },
        None => UnavailableItemModel { pkg: pkg.clone(), name: pkg.clone(), pname: String::new(), icon: None, message },
    }
}

/// The views of package and reason pairs.
pub open spec fn pairs_view(v: Seq<(String, String)>) -> Seq<(Seq<char>, Seq<char>)> {
    v.map_values(|e: (String, String)| (e.0@, e.1@))
}

/// Sorts unavailable packages with their reasons by package. The packages
/// are the keys of a map, so no two are equal, and the order is that of the
/// pairs.
pub fn sort_unavailable(pairs: &Vec<(String, String)>) -> (r: Vec<(String, String)>)
    requires
        forall|i: int, j: int| 0 <= i < j < pairs.len() ==> (#[trigger] pairs@[i]).0@ != (#[trigger] pairs@[j]).0@,
    ensures
        exists|perm: Seq<int>| {
            &&& perm.len() == pairs.len()
            &&& r.len() == pairs.len()
            &&& stable_text_order(Seq::new(pairs.len() as nat, |k: int| pairs@[k].0@), perm, pairs.len() as int)
            &&& forall|i: int| 0 <= i < r.len() ==> #[trigger] pairs_view(r@)[i] == pairs_view(pairs@)[perm[i]]
        },
{
    let ghost ks = Seq::new(pairs.len() as nat, |k: int| pairs@[k].0@);
    let mut keys: Vec<Vec<char>> = Vec::new();
    let mut k: usize = 0;
    while k < pairs.len()
        invariant
            k <= pairs.len(),
            ks == Seq::new(pairs.len() as nat, |k: int| pairs@[k].0@),
            keys.len() == k,
            forall|j: int| 0 <= j < k ==> (#[trigger] keys@[j])@ == ks[j],
        decreases pairs.len() - k,
    {
        keys.push(chars_of(pairs[k].0.as_str()));
        k = k + 1;
    }
    let perm = stable_sort_by_text(&keys);
    assert(chars_view(keys@) =~= ks);
    let ghost pv = perm@.map_values(|x: usize| x as int);
    let mut out: Vec<(String, String)> = Vec::new();
    let mut i: usize = 0;
    while i < perm.len()
        invariant
            i <= perm.len(),
            perm.len() == pairs.len(),
            pv == perm@.map_values(|x: usize| x as int),
            stable_text_order(ks, pv, pairs.len() as int),
            out.len() == i,
            forall|j: int| 0 <= j < i ==> #[trigger] pairs_view(out@)[j] == pairs_view(pairs@)[pv[j]],
        decreases perm.len() - i,
    {
        assert(0 <= pv[i as int] < pairs.len());
        let j = perm[i];
        let e = (pairs[j].0.clone(), pairs[j].1.clone());
        let ghost before = out@;
        out.push(e);
        assert forall|m: int| 0 <= m < i + 1 implies #[trigger] pairs_view(out@)[m] == pairs_view(pairs@)[pv[m]] by {
            if m < i {
                assert(out@[m] == before[m]);
                assert(pairs_view(before)[m] == (before[m].0@, before[m].1@));
            }
        }
        i = i + 1;
    }
    assert(pairs_view(out@).len() == pairs.len());
    assert(pv.len() == pairs.len());
    assert(stable_text_order(Seq::new(pairs.len() as nat, |k: int| pairs@[k].0@), pv, pairs.len() as int));
    assert(forall|m: int| 0 <= m < out.len() ==> #[trigger] pairs_view(out@)[m] == pairs_view(pairs@)[pv[m]]);
    out
}

/// The state of the update page.
pub struct UpdatePageModel {
    pub updateuserlist: Vec<UpdateItem>,
    pub updatesystemlist: Vec<UpdateItem>,
    pub config: NixDataConfig,
    pub systype: SystemPkgs,
    pub online: bool,
}

/// The messages of the update page; `online` is what a network check found
/// when the message was sent.
pub enum UpdatePageMsg {
    UpdateConfig(NixDataConfig),
    UpdatePkgTypes(SystemPkgs),
    Update(Vec<UpdateItem>, Vec<UpdateItem>),
    OpenRow(usize, InstallType),
    UpdateSystem { online: bool },
    UpdateSystemRm(Vec<String>),
    UpdateAllUser { online: bool },
    UpdateAllUserRm(Vec<String>),
    UpdateUser(String),
    UpdateAll { online: bool },
    UpdateAllRm(Vec<String>, Vec<String>),
    DoneWorking,
    FailedWorking,
    UpdateOnline(bool),
    Noop,
}

/// What the update page asks for.
pub enum UpdatePageEffect {
    /// Hand the new configuration to the update worker.
    WorkerConfig(NixDataConfig),
    /// Hand the new package management to the update worker.
    WorkerPkgTypes(SystemPkgs),
    /// Open the page of a package.
    OpenPkg(String),
    /// Ask the window to check the network.
    CheckNetwork,
    /// Show the rebuild dialog.
    ShowRebuild,
    /// Find the packages that can no longer be had for this update, then
    /// decide with [`after_unavailable_check`].
    CheckUnavailable(UpdateType),
    /// Update the system, removing these packages.
    WorkerSystemRemove(Vec<String>),
    /// Update the user's packages, removing these.
    WorkerUserRemove(Vec<String>),
    /// Update everything, removing these user and system packages.
    WorkerAllRemove(Vec<String>, Vec<String>),
    /// Refresh the icon cache.
    RefreshIcons,
    /// Close the rebuild dialog with success.
    RebuildSuccess,
    /// Close the rebuild dialog with an error.
    RebuildError,
    /// Ask the window to reload the installed packages.
    UpdateInstalledPkgs,
}

/// The views of update rows.
pub open spec fn update_rows_view(v: Seq<UpdateItem>) -> Seq<UpdateItemView> {
    v.map_values(|u: UpdateItem| u@)
}

/// The effects of starting an update of a kind: without network, ask for a
/// check; with it, show the rebuild dialog and look for unavailable packages.
pub open spec fn start_update_effects(online: bool, kind: UpdateType, r: Seq<UpdatePageEffect>) -> bool {
    if !online {
        r.len() == 1 && r[0] is CheckNetwork
    } else {
        r.len() == 2 && r[0] is ShowRebuild && (r[1] matches UpdatePageEffect::CheckUnavailable(k) && k == kind)
    }
}

impl NixDataConfig {
    /// A copy with the same fields.
    pub fn duplicate(&self) -> (r: NixDataConfig)
        ensures
            r == *self,
    {
        NixDataConfig {
            systemconfig: clone_opt_string(&self.systemconfig),
            flake: clone_opt_string(&self.flake),
            flakearg: clone_opt_string(&self.flakearg),
            generations: self.generations,
        }
    }
}

impl UpdatePageModel {
    fn start_update(&mut self, online: bool, kind: UpdateType) -> (r: Vec<UpdatePageEffect>)
        ensures
            start_update_effects(online, kind, r@),
            final(self).online == (old(self).online && online),
            update_rows_view(final(self).updateuserlist@) == update_rows_view(old(self).updateuserlist@),
            update_rows_view(final(self).updatesystemlist@) == update_rows_view(old(self).updatesystemlist@),
            final(self).config == old(self).config,
            final(self).systype == old(self).systype,
    {
        if !online {
            self.online = false;
            vec![UpdatePageEffect::CheckNetwork]
        } else {
            vec![UpdatePageEffect::ShowRebuild, UpdatePageEffect::CheckUnavailable(kind)]
        }
    }

    /// Handles a message of the update page.
    pub fn update(&mut self, msg: UpdatePageMsg) -> (r: Vec<UpdatePageEffect>)
        ensures
            match msg {
                UpdatePageMsg::UpdateConfig(c) => {
                    &&& final(self).config == c
                    &&& r@.len() == 1 && (r@[0] matches UpdatePageEffect::WorkerConfig(w) && w == c)
                },
                UpdatePageMsg::UpdatePkgTypes(t) => {
                    &&& final(self).systype == t
                    &&& r@.len() == 1 && (r@[0] matches UpdatePageEffect::WorkerPkgTypes(w) && w == t)
                },
                UpdatePageMsg::Update(u, s) => {
                    &&& update_rows_view(final(self).updateuserlist@) == update_rows_view(u@)
                    &&& update_rows_view(final(self).updatesystemlist@) == update_rows_view(s@)
                    &&& r@.len() == 0
                },
                UpdatePageMsg::OpenRow(row, t) => {
                    let list = match t {
                        InstallType::User => update_rows_view(old(self).updateuserlist@),
                        InstallType::System => update_rows_view(old(self).updatesystemlist@),
                    };
                    if row < list.len() && list[row as int].pkg is Some {
                        r@.len() == 1 && (r@[0] matches UpdatePageEffect::OpenPkg(p) && Some(p@) == list[row as int].pkg)
                    } else {
                        r@.len() == 0
                    }
                },
                UpdatePageMsg::UpdateSystem { online } => start_update_effects(online, UpdateType::System, r@)
                    && final(self).online == (old(self).online && online),
                UpdatePageMsg::UpdateAllUser { online } => start_update_effects(online, UpdateType::User, r@)
                    && final(self).online == (old(self).online && online),
                UpdatePageMsg::UpdateAll { online } => start_update_effects(online, UpdateType::All, r@)
                    && final(self).online == (old(self).online && online),
                UpdatePageMsg::UpdateSystemRm(v) => r@.len() == 1 && (r@[0] matches UpdatePageEffect::WorkerSystemRemove(w) && w@ == v@),
                UpdatePageMsg::UpdateAllUserRm(v) => r@.len() == 1 && (r@[0] matches UpdatePageEffect::WorkerUserRemove(w) && w@ == v@),
                UpdatePageMsg::UpdateAllRm(u, s) => r@.len() == 1 && (r@[0] matches UpdatePageEffect::WorkerAllRemove(wu, ws) && wu@ == u@ && ws@ == s@),
                UpdatePageMsg::DoneWorking => r@.len() == 3 && r@[0] is RefreshIcons && r@[1] is RebuildSuccess && r@[2] is UpdateInstalledPkgs,
                UpdatePageMsg::FailedWorking => r@.len() == 1 && r@[0] is RebuildError,
                UpdatePageMsg::UpdateOnline(b) => final(self).online == b && r@.len() == 0,
                UpdatePageMsg::UpdateUser(_) => r@.len() == 0,
                UpdatePageMsg::Noop => r@.len() == 0,
            },
            !(msg is UpdateConfig) ==> final(self).config == old(self).config,
            !(msg is UpdatePkgTypes) ==> final(self).systype == old(self).systype,
            !(msg is Update) ==> update_rows_view(final(self).updateuserlist@) == update_rows_view(old(self).updateuserlist@),
            !(msg is Update) ==> update_rows_view(final(self).updatesystemlist@) == update_rows_view(old(self).updatesystemlist@),
            !(msg is UpdateSystem || msg is UpdateAllUser || msg is UpdateAll || msg is UpdateOnline) ==> final(self).online == old(self).online,
    {
        match msg {
            UpdatePageMsg::UpdateConfig(c) => {
                let w = c.duplicate();
                self.config = c;
                vec![UpdatePageEffect::WorkerConfig(w)]
            },
            UpdatePageMsg::UpdatePkgTypes(t) => {
                self.systype = t;
                vec![UpdatePageEffect::WorkerPkgTypes(t)]
            },
            UpdatePageMsg::Update(u, s) => {
                self.updateuserlist = u;
                self.updatesystemlist = s;
                Vec::new()
            },
            UpdatePageMsg::OpenRow(row, t) => {
                let list = match t {
                    InstallType::User => &self.updateuserlist,
                    InstallType::System => &self.updatesystemlist,
                };
                if row < list.len() {
                    assert(update_rows_view(list@)[row as int] == list@[row as int]@);
                    match &list[row].pkg {
                        Some(p) => vec![UpdatePageEffect::OpenPkg(p.clone())],
                        None => Vec::new(),
                    }
                } else {
                    Vec::new()
                }
            },
            UpdatePageMsg::UpdateSystem { online } => self.start_update(online, UpdateType::System),
            UpdatePageMsg::UpdateAllUser { online } => self.start_update(online, UpdateType::User),
            UpdatePageMsg::UpdateAll { online } => self.start_update(online, UpdateType::All),
            UpdatePageMsg::UpdateSystemRm(v) => vec![UpdatePageEffect::WorkerSystemRemove(v)],
            UpdatePageMsg::UpdateAllUserRm(v) => vec![UpdatePageEffect::WorkerUserRemove(v)],
            UpdatePageMsg::UpdateAllRm(u, s) => vec![UpdatePageEffect::WorkerAllRemove(u, s)],
            UpdatePageMsg::DoneWorking => vec![UpdatePageEffect::RefreshIcons, UpdatePageEffect::RebuildSuccess, UpdatePageEffect::UpdateInstalledPkgs],
            UpdatePageMsg::FailedWorking => vec![UpdatePageEffect::RebuildError],
            UpdatePageMsg::UpdateOnline(b) => {
                self.online = b;
                Vec::new()
            },
            UpdatePageMsg::UpdateUser(_) => Vec::new(),
            UpdatePageMsg::Noop => Vec::new(),
        }
    }
}

/// The work of the update worker.
#[derive(Debug, Clone, Copy, PartialEq, Eq, Structural)]
pub enum UpdateJob {
    UpdateSystem,
    UpdateUserPkgs,
    UpdateAll,
}

/// What follows the search for unavailable packages.
pub enum UnavailableOutcome {
    /// Nothing blocks the update: start it.
    Start(UpdateJob),
    /// Ask what to do with these unavailable user and system packages.
    Ask(Vec<(String, String)>, Vec<(String, String)>, UpdateType),
}

/// Decides after the search for unavailable packages. System packages are
/// only searched for under flakes (`system` is empty otherwise); for a
/// system update the user's packages are not searched, nor the system's for
/// a user update.
pub fn after_unavailable_check(kind: UpdateType, user: Vec<(String, String)>, system: Vec<(String, String)>) -> (r: UnavailableOutcome)
    ensures
        match kind {
            UpdateType::System => if system.len() == 0 {
                r matches UnavailableOutcome::Start(j) && j == UpdateJob::UpdateSystem
            } else {
                r matches UnavailableOutcome::Ask(u, s, k) && u.len() == 0 && s@ == system@ && k == UpdateType::System
            },
            UpdateType::User => if user.len() == 0 {
                r matches UnavailableOutcome::Start(j) && j == UpdateJob::UpdateUserPkgs
            } else {
                r matches UnavailableOutcome::Ask(u, s, k) && u@ == user@ && s.len() == 0 && k == UpdateType::User
            },
            UpdateType::All => if system.len() == 0 && user.len() == 0 {
                r matches UnavailableOutcome::Start(j) && j == UpdateJob::UpdateAll
            } else {
                r matches UnavailableOutcome::Ask(u, s, k) && u@ == user@ && s@ == system@ && k == UpdateType::All
            },
        },
{
    match kind {
        UpdateType::System => if system.len() == 0 {
            UnavailableOutcome::Start(UpdateJob::UpdateSystem)
        } else {
            UnavailableOutcome::Ask(Vec::new(), system, UpdateType::System)
        },
        UpdateType::User => if user.len() == 0 {
            UnavailableOutcome::Start(UpdateJob::UpdateUserPkgs)
        } else {
            UnavailableOutcome::Ask(user, Vec::new(), UpdateType::User)
        },
        UpdateType::All => if system.len() == 0 && user.len() == 0 {
            UnavailableOutcome::Start(UpdateJob::UpdateAll)
        } else {
            UnavailableOutcome::Ask(user, system, UpdateType::All)
        },
    }
}

/// What the update page starts from.
#[derive(Debug)]
pub struct UpdatePageInit {
    pub systype: SystemPkgs,
    pub config: NixDataConfig,
    pub online: bool,
}

impl UpdatePageModel {
    /// An update page with no rows.
    pub fn init(init: UpdatePageInit) -> (r: UpdatePageModel)
        ensures
            r.updateuserlist.len() == 0,
            r.updatesystemlist.len() == 0,
            r.config == init.config,
            r.systype == init.systype,
            r.online == init.online,
    {
        UpdatePageModel {
            updateuserlist: Vec::new(),
            updatesystemlist: Vec::new(),
            config: init.config,
            systype: init.systype,
            online: init.online,
        }
    }
}

} // verus!
