//! The main window as a state machine: what it holds, how each message
//! changes it, and what it asks the pages and the background to do. What the
//! machine shows (whether it runs NixOS, its version file, the network) comes
//! in the messages.

use vstd::prelude::*;
use vstd::string::StringExecFns;

use crate::browse::PkgCategory;
use crate::license::clone_opt_string;
use crate::installed::{
    add_installed_busy, busy_view, busy_key, icons_indexable, installed_item, installed_view, remove_installed_busy, retain_busy,
    sort_by_lower_name, sorted_by_lower_name, spec_installed_item, InstalledItem, InstalledItemView,
};
use crate::package::InstallType;
use crate::package_page::{str_set, WorkPackage};
use crate::packages::{AppData, AppStreamIndex};
use crate::system::{spec_after_flake, spec_after_sysconfig, spec_system_pkgs, system_pkgs, update_flake, update_sysconfig, NixDataConfig, SystemPkgs};
use crate::update::{
    nixos_update_item, spec_nixos_row, spec_update_row, system_update_item, update_rows_view, user_update_item, UpdateItem, UpdateItemView,
};

verus! {

/// The state of the main window that its decisions depend on.
pub struct AppModel {
    pub config: NixDataConfig,
    pub busy: bool,
    pub appdata: AppStreamIndex,
    /// Packages installed per user, with their versions.
    pub installeduserpkgs: Vec<(String, String)>,
    pub installedsystempkgs: Vec<String>,
    pub syspkgtype: SystemPkgs,
    pub recommended_apps: Vec<String>,
    pub category_apps_recommended: Vec<(PkgCategory, Vec<String>)>,
    pub category_apps_all: Vec<(PkgCategory, Vec<String>)>,
    pub installedpagebusy: Vec<(String, InstallType)>,
    pub online: bool,
    pub updates_count: usize,
}

/// The messages of the main window; what the machine shows comes with them.
pub enum AppMsg {
    UpdateSysconfig { systemconfig: Option<String>, nixos: bool },
    UpdateFlake { flake: Option<String>, flakearg: Option<String>, nixos: bool },
    TryLoad,
    UpdateDB,
    LoadConfig { config: NixDataConfig, nixos: bool, version: Option<String>, root_channel: bool },
    Close,
    LoadError(String, String),
    Initialize(AppStreamIndex, Vec<String>, Vec<(PkgCategory, Vec<String>)>, Vec<(PkgCategory, Vec<String>)>),
    UpdateInstalledPkgs,
    AddInstalledToWorkQueue(WorkPackage),
    RemoveInstalledBusy(WorkPackage),
    LoadRecommended,
    LoadCategory(PkgCategory),
    SetDarkMode(bool),
    CheckNetwork,
    /// Show the preferences, with the configuration read again from its
    /// file where that worked.
    ShowPreferences(Option<NixDataConfig>),
    Noop,
}

/// Answers from the background.
pub enum AppAsyncMsg {
    /// The packages installed on the system and per user (with versions).
    UpdateInstalledPkgs(Vec<String>, Vec<(String, String)>),
    SetNetwork(bool),
}

/// What the main window asks for.
pub enum AppEffect {
    /// Write the configuration to its file.
    SaveConfig(NixDataConfig),
    /// Check the cached package data, then load it.
    CheckCache(SystemPkgs),
    /// Refresh the package database.
    UpdateDB(SystemPkgs),
    /// Quit the application.
    Quit,
    /// Show a loading error.
    ShowLoadError(String, String),
    /// Tell the update page the configuration.
    UpdatePageConfig,
    /// Tell the update and installed pages the package management.
    PkgTypes(SystemPkgs),
    /// Read the installed packages in the background.
    FetchInstalled,
    /// Load the recommended packages' tiles.
    LoadRecommended,
    /// Load a category's tiles.
    LoadCategory(PkgCategory),
    /// Rebuild the installed and update pages.
    UpdateInstalledPage,
    /// Set the colour scheme of the rebuild dialog.
    SetScheme(String),
    /// Check the network in the background; on coming online, refresh the
    /// database.
    CheckNetwork { was_online: bool },
    /// Show the preferences with the configuration.
    ShowPreferences,
    /// Tell the update page whether the network is up.
    UpdateOnline(bool),
    /// Tell the installed page that this work ended, so that its rows are
    /// no longer busy.
    UnsetInstalledBusy(WorkPackage),
}

/// The effects of loading data: the update page learns the configuration,
/// the installed packages are read, and the recommended packages and every
/// category are loaded.
pub open spec fn initialize_effects(r: Seq<AppEffect>) -> bool {
    &&& r.len() == 15
    &&& r[0] is UpdatePageConfig
    &&& r[1] is FetchInstalled
    &&& r[2] is LoadRecommended
    &&& forall|j: int| 3 <= j < 15 ==> loads_category(#[trigger] r[j], category_at(j - 3))
}

/// The effect loads the category.
pub open spec fn loads_category(e: AppEffect, c: PkgCategory) -> bool {
    e matches AppEffect::LoadCategory(d) && d == c
}

/// The categories in the order they are loaded.
pub open spec fn category_at(k: int) -> PkgCategory {
    if k == 0 { PkgCategory::Audio }
    else if k == 1 { PkgCategory::Development }
    else if k == 2 { PkgCategory::Games }
    else if k == 3 { PkgCategory::Graphics }
    else if k == 4 { PkgCategory::Web }
    else if k == 5 { PkgCategory::Video }
    else if k == 6 { PkgCategory::Education }
    else if k == 7 { PkgCategory::Science }
    else if k == 8 { PkgCategory::Office }
    else if k == 9 { PkgCategory::Network }
    else if k == 10 { PkgCategory::System }
    else { PkgCategory::Utility }
}

/// The views of package and version pairs.
pub open spec fn versions_view(v: Seq<(String, String)>) -> Seq<(Seq<char>, Seq<char>)> {
    v.map_values(|e: (String, String)| (e.0@, e.1@))
}

/// Whether the network check should refresh the package database: it came
/// online.
pub fn refresh_after_network_check(was_online: bool, online: bool) -> (r: bool)
    ensures
        r == (online && !was_online),
{
    online && !was_online
}

/// The colour scheme for dark or light mode.
pub fn color_scheme(dark: bool) -> (r: String)
    ensures
        r@ == (if dark { "Adwaita-dark"@ } else { "Adwaita"@ }),
{
    if dark { String::from_str("Adwaita-dark") } else { String::from_str("Adwaita") }
}

/// The system's update rows, with the row for the NixOS system itself first
/// when its flake has a newer revision.
pub fn with_system_update(rows: Vec<UpdateItem>, flake_update: Option<(String, String)>) -> (r: Vec<UpdateItem>)
    ensures
        match flake_update {
            Some((old, new)) => {
                &&& r.len() == rows.len() + 1
                &&& r@[0].name@ == "NixOS System"@
                &&& r@[0].pkg is None
                &&& r@[0].verfrom == Some(old)
                &&& r@[0].verto == Some(new)
                &&& update_rows_view(r@) == seq![spec_nixos_row(old@, new@)] + update_rows_view(rows@)
            },
            None => update_rows_view(r@) == update_rows_view(rows@),
        },
{
    match flake_update {
        Some((old, new)) => {
            let mut rows = rows;
            let ghost before = update_rows_view(rows@);
            let ghost row = spec_nixos_row(old@, new@);
            rows.insert(0, nixos_update_item(old, new));
            assert(update_rows_view(rows@) =~= seq![row] + before);
            rows
        },
        None => rows,
    }
}

/// The number of updates: user rows and system rows together.
pub fn updates_total(user: &Vec<UpdateItem>, system: &Vec<UpdateItem>) -> (r: Option<usize>)
    ensures
        match r {
            Some(n) => n == user.len() + system.len(),
            None => user.len() + system.len() > usize::MAX,
        },
{
    user.len().checked_add(system.len())
}

/// What the package database says of an installed package: its attribute,
/// package name, version and description, and the version to compare with
/// where it could be read (for a package installed per user, its version in
/// the newest package set; for a system package, its version in the
/// running system).
pub struct InstalledRow {
    pub pkg: String,
    pub pname: String,
    pub version: String,
    pub description: String,
    pub other_version: Option<String>,
}

/// The installed and update pages: the installed rows of each kind, sorted
/// by name, the update rows of each kind, and how many updates there are.
pub struct InstalledPageData {
    pub installed_user: Vec<InstalledItem>,
    pub installed_system: Vec<InstalledItem>,
    pub update_user: Vec<UpdateItem>,
    pub update_system: Vec<UpdateItem>,
    pub updates_count: usize,
}

/// The installed row of a database row.
pub open spec fn row_item(r: InstalledRow, index: Map<Seq<char>, AppData>, busy: Seq<(Seq<char>, InstallType)>, t: InstallType) -> InstalledItemView {
    spec_installed_item(r.pkg@, r.pname@, r.version@, r.description@, index, busy, t)
}

/// The installed rows of database rows, in their order.
pub open spec fn row_items(rows: Seq<InstalledRow>, index: Map<Seq<char>, AppData>, busy: Seq<(Seq<char>, InstallType)>, t: InstallType) -> Seq<InstalledItemView> {
    Seq::new(rows.len(), |k: int| row_item(rows[k], index, busy, t))
}

/// The update rows of packages installed per user whose newest version
/// differs, in the order of the rows.
pub open spec fn user_updates(rows: Seq<InstalledRow>, index: Map<Seq<char>, AppData>, busy: Seq<(Seq<char>, InstallType)>) -> Seq<UpdateItemView>
    decreases rows.len(),
{
    if rows.len() == 0 {
        Seq::empty()
    } else {
        let before = user_updates(rows.drop_last(), index, busy);
        let r = rows.last();
        match r.other_version {
            Some(v) => if r.version@ != v@ {
                before.push(spec_update_row(row_item(r, index, busy, InstallType::User), r.version@, v@))
            } else {
                before
            },
            None => before,
        }
    }
}

/// The update rows of system packages whose version in the running system
/// differs, in the order of the rows.
pub open spec fn system_updates(rows: Seq<InstalledRow>, index: Map<Seq<char>, AppData>, busy: Seq<(Seq<char>, InstallType)>) -> Seq<UpdateItemView>
    decreases rows.len(),
{
    if rows.len() == 0 {
        Seq::empty()
    } else {
        let before = system_updates(rows.drop_last(), index, busy);
        let r = rows.last();
        match r.other_version {
            Some(c) => if r.version@ != c@ {
                before.push(spec_update_row(row_item(r, index, busy, InstallType::System), c@, r.version@))
            } else {
                before
            },
            None => before,
        }
    }
}

/// The rows' packages have AppStream icons that can be indexed, where they
/// have AppStream data.
pub open spec fn rows_indexable(rows: Seq<InstalledRow>, index: Map<Seq<char>, AppData>) -> bool {
    forall|k: int| 0 <= k < rows.len() && #[trigger] index.contains_key(rows[k].pkg@) ==> icons_indexable(index[rows[k].pkg@])
}

/// Makes the installed rows of one kind and their update rows.
fn build_rows(rows: &Vec<InstalledRow>, index: &AppStreamIndex, busy: &Vec<(String, InstallType)>, t: InstallType) -> (r: (Vec<InstalledItem>, Vec<UpdateItem>))
    requires
        rows_indexable(rows@, index@),
    ensures
        installed_view(r.0@) == row_items(rows@, index@, busy_view(busy@), t),
        update_rows_view(r.1@) == (match t {
            InstallType::User => user_updates(rows@, index@, busy_view(busy@)),
            InstallType::System => system_updates(rows@, index@, busy_view(busy@)),
        }),
        r.1.len() <= rows.len(),
{
    let ghost bv = busy_view(busy@);
    let mut items: Vec<InstalledItem> = Vec::new();
    let mut updates: Vec<UpdateItem> = Vec::new();
    let mut k: usize = 0;
    while k < rows.len()
        invariant
            k <= rows.len(),
            bv == busy_view(busy@),
            rows_indexable(rows@, index@),
            installed_view(items@) == row_items(rows@.take(k as int), index@, bv, t),
            update_rows_view(updates@) == (match t {
                InstallType::User => user_updates(rows@.take(k as int), index@, bv),
                InstallType::System => system_updates(rows@.take(k as int), index@, bv),
            }),
            updates.len() <= k,
        decreases rows.len() - k,
    {
        let row = &rows[k];
        assert(rows@.take(k + 1).drop_last() =~= rows@.take(k as int));
        assert(rows@.take(k + 1).last() == rows@[k as int]);
        assert(index@.contains_key(rows@[k as int].pkg@) ==> icons_indexable(index@[rows@[k as int].pkg@]));
        let item = installed_item(&row.pkg, &row.pname, &row.version, &row.description, index, busy, t);
        let ghost before = update_rows_view(updates@);
        match &row.other_version {
            Some(v) => {
                let u = match t {
                    InstallType::User => user_update_item(&item, v),
                    InstallType::System => system_update_item(&item, v),
                };
                match u {
                    Some(u) => {
                        updates.push(u);
                        assert(update_rows_view(updates@) =~= before.push(u@));
                    },
                    None => {},
                }
            },
            None => {},
        }
        let ghost ib = installed_view(items@);
        items.push(item);
        assert(installed_view(items@) =~= ib.push(item@));
        assert(installed_view(items@) =~= row_items(rows@.take(k + 1), index@, bv, t));
        k = k + 1;
    }
    assert(rows@.take(rows.len() as int) =~= rows@);
    (items, updates)
}

/// What the window does when it starts.
pub enum StartAction {
    /// Show the welcome page, which asks for the configuration.
    ShowWelcome,
    /// Check the cached package data, then load it.
    CheckCache(SystemPkgs, NixDataConfig),
}

impl AppModel {
    /// The window when it starts: busy, with no package data, no busy marks
    /// and no updates. On NixOS, where the configuration is missing or
    /// names paths that do not exist (`welcome`), it shows the welcome page;
    /// otherwise it checks the cached package data.
    pub fn start(welcome: bool, nixos: bool, syspkgtype: SystemPkgs, config: NixDataConfig, online: bool) -> (r: (AppModel, StartAction))
        ensures
            r.0.config == config,
            r.0.busy,
            r.0.appdata@ == Map::<Seq<char>, AppData>::empty(),
            r.0.installeduserpkgs.len() == 0,
            r.0.installedsystempkgs.len() == 0,
            r.0.syspkgtype == syspkgtype,
            r.0.recommended_apps.len() == 0,
            r.0.category_apps_recommended.len() == 0,
            r.0.category_apps_all.len() == 0,
            r.0.installedpagebusy.len() == 0,
            r.0.online == online,
            r.0.updates_count == 0,
            welcome && nixos ==> r.1 is ShowWelcome,
            !(welcome && nixos) ==> (r.1 matches StartAction::CheckCache(t, c) && t == syspkgtype && c == config),
    {
        let action = if welcome && nixos {
            StartAction::ShowWelcome
        } else {
            StartAction::CheckCache(syspkgtype, config.duplicate())
        };
        let model = AppModel {
            config,
            busy: true,
            appdata: AppStreamIndex::new(),
            installeduserpkgs: Vec::new(),
            installedsystempkgs: Vec::new(),
            syspkgtype,
            recommended_apps: Vec::new(),
            category_apps_recommended: Vec::new(),
            category_apps_all: Vec::new(),
            installedpagebusy: Vec::new(),
            online,
            updates_count: 0,
        };
        (model, action)
    }

    /// The system configuration whose flake packages are read as the
    /// system's installed packages: the configured one, where the system's
    /// packages are managed by a flake; none otherwise, and the system then
    /// counts no installed packages.
    pub fn flake_config_to_read(&self) -> (r: Option<String>)
        ensures
            r == (if self.syspkgtype == SystemPkgs::Flake { self.config.systemconfig } else { None::<String> }),
    {
        match self.syspkgtype {
            SystemPkgs::Flake => clone_opt_string(&self.config.systemconfig),
            SystemPkgs::Unmanaged => None,
        }
    }

    /// Rebuilds the installed and update pages from the database rows of the
    /// packages installed per user and on the system, and, where the system
    /// is managed by a flake, the flake's revisions when a newer one exists.
    /// Installed rows carry their AppStream name, summary and icon and their
    /// busy mark, sorted by lowercased name; update rows keep the order of
    /// the database rows, with the NixOS system's row first. The number of
    /// updates is kept in the window state.
    pub fn update_installed_page(
        &mut self,
        user_rows: &Vec<InstalledRow>,
        system_rows: &Vec<InstalledRow>,
        flake_update: Option<(String, String)>,
    ) -> (r: InstalledPageData)
        requires
            rows_indexable(user_rows@, old(self).appdata@),
            rows_indexable(system_rows@, old(self).appdata@),
            user_rows.len() + system_rows.len() < usize::MAX,
        ensures
            sorted_by_lower_name(
                installed_view(r.installed_user@),
                row_items(user_rows@, old(self).appdata@, busy_view(old(self).installedpagebusy@), InstallType::User),
            ),
            sorted_by_lower_name(
                installed_view(r.installed_system@),
                row_items(system_rows@, old(self).appdata@, busy_view(old(self).installedpagebusy@), InstallType::System),
            ),
            update_rows_view(r.update_user@) == user_updates(user_rows@, old(self).appdata@, busy_view(old(self).installedpagebusy@)),
            update_rows_view(r.update_system@) == (match (old(self).syspkgtype, flake_update) {
                (SystemPkgs::Flake, Some((o, n))) => seq![spec_nixos_row(o@, n@)]
                    + system_updates(system_rows@, old(self).appdata@, busy_view(old(self).installedpagebusy@)),
                _ => system_updates(system_rows@, old(self).appdata@, busy_view(old(self).installedpagebusy@)),
            }),
            r.updates_count == r.update_user.len() + r.update_system.len(),
            *final(self) == (AppModel { updates_count: r.updates_count, ..*old(self) }),
    {
        let (users, update_user) = build_rows(user_rows, &self.appdata, &self.installedpagebusy, InstallType::User);
        let (systems, system_rows_upd) = build_rows(system_rows, &self.appdata, &self.installedpagebusy, InstallType::System);
        let installed_user = sort_by_lower_name(users);
        let update_system = match self.syspkgtype {
            SystemPkgs::Flake => with_system_update(system_rows_upd, flake_update),
            SystemPkgs::Unmanaged => system_rows_upd,
        };
        let installed_system = sort_by_lower_name(systems);
        assert(update_rows_view(update_system@).len() == update_system@.len());
        assert(update_rows_view(system_rows_upd@).len() == system_rows_upd@.len());
        let updates_count = update_user.len() + update_system.len();
        self.updates_count = updates_count;
        InstalledPageData { installed_user, installed_system, update_user, update_system, updates_count }
    }

    /// Handles a message of the main window.
    pub fn update(&mut self, msg: AppMsg) -> (r: Vec<AppEffect>)
        ensures
            match msg {
                AppMsg::UpdateSysconfig { systemconfig, nixos } => {
                    &&& final(self).config.systemconfig == systemconfig
                    &&& final(self).config.flake == old(self).config.flake
                    &&& final(self).config.flakearg == old(self).config.flakearg
                    &&& final(self).config.generations == old(self).config.generations
                    &&& final(self).syspkgtype == spec_after_sysconfig(old(self).syspkgtype, systemconfig is Some, nixos, old(self).config.flake is Some)
                    &&& r@.len() == 3
                    &&& (r@[0] matches AppEffect::SaveConfig(c) && c == final(self).config)
                    &&& r@[1] is UpdatePageConfig
                    &&& (r@[2] matches AppEffect::PkgTypes(t) && t == final(self).syspkgtype)
                },
                AppMsg::UpdateFlake { flake, flakearg, nixos } => {
                    &&& final(self).config.systemconfig == old(self).config.systemconfig
                    &&& final(self).config.flake == flake
                    &&& final(self).config.flakearg == flakearg
                    &&& final(self).config.generations == old(self).config.generations
                    &&& final(self).syspkgtype == spec_after_flake(old(self).syspkgtype, nixos, flake is Some)
                    &&& r@.len() == 3
                    &&& (r@[0] matches AppEffect::SaveConfig(c) && c == final(self).config)
                    &&& r@[1] is UpdatePageConfig
                    &&& (r@[2] matches AppEffect::PkgTypes(t) && t == final(self).syspkgtype)
                },
                AppMsg::TryLoad => final(self).busy && r@.len() == 1 && (r@[0] matches AppEffect::CheckCache(t) && t == old(self).syspkgtype),
                AppMsg::UpdateDB => r@.len() == 1 && (r@[0] matches AppEffect::UpdateDB(t) && t == old(self).syspkgtype),
                AppMsg::LoadConfig { config, nixos, version, root_channel } => {
                    &&& final(self).config == config
                    &&& final(self).syspkgtype == spec_system_pkgs(config.systemconfig is Some, nixos, match version { Some(v) => Some(v@), None => None }, root_channel, config.flake is Some)
                    &&& r@.len() == 4
                    &&& (r@[0] matches AppEffect::SaveConfig(c) && c == config)
                    &&& (r@[1] matches AppEffect::PkgTypes(t) && t == final(self).syspkgtype)
                    &&& r@[2] is UpdatePageConfig
                    &&& (r@[3] matches AppEffect::CheckCache(t) && t == final(self).syspkgtype)
                },
                AppMsg::Close => r@.len() == 1 && r@[0] is Quit,
                AppMsg::LoadError(a, b) => !final(self).busy && r@.len() == 1 && (r@[0] matches AppEffect::ShowLoadError(x, y) && x == a && y == b),
                AppMsg::Initialize(index, rec, cat_rec, cat_all) => {
                    &&& final(self).appdata@ == index@
                    &&& final(self).recommended_apps@ == rec@
                    &&& final(self).category_apps_recommended@ == cat_rec@
                    &&& final(self).category_apps_all@ == cat_all@
                    &&& !final(self).busy
                    &&& initialize_effects(r@)
                },
                AppMsg::UpdateInstalledPkgs => r@.len() == 1 && r@[0] is FetchInstalled,
                AppMsg::AddInstalledToWorkQueue(w) => {
                    &&& busy_view(final(self).installedpagebusy@) == busy_view(old(self).installedpagebusy@).push((busy_key(w@), w.install_type))
                    &&& r@.len() == 0
                },
                AppMsg::RemoveInstalledBusy(w) => {
                    &&& busy_view(final(self).installedpagebusy@) == retain_busy(busy_view(old(self).installedpagebusy@), busy_key(w@), w.install_type)
                    &&& r@.len() == 1 && (r@[0] matches AppEffect::UnsetInstalledBusy(x) && x@ == w@)
                },
                AppMsg::LoadRecommended => r@.len() == 1 && r@[0] is LoadRecommended,
                AppMsg::LoadCategory(c) => r@.len() == 1 && (r@[0] matches AppEffect::LoadCategory(d) && d == c),
                AppMsg::SetDarkMode(dark) => r@.len() == 1 && (r@[0] matches AppEffect::SetScheme(s) && s@ == (if dark { "Adwaita-dark"@ } else { "Adwaita"@ })),
                AppMsg::CheckNetwork => r@.len() == 1 && (r@[0] matches AppEffect::CheckNetwork { was_online } && was_online == old(self).online),
                AppMsg::ShowPreferences(c) => {
                    &&& final(self).config == (match c { Some(c) => c, None => old(self).config })
                    &&& r@.len() == 1 && r@[0] is ShowPreferences
                },
                AppMsg::Noop => r@.len() == 0,
            },
            !(msg is UpdateSysconfig || msg is UpdateFlake || msg is LoadConfig || msg is ShowPreferences) ==> final(self).config == old(self).config,
            !(msg is UpdateSysconfig || msg is UpdateFlake || msg is LoadConfig) ==> final(self).syspkgtype == old(self).syspkgtype,
            !(msg is TryLoad || msg is LoadError || msg is Initialize) ==> final(self).busy == old(self).busy,
            !(msg is AddInstalledToWorkQueue || msg is RemoveInstalledBusy) ==> busy_view(final(self).installedpagebusy@) == busy_view(old(self).installedpagebusy@),
            final(self).online == old(self).online,
            versions_view(final(self).installeduserpkgs@) == versions_view(old(self).installeduserpkgs@),
            final(self).installedsystempkgs@ == old(self).installedsystempkgs@,
            !(msg is Initialize) ==> final(self).appdata@ == old(self).appdata@,
            !(msg is Initialize) ==> final(self).recommended_apps@ == old(self).recommended_apps@,
            !(msg is Initialize) ==> final(self).category_apps_recommended@ == old(self).category_apps_recommended@,
            !(msg is Initialize) ==> final(self).category_apps_all@ == old(self).category_apps_all@,
            final(self).updates_count == old(self).updates_count,
    {
        match msg {
            AppMsg::UpdateSysconfig { systemconfig, nixos } => {
                let t = update_sysconfig(&mut self.config, self.syspkgtype, systemconfig, nixos);
                self.syspkgtype = t;
                vec![AppEffect::SaveConfig(self.config.duplicate()), AppEffect::UpdatePageConfig, AppEffect::PkgTypes(t)]
            },
            AppMsg::UpdateFlake { flake, flakearg, nixos } => {
                let t = update_flake(&mut self.config, self.syspkgtype, flake, flakearg, nixos);
                self.syspkgtype = t;
                vec![AppEffect::SaveConfig(self.config.duplicate()), AppEffect::UpdatePageConfig, AppEffect::PkgTypes(t)]
            },
            AppMsg::TryLoad => {
                self.busy = true;
                vec![AppEffect::CheckCache(self.syspkgtype)]
            },
            AppMsg::UpdateDB => vec![AppEffect::UpdateDB(self.syspkgtype)],
            AppMsg::LoadConfig { config, nixos, version, root_channel } => {
                let t = match &version {
                    Some(v) => system_pkgs(config.systemconfig.is_some(), nixos, Some(v.as_str()), root_channel, config.flake.is_some()),
                    None => system_pkgs(config.systemconfig.is_some(), nixos, None, root_channel, config.flake.is_some()),
                };
                let saved = config.duplicate();
                self.config = config;
                self.syspkgtype = t;
                vec![AppEffect::SaveConfig(saved), AppEffect::PkgTypes(t), AppEffect::UpdatePageConfig, AppEffect::CheckCache(t)]
            },
            AppMsg::Close => vec![AppEffect::Quit],
            AppMsg::LoadError(a, b) => {
                self.busy = false;
                vec![AppEffect::ShowLoadError(a, b)]
            },
            AppMsg::Initialize(index, rec, cat_rec, cat_all) => {
                self.appdata = index;
                self.recommended_apps = rec;
                self.category_apps_recommended = cat_rec;
                self.category_apps_all = cat_all;
                let mut r = vec![AppEffect::UpdatePageConfig, AppEffect::FetchInstalled, AppEffect::LoadRecommended];
                let cats = PkgCategory::all();
                let mut k: usize = 0;
                while k < cats.len()
                    invariant
                        k <= cats.len(),
                        cats@ == seq![
                            PkgCategory::Audio, PkgCategory::Development, PkgCategory::Games, PkgCategory::Graphics,
                            PkgCategory::Web, PkgCategory::Video, PkgCategory::Education, PkgCategory::Science,
                            PkgCategory::Office, PkgCategory::Network, PkgCategory::System, PkgCategory::Utility,
                        ],
                        r@.len() == 3 + k,
                        r@[0] is UpdatePageConfig,
                        r@[1] is FetchInstalled,
                        r@[2] is LoadRecommended,
                        forall|j: int| 3 <= j < 3 + k ==> loads_category(#[trigger] r@[j], category_at(j - 3)),
                    decreases cats.len() - k,
                {
                    r.push(AppEffect::LoadCategory(cats[k]));
                    k = k + 1;
                }
                self.busy = false;
                r
            },
            AppMsg::UpdateInstalledPkgs => vec![AppEffect::FetchInstalled],
            AppMsg::AddInstalledToWorkQueue(w) => {
                add_installed_busy(&mut self.installedpagebusy, &w);
                Vec::new()
            },
            AppMsg::RemoveInstalledBusy(w) => {
                remove_installed_busy(&mut self.installedpagebusy, &w);
                vec![AppEffect::UnsetInstalledBusy(w)]
            },
            AppMsg::LoadRecommended => vec![AppEffect::LoadRecommended],
            AppMsg::LoadCategory(c) => vec![AppEffect::LoadCategory(c)],
            AppMsg::SetDarkMode(dark) => {
                vec![AppEffect::SetScheme(color_scheme(dark))]
            },
            AppMsg::CheckNetwork => vec![AppEffect::CheckNetwork { was_online: self.online }],
            AppMsg::ShowPreferences(c) => {
                match c {
                    Some(c) => {
                        self.config = c;
                    },
                    None => {},
                }
                vec![AppEffect::ShowPreferences]
            },
            AppMsg::Noop => Vec::new(),
        }
    }

    /// Handles an answer from the background.
    pub fn update_cmd(&mut self, msg: AppAsyncMsg) -> (r: Vec<AppEffect>)
        ensures
            final(self).config == old(self).config,
            final(self).syspkgtype == old(self).syspkgtype,
            final(self).busy == old(self).busy,
            final(self).appdata@ == old(self).appdata@,
            final(self).recommended_apps@ == old(self).recommended_apps@,
            final(self).category_apps_recommended@ == old(self).category_apps_recommended@,
            final(self).category_apps_all@ == old(self).category_apps_all@,
            busy_view(final(self).installedpagebusy@) == busy_view(old(self).installedpagebusy@),
            final(self).updates_count == old(self).updates_count,
            match msg {
                AppAsyncMsg::UpdateInstalledPkgs(sys, user) => {
                    &&& str_set(final(self).installedsystempkgs@) == str_set(sys@)
                    &&& versions_view(final(self).installeduserpkgs@) == versions_view(user@)
                    &&& final(self).online == old(self).online
                    &&& r@.len() == 1 && r@[0] is UpdateInstalledPage
                },
                AppAsyncMsg::SetNetwork(online) => {
                    &&& final(self).online == online
                    &&& final(self).installedsystempkgs@ == old(self).installedsystempkgs@
                    &&& versions_view(final(self).installeduserpkgs@) == versions_view(old(self).installeduserpkgs@)
                    &&& r@.len() == 1 && (r@[0] matches AppEffect::UpdateOnline(b) && b == online)
                },
            },
    {
        match msg {
            AppAsyncMsg::UpdateInstalledPkgs(sys, user) => {
                self.installedsystempkgs = sys;
                self.installeduserpkgs = user;
                vec![AppEffect::UpdateInstalledPage]
            },
            AppAsyncMsg::SetNetwork(online) => {
                self.online = online;
                vec![AppEffect::UpdateOnline(online)]
            },
        }
    }
}

/// The installed packages that the pages share.
#[derive(Debug)]
pub struct InstalledPackagesState {
    pub installed_system_packages: Vec<crate::installed::InstalledItem>,
    pub installed_user_packages: Vec<crate::installed::InstalledItem>,
}

impl InstalledPackagesState {
    /// No installed packages known yet.
    pub fn empty() -> (r: InstalledPackagesState)
        ensures
            r.installed_system_packages.len() == 0,
            r.installed_user_packages.len() == 0,
    {
        InstalledPackagesState { installed_system_packages: Vec::new(), installed_user_packages: Vec::new() }
    }
}

/// The installed list of one kind has a row for each database row, of that
/// kind, busy exactly when its package is marked busy with that kind.
pub proof fn law_installed_rows_marked(
    rows: Seq<InstalledRow>,
    index: Map<Seq<char>, AppData>,
    busy: Seq<(Seq<char>, InstallType)>,
    t: InstallType,
    shown: Seq<InstalledItemView>,
)
    requires
        sorted_by_lower_name(shown, row_items(rows, index, busy, t)),
    ensures
        shown.len() == rows.len(),
        forall|i: int| 0 <= i < shown.len() ==> {
            &&& (#[trigger] shown[i]).pkgtype == t
            &&& shown[i].busy == busy.contains((shown[i].pkg, t))
            &&& exists|j: int| 0 <= j < rows.len() && rows[j].pkg@ == shown[i].pkg
        },
{
    let inp = row_items(rows, index, busy, t);
    let perm = choose|perm: Seq<int>| {
        &&& perm.len() == inp.len()
        &&& shown.len() == inp.len()
        &&& crate::text::stable_text_order(Seq::new(inp.len(), |k: int| crate::search::lowercase_of(inp[k].name)), perm, inp.len() as int)
        &&& forall|i: int| 0 <= i < shown.len() ==> #[trigger] shown[i] == inp[perm[i]]
    };
    assert forall|i: int| 0 <= i < shown.len() implies {
        &&& (#[trigger] shown[i]).pkgtype == t
        &&& shown[i].busy == busy.contains((shown[i].pkg, t))
        &&& exists|j: int| 0 <= j < rows.len() && rows[j].pkg@ == shown[i].pkg
    } by {
        let j = perm[i];
        assert(0 <= j < inp.len());
        assert(shown[i] == inp[j]);
        assert(rows[j].pkg@ == shown[i].pkg);
    }
}

} // verus!
