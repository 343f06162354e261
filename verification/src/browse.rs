//! Browsing: package tiles of the explore and category pages, how a tile is
//! made, and the decisions of those pages.

use vstd::prelude::*;

use crate::installed::{data_of, name_or, InstalledItem};
use crate::license::{clone_opt_string, opt_view};
use crate::packages::{c_text, c_text_of, AppData, AppStreamIndex};
use crate::package_page::{str_set, str_set_contains};
use crate::search::{first_icon_name, first_icon_name_of, pkgs_of, pkgs_of_items};
use crate::system::SystemPkgs;

verus! {

/// The categories of applications.
#[derive(Debug, Clone, Copy, PartialEq, Eq, Structural)]
pub enum PkgCategory {
    Audio,
    Development,
    Games,
    Graphics,
    Web,
    Video,
    Education,
    Science,
    Office,
    Network,
    System,
    Utility,
}

impl PkgCategory {
    /// The title of the category's page.
    pub fn title(&self) -> (r: &'static str)
        ensures
            r@ == spec_category_title(*self),
    {
        match self {
            PkgCategory::Audio => "Audio",
            PkgCategory::Development => "Development",
            PkgCategory::Games => "Games",
            PkgCategory::Graphics => "Graphics",
            PkgCategory::Web => "Web",
            PkgCategory::Video => "Video",
            PkgCategory::Education => "Education",
            PkgCategory::Science => "Science",
            PkgCategory::Office => "Office",
            PkgCategory::Network => "Network",
            PkgCategory::System => "System",
            PkgCategory::Utility => "Utility",
        }
    }

    /// Every category, in the order the window loads them.
    pub fn all() -> (r: Vec<PkgCategory>)
        ensures
            r@ == seq![
                PkgCategory::Audio, PkgCategory::Development, PkgCategory::Games, PkgCategory::Graphics,
                PkgCategory::Web, PkgCategory::Video, PkgCategory::Education, PkgCategory::Science,
                PkgCategory::Office, PkgCategory::Network, PkgCategory::System, PkgCategory::Utility,
            ],
    {
        let r = vec![
            PkgCategory::Audio, PkgCategory::Development, PkgCategory::Games, PkgCategory::Graphics,
            PkgCategory::Web, PkgCategory::Video, PkgCategory::Education, PkgCategory::Science,
            PkgCategory::Office, PkgCategory::Network, PkgCategory::System, PkgCategory::Utility,
        ];
        assert(r@ =~= seq![
            PkgCategory::Audio, PkgCategory::Development, PkgCategory::Games, PkgCategory::Graphics,
            PkgCategory::Web, PkgCategory::Video, PkgCategory::Education, PkgCategory::Science,
            PkgCategory::Office, PkgCategory::Network, PkgCategory::System, PkgCategory::Utility,
        ]);
        r
    }
}

pub open spec fn spec_category_title(c: PkgCategory) -> Seq<char> {
    match c {
        PkgCategory::Audio => "Audio"@,
        PkgCategory::Development => "Development"@,
        PkgCategory::Games => "Games"@,
        PkgCategory::Graphics => "Graphics"@,
        PkgCategory::Web => "Web"@,
        PkgCategory::Video => "Video"@,
        PkgCategory::Education => "Education"@,
        PkgCategory::Science => "Science"@,
        PkgCategory::Office => "Office"@,
        PkgCategory::Network => "Network"@,
        PkgCategory::System => "System"@,
        PkgCategory::Utility => "Utility"@,
    }
}

/// A tile of a category page.
#[derive(Debug)]
pub struct CategoryTile {
    pub name: String,
    pub package: String,
    pub package_name: String,
    pub summary: String,
    pub icon: Option<String>,
    pub installed_user: bool,
    pub installed_system: bool,
}

pub struct TileView {
    pub name: Seq<char>,
    pub package: Seq<char>,
    pub package_name: Seq<char>,
    pub summary: Seq<char>,
    pub icon: Option<Seq<char>>,
    pub installed_user: bool,
    pub installed_system: bool,
}

impl View for CategoryTile {
    type V = TileView;

    open spec fn view(&self) -> TileView {
        TileView {
            name: self.name@,
            package: self.package@,
            package_name: self.package_name@,
            summary: self.summary@,
            icon: opt_view(self.icon),
            installed_user: self.installed_user,
            installed_system: self.installed_system,
        }
    }
}

/// A package tile of the explore page.
#[derive(Debug)]
pub struct PkgTile {
    pub name: String,
    pub pkg: String,
    pub pname: String,
    pub summary: String,
    pub icon: Option<String>,
    pub installeduser: bool,
    pub installedsystem: bool,
}

impl View for PkgTile {
    type V = TileView;

    open spec fn view(&self) -> TileView {
        TileView {
            name: self.name@,
            package: self.pkg@,
            package_name: self.pname@,
            summary: self.summary@,
            icon: opt_view(self.icon),
            installed_user: self.installeduser,
            installed_system: self.installedsystem,
        }
    }
}

/// The tile of a package. With AppStream data: its untranslated name, else
/// the package name the database gave (empty when it gave none); its first
/// cached icon; its untranslated summary, else nothing. Without: the package
/// name and description from the database.
pub open spec fn spec_category_tile(
    package: Seq<char>,
    index: Map<Seq<char>, AppData>,
    db_pname: Seq<char>,
    db_description: Seq<char>,
    installed_user: bool,
    installed_system: bool,
) -> TileView {
    let d = data_of(index, package);
    match d {
        Some(a) => TileView {
            name: name_or(d, db_pname),
            package,
            package_name: db_pname,
            summary: match c_text(a.summary) {
                Some(s) => s@,
                None => Seq::empty(),
            },
            icon: first_icon_name(a),
            installed_user,
            installed_system,
        },
        None => TileView {
            name: db_pname,
            package,
            package_name: db_pname,
            summary: db_description,
            icon: None,
            installed_user,
            installed_system,
        },
    }
}

/// Makes the tile of a package. The database is asked for the package name
/// (and, without AppStream data, the description); those answers come in
/// `db_pname` and `db_description`.
pub fn category_tile(
    package: String,
    index: &AppStreamIndex,
    db_pname: String,
    db_description: String,
    installed_user: bool,
    installed_system: bool,
) -> (r: CategoryTile)
    ensures
        r@ == spec_category_tile(package@, index@, db_pname@, db_description@, installed_user, installed_system),
{
    match index.get(&package) {
        Some(a) => {
            let name = match c_text_of(&a.name) {
                Some(n) => n,
                None => db_pname.clone(),
            };
            let summary = match c_text_of(&a.summary) {
                Some(s) => s,
                None => String::new(),
            };
            let icon = first_icon_name_of(a);
            CategoryTile { name, package, package_name: db_pname, summary, icon, installed_user, installed_system }
        },
        None => CategoryTile {
            name: db_pname.clone(),
            package,
            package_name: db_pname,
            summary: db_description,
            icon: None,
            installed_user,
            installed_system,
        },
    }
}

/// The explore page's tile for a category tile: the same fields.
pub fn pkg_tile(t: CategoryTile) -> (r: PkgTile)
    ensures
        r@ == t@,
{
    PkgTile {
        name: t.name,
        pkg: t.package,
        pname: t.package_name,
        summary: t.summary,
        icon: t.icon,
        installeduser: t.installed_user,
        installedsystem: t.installed_system,
    }
}

/// Tiles after the installed packages change: the marks follow the new sets.
pub open spec fn remarked_tiles(tiles: Seq<TileView>, system: Set<Seq<char>>, user: Set<Seq<char>>) -> Seq<TileView> {
    Seq::new(tiles.len(), |k: int| TileView {
        installed_system: system.contains(tiles[k].package),
        installed_user: user.contains(tiles[k].package),
        ..tiles[k]
    })
}

pub open spec fn category_tiles_view(v: Seq<CategoryTile>) -> Seq<TileView> {
    v.map_values(|t: CategoryTile| t@)
}

pub open spec fn pkg_tiles_view(v: Seq<PkgTile>) -> Seq<TileView> {
    v.map_values(|t: PkgTile| t@)
}

fn remark_category_tiles(tiles: &mut Vec<CategoryTile>, system: &Vec<String>, user: &Vec<String>)
    ensures
        category_tiles_view(final(tiles)@) == remarked_tiles(category_tiles_view(old(tiles)@), str_set(system@), str_set(user@)),
{
    let ghost old_v = category_tiles_view(tiles@);
    let mut i: usize = 0;
    while i < tiles.len()
        invariant
            i <= tiles.len(),
            old_v.len() == tiles.len(),
            old_v == category_tiles_view(old(tiles)@),
            forall|k: int| 0 <= k < i ==> #[trigger] category_tiles_view(tiles@)[k] == remarked_tiles(old_v, str_set(system@), str_set(user@))[k],
            forall|k: int| i <= k < tiles.len() ==> #[trigger] category_tiles_view(tiles@)[k] == old_v[k],
        decreases tiles.len() - i,
    {
        let ghost before = tiles@;
        assert(category_tiles_view(before)[i as int] == before[i as int]@);
        let s = str_set_contains(system, &tiles[i].package);
        let u = str_set_contains(user, &tiles[i].package);
        tiles[i].installed_system = s;
        tiles[i].installed_user = u;
        assert forall|k: int| 0 <= k < tiles.len() && k != i implies #[trigger] category_tiles_view(tiles@)[k] == category_tiles_view(before)[k] by {
            assert(tiles@[k] == before[k]);
        }
        assert(category_tiles_view(tiles@)[i as int] == tiles@[i as int]@);
        i = i + 1;
    }
    assert(category_tiles_view(tiles@) =~= remarked_tiles(old_v, str_set(system@), str_set(user@)));
}

fn remark_pkg_tiles(tiles: &mut Vec<PkgTile>, system: &Vec<String>, user: &Vec<String>)
    ensures
        pkg_tiles_view(final(tiles)@) == remarked_tiles(pkg_tiles_view(old(tiles)@), str_set(system@), str_set(user@)),
{
    let ghost old_v = pkg_tiles_view(tiles@);
    let mut i: usize = 0;
    while i < tiles.len()
        invariant
            i <= tiles.len(),
            old_v.len() == tiles.len(),
            old_v == pkg_tiles_view(old(tiles)@),
            forall|k: int| 0 <= k < i ==> #[trigger] pkg_tiles_view(tiles@)[k] == remarked_tiles(old_v, str_set(system@), str_set(user@))[k],
            forall|k: int| i <= k < tiles.len() ==> #[trigger] pkg_tiles_view(tiles@)[k] == old_v[k],
        decreases tiles.len() - i,
    {
        let ghost before = tiles@;
        assert(pkg_tiles_view(before)[i as int] == before[i as int]@);
        let s = str_set_contains(system, &tiles[i].pkg);
        let u = str_set_contains(user, &tiles[i].pkg);
        tiles[i].installedsystem = s;
        tiles[i].installeduser = u;
        assert forall|k: int| 0 <= k < tiles.len() && k != i implies #[trigger] pkg_tiles_view(tiles@)[k] == pkg_tiles_view(before)[k] by {
            assert(tiles@[k] == before[k]);
        }
        assert(pkg_tiles_view(tiles@)[i as int] == tiles@[i as int]@);
        i = i + 1;
    }
    assert(pkg_tiles_view(tiles@) =~= remarked_tiles(old_v, str_set(system@), str_set(user@)));
}

/// The tiles of a category handed on in chunks of ten: every chunk holds one
/// to ten tiles, and the chunks together hold the tiles in order.
pub open spec fn chunked(chunks: Seq<Seq<TileView>>, all: Seq<TileView>) -> bool {
    &&& forall|i: int| 0 <= i < chunks.len() ==> 1 <= #[trigger] chunks[i].len() <= 10
    &&& forall|i: int| 0 <= i < chunks.len() - 1 ==> #[trigger] chunks[i].len() == 10
    &&& chunks.flatten() == all
}

fn copy_tile(t: &CategoryTile) -> (r: CategoryTile)
    ensures
        r@ == t@,
{
    CategoryTile {
        name: t.name.clone(),
        package: t.package.clone(),
        package_name: t.package_name.clone(),
        summary: t.summary.clone(),
        icon: clone_opt_string(&t.icon),
        installed_user: t.installed_user,
        installed_system: t.installed_system,
    }
}

/// Splits tiles into chunks of ten (`slice::chunks(10)`).
pub fn chunks_of_ten(all: &Vec<CategoryTile>) -> (r: Vec<Vec<CategoryTile>>)
    ensures
        chunked(r@.map_values(|c: Vec<CategoryTile>| category_tiles_view(c@)), category_tiles_view(all@)),
{
    let ghost av = category_tiles_view(all@);
    let mut chunks: Vec<Vec<CategoryTile>> = Vec::new();
    let mut i: usize = 0;
    assert(chunks@.map_values(|c: Vec<CategoryTile>| category_tiles_view(c@)) =~= Seq::<Seq<TileView>>::empty());
    assert(av.take(0) =~= Seq::<TileView>::empty());
    while i < all.len()
        invariant
            i <= all.len(),
            av == category_tiles_view(all@),
            i < all.len() ==> forall|k: int| 0 <= k < chunks@.len() ==> (#[trigger] chunks@[k]).len() == 10,
            chunked(chunks@.map_values(|c: Vec<CategoryTile>| category_tiles_view(c@)), av.take(i as int)),
        decreases all.len() - i,
    {
        let end: usize = if all.len() - i < 10 { all.len() } else { i + 10 };
        let mut c: Vec<CategoryTile> = Vec::new();
        let mut j: usize = i;
        while j < end
            invariant
                i <= j <= end <= all.len(),
                end - i <= 10,
                av == category_tiles_view(all@),
                category_tiles_view(c@) == av.subrange(i as int, j as int),
            decreases end - j,
        {
            let t = copy_tile(&all[j]);
            let ghost before = category_tiles_view(c@);
            c.push(t);
            assert(category_tiles_view(c@) =~= before.push(t@));
            assert(av.subrange(i as int, j + 1) =~= av.subrange(i as int, j as int).push(av[j as int]));
            j = j + 1;
        }
        let ghost old_cv = chunks@.map_values(|c: Vec<CategoryTile>| category_tiles_view(c@));
        let ghost cv = category_tiles_view(c@);
        chunks.push(c);
        proof {
            let ncv = chunks@.map_values(|c: Vec<CategoryTile>| category_tiles_view(c@));
            assert(ncv =~= old_cv.push(cv));
            assert forall|k: int| 0 <= k < old_cv.len() implies #[trigger] old_cv[k].len() == 10 by {
                assert(old_cv[k] == category_tiles_view(chunks@[k]@));
            }
            old_cv.lemma_flatten_push(cv);
            assert(av.take(end as int) =~= av.take(i as int) + av.subrange(i as int, end as int));
        }
        i = end;
    }
    assert(av.take(all.len() as int) =~= av);
    chunks
}

/// The state of a category page.
pub struct CategoryPageModel {
    pub system_packages_type: SystemPkgs,
    pub category: PkgCategory,
    pub recommended_apps: Vec<CategoryTile>,
    pub all_apps: Vec<CategoryTile>,
    pub package_page: Option<String>,
    pub busy: bool,
}

pub enum CategoryPageMsg {
    OpenPackage(String),
    UpdatePackages(Vec<CategoryTile>, Vec<CategoryTile>),
    UpdateInstalledPackages { system_packages: Vec<InstalledItem>, user_packages: Vec<InstalledItem> },
}

/// A chunk of tiles handed back from the background.
pub enum CategoryPageAsyncMsg {
    ExtendApps(Vec<CategoryTile>),
}

pub enum CategoryPageEffect {
    /// Show the package page of this package.
    ShowPackage(String, SystemPkgs),
    /// Hand these chunks back one by one, pausing between them.
    StreamApps(Vec<Vec<CategoryTile>>),
}

impl CategoryPageModel {
    /// A category page without tiles.
    pub fn new(category: PkgCategory, system_packages_type: SystemPkgs) -> (r: CategoryPageModel)
        ensures
            r.category == category,
            r.system_packages_type == system_packages_type,
            r.recommended_apps.len() == 0,
            r.all_apps.len() == 0,
            r.package_page is None,
            !r.busy,
    {
        CategoryPageModel {
            system_packages_type,
            category,
            recommended_apps: Vec::new(),
            all_apps: Vec::new(),
            package_page: None,
            busy: false,
        }
    }

    /// Handles a message of a category page. New tiles replace the
    /// recommended ones at once; all tiles are emptied and come back in
    /// chunks of ten.
    pub fn update(&mut self, msg: CategoryPageMsg) -> (r: Option<CategoryPageEffect>)
        ensures
            final(self).category == old(self).category,
            final(self).system_packages_type == old(self).system_packages_type,
            final(self).busy == old(self).busy,
            match msg {
                CategoryPageMsg::OpenPackage(p) => {
                    &&& final(self).package_page == Some(p)
                    &&& category_tiles_view(final(self).recommended_apps@) == category_tiles_view(old(self).recommended_apps@)
                    &&& category_tiles_view(final(self).all_apps@) == category_tiles_view(old(self).all_apps@)
                    &&& r matches Some(CategoryPageEffect::ShowPackage(q, t)) && q == p && t == old(self).system_packages_type
                },
                CategoryPageMsg::UpdatePackages(rec, all) => {
                    &&& category_tiles_view(final(self).recommended_apps@) == category_tiles_view(rec@)
                    &&& final(self).all_apps.len() == 0
                    &&& final(self).package_page == old(self).package_page
                    &&& r matches Some(CategoryPageEffect::StreamApps(chunks))
                    &&& chunked(chunks@.map_values(|c: Vec<CategoryTile>| category_tiles_view(c@)), category_tiles_view(all@))
                },
                CategoryPageMsg::UpdateInstalledPackages { system_packages, user_packages } => {
                    let sys = pkgs_of(system_packages@).to_set();
                    let usr = pkgs_of(user_packages@).to_set();
                    &&& category_tiles_view(final(self).recommended_apps@) == remarked_tiles(category_tiles_view(old(self).recommended_apps@), sys, usr)
                    &&& category_tiles_view(final(self).all_apps@) == remarked_tiles(category_tiles_view(old(self).all_apps@), sys, usr)
                    &&& final(self).package_page == old(self).package_page
                    &&& r is None
                },
            },
    {
        match msg {
            CategoryPageMsg::OpenPackage(p) => {
                let shown = p.clone();
                self.package_page = Some(p);
                Some(CategoryPageEffect::ShowPackage(shown, self.system_packages_type))
            },
            CategoryPageMsg::UpdatePackages(rec, all) => {
                self.recommended_apps = rec;
                self.all_apps = Vec::new();
                Some(CategoryPageEffect::StreamApps(chunks_of_ten(&all)))
            },
            CategoryPageMsg::UpdateInstalledPackages { system_packages, user_packages } => {
                let sys = pkgs_of_items(&system_packages);
                let usr = pkgs_of_items(&user_packages);
                remark_category_tiles(&mut self.recommended_apps, &sys, &usr);
                remark_category_tiles(&mut self.all_apps, &sys, &usr);
                None
            },
        }
    }

    /// Appends a chunk of tiles handed back from the background.
    pub fn update_cmd(&mut self, msg: CategoryPageAsyncMsg)
        ensures
            final(self).category == old(self).category,
            final(self).system_packages_type == old(self).system_packages_type,
            final(self).busy == old(self).busy,
            final(self).package_page == old(self).package_page,
            category_tiles_view(final(self).recommended_apps@) == category_tiles_view(old(self).recommended_apps@),
            match msg {
                CategoryPageAsyncMsg::ExtendApps(tiles) => category_tiles_view(final(self).all_apps@) == category_tiles_view(old(self).all_apps@) + category_tiles_view(tiles@),
            },
    {
        match msg {
            CategoryPageAsyncMsg::ExtendApps(tiles) => {
                let mut tiles = tiles;
                let ghost a = category_tiles_view(self.all_apps@);
                let ghost b = category_tiles_view(tiles@);
                self.all_apps.append(&mut tiles);
                assert(category_tiles_view(self.all_apps@) =~= a + b);
            },
        }
    }
}

/// The state of the explore page.
pub struct ExplorePageModel {
    pub system_pkg_type: SystemPkgs,
    pub recommended_apps: Vec<PkgTile>,
    pub package_page: Option<String>,
}

pub enum ExplorePageMsg {
    OpenPackage(String),
    UpdateInstalledPackages { system_packages: Vec<InstalledItem>, user_packages: Vec<InstalledItem> },
    UpdateRecommendedPackages(Vec<PkgTile>),
}

pub enum ExplorePageEffect {
    /// Show the package page of this package.
    ShowPackage(String, SystemPkgs),
}

impl ExplorePageModel {
    /// An explore page without tiles.
    pub fn new(system_pkg_type: SystemPkgs) -> (r: ExplorePageModel)
        ensures
            r.system_pkg_type == system_pkg_type,
            r.recommended_apps.len() == 0,
            r.package_page is None,
    {
        ExplorePageModel { system_pkg_type, recommended_apps: Vec::new(), package_page: None }
    }

    /// Handles a message of the explore page.
    pub fn update(&mut self, msg: ExplorePageMsg) -> (r: Option<ExplorePageEffect>)
        ensures
            final(self).system_pkg_type == old(self).system_pkg_type,
            match msg {
                ExplorePageMsg::OpenPackage(p) => {
                    &&& final(self).package_page == Some(p)
                    &&& pkg_tiles_view(final(self).recommended_apps@) == pkg_tiles_view(old(self).recommended_apps@)
                    &&& r matches Some(ExplorePageEffect::ShowPackage(q, t)) && q == p && t == old(self).system_pkg_type
                },
                ExplorePageMsg::UpdateInstalledPackages { system_packages, user_packages } => {
                    &&& pkg_tiles_view(final(self).recommended_apps@) == remarked_tiles(
                        pkg_tiles_view(old(self).recommended_apps@),
                        pkgs_of(system_packages@).to_set(),
                        pkgs_of(user_packages@).to_set(),
                    )
                    &&& final(self).package_page == old(self).package_page
                    &&& r is None
                },
                ExplorePageMsg::UpdateRecommendedPackages(tiles) => {
                    &&& pkg_tiles_view(final(self).recommended_apps@) == pkg_tiles_view(tiles@)
                    &&& final(self).package_page == old(self).package_page
                    &&& r is None
                },
            },
    {
        match msg {
            ExplorePageMsg::OpenPackage(p) => {
                let shown = p.clone();
                self.package_page = Some(p);
                Some(ExplorePageEffect::ShowPackage(shown, self.system_pkg_type))
            },
            ExplorePageMsg::UpdateInstalledPackages { system_packages, user_packages } => {
                let sys = pkgs_of_items(&system_packages);
                let usr = pkgs_of_items(&user_packages);
                remark_pkg_tiles(&mut self.recommended_apps, &sys, &usr);
                None
            },
            ExplorePageMsg::UpdateRecommendedPackages(tiles) => {
                self.recommended_apps = tiles;
                None
            },
        }
    }
}

/// What a category page starts from.
#[derive(Debug)]
pub struct CategoryPageInit {
    pub category: PkgCategory,
    pub system_packages_type: SystemPkgs,
}

impl CategoryPageModel {
    /// The page of a category, without tiles.
    pub fn init(init: CategoryPageInit) -> (r: CategoryPageModel)
        ensures
            r.category == init.category,
            r.system_packages_type == init.system_packages_type,
            r.recommended_apps.len() == 0,
            r.all_apps.len() == 0,
            r.package_page is None,
            !r.busy,
    {
        CategoryPageModel::new(init.category, init.system_packages_type)
    }
}

} // verus!
