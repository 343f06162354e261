//! The package page as a state machine: what it holds, how each message
//! changes it, and what it asks the application to do.

use vstd::prelude::*;
use vstd::string::StringExecFns;

use crate::details::{launchable_of, screenshot_order, screenshot_urls, spec_launchable};
use crate::screenshots::{PackageAsyncMessage, ScreenshotSlot};
use crate::text::strings_view;
use crate::installed::InstalledItem;
use crate::search::{pkgs_of, pkgs_of_items};
use crate::package::{CarouselPage, InstallType, Launch, NotifyPage, PackageAction};
use crate::packages::AppData;
use crate::system::{NixDataConfig, SystemPkgs};

verus! {

/// A unit of install or remove work.
#[derive(Debug)]
pub struct WorkPackage {
    pub package: String,
    pub package_name: String,
    pub install_type: InstallType,
    pub action: PackageAction,
    pub block: bool,
    pub notify: Option<NotifyPage>,
}

#[verifier::ext_equal]
pub struct WorkModel {
    pub package: Seq<char>,
    pub package_name: Seq<char>,
    pub install_type: InstallType,
    pub action: PackageAction,
    pub block: bool,
    pub notify: Option<NotifyPage>,
}

impl View for WorkPackage {
    type V = WorkModel;

    open spec fn view(&self) -> WorkModel {
        WorkModel {
            package: self.package@,
            package_name: self.package_name@,
            install_type: self.install_type,
            action: self.action,
            block: self.block,
            notify: self.notify,
        }
    }
}

impl WorkPackage {
    /// A copy with the same fields.
    pub fn duplicate(&self) -> (r: WorkPackage)
        ensures
            r@ == self@,
    {
        WorkPackage {
            package: self.package.clone(),
            package_name: self.package_name.clone(),
            install_type: self.install_type,
            action: self.action,
            block: self.block,
            notify: self.notify,
        }
    }

    /// Equality of all fields (the `Eq` of the work queue).
    pub fn same(&self, other: &WorkPackage) -> (r: bool)
        ensures
            r == (self@ == other@),
    {
        let n = match (self.notify, other.notify) {
            (Some(NotifyPage::Installed), Some(NotifyPage::Installed)) => true,
            (None, None) => true,
            _ => false,
        };
        let r = self.package == other.package && self.package_name == other.package_name
            && self.install_type == other.install_type && self.action == other.action
            && self.block == other.block && n;
        proof {
            if r {
                assert(self.notify == other.notify);
                assert(self@ =~= other@);
            }
        }
        r
    }
}

pub enum LaunchModel {
    GtkApp(Seq<char>),
    TerminalApp(Seq<char>),
}

pub open spec fn launch_view(l: Option<Launch>) -> Option<LaunchModel> {
    match l {
        Some(Launch::GtkApp(x)) => Some(LaunchModel::GtkApp(x@)),
        Some(Launch::TerminalApp(x)) => Some(LaunchModel::TerminalApp(x@)),
        None => None,
    }
}

/// The set of strings held in a list.
pub open spec fn str_set(v: Seq<String>) -> Set<Seq<char>> {
    Set::new(|x: Seq<char>| exists|i: int| 0 <= i < v.len() && (#[trigger] v[i])@ == x)
}

pub open spec fn queue_view(q: Seq<WorkPackage>) -> Seq<WorkModel> {
    q.map_values(|w: WorkPackage| w@)
}

/// No work is queued twice.
pub open spec fn distinct_work(s: Seq<WorkModel>) -> bool {
    forall|i: int, j: int| 0 <= i < s.len() && 0 <= j < s.len() && i != j ==> #[trigger] s[i] != #[trigger] s[j]
}

/// Adding work to the queue, unless it is already there.
pub open spec fn queue_insert(s: Seq<WorkModel>, w: WorkModel) -> Seq<WorkModel> {
    if s.contains(w) {
        s
    } else {
        s.push(w)
    }
}

/// The queue without `w`.
pub open spec fn queue_remove(s: Seq<WorkModel>, w: WorkModel) -> Seq<WorkModel>
    decreases s.len(),
{
    if s.len() == 0 {
        s
    } else {
        let r = queue_remove(s.drop_last(), w);
        if s.last() == w {
            r
        } else {
            r.push(s.last())
        }
    }
}

/// The queue without any work for package `p`.
pub open spec fn queue_remove_package(s: Seq<WorkModel>, p: Seq<char>) -> Seq<WorkModel>
    decreases s.len(),
{
    if s.len() == 0 {
        s
    } else {
        let r = queue_remove_package(s.drop_last(), p);
        if s.last().package == p {
            r
        } else {
            r.push(s.last())
        }
    }
}

pub fn str_set_contains(v: &Vec<String>, x: &String) -> (r: bool)
    ensures
        r == str_set(v@).contains(x@),
{
    let mut i: usize = 0;
    while i < v.len()
        invariant
            i <= v.len(),
            forall|k: int| 0 <= k < i ==> v@[k]@ != x@,
        decreases v.len() - i,
    {
        if v[i] == *x {
            assert(str_set(v@).contains(x@));
            return true;
        }
        i = i + 1;
    }
    false
}

fn str_set_insert(v: &mut Vec<String>, x: String)
    ensures
        str_set(final(v)@) == str_set(old(v)@).insert(x@),
{
    if !str_set_contains(v, &x) {
        let ghost xv = x@;
        v.push(x);
        assert(str_set(v@) =~= str_set(old(v)@).insert(xv)) by {
            assert(v@[v@.len() - 1]@ == xv);
            assert forall|y: Seq<char>| str_set(old(v)@).contains(y) implies str_set(v@).contains(y) by {
                let i = choose|i: int| 0 <= i < old(v)@.len() && (#[trigger] old(v)@[i])@ == y;
                assert(v@[i] == old(v)@[i]);
            }
            assert forall|y: Seq<char>| str_set(v@).contains(y) implies str_set(old(v)@).insert(xv).contains(y) by {
                let i = choose|i: int| 0 <= i < v@.len() && (#[trigger] v@[i])@ == y;
                if i < old(v)@.len() {
                    assert(old(v)@[i] == v@[i]);
                }
            }
        }
    } else {
        assert(str_set(v@) =~= str_set(old(v)@).insert(x@));
    }
}

fn str_set_remove(v: &mut Vec<String>, x: &String)
    ensures
        str_set(final(v)@) == str_set(old(v)@).remove(x@),
{
    let mut out: Vec<String> = Vec::new();
    let mut i: usize = 0;
    while i < v.len()
        invariant
            i <= v.len(),
            v@ == old(v)@,
            forall|y: Seq<char>| str_set(out@).contains(y) <==> (y != x@ && exists|k: int| 0 <= k < i && (#[trigger] v@[k])@ == y),
        decreases v.len() - i,
    {
        if v[i] != *x {
            let ghost before = out@;
            let s = v[i].clone();
            out.push(s);
            assert forall|y: Seq<char>| str_set(out@).contains(y) <==> (y != x@ && exists|k: int| 0 <= k < i + 1 && (#[trigger] v@[k])@ == y) by {
                if str_set(out@).contains(y) {
                    let j = choose|j: int| 0 <= j < out@.len() && (#[trigger] out@[j])@ == y;
                    if j < before.len() {
                        assert(before[j] == out@[j]);
                        assert(str_set(before).contains(y));
                    }
                }
                if y != x@ && exists|k: int| 0 <= k < i + 1 && (#[trigger] v@[k])@ == y {
                    let k = choose|k: int| 0 <= k < i + 1 && (#[trigger] v@[k])@ == y;
                    if k < i {
                        assert(str_set(before).contains(y));
                        let j = choose|j: int| 0 <= j < before.len() && (#[trigger] before[j])@ == y;
                        assert(out@[j] == before[j]);
                    } else {
                        assert(out@[before.len() as int] == s);
                    }
                }
            }
        } else {
            let ghost before = out@;
            assert forall|y: Seq<char>| str_set(out@).contains(y) <==> (y != x@ && exists|k: int| 0 <= k < i + 1 && (#[trigger] v@[k])@ == y) by {
                if y != x@ && exists|k: int| 0 <= k < i + 1 && (#[trigger] v@[k])@ == y {
                    let k = choose|k: int| 0 <= k < i + 1 && (#[trigger] v@[k])@ == y;
                }
            }
        }
        i = i + 1;
    }
    assert(str_set(out@) =~= str_set(old(v)@).remove(x@));
    *v = out;
}

pub fn clone_strings(v: &Vec<String>) -> (r: Vec<String>)
    ensures
        r@ == v@,
{
    let mut r: Vec<String> = Vec::new();
    let mut i: usize = 0;
    while i < v.len()
        invariant
            i <= v.len(),
            r@ == v@.take(i as int),
        decreases v.len() - i,
    {
        r.push(v[i].clone());
        i = i + 1;
    }
    assert(v@.take(v.len() as int) =~= v@);
    r
}


fn queue_contains(q: &Vec<WorkPackage>, w: &WorkPackage) -> (r: bool)
    ensures
        r == queue_view(q@).contains(w@),
{
    let mut i: usize = 0;
    while i < q.len()
        invariant
            i <= q.len(),
            forall|k: int| 0 <= k < i ==> q@[k]@ != w@,
        decreases q.len() - i,
    {
        if q[i].same(w) {
            assert(queue_view(q@)[i as int] == w@);
            return true;
        }
        i = i + 1;
    }
    assert forall|k: int| 0 <= k < queue_view(q@).len() implies queue_view(q@)[k] != w@ by {
        assert(queue_view(q@)[k] == q@[k]@);
    }
    false
}

fn queue_insert_exec(q: &mut Vec<WorkPackage>, w: WorkPackage)
    ensures
        queue_view(final(q)@) == queue_insert(queue_view(old(q)@), w@),
{
    if !queue_contains(q, &w) {
        let ghost wv = w@;
        q.push(w);
        assert(queue_view(q@) =~= queue_view(old(q)@).push(wv));
    }
}

fn queue_remove_exec(q: &mut Vec<WorkPackage>, w: &WorkPackage)
    ensures
        queue_view(final(q)@) == queue_remove(queue_view(old(q)@), w@),
{
    let mut out: Vec<WorkPackage> = Vec::new();
    let mut i: usize = 0;
    while i < q.len()
        invariant
            i <= q.len(),
            q@ == old(q)@,
            queue_view(out@) == queue_remove(queue_view(q@).take(i as int), w@),
        decreases q.len() - i,
    {
        assert(queue_view(q@).take(i + 1).drop_last() =~= queue_view(q@).take(i as int));
        assert(queue_view(q@).take(i + 1).last() == q@[i as int]@);
        if !q[i].same(w) {
            let d = q[i].duplicate();
            let ghost before = queue_view(out@);
            out.push(d);
            assert(queue_view(out@) =~= before.push(d@));
        }
        i = i + 1;
    }
    assert(queue_view(q@).take(q.len() as int) =~= queue_view(q@));
    *q = out;
}

fn queue_remove_package_exec(q: &mut Vec<WorkPackage>, p: &String)
    ensures
        queue_view(final(q)@) == queue_remove_package(queue_view(old(q)@), p@),
{
    let mut out: Vec<WorkPackage> = Vec::new();
    let mut i: usize = 0;
    while i < q.len()
        invariant
            i <= q.len(),
            q@ == old(q)@,
            queue_view(out@) == queue_remove_package(queue_view(q@).take(i as int), p@),
        decreases q.len() - i,
    {
        assert(queue_view(q@).take(i + 1).drop_last() =~= queue_view(q@).take(i as int));
        assert(queue_view(q@).take(i + 1).last() == q@[i as int]@);
        if q[i].package != *p {
            let d = q[i].duplicate();
            let ghost before = queue_view(out@);
            out.push(d);
            assert(queue_view(out@) =~= before.push(d@));
        }
        i = i + 1;
    }
    assert(queue_view(q@).take(q.len() as int) =~= queue_view(q@));
    *q = out;
}

/// What a package page starts from.
#[derive(Debug)]
pub struct PackagePageInit {
    pub package: String,
    pub syspkgs: SystemPkgs,
}

/// The state of a package page that its decisions depend on.
pub struct PackagePageModel {
    pub package: String,
    pub package_name: String,
    pub install_type: InstallType,
    pub work_queue: Vec<WorkPackage>,
    pub installed_user_packages: Vec<String>,
    pub installed_system_packages: Vec<String>,
    pub installed_packages: Vec<String>,
    pub launchable: Option<Launch>,
    pub online: bool,
    pub system_package_type: SystemPkgs,
    pub config: NixDataConfig,
    pub carousel_page: CarouselPage,
    pub screenshot_urls: Vec<String>,
    pub screenshots: Vec<ScreenshotSlot>,
}

/// A screenshot of the page as a value: the file it was cached in, once
/// there, and whether loading it failed.
pub open spec fn slot_view(s: ScreenshotSlot) -> (Option<Seq<char>>, bool) {
    (
        match s.path {
            Some(p) => Some(p@),
            None => None,
        },
        s.error,
    )
}

pub open spec fn slots_view(v: Seq<ScreenshotSlot>) -> Seq<(Option<Seq<char>>, bool)> {
    v.map_values(|s: ScreenshotSlot| slot_view(s))
}

#[verifier::ext_equal]
pub struct PageModel {
    pub package: Seq<char>,
    pub package_name: Seq<char>,
    pub install_type: InstallType,
    pub queue: Seq<WorkModel>,
    pub installed_user: Set<Seq<char>>,
    pub installed_system: Set<Seq<char>>,
    pub installed: Set<Seq<char>>,
    pub launchable: Option<LaunchModel>,
    pub online: bool,
    pub system_package_type: SystemPkgs,
    pub config: NixDataConfig,
    pub carousel_page: CarouselPage,
    pub screenshot_urls: Seq<Seq<char>>,
    pub screenshots: Seq<(Option<Seq<char>>, bool)>,
}

impl View for PackagePageModel {
    type V = PageModel;

    open spec fn view(&self) -> PageModel {
        PageModel {
            package: self.package@,
            package_name: self.package_name@,
            install_type: self.install_type,
            queue: queue_view(self.work_queue@),
            installed_user: str_set(self.installed_user_packages@),
            installed_system: str_set(self.installed_system_packages@),
            installed: str_set(self.installed_packages@),
            launchable: launch_view(self.launchable),
            online: self.online,
            system_package_type: self.system_package_type,
            config: self.config,
            carousel_page: self.carousel_page,
            screenshot_urls: strings_view(self.screenshot_urls@),
            screenshots: slots_view(self.screenshots@),
        }
    }
}

/// The messages of the package page that change its state or ask for work;
/// results of outside checks (network, `command -v`) come with them.
pub enum PackageMessage {
    UpdateInstalledPackages { system_packages: Vec<InstalledItem>, user_packages: Vec<InstalledItem> },
    Install { online: bool },
    Remove,
    Cancel,
    CancelFinished,
    FinishedProcess { work: WorkPackage, command_found: bool },
    FailedProcess(WorkPackage),
    Launch,
    NixRun,
    NixShell,
    SetInstallType(InstallType),
    AddToQueue(WorkPackage),
    UpdateOnline(bool),
    UpdateConfig(NixDataConfig),
    UpdatePkgTypes(SystemPkgs),
    /// New AppStream data; `command_found` says whether `command -v` finds
    /// the package's program.
    UpdateAppData { data: Option<AppData>, command_found: bool },
    SetCarouselPage(CarouselPage),
    /// Screenshot `i` of a package was cached in a file.
    LoadScreenshot(String, usize, String),
    /// Screenshot `i` of a package could not be loaded.
    SetError(String, usize),
    ShowReleases,
    Noop,
}

/// What the package page asks of the application.
pub enum PackageEffect {
    /// Start the install worker on this work.
    Process(WorkPackage),
    /// Stop the running work.
    CancelProcess,
    /// Tell the window to check the network.
    CheckNetwork,
    /// Refresh the icon cache.
    RefreshIcons,
    /// Tell the window to reload installed packages.
    UpdateInstalledPkgs,
    /// Tell the window that work from the installed page ended.
    RemoveInstalledBusy(WorkPackage),
    /// Remember the chosen install type.
    SaveInstallType(InstallType),
    /// Start a program with arguments.
    Spawn(Vec<String>),
    /// Hand the configuration to the install worker.
    SetWorkerConfig(NixDataConfig),
    /// Hand the package management to the install worker.
    SetWorkerPkgTypes(SystemPkgs),
    /// Show the release history.
    PresentReleases,
    /// Fetch the screenshots of a package at these addresses, in order.
    LoadScreenshots(String, Vec<String>),
}

pub enum EffectModel {
    Process(WorkModel),
    CancelProcess,
    CheckNetwork,
    RefreshIcons,
    UpdateInstalledPkgs,
    RemoveInstalledBusy(WorkModel),
    SaveInstallType(InstallType),
    Spawn(Seq<Seq<char>>),
    SetWorkerConfig(NixDataConfig),
    SetWorkerPkgTypes(SystemPkgs),
    PresentReleases,
    LoadScreenshots(Seq<char>, Seq<Seq<char>>),
}

impl View for PackageEffect {
    type V = EffectModel;

    open spec fn view(&self) -> EffectModel {
        match self {
            PackageEffect::Process(w) => EffectModel::Process(w@),
            PackageEffect::CancelProcess => EffectModel::CancelProcess,
            PackageEffect::CheckNetwork => EffectModel::CheckNetwork,
            PackageEffect::RefreshIcons => EffectModel::RefreshIcons,
            PackageEffect::UpdateInstalledPkgs => EffectModel::UpdateInstalledPkgs,
            PackageEffect::RemoveInstalledBusy(w) => EffectModel::RemoveInstalledBusy(w@),
            PackageEffect::SaveInstallType(t) => EffectModel::SaveInstallType(*t),
            PackageEffect::Spawn(args) => EffectModel::Spawn(crate::text::strings_view(args@)),
            PackageEffect::SetWorkerConfig(c) => EffectModel::SetWorkerConfig(*c),
            PackageEffect::SetWorkerPkgTypes(t) => EffectModel::SetWorkerPkgTypes(*t),
            PackageEffect::PresentReleases => EffectModel::PresentReleases,
            PackageEffect::LoadScreenshots(p, urls) => EffectModel::LoadScreenshots(p@, strings_view(urls@)),
        }
    }
}

pub open spec fn effects_view(v: Seq<PackageEffect>) -> Seq<EffectModel> {
    v.map_values(|e: PackageEffect| e@)
}

/// New work for the page's own package.
pub open spec fn own_work(m: PageModel, action: PackageAction) -> WorkModel {
    WorkModel {
        package: m.package,
        package_name: m.package_name,
        install_type: m.install_type,
        action,
        block: false,
        notify: None,
    }
}

pub open spec fn with_queue(m: PageModel, q: Seq<WorkModel>) -> PageModel {
    PageModel { queue: q, ..m }
}

/// Queueing work: it is started at once when it is all there is to do.
pub open spec fn enqueue(m: PageModel, w: WorkModel) -> (PageModel, Seq<EffectModel>) {
    let q = queue_insert(m.queue, w);
    (with_queue(m, q), if q.len() == 1 { seq![EffectModel::Process(w)] } else { Seq::empty() })
}

/// After work ended: notify the installed page if asked, start the next work.
pub open spec fn after_work(q: Seq<WorkModel>, work: WorkModel) -> Seq<EffectModel> {
    (if work.notify == Some(NotifyPage::Installed) {
        seq![EffectModel::RemoveInstalledBusy(work)]
    } else {
        Seq::empty()
    }) + (if q.len() > 0 {
        seq![EffectModel::Process(q[0])]
    } else {
        Seq::empty()
    })
}

pub open spec fn installed_for(t: InstallType, system: Set<Seq<char>>, user: Set<Seq<char>>) -> Set<Seq<char>> {
    match t {
        InstallType::System => system,
        InstallType::User => user,
    }
}

/// Arguments that open a terminal running `cmd`.
pub open spec fn terminal_args(cmd: Seq<char>) -> Seq<Seq<char>> {
    seq!["kgx"@, "-e"@, cmd]
}

pub open spec fn shell_run_command(package: Seq<char>, program: Seq<char>) -> Seq<char> {
    "nix shell nixpkgs#"@ + package + " --command bash -c \""@ + program + "; $SHELL\""@
}

/// One empty screenshot per address: nothing cached yet, no error.
pub open spec fn empty_slots(n: nat) -> Seq<(Option<Seq<char>>, bool)> {
    Seq::new(n, |i: int| (None::<Seq<char>>, false))
}

/// New AppStream data: what can be launched, and, where the data lists
/// screenshots, their addresses in carousel order, one empty screenshot per
/// address, the carousel at its start, and the downloads asked for.
pub open spec fn with_app_data(m: PageModel, d: AppData, command_found: bool) -> (PageModel, Seq<EffectModel>) {
    let launchable = spec_launchable(d, m.installed_user.contains(m.package), command_found, m.package_name);
    match d.screenshots {
        Some(shots) => {
            let urls = screenshot_order(shots@);
            (
                PageModel {
                    launchable,
                    screenshot_urls: urls,
                    screenshots: empty_slots(urls.len()),
                    carousel_page: if urls.len() <= 1 { CarouselPage::Single } else { CarouselPage::First },
                    ..m
                },
                seq![EffectModel::LoadScreenshots(m.package, urls)],
            )
        },
        None => (PageModel { launchable, ..m }, Seq::empty()),
    }
}

/// Screenshot `i` of `pkg` cached at `path`: recorded when `pkg` is the
/// page's package and the page has such a screenshot, else dropped.
pub open spec fn with_screenshot_path(m: PageModel, pkg: Seq<char>, i: usize, path: Seq<char>) -> PageModel {
    if pkg == m.package && i < m.screenshots.len() {
        PageModel { screenshots: m.screenshots.update(i as int, (Some(path), m.screenshots[i as int].1)), ..m }
    } else {
        m
    }
}

/// Screenshot `i` of `pkg` failed: recorded under the same conditions.
pub open spec fn with_screenshot_error(m: PageModel, pkg: Seq<char>, i: usize) -> PageModel {
    if pkg == m.package && i < m.screenshots.len() {
        PageModel { screenshots: m.screenshots.update(i as int, (m.screenshots[i as int].0, true)), ..m }
    } else {
        m
    }
}

/// The page's answer to a screenshot download: the same screenshot
/// message for the page.
pub open spec fn async_message(msg: PackageAsyncMessage) -> PackageMessage {
    match msg {
        PackageAsyncMessage::LoadScreenshot(pkg, i, path) => PackageMessage::LoadScreenshot(pkg, i, path),
        PackageAsyncMessage::SetError(pkg, i) => PackageMessage::SetError(pkg, i),
    }
}

pub open spec fn spec_update(m: PageModel, msg: PackageMessage) -> (PageModel, Seq<EffectModel>) {
    match msg {
        PackageMessage::UpdateInstalledPackages { system_packages, user_packages } => {
            let s = pkgs_of(system_packages@).to_set();
            let u = pkgs_of(user_packages@).to_set();
            (PageModel { installed_system: s, installed_user: u, installed: installed_for(m.install_type, s, u), ..m }, Seq::empty())
        },
        PackageMessage::Install { online } => {
            if !online {
                (PageModel { online: false, ..m }, seq![EffectModel::CheckNetwork])
            } else {
                enqueue(m, own_work(m, PackageAction::Install))
            }
        },
        PackageMessage::Remove => enqueue(m, own_work(m, PackageAction::Remove)),
        PackageMessage::AddToQueue(w) => enqueue(m, w@),
        PackageMessage::FinishedProcess { work, command_found } => {
            let w = work@;
            let q = queue_remove(m.queue, w);
            let m2 = match w.action {
                PackageAction::Install => PageModel {
                    queue: q,
                    installed_user: if w.install_type == InstallType::System { m.installed_user.insert(w.package) } else { m.installed_user },
                    installed_system: if w.install_type == InstallType::User { m.installed_system.insert(w.package) } else { m.installed_system },
                    installed: m.installed.insert(w.package),
                    launchable: if m.launchable is None && command_found {
                        Some(LaunchModel::TerminalApp(m.package_name))
                    } else {
                        m.launchable
                    },
                    ..m
                },
                PackageAction::Remove => PageModel {
                    queue: q,
                    installed_system: if w.install_type == InstallType::System { m.installed_system.remove(w.package) } else { m.installed_system },
                    installed_user: if w.install_type == InstallType::User { m.installed_user.remove(w.package) } else { m.installed_user },
                    installed: m.installed.remove(w.package),
                    ..m
                },
            };
            (m2, seq![EffectModel::RefreshIcons, EffectModel::UpdateInstalledPkgs] + after_work(q, w))
        },
        PackageMessage::FailedProcess(work) => {
            let q = queue_remove(m.queue, work@);
            (with_queue(m, q), after_work(q, work@))
        },
        PackageMessage::Cancel => {
            if m.queue.len() > 0 && m.queue[0].package == m.package {
                (m, seq![EffectModel::CancelProcess])
            } else {
                (with_queue(m, queue_remove_package(m.queue, m.package)), Seq::empty())
            }
        },
        PackageMessage::CancelFinished => {
            if m.queue.len() > 0 && m.queue[0].package == m.package {
                (with_queue(m, queue_remove(m.queue, m.queue[0])), Seq::empty())
            } else {
                (with_queue(m, queue_remove_package(m.queue, m.package)), Seq::empty())
            }
        },
        PackageMessage::Launch => (m, match m.launchable {
            Some(LaunchModel::GtkApp(x)) => seq![EffectModel::Spawn(seq!["gtk-launch"@, x])],
            Some(LaunchModel::TerminalApp(x)) => seq![EffectModel::Spawn(terminal_args(x))],
            None => Seq::empty(),
        }),
        PackageMessage::NixRun => (m, match m.launchable {
            Some(LaunchModel::GtkApp(x)) => seq![EffectModel::Spawn(seq![
                "nix"@, "shell"@, "nixpkgs#"@ + m.package, "--command"@, "bash"@, "-c"@,
                "env XDG_DATA_DIRS=$XDG_DATA_DIRS:$(nix eval nixpkgs#"@ + m.package + ".outPath --raw)/share gtk-launch "@ + x
            ])],
            Some(LaunchModel::TerminalApp(x)) => seq![EffectModel::Spawn(terminal_args(shell_run_command(m.package, x)))],
            None => seq![EffectModel::Spawn(terminal_args(shell_run_command(m.package, m.package_name)))],
        }),
        PackageMessage::NixShell => (m, seq![EffectModel::Spawn(terminal_args("nix shell nixpkgs#"@ + m.package))]),
        PackageMessage::SetInstallType(t) => (
            PageModel { installed: installed_for(t, m.installed_system, m.installed_user), install_type: t, ..m },
            seq![EffectModel::SaveInstallType(t)],
        ),
        PackageMessage::UpdateOnline(b) => (PageModel { online: b, ..m }, Seq::empty()),
        PackageMessage::UpdateConfig(c) => (PageModel { config: c, ..m }, seq![EffectModel::SetWorkerConfig(c)]),
        PackageMessage::UpdatePkgTypes(t) => (PageModel { system_package_type: t, ..m }, seq![EffectModel::SetWorkerPkgTypes(t)]),
        PackageMessage::UpdateAppData { data, command_found } => match data {
            Some(d) => with_app_data(m, d, command_found),
            None => (m, Seq::empty()),
        },
        PackageMessage::SetCarouselPage(p) => (PageModel { carousel_page: p, ..m }, Seq::empty()),
        PackageMessage::LoadScreenshot(pkg, i, path) => (with_screenshot_path(m, pkg@, i, path@), Seq::empty()),
        PackageMessage::SetError(pkg, i) => (with_screenshot_error(m, pkg@, i), Seq::empty()),
        PackageMessage::ShowReleases => (m, seq![EffectModel::PresentReleases]),
        PackageMessage::Noop => (m, Seq::empty()),
    }
}


/// One empty screenshot per address.
fn empty_slots_exec(n: usize) -> (r: Vec<ScreenshotSlot>)
    ensures
        slots_view(r@) == empty_slots(n as nat),
{
    let mut r: Vec<ScreenshotSlot> = Vec::new();
    let mut i: usize = 0;
    while i < n
        invariant
            i <= n,
            slots_view(r@) =~= empty_slots(i as nat),
        decreases n - i,
    {
        let ghost before = r@;
        r.push(ScreenshotSlot { path: None, error: false });
        assert(slots_view(r@) =~= slots_view(before).push((None::<Seq<char>>, false)));
        i = i + 1;
    }
    r
}

fn join2(a: &str, b: &str) -> (r: String)
    ensures
        r@ == a@ + b@,
{
    let mut s = String::from_str(a);
    s.append(b);
    s
}

fn join3(a: &str, b: &str, c: &str) -> (r: String)
    ensures
        r@ == a@ + b@ + c@,
{
    let mut s = String::from_str(a);
    s.append(b);
    s.append(c);
    s
}

fn terminal_args_exec(cmd: String) -> (r: Vec<String>)
    ensures
        crate::text::strings_view(r@) == terminal_args(cmd@),
{
    let r = vec![String::from_str("kgx"), String::from_str("-e"), cmd];
    assert(crate::text::strings_view(r@) =~= terminal_args(cmd@));
    r
}

fn shell_run_command_exec(package: &String, program: &String) -> (r: String)
    ensures
        r@ == shell_run_command(package@, program@),
{
    let mut s = join2("nix shell nixpkgs#", package.as_str());
    s.append(" --command bash -c \"");
    s.append(program.as_str());
    s.append("; $SHELL\"");
    s
}

impl PackagePageModel {
    fn own_work(&self, action: PackageAction) -> (w: WorkPackage)
        ensures
            w@ == own_work(self@, action),
    {
        WorkPackage {
            package: self.package.clone(),
            package_name: self.package_name.clone(),
            install_type: self.install_type,
            action,
            block: false,
            notify: None,
        }
    }

    fn enqueue(&mut self, w: WorkPackage) -> (effects: Vec<PackageEffect>)
        ensures
            final(self)@ == enqueue(old(self)@, w@).0,
            effects_view(effects@) == enqueue(old(self)@, w@).1,
    {
        let d = w.duplicate();
        queue_insert_exec(&mut self.work_queue, w);
        if self.work_queue.len() == 1 {
            let v = vec![PackageEffect::Process(d)];
            assert(effects_view(v@) =~= seq![EffectModel::Process(d@)]);
            v
        } else {
            let v: Vec<PackageEffect> = Vec::new();
            assert(effects_view(v@) =~= Seq::<EffectModel>::empty());
            v
        }
    }

    fn after_work(&self, work: WorkPackage) -> (effects: Vec<PackageEffect>)
        ensures
            effects_view(effects@) == after_work(self@.queue, work@),
    {
        let mut v: Vec<PackageEffect> = Vec::new();
        let ghost wv = work@;
        let notify = work.notify;
        if notify == Some(NotifyPage::Installed) {
            v.push(PackageEffect::RemoveInstalledBusy(work));
        }
        if self.work_queue.len() > 0 {
            let next = self.work_queue[0].duplicate();
            v.push(PackageEffect::Process(next));
        }
        assert(effects_view(v@) =~= after_work(self@.queue, wv));
        v
    }

    fn apply_app_data(&mut self, d: &AppData, command_found: bool) -> (effects: Vec<PackageEffect>)
        ensures
            final(self)@ == with_app_data(old(self)@, *d, command_found).0,
            effects_view(effects@) == with_app_data(old(self)@, *d, command_found).1,
    {
        let ghost m = self@;
        let mut v: Vec<PackageEffect> = Vec::new();
        let user_installed = str_set_contains(&self.installed_user_packages, &self.package);
        self.launchable = launchable_of(d, user_installed, command_found, &self.package_name);
        match &d.screenshots {
            Some(shots) => {
                let urls = screenshot_urls(shots);
                self.carousel_page = if urls.len() <= 1 { CarouselPage::Single } else { CarouselPage::First };
                self.screenshots = empty_slots_exec(urls.len());
                let sent = clone_strings(&urls);
                self.screenshot_urls = urls;
                v.push(PackageEffect::LoadScreenshots(self.package.clone(), sent));
            },
            None => {},
        }
        assert(self@ =~= with_app_data(m, *d, command_found).0);
        assert(effects_view(v@) =~= with_app_data(m, *d, command_found).1);
        v
    }

    fn set_screenshot_path(&mut self, pkg: &String, i: usize, path: String)
        ensures
            final(self)@ == with_screenshot_path(old(self)@, pkg@, i, path@),
    {
        let ghost m = self@;
        if *pkg == self.package && i < self.screenshots.len() {
            let ghost p = path@;
            self.screenshots[i].path = Some(path);
            assert(slots_view(self.screenshots@) =~= m.screenshots.update(i as int, (Some(p), m.screenshots[i as int].1)));
        }
        assert(self@ =~= with_screenshot_path(m, pkg@, i, path@));
    }

    fn set_screenshot_error(&mut self, pkg: &String, i: usize)
        ensures
            final(self)@ == with_screenshot_error(old(self)@, pkg@, i),
    {
        let ghost m = self@;
        if *pkg == self.package && i < self.screenshots.len() {
            self.screenshots[i].error = true;
            assert(slots_view(self.screenshots@) =~= m.screenshots.update(i as int, (m.screenshots[i as int].0, true)));
        }
        assert(self@ =~= with_screenshot_error(m, pkg@, i));
    }

    /// The page of a package when it opens: installed where the installed
    /// packages say, else as last chosen, else per user; with no work queued.
    pub fn new(
        init: PackagePageInit,
        config: NixDataConfig,
        installed_system: Vec<String>,
        installed_user: Vec<String>,
        saved: Option<InstallType>,
        online: bool,
    ) -> (r: PackagePageModel)
        ensures
            r.system_package_type == init.syspkgs,
            r.config == config,
            r.carousel_page == CarouselPage::Single,
            r.package == init.package,
            r.package_name@ == Seq::<char>::empty(),
            r.install_type == crate::package::spec_initial_install_type(str_set(installed_system@).contains(init.package@), str_set(installed_user@).contains(init.package@), saved),
            r@.installed == installed_for(r.install_type, str_set(installed_system@), str_set(installed_user@)),
            r@.installed_system == str_set(installed_system@),
            r@.installed_user == str_set(installed_user@),
            r.work_queue.len() == 0,
            r.launchable is None,
            r.online == online,
            r.screenshot_urls.len() == 0,
            r.screenshots.len() == 0,
    {
        let package = init.package;
        let is_system = str_set_contains(&installed_system, &package);
        let is_user = str_set_contains(&installed_user, &package);
        let install_type = crate::package::initial_install_type(is_system, is_user, saved);
        let installed_packages = match install_type {
            InstallType::System => clone_strings(&installed_system),
            InstallType::User => clone_strings(&installed_user),
        };
        PackagePageModel {
            package,
            package_name: String::new(),
            install_type,
            work_queue: Vec::new(),
            installed_user_packages: installed_user,
            installed_system_packages: installed_system,
            installed_packages,
            launchable: None,
            online,
            system_package_type: init.syspkgs,
            config,
            carousel_page: CarouselPage::Single,
            screenshot_urls: Vec::new(),
            screenshots: Vec::new(),
        }
    }

    /// Applies a message to the page state and returns the work it asks for.
    pub fn update(&mut self, msg: PackageMessage) -> (effects: Vec<PackageEffect>)
        ensures
            final(self)@ == spec_update(old(self)@, msg).0,
            effects_view(effects@) == spec_update(old(self)@, msg).1,
    {
        let ghost m = self@;
        match msg {
            PackageMessage::UpdateInstalledPackages { system_packages, user_packages } => {
                let sys = pkgs_of_items(&system_packages);
                let usr = pkgs_of_items(&user_packages);
                let inst = match self.install_type {
                    InstallType::System => clone_strings(&sys),
                    InstallType::User => clone_strings(&usr),
                };
                self.installed_system_packages = sys;
                self.installed_user_packages = usr;
                self.installed_packages = inst;
                let v: Vec<PackageEffect> = Vec::new();
                assert(effects_view(v@) =~= Seq::<EffectModel>::empty());
                v
            },
            PackageMessage::Install { online } => {
                if !online {
                    self.online = false;
                    let v = vec![PackageEffect::CheckNetwork];
                    assert(effects_view(v@) =~= seq![EffectModel::CheckNetwork]);
                    v
                } else {
                    let w = self.own_work(PackageAction::Install);
                    self.enqueue(w)
                }
            },
            PackageMessage::Remove => {
                let w = self.own_work(PackageAction::Remove);
                self.enqueue(w)
            },
            PackageMessage::AddToQueue(w) => self.enqueue(w),
            PackageMessage::FinishedProcess { work, command_found } => {
                queue_remove_exec(&mut self.work_queue, &work);
                match work.action {
                    PackageAction::Install => {
                        match work.install_type {
                            InstallType::System => str_set_insert(&mut self.installed_user_packages, work.package.clone()),
                            InstallType::User => str_set_insert(&mut self.installed_system_packages, work.package.clone()),
                        }
                        str_set_insert(&mut self.installed_packages, work.package.clone());
                        if self.launchable.is_none() && command_found {
                            self.launchable = Some(Launch::TerminalApp(self.package_name.clone()));
                        }
                    },
                    PackageAction::Remove => {
                        match work.install_type {
                            InstallType::System => str_set_remove(&mut self.installed_system_packages, &work.package),
                            InstallType::User => str_set_remove(&mut self.installed_user_packages, &work.package),
                        }
                        str_set_remove(&mut self.installed_packages, &work.package);
                    },
                }
                let tail = self.after_work(work);
                let mut v = vec![PackageEffect::RefreshIcons, PackageEffect::UpdateInstalledPkgs];
                let ghost head = effects_view(v@);
                let ghost t = effects_view(tail@);
                let mut tail = tail;
                v.append(&mut tail);
                assert(effects_view(v@) =~= head + t);
                v
            },
            PackageMessage::FailedProcess(work) => {
                queue_remove_exec(&mut self.work_queue, &work);
                self.after_work(work)
            },
            PackageMessage::Cancel => {
                if self.work_queue.len() > 0 && self.work_queue[0].package == self.package {
                    let v = vec![PackageEffect::CancelProcess];
                    assert(effects_view(v@) =~= seq![EffectModel::CancelProcess]);
                    v
                } else {
                    let p = self.package.clone();
                    queue_remove_package_exec(&mut self.work_queue, &p);
                    let v: Vec<PackageEffect> = Vec::new();
                    assert(effects_view(v@) =~= Seq::<EffectModel>::empty());
                    v
                }
            },
            PackageMessage::CancelFinished => {
                if self.work_queue.len() > 0 && self.work_queue[0].package == self.package {
                    let h = self.work_queue[0].duplicate();
                    queue_remove_exec(&mut self.work_queue, &h);
                } else {
                    let p = self.package.clone();
                    queue_remove_package_exec(&mut self.work_queue, &p);
                }
                let v: Vec<PackageEffect> = Vec::new();
                assert(effects_view(v@) =~= Seq::<EffectModel>::empty());
                v
            },
            PackageMessage::Launch => {
                let mut v: Vec<PackageEffect> = Vec::new();
                match &self.launchable {
                    Some(Launch::GtkApp(x)) => {
                        let args = vec![String::from_str("gtk-launch"), x.clone()];
                        assert(crate::text::strings_view(args@) =~= seq!["gtk-launch"@, x@]);
                        v.push(PackageEffect::Spawn(args));
                    },
                    Some(Launch::TerminalApp(x)) => {
                        v.push(PackageEffect::Spawn(terminal_args_exec(x.clone())));
                    },
                    None => {},
                }
                assert(effects_view(v@) =~= spec_update(m, msg).1);
                v
            },
            PackageMessage::NixRun => {
                let mut v: Vec<PackageEffect> = Vec::new();
                match &self.launchable {
                    Some(Launch::GtkApp(x)) => {
                        let mut env = join3("env XDG_DATA_DIRS=$XDG_DATA_DIRS:$(nix eval nixpkgs#", self.package.as_str(), ".outPath --raw)/share gtk-launch ");
                        env.append(x.as_str());
                        let args = vec![
                            String::from_str("nix"),
                            String::from_str("shell"),
                            join2("nixpkgs#", self.package.as_str()),
                            String::from_str("--command"),
                            String::from_str("bash"),
                            String::from_str("-c"),
                            env,
                        ];
                        assert(crate::text::strings_view(args@) =~= seq![
                            "nix"@, "shell"@, "nixpkgs#"@ + m.package, "--command"@, "bash"@, "-c"@,
                            "env XDG_DATA_DIRS=$XDG_DATA_DIRS:$(nix eval nixpkgs#"@ + m.package + ".outPath --raw)/share gtk-launch "@ + x@
                        ]);
                        v.push(PackageEffect::Spawn(args));
                    },
                    Some(Launch::TerminalApp(x)) => {
                        let cmd = shell_run_command_exec(&self.package, x);
                        v.push(PackageEffect::Spawn(terminal_args_exec(cmd)));
                    },
                    None => {
                        let cmd = shell_run_command_exec(&self.package, &self.package_name);
                        v.push(PackageEffect::Spawn(terminal_args_exec(cmd)));
                    },
                }
                assert(effects_view(v@) =~= spec_update(m, msg).1);
                v
            },
            PackageMessage::NixShell => {
                let cmd = join2("nix shell nixpkgs#", self.package.as_str());
                let v = vec![PackageEffect::Spawn(terminal_args_exec(cmd))];
                assert(effects_view(v@) =~= spec_update(m, msg).1);
                v
            },
            PackageMessage::SetInstallType(t) => {
                let inst = match t {
                    InstallType::System => clone_strings(&self.installed_system_packages),
                    InstallType::User => clone_strings(&self.installed_user_packages),
                };
                self.installed_packages = inst;
                self.install_type = t;
                let v = vec![PackageEffect::SaveInstallType(t)];
                assert(effects_view(v@) =~= seq![EffectModel::SaveInstallType(t)]);
                v
            },
            PackageMessage::UpdateOnline(b) => {
                self.online = b;
                let v: Vec<PackageEffect> = Vec::new();
                assert(effects_view(v@) =~= Seq::<EffectModel>::empty());
                v
            },
            PackageMessage::UpdateConfig(c) => {
                let w = c.duplicate();
                self.config = c;
                let v = vec![PackageEffect::SetWorkerConfig(w)];
                assert(effects_view(v@) =~= seq![EffectModel::SetWorkerConfig(self.config)]);
                v
            },
            PackageMessage::UpdatePkgTypes(t) => {
                self.system_package_type = t;
                let v = vec![PackageEffect::SetWorkerPkgTypes(t)];
                assert(effects_view(v@) =~= seq![EffectModel::SetWorkerPkgTypes(t)]);
                v
            },
            PackageMessage::UpdateAppData { data, command_found } => {
                match &data {
                    Some(d) => self.apply_app_data(d, command_found),
                    None => {
                        let v: Vec<PackageEffect> = Vec::new();
                        assert(effects_view(v@) =~= Seq::<EffectModel>::empty());
                        v
                    },
                }
            },
            PackageMessage::LoadScreenshot(pkg, i, path) => {
                self.set_screenshot_path(&pkg, i, path);
                let v: Vec<PackageEffect> = Vec::new();
                assert(effects_view(v@) =~= Seq::<EffectModel>::empty());
                v
            },
            PackageMessage::SetError(pkg, i) => {
                self.set_screenshot_error(&pkg, i);
                let v: Vec<PackageEffect> = Vec::new();
                assert(effects_view(v@) =~= Seq::<EffectModel>::empty());
                v
            },
            PackageMessage::SetCarouselPage(p) => {
                self.carousel_page = p;
                let v: Vec<PackageEffect> = Vec::new();
                assert(effects_view(v@) =~= Seq::<EffectModel>::empty());
                v
            },
            PackageMessage::ShowReleases => {
                let v = vec![PackageEffect::PresentReleases];
                assert(effects_view(v@) =~= seq![EffectModel::PresentReleases]);
                v
            },
            PackageMessage::Noop => {
                let v: Vec<PackageEffect> = Vec::new();
                assert(effects_view(v@) =~= Seq::<EffectModel>::empty());
                v
            },
        }
    }

    /// Applies the answer of a screenshot download: it is handed on as the
    /// same screenshot message.
    pub fn update_cmd(&mut self, msg: PackageAsyncMessage) -> (effects: Vec<PackageEffect>)
        ensures
            final(self)@ == spec_update(old(self)@, async_message(msg)).0,
            effects_view(effects@) == spec_update(old(self)@, async_message(msg)).1,
    {
        let m = match msg {
            PackageAsyncMessage::LoadScreenshot(pkg, i, path) => PackageMessage::LoadScreenshot(pkg, i, path),
            PackageAsyncMessage::SetError(pkg, i) => PackageMessage::SetError(pkg, i),
        };
        self.update(m)
    }
}


proof fn lemma_queue_remove(s: Seq<WorkModel>, w: WorkModel)
    ensures
        forall|x: WorkModel| #[trigger] queue_remove(s, w).contains(x) <==> (s.contains(x) && x != w),
        distinct_work(s) ==> distinct_work(queue_remove(s, w)),
    decreases s.len(),
{
    if s.len() > 0 {
        let p = s.drop_last();
        lemma_queue_remove(p, w);
        let r = queue_remove(p, w);
        assert forall|x: WorkModel| queue_remove(s, w).contains(x) <==> (s.contains(x) && x != w) by {
            let out = queue_remove(s, w);
            if out.contains(x) {
                let j = choose|j: int| 0 <= j < out.len() && out[j] == x;
                if s.last() != w && j == r.len() as int {
                    assert(s[s.len() - 1] == x);
                } else {
                    assert(out[j] == r[j]);
                    assert(r.contains(x));
                    let i = choose|i: int| 0 <= i < p.len() && p[i] == x;
                    assert(s[i] == x);
                }
            }
            if s.contains(x) && x != w {
                let i = choose|i: int| 0 <= i < s.len() && s[i] == x;
                if i == s.len() - 1 {
                    assert(out[r.len() as int] == x);
                } else {
                    assert(p[i] == x);
                    assert(p.contains(x));
                    assert(r.contains(x));
                    let j = choose|j: int| 0 <= j < r.len() && r[j] == x;
                    if s.last() != w {
                        assert(out[j] == x);
                    }
                }
            }
        }
        if distinct_work(s) {
            assert(distinct_work(p)) by {
                assert forall|i: int, j: int| 0 <= i < p.len() && 0 <= j < p.len() && i != j implies #[trigger] p[i] != #[trigger] p[j] by {
                    assert(p[i] == s[i] && p[j] == s[j]);
                }
            }
            if s.last() != w {
                assert(!p.contains(s.last())) by {
                    if p.contains(s.last()) {
                        let i = choose|i: int| 0 <= i < p.len() && p[i] == s.last();
                        assert(s[i] == s[s.len() - 1]);
                    }
                }
                assert(!r.contains(s.last()));
                let out = r.push(s.last());
                assert forall|i: int, j: int| 0 <= i < out.len() && 0 <= j < out.len() && i != j implies #[trigger] out[i] != #[trigger] out[j] by {
                    if i == r.len() as int {
                        assert(r.contains(out[j]));
                    } else if j == r.len() as int {
                        assert(r.contains(out[i]));
                    }
                }
            }
        }
    }
}

proof fn lemma_queue_remove_package(s: Seq<WorkModel>, pk: Seq<char>)
    ensures
        forall|x: WorkModel| #[trigger] queue_remove_package(s, pk).contains(x) <==> (s.contains(x) && x.package != pk),
        distinct_work(s) ==> distinct_work(queue_remove_package(s, pk)),
    decreases s.len(),
{
    if s.len() > 0 {
        let p = s.drop_last();
        lemma_queue_remove_package(p, pk);
        let r = queue_remove_package(p, pk);
        assert forall|x: WorkModel| queue_remove_package(s, pk).contains(x) <==> (s.contains(x) && x.package != pk) by {
            let out = queue_remove_package(s, pk);
            if out.contains(x) {
                let j = choose|j: int| 0 <= j < out.len() && out[j] == x;
                if s.last().package != pk && j == r.len() as int {
                    assert(s[s.len() - 1] == x);
                } else {
                    assert(out[j] == r[j]);
                    assert(r.contains(x));
                    let i = choose|i: int| 0 <= i < p.len() && p[i] == x;
                    assert(s[i] == x);
                }
            }
            if s.contains(x) && x.package != pk {
                let i = choose|i: int| 0 <= i < s.len() && s[i] == x;
                if i == s.len() - 1 {
                    assert(out[r.len() as int] == x);
                } else {
                    assert(p[i] == x);
                    assert(p.contains(x));
                    assert(r.contains(x));
                    let j = choose|j: int| 0 <= j < r.len() && r[j] == x;
                    if s.last().package != pk {
                        assert(out[j] == x);
                    }
                }
            }
        }
        if distinct_work(s) {
            assert(distinct_work(p)) by {
                assert forall|i: int, j: int| 0 <= i < p.len() && 0 <= j < p.len() && i != j implies #[trigger] p[i] != #[trigger] p[j] by {
                    assert(p[i] == s[i] && p[j] == s[j]);
                }
            }
            if s.last().package != pk {
                assert(!p.contains(s.last())) by {
                    if p.contains(s.last()) {
                        let i = choose|i: int| 0 <= i < p.len() && p[i] == s.last();
                        assert(s[i] == s[s.len() - 1]);
                    }
                }
                let out = r.push(s.last());
                assert forall|i: int, j: int| 0 <= i < out.len() && 0 <= j < out.len() && i != j implies #[trigger] out[i] != #[trigger] out[j] by {
                    if i == r.len() as int {
                        assert(r.contains(out[j]));
                    } else if j == r.len() as int {
                        assert(r.contains(out[i]));
                    }
                }
            }
        }
    }
}

proof fn lemma_queue_insert(s: Seq<WorkModel>, w: WorkModel)
    ensures
        queue_insert(s, w).contains(w),
        forall|x: WorkModel| queue_insert(s, w).contains(x) <==> (s.contains(x) || x == w),
        distinct_work(s) ==> distinct_work(queue_insert(s, w)),
{
    let q = queue_insert(s, w);
    if !s.contains(w) {
        assert(q[s.len() as int] == w);
        assert forall|x: WorkModel| q.contains(x) <==> (s.contains(x) || x == w) by {
            if s.contains(x) {
                let i = choose|i: int| 0 <= i < s.len() && s[i] == x;
                assert(q[i] == x);
            }
            if q.contains(x) {
                let i = choose|i: int| 0 <= i < q.len() && q[i] == x;
                if i < s.len() {
                    assert(s[i] == x);
                }
            }
        }
        assert forall|i: int, j: int| 0 <= i < q.len() && 0 <= j < q.len() && i != j && distinct_work(s) implies #[trigger] q[i] != #[trigger] q[j] by {
            if i == s.len() as int {
                assert(q[j] == s[j]);
            } else if j == s.len() as int {
                assert(q[i] == s[i]);
            } else {
                assert(q[i] == s[i] && q[j] == s[j]);
            }
        }
    }
}

/// No message makes the page queue the same work twice.
pub proof fn law_queue_stays_distinct(m: PageModel, msg: PackageMessage)
    requires
        distinct_work(m.queue),
    ensures
        distinct_work(spec_update(m, msg).0.queue),
{
    match msg {
        PackageMessage::Install { online } => {
            lemma_queue_insert(m.queue, own_work(m, PackageAction::Install));
        },
        PackageMessage::Remove => {
            lemma_queue_insert(m.queue, own_work(m, PackageAction::Remove));
        },
        PackageMessage::AddToQueue(w) => {
            lemma_queue_insert(m.queue, w@);
        },
        PackageMessage::FinishedProcess { work, command_found } => {
            lemma_queue_remove(m.queue, work@);
        },
        PackageMessage::FailedProcess(work) => {
            lemma_queue_remove(m.queue, work@);
        },
        PackageMessage::Cancel => {
            lemma_queue_remove_package(m.queue, m.package);
        },
        PackageMessage::CancelFinished => {
            if m.queue.len() > 0 {
                lemma_queue_remove(m.queue, m.queue[0]);
            }
            lemma_queue_remove_package(m.queue, m.package);
        },
        _ => {},
    }
}

/// Work that finished or failed is no longer queued, and what starts next is
/// queued work.
pub proof fn law_ended_work_leaves_queue(m: PageModel, work: WorkPackage, command_found: bool)
    ensures
        !spec_update(m, PackageMessage::FinishedProcess { work, command_found }).0.queue.contains(work@),
        !spec_update(m, PackageMessage::FailedProcess(work)).0.queue.contains(work@),
        forall|w: WorkModel| #[trigger] spec_update(m, PackageMessage::FailedProcess(work)).1.contains(EffectModel::Process(w))
            ==> spec_update(m, PackageMessage::FailedProcess(work)).0.queue.contains(w),
{
    lemma_queue_remove(m.queue, work@);
    let (m2, eff) = spec_update(m, PackageMessage::FailedProcess(work));
    assert forall|w: WorkModel| #[trigger] eff.contains(EffectModel::Process(w)) implies m2.queue.contains(w) by {
        let i = choose|i: int| 0 <= i < eff.len() && eff[i] == EffectModel::Process(w);
        if work@.notify == Some(NotifyPage::Installed) {
            assert(eff[0] == EffectModel::RemoveInstalledBusy(work@));
        }
        assert(m2.queue[0] == w);
    }
}

/// Queued work starts at once exactly when nothing else is queued: the page
/// asks to process new work only if, after queueing, it is the whole queue.
pub proof fn law_new_work_starts_when_alone(m: PageModel, w: WorkPackage)
    requires
        distinct_work(m.queue),
    ensures
        ({
            let (m2, eff) = spec_update(m, PackageMessage::AddToQueue(w));
            &&& m2.queue.contains(w@)
            &&& (eff.len() > 0 <==> m2.queue =~= seq![w@])
            &&& eff.len() > 0 ==> eff == seq![EffectModel::Process(w@)]
        }),
{
    lemma_queue_insert(m.queue, w@);
    let q = queue_insert(m.queue, w@);
    if q.len() == 1 {
        assert(q[0] == w@);
        assert(q =~= seq![w@]);
    }
}

/// Cancelling work that is not running drops every queued work for the
/// page's package and nothing else.
pub proof fn law_cancel_drops_package_work(m: PageModel)
    requires
        !(m.queue.len() > 0 && m.queue[0].package == m.package),
    ensures
        forall|x: WorkModel| spec_update(m, PackageMessage::Cancel).0.queue.contains(x) <==> (m.queue.contains(x) && x.package != m.package),
{
    lemma_queue_remove_package(m.queue, m.package);
}

/// New AppStream data with screenshots gives the page one empty screenshot
/// per address, and asks for exactly those addresses of its package.
pub proof fn law_one_slot_per_screenshot(m: PageModel, d: AppData, command_found: bool)
    requires
        d.screenshots is Some,
    ensures
        ({
            let (m2, e) = spec_update(m, PackageMessage::UpdateAppData { data: Some(d), command_found });
            &&& m2.screenshots.len() == m2.screenshot_urls.len()
            &&& forall|i: int| 0 <= i < m2.screenshots.len() ==> #[trigger] m2.screenshots[i] == (None::<Seq<char>>, false)
            &&& e == seq![EffectModel::LoadScreenshots(m.package, m2.screenshot_urls)]
        }),
{
}

/// An answer for a screenshot changes at most that screenshot of the page,
/// and only when it is for the page's package and the page has it.
pub proof fn law_screenshot_answer_touches_one_slot(m: PageModel, pkg: String, i: usize, path: String)
    ensures
        ({
            let m2 = spec_update(m, PackageMessage::LoadScreenshot(pkg, i, path)).0;
            &&& m2.screenshots.len() == m.screenshots.len()
            &&& m2.screenshot_urls == m.screenshot_urls
            &&& forall|k: int| 0 <= k < m.screenshots.len() && k != i ==> #[trigger] m2.screenshots[k] == m.screenshots[k]
            &&& (pkg@ != m.package ==> m2 == m)
        }),
        ({
            let m3 = spec_update(m, PackageMessage::SetError(pkg, i)).0;
            &&& m3.screenshots.len() == m.screenshots.len()
            &&& m3.screenshot_urls == m.screenshot_urls
            &&& forall|k: int| 0 <= k < m.screenshots.len() && k != i ==> #[trigger] m3.screenshots[k] == m.screenshots[k]
            &&& (pkg@ != m.package ==> m3 == m)
        }),
{
}

/// A finished removal leaves the package not installed: the page no longer
/// counts it among the installed packages shown, nor among those of the
/// work's install type. A finished install counts it as installed.
pub proof fn law_finished_work_sets_installed(m: PageModel, work: WorkPackage, command_found: bool)
    ensures
        ({
            let m2 = spec_update(m, PackageMessage::FinishedProcess { work, command_found }).0;
            &&& work.action == PackageAction::Remove ==> !m2.installed.contains(work.package@)
            &&& (work.action == PackageAction::Remove && work.install_type == InstallType::User)
                ==> !m2.installed_user.contains(work.package@)
            &&& (work.action == PackageAction::Remove && work.install_type == InstallType::System)
                ==> !m2.installed_system.contains(work.package@)
            &&& work.action == PackageAction::Install ==> m2.installed.contains(work.package@)
            &&& forall|p: Seq<char>| p != work.package@ ==> (m2.installed.contains(p) == m.installed.contains(p))
        }),
{
}

/// Trying a desktop application without installing it runs, in a shell
/// that has the package, `gtk-launch` on its desktop entry, with the
/// package's `share` directory added to `XDG_DATA_DIRS` so that the entry
/// is found; the page's state stays as it was.
pub proof fn law_nix_run_desktop_app(m: PageModel, x: Seq<char>)
    requires
        m.launchable == Some(LaunchModel::GtkApp(x)),
    ensures
        ({
            let (m2, e) = spec_update(m, PackageMessage::NixRun);
            &&& m2 == m
            &&& e.len() == 1
            &&& e[0] == EffectModel::Spawn(seq![
                "nix"@,
                "shell"@,
                "nixpkgs#"@ + m.package,
                "--command"@,
                "bash"@,
                "-c"@,
                "env XDG_DATA_DIRS=$XDG_DATA_DIRS:$(nix eval nixpkgs#"@ + m.package + ".outPath --raw)/share gtk-launch "@ + x,
            ])
        }),
{
}

/// Trying a terminal program, or a package with nothing known to launch,
/// opens a terminal with a shell that has the package and runs the program
/// (the package's name where nothing is known) in it.
pub proof fn law_nix_run_terminal(m: PageModel)
    requires
        !(m.launchable matches Some(LaunchModel::GtkApp(_))),
    ensures
        ({
            let prog = match m.launchable {
                Some(LaunchModel::TerminalApp(t)) => t,
                _ => m.package_name,
            };
            let (m2, e) = spec_update(m, PackageMessage::NixRun);
            &&& m2 == m
            &&& e.len() == 1
            &&& e[0] == EffectModel::Spawn(seq![
                "kgx"@,
                "-e"@,
                "nix shell nixpkgs#"@ + m.package + " --command bash -c \""@ + prog + "; $SHELL\""@,
            ])
        }),
{
}

/// Opening a shell with a package runs `nix shell` of that package in a
/// terminal, whatever the page can launch.
pub proof fn law_nix_shell(m: PageModel)
    ensures
        spec_update(m, PackageMessage::NixShell).0 == m,
        spec_update(m, PackageMessage::NixShell).1 == seq![EffectModel::Spawn(seq!["kgx"@, "-e"@, "nix shell nixpkgs#"@ + m.package])],
{
}

/// Launching an installed application starts its desktop entry with
/// `gtk-launch`, or runs its program in a terminal; with nothing to launch,
/// nothing happens.
pub proof fn law_launch(m: PageModel)
    ensures
        spec_update(m, PackageMessage::Launch).0 == m,
        match m.launchable {
            Some(LaunchModel::GtkApp(x)) => spec_update(m, PackageMessage::Launch).1 == seq![EffectModel::Spawn(seq!["gtk-launch"@, x])],
            Some(LaunchModel::TerminalApp(x)) => spec_update(m, PackageMessage::Launch).1 == seq![EffectModel::Spawn(seq!["kgx"@, "-e"@, x])],
            None => spec_update(m, PackageMessage::Launch).1.len() == 0,
        },
{
}

} // verus!
