//! What a package page shows from a package's AppStream data: name, texts,
//! icon, screenshots, links and releases.

use vstd::prelude::*;
use vstd::string::StringExecFns;

use crate::license::{clone_opt_string, opt_view};
use crate::package::{CarouselPage, Launch};
use crate::packages::{c_text, c_text_of, AppData, AppIcon, AppRelease, AppScreenshot, AppUrl};
use crate::text::{decimal, decimal_string, html_to_pango, spec_html_to_pango, strings_view};

verus! {

/// The kinds of links a package page lists.
#[derive(Debug, Clone, Copy, PartialEq, Eq, Structural)]
pub enum LinkType {
    Website,
    IssueTracker,
    FAQ,
    Help,
    Donate,
    Translate,
    Contact,
    Source,
    Contribute,
    NixSource,
}

impl LinkType {
    /// The (untranslated) title of the link row.
    pub fn title(&self) -> (r: &'static str)
        ensures
            r@ == spec_link_title(*self),
    {
        match self {
            LinkType::Website => "Project Website",
            LinkType::IssueTracker => "Issue Tracker",
            LinkType::FAQ => "FAQ",
            LinkType::Help => "Help",
            LinkType::Donate => "Donate",
            LinkType::Translate => "Translate",
            LinkType::Contact => "Contact",
            LinkType::Source => "Source Code",
            LinkType::Contribute => "Contribute",
            LinkType::NixSource => "Nix Source",
        }
    }

    /// The icon of the link row.
    pub fn icon(&self) -> (r: Option<&'static str>)
        ensures
            r matches Some(s) && s@ == spec_link_icon(*self),
    {
        Some(
            match self {
                LinkType::Website => "globe-symbolic",
                LinkType::IssueTracker => "sad-computer-symbolic",
                LinkType::FAQ => "question-round-outline-symbolic",
                LinkType::Help => "rescue-symbolic",
                LinkType::Donate => "heart-filled-symbolic",
                LinkType::Translate => "keyboard-layout-symbolic",
                LinkType::Contact => "mail-send-symbolic",
                LinkType::Source => "code-symbolic",
                LinkType::Contribute => "people-symbolic",
                LinkType::NixSource => "shoe-box-symbolic",
            },
        )
    }
}

/// The title of a link row.
pub open spec fn spec_link_title(t: LinkType) -> Seq<char> {
    match t {
        LinkType::Website => "Project Website"@,
        LinkType::IssueTracker => "Issue Tracker"@,
        LinkType::FAQ => "FAQ"@,
        LinkType::Help => "Help"@,
        LinkType::Donate => "Donate"@,
        LinkType::Translate => "Translate"@,
        LinkType::Contact => "Contact"@,
        LinkType::Source => "Source Code"@,
        LinkType::Contribute => "Contribute"@,
        LinkType::NixSource => "Nix Source"@,
    }
}

/// The icon of a link row.
pub open spec fn spec_link_icon(t: LinkType) -> Seq<char> {
    match t {
        LinkType::Website => "globe-symbolic"@,
        LinkType::IssueTracker => "sad-computer-symbolic"@,
        LinkType::FAQ => "question-round-outline-symbolic"@,
        LinkType::Help => "rescue-symbolic"@,
        LinkType::Donate => "heart-filled-symbolic"@,
        LinkType::Translate => "keyboard-layout-symbolic"@,
        LinkType::Contact => "mail-send-symbolic"@,
        LinkType::Source => "code-symbolic"@,
        LinkType::Contribute => "people-symbolic"@,
        LinkType::NixSource => "shoe-box-symbolic"@,
    }
}

/// A link row: its kind and target.
#[derive(Debug)]
pub struct LinkItemInit {
    pub link_type: LinkType,
    pub link: String,
}

pub open spec fn links_view(v: Seq<LinkItemInit>) -> Seq<(LinkType, Seq<char>)> {
    v.map_values(|l: LinkItemInit| (l.link_type, l.link@))
}

pub open spec fn opt_link(t: LinkType, o: Option<String>) -> Seq<(LinkType, Seq<char>)> {
    match o {
        Some(s) => seq![(t, s@)],
        None => Seq::empty(),
    }
}

/// The links of an application, in the order the page lists them.
pub open spec fn spec_app_links(url: Option<AppUrl>) -> Seq<(LinkType, Seq<char>)> {
    match url {
        None => Seq::empty(),
        Some(u) => opt_link(LinkType::Website, u.homepage) + opt_link(LinkType::IssueTracker, u.bugtracker)
            + opt_link(LinkType::FAQ, u.faq) + opt_link(LinkType::Help, u.help) + opt_link(
            LinkType::Donate,
            u.donation,
        ) + opt_link(LinkType::Translate, u.translate) + opt_link(LinkType::Contact, u.contact)
            + opt_link(LinkType::Source, u.vcs_browser) + opt_link(LinkType::Contribute, u.contribute),
    }
}

fn push_link(v: &mut Vec<LinkItemInit>, t: LinkType, o: &Option<String>)
    ensures
        links_view(final(v)@) == links_view(old(v)@) + opt_link(t, *o),
{
    match o {
        Some(s) => {
            v.push(LinkItemInit { link_type: t, link: s.clone() });
            assert(links_view(v@) =~= links_view(old(v)@) + opt_link(t, *o));
        },
        None => {
            assert(links_view(v@) =~= links_view(old(v)@) + opt_link(t, *o));
        },
    }
}

pub fn app_links(url: &Option<AppUrl>) -> (r: Vec<LinkItemInit>)
    ensures
        links_view(r@) == spec_app_links(*url),
{
    let mut v: Vec<LinkItemInit> = Vec::new();
    match url {
        None => {
            assert(links_view(v@) =~= spec_app_links(*url));
        },
        Some(u) => {
            push_link(&mut v, LinkType::Website, &u.homepage);
            push_link(&mut v, LinkType::IssueTracker, &u.bugtracker);
            push_link(&mut v, LinkType::FAQ, &u.faq);
            push_link(&mut v, LinkType::Help, &u.help);
            push_link(&mut v, LinkType::Donate, &u.donation);
            push_link(&mut v, LinkType::Translate, &u.translate);
            push_link(&mut v, LinkType::Contact, &u.contact);
            push_link(&mut v, LinkType::Source, &u.vcs_browser);
            push_link(&mut v, LinkType::Contribute, &u.contribute);
            assert(links_view(v@) =~= spec_app_links(*url));
        },
    }
    v
}

/// The address an application gives for a kind of link, if any.
pub open spec fn url_of_kind(u: AppUrl, t: LinkType) -> Option<String> {
    match t {
        LinkType::Website => u.homepage,
        LinkType::IssueTracker => u.bugtracker,
        LinkType::FAQ => u.faq,
        LinkType::Help => u.help,
        LinkType::Donate => u.donation,
        LinkType::Translate => u.translate,
        LinkType::Contact => u.contact,
        LinkType::Source => u.vcs_browser,
        LinkType::Contribute => u.contribute,
        LinkType::NixSource => None,
    }
}

/// The place of a kind of link in the page's order.
pub open spec fn kind_place(t: LinkType) -> int {
    match t {
        LinkType::Website => 0,
        LinkType::IssueTracker => 1,
        LinkType::FAQ => 2,
        LinkType::Help => 3,
        LinkType::Donate => 4,
        LinkType::Translate => 5,
        LinkType::Contact => 6,
        LinkType::Source => 7,
        LinkType::Contribute => 8,
        LinkType::NixSource => 9,
    }
}

/// Every row links to the address given for its kind, and kinds come in
/// the page's order, each once, none at or after place `bound`; every kind
/// before `bound` with an address has its row.
pub open spec fn rows_well_placed(u: AppUrl, rows: Seq<(LinkType, Seq<char>)>, bound: int) -> bool {
    &&& forall|i: int| 0 <= i < rows.len() ==> opt_view(url_of_kind(u, (#[trigger] rows[i]).0)) == Some(rows[i].1)
    &&& forall|i: int| 0 <= i < rows.len() ==> kind_place((#[trigger] rows[i]).0) < bound
    &&& forall|i: int, j: int| 0 <= i < j < rows.len() ==> kind_place((#[trigger] rows[i]).0) < kind_place((#[trigger] rows[j]).0)
    &&& forall|t: LinkType| kind_place(t) < bound && url_of_kind(u, t) is Some
        ==> #[trigger] rows.contains((t, url_of_kind(u, t)->0@))
}

proof fn lemma_add_link(u: AppUrl, rows: Seq<(LinkType, Seq<char>)>, t: LinkType)
    requires
        rows_well_placed(u, rows, kind_place(t)),
    ensures
        rows_well_placed(u, rows + opt_link(t, url_of_kind(u, t)), kind_place(t) + 1),
{
    let out = rows + opt_link(t, url_of_kind(u, t));
    assert forall|i: int| 0 <= i < out.len() implies opt_view(url_of_kind(u, (#[trigger] out[i]).0)) == Some(out[i].1)
        && kind_place(out[i].0) < kind_place(t) + 1 by {
        if i < rows.len() {
            assert(out[i] == rows[i]);
        }
    }
    assert forall|i: int, j: int| 0 <= i < j < out.len() implies kind_place((#[trigger] out[i]).0) < kind_place((#[trigger] out[j]).0) by {
        if j < rows.len() {
            assert(out[i] == rows[i] && out[j] == rows[j]);
        } else {
            assert(out[i] == rows[i]);
        }
    }
    assert forall|t2: LinkType| kind_place(t2) < kind_place(t) + 1 && url_of_kind(u, t2) is Some
        implies #[trigger] out.contains((t2, url_of_kind(u, t2)->0@)) by {
        let e = (t2, url_of_kind(u, t2)->0@);
        if kind_place(t2) < kind_place(t) {
            assert(rows.contains((t2, url_of_kind(u, t2)->0@)));
            let k = choose|k: int| 0 <= k < rows.len() && rows[k] == e;
            assert(out[k] == e);
        } else {
            assert(t2 == t);
            assert(out[rows.len() as int] == e);
        }
    }
}

/// The links of an application go each to the address the application
/// gives for that kind of link (a "Donate" row to its donation page, a
/// "Translate" row to its translation page, and so on); every address it
/// gives is listed; and the kinds come in a fixed order, each once.
pub proof fn law_links_match_their_kind(u: AppUrl)
    ensures
        forall|i: int| 0 <= i < spec_app_links(Some(u)).len()
            ==> opt_view(url_of_kind(u, (#[trigger] spec_app_links(Some(u))[i]).0)) == Some(spec_app_links(Some(u))[i].1),
        forall|t: LinkType| url_of_kind(u, t) is Some ==> #[trigger] spec_app_links(Some(u)).contains((t, url_of_kind(u, t)->0@)),
        forall|i: int, j: int| 0 <= i < j < spec_app_links(Some(u)).len()
            ==> kind_place((#[trigger] spec_app_links(Some(u))[i]).0) < kind_place((#[trigger] spec_app_links(Some(u))[j]).0),
{
    let r0 = Seq::<(LinkType, Seq<char>)>::empty();
    let r1 = r0 + opt_link(LinkType::Website, u.homepage);
    let r2 = r1 + opt_link(LinkType::IssueTracker, u.bugtracker);
    let r3 = r2 + opt_link(LinkType::FAQ, u.faq);
    let r4 = r3 + opt_link(LinkType::Help, u.help);
    let r5 = r4 + opt_link(LinkType::Donate, u.donation);
    let r6 = r5 + opt_link(LinkType::Translate, u.translate);
    let r7 = r6 + opt_link(LinkType::Contact, u.contact);
    let r8 = r7 + opt_link(LinkType::Source, u.vcs_browser);
    let r9 = r8 + opt_link(LinkType::Contribute, u.contribute);
    assert(r1 =~= opt_link(LinkType::Website, u.homepage));
    assert(r9 == spec_app_links(Some(u)));
    lemma_add_link(u, r0, LinkType::Website);
    lemma_add_link(u, r1, LinkType::IssueTracker);
    lemma_add_link(u, r2, LinkType::FAQ);
    lemma_add_link(u, r3, LinkType::Help);
    lemma_add_link(u, r4, LinkType::Donate);
    lemma_add_link(u, r5, LinkType::Translate);
    lemma_add_link(u, r6, LinkType::Contact);
    lemma_add_link(u, r7, LinkType::Source);
    lemma_add_link(u, r8, LinkType::Contribute);
    assert forall|t: LinkType| url_of_kind(u, t) is Some implies #[trigger] r9.contains((t, url_of_kind(u, t)->0@)) by {
        assert(kind_place(t) < 9);
    }
}

/// A copy of an icon record.
pub fn copy_icon(i: &AppIcon) -> (r: AppIcon)
    ensures
        r.name@ == i.name@,
        r.width == i.width,
        r.height == i.height,
{
    AppIcon { name: i.name.clone(), width: i.width, height: i.height }
}

/// Position `k` holds the tallest icon, and no later icon is as tall.
pub open spec fn is_last_tallest(icons: Seq<AppIcon>, k: int) -> bool {
    &&& 0 <= k < icons.len()
    &&& forall|j: int| 0 <= j < icons.len() ==> (#[trigger] icons[j]).height <= icons[k].height
    &&& forall|j: int| k < j < icons.len() ==> (#[trigger] icons[j]).height < icons[k].height
}

/// The icon a stable sort by height puts last: the last of the tallest.
pub fn largest_icon(icons: &Vec<AppIcon>) -> (r: Option<AppIcon>)
    ensures
        r is None <==> icons.len() == 0,
        r matches Some(i) ==> exists|k: int| is_last_tallest(icons@, k) && i.name@ == icons@[k].name@ && i.width == icons@[k].width && i.height == icons@[k].height,
{
    if icons.len() == 0 {
        return None;
    }
    let mut best: usize = 0;
    let mut i: usize = 1;
    while i < icons.len()
        invariant
            1 <= i <= icons.len(),
            best < i,
            forall|j: int| 0 <= j < i ==> (#[trigger] icons@[j]).height <= icons@[best as int].height,
            forall|j: int| best < j < i ==> (#[trigger] icons@[j]).height < icons@[best as int].height,
        decreases icons.len() - i,
    {
        if icons[i].height >= icons[best].height {
            best = i;
        }
        i = i + 1;
    }
    let r = copy_icon(&icons[best]);
    assert(is_last_tallest(icons@, best as int));
    Some(r)
}

/// Where the icon file of an application lies below the `app-info` directory.
pub open spec fn spec_icon_path(base: Seq<char>, i: AppIcon) -> Seq<char> {
    base + "/icons/nixos/"@ + decimal(i.width as nat) + "x"@ + decimal(i.height as nat) + "/"@ + i.name@
}

pub fn icon_path(base: &str, i: &AppIcon) -> (r: String)
    ensures
        r@ == spec_icon_path(base@, *i),
{
    let mut s = String::from_str(base);
    s.append("/icons/nixos/");
    let w = decimal_string(i.width as u64);
    s.append(w.as_str());
    s.append("x");
    let h = decimal_string(i.height as u64);
    s.append(h.as_str());
    s.append("/");
    s.append(i.name.as_str());
    s
}

/// `urls` without `u`.
pub open spec fn remove_url(urls: Seq<Seq<char>>, u: Seq<char>) -> Seq<Seq<char>>
    decreases urls.len(),
{
    if urls.len() == 0 {
        urls
    } else {
        let r = remove_url(urls.drop_last(), u);
        if urls.last() == u {
            r
        } else {
            r.push(urls.last())
        }
    }
}

pub open spec fn is_default(s: AppScreenshot) -> bool {
    s.default == Some(true)
}

/// One screenshot taken into the list: a new image is added (in front when
/// it is the default one); a known image marked default moves to the front.
pub open spec fn screenshot_step(urls: Seq<Seq<char>>, shot: AppScreenshot) -> Seq<Seq<char>> {
    match shot.sourceimage {
        None => urls,
        Some(img) => {
            let u = img.url@;
            if !urls.contains(u) {
                if is_default(shot) {
                    seq![u] + urls
                } else {
                    urls.push(u)
                }
            } else if is_default(shot) {
                seq![u] + remove_url(urls, u)
            } else {
                urls
            }
        },
    }
}

/// The screenshot images of an application, in the order the page shows them.
pub open spec fn screenshot_order(shots: Seq<AppScreenshot>) -> Seq<Seq<char>>
    decreases shots.len(),
{
    if shots.len() == 0 {
        Seq::empty()
    } else {
        screenshot_step(screenshot_order(shots.drop_last()), shots.last())
    }
}

fn contains_string(v: &Vec<String>, x: &String) -> (r: bool)
    ensures
        r == strings_view(v@).contains(x@),
{
    let mut i: usize = 0;
    while i < v.len()
        invariant
            i <= v.len(),
            forall|k: int| 0 <= k < i ==> v@[k]@ != x@,
        decreases v.len() - i,
    {
        if v[i] == *x {
            assert(strings_view(v@)[i as int] == x@);
            return true;
        }
        i = i + 1;
    }
    assert forall|k: int| 0 <= k < strings_view(v@).len() implies strings_view(v@)[k] != x@ by {
        assert(strings_view(v@)[k] == v@[k]@);
    }
    false
}

fn remove_string(v: &Vec<String>, x: &String) -> (r: Vec<String>)
    ensures
        strings_view(r@) == remove_url(strings_view(v@), x@),
{
    let mut out: Vec<String> = Vec::new();
    let mut i: usize = 0;
    while i < v.len()
        invariant
            i <= v.len(),
            strings_view(out@) == remove_url(strings_view(v@).take(i as int), x@),
        decreases v.len() - i,
    {
        assert(strings_view(v@).take(i + 1).drop_last() =~= strings_view(v@).take(i as int));
        assert(strings_view(v@).take(i + 1).last() == v@[i as int]@);
        if v[i] != *x {
            let s = v[i].clone();
            let ghost before = strings_view(out@);
            out.push(s);
            assert(strings_view(out@) =~= before.push(s@));
        }
        i = i + 1;
    }
    assert(strings_view(v@).take(v.len() as int) =~= strings_view(v@));
    out
}

fn prepend_string(v: Vec<String>, x: String) -> (r: Vec<String>)
    ensures
        strings_view(r@) == seq![x@] + strings_view(v@),
{
    let mut r = v;
    let ghost before = strings_view(r@);
    r.insert(0, x);
    assert(strings_view(r@) =~= seq![x@] + before);
    r
}

/// Orders the screenshot images of an application for the carousel.
pub fn screenshot_urls(shots: &Vec<AppScreenshot>) -> (r: Vec<String>)
    ensures
        strings_view(r@) == screenshot_order(shots@),
{
    let mut urls: Vec<String> = Vec::new();
    let mut i: usize = 0;
    while i < shots.len()
        invariant
            i <= shots.len(),
            strings_view(urls@) == screenshot_order(shots@.take(i as int)),
        decreases shots.len() - i,
    {
        assert(shots@.take(i + 1).drop_last() =~= shots@.take(i as int));
        let shot = &shots[i];
        let default = shot.default == Some(true);
        match &shot.sourceimage {
            None => {},
            Some(img) => {
                let u = img.url.clone();
                if !contains_string(&urls, &u) {
                    if default {
                        urls = prepend_string(urls, u);
                    } else {
                        let ghost before = strings_view(urls@);
                        urls.push(u);
                        assert(strings_view(urls@) =~= before.push(img.url@));
                    }
                } else if default {
                    let rest = remove_string(&urls, &u);
                    urls = prepend_string(rest, u);
                }
            },
        }
        i = i + 1;
    }
    assert(shots@.take(shots.len() as int) =~= shots@);
    urls
}


/// A release row.
#[derive(Debug)]
pub struct ReleaseItemInit {
    pub version: Option<String>,
    pub date: Option<i64>,
    pub description: Option<String>,
    pub url: Option<String>,
    pub installed: bool,
}

pub struct ReleaseModel {
    pub version: Option<Seq<char>>,
    pub date: Option<i64>,
    pub description: Option<Seq<char>>,
    pub url: Option<Seq<char>>,
    pub installed: bool,
}

impl View for ReleaseItemInit {
    type V = ReleaseModel;

    open spec fn view(&self) -> ReleaseModel {
        ReleaseModel {
            version: opt_view(self.version),
            date: self.date,
            description: opt_view(self.description),
            url: opt_view(self.url),
            installed: self.installed,
        }
    }
}

/// The row of a release: its untranslated description as Pango markup.
pub open spec fn release_item_of(r: AppRelease) -> ReleaseModel {
    ReleaseModel {
        version: opt_view(r.version),
        date: r.date,
        description: match c_text(r.description) {
            Some(d) => Some(spec_html_to_pango(d@)),
            None => None,
        },
        url: match r.url {
            Some(u) => opt_view(u.details),
            None => None,
        },
        installed: false,
    }
}

pub open spec fn releases_view(v: Seq<ReleaseItemInit>) -> Seq<ReleaseModel> {
    v.map_values(|r: ReleaseItemInit| r@)
}

fn release_item(r: &AppRelease) -> (item: ReleaseItemInit)
    ensures
        item@ == release_item_of(*r),
{
    let description = match c_text_of(&r.description) {
        Some(d) => Some(html_to_pango(d.as_str())),
        None => None,
    };
    let url = match &r.url {
        Some(u) => clone_opt_string(&u.details),
        None => None,
    };
    ReleaseItemInit {
        version: clone_opt_string(&r.version),
        date: r.date,
        description,
        url,
        installed: false,
    }
}

/// The release rows of an application, newest first as in the data.
pub fn release_items(rs: &Vec<AppRelease>) -> (r: Vec<ReleaseItemInit>)
    ensures
        releases_view(r@) == rs@.map_values(|x: AppRelease| release_item_of(x)),
{
    let mut out: Vec<ReleaseItemInit> = Vec::new();
    let mut i: usize = 0;
    while i < rs.len()
        invariant
            i <= rs.len(),
            releases_view(out@) == rs@.take(i as int).map_values(|x: AppRelease| release_item_of(x)),
        decreases rs.len() - i,
    {
        let item = release_item(&rs[i]);
        let ghost before = releases_view(out@);
        let ghost iv = item@;
        out.push(item);
        assert(releases_view(out@) =~= before.push(iv));
        assert(rs@.take(i + 1).map_values(|x: AppRelease| release_item_of(x)) =~= rs@.take(i as int).map_values(|x: AppRelease| release_item_of(x)).push(release_item_of(rs@[i as int])));
        i = i + 1;
    }
    assert(rs@.take(rs.len() as int) =~= rs@);
    out
}

/// How a package can be started: the desktop entry of its AppStream data,
/// else, for a package installed per user whose program is on the path, a
/// terminal running it.
pub open spec fn spec_launchable(data: AppData, user_installed: bool, command_found: bool, package_name: Seq<char>) -> Option<crate::package_page::LaunchModel> {
    match data.launchable {
        Some(l) if l.desktopid.len() > 0 => Some(crate::package_page::LaunchModel::GtkApp(l.desktopid@[0]@)),
        _ => if user_installed && command_found {
            Some(crate::package_page::LaunchModel::TerminalApp(package_name))
        } else {
            None
        },
    }
}

/// How a package can be started, from its AppStream data.
pub fn launchable_of(data: &AppData, user_installed: bool, command_found: bool, package_name: &String) -> (r: Option<Launch>)
    ensures
        crate::package_page::launch_view(r) == spec_launchable(*data, user_installed, command_found, package_name@),
{
    match &data.launchable {
        Some(l) if l.desktopid.len() > 0 => Some(Launch::GtkApp(l.desktopid[0].clone())),
        _ => if user_installed && command_found {
            Some(Launch::TerminalApp(package_name.clone()))
        } else {
            None
        },
    }
}

/// What the AppStream data of a package changes on its page.
#[derive(Debug)]
pub struct AppStreamDetails {
    pub name: Option<String>,
    pub summary: Option<String>,
    pub description: Option<String>,
    pub icon: Option<AppIcon>,
    pub screenshots: Option<(Vec<String>, CarouselPage)>,
    pub launchable: Option<Launch>,
    pub urls: Vec<LinkItemInit>,
    pub releases: Option<Vec<ReleaseItemInit>>,
}

/// Reads the AppStream data of a package for its page. `user_installed`
/// says whether the package is installed per user and `command_found`
/// whether `command -v` finds its program.
pub fn apply_appstream_data(data: &AppData, user_installed: bool, command_found: bool, package_name: &String) -> (r: AppStreamDetails)
    ensures
        r.name == c_text(data.name),
        r.summary == c_text(data.summary),
        match c_text(data.description) {
            Some(d) => r.description matches Some(x) && x@ == spec_html_to_pango(d@),
            None => r.description is None,
        },
        match data.icon {
            Some(il) => match il.cached {
                Some(icons) => match r.icon {
                    Some(i) => exists|k: int| is_last_tallest(icons@, k) && i.name@ == icons@[k].name@ && i.width == icons@[k].width && i.height == icons@[k].height,
                    None => icons.len() == 0,
                },
                None => r.icon is None,
            },
            None => r.icon is None,
        },
        match data.screenshots {
            Some(shots) => r.screenshots matches Some(p) && strings_view(p.0@) == screenshot_order(shots@)
                && p.1 == (if screenshot_order(shots@).len() <= 1 { CarouselPage::Single } else { CarouselPage::First }),
            None => r.screenshots is None,
        },
        crate::package_page::launch_view(r.launchable) == spec_launchable(*data, user_installed, command_found, package_name@),
        links_view(r.urls@) == spec_app_links(data.url),
        match data.releases {
            Some(rs) => r.releases matches Some(v) && releases_view(v@) == rs@.map_values(|x: AppRelease| release_item_of(x)),
            None => r.releases is None,
        },
{
    let name = c_text_of(&data.name);
    let summary = c_text_of(&data.summary);
    let description = match c_text_of(&data.description) {
        Some(d) => Some(html_to_pango(d.as_str())),
        None => None,
    };
    let icon = match &data.icon {
        Some(il) => match &il.cached {
            Some(icons) => largest_icon(icons),
            None => None,
        },
        None => None,
    };
    let screenshots = match &data.screenshots {
        Some(shots) => {
            let urls = screenshot_urls(shots);
            let page = if urls.len() <= 1 { CarouselPage::Single } else { CarouselPage::First };
            Some((urls, page))
        },
        None => None,
    };
    let launchable = launchable_of(data, user_installed, command_found, package_name);
    let urls = app_links(&data.url);
    let releases = match &data.releases {
        Some(rs) => Some(release_items(rs)),
        None => None,
    };
    AppStreamDetails { name, summary, description, icon, screenshots, launchable, urls, releases }
}


pub open spec fn distinct_urls(s: Seq<Seq<char>>) -> bool {
    forall|i: int, j: int| 0 <= i < s.len() && 0 <= j < s.len() && i != j ==> #[trigger] s[i] != #[trigger] s[j]
}

/// Some screenshot has an image at `u`.
pub open spec fn has_source_url(shots: Seq<AppScreenshot>, u: Seq<char>) -> bool {
    exists|i: int| 0 <= i < shots.len() && (#[trigger] shots[i]).sourceimage is Some && shots[i].sourceimage->0.url@ == u
}

proof fn lemma_remove_url(urls: Seq<Seq<char>>, u: Seq<char>)
    ensures
        forall|x: Seq<char>| #[trigger] remove_url(urls, u).contains(x) <==> (urls.contains(x) && x != u),
        distinct_urls(urls) ==> distinct_urls(remove_url(urls, u)),
    decreases urls.len(),
{
    if urls.len() > 0 {
        let p = urls.drop_last();
        lemma_remove_url(p, u);
        let r = remove_url(p, u);
        let out = remove_url(urls, u);
        assert forall|x: Seq<char>| #[trigger] out.contains(x) <==> (urls.contains(x) && x != u) by {
            if out.contains(x) {
                let j = choose|j: int| 0 <= j < out.len() && out[j] == x;
                if urls.last() != u && j == r.len() as int {
                    assert(urls[urls.len() - 1] == x);
                } else {
                    assert(out[j] == r[j]);
                    assert(r.contains(x));
                    let i = choose|i: int| 0 <= i < p.len() && p[i] == x;
                    assert(urls[i] == x);
                }
            }
            if urls.contains(x) && x != u {
                let i = choose|i: int| 0 <= i < urls.len() && urls[i] == x;
                if i == urls.len() - 1 {
                    assert(out[r.len() as int] == x);
                } else {
                    assert(p[i] == x);
                    assert(r.contains(x));
                    let j = choose|j: int| 0 <= j < r.len() && r[j] == x;
                    if urls.last() != u {
                        assert(out[j] == x);
                    }
                }
            }
        }
        if distinct_urls(urls) {
            assert(distinct_urls(p)) by {
                assert forall|i: int, j: int| 0 <= i < p.len() && 0 <= j < p.len() && i != j implies #[trigger] p[i] != #[trigger] p[j] by {
                    assert(p[i] == urls[i] && p[j] == urls[j]);
                }
            }
            if urls.last() != u {
                assert(!p.contains(urls.last())) by {
                    if p.contains(urls.last()) {
                        let i = choose|i: int| 0 <= i < p.len() && p[i] == urls.last();
                        assert(urls[i] == urls[urls.len() - 1]);
                    }
                }
                assert forall|i: int, j: int| 0 <= i < out.len() && 0 <= j < out.len() && i != j implies #[trigger] out[i] != #[trigger] out[j] by {
                    if i == r.len() as int {
                        assert(r.contains(out[j]));
                    } else if j == r.len() as int {
                        assert(r.contains(out[i]));
                    }
                }
            }
        }
    }
}

proof fn lemma_screenshot_order(shots: Seq<AppScreenshot>)
    ensures
        distinct_urls(screenshot_order(shots)),
        forall|u: Seq<char>| #[trigger] screenshot_order(shots).contains(u) <==> has_source_url(shots, u),
    decreases shots.len(),
{
    if shots.len() > 0 {
        let p = shots.drop_last();
        lemma_screenshot_order(p);
        let urls = screenshot_order(p);
        let shot = shots.last();
        let out = screenshot_order(shots);
        assert forall|u: Seq<char>| has_source_url(p, u) implies has_source_url(shots, u) by {
            if has_source_url(p, u) {
                let i = choose|i: int| 0 <= i < p.len() && (#[trigger] p[i]).sourceimage is Some && p[i].sourceimage->0.url@ == u;
                assert(shots[i] == p[i]);
            }
        }
        match shot.sourceimage {
            None => {
                assert forall|u: Seq<char>| #[trigger] out.contains(u) <==> has_source_url(shots, u) by {
                    if has_source_url(shots, u) {
                        let i = choose|i: int| 0 <= i < shots.len() && (#[trigger] shots[i]).sourceimage is Some && shots[i].sourceimage->0.url@ == u;
                        assert(p[i] == shots[i]);
                    }
                }
            },
            Some(img) => {
                let v = img.url@;
                lemma_remove_url(urls, v);
                assert(has_source_url(shots, v)) by {
                    assert(shots[shots.len() - 1] == shot);
                }
                assert forall|u: Seq<char>| #[trigger] out.contains(u) <==> has_source_url(shots, u) by {
                    if has_source_url(shots, u) && u != v {
                        let i = choose|i: int| 0 <= i < shots.len() && (#[trigger] shots[i]).sourceimage is Some && shots[i].sourceimage->0.url@ == u;
                        assert(p[i] == shots[i]);
                        assert(has_source_url(p, u));
                        assert(urls.contains(u));
                        let j = choose|j: int| 0 <= j < urls.len() && urls[j] == u;
                        if !urls.contains(v) {
                            if is_default(shot) {
                                assert(out[j + 1] == u);
                            } else {
                                assert(out[j] == u);
                            }
                        } else if is_default(shot) {
                            assert(remove_url(urls, v).contains(u));
                            let k = choose|k: int| 0 <= k < remove_url(urls, v).len() && remove_url(urls, v)[k] == u;
                            assert(out[k + 1] == u);
                        }
                    }
                    if u == v {
                        if !urls.contains(v) {
                            if is_default(shot) {
                                assert(out[0] == v);
                            } else {
                                assert(out[urls.len() as int] == v);
                            }
                        } else if is_default(shot) {
                            assert(out[0] == v);
                        }
                    }
                    if out.contains(u) && u != v {
                        let j = choose|j: int| 0 <= j < out.len() && out[j] == u;
                        if !urls.contains(v) {
                            if is_default(shot) {
                                assert(urls[j - 1] == u);
                            } else {
                                assert(urls[j] == u);
                            }
                        } else if is_default(shot) {
                            assert(remove_url(urls, v)[j - 1] == u);
                            assert(remove_url(urls, v).contains(u));
                        } else {
                            assert(urls[j] == u);
                        }
                        assert(urls.contains(u));
                    }
                }
                assert(distinct_urls(out)) by {
                    assert forall|i: int, j: int| 0 <= i < out.len() && 0 <= j < out.len() && i != j implies #[trigger] out[i] != #[trigger] out[j] by {
                        if !urls.contains(v) {
                            if is_default(shot) {
                                if i == 0 {
                                    assert(out[j] == urls[j - 1]);
                                } else if j == 0 {
                                    assert(out[i] == urls[i - 1]);
                                } else {
                                    assert(out[i] == urls[i - 1] && out[j] == urls[j - 1]);
                                }
                            } else {
                                if i == urls.len() as int {
                                    assert(out[j] == urls[j]);
                                } else if j == urls.len() as int {
                                    assert(out[i] == urls[i]);
                                } else {
                                    assert(out[i] == urls[i] && out[j] == urls[j]);
                                }
                            }
                        } else if is_default(shot) {
                            let rm = remove_url(urls, v);
                            if i == 0 {
                                assert(out[j] == rm[j - 1]);
                                assert(rm.contains(out[j]));
                            } else if j == 0 {
                                assert(out[i] == rm[i - 1]);
                                assert(rm.contains(out[i]));
                            } else {
                                assert(out[i] == rm[i - 1] && out[j] == rm[j - 1]);
                            }
                        }
                    }
                }
            },
        }
    }
}

/// The carousel shows each screenshot image once, and every image of the
/// data.
pub proof fn law_screenshots_distinct_and_complete(shots: Seq<AppScreenshot>)
    ensures
        distinct_urls(screenshot_order(shots)),
        forall|u: Seq<char>| #[trigger] screenshot_order(shots).contains(u) <==> has_source_url(shots, u),
{
    lemma_screenshot_order(shots);
}

/// The last screenshot marked default comes first.
pub proof fn law_default_screenshot_first(shots: Seq<AppScreenshot>, k: int)
    requires
        0 <= k < shots.len(),
        is_default(shots[k]),
        shots[k].sourceimage is Some,
        forall|j: int| k < j < shots.len() ==> !(is_default(#[trigger] shots[j]) && shots[j].sourceimage is Some),
    ensures
        screenshot_order(shots).len() > 0,
        screenshot_order(shots)[0] == shots[k].sourceimage->0.url@,
    decreases shots.len(),
{
    let p = shots.drop_last();
    if k < shots.len() - 1 {
        assert forall|j: int| k < j < p.len() implies !(is_default(#[trigger] p[j]) && p[j].sourceimage is Some) by {
            assert(p[j] == shots[j]);
        }
        assert(p[k] == shots[k]);
        law_default_screenshot_first(p, k);
        assert(!(is_default(shots[shots.len() - 1]) && shots[shots.len() - 1].sourceimage is Some));
    }
}

/// What the package database says of a package, as its page shows it.
#[derive(Debug)]
pub struct PackageInfo {
    pub name: String,
    pub summary: Option<String>,
    pub description: Option<String>,
    pub version: Option<String>,
    pub broken: bool,
    pub insecure: bool,
    pub unsupported: bool,
    pub unfree: bool,
}

/// A text, or nothing when it is empty.
pub open spec fn nonempty(s: Seq<char>) -> Option<Seq<char>> {
    if s.len() == 0 { None } else { Some(s) }
}

fn nonempty_text(s: String) -> (r: Option<String>)
    ensures
        opt_view(r) == nonempty(s@),
{
    if s.as_str().is_empty() { None } else { Some(s) }
}

/// The page's fields from the package's database row: its package name as
/// title, its descriptions when they are not empty, its version and flags.
pub fn package_info(
    pname: String,
    version: String,
    description: String,
    longdescription: String,
    broken: bool,
    insecure: bool,
    unsupported: bool,
    unfree: bool,
) -> (r: PackageInfo)
    ensures
        r.name@ == pname@,
        opt_view(r.summary) == nonempty(description@),
        opt_view(r.description) == nonempty(longdescription@),
        opt_view(r.version) == Some(version@),
        r.broken == broken,
        r.insecure == insecure,
        r.unsupported == unsupported,
        r.unfree == unfree,
{
    PackageInfo {
        name: pname,
        summary: nonempty_text(description),
        description: nonempty_text(longdescription),
        version: Some(version),
        broken,
        insecure,
        unsupported,
        unfree,
    }
}

/// The link rows of a package page: the application's links, then its
/// definition in nixpkgs.
pub fn page_links(urls: &Vec<LinkItemInit>, position: &String) -> (r: Vec<LinkItemInit>)
    ensures
        links_view(r@) == links_view(urls@).push((LinkType::NixSource, crate::package::spec_nix_source_link(position@))),
{
    let mut r: Vec<LinkItemInit> = Vec::new();
    let mut i: usize = 0;
    while i < urls.len()
        invariant
            i <= urls.len(),
            links_view(r@) == links_view(urls@).take(i as int),
        decreases urls.len() - i,
    {
        let ghost before = links_view(r@);
        r.push(LinkItemInit { link_type: urls[i].link_type, link: urls[i].link.clone() });
        assert(links_view(r@) =~= before.push((urls@[i as int].link_type, urls@[i as int].link@)));
        assert(links_view(r@) =~= links_view(urls@).take(i + 1));
        i = i + 1;
    }
    assert(links_view(urls@).take(urls.len() as int) =~= links_view(urls@));
    let ghost before = links_view(r@);
    let link = crate::package::nix_source_link(position);
    r.push(LinkItemInit { link_type: LinkType::NixSource, link });
    assert(links_view(r@) =~= before.push((LinkType::NixSource, crate::package::spec_nix_source_link(position@))));
    r
}

} // verus!
