//! The featured-application carousel of the explore page: which
//! applications can have a tile, a random pick of them, and turning pages.

use vstd::prelude::*;
use rand::seq::IteratorRandom;
use rand::seq::SliceRandom;

use crate::packages::{c_text, c_text_of, AppData, AppScreenshot, BrandingColor, BrandingColorScheme};
use crate::search::{first_icon_name, first_icon_name_of};
use crate::license::opt_view;

verus! {

/// What a carousel tile shows of an application.
#[derive(Debug)]
pub struct CarouselTileInit {
    pub package: String,
    pub name: String,
    pub summary: String,
    pub icon: String,
    pub screenshot: String,
    pub color_dark: String,
    pub color_light: String,
}

pub struct CarouselTileView {
    pub package: Seq<char>,
    pub name: Seq<char>,
    pub summary: Seq<char>,
    pub icon: Seq<char>,
    pub screenshot: Seq<char>,
    pub color_dark: Seq<char>,
    pub color_light: Seq<char>,
}

impl View for CarouselTileInit {
    type V = CarouselTileView;

    open spec fn view(&self) -> CarouselTileView {
        CarouselTileView {
            package: self.package@,
            name: self.name@,
            summary: self.summary@,
            icon: self.icon@,
            screenshot: self.screenshot@,
            color_dark: self.color_dark@,
            color_light: self.color_light@,
        }
    }
}

/// The first screenshot marked as the default one.
pub open spec fn first_default(v: Seq<AppScreenshot>) -> Option<AppScreenshot>
    decreases v.len(),
{
    if v.len() == 0 {
        None
    } else if v[0].default == Some(true) {
        Some(v[0])
    } else {
        first_default(v.drop_first())
    }
}

/// The value of the first brand colour meant for a colour scheme.
pub open spec fn first_color(v: Seq<BrandingColor>, scheme: BrandingColorScheme) -> Option<Seq<char>>
    decreases v.len(),
{
    if v.len() == 0 {
        None
    } else if v[0].scheme_preference == Some(scheme) {
        Some(v[0].value@)
    } else {
        first_color(v.drop_first(), scheme)
    }
}

/// The source image of the default screenshot.
pub open spec fn default_screenshot_url(d: AppData) -> Option<Seq<char>> {
    match d.screenshots {
        Some(v) => match first_default(v@) {
            Some(s) => match s.sourceimage {
                Some(img) => Some(img.url@),
                None => None,
            },
            None => None,
        },
        None => None,
    }
}

/// The tile of an application, when it has an untranslated name and
/// summary, a cached icon, a default screenshot with a source image, and
/// brand colours for the dark and the light scheme.
pub open spec fn spec_carousel_tile(package: Seq<char>, d: AppData) -> Option<CarouselTileView> {
    match (c_text(d.name), c_text(d.summary), first_icon_name(d), default_screenshot_url(d), d.branding) {
        (Some(name), Some(summary), Some(icon), Some(screenshot), Some(b)) => match (first_color(b.colors@, BrandingColorScheme::Dark), first_color(b.colors@, BrandingColorScheme::Light)) {
            (Some(dark), Some(light)) => Some(CarouselTileView {
                package,
                name: name@,
                summary: summary@,
                icon,
                screenshot,
                color_dark: dark,
                color_light: light,
            }),
            _ => None,
        },
        _ => None,
    }
}

fn first_default_url(v: &Vec<AppScreenshot>) -> (r: Option<String>)
    ensures
        opt_view(r) == (match first_default(v@) {
            Some(s) => match s.sourceimage {
                Some(img) => Some(img.url@),
                None => None,
            },
            None => None,
        }),
{
    let mut i: usize = 0;
    assert(v@.subrange(0, v.len() as int) =~= v@);
    while i < v.len()
        invariant
            i <= v.len(),
            first_default(v@) == first_default(v@.subrange(i as int, v.len() as int)),
        decreases v.len() - i,
    {
        let ghost rest = v@.subrange(i as int, v.len() as int);
        assert(rest[0] == v@[i as int]);
        assert(rest.drop_first() =~= v@.subrange(i + 1, v.len() as int));
        if v[i].default == Some(true) {
            return match &v[i].sourceimage {
                Some(img) => Some(img.url.clone()),
                None => None,
            };
        }
        i = i + 1;
    }
    assert(v@.subrange(i as int, v.len() as int) =~= Seq::<AppScreenshot>::empty());
    None
}

fn first_color_of(v: &Vec<BrandingColor>, dark: bool) -> (r: Option<String>)
    ensures
        opt_view(r) == first_color(v@, if dark { BrandingColorScheme::Dark } else { BrandingColorScheme::Light }),
{
    let ghost scheme = if dark { BrandingColorScheme::Dark } else { BrandingColorScheme::Light };
    let mut i: usize = 0;
    assert(v@.subrange(0, v.len() as int) =~= v@);
    while i < v.len()
        invariant
            i <= v.len(),
            scheme == (if dark { BrandingColorScheme::Dark } else { BrandingColorScheme::Light }),
            first_color(v@, scheme) == first_color(v@.subrange(i as int, v.len() as int), scheme),
        decreases v.len() - i,
    {
        let ghost rest = v@.subrange(i as int, v.len() as int);
        assert(rest[0] == v@[i as int]);
        assert(rest.drop_first() =~= v@.subrange(i + 1, v.len() as int));
        let hit = match v[i].scheme_preference {
            Some(BrandingColorScheme::Dark) => dark,
            Some(BrandingColorScheme::Light) => !dark,
            None => false,
        };
        if hit {
            return Some(v[i].value.clone());
        }
        i = i + 1;
    }
    assert(v@.subrange(i as int, v.len() as int) =~= Seq::<BrandingColor>::empty());
    None
}

/// The tile of an application, if it has all a tile shows.
pub fn carousel_tile(package: &String, d: &AppData) -> (r: Option<CarouselTileInit>)
    ensures
        match r {
            Some(t) => spec_carousel_tile(package@, *d) == Some(t@),
            None => spec_carousel_tile(package@, *d) is None,
        },
{
    let name = match c_text_of(&d.name) {
        Some(n) => n,
        None => return None,
    };
    let summary = match c_text_of(&d.summary) {
        Some(s) => s,
        None => return None,
    };
    let icon = match first_icon_name_of(d) {
        Some(i) => i,
        None => return None,
    };
    let screenshot = match &d.screenshots {
        Some(v) => match first_default_url(v) {
            Some(u) => u,
            None => return None,
        },
        None => return None,
    };
    let b = match &d.branding {
        Some(b) => b,
        None => return None,
    };
    let color_dark = match first_color_of(&b.colors, true) {
        Some(c) => c,
        None => return None,
    };
    let color_light = match first_color_of(&b.colors, false) {
        Some(c) => c,
        None => return None,
    };
    Some(CarouselTileInit { package: package.clone(), name, summary, icon, screenshot, color_dark, color_light })
}

/// The tiles of the applications that can have one, in the order given.
pub open spec fn tile_candidates(apps: Seq<AppData>) -> Seq<CarouselTileView>
    decreases apps.len(),
{
    if apps.len() == 0 {
        Seq::empty()
    } else {
        let r = tile_candidates(apps.drop_last());
        match spec_carousel_tile(apps.last().package@, apps.last()) {
            Some(t) => r.push(t),
            None => r,
        }
    }
}

/// The views of tiles.
pub open spec fn tiles_view(v: Seq<CarouselTileInit>) -> Seq<CarouselTileView> {
    v.map_values(|t: CarouselTileInit| t@)
}

/// `IteratorRandom::sample` over the tiles with the thread's generator: a
/// random selection of `amount` of them, or all of them when there are
/// fewer, each taken at most once. Which ones come out, and in what order,
/// is left open.
#[verifier::external_body]
fn sample_tiles(tiles: Vec<CarouselTileInit>, amount: usize) -> (r: Vec<CarouselTileInit>)
    ensures
        r.len() == (if tiles.len() < amount { tiles.len() } else { amount }),
        r@.to_multiset().subset_of(tiles@.to_multiset()),
{
    let mut rng = rand::rng();
    tiles.into_iter().sample(&mut rng, amount)
}

/// `SliceRandom::shuffle` with the thread's generator: the same tiles in a
/// random order, which is left open.
#[verifier::external_body]
fn shuffle_tiles(tiles: &mut Vec<CarouselTileInit>)
    ensures
        final(tiles).len() == old(tiles).len(),
        final(tiles)@.to_multiset() == old(tiles)@.to_multiset(),
{
    let mut rng = rand::rng();
    tiles.shuffle(&mut rng);
}

/// Up to `amount` tiles picked at random among the applications that can
/// have one, in random order, none twice.
pub fn get_random_tiles(apps: &Vec<AppData>, amount: usize) -> (r: Vec<CarouselTileInit>)
    ensures
        exists|cands: Seq<CarouselTileInit>| {
            &&& tiles_view(cands) == tile_candidates(apps@)
            &&& r.len() == (if cands.len() < amount { cands.len() } else { amount as nat })
            &&& r@.to_multiset().subset_of(cands.to_multiset())
        },
{
    let mut cands: Vec<CarouselTileInit> = Vec::new();
    let mut i: usize = 0;
    while i < apps.len()
        invariant
            i <= apps.len(),
            tiles_view(cands@) == tile_candidates(apps@.take(i as int)),
        decreases apps.len() - i,
    {
        assert(apps@.take(i + 1).drop_last() =~= apps@.take(i as int));
        assert(apps@.take(i + 1).last() == apps@[i as int]);
        match carousel_tile(&apps[i].package, &apps[i]) {
            Some(t) => {
                let ghost before = tiles_view(cands@);
                cands.push(t);
                assert(tiles_view(cands@) =~= before.push(t@));
            },
            None => {},
        }
        i = i + 1;
    }
    assert(apps@.take(apps.len() as int) =~= apps@);
    let ghost all = cands@;
    let mut tiles = sample_tiles(cands, amount);
    shuffle_tiles(&mut tiles);
    assert(tiles_view(all) == tile_candidates(apps@));
    tiles
}

/// The page the carousel scrolls to for "previous": the one before, or the
/// last from the first.
pub open spec fn spec_previous_page(active: u32, pages: u32) -> u32 {
    if active == 0 && pages >= 1 { (pages - 1) as u32 } else { (active - 1) as u32 }
}

/// The page the carousel scrolls to for "next": the one after, or the first
/// from the last.
pub open spec fn spec_next_page(active: u32, pages: u32) -> u32 {
    if active >= pages - 1 { 0 } else { (active + 1) as u32 }
}

/// The carousel: its tiles and the page shown.
pub struct CarouselModel {
    pub tiles: Vec<CarouselTileInit>,
    pub active_page: u32,
}

pub enum CarouselInput {
    UpdateTiles(Vec<CarouselTileInit>),
    PageChanged(u32),
    PreviousPage,
    NextPage,
}

impl CarouselModel {
    /// Handles a message; for a page turn, returns the page to scroll to.
    /// Turning back needs a page before or a page at all, turning on a page
    /// at all.
    pub fn update(&mut self, msg: CarouselInput) -> (r: Option<u32>)
        requires
            old(self).tiles.len() <= u32::MAX,
            msg is PreviousPage ==> old(self).active_page > 0 || old(self).tiles.len() >= 1,
            msg is NextPage ==> old(self).tiles.len() >= 1,
        ensures
            match msg {
                CarouselInput::UpdateTiles(t) => tiles_view(final(self).tiles@) == tiles_view(t@) && final(self).active_page == old(self).active_page && r is None,
                CarouselInput::PageChanged(p) => final(self).active_page == p && tiles_view(final(self).tiles@) == tiles_view(old(self).tiles@) && r is None,
                CarouselInput::PreviousPage => r == Some(spec_previous_page(old(self).active_page, old(self).tiles.len() as u32))
                    && final(self).active_page == old(self).active_page && tiles_view(final(self).tiles@) == tiles_view(old(self).tiles@),
                CarouselInput::NextPage => r == Some(spec_next_page(old(self).active_page, old(self).tiles.len() as u32))
                    && final(self).active_page == old(self).active_page && tiles_view(final(self).tiles@) == tiles_view(old(self).tiles@),
            },
    {
        match msg {
            CarouselInput::UpdateTiles(t) => {
                self.tiles = t;
                None
            },
            CarouselInput::PageChanged(p) => {
                self.active_page = p;
                None
            },
            CarouselInput::PreviousPage => {
                let pages = self.tiles.len() as u32;
                if self.active_page == 0 && pages >= 1 {
                    Some(pages - 1)
                } else {
                    Some(self.active_page - 1)
                }
            },
            CarouselInput::NextPage => {
                let pages = self.tiles.len() as u32;
                if self.active_page >= pages - 1 {
                    Some(0)
                } else {
                    Some(self.active_page + 1)
                }
            },
        }
    }
}

/// Turning the carousel one page on and one page back, or back and on,
/// returns to the page shown.
pub proof fn law_carousel_turns_undo(active: u32, pages: u32)
    requires
        active < pages,
    ensures
        spec_previous_page(spec_next_page(active, pages), pages) == active,
        spec_next_page(spec_previous_page(active, pages), pages) == active,
{
}

} // verus!
