use nix_software_center::carousel::{carousel_tile, get_random_tiles, CarouselInput, CarouselModel, CarouselTileInit};
use nix_software_center::packages::{
    AppBranding, AppData, AppIcon, AppIconList, AppScreenshot, AppScreenshotImage, BrandingColor, BrandingColorScheme, LocalizedText,
};

fn text(s: &str) -> Option<LocalizedText> {
    Some(LocalizedText::from_entries(vec![("C".to_string(), s.to_string())]))
}

fn full_app(pkg: &str) -> AppData {
    AppData {
        metatype: "desktop-application".to_string(),
        id: pkg.to_string(),
        package: pkg.to_string(),
        name: text(&format!("{pkg} app")),
        description: None,
        summary: text("Does things"),
        url: None,
        icon: Some(AppIconList { cached: Some(vec![AppIcon { name: format!("{pkg}.png"), width: 128, height: 128 }]), stock: None }),
        launchable: None,
        provides: None,
        screenshots: Some(vec![
            AppScreenshot { default: None, thumbnails: None, sourceimage: Some(AppScreenshotImage { url: "other".to_string() }) },
            AppScreenshot { default: Some(true), thumbnails: None, sourceimage: Some(AppScreenshotImage { url: format!("https://{pkg}/shot.png") }) },
        ]),
        categories: None,
        releases: None,
        branding: Some(AppBranding {
            colors: vec![
                BrandingColor { scheme_preference: None, value: "#000000".to_string() },
                BrandingColor { scheme_preference: Some(BrandingColorScheme::Light), value: "#ffffff".to_string() },
                BrandingColor { scheme_preference: Some(BrandingColorScheme::Dark), value: "#111111".to_string() },
                BrandingColor { scheme_preference: Some(BrandingColorScheme::Dark), value: "#222222".to_string() },
            ],
        }),
    }
}

fn tile(pkg: &str) -> CarouselTileInit {
    carousel_tile(&pkg.to_string(), &full_app(pkg)).unwrap()
}

#[test]
fn complete_app_gets_a_tile() {
    let t = tile("gimp");
    assert_eq!(t.package, "gimp");
    assert_eq!(t.name, "gimp app");
    assert_eq!(t.summary, "Does things");
    assert_eq!(t.icon, "gimp.png");
    assert_eq!(t.screenshot, "https://gimp/shot.png");
    assert_eq!(t.color_dark, "#111111");
    assert_eq!(t.color_light, "#ffffff");
}

#[test]
fn app_without_brand_colours_gets_none() {
    let mut d = full_app("gimp");
    d.branding = Some(AppBranding { colors: vec![BrandingColor { scheme_preference: Some(BrandingColorScheme::Light), value: "#fff".to_string() }] });
    assert!(carousel_tile(&"gimp".to_string(), &d).is_none());
    let mut d = full_app("gimp");
    d.screenshots = Some(vec![AppScreenshot { default: Some(false), thumbnails: None, sourceimage: None }]);
    assert!(carousel_tile(&"gimp".to_string(), &d).is_none());
    let mut d = full_app("gimp");
    d.summary = None;
    assert!(carousel_tile(&"gimp".to_string(), &d).is_none());
}

#[test]
fn default_screenshot_without_image_gives_none() {
    let mut d = full_app("gimp");
    d.screenshots = Some(vec![
        AppScreenshot { default: Some(true), thumbnails: None, sourceimage: None },
        AppScreenshot { default: Some(true), thumbnails: None, sourceimage: Some(AppScreenshotImage { url: "x".to_string() }) },
    ]);
    assert!(carousel_tile(&"gimp".to_string(), &d).is_none());
}

#[test]
fn random_tiles_are_distinct_candidates() {
    let mut apps: Vec<AppData> = (0..12).map(|i| full_app(&format!("app{i}"))).collect();
    apps[3].branding = None;
    let tiles = get_random_tiles(&apps, 5);
    assert_eq!(tiles.len(), 5);
    let mut pkgs: Vec<String> = tiles.iter().map(|t| t.package.clone()).collect();
    assert!(!pkgs.contains(&"app3".to_string()));
    pkgs.sort();
    pkgs.dedup();
    assert_eq!(pkgs.len(), 5);
}

#[test]
fn fewer_candidates_than_wanted() {
    let apps = vec![full_app("a"), full_app("b")];
    let tiles = get_random_tiles(&apps, 5);
    assert_eq!(tiles.len(), 2);
}

#[test]
fn carousel_pages_wrap_around() {
    let mut c = CarouselModel { tiles: vec![tile("a"), tile("b"), tile("c")], active_page: 0 };
    assert_eq!(c.update(CarouselInput::PreviousPage), Some(2));
    assert_eq!(c.update(CarouselInput::NextPage), Some(1));
    c.update(CarouselInput::PageChanged(2));
    assert_eq!(c.active_page, 2);
    assert_eq!(c.update(CarouselInput::NextPage), Some(0));
    assert_eq!(c.update(CarouselInput::PreviousPage), Some(1));
    assert_eq!(c.update(CarouselInput::UpdateTiles(vec![tile("d")])), None);
    assert_eq!(c.tiles.len(), 1);
}
