use nix_software_center::installed::InstalledItem;
use nix_software_center::package::InstallType;
use nix_software_center::packages::{AppData, AppIcon, AppIconList, AppStreamIndex, LocalizedText};
use nix_software_center::search::{
    rank_results, search_results, search_terms, SearchItem, SearchItemModel, SearchPageAsyncMessage, SearchPageEffect, SearchPageModel,
    SearchPageMsg, SearchRow,
};
use nix_software_center::system::SystemPkgs;

fn text(s: &str) -> Option<LocalizedText> {
    Some(LocalizedText::from_entries(vec![("C".to_string(), s.to_string())]))
}

fn app(pkg: &str, name: &str) -> AppData {
    AppData {
        metatype: "desktop-application".to_string(),
        id: pkg.to_string(),
        package: pkg.to_string(),
        name: text(name),
        description: None,
        summary: None,
        url: None,
        icon: Some(AppIconList { cached: Some(vec![AppIcon { name: format!("{pkg}.png"), width: 64, height: 64 }]), stock: None }),
        launchable: None,
        provides: None,
        screenshots: None,
        categories: None,
        releases: None,
        branding: None,
    }
}

fn row(attr: &str, pname: &str, desc: &str) -> SearchRow {
    SearchRow { attribute: attr.to_string(), pname: pname.to_string(), description: desc.to_string(), version: "1".to_string() }
}

fn item(name: &str, pkg: &str) -> SearchItem {
    SearchItem {
        name: name.to_string(),
        pkg: pkg.to_string(),
        pname: pkg.to_string(),
        summary: None,
        icon: None,
        installeduser: false,
        installedsystem: false,
    }
}

fn installed(pkg: &str) -> InstalledItem {
    InstalledItem {
        name: pkg.to_string(),
        pkg: pkg.to_string(),
        pname: pkg.to_string(),
        summary: None,
        icon: None,
        pkgtype: InstallType::User,
        busy: false,
        version: "1".to_string(),
    }
}

#[test]
fn terms_drop_one_byte_words() {
    assert_eq!(search_terms("a text  editor x"), vec!["text".to_string(), "editor".to_string()]);
    assert_eq!(search_terms("é"), vec!["é".to_string()]);
    assert!(search_terms("").is_empty());
}

#[test]
fn rows_become_results() {
    let idx = AppStreamIndex::from_apps(vec![app("gimp", "GNU Image Manipulation Program")]);
    let rows = vec![row("gimp", "gimp", "An image editor"), row("gimp-plugin", "gimp-plugin", "")];
    let r = search_results(&rows, "gimp", &idx, &vec!["gimp".to_string()], &Vec::new());
    let gimp = r.iter().find(|x| x.pkg == "gimp").unwrap();
    assert_eq!(gimp.name, "GNU Image Manipulation Program");
    assert_eq!(gimp.icon, Some("gimp.png".to_string()));
    assert!(gimp.installeduser);
    assert!(!gimp.installedsystem);
    let plugin = r.iter().find(|x| x.pkg == "gimp-plugin").unwrap();
    assert_eq!(plugin.name, "gimp-plugin");
    assert_eq!(plugin.summary, None);
}

#[test]
fn closer_matches_rank_first() {
    let idx = AppStreamIndex::new();
    let items = vec![item("Firefox Developer Edition", "firefox-devedition"), item("Firefox", "firefox")];
    let r = rank_results(items, "firefox", &idx);
    assert_eq!(r[0].pkg, "firefox");
    assert_eq!(r[1].pkg, "firefox-devedition");
}

#[test]
fn ranking_ignores_case() {
    let idx = AppStreamIndex::new();
    let items = vec![item("ab", "c"), item("VIM", "VIM")];
    let r = rank_results(items, "vim", &idx);
    assert_eq!(r[0].pkg, "VIM");
    assert_eq!(r[1].pkg, "c");
}

#[test]
fn appstream_data_ranks_ahead() {
    let idx = AppStreamIndex::from_apps(vec![app("bbb", "bbb")]);
    let items = vec![item("aaa", "aaa"), item("bbb", "bbb")];
    let r = rank_results(items, "zz", &idx);
    assert_eq!(r[0].pkg, "bbb");
}

#[test]
fn equal_ranks_keep_their_order() {
    let idx = AppStreamIndex::new();
    let items = vec![item("abc", "x1"), item("abd", "x2"), item("abe", "x3")];
    let r = rank_results(items, "ab", &idx);
    let pkgs: Vec<&str> = r.iter().map(|x| x.pkg.as_str()).collect();
    assert_eq!(pkgs, vec!["x1", "x2", "x3"]);
}

#[test]
fn at_most_two_hundred_results() {
    let rows: Vec<SearchRow> = (0..250).map(|i| row(&format!("p{i}"), "p", "")).collect();
    let r = search_results(&rows, "p1", &AppStreamIndex::new(), &Vec::new(), &Vec::new());
    assert_eq!(r.len(), 200);
}

#[test]
fn result_row_summary_is_one_line() {
    let mut i = item("Hello", "hello");
    i.summary = Some(" Says\nhello ".to_string());
    let m = SearchItemModel::init_model(i);
    assert_eq!(m.item.summary, Some("Says hello".to_string()));
}

#[test]
fn short_query_clears_the_page() {
    let mut p = SearchPageModel::new(SystemPkgs::Unmanaged, Vec::new(), Vec::new());
    p.search_results.push(SearchItemModel::init_model(item("a", "a")));
    let e = p.update(SearchPageMsg::Search("a".to_string()));
    assert!(e.is_none());
    assert!(!p.searching);
    assert!(p.search_results.is_empty());
    assert_eq!(p.search_text, "");
}

#[test]
fn long_query_starts_a_search() {
    let mut p = SearchPageModel::new(SystemPkgs::Unmanaged, vec!["vim".to_string()], Vec::new());
    match p.update(SearchPageMsg::Search("ed".to_string())) {
        Some(SearchPageEffect::RunSearch { text, system, user }) => {
            assert_eq!(text, "ed");
            assert_eq!(system, vec!["vim".to_string()]);
            assert!(user.is_empty());
        }
        _ => panic!("expected a search"),
    }
    assert!(p.searching);
}

#[test]
fn stale_results_are_ignored() {
    let mut p = SearchPageModel::new(SystemPkgs::Unmanaged, Vec::new(), Vec::new());
    p.update(SearchPageMsg::Search("vim".to_string()));
    p.update_cmd(SearchPageAsyncMessage::SetResults("vi".to_string(), vec![item("x", "x")]));
    assert!(p.searching);
    assert!(p.search_results.is_empty());
    p.update_cmd(SearchPageAsyncMessage::SetResults("vim".to_string(), vec![item("Vim", "vim")]));
    assert!(!p.searching);
    assert_eq!(p.search_results.len(), 1);
}

#[test]
fn rows_follow_installed_packages() {
    let mut p = SearchPageModel::new(SystemPkgs::Unmanaged, Vec::new(), Vec::new());
    p.update(SearchPageMsg::Search("vim".to_string()));
    p.update_cmd(SearchPageAsyncMessage::SetResults("vim".to_string(), vec![item("Vim", "vim"), item("Neovim", "neovim")]));
    p.update(SearchPageMsg::UpdateInstalledPackages { system_packages: vec![installed("neovim")], user_packages: vec![installed("vim")] });
    assert!(p.search_results[0].item.installeduser);
    assert!(!p.search_results[0].item.installedsystem);
    assert!(p.search_results[1].item.installedsystem);
    match p.update(SearchPageMsg::OpenRow(1)) {
        Some(SearchPageEffect::OpenPackage(x)) => assert_eq!(x, "neovim"),
        _ => panic!("expected a package to open"),
    }
    assert!(p.update(SearchPageMsg::OpenRow(5)).is_none());
}

#[test]
fn ranking_keeps_every_result_once() {
    let idx = AppStreamIndex::from_apps(vec![app("b2", "B two")]);
    let items = vec![item("alpha", "a1"), item("beta", "b2"), item("gamma", "g3"), item("alphabet", "a4")];
    let r = rank_results(items, "alpha bet", &idx);
    let mut pkgs: Vec<&str> = r.iter().map(|x| x.pkg.as_str()).collect();
    assert_eq!(pkgs.len(), 4);
    pkgs.sort();
    assert_eq!(pkgs, vec!["a1", "a4", "b2", "g3"]);
}

#[test]
fn query_without_terms_has_no_results() {
    let rows = vec![row("gimp", "gimp", "An image editor")];
    assert!(search_results(&rows, "a b", &AppStreamIndex::new(), &Vec::new(), &Vec::new()).is_empty());
    assert!(search_results(&rows, "", &AppStreamIndex::new(), &Vec::new(), &Vec::new()).is_empty());
}
