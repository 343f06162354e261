//! The desktop search provider: the query it runs for the shell's terms and
//! what it tells about each result.

use vstd::prelude::*;
use vstd::string::StringExecFns;

use crate::details::{icon_path, is_last_tallest, largest_icon, spec_icon_path};
use crate::packages::{c_text, c_text_of, AppData, AppStreamIndex};
use crate::text::strings_view;

verus! {

/// What the shell is told about a result.
#[derive(Debug)]
pub struct Meta {
    pub id: String,
    pub name: String,
    pub description: Option<String>,
    pub gicon: Option<String>,
}

/// Words joined with single spaces (`[String]::join(" ")`).
pub open spec fn join_words(ws: Seq<Seq<char>>) -> Seq<char>
    decreases ws.len(),
{
    if ws.len() == 0 {
        Seq::empty()
    } else if ws.len() == 1 {
        ws[0]
    } else {
        join_words(ws.drop_last()) + seq![' '] + ws.last()
    }
}

/// The query for the shell's search terms: the terms joined with spaces.
pub fn search_query(terms: &Vec<String>) -> (r: String)
    ensures
        r@ == join_words(strings_view(terms@)),
{
    let ghost ws = strings_view(terms@);
    let mut s = String::new();
    let mut i: usize = 0;
    while i < terms.len()
        invariant
            i <= terms.len(),
            ws == strings_view(terms@),
            s@ == join_words(ws.take(i as int)),
        decreases terms.len() - i,
    {
        assert(ws.take(i + 1).drop_last() =~= ws.take(i as int));
        assert(ws.take(i + 1).last() == terms@[i as int]@);
        if i > 0 {
            s.append(" ");
            proof {
                reveal_strlit(" ");
            }
        } else {
            assert(ws.take(1)[0] == terms@[0]@);
        }
        let ghost before = s@;
        s.append(terms[i].as_str());
        assert(s@ =~= join_words(ws.take(i + 1)));
        i = i + 1;
    }
    assert(ws.take(terms.len() as int) =~= ws);
    s
}

/// The text shown where an application gives no name or summary.
pub open spec fn placeholder() -> Seq<char> {
    "There could have been your ad"@
}

/// Where the provider looks for icon files.
pub open spec fn provider_icon_root() -> Seq<char> {
    "/home/dyrbk/dev/software-center/result/share/app-info"@
}

/// The icon of a result: the path of the last of its tallest cached icons.
pub open spec fn meta_icon(d: AppData, icon: Option<Seq<char>>) -> bool {
    match d.icon {
        Some(il) => match il.cached {
            Some(v) => if v.len() == 0 {
                icon is None
            } else {
                exists|k: int| is_last_tallest(v@, k) && icon == Some(spec_icon_path(provider_icon_root(), v@[k]))
            },
            None => icon is None,
        },
        None => icon is None,
    }
}

/// What the shell is told about a package: with AppStream data, its
/// untranslated name and summary (a placeholder for each it lacks) and its
/// tallest cached icon; without, placeholders and no icon.
pub open spec fn meta_matches(package: Seq<char>, index: Map<Seq<char>, AppData>, m: Meta) -> bool {
    &&& m.id@ == package
    &&& if index.contains_key(package) {
        let d = index[package];
        &&& m.name@ == (match c_text(d.name) { Some(n) => n@, None => placeholder() })
        &&& m.description matches Some(s) && s@ == (match c_text(d.summary) { Some(t) => t@, None => placeholder() })
        &&& meta_icon(d, match m.gicon { Some(g) => Some(g@), None => None })
    } else {
        &&& m.name@ == placeholder()
        &&& m.description matches Some(s) && s@ == placeholder()
        &&& m.gicon is None
    }
}

fn text_or_placeholder(t: Option<String>) -> (r: String)
    ensures
        r@ == (match t { Some(s) => s@, None => placeholder() }),
{
    match t {
        Some(s) => s,
        None => String::from_str("There could have been your ad"),
    }
}

/// What the shell is told about a package.
pub fn result_meta(package: &String, index: &AppStreamIndex) -> (r: Meta)
    ensures
        meta_matches(package@, index@, r),
{
    match index.get(package) {
        Some(d) => {
            let gicon = match &d.icon {
                Some(il) => match &il.cached {
                    Some(v) => match largest_icon(v) {
                        Some(i) => {
                            let p = icon_path("/home/dyrbk/dev/software-center/result/share/app-info", &i);
                            proof {
                                let k = choose|k: int| is_last_tallest(v@, k) && i.name@ == v@[k].name@ && i.width == v@[k].width && i.height == v@[k].height;
                                assert(spec_icon_path(provider_icon_root(), i) == spec_icon_path(provider_icon_root(), v@[k]));
                            }
                            Some(p)
                        },
                        None => None,
                    },
                    None => None,
                },
                None => None,
            };
            let name = text_or_placeholder(c_text_of(&d.name));
            let summary = text_or_placeholder(c_text_of(&d.summary));
            Meta { id: package.clone(), name, description: Some(summary), gicon }
        },
        None => {
            let name = text_or_placeholder(None);
            let summary = text_or_placeholder(None);
            Meta { id: package.clone(), name, description: Some(summary), gicon: None }
        },
    }
}

/// What the shell is told about each of its results.
pub fn result_metas(identifiers: &Vec<String>, index: &AppStreamIndex) -> (r: Vec<Meta>)
    ensures
        r.len() == identifiers.len(),
        forall|k: int| 0 <= k < r.len() ==> meta_matches(identifiers@[k]@, index@, #[trigger] r@[k]),
{
    let mut r: Vec<Meta> = Vec::new();
    let mut i: usize = 0;
    while i < identifiers.len()
        invariant
            i <= identifiers.len(),
            r.len() == i,
            forall|k: int| 0 <= k < i ==> meta_matches(identifiers@[k]@, index@, #[trigger] r@[k]),
        decreases identifiers.len() - i,
    {
        r.push(result_meta(&identifiers[i], index));
        i = i + 1;
    }
    r
}

} // verus!
