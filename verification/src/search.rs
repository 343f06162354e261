//! Package search: the terms of a query, the result rows, their ranking, and
//! the search page's state.

use vstd::prelude::*;

use crate::packages::{c_text, c_text_of, AppData, AppStreamIndex};
use crate::installed::InstalledItem;
use crate::package_page::{clone_strings, str_set, str_set_contains};
use crate::system::SystemPkgs;
use crate::license::{clone_opt_string, opt_view};
use crate::text::{chars_of, chars_range, has_prefix_at, matches_at, normalize_summary, spec_normalize_summary, string_from_chars, strings_view};

verus! {

/// Splitting `s` at `sep`: the finished pieces and the piece being read.
pub open spec fn split_state(s: Seq<char>, sep: char) -> (Seq<Seq<char>>, Seq<char>)
    decreases s.len(),
{
    if s.len() == 0 {
        (Seq::empty(), Seq::empty())
    } else {
        let (done, cur) = split_state(s.drop_last(), sep);
        if s.last() == sep {
            (done.push(cur), Seq::empty())
        } else {
            (done, cur.push(s.last()))
        }
    }
}

/// `s` split at every occurrence of `sep` (`str::split` with a character).
pub open spec fn split_char(s: Seq<char>, sep: char) -> Seq<Seq<char>> {
    split_state(s, sep).0.push(split_state(s, sep).1)
}

/// The number of bytes of a character in UTF-8.
pub open spec fn utf8_width(c: char) -> nat {
    let u = c as u32;
    if u < 0x80 {
        1
    } else if u < 0x800 {
        2
    } else if u < 0x10000 {
        3
    } else {
        4
    }
}

/// The number of bytes of a text in UTF-8 (what `str::len` counts).
pub open spec fn byte_len(s: Seq<char>) -> nat
    decreases s.len(),
{
    if s.len() == 0 {
        0
    } else {
        byte_len(s.drop_last()) + utf8_width(s.last())
    }
}

proof fn lemma_byte_len_ge(s: Seq<char>)
    ensures
        byte_len(s) >= s.len(),
    decreases s.len(),
{
    if s.len() > 0 {
        lemma_byte_len_ge(s.drop_last());
    }
}

/// Whether `v[a..b]` takes more than one byte in UTF-8.
fn longer_than_one_byte(v: &Vec<char>, a: usize, b: usize) -> (r: bool)
    requires
        a <= b <= v.len(),
    ensures
        r == (byte_len(v@.subrange(a as int, b as int)) > 1),
{
    let ghost w = v@.subrange(a as int, b as int);
    if b - a >= 2 {
        proof {
            lemma_byte_len_ge(w);
        }
        true
    } else if b - a == 1 {
        assert(w.drop_last() =~= Seq::<char>::empty());
        assert(w.last() == v@[a as int]);
        assert(byte_len(w) == byte_len(w.drop_last()) + utf8_width(w.last()));
        assert(byte_len(w.drop_last()) == 0);
        (v[a] as u32) >= 0x80
    } else {
        assert(w =~= Seq::<char>::empty());
        false
    }
}

/// The number of bytes of `v` in UTF-8.
pub(crate) fn utf8_len(v: &Vec<char>) -> (n: u128)
    ensures
        n == byte_len(v@),
        n <= 4 * v.len(),
{
    let mut n: u128 = 0;
    let mut i: usize = 0;
    while i < v.len()
        invariant
            i <= v.len(),
            n == byte_len(v@.take(i as int)),
            n <= 4 * i,
        decreases v.len() - i,
    {
        assert(v@.take(i + 1).drop_last() =~= v@.take(i as int));
        let u = v[i] as u32;
        let w: u128 = if u < 0x80 { 1 } else if u < 0x800 { 2 } else if u < 0x10000 { 3 } else { 4 };
        n = n + w;
        i = i + 1;
    }
    assert(v@.take(v.len() as int) =~= v@);
    n
}

/// The words longer than one byte.
pub open spec fn keep_terms(ws: Seq<Seq<char>>) -> Seq<Seq<char>>
    decreases ws.len(),
{
    if ws.len() == 0 {
        ws
    } else {
        let r = keep_terms(ws.drop_last());
        if byte_len(ws.last()) > 1 {
            r.push(ws.last())
        } else {
            r
        }
    }
}

/// The search terms of a query: its space-separated words longer than one byte.
pub open spec fn spec_search_terms(text: Seq<char>) -> Seq<Seq<char>> {
    keep_terms(split_char(text, ' '))
}

/// Splits a query into its search terms.
pub fn search_terms(text: &str) -> (r: Vec<String>)
    ensures
        strings_view(r@) == spec_search_terms(text@),
{
    let v = chars_of(text);
    let mut words: Vec<String> = Vec::new();
    let mut start: usize = 0;
    let mut i: usize = 0;
    while i < v.len()
        invariant
            start <= i <= v.len(),
            split_state(v@.take(i as int), ' ').1 == v@.subrange(start as int, i as int),
            strings_view(words@) == keep_terms(split_state(v@.take(i as int), ' ').0),
        decreases v.len() - i,
    {
        assert(v@.take(i + 1).drop_last() =~= v@.take(i as int));
        assert(v@.take(i + 1).last() == v@[i as int]);
        let ghost st = split_state(v@.take(i as int), ' ');
        if v[i] == ' ' {
            assert(split_state(v@.take(i + 1), ' ') == (st.0.push(st.1), Seq::<char>::empty()));
            assert(st.0.push(st.1).drop_last() =~= st.0);
            let w = string_from_chars(chars_range(&v, start, i).as_slice());
            if longer_than_one_byte(&v, start, i) {
                let ghost before = strings_view(words@);
                words.push(w);
                assert(strings_view(words@) =~= before.push(v@.subrange(start as int, i as int)));
            }
            start = i + 1;
            assert(v@.subrange(start as int, i + 1) =~= Seq::<char>::empty());
        } else {
            assert(split_state(v@.take(i + 1), ' ') == (st.0, st.1.push(v@[i as int])));
            assert(v@.subrange(start as int, i + 1) =~= v@.subrange(start as int, i as int).push(v@[i as int]));
        }
        i = i + 1;
    }
    assert(v@.take(v.len() as int) =~= v@);
    let w = string_from_chars(chars_range(&v, start, v.len()).as_slice());
    if longer_than_one_byte(&v, start, v.len()) {
        let ghost before = strings_view(words@);
        words.push(w);
        assert(strings_view(words@) =~= before.push(v@.subrange(start as int, v.len() as int)));
    }
    proof {
        let (d, c) = split_state(v@, ' ');
        assert(split_char(v@, ' ').drop_last() =~= d);
    }
    words
}


/// A search result row.
#[derive(Debug, Default, PartialEq, Eq)]
pub struct SearchItem {
    pub name: String,
    pub pkg: String,
    pub pname: String,
    pub summary: Option<String>,
    pub icon: Option<String>,
    pub installeduser: bool,
    pub installedsystem: bool,
}

pub struct SearchItemView {
    pub name: Seq<char>,
    pub pkg: Seq<char>,
    pub pname: Seq<char>,
    pub summary: Option<Seq<char>>,
    pub icon: Option<Seq<char>>,
    pub installeduser: bool,
    pub installedsystem: bool,
}

impl View for SearchItem {
    type V = SearchItemView;

    open spec fn view(&self) -> SearchItemView {
        SearchItemView {
            name: self.name@,
            pkg: self.pkg@,
            pname: self.pname@,
            summary: opt_view(self.summary),
            icon: opt_view(self.icon),
            installeduser: self.installeduser,
            installedsystem: self.installedsystem,
        }
    }
}

/// The row of a search result as its list shows it.
pub struct SearchItemModel {
    pub item: SearchItem,
}

impl SearchItemModel {
    /// A row with its summary put on one line.
    pub fn init_model(parent: SearchItem) -> (r: SearchItemModel)
        ensures
            r.item.name@ == parent.name@,
            r.item.pkg@ == parent.pkg@,
            r.item.pname@ == parent.pname@,
            r.item.icon == parent.icon,
            r.item.installeduser == parent.installeduser,
            r.item.installedsystem == parent.installedsystem,
            match parent.summary {
                Some(s) => r.item.summary matches Some(t) && t@ == spec_normalize_summary(s@),
                None => r.item.summary is None,
            },
    {
        let summary = normalize_summary(parent.summary);
        SearchItemModel {
            item: SearchItem {
                name: parent.name,
                pkg: parent.pkg,
                pname: parent.pname,
                summary,
                icon: parent.icon,
                installeduser: parent.installeduser,
                installedsystem: parent.installedsystem,
            },
        }
    }
}

/// A row of the package database found by a search: attribute, package
/// name, description, version.
pub struct SearchRow {
    pub attribute: String,
    pub pname: String,
    pub description: String,
    pub version: String,
}

/// The name of the first cached icon of an application.
pub open spec fn first_icon_name(d: AppData) -> Option<Seq<char>> {
    match d.icon {
        Some(il) => match il.cached {
            Some(v) => if v.len() > 0 {
                Some(v@[0].name@)
            } else {
                None
            },
            None => None,
        },
        None => None,
    }
}

pub fn first_icon_name_of(d: &AppData) -> (r: Option<String>)
    ensures
        opt_view(r) == first_icon_name(*d),
{
    match &d.icon {
        Some(il) => match &il.cached {
            Some(v) => if v.len() > 0 {
                Some(v[0].name.clone())
            } else {
                None
            },
            None => None,
        },
        None => None,
    }
}

/// The result row of a database row: the untranslated AppStream name when
/// there is one, the first cached icon, and whether it is installed.
pub open spec fn search_item_of(row: SearchRow, index: Map<Seq<char>, AppData>, user: Set<Seq<char>>, system: Set<Seq<char>>) -> SearchItemView {
    let a = row.attribute@;
    SearchItemView {
        name: if index.contains_key(a) {
            match c_text(index[a].name) {
                Some(n) => n@,
                None => row.pname@,
            }
        } else {
            row.pname@
        },
        pkg: a,
        pname: a,
        summary: if row.description@.len() == 0 { None } else { Some(row.description@) },
        icon: if index.contains_key(a) { first_icon_name(index[a]) } else { None },
        installeduser: user.contains(a),
        installedsystem: system.contains(a),
    }
}

pub fn search_item(row: SearchRow, index: &AppStreamIndex, user: &Vec<String>, system: &Vec<String>) -> (r: SearchItem)
    ensures
        r@ == search_item_of(row, index@, str_set(user@), str_set(system@)),
{
    let ghost rv = row;
    let installeduser = str_set_contains(user, &row.attribute);
    let installedsystem = str_set_contains(system, &row.attribute);
    let summary = if row.description.as_str().is_empty() { None } else { Some(row.description) };
    let (name, icon) = match index.get(&row.attribute) {
        Some(d) => {
            let name = match c_text_of(&d.name) {
                Some(n) => n,
                None => row.pname,
            };
            (name, first_icon_name_of(d))
        },
        None => (row.pname, None),
    };
    SearchItem {
        name,
        pkg: row.attribute.clone(),
        pname: row.attribute,
        summary,
        icon,
        installeduser,
        installedsystem,
    }
}

/// `q` occurs in `s`.
pub open spec fn contains_seq(s: Seq<char>, q: Seq<char>) -> bool {
    exists|i: int| 0 <= i <= s.len() - q.len() && has_prefix_at(s, i, q)
}

/// `s` without the occurrences of `q` found from position `i` on, left to
/// right (`str::replace(q, "")`).
pub open spec fn remove_all_from(s: Seq<char>, q: Seq<char>, i: int) -> Seq<char>
    decreases s.len() - i,
{
    if i < 0 || i >= s.len() {
        Seq::empty()
    } else if q.len() > 0 && has_prefix_at(s, i, q) {
        remove_all_from(s, q, i + q.len())
    } else {
        seq![s[i]] + remove_all_from(s, q, i + 1)
    }
}

fn contains_chars(s: &Vec<char>, q: &Vec<char>) -> (r: bool)
    ensures
        r == contains_seq(s@, q@),
{
    if q.len() > s.len() {
        return false;
    }
    let n = s.len() - q.len();
    let mut i: usize = 0;
    while i < n
        invariant
            n == s.len() - q.len(),
            i <= n,
            forall|k: int| 0 <= k < i ==> !has_prefix_at(s@, k, q@),
        decreases n - i,
    {
        if matches_at(s, i, q) {
            return true;
        }
        i = i + 1;
    }
    matches_at(s, n, q)
}

fn remove_all_chars(s: &Vec<char>, q: &Vec<char>) -> (r: Vec<char>)
    ensures
        r@ == remove_all_from(s@, q@, 0),
{
    let mut out: Vec<char> = Vec::new();
    let mut i: usize = 0;
    while i < s.len()
        invariant
            i <= s.len(),
            remove_all_from(s@, q@, 0) == out@ + remove_all_from(s@, q@, i as int),
        decreases s.len() - i,
    {
        if q.len() > 0 && matches_at(s, i, q) {
            i = i + q.len();
        } else {
            let ghost before = out@;
            out.push(s[i]);
            assert(before + (seq![s@[i as int]] + remove_all_from(s@, q@, i + 1)) =~= out@ + remove_all_from(s@, q@, i + 1));
            i = i + 1;
        }
    }
    assert(out@ + remove_all_from(s@, q@, i as int) =~= out@);
    out
}

/// What remains of `base` after each term: a term found in it is removed
/// everywhere, a term not found is appended.
pub open spec fn rank_rest(base: Seq<char>, terms: Seq<Seq<char>>) -> Seq<char>
    decreases terms.len(),
{
    if terms.len() == 0 {
        base
    } else {
        let prev = rank_rest(base, terms.drop_last());
        let q = terms.last();
        if contains_seq(prev, q) {
            remove_all_from(prev, q, 0)
        } else {
            prev + q
        }
    }
}

/// The lowercase form of a text (`str::to_lowercase`).
pub uninterp spec fn lowercase_of(s: Seq<char>) -> Seq<char>;

/// `str::to_lowercase`.
#[verifier::external_body]
pub(crate) fn to_lowercase(s: &str) -> (r: String)
    ensures
        r@ == lowercase_of(s@),
{
    s.to_lowercase()
}

/// The rank of a result for the lowercased terms: the bytes left of its
/// lowercased name and attribute after the terms, plus five for packages
/// without AppStream data. Lower ranks come first.
pub open spec fn spec_rank(item: SearchItemView, lower_terms: Seq<Seq<char>>, has_appdata: bool) -> int {
    byte_len(rank_rest(lowercase_of(item.name) + lowercase_of(item.pkg), lower_terms)) + 5 - (if has_appdata { 5int } else { 0int })
}

proof fn lemma_byte_len_concat(a: Seq<char>, b: Seq<char>)
    ensures
        byte_len(a + b) == byte_len(a) + byte_len(b),
    decreases b.len(),
{
    if b.len() == 0 {
        assert(a + b =~= a);
    } else {
        lemma_byte_len_concat(a, b.drop_last());
        assert((a + b).drop_last() =~= a + b.drop_last());
    }
}

proof fn lemma_byte_len_split(s: Seq<char>, i: int, k: int)
    requires
        0 <= i <= k <= s.len(),
    ensures
        byte_len(s.subrange(i, s.len() as int)) == byte_len(s.subrange(i, k)) + byte_len(s.subrange(k, s.len() as int)),
{
    assert(s.subrange(i, s.len() as int) =~= s.subrange(i, k) + s.subrange(k, s.len() as int));
    lemma_byte_len_concat(s.subrange(i, k), s.subrange(k, s.len() as int));
}

proof fn lemma_remove_all_shrinks(s: Seq<char>, q: Seq<char>, i: int)
    requires
        0 <= i <= s.len(),
    ensures
        byte_len(remove_all_from(s, q, i)) <= byte_len(s.subrange(i, s.len() as int)),
    decreases s.len() - i,
{
    if i < s.len() {
        if q.len() > 0 && has_prefix_at(s, i, q) {
            lemma_remove_all_shrinks(s, q, i + q.len());
            lemma_byte_len_split(s, i, i + q.len());
        } else {
            lemma_remove_all_shrinks(s, q, i + 1);
            lemma_byte_len_split(s, i, i + 1);
            assert(s.subrange(i, i + 1) =~= seq![s[i]]);
            lemma_byte_len_concat(seq![s[i]], remove_all_from(s, q, i + 1));
            assert(byte_len(seq![s[i]]) == utf8_width(s[i])) by {
                assert(seq![s[i]].drop_last() =~= Seq::<char>::empty());
                assert(byte_len(Seq::<char>::empty()) == 0);
                assert(seq![s[i]].last() == s[i]);
            }
        }
    }
}

proof fn lemma_remove_found(s: Seq<char>, q: Seq<char>, i: int, j: int)
    requires
        0 <= i <= j,
        q.len() > 0,
        has_prefix_at(s, j, q),
    ensures
        byte_len(remove_all_from(s, q, i)) + byte_len(q) <= byte_len(s.subrange(i, s.len() as int)),
    decreases s.len() - i,
{
    if has_prefix_at(s, i, q) {
        lemma_remove_all_shrinks(s, q, i + q.len());
        lemma_byte_len_split(s, i, i + q.len());
    } else {
        assert(i < j);
        lemma_remove_found(s, q, i + 1, j);
        lemma_byte_len_split(s, i, i + 1);
        assert(s.subrange(i, i + 1) =~= seq![s[i]]);
        lemma_byte_len_concat(seq![s[i]], remove_all_from(s, q, i + 1));
        assert(byte_len(seq![s[i]]) == utf8_width(s[i])) by {
            assert(seq![s[i]].drop_last() =~= Seq::<char>::empty());
            assert(byte_len(Seq::<char>::empty()) == 0);
            assert(seq![s[i]].last() == s[i]);
        }
    }
}

/// The text a result is ranked by: its lowercased name and attribute.
pub open spec fn rank_base(item: SearchItemView) -> Seq<char> {
    lowercase_of(item.name) + lowercase_of(item.pkg)
}

/// A search term that the result's remaining text does not contain counts
/// against it with all its bytes: the rank grows by the term's length.
pub proof fn law_missing_term_counts_its_length(item: SearchItemView, terms: Seq<Seq<char>>, q: Seq<char>, has_appdata: bool)
    requires
        !contains_seq(rank_rest(rank_base(item), terms), q),
    ensures
        spec_rank(item, terms.push(q), has_appdata) == spec_rank(item, terms, has_appdata) + byte_len(q),
{
    assert(terms.push(q).drop_last() =~= terms);
    lemma_byte_len_concat(rank_rest(rank_base(item), terms), q);
}

/// A search term that the result's remaining text contains is taken out of
/// it: the rank drops by at least the term's length.
pub proof fn law_found_term_lowers_rank(item: SearchItemView, terms: Seq<Seq<char>>, q: Seq<char>, has_appdata: bool)
    requires
        contains_seq(rank_rest(rank_base(item), terms), q),
    ensures
        spec_rank(item, terms.push(q), has_appdata) + byte_len(q) <= spec_rank(item, terms, has_appdata),
{
    let prev = rank_rest(rank_base(item), terms);
    assert(terms.push(q).drop_last() =~= terms);
    assert(prev.subrange(0, prev.len() as int) =~= prev);
    if q.len() > 0 {
        let j = choose|j: int| 0 <= j <= prev.len() - q.len() && has_prefix_at(prev, j, q);
        lemma_remove_found(prev, q, 0, j);
    } else {
        assert(remove_all_from(prev, q, 0) == prev) by {
            lemma_remove_empty(prev, q, 0);
            assert(prev.subrange(0, prev.len() as int) =~= prev);
        }
    }
}

proof fn lemma_remove_empty(s: Seq<char>, q: Seq<char>, i: int)
    requires
        q.len() == 0,
        0 <= i <= s.len(),
    ensures
        remove_all_from(s, q, i) == s.subrange(i, s.len() as int),
    decreases s.len() - i,
{
    if i < s.len() {
        lemma_remove_empty(s, q, i + 1);
        assert(s.subrange(i, s.len() as int) =~= seq![s[i]] + s.subrange(i + 1, s.len() as int));
    } else {
        assert(s.subrange(i, s.len() as int) =~= Seq::<char>::empty());
    }
}

/// AppStream data counts five in a result's favour, whatever the terms.
pub proof fn law_appdata_ranks_five_better(item: SearchItemView, terms: Seq<Seq<char>>)
    ensures
        spec_rank(item, terms, false) == spec_rank(item, terms, true) + 5,
        spec_rank(item, terms, true) >= 0,
{
}

/// Without terms a result ranks by the bytes of its lowercased name and
/// attribute, and five more without AppStream data.
pub proof fn law_rank_without_terms(item: SearchItemView, has_appdata: bool)
    ensures
        spec_rank(item, Seq::empty(), has_appdata)
            == byte_len(lowercase_of(item.name)) + byte_len(lowercase_of(item.pkg)) + (if has_appdata { 0int } else { 5int }),
{
    lemma_byte_len_concat(lowercase_of(item.name), lowercase_of(item.pkg));
}

/// With one search term that the lowercased name and attribute do not
/// contain, the rank is the bytes of both plus those of the term, and five
/// more without AppStream data.
pub proof fn law_single_missing_term(item: SearchItemView, q: Seq<char>, has_appdata: bool)
    requires
        !contains_seq(rank_base(item), q),
    ensures
        spec_rank(item, seq![q], has_appdata)
            == byte_len(lowercase_of(item.name)) + byte_len(lowercase_of(item.pkg)) + byte_len(q) + (if has_appdata { 0int } else { 5int }),
{
    assert(seq![q].drop_last() =~= Seq::<Seq<char>>::empty());
    assert(rank_rest(rank_base(item), Seq::<Seq<char>>::empty()) == rank_base(item));
    assert(seq![q].last() == q);
    lemma_byte_len_concat(rank_base(item), q);
    lemma_byte_len_concat(lowercase_of(item.name), lowercase_of(item.pkg));
}

fn rank(item: &SearchItem, lower_terms: &Vec<Vec<char>>, index: &AppStreamIndex) -> (r: u128)
    ensures
        r as int == spec_rank(item@, lower_terms@.map_values(|t: Vec<char>| t@), index@.contains_key(item.pkg@)),
{
    let ghost terms = lower_terms@.map_values(|t: Vec<char>| t@);
    let name = to_lowercase(item.name.as_str());
    let pkg = to_lowercase(item.pkg.as_str());
    let mut left: Vec<char> = chars_of(name.as_str());
    let p = chars_of(pkg.as_str());
    let mut k: usize = 0;
    while k < p.len()
        invariant
            k <= p.len(),
            left@ == name@ + p@.take(k as int),
        decreases p.len() - k,
    {
        left.push(p[k]);
        assert(left@ =~= name@ + p@.take(k + 1));
        k = k + 1;
    }
    assert(p@.take(p.len() as int) =~= p@);
    let mut i: usize = 0;
    while i < lower_terms.len()
        invariant
            i <= lower_terms.len(),
            terms == lower_terms@.map_values(|t: Vec<char>| t@),
            left@ == rank_rest(name@ + pkg@, terms.take(i as int)),
        decreases lower_terms.len() - i,
    {
        assert(terms.take(i + 1).drop_last() =~= terms.take(i as int));
        let q = &lower_terms[i];
        if contains_chars(&left, q) {
            left = remove_all_chars(&left, q);
        } else {
            let mut j: usize = 0;
            let ghost before = left@;
            while j < q.len()
                invariant
                    j <= q.len(),
                    left@ == before + q@.take(j as int),
                decreases q.len() - j,
            {
                left.push(q[j]);
                assert(left@ =~= before + q@.take(j + 1));
                j = j + 1;
            }
            assert(q@.take(q.len() as int) =~= q@);
        }
        i = i + 1;
    }
    assert(terms.take(lower_terms.len() as int) =~= terms);
    let n = utf8_len(&left);
    if index.contains_key(&item.pkg) {
        n
    } else {
        n + 5
    }
}

/// `a` comes before `b` when ordered by key, and by position among equal keys.
pub open spec fn key_before(keys: Seq<int>, a: int, b: int) -> bool {
    keys[a] < keys[b] || (keys[a] == keys[b] && a < b)
}

/// `perm` lists positions of `keys`, each below `n`, in strictly increasing
/// order of key and position: a stable sort of `0..n` by key.
pub open spec fn stable_order(keys: Seq<int>, perm: Seq<int>, n: int) -> bool {
    &&& forall|i: int| 0 <= i < perm.len() ==> 0 <= #[trigger] perm[i] < n
    &&& forall|i: int, j: int| 0 <= i < j < perm.len() ==> key_before(keys, #[trigger] perm[i], #[trigger] perm[j])
}

/// The positions of `keys` sorted stably by key (`slice::sort_by` compares
/// keys, and equal keys keep their order).
pub fn stable_sort_positions(keys: &Vec<u128>) -> (perm: Vec<usize>)
    ensures
        perm.len() == keys.len(),
        stable_order(keys@.map_values(|k: u128| k as int), perm@.map_values(|i: usize| i as int), keys.len() as int),
{
    let ghost ks = keys@.map_values(|k: u128| k as int);
    let mut perm: Vec<usize> = Vec::new();
    let mut i: usize = 0;
    while i < keys.len()
        invariant
            i <= keys.len(),
            ks == keys@.map_values(|k: u128| k as int),
            perm.len() == i,
            forall|j: int| 0 <= j < perm.len() ==> (#[trigger] perm@[j]) < i,
            stable_order(ks, perm@.map_values(|x: usize| x as int), i as int),
        decreases keys.len() - i,
    {
        let ghost old_perm = perm@.map_values(|x: usize| x as int);
        let mut p: usize = 0;
        while p < perm.len() && keys[perm[p]] <= keys[i]
            invariant
                p <= perm.len(),
                perm.len() == i,
                forall|j: int| 0 <= j < perm.len() ==> (#[trigger] perm@[j]) < i,
                i < keys.len(),
                ks == keys@.map_values(|k: u128| k as int),
                old_perm == perm@.map_values(|x: usize| x as int),
                stable_order(ks, old_perm, i as int),
                forall|j: int| 0 <= j < p ==> ks[#[trigger] old_perm[j]] <= ks[i as int],
            decreases perm.len() - p,
        {
            p = p + 1;
        }
        proof {
            assert forall|j: int| p <= j < old_perm.len() implies ks[#[trigger] old_perm[j]] > ks[i as int] by {
                if j > p {
                    assert(key_before(ks, old_perm[p as int], old_perm[j]));
                }
            }
        }
        perm.insert(p, i);
        proof {
            let np = perm@.map_values(|x: usize| x as int);
            assert(np =~= old_perm.insert(p as int, i as int));
            assert forall|j: int| 0 <= j < perm.len() implies (#[trigger] perm@[j]) < i + 1 by {
                assert(np[j] == perm@[j] as int);
            }
            assert forall|a: int, b: int| 0 <= a < b < np.len() implies key_before(ks, #[trigger] np[a], #[trigger] np[b]) by {
                if b < p {
                    assert(np[a] == old_perm[a] && np[b] == old_perm[b]);
                } else if b == p {
                    assert(np[a] == old_perm[a]);
                } else if a < p {
                    assert(np[a] == old_perm[a] && np[b] == old_perm[b - 1]);
                    assert(key_before(ks, old_perm[a], old_perm[b - 1]));
                } else if a == p {
                    assert(np[b] == old_perm[b - 1]);
                } else {
                    assert(np[a] == old_perm[a - 1] && np[b] == old_perm[b - 1]);
                    assert(key_before(ks, old_perm[a - 1], old_perm[b - 1]));
                }
            }
        }
        i = i + 1;
    }
    perm
}

/// The views of result rows.
pub open spec fn items_view(v: Seq<SearchItem>) -> Seq<SearchItemView> {
    v.map_values(|i: SearchItem| i@)
}

/// Each term lowercased.
pub open spec fn lowered(terms: Seq<Seq<char>>) -> Seq<Seq<char>> {
    terms.map_values(|t: Seq<char>| lowercase_of(t))
}

/// The rank of each row for the terms of a query.
pub open spec fn result_keys(items: Seq<SearchItemView>, text: Seq<char>, index: Map<Seq<char>, AppData>) -> Seq<int> {
    Seq::new(items.len(), |k: int| spec_rank(items[k], lowered(spec_search_terms(text)), index.contains_key(items[k].pkg)))
}

/// `out` holds the rows of `inp` sorted stably by `keys`.
pub open spec fn stably_sorted(out: Seq<SearchItemView>, inp: Seq<SearchItemView>, keys: Seq<int>) -> bool {
    exists|perm: Seq<int>| {
        &&& perm.len() == inp.len()
        &&& out.len() == inp.len()
        &&& stable_order(keys, perm, inp.len() as int)
        &&& forall|i: int| 0 <= i < out.len() ==> #[trigger] out[i] == inp[perm[i]]
    }
}

/// A copy of a result row.
pub fn copy_search_item(i: &SearchItem) -> (r: SearchItem)
    ensures
        r@ == i@,
{
    SearchItem {
        name: i.name.clone(),
        pkg: i.pkg.clone(),
        pname: i.pname.clone(),
        summary: clone_opt_string(&i.summary),
        icon: clone_opt_string(&i.icon),
        installeduser: i.installeduser,
        installedsystem: i.installedsystem,
    }
}

/// The lowercased characters of each term.
fn lowered_terms(terms: &Vec<String>) -> (r: Vec<Vec<char>>)
    ensures
        r@.map_values(|t: Vec<char>| t@) == lowered(strings_view(terms@)),
{
    let mut r: Vec<Vec<char>> = Vec::new();
    let mut i: usize = 0;
    while i < terms.len()
        invariant
            i <= terms.len(),
            r@.map_values(|t: Vec<char>| t@) == lowered(strings_view(terms@)).take(i as int),
        decreases terms.len() - i,
    {
        let l = to_lowercase(terms[i].as_str());
        let c = chars_of(l.as_str());
        assert(strings_view(terms@)[i as int] == terms@[i as int]@);
        assert(c@ == lowered(strings_view(terms@))[i as int]);
        let ghost before = r@.map_values(|t: Vec<char>| t@);
        r.push(c);
        assert(r@.map_values(|t: Vec<char>| t@) =~= before.push(c@));
        assert(r@.map_values(|t: Vec<char>| t@) =~= lowered(strings_view(terms@)).take(i + 1));
        i = i + 1;
    }
    assert(lowered(strings_view(terms@)).take(terms.len() as int) =~= lowered(strings_view(terms@)));
    r
}

/// Orders result rows for a query: by rank, and among equal ranks as they came.
pub fn rank_results(items: Vec<SearchItem>, text: &str, index: &AppStreamIndex) -> (r: Vec<SearchItem>)
    ensures
        stably_sorted(items_view(r@), items_view(items@), result_keys(items_view(items@), text@, index@)),
{
    let ghost iv = items_view(items@);
    let ghost keys_spec = result_keys(iv, text@, index@);
    let terms = search_terms(text);
    let lterms = lowered_terms(&terms);
    let mut keys: Vec<u128> = Vec::new();
    let mut k: usize = 0;
    while k < items.len()
        invariant
            k <= items.len(),
            iv == items_view(items@),
            keys_spec == result_keys(iv, text@, index@),
            lterms@.map_values(|t: Vec<char>| t@) == lowered(spec_search_terms(text@)),
            keys.len() == k,
            forall|j: int| 0 <= j < k ==> (#[trigger] keys@[j]) as int == keys_spec[j],
        decreases items.len() - k,
    {
        let key = rank(&items[k], &lterms, index);
        keys.push(key);
        k = k + 1;
    }
    let perm = stable_sort_positions(&keys);
    assert(keys@.map_values(|x: u128| x as int) =~= keys_spec);
    let ghost pv = perm@.map_values(|x: usize| x as int);
    let mut out: Vec<SearchItem> = Vec::new();
    let mut i: usize = 0;
    while i < perm.len()
        invariant
            i <= perm.len(),
            perm.len() == items.len(),
            iv == items_view(items@),
            pv == perm@.map_values(|x: usize| x as int),
            stable_order(keys_spec, pv, items.len() as int),
            out.len() == i,
            forall|j: int| 0 <= j < i ==> #[trigger] items_view(out@)[j] == iv[pv[j]],
        decreases perm.len() - i,
    {
        assert(0 <= pv[i as int] < items.len());
        let c = copy_search_item(&items[perm[i]]);
        assert(iv[pv[i as int]] == items@[perm@[i as int] as int]@);
        let ghost before = out@;
        out.push(c);
        assert forall|j: int| 0 <= j < i + 1 implies #[trigger] items_view(out@)[j] == iv[pv[j]] by {
            assert(items_view(out@)[j] == out@[j]@);
            if j < i {
                assert(out@[j] == before[j]);
                assert(items_view(before)[j] == before[j]@);
            }
        }
        i = i + 1;
    }
    assert(items_view(out@).len() == iv.len());
    assert(pv.len() == iv.len());
    assert(forall|j: int| 0 <= j < items_view(out@).len() ==> #[trigger] items_view(out@)[j] == iv[pv[j]]);
    out
}

/// The result rows of a query: at most the first two hundred database rows,
/// each made a result row, ordered by rank.
pub open spec fn rows_items(rows: Seq<SearchRow>, index: Map<Seq<char>, AppData>, user: Set<Seq<char>>, system: Set<Seq<char>>) -> Seq<SearchItemView> {
    let n = if rows.len() < 200 { rows.len() } else { 200 };
    Seq::new(n, |k: int| search_item_of(rows[k], index, user, system))
}

fn copy_row(r: &SearchRow) -> (c: SearchRow)
    ensures
        c == *r,
{
    SearchRow {
        attribute: r.attribute.clone(),
        pname: r.pname.clone(),
        description: r.description.clone(),
        version: r.version.clone(),
    }
}

/// The results of a query from the rows the package database found. A
/// query without a search term makes no valid database query, so it has no
/// results.
pub fn search_results(rows: &Vec<SearchRow>, text: &str, index: &AppStreamIndex, user: &Vec<String>, system: &Vec<String>) -> (r: Vec<SearchItem>)
    ensures
        spec_search_terms(text@).len() == 0 ==> r@.len() == 0,
        spec_search_terms(text@).len() > 0 ==> stably_sorted(
            items_view(r@),
            rows_items(rows@, index@, str_set(user@), str_set(system@)),
            result_keys(rows_items(rows@, index@, str_set(user@), str_set(system@)), text@, index@),
        ),
{
    let terms = search_terms(text);
    if terms.len() == 0 {
        return Vec::new();
    }
    let ghost want = rows_items(rows@, index@, str_set(user@), str_set(system@));
    let n: usize = if rows.len() < 200 { rows.len() } else { 200 };
    let mut items: Vec<SearchItem> = Vec::new();
    let mut k: usize = 0;
    while k < n
        invariant
            k <= n,
            n <= rows.len(),
            n == want.len(),
            want == rows_items(rows@, index@, str_set(user@), str_set(system@)),
            items_view(items@) == want.take(k as int),
        decreases n - k,
    {
        let it = search_item(copy_row(&rows[k]), index, user, system);
        let ghost before = items_view(items@);
        items.push(it);
        assert(items_view(items@) =~= before.push(it@));
        assert(items_view(items@) =~= want.take(k + 1));
        k = k + 1;
    }
    assert(want.take(n as int) =~= want);
    rank_results(items, text, index)
}

/// The state of the search page.
pub struct SearchPageModel {
    pub system_packages_type: SystemPkgs,
    pub installed_system_packages: Vec<String>,
    pub installed_user_packages: Vec<String>,
    pub search_text: String,
    pub searching: bool,
    pub search_results: Vec<SearchItemModel>,
    pub package_page: Option<String>,
}

/// The messages of the search page.
pub enum SearchPageMsg {
    Search(String),
    UpdateInstalledPackages { system_packages: Vec<InstalledItem>, user_packages: Vec<InstalledItem> },
    OpenRow(usize),
    OpenPackage(String),
}

/// The answer of a search run in the background: the query and its results.
pub enum SearchPageAsyncMessage {
    SetResults(String, Vec<SearchItem>),
}

/// What the search page asks for.
pub enum SearchPageEffect {
    /// Run the query in the background with the installed packages of the
    /// system and of the user, then answer with `SetResults`.
    RunSearch { text: String, system: Vec<String>, user: Vec<String> },
    /// Open the package page of this package (sent back to the page).
    OpenPackage(String),
    /// Show the package page of this package.
    ShowPackage(String, SystemPkgs),
}

/// The views of shown search rows.
pub open spec fn results_view(v: Seq<SearchItemModel>) -> Seq<SearchItemView> {
    v.map_values(|m: SearchItemModel| m.item@)
}

/// A search row as shown: its summary on one line.
pub open spec fn shown_result(i: SearchItemView) -> SearchItemView {
    SearchItemView {
        summary: match i.summary {
            Some(s) => Some(spec_normalize_summary(s)),
            None => None,
        },
        ..i
    }
}

/// The rows after the installed packages change: the marks follow the new
/// sets.
pub open spec fn remarked(rows: Seq<SearchItemView>, system: Set<Seq<char>>, user: Set<Seq<char>>) -> Seq<SearchItemView> {
    Seq::new(rows.len(), |k: int| SearchItemView { installedsystem: system.contains(rows[k].pkg), installeduser: user.contains(rows[k].pkg), ..rows[k] })
}

/// The packages of installed rows.
pub open spec fn pkgs_of(v: Seq<InstalledItem>) -> Seq<Seq<char>> {
    v.map_values(|i: InstalledItem| i.pkg@)
}

/// The set of the views of strings is the set of the sequence of views.
proof fn lemma_str_set_is_to_set(v: Seq<String>)
    ensures
        str_set(v) == strings_view(v).to_set(),
{
    assert forall|x: Seq<char>| str_set(v).contains(x) <==> strings_view(v).to_set().contains(x) by {
        if str_set(v).contains(x) {
            let k = choose|k: int| 0 <= k < v.len() && (#[trigger] v[k])@ == x;
            assert(strings_view(v)[k] == x);
        }
        if strings_view(v).to_set().contains(x) {
            let k = choose|k: int| 0 <= k < strings_view(v).len() && strings_view(v)[k] == x;
            assert(v[k]@ == x);
        }
    }
    assert(str_set(v) =~= strings_view(v).to_set());
}

pub(crate) fn pkgs_of_items(v: &Vec<InstalledItem>) -> (r: Vec<String>)
    ensures
        strings_view(r@) == pkgs_of(v@),
        str_set(r@) == pkgs_of(v@).to_set(),
{
    let mut r: Vec<String> = Vec::new();
    let mut i: usize = 0;
    while i < v.len()
        invariant
            i <= v.len(),
            strings_view(r@) == pkgs_of(v@).take(i as int),
        decreases v.len() - i,
    {
        let ghost before = strings_view(r@);
        r.push(v[i].pkg.clone());
        assert(strings_view(r@) =~= before.push(v@[i as int].pkg@));
        assert(strings_view(r@) =~= pkgs_of(v@).take(i + 1));
        i = i + 1;
    }
    assert(pkgs_of(v@).take(v.len() as int) =~= pkgs_of(v@));
    proof {
        lemma_str_set_is_to_set(r@);
    }
    r
}

impl SearchPageModel {
    /// An empty search page.
    pub fn new(system_packages_type: SystemPkgs, system: Vec<String>, user: Vec<String>) -> (r: SearchPageModel)
        ensures
            r.system_packages_type == system_packages_type,
            r.installed_system_packages@ == system@,
            r.installed_user_packages@ == user@,
            r.search_text@ == Seq::<char>::empty(),
            !r.searching,
            r.search_results.len() == 0,
            r.package_page is None,
    {
        SearchPageModel {
            system_packages_type,
            installed_system_packages: system,
            installed_user_packages: user,
            search_text: String::new(),
            searching: false,
            search_results: Vec::new(),
            package_page: None,
        }
    }

    /// Handles a message of the search page. A query shorter than two bytes
    /// clears the page; a longer one starts a search.
    pub fn update(&mut self, msg: SearchPageMsg) -> (r: Option<SearchPageEffect>)
        ensures
            final(self).system_packages_type == old(self).system_packages_type,
            match msg {
                SearchPageMsg::Search(text) => if byte_len(text@) < 2 {
                    &&& !final(self).searching
                    &&& final(self).search_text@ == Seq::<char>::empty()
                    &&& final(self).search_results.len() == 0
                    &&& final(self).installed_system_packages@ == old(self).installed_system_packages@
                    &&& final(self).installed_user_packages@ == old(self).installed_user_packages@
                    &&& final(self).package_page == old(self).package_page
                    &&& r is None
                } else {
                    &&& final(self).searching
                    &&& final(self).search_text@ == text@
                    &&& results_view(final(self).search_results@) == results_view(old(self).search_results@)
                    &&& final(self).installed_system_packages@ == old(self).installed_system_packages@
                    &&& final(self).installed_user_packages@ == old(self).installed_user_packages@
                    &&& final(self).package_page == old(self).package_page
                    &&& r matches Some(SearchPageEffect::RunSearch { text: t, system, user })
                    &&& t@ == text@
                    &&& system@ == old(self).installed_system_packages@
                    &&& user@ == old(self).installed_user_packages@
                },
                SearchPageMsg::UpdateInstalledPackages { system_packages, user_packages } => {
                    &&& strings_view(final(self).installed_system_packages@) == pkgs_of(system_packages@)
                    &&& strings_view(final(self).installed_user_packages@) == pkgs_of(user_packages@)
                    &&& results_view(final(self).search_results@) == remarked(
                        results_view(old(self).search_results@),
                        str_set(final(self).installed_system_packages@),
                        str_set(final(self).installed_user_packages@),
                    )
                    &&& final(self).search_text == old(self).search_text
                    &&& final(self).searching == old(self).searching
                    &&& final(self).package_page == old(self).package_page
                    &&& r is None
                },
                SearchPageMsg::OpenRow(row) => {
                    &&& results_view(final(self).search_results@) == results_view(old(self).search_results@)
                    &&& final(self).search_text == old(self).search_text
                    &&& final(self).searching == old(self).searching
                    &&& final(self).installed_system_packages@ == old(self).installed_system_packages@
                    &&& final(self).installed_user_packages@ == old(self).installed_user_packages@
                    &&& final(self).package_page == old(self).package_page
                    &&& if row < old(self).search_results.len() {
                        r matches Some(SearchPageEffect::OpenPackage(p)) && p@ == results_view(old(self).search_results@)[row as int].pkg
                    } else {
                        r is None
                    }
                },
                SearchPageMsg::OpenPackage(p) => {
                    &&& final(self).package_page == Some(p)
                    &&& results_view(final(self).search_results@) == results_view(old(self).search_results@)
                    &&& final(self).search_text == old(self).search_text
                    &&& final(self).searching == old(self).searching
                    &&& final(self).installed_system_packages@ == old(self).installed_system_packages@
                    &&& final(self).installed_user_packages@ == old(self).installed_user_packages@
                    &&& r matches Some(SearchPageEffect::ShowPackage(q, t)) && q == p && t == old(self).system_packages_type
                },
            },
    {
        match msg {
            SearchPageMsg::Search(text) => {
                let v = chars_of(text.as_str());
                let n = utf8_len(&v);
                if n < 2 {
                    self.searching = false;
                    self.search_text = String::new();
                    self.search_results = Vec::new();
                    None
                } else {
                    self.searching = true;
                    let t = text.clone();
                    self.search_text = text;
                    Some(SearchPageEffect::RunSearch {
                        text: t,
                        system: clone_strings(&self.installed_system_packages),
                        user: clone_strings(&self.installed_user_packages),
                    })
                }
            },
            SearchPageMsg::UpdateInstalledPackages { system_packages, user_packages } => {
                self.installed_system_packages = pkgs_of_items(&system_packages);
                self.installed_user_packages = pkgs_of_items(&user_packages);
                let ghost old_rows = results_view(self.search_results@);
                let ghost sys = self.installed_system_packages@;
                let ghost usr = self.installed_user_packages@;
                let mut i: usize = 0;
                while i < self.search_results.len()
                    invariant
                        i <= self.search_results.len(),
                        self.system_packages_type == old(self).system_packages_type,
                        self.search_text == old(self).search_text,
                        self.searching == old(self).searching,
                        self.package_page == old(self).package_page,
                        self.installed_system_packages@ == sys,
                        self.installed_user_packages@ == usr,
                        old_rows.len() == self.search_results.len(),
                        forall|k: int| 0 <= k < i ==> #[trigger] results_view(self.search_results@)[k] == remarked(old_rows, str_set(self.installed_system_packages@), str_set(self.installed_user_packages@))[k],
                        forall|k: int| i <= k < self.search_results.len() ==> #[trigger] results_view(self.search_results@)[k] == old_rows[k],
                    decreases self.search_results.len() - i,
                {
                    let ghost before = self.search_results@;
                    assert(results_view(before)[i as int] == before[i as int].item@);
                    let s = str_set_contains(&self.installed_system_packages, &self.search_results[i].item.pkg);
                    let u = str_set_contains(&self.installed_user_packages, &self.search_results[i].item.pkg);
                    self.search_results[i].item.installedsystem = s;
                    self.search_results[i].item.installeduser = u;
                    assert forall|k: int| 0 <= k < self.search_results.len() && k != i implies #[trigger] results_view(self.search_results@)[k] == results_view(before)[k] by {
                        assert(self.search_results@[k] == before[k]);
                    }
                    assert(results_view(self.search_results@)[i as int] == self.search_results@[i as int].item@);
                    i = i + 1;
                }
                assert(results_view(self.search_results@) =~= remarked(old_rows, str_set(self.installed_system_packages@), str_set(self.installed_user_packages@)));
                None
            },
            SearchPageMsg::OpenRow(row) => {
                if row < self.search_results.len() {
                    assert(results_view(self.search_results@)[row as int] == self.search_results@[row as int].item@);
                    Some(SearchPageEffect::OpenPackage(self.search_results[row].item.pkg.clone()))
                } else {
                    None
                }
            },
            SearchPageMsg::OpenPackage(p) => {
                let shown = p.clone();
                self.package_page = Some(p);
                Some(SearchPageEffect::ShowPackage(shown, self.system_packages_type))
            },
        }
    }

    /// Takes the results of a background search: they replace the rows, each
    /// shown with its summary on one line, only if they answer the current
    /// query.
    pub fn update_cmd(&mut self, msg: SearchPageAsyncMessage)
        ensures
            final(self).system_packages_type == old(self).system_packages_type,
            final(self).installed_system_packages@ == old(self).installed_system_packages@,
            final(self).installed_user_packages@ == old(self).installed_user_packages@,
            final(self).search_text == old(self).search_text,
            final(self).package_page == old(self).package_page,
            match msg {
                SearchPageAsyncMessage::SetResults(text, items) => if text@ == old(self).search_text@ {
                    &&& results_view(final(self).search_results@) == Seq::new(items.len() as nat, |k: int| shown_result(items@[k]@))
                    &&& !final(self).searching
                } else {
                    &&& results_view(final(self).search_results@) == results_view(old(self).search_results@)
                    &&& final(self).searching == old(self).searching
                },
            },
    {
        match msg {
            SearchPageAsyncMessage::SetResults(text, items) => {
                if text == self.search_text {
                    let ghost want = Seq::new(items.len() as nat, |k: int| shown_result(items@[k]@));
                    let mut rows: Vec<SearchItemModel> = Vec::new();
                    let mut i: usize = 0;
                    while i < items.len()
                        invariant
                            i <= items.len(),
                            want == Seq::new(items.len() as nat, |k: int| shown_result(items@[k]@)),
                            results_view(rows@) == want.take(i as int),
                        decreases items.len() - i,
                    {
                        let m = SearchItemModel::init_model(copy_search_item(&items[i]));
                        let ghost before = results_view(rows@);
                        rows.push(m);
                        assert(results_view(rows@) =~= before.push(m.item@));
                        assert(m.item@ == shown_result(items@[i as int]@));
                        assert(results_view(rows@) =~= want.take(i + 1));
                        i = i + 1;
                    }
                    assert(want.take(items.len() as int) =~= want);
                    self.search_results = rows;
                    self.searching = false;
                }
            },
        }
    }
}

/// Ranking keeps every result exactly once and orders them by rank: a
/// stable order of `n` positions lists each position below `n` once, with
/// ranks never decreasing.
pub proof fn law_ranking_keeps_every_result(keys: Seq<int>, perm: Seq<int>, n: int)
    requires
        0 <= n,
        perm.len() == n,
        stable_order(keys, perm, n),
    ensures
        forall|i: int, j: int| 0 <= i < j < n ==> perm[i] != perm[j],
        forall|k: int| 0 <= k < n ==> perm.contains(k),
        forall|i: int, j: int| 0 <= i < j < n ==> keys[perm[i]] <= keys[perm[j]],
{
    assert forall|i: int, j: int| 0 <= i < j < n implies perm[i] != perm[j] && keys[perm[i]] <= keys[perm[j]] by {
        assert(key_before(keys, perm[i], perm[j]));
    }
    assert(perm.no_duplicates()) by {
        assert forall|i: int, j: int| 0 <= i < perm.len() && 0 <= j < perm.len() && i != j implies perm[i] != perm[j] by {
            if i < j {
                assert(key_before(keys, perm[i], perm[j]));
            } else {
                assert(key_before(keys, perm[j], perm[i]));
            }
        }
    }
    perm.unique_seq_to_set();
    vstd::set_lib::lemma_int_range(0, n);
    assert(perm.to_set().subset_of(vstd::set_lib::set_int_range(0, n))) by {
        assert forall|x: int| perm.to_set().contains(x) implies vstd::set_lib::set_int_range(0, n).contains(x) by {
            let i = choose|i: int| 0 <= i < perm.len() && perm[i] == x;
            assert(0 <= perm[i] < n);
        }
    }
    vstd::set_lib::lemma_len_subset(perm.to_set(), vstd::set_lib::set_int_range(0, n));
    vstd::set_lib::lemma_subset_equality(perm.to_set(), vstd::set_lib::set_int_range(0, n));
    assert forall|k: int| 0 <= k < n implies perm.contains(k) by {
        assert(vstd::set_lib::set_int_range(0, n).contains(k));
        assert(perm.to_set().contains(k));
    }
}

} // verus!
