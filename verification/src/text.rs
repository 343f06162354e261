//! Text normalisation: summaries, descriptions turned into Pango markup, and
//! the character-level helpers they are built from.

use vstd::prelude::*;

use crate::html_lead::{leads_with_comment, leads_with_comment_exec};

verus! {

/// The characters of `s`, one by one.
pub fn chars_of(s: &str) -> (v: Vec<char>)
    ensures
        v@ == s@,
{
    broadcast use vstd::string::axiom_spec_iter;

    let mut v: Vec<char> = Vec::new();
    for c in it: s.chars()
        invariant
            v@ == it.seq().take(it.index() as int),
            it.seq() == s@,
    {
        v.push(c);
    }
    v
}

/// The views of a sequence of strings.
pub open spec fn strings_view(v: Seq<String>) -> Seq<Seq<char>> {
    v.map_values(|s: String| s@)
}

/// `p` occurs in `s` at position `i`.
pub open spec fn has_prefix_at(s: Seq<char>, i: int, p: Seq<char>) -> bool {
    0 <= i && i + p.len() <= s.len() && s.subrange(i, i + p.len()) == p
}

pub fn matches_at(v: &Vec<char>, i: usize, p: &Vec<char>) -> (b: bool)
    ensures
        b == has_prefix_at(v@, i as int, p@),
{
    if i > v.len() || p.len() > v.len() - i {
        return false;
    }
    let mut k: usize = 0;
    while k < p.len()
        invariant
            k <= p.len(),
            i + p.len() <= v.len(),
            forall|m: int| 0 <= m < k ==> v@[i + m] == p@[m],
        decreases p.len() - k,
    {
        if v[i + k] != p[k] {
            assert(v@.subrange(i as int, i + p.len())[k as int] != p@[k as int]);
            return false;
        }
        k = k + 1;
    }
    assert(v@.subrange(i as int, i + p.len()) =~= p@);
    true
}

/// `String::push`: the string with one more character at its end.
#[verifier::external_body]
fn push_char(s: &mut String, c: char)
    ensures
        final(s)@ == old(s)@.push(c),
{
    s.push(c);
}

/// The string made of the given characters.
pub fn string_from_chars(v: &[char]) -> (s: String)
    ensures
        s@ == v@,
{
    let mut s = String::new();
    let mut i: usize = 0;
    while i < v.len()
        invariant
            i <= v.len(),
            s@ == v@.take(i as int),
        decreases v.len() - i,
    {
        push_char(&mut s, v[i]);
        assert(s@ =~= v@.take(i + 1));
        i = i + 1;
    }
    assert(v@.take(v.len() as int) =~= v@);
    s
}

/// A copy of the characters `v[a..b]`.
pub fn chars_range(v: &Vec<char>, a: usize, b: usize) -> (r: Vec<char>)
    requires
        a <= b <= v.len(),
    ensures
        r@ == v@.subrange(a as int, b as int),
{
    let mut r: Vec<char> = Vec::new();
    let mut i = a;
    while i < b
        invariant
            a <= i <= b <= v.len(),
            r@ == v@.subrange(a as int, i as int),
        decreases b - i,
    {
        r.push(v[i]);
        i = i + 1;
    }
    r
}

/// `char::is_whitespace`: the Unicode `White_Space` property.
pub open spec fn is_whitespace(c: char) -> bool {
    let u = c as u32;
    ||| 0x09 <= u <= 0x0d
    ||| u == 0x20
    ||| u == 0x85
    ||| u == 0xa0
    ||| u == 0x1680
    ||| 0x2000 <= u <= 0x200a
    ||| u == 0x2028
    ||| u == 0x2029
    ||| u == 0x202f
    ||| u == 0x205f
    ||| u == 0x3000
}

pub fn char_is_whitespace(c: char) -> (b: bool)
    ensures
        b == is_whitespace(c),
{
    let u = c as u32;
    (0x09 <= u && u <= 0x0d) || u == 0x20 || u == 0x85 || u == 0xa0 || u == 0x1680 || (0x2000
        <= u && u <= 0x200a) || u == 0x2028 || u == 0x2029 || u == 0x202f || u == 0x205f || u
        == 0x3000
}

/// Every occurrence of `from` replaced by `to`.
pub open spec fn replace_char(s: Seq<char>, from: char, to: char) -> Seq<char> {
    s.map_values(|c: char| if c == from { to } else { c })
}

/// Runs of spaces shortened to a single space.
pub open spec fn collapse_spaces(s: Seq<char>) -> Seq<char>
    decreases s.len(),
{
    if s.len() == 0 {
        s
    } else {
        let r = collapse_spaces(s.drop_last());
        if s.last() == ' ' && r.len() > 0 && r.last() == ' ' {
            r
        } else {
            r.push(s.last())
        }
    }
}

/// Spaces that follow a line break removed.
pub open spec fn drop_spaces_after_newline(s: Seq<char>) -> Seq<char>
    decreases s.len(),
{
    if s.len() == 0 {
        s
    } else {
        let r = drop_spaces_after_newline(s.drop_last());
        if s.last() == ' ' && r.len() > 0 && r.last() == '\n' {
            r
        } else {
            r.push(s.last())
        }
    }
}

/// Leading whitespace removed.
pub open spec fn trim_start(s: Seq<char>) -> Seq<char>
    decreases s.len(),
{
    if s.len() > 0 && is_whitespace(s[0]) {
        trim_start(s.drop_first())
    } else {
        s
    }
}

/// Trailing whitespace removed.
pub open spec fn trim_end(s: Seq<char>) -> Seq<char>
    decreases s.len(),
{
    if s.len() > 0 && is_whitespace(s.last()) {
        trim_end(s.drop_last())
    } else {
        s
    }
}

/// `str::trim`.
pub open spec fn trim(s: Seq<char>) -> Seq<char> {
    trim_end(trim_start(s))
}

/// Trailing line breaks removed.
pub open spec fn strip_trailing_newlines(s: Seq<char>) -> Seq<char>
    decreases s.len(),
{
    if s.len() > 0 && s.last() == '\n' {
        strip_trailing_newlines(s.drop_last())
    } else {
        s
    }
}

/// One leading line break removed.
pub open spec fn strip_leading_newline(s: Seq<char>) -> Seq<char> {
    if s.len() > 0 && s[0] == '\n' {
        s.drop_first()
    } else {
        s
    }
}

/// `s` holds `c` somewhere.
pub open spec fn has_char(s: Seq<char>, c: char) -> bool {
    exists|i: int| 0 <= i < s.len() && s[i] == c
}

/// `s` holds `a` directly followed by `b` somewhere.
pub open spec fn has_pair(s: Seq<char>, a: char, b: char) -> bool {
    exists|i: int| 0 <= i < s.len() - 1 && #[trigger] s[i] == a && s[i + 1] == b
}

pub fn replace_char_exec(v: &Vec<char>, from: char, to: char) -> (r: Vec<char>)
    ensures
        r@ == replace_char(v@, from, to),
{
    let mut r: Vec<char> = Vec::new();
    let mut i: usize = 0;
    while i < v.len()
        invariant
            i <= v.len(),
            r@ == replace_char(v@.take(i as int), from, to),
        decreases v.len() - i,
    {
        let c = v[i];
        r.push(if c == from { to } else { c });
        assert(replace_char(v@.take(i + 1), from, to) =~= replace_char(v@.take(i as int), from, to).push(if c == from { to } else { c }));
        i = i + 1;
    }
    assert(v@.take(v.len() as int) =~= v@);
    r
}

pub fn collapse_spaces_exec(v: &Vec<char>) -> (r: Vec<char>)
    ensures
        r@ == collapse_spaces(v@),
{
    let mut r: Vec<char> = Vec::new();
    let mut i: usize = 0;
    while i < v.len()
        invariant
            i <= v.len(),
            r@ == collapse_spaces(v@.take(i as int)),
        decreases v.len() - i,
    {
        let c = v[i];
        assert(v@.take(i + 1).drop_last() =~= v@.take(i as int));
        if c == ' ' && r.len() > 0 && r[r.len() - 1] == ' ' {
        } else {
            r.push(c);
        }
        i = i + 1;
    }
    assert(v@.take(v.len() as int) =~= v@);
    r
}

pub fn drop_spaces_after_newline_exec(v: &Vec<char>) -> (r: Vec<char>)
    ensures
        r@ == drop_spaces_after_newline(v@),
{
    let mut r: Vec<char> = Vec::new();
    let mut i: usize = 0;
    while i < v.len()
        invariant
            i <= v.len(),
            r@ == drop_spaces_after_newline(v@.take(i as int)),
        decreases v.len() - i,
    {
        let c = v[i];
        assert(v@.take(i + 1).drop_last() =~= v@.take(i as int));
        if c == ' ' && r.len() > 0 && r[r.len() - 1] == '\n' {
        } else {
            r.push(c);
        }
        i = i + 1;
    }
    assert(v@.take(v.len() as int) =~= v@);
    r
}

pub fn trim_exec(v: &Vec<char>) -> (r: Vec<char>)
    ensures
        r@ == trim(v@),
{
    let mut a: usize = 0;
    assert(v@.subrange(0, v.len() as int) =~= v@);
    while a < v.len() && char_is_whitespace(v[a])
        invariant
            a <= v.len(),
            trim_start(v@) == trim_start(v@.subrange(a as int, v.len() as int)),
        decreases v.len() - a,
    {
        assert(v@.subrange(a as int, v.len() as int).drop_first() =~= v@.subrange(a + 1, v.len() as int));
        a = a + 1;
    }
    let mut b: usize = v.len();
    assert(trim_start(v@.subrange(a as int, v.len() as int)) == v@.subrange(a as int, v.len() as int));
    while b > a && char_is_whitespace(v[b - 1])
        invariant
            a <= b <= v.len(),
            trim_start(v@) == v@.subrange(a as int, v.len() as int),
            trim(v@) == trim_end(v@.subrange(a as int, b as int)),
        decreases b,
    {
        assert(v@.subrange(a as int, b as int).drop_last() =~= v@.subrange(a as int, b - 1));
        b = b - 1;
    }
    chars_range(v, a, b)
}

pub fn strip_trailing_newlines_exec(v: &Vec<char>) -> (r: Vec<char>)
    ensures
        r@ == strip_trailing_newlines(v@),
{
    let mut b: usize = v.len();
    assert(v@.take(v.len() as int) =~= v@);
    while b > 0 && v[b - 1] == '\n'
        invariant
            b <= v.len(),
            strip_trailing_newlines(v@) == strip_trailing_newlines(v@.take(b as int)),
        decreases b,
    {
        assert(v@.take(b as int).drop_last() =~= v@.take(b - 1));
        b = b - 1;
    }
    let r = chars_range(v, 0, b);
    assert(r@ =~= v@.take(b as int));
    r
}

pub fn strip_leading_newline_exec(v: &Vec<char>) -> (r: Vec<char>)
    ensures
        r@ == strip_leading_newline(v@),
{
    if v.len() > 0 && v[0] == '\n' {
        let r = chars_range(v, 1, v.len());
        assert(r@ =~= v@.drop_first());
        r
    } else {
        chars_range(v, 0, v.len())
    }
}


/// A summary on one line: trimmed, line breaks turned into spaces, runs of
/// spaces shortened.
pub open spec fn spec_normalize_summary(s: Seq<char>) -> Seq<char> {
    collapse_spaces(replace_char(trim(s), '\n', ' '))
}

/// Normalises the summary shown on installed and search result rows.
pub fn normalize_summary(summary: Option<String>) -> (r: Option<String>)
    ensures
        match summary {
            Some(s) => r matches Some(t) && t@ == spec_normalize_summary(s@),
            None => r is None,
        },
{
    match summary {
        Some(s) => {
            let v = chars_of(s.as_str());
            let t = trim_exec(&v);
            let u = replace_char_exec(&t, '\n', ' ');
            let w = collapse_spaces_exec(&u);
            Some(string_from_chars(w.as_slice()))
        },
        None => None,
    }
}

proof fn lemma_collapse_clean(s: Seq<char>, c: char)
    requires
        !has_char(s, c),
    ensures
        !has_char(collapse_spaces(s), c),
        !has_pair(collapse_spaces(s), ' ', ' '),
        forall|i: int| 0 <= i < collapse_spaces(s).len() ==> has_char(s, #[trigger] collapse_spaces(s)[i]),
    decreases s.len(),
{
    if s.len() > 0 {
        let p = s.drop_last();
        assert(!has_char(p, c)) by {
            if has_char(p, c) {
                let i = choose|i: int| 0 <= i < p.len() && p[i] == c;
                assert(s[i] == c);
            }
        }
        lemma_collapse_clean(p, c);
        let r = collapse_spaces(p);
        let out = collapse_spaces(s);
        assert forall|i: int| 0 <= i < out.len() implies has_char(s, #[trigger] out[i]) by {
            if i < r.len() {
                assert(out[i] == r[i]);
                let j = choose|j: int| 0 <= j < p.len() && p[j] == r[i];
                assert(s[j] == p[j]);
            } else {
                assert(s[s.len() - 1] == s.last());
            }
        }
        assert(!has_char(out, c)) by {
            if has_char(out, c) {
                let i = choose|i: int| 0 <= i < out.len() && out[i] == c;
                let j = choose|j: int| 0 <= j < s.len() && s[j] == out[i];
            }
        }
        assert(!has_pair(out, ' ', ' ')) by {
            if has_pair(out, ' ', ' ') {
                let i = choose|i: int| 0 <= i < out.len() - 1 && #[trigger] out[i] == ' ' && out[i + 1] == ' ';
                if i + 1 < r.len() {
                    assert(out[i] == r[i] && out[i + 1] == r[i + 1]);
                } else {
                    assert(out == r.push(s.last()));
                    assert(r.last() == out[i]);
                }
            }
        }
    }
}

/// A normalised summary is a single line without doubled spaces.
pub proof fn law_normalized_summary_single_line(s: Seq<char>)
    ensures
        !has_char(spec_normalize_summary(s), '\n'),
        !has_pair(spec_normalize_summary(s), ' ', ' '),
{
    let u = replace_char(trim(s), '\n', ' ');
    assert(!has_char(u, '\n')) by {
        if has_char(u, '\n') {
            let i = choose|i: int| 0 <= i < u.len() && u[i] == '\n';
        }
    }
    lemma_collapse_clean(u, '\n');
}

/// The Pango markup that `html2pango::markup_html` makes of an HTML text, when
/// it can read it.
pub uninterp spec fn pango_markup_of(html: Seq<char>) -> Option<Seq<char>>;

/// `html2pango::markup_html`: converts HTML to Pango markup, or fails. It
/// takes the first child of the parsed document as the `html` element and
/// that element's second child as the body, so it panics on a text whose
/// start the parser files as a comment ahead of the `html` element; such
/// texts are kept out.
#[verifier::external_body]
fn markup_html(s: &str) -> (r: Option<String>)
    requires
        !leads_with_comment(s@),
    ensures
        match r {
            Some(m) => pango_markup_of(s@) == Some(m@),
            None => pango_markup_of(s@) is None,
        },
{
    html2pango::markup_html(s).ok()
}

/// Line breaks and tabs turned into spaces, runs of spaces shortened.
pub open spec fn flatten_whitespace(s: Seq<char>) -> Seq<char> {
    collapse_spaces(replace_char(replace_char(s, '\n', ' '), '\t', ' '))
}

/// An AppStream description as Pango markup: whitespace flattened, converted
/// by html2pango (the flattened text itself when it cannot be converted, or
/// when its start is a comment that html2pango cannot read past), trimmed,
/// and without spaces after line breaks or line breaks at the ends.
pub open spec fn spec_html_to_pango(s: Seq<char>) -> Seq<char> {
    let f = flatten_whitespace(s);
    let m = if leads_with_comment(f) {
        f
    } else {
        match pango_markup_of(f) {
            Some(m) => m,
            None => f,
        }
    };
    strip_leading_newline(strip_trailing_newlines(drop_spaces_after_newline(trim(m))))
}

pub fn html_to_pango(text: &str) -> (r: String)
    ensures
        r@ == spec_html_to_pango(text@),
{
    let v = chars_of(text);
    let a = replace_char_exec(&v, '\n', ' ');
    let b = replace_char_exec(&a, '\t', ' ');
    let c = collapse_spaces_exec(&b);
    let flat = string_from_chars(c.as_slice());
    let markup = if leads_with_comment_exec(&c) {
        flat
    } else {
        match markup_html(flat.as_str()) {
            Some(m) => m,
            None => flat,
        }
    };
    let m = chars_of(markup.as_str());
    let t = trim_exec(&m);
    let d = drop_spaces_after_newline_exec(&t);
    let e = strip_trailing_newlines_exec(&d);
    let f = strip_leading_newline_exec(&e);
    string_from_chars(f.as_slice())
}

proof fn lemma_drop_spaces_clean(s: Seq<char>)
    ensures
        !has_pair(drop_spaces_after_newline(s), '\n', ' '),
    decreases s.len(),
{
    if s.len() > 0 {
        let p = s.drop_last();
        lemma_drop_spaces_clean(p);
        let r = drop_spaces_after_newline(p);
        let out = drop_spaces_after_newline(s);
        assert(!has_pair(out, '\n', ' ')) by {
            if has_pair(out, '\n', ' ') {
                let i = choose|i: int| 0 <= i < out.len() - 1 && #[trigger] out[i] == '\n' && out[i + 1] == ' ';
                if i + 1 < r.len() {
                    assert(out[i] == r[i] && out[i + 1] == r[i + 1]);
                } else {
                    assert(out == r.push(s.last()));
                    assert(r.last() == out[i]);
                }
            }
        }
    }
}

proof fn lemma_strip_trailing(s: Seq<char>)
    ensures
        strip_trailing_newlines(s) == s.take(strip_trailing_newlines(s).len() as int),
        strip_trailing_newlines(s).len() <= s.len(),
        strip_trailing_newlines(s).len() > 0 ==> strip_trailing_newlines(s).last() != '\n',
    decreases s.len(),
{
    if s.len() > 0 && s.last() == '\n' {
        lemma_strip_trailing(s.drop_last());
        let k = strip_trailing_newlines(s).len() as int;
        assert(s.drop_last().take(k) =~= s.take(k));
    } else {
        assert(s.take(s.len() as int) =~= s);
    }
}

/// Description markup never has a space right after a line break and never
/// ends with a line break.
pub proof fn law_pango_description_tidy(s: Seq<char>)
    ensures
        !has_pair(spec_html_to_pango(s), '\n', ' '),
        spec_html_to_pango(s).len() > 0 ==> spec_html_to_pango(s).last() != '\n',
{
    let f = flatten_whitespace(s);
    let m = if leads_with_comment(f) {
        f
    } else {
        match pango_markup_of(f) {
            Some(m) => m,
            None => f,
        }
    };
    let d = drop_spaces_after_newline(trim(m));
    lemma_drop_spaces_clean(trim(m));
    let e = strip_trailing_newlines(d);
    lemma_strip_trailing(d);
    assert(!has_pair(e, '\n', ' ')) by {
        if has_pair(e, '\n', ' ') {
            let i = choose|i: int| 0 <= i < e.len() - 1 && #[trigger] e[i] == '\n' && e[i + 1] == ' ';
            assert(d[i] == e[i] && d[i + 1] == e[i + 1]);
        }
    }
    let g = strip_leading_newline(e);
    if e.len() > 0 && e[0] == '\n' {
        assert(!has_pair(g, '\n', ' ')) by {
            if has_pair(g, '\n', ' ') {
                let i = choose|i: int| 0 <= i < g.len() - 1 && #[trigger] g[i] == '\n' && g[i + 1] == ' ';
                assert(e[i + 1] == g[i] && e[i + 2] == g[i + 1]);
            }
        }
        if g.len() > 0 {
            assert(g.last() == e.last());
        }
    }
}


/// Lexicographic order of character sequences by code point (the order of
/// `String`, whose UTF-8 bytes compare the same way).
pub open spec fn char_seq_lt(a: Seq<char>, b: Seq<char>) -> bool
    decreases a.len(),
{
    if a.len() == 0 {
        b.len() > 0
    } else if b.len() == 0 {
        false
    } else if a[0] != b[0] {
        (a[0] as u32) < (b[0] as u32)
    } else {
        char_seq_lt(a.drop_first(), b.drop_first())
    }
}

pub proof fn lemma_char_seq_lt_trans(a: Seq<char>, b: Seq<char>, c: Seq<char>)
    requires
        char_seq_lt(a, b),
        char_seq_lt(b, c),
    ensures
        char_seq_lt(a, c),
    decreases a.len(),
{
    if a.len() > 0 && b.len() > 0 && c.len() > 0 {
        if a[0] == b[0] && b[0] == c[0] {
            lemma_char_seq_lt_trans(a.drop_first(), b.drop_first(), c.drop_first());
        }
    }
}

pub proof fn lemma_char_seq_lt_total(a: Seq<char>, b: Seq<char>)
    requires
        a != b,
    ensures
        char_seq_lt(a, b) || char_seq_lt(b, a),
    decreases a.len(),
{
    if a.len() > 0 && b.len() > 0 && a[0] == b[0] {
        if a.drop_first() == b.drop_first() {
            assert(a =~= seq![a[0]] + a.drop_first());
            assert(b =~= seq![b[0]] + b.drop_first());
        }
        lemma_char_seq_lt_total(a.drop_first(), b.drop_first());
    } else if a.len() > 0 && b.len() > 0 {
        assert((a[0] as u32) != (b[0] as u32)) by {
            vstd::utf8::char_u32_cast(a[0], a[0] as u32);
            vstd::utf8::char_u32_cast(b[0], b[0] as u32);
        }
    } else if a.len() == 0 && b.len() == 0 {
        assert(a =~= b);
    }
}

/// Compares two character sequences in [`char_seq_lt`] order.
pub fn char_seq_less(a: &Vec<char>, b: &Vec<char>) -> (r: bool)
    ensures
        r == char_seq_lt(a@, b@),
{
    let mut i: usize = 0;
    assert(a@.subrange(0, a.len() as int) =~= a@);
    assert(b@.subrange(0, b.len() as int) =~= b@);
    while i < a.len() && i < b.len() && a[i] == b[i]
        invariant
            i <= a.len(),
            i <= b.len(),
            char_seq_lt(a@, b@) == char_seq_lt(a@.subrange(i as int, a.len() as int), b@.subrange(i as int, b.len() as int)),
        decreases a.len() - i,
    {
        assert(a@.subrange(i as int, a.len() as int).drop_first() =~= a@.subrange(i + 1, a.len() as int));
        assert(b@.subrange(i as int, b.len() as int).drop_first() =~= b@.subrange(i + 1, b.len() as int));
        i = i + 1;
    }
    if i == a.len() {
        i < b.len()
    } else if i == b.len() {
        false
    } else {
        assert(a@.subrange(i as int, a.len() as int)[0] == a@[i as int]);
        assert(b@.subrange(i as int, b.len() as int)[0] == b@[i as int]);
        (a[i] as u32) < (b[i] as u32)
    }
}

/// `a` comes before `b` when ordered by text key, and by position among
/// equal keys.
pub open spec fn text_key_before(keys: Seq<Seq<char>>, a: int, b: int) -> bool {
    char_seq_lt(keys[a], keys[b]) || (keys[a] == keys[b] && a < b)
}

/// `perm` lists positions below `n` in strictly increasing order of text key
/// and position: a stable sort of `0..n` by key.
pub open spec fn stable_text_order(keys: Seq<Seq<char>>, perm: Seq<int>, n: int) -> bool {
    &&& forall|i: int| 0 <= i < perm.len() ==> 0 <= #[trigger] perm[i] < n
    &&& forall|i: int, j: int| 0 <= i < j < perm.len() ==> text_key_before(keys, #[trigger] perm[i], #[trigger] perm[j])
}

/// The views of a sequence of character vectors.
pub open spec fn chars_view(v: Seq<Vec<char>>) -> Seq<Seq<char>> {
    v.map_values(|t: Vec<char>| t@)
}

/// The positions of `keys` sorted stably by key (`slice::sort_by_key` on
/// strings: equal keys keep their order).
pub fn stable_sort_by_text(keys: &Vec<Vec<char>>) -> (perm: Vec<usize>)
    ensures
        perm.len() == keys.len(),
        stable_text_order(chars_view(keys@), perm@.map_values(|i: usize| i as int), keys.len() as int),
{
    let ghost ks = chars_view(keys@);
    let mut perm: Vec<usize> = Vec::new();
    let mut i: usize = 0;
    while i < keys.len()
        invariant
            i <= keys.len(),
            ks == chars_view(keys@),
            perm.len() == i,
            forall|j: int| 0 <= j < perm.len() ==> (#[trigger] perm@[j]) < i,
            stable_text_order(ks, perm@.map_values(|x: usize| x as int), i as int),
        decreases keys.len() - i,
    {
        let ghost old_perm = perm@.map_values(|x: usize| x as int);
        let mut p: usize = 0;
        while p < perm.len() && !char_seq_less(&keys[i], &keys[perm[p]])
            invariant
                p <= perm.len(),
                perm.len() == i,
                forall|j: int| 0 <= j < perm.len() ==> (#[trigger] perm@[j]) < i,
                i < keys.len(),
                ks == chars_view(keys@),
                old_perm == perm@.map_values(|x: usize| x as int),
                stable_text_order(ks, old_perm, i as int),
                forall|j: int| 0 <= j < p ==> !char_seq_lt(ks[i as int], #[trigger] ks[old_perm[j]]),
            decreases perm.len() - p,
        {
            assert(ks[old_perm[p as int]] == keys@[perm@[p as int] as int]@);
            p = p + 1;
        }
        proof {
            if p < perm.len() {
                assert(ks[old_perm[p as int]] == keys@[perm@[p as int] as int]@);
            }
            assert forall|j: int| p <= j < old_perm.len() implies char_seq_lt(ks[i as int], #[trigger] ks[old_perm[j]]) by {
                if j > p {
                    assert(text_key_before(ks, old_perm[p as int], old_perm[j]));
                    if char_seq_lt(ks[old_perm[p as int]], ks[old_perm[j]]) {
                        lemma_char_seq_lt_trans(ks[i as int], ks[old_perm[p as int]], ks[old_perm[j]]);
                    }
                }
            }
        }
        perm.insert(p, i);
        proof {
            let np = perm@.map_values(|x: usize| x as int);
            assert(np =~= old_perm.insert(p as int, i as int));
            assert forall|j: int| 0 <= j < perm.len() implies (#[trigger] perm@[j]) < i + 1 by {
                assert(np[j] == perm@[j] as int);
            }
            assert forall|a: int, b: int| 0 <= a < b < np.len() implies text_key_before(ks, #[trigger] np[a], #[trigger] np[b]) by {
                if b < p {
                    assert(np[a] == old_perm[a] && np[b] == old_perm[b]);
                } else if b == p {
                    assert(np[a] == old_perm[a]);
                    if ks[old_perm[a]] != ks[i as int] {
                        lemma_char_seq_lt_total(ks[old_perm[a]], ks[i as int]);
                    }
                } else if a < p {
                    assert(np[a] == old_perm[a] && np[b] == old_perm[b - 1]);
                    assert(text_key_before(ks, old_perm[a], old_perm[b - 1]));
                } else if a == p {
                    assert(np[b] == old_perm[b - 1]);
                } else {
                    assert(np[a] == old_perm[a - 1] && np[b] == old_perm[b - 1]);
                    assert(text_key_before(ks, old_perm[a - 1], old_perm[b - 1]));
                }
            }
        }
        i = i + 1;
    }
    perm
}

/// Every element is smaller than every later one.
pub open spec fn strictly_sorted(s: Seq<Seq<char>>) -> bool {
    forall|i: int, j: int| 0 <= i < j < s.len() ==> char_seq_lt(#[trigger] s[i], #[trigger] s[j])
}


/// The decimal digit for `d < 10`.
pub open spec fn digit_char(d: nat) -> char {
    ((d + 48) as u8) as char
}

/// The decimal notation of `n`, as `Display` writes integers.
pub open spec fn decimal(n: nat) -> Seq<char>
    decreases n,
{
    if n < 10 {
        seq![digit_char(n)]
    } else {
        decimal(n / 10) + seq![digit_char(n % 10)]
    }
}

/// Writes `n` in decimal.
pub fn decimal_string(n: u64) -> (r: String)
    ensures
        r@ == decimal(n as nat),
{
    let mut digits: Vec<char> = Vec::new();
    let mut m = n;
    while m >= 10
        invariant
            decimal(n as nat) == decimal(m as nat) + digits@.reverse(),
        decreases m,
    {
        let d = (m % 10) as u8;
        let c = (d + 48) as char;
        assert(c == digit_char((m % 10) as nat));
        assert(decimal(m as nat) == decimal((m / 10) as nat) + seq![c]);
        digits.push(c);
        assert(digits@.reverse() =~= seq![c] + digits@.drop_last().reverse());
        m = m / 10;
    }
    let c = ((m as u8) + 48) as char;
    assert(c == digit_char(m as nat));
    digits.push(c);
    assert(digits@.reverse() =~= seq![c] + digits@.drop_last().reverse());
    let mut out: Vec<char> = Vec::new();
    let mut i: usize = digits.len();
    while i > 0
        invariant
            i <= digits.len(),
            out@ == digits@.reverse().take(digits.len() - i),
        decreases i,
    {
        i = i - 1;
        out.push(digits[i]);
        assert(out@ =~= digits@.reverse().take(digits.len() - i));
    }
    assert(out@ =~= decimal(n as nat));
    string_from_chars(out.as_slice())
}

} // verus!
