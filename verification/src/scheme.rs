//! The `nixpkg://` and `appstream://` URI schemes accepted on the command line.
//!
//! Grammar (the whole argument must match):
//!
//! ```text
//! scheme   := "nixpkg://" NAME
//!           | "appstream://" NAME ( "?alt=" ( NAME ( "," NAME )* )? )?
//! NAME     := [a-zA-Z_] [a-zA-Z0-9_.-]*
//! ```

use vstd::prelude::*;
use vstd::string::StrSliceExecFns;
use vstd::string::StringExecFns;
use vstd::utf8::*;

use crate::text::{chars_of, has_prefix_at, matches_at, strings_view};

verus! {

/// A package reference given as a URI.
#[derive(Debug, Clone)]
pub enum Scheme {
    AppStream { id: String, alt: Option<Vec<String>> },
    NixPkg(String),
}

/// Mathematical model of a [`Scheme`].
pub enum SchemeModel {
    AppStream { id: Seq<char>, alt: Option<Seq<Seq<char>>> },
    NixPkg(Seq<char>),
}

impl View for Scheme {
    type V = SchemeModel;

    open spec fn view(&self) -> SchemeModel {
        match self {
            Scheme::AppStream { id, alt } => SchemeModel::AppStream {
                id: id@,
                alt: match alt {
                    Some(v) => Some(strings_view(v@)),
                    None => None,
                },
            },
            Scheme::NixPkg(n) => SchemeModel::NixPkg(n@),
        }
    }
}

/// First character of a name.
pub open spec fn is_name_start(c: char) -> bool {
    ('a' <= c && c <= 'z') || ('A' <= c && c <= 'Z') || c == '_'
}

/// Any later character of a name.
pub open spec fn is_name_char(c: char) -> bool {
    is_name_start(c) || ('0' <= c && c <= '9') || c == '-' || c == '.'
}

pub open spec fn valid_name(n: Seq<char>) -> bool {
    &&& n.len() > 0
    &&& is_name_start(n[0])
    &&& forall|i: int| 1 <= i < n.len() ==> is_name_char(#[trigger] n[i])
}

pub open spec fn nixpkg_prefix() -> Seq<char> {
    seq!['n', 'i', 'x', 'p', 'k', 'g', ':', '/', '/']
}

pub open spec fn appstream_prefix() -> Seq<char> {
    seq!['a', 'p', 'p', 's', 't', 'r', 'e', 'a', 'm', ':', '/', '/']
}

pub open spec fn alt_marker() -> Seq<char> {
    seq!['?', 'a', 'l', 't', '=']
}

/// End of the maximal run of name characters starting at `i`.
pub open spec fn name_end(s: Seq<char>, i: int) -> int
    decreases s.len() - i,
{
    if 0 <= i < s.len() && is_name_char(s[i]) {
        name_end(s, i + 1)
    } else {
        i
    }
}

/// End of the name that starts at `i`, if one does.
pub open spec fn name_at(s: Seq<char>, i: int) -> Option<int> {
    if 0 <= i < s.len() && is_name_start(s[i]) {
        Some(name_end(s, i + 1))
    } else {
        None
    }
}

pub proof fn lemma_name_end_bounds(s: Seq<char>, i: int)
    requires
        0 <= i <= s.len(),
    ensures
        i <= name_end(s, i) <= s.len(),
        forall|k: int| i <= k < name_end(s, i) ==> is_name_char(#[trigger] s[k]),
        name_end(s, i) < s.len() ==> !is_name_char(s[name_end(s, i)]),
    decreases s.len() - i,
{
    if i < s.len() && is_name_char(s[i]) {
        lemma_name_end_bounds(s, i + 1);
    }
}

/// A comma separated list of names that runs to the end of `s`.
pub open spec fn names_at(s: Seq<char>, i: int) -> Option<Seq<Seq<char>>>
    decreases s.len() - i,
{
    if 0 <= i < s.len() && is_name_start(s[i]) {
        let e = name_end(s, i + 1);
        proof {
            lemma_name_end_bounds(s, i + 1);
        }
        if e >= s.len() {
            Some(seq![s.subrange(i, e)])
        } else if s[e] == ',' {
            match names_at(s, e + 1) {
                Some(rest) => Some(seq![s.subrange(i, e)] + rest),
                None => None,
            }
        } else {
            None
        }
    } else {
        None
    }
}

/// What a whole argument denotes, if it is a scheme.
pub open spec fn spec_parse_scheme(s: Seq<char>) -> Option<SchemeModel> {
    if has_prefix_at(s, 0, nixpkg_prefix()) {
        let p = nixpkg_prefix().len() as int;
        match name_at(s, p) {
            Some(e) => if e == s.len() {
                Some(SchemeModel::NixPkg(s.subrange(p, e)))
            } else {
                None
            },
            None => None,
        }
    } else if has_prefix_at(s, 0, appstream_prefix()) {
        let p = appstream_prefix().len() as int;
        match name_at(s, p) {
            Some(e) => {
                let id = s.subrange(p, e);
                if e == s.len() {
                    Some(SchemeModel::AppStream { id, alt: None })
                } else if has_prefix_at(s, e, alt_marker()) {
                    let j = e + alt_marker().len();
                    if j == s.len() {
                        Some(SchemeModel::AppStream { id, alt: Some(Seq::empty()) })
                    } else {
                        match names_at(s, j) {
                            Some(ns) => Some(SchemeModel::AppStream { id, alt: Some(ns) }),
                            None => None,
                        }
                    }
                } else {
                    None
                }
            },
            None => None,
        }
    } else {
        None
    }
}


pub open spec fn valid_names(ns: Seq<Seq<char>>) -> bool {
    forall|k: int| 0 <= k < ns.len() ==> valid_name(#[trigger] ns[k])
}

/// A scheme whose names all follow the grammar.
pub open spec fn wf_scheme(s: SchemeModel) -> bool {
    match s {
        SchemeModel::NixPkg(n) => valid_name(n),
        SchemeModel::AppStream { id, alt } => valid_name(id) && match alt {
            Some(ns) => valid_names(ns),
            None => true,
        },
    }
}

/// Names separated by commas.
pub open spec fn join_names(ns: Seq<Seq<char>>) -> Seq<char>
    decreases ns.len(),
{
    if ns.len() == 0 {
        Seq::empty()
    } else if ns.len() == 1 {
        ns[0]
    } else {
        ns[0] + seq![','] + join_names(ns.drop_first())
    }
}

/// The URI text of a scheme.
pub open spec fn render_scheme(s: SchemeModel) -> Seq<char> {
    match s {
        SchemeModel::NixPkg(n) => nixpkg_prefix() + n,
        SchemeModel::AppStream { id, alt } => appstream_prefix() + id + match alt {
            None => Seq::empty(),
            Some(ns) => alt_marker() + join_names(ns),
        },
    }
}

/// Parse failure: the argument is not a `nixpkg://` or `appstream://` URI.
#[derive(Debug, Clone, Copy, PartialEq, Eq)]
pub struct SchemeError;

fn name_start(c: char) -> (b: bool)
    ensures
        b == is_name_start(c),
{
    ('a' <= c && c <= 'z') || ('A' <= c && c <= 'Z') || c == '_'
}

fn name_char(c: char) -> (b: bool)
    ensures
        b == is_name_char(c),
{
    name_start(c) || ('0' <= c && c <= '9') || c == '-' || c == '.'
}

fn scan_name_end(v: &Vec<char>, i: usize) -> (e: usize)
    requires
        i <= v.len(),
    ensures
        e as int == name_end(v@, i as int),
        i <= e <= v.len(),
{
    let mut j = i;
    while j < v.len() && name_char(v[j])
        invariant
            i <= j <= v.len(),
            name_end(v@, j as int) == name_end(v@, i as int),
        decreases v.len() - j,
    {
        j = j + 1;
    }
    j
}

proof fn lemma_strings_view_push(v: Seq<String>, x: String)
    ensures
        strings_view(v.push(x)) == strings_view(v).push(x@),
{
    assert(strings_view(v.push(x)) =~= strings_view(v).push(x@));
}

pub open spec fn prepend_names(pre: Seq<Seq<char>>, o: Option<Seq<Seq<char>>>) -> Option<Seq<Seq<char>>> {
    match o {
        Some(r) => Some(pre + r),
        None => None,
    }
}

fn parse_name_list(input: &str, v: &Vec<char>, i: usize) -> (r: Option<Vec<String>>)
    requires
        v@ == input@,
        i <= v.len(),
    ensures
        match r {
            Some(ns) => names_at(v@, i as int) == Some(strings_view(ns@)),
            None => names_at(v@, i as int) is None,
        },
{
    let mut names: Vec<String> = Vec::new();
    let mut j = i;
    loop
        invariant
            i <= j <= v.len(),
            v@ == input@,
            names_at(v@, i as int) == prepend_names(strings_view(names@), names_at(v@, j as int)),
        decreases v.len() - j,
    {
        if j >= v.len() || !name_start(v[j]) {
            return None;
        }
        let e = scan_name_end(v, j + 1);
        proof {
            lemma_name_end_bounds(v@, j + 1);
        }
        let name = String::from_str(input.substring_char(j, e));
        proof {
            lemma_strings_view_push(names@, name);
            assert(strings_view(names@) + seq![name@] =~= strings_view(names@).push(name@));
        }
        if e >= v.len() {
            names.push(name);
            return Some(names);
        } else if v[e] == ',' {
            names.push(name);
            proof {
                let pre = strings_view(names@);
                match names_at(v@, e + 1) {
                    Some(rest) => {
                        assert(seq![name@] + rest =~= seq![v@.subrange(j as int, e as int)] + rest);
                        assert(pre.drop_last() + (seq![name@] + rest) =~= pre + rest);
                    },
                    None => {},
                }
            }
            j = e + 1;
        } else {
            return None;
        }
    }
}

/// Parses a whole command-line URI into a [`Scheme`].
pub fn parse_scheme(input: &str) -> (r: Result<Scheme, SchemeError>)
    ensures
        r is Ok <==> spec_parse_scheme(input@) is Some,
        r matches Ok(s) ==> spec_parse_scheme(input@) == Some(s@),
{
    let v = chars_of(input);
    let nix: Vec<char> = vec!['n', 'i', 'x', 'p', 'k', 'g', ':', '/', '/'];
    let app: Vec<char> = vec!['a', 'p', 'p', 's', 't', 'r', 'e', 'a', 'm', ':', '/', '/'];
    let alt: Vec<char> = vec!['?', 'a', 'l', 't', '='];
    assert(nix@ =~= nixpkg_prefix());
    assert(app@ =~= appstream_prefix());
    assert(alt@ =~= alt_marker());
    if matches_at(&v, 0, &nix) {
        let p: usize = 9;
        if p < v.len() && name_start(v[p]) {
            let e = scan_name_end(&v, p + 1);
            if e == v.len() {
                return Ok(Scheme::NixPkg(String::from_str(input.substring_char(p, e))));
            }
        }
        Err(SchemeError)
    } else if matches_at(&v, 0, &app) {
        let p: usize = 12;
        if p < v.len() && name_start(v[p]) {
            let e = scan_name_end(&v, p + 1);
            let id = String::from_str(input.substring_char(p, e));
            if e == v.len() {
                return Ok(Scheme::AppStream { id, alt: None });
            } else if matches_at(&v, e, &alt) {
                let j = e + 5;
                if j == v.len() {
                    let empty: Vec<String> = Vec::new();
                    assert(strings_view(empty@) =~= Seq::<Seq<char>>::empty());
                    return Ok(Scheme::AppStream { id, alt: Some(empty) });
                }
                match parse_name_list(input, &v, j) {
                    Some(ns) => {
                        return Ok(Scheme::AppStream { id, alt: Some(ns) });
                    },
                    None => {
                        return Err(SchemeError);
                    },
                }
            }
        }
        Err(SchemeError)
    } else {
        Err(SchemeError)
    }
}


proof fn lemma_name_end_run(s: Seq<char>, i: int, e: int)
    requires
        0 <= i <= e <= s.len(),
        forall|k: int| i <= k < e ==> is_name_char(#[trigger] s[k]),
        e == s.len() || !is_name_char(s[e]),
    ensures
        name_end(s, i) == e,
    decreases e - i,
{
    if i < e {
        lemma_name_end_run(s, i + 1, e);
    }
}

/// A valid name followed by a character that cannot continue it is read back whole.
proof fn lemma_name_at_concat(pre: Seq<char>, n: Seq<char>, rest: Seq<char>)
    requires
        valid_name(n),
        rest.len() == 0 || !is_name_char(rest[0]),
    ensures
        name_at(pre + n + rest, pre.len() as int) == Some((pre.len() + n.len()) as int),
        (pre + n + rest).subrange(pre.len() as int, (pre.len() + n.len()) as int) == n,
{
    let t = pre + n + rest;
    let a = pre.len() as int;
    let e = (pre.len() + n.len()) as int;
    assert forall|k: int| a + 1 <= k < e implies is_name_char(#[trigger] t[k]) by {
        assert(t[k] == n[k - a]);
    }
    if rest.len() > 0 {
        assert(t[e] == rest[0]);
    }
    assert(t[a] == n[0]);
    lemma_name_end_run(t, a + 1, e);
    assert(t.subrange(a, e) =~= n);
}

proof fn lemma_join_nonempty(ns: Seq<Seq<char>>)
    requires
        ns.len() > 0,
        valid_names(ns),
    ensures
        join_names(ns).len() > 0,
        join_names(ns)[0] == ns[0][0],
{
    assert(valid_name(ns[0]));
    if ns.len() > 1 {
        assert((ns[0] + seq![','] + join_names(ns.drop_first()))[0] == ns[0][0]);
    }
}

proof fn lemma_names_roundtrip(pre: Seq<char>, ns: Seq<Seq<char>>)
    requires
        ns.len() > 0,
        valid_names(ns),
    ensures
        names_at(pre + join_names(ns), pre.len() as int) == Some(ns),
    decreases ns.len(),
{
    let t = pre + join_names(ns);
    let a = pre.len() as int;
    let n = ns[0];
    assert(valid_name(n));
    if ns.len() == 1 {
        assert(t =~= pre + n + Seq::<char>::empty());
        lemma_name_at_concat(pre, n, Seq::<char>::empty());
        assert(seq![n] =~= ns);
    } else {
        let rest = ns.drop_first();
        assert forall|k: int| 0 <= k < rest.len() implies valid_name(#[trigger] rest[k]) by {
            assert(rest[k] == ns[k + 1]);
        }
        let tail = seq![','] + join_names(rest);
        assert(t =~= pre + n + tail);
        lemma_name_at_concat(pre, n, tail);
        let e = a + n.len();
        assert(t[e] == ',');
        let pre2 = pre + n + seq![','];
        assert(t =~= pre2 + join_names(rest));
        lemma_names_roundtrip(pre2, rest);
        assert(seq![n] + rest =~= ns);
    }
}

proof fn lemma_names_sound(s: Seq<char>, i: int)
    requires
        0 <= i <= s.len(),
    ensures
        names_at(s, i) matches Some(ns) ==> ns.len() > 0 && valid_names(ns) && s.subrange(i, s.len() as int) == join_names(ns),
    decreases s.len() - i,
{
    if 0 <= i < s.len() && is_name_start(s[i]) {
        let e = name_end(s, i + 1);
        lemma_name_end_bounds(s, i + 1);
        let n = s.subrange(i, e);
        assert(valid_name(n)) by {
            assert forall|k: int| 1 <= k < n.len() implies is_name_char(#[trigger] n[k]) by {
                assert(n[k] == s[i + k]);
            }
        }
        if e >= s.len() {
            let ns = seq![n];
            assert(valid_names(ns));
            assert(s.subrange(i, s.len() as int) =~= join_names(ns));
        } else if s[e] == ',' {
            lemma_names_sound(s, e + 1);
            match names_at(s, e + 1) {
                Some(rest) => {
                    let ns = seq![n] + rest;
                    assert(ns.drop_first() =~= rest);
                    assert(valid_names(ns)) by {
                        assert forall|k: int| 0 <= k < ns.len() implies valid_name(#[trigger] ns[k]) by {
                            if k > 0 {
                                assert(ns[k] == rest[k - 1]);
                            }
                        }
                    }
                    assert(s.subrange(i, s.len() as int) =~= n + seq![','] + s.subrange(e + 1, s.len() as int));
                },
                None => {},
            }
        }
    }
}

/// Reading back what a well-formed scheme renders to gives that scheme:
/// every valid `nixpkg://` and `appstream://` URI is accepted, and the parser
/// recovers exactly the package names written in it.
pub proof fn law_parse_render_roundtrip(s: SchemeModel)
    requires
        wf_scheme(s),
    ensures
        spec_parse_scheme(render_scheme(s)) == Some(s),
{
    let t = render_scheme(s);
    match s {
        SchemeModel::NixPkg(n) => {
            let pre = nixpkg_prefix();
            assert(t =~= pre + n + Seq::<char>::empty());
            assert(t.subrange(0, pre.len() as int) =~= pre);
            lemma_name_at_concat(pre, n, Seq::<char>::empty());
            assert(pre.len() == 9);
            assert(has_prefix_at(t, 0, pre));
            assert(name_at(t, 9) == Some(t.len() as int));
            assert(t.subrange(9, t.len() as int) == n);
            assert(spec_parse_scheme(t) == Some(SchemeModel::NixPkg(t.subrange(9, t.len() as int))));
            assert(SchemeModel::NixPkg(t.subrange(9, t.len() as int)) == s);
        },
        SchemeModel::AppStream { id, alt } => {
            let pre = appstream_prefix();
            assert(t.subrange(0, pre.len() as int) =~= pre);
            assert(t[0] == 'a');
            assert(!has_prefix_at(t, 0, nixpkg_prefix())) by {
                if has_prefix_at(t, 0, nixpkg_prefix()) {
                    assert(t.subrange(0, 9)[0] == 'n');
                }
            }
            match alt {
                None => {
                    assert(t =~= pre + id + Seq::<char>::empty());
                    lemma_name_at_concat(pre, id, Seq::<char>::empty());
                    assert(spec_parse_scheme(t) == Some(s));
                },
                Some(ns) => {
                    let tail = alt_marker() + join_names(ns);
                    assert(t =~= pre + id + tail);
                    lemma_name_at_concat(pre, id, tail);
                    let e = (pre.len() + id.len()) as int;
                    assert(t.subrange(e, e + 5) =~= alt_marker());
                    let pre2 = pre + id + alt_marker();
                    assert(t =~= pre2 + join_names(ns));
                    assert(name_at(t, 12) == Some(e));
                    assert(has_prefix_at(t, e, alt_marker()));
                    if ns.len() == 0 {
                        assert(t.len() == e + 5);
                        assert(ns =~= Seq::<Seq<char>>::empty());
                    } else {
                        lemma_join_nonempty(ns);
                        lemma_names_roundtrip(pre2, ns);
                        assert(pre2.len() == e + 5);
                        assert(t.len() > e + 5);
                        assert(names_at(t, e + 5) == Some(ns));
                    }
                    assert(spec_parse_scheme(t) == Some(s));
                },
            }
        },
    }
}

/// Whatever the parser accepts is a well-formed scheme that renders back to
/// exactly the text it was read from.
pub proof fn law_parse_sound(x: Seq<char>)
    ensures
        spec_parse_scheme(x) matches Some(s) ==> wf_scheme(s) && render_scheme(s) == x,
{
    if let Some(s) = spec_parse_scheme(x) {
        if has_prefix_at(x, 0, nixpkg_prefix()) {
            let p = 9int;
            lemma_name_end_bounds(x, p + 1);
            let n = x.subrange(p, x.len() as int);
            assert(valid_name(n)) by {
                assert forall|k: int| 1 <= k < n.len() implies is_name_char(#[trigger] n[k]) by {
                    assert(n[k] == x[p + k]);
                }
            }
            assert(x =~= x.subrange(0, p) + n);
        } else {
            let p = 12int;
            lemma_name_end_bounds(x, p + 1);
            let e = name_end(x, p + 1);
            let id = x.subrange(p, e);
            assert(valid_name(id)) by {
                assert forall|k: int| 1 <= k < id.len() implies is_name_char(#[trigger] id[k]) by {
                    assert(id[k] == x[p + k]);
                }
            }
            if e == x.len() {
                assert(x =~= x.subrange(0, p) + id + Seq::<char>::empty());
            } else {
                let j = e + 5;
                if j == x.len() {
                    assert(x =~= x.subrange(0, p) + id + (x.subrange(e, j) + join_names(Seq::<Seq<char>>::empty())));
                } else {
                    lemma_names_sound(x, j);
                    assert(x =~= x.subrange(0, p) + id + (x.subrange(e, j) + x.subrange(j, x.len() as int)));
                }
            }
        }
    }
}


/// How a URI argument was rejected: it was not UTF-8, or it is not a scheme.
#[derive(Debug, Clone, Copy, PartialEq, Eq)]
pub enum SchemeArgError {
    MissingRequiredArgument,
    UnknownArgument,
}

/// `std::str::from_utf8`: the bytes read as a string when they are valid UTF-8.
#[verifier::external_body]
fn str_from_utf8(bytes: &[u8]) -> (r: Option<&str>)
    ensures
        r is Some <==> valid_utf8(bytes@),
        r matches Some(s) ==> s@ == decode_utf8(bytes@),
{
    std::str::from_utf8(bytes).ok()
}

/// Value parser of the `URI` command-line argument.
#[derive(Debug, Clone, Copy)]
pub struct SchemeParser;

impl SchemeParser {
    /// Reads a raw (operating-system encoded) argument as a scheme.
    pub fn parse_ref(&self, value: &[u8]) -> (r: Result<Scheme, SchemeArgError>)
        ensures
            !valid_utf8(value@) ==> r == Err::<Scheme, SchemeArgError>(SchemeArgError::MissingRequiredArgument),
            valid_utf8(value@) ==> match spec_parse_scheme(decode_utf8(value@)) {
                Some(m) => (r matches Ok(s) && s@ == m),
                None => r == Err::<Scheme, SchemeArgError>(SchemeArgError::UnknownArgument),
            },
    {
        match str_from_utf8(value) {
            Some(input) => match parse_scheme(input) {
                Ok(s) => Ok(s),
                Err(_) => Err(SchemeArgError::UnknownArgument),
            },
            None => Err(SchemeArgError::MissingRequiredArgument),
        }
    }
}

/// The command line: an optional package URI.
#[derive(Debug, Clone)]
pub struct Cli {
    pub scheme: Option<Scheme>,
}

/// Interprets the `URI` argument, if one was given.
pub fn parse_cli(uri: Option<&[u8]>) -> (r: Result<Cli, SchemeArgError>)
    ensures
        uri is None ==> (r matches Ok(c) && c.scheme is None),
        uri matches Some(v) ==> {
            &&& !valid_utf8(v@) ==> r == Err::<Cli, SchemeArgError>(SchemeArgError::MissingRequiredArgument)
            &&& valid_utf8(v@) ==> match spec_parse_scheme(decode_utf8(v@)) {
                Some(m) => (r matches Ok(c) && (c.scheme matches Some(s) && s@ == m)),
                None => r == Err::<Cli, SchemeArgError>(SchemeArgError::UnknownArgument),
            }
        },
{
    match uri {
        None => Ok(Cli { scheme: None }),
        Some(v) => match SchemeParser.parse_ref(v) {
            Ok(s) => Ok(Cli { scheme: Some(s) }),
            Err(e) => Err(e),
        },
    }
}

} // verus!
