//! What an HTML parser makes of the start of a text before it opens the
//! `html` element: it skips whitespace (written out or as a character
//! reference), doctypes and stray end tags, and it files a comment found
//! there ahead of the `html` element.

use vstd::prelude::*;

verus! {

/// ASCII whitespace, which the parser skips before the document starts.
pub open spec fn is_html_space(c: char) -> bool {
    c == ' ' || c == '\t' || c == '\n' || c == '\x0C' || c == '\r'
}

pub open spec fn is_ascii_alpha(c: char) -> bool {
    ('a' <= c && c <= 'z') || ('A' <= c && c <= 'Z')
}

/// `c` is the lowercase letter `l`, in either case, or equals `l`.
pub open spec fn ci_eq(c: char, l: char) -> bool {
    c == l || ('a' <= l && l <= 'z' && (c as u32) + 32 == (l as u32))
}

/// The lowercase word `w` stands at `j`, letters in either case.
pub open spec fn ci_word_at(s: Seq<char>, j: int, w: Seq<char>) -> bool {
    &&& 0 <= j
    &&& j + w.len() <= s.len()
    &&& forall|m: int| 0 <= m < w.len() ==> ci_eq(#[trigger] s[j + m], w[m])
}

/// The word `w` stands at `j`, exactly.
pub open spec fn word_at(s: Seq<char>, j: int, w: Seq<char>) -> bool {
    &&& 0 <= j
    &&& j + w.len() <= s.len()
    &&& forall|m: int| 0 <= m < w.len() ==> #[trigger] s[j + m] == w[m]
}

pub open spec fn doctype_word() -> Seq<char> {
    seq!['d', 'o', 'c', 't', 'y', 'p', 'e']
}

/// The first `>` at or after `j`, else the end.
pub open spec fn next_gt(s: Seq<char>, j: int) -> int
    decreases s.len() - j,
{
    if j < 0 || j >= s.len() {
        s.len() as int
    } else if s[j] == '>' {
        j
    } else {
        next_gt(s, j + 1)
    }
}

/// Where a tag's name that starts at `j` ends: at whitespace, `/`, `>` or
/// the end of the text.
pub open spec fn name_end(s: Seq<char>, j: int) -> int
    decreases s.len() - j,
{
    if j < 0 || j >= s.len() {
        s.len() as int
    } else if is_html_space(s[j]) || s[j] == '/' || s[j] == '>' {
        j
    } else {
        name_end(s, j + 1)
    }
}

/// The tag name at `j` is `w`, letters in either case.
pub open spec fn tag_name_is(s: Seq<char>, j: int, w: Seq<char>) -> bool {
    name_end(s, j) - j == w.len() && ci_word_at(s, j, w)
}

/// An end tag with this name opens the `html` element.
pub open spec fn opens_html(s: Seq<char>, j: int) -> bool {
    ||| tag_name_is(s, j, seq!['h', 'e', 'a', 'd'])
    ||| tag_name_is(s, j, seq!['b', 'o', 'd', 'y'])
    ||| tag_name_is(s, j, seq!['h', 't', 'm', 'l'])
    ||| tag_name_is(s, j, seq!['b', 'r'])
}

/// Where the parser is inside a tag.
#[derive(Debug, Clone, Copy, PartialEq, Eq, Structural)]
pub enum TagState {
    Name,
    BeforeAttrName,
    AttrName,
    AfterAttrName,
    BeforeValue,
    DoubleQuoted,
    SingleQuoted,
    Unquoted,
    AfterQuoted,
    SelfClosing,
}

/// One character of a tag: the next state, or `None` where the character
/// is the `>` that closes the tag.
pub open spec fn tag_step(c: char, st: TagState) -> Option<TagState> {
    let space = is_html_space(c);
    match st {
        TagState::Name => if c == '>' {
            None
        } else if space {
            Some(TagState::BeforeAttrName)
        } else if c == '/' {
            Some(TagState::SelfClosing)
        } else {
            Some(TagState::Name)
        },
        TagState::BeforeAttrName | TagState::SelfClosing => if c == '>' {
            None
        } else if space {
            Some(TagState::BeforeAttrName)
        } else if c == '/' {
            Some(TagState::SelfClosing)
        } else {
            Some(TagState::AttrName)
        },
        TagState::AttrName => if c == '>' {
            None
        } else if space {
            Some(TagState::AfterAttrName)
        } else if c == '/' {
            Some(TagState::SelfClosing)
        } else if c == '=' {
            Some(TagState::BeforeValue)
        } else {
            Some(TagState::AttrName)
        },
        TagState::AfterAttrName => if c == '>' {
            None
        } else if space {
            Some(TagState::AfterAttrName)
        } else if c == '/' {
            Some(TagState::SelfClosing)
        } else if c == '=' {
            Some(TagState::BeforeValue)
        } else {
            Some(TagState::AttrName)
        },
        TagState::BeforeValue => if c == '>' {
            None
        } else if space {
            Some(TagState::BeforeValue)
        } else if c == '"' {
            Some(TagState::DoubleQuoted)
        } else if c == '\'' {
            Some(TagState::SingleQuoted)
        } else {
            Some(TagState::Unquoted)
        },
        TagState::DoubleQuoted => if c == '"' {
            Some(TagState::AfterQuoted)
        } else {
            Some(TagState::DoubleQuoted)
        },
        TagState::SingleQuoted => if c == '\'' {
            Some(TagState::AfterQuoted)
        } else {
            Some(TagState::SingleQuoted)
        },
        TagState::Unquoted => if c == '>' {
            None
        } else if space {
            Some(TagState::BeforeAttrName)
        } else {
            Some(TagState::Unquoted)
        },
        TagState::AfterQuoted => if c == '>' {
            None
        } else if space {
            Some(TagState::BeforeAttrName)
        } else if c == '/' {
            Some(TagState::SelfClosing)
        } else {
            Some(TagState::AttrName)
        },
    }
}

/// The `>` that closes a tag read from `k` on in state `st`, else the end.
pub open spec fn tag_close(s: Seq<char>, k: int, st: TagState) -> int
    decreases s.len() - k,
{
    if k < 0 || k >= s.len() {
        s.len() as int
    } else {
        match tag_step(s[k], st) {
            None => k,
            Some(next) => tag_close(s, k + 1, next),
        }
    }
}

/// The value of a digit in base 10 or 16.
pub open spec fn digit_value(c: char, base: int) -> Option<int> {
    if '0' <= c && c <= '9' {
        Some((c as u32) - ('0' as u32))
    } else if base == 16 && 'a' <= c && c <= 'f' {
        Some((c as u32) - ('a' as u32) + 10)
    } else if base == 16 && 'A' <= c && c <= 'F' {
        Some((c as u32) - ('A' as u32) + 10)
    } else {
        None
    }
}

/// The end of the run of digits from `a`.
pub open spec fn digit_end(s: Seq<char>, a: int, base: int) -> int
    decreases s.len() - a,
{
    if a < 0 || a >= s.len() || digit_value(s[a], base) is None {
        a
    } else {
        digit_end(s, a + 1, base)
    }
}

/// The number the digits write.
pub open spec fn digits_value(d: Seq<char>, base: int) -> int
    decreases d.len(),
{
    if d.len() == 0 {
        0
    } else {
        digits_value(d.drop_last(), base) * base + match digit_value(d.last(), base) {
            Some(x) => x,
            None => 0,
        }
    }
}

/// The code of an ASCII whitespace character.
pub open spec fn is_space_code(n: int) -> bool {
    n == 9 || n == 10 || n == 12 || n == 13 || n == 32
}

/// Where a character reference at `i` that stands for ASCII whitespace
/// ends: `&Tab;`, `&NewLine;`, or a decimal (`&#32;`) or hexadecimal
/// (`&#x20;`) reference, its `;` optional.
pub open spec fn space_ref_end(s: Seq<char>, i: int) -> Option<int> {
    if word_at(s, i, seq!['&', 'T', 'a', 'b', ';']) {
        Some(i + 5)
    } else if word_at(s, i, seq!['&', 'N', 'e', 'w', 'L', 'i', 'n', 'e', ';']) {
        Some(i + 9)
    } else if 0 <= i && i + 1 < s.len() && s[i] == '&' && s[i + 1] == '#' {
        let hex = i + 2 < s.len() && (s[i + 2] == 'x' || s[i + 2] == 'X');
        let a = if hex { i + 3 } else { i + 2 };
        let base: int = if hex { 16 } else { 10 };
        let e = digit_end(s, a, base);
        if e > a && is_space_code(digits_value(s.subrange(a, e), base)) {
            Some(if e < s.len() && s[e] == ';' { e + 1 } else { e })
        } else {
            None
        }
    } else {
        None
    }
}

pub proof fn lemma_next_gt(s: Seq<char>, j: int)
    requires
        0 <= j <= s.len(),
    ensures
        j <= next_gt(s, j),
    decreases s.len() - j,
{
    if j < s.len() && s[j] != '>' {
        lemma_next_gt(s, j + 1);
    }
}

pub proof fn lemma_tag_close(s: Seq<char>, k: int, st: TagState)
    requires
        0 <= k <= s.len(),
    ensures
        k <= tag_close(s, k, st),
    decreases s.len() - k,
{
    if k < s.len() {
        match tag_step(s[k], st) {
            None => {},
            Some(next) => lemma_tag_close(s, k + 1, next),
        }
    }
}

pub proof fn lemma_digit_end(s: Seq<char>, a: int, base: int)
    requires
        0 <= a <= s.len(),
    ensures
        a <= digit_end(s, a, base) <= s.len(),
    decreases s.len() - a,
{
    if !(a < 0 || a >= s.len() || digit_value(s[a], base) is None) {
        lemma_digit_end(s, a + 1, base);
    }
}

pub proof fn lemma_space_ref_end(s: Seq<char>, i: int)
    requires
        0 <= i,
    ensures
        space_ref_end(s, i) matches Some(e) ==> i < e <= s.len(),
{
    if 0 <= i && i + 1 < s.len() && s[i] == '&' && s[i + 1] == '#' {
        let hex = i + 2 < s.len() && (s[i + 2] == 'x' || s[i + 2] == 'X');
        let a = if hex { i + 3 } else { i + 2 };
        let base: int = if hex { 16 } else { 10 };
        if a <= s.len() {
            lemma_digit_end(s, a, base);
        }
    }
}

/// Reading from `i`, after what the parser skips before the document, a
/// comment comes: `<!--`, a bogus comment (`<!` other than a doctype, `<?`,
/// or `</` followed by neither a letter nor `>`). Skipped are whitespace,
/// whitespace character references, doctypes, `</>`, and end tags other
/// than `head`, `body`, `html` and `br`. Any other start opens the `html`
/// element.
pub open spec fn comment_ahead(s: Seq<char>, i: int) -> bool
    decreases s.len() - i,
{
    if i < 0 || i >= s.len() {
        false
    } else if is_html_space(s[i]) {
        comment_ahead(s, i + 1)
    } else if s[i] == '&' {
        match space_ref_end(s, i) {
            Some(e) => {
                proof {
                    lemma_space_ref_end(s, i);
                }
                comment_ahead(s, e)
            },
            None => false,
        }
    } else if s[i] != '<' || i + 1 >= s.len() {
        false
    } else if s[i + 1] == '?' {
        true
    } else if s[i + 1] == '!' {
        if ci_word_at(s, i + 2, doctype_word()) {
            let k = next_gt(s, i + 9);
            if k < s.len() {
                proof {
                    lemma_next_gt(s, i + 9);
                }
                comment_ahead(s, k + 1)
            } else {
                false
            }
        } else {
            true
        }
    } else if s[i + 1] == '/' {
        if i + 2 >= s.len() {
            false
        } else if s[i + 2] == '>' {
            comment_ahead(s, i + 3)
        } else if is_ascii_alpha(s[i + 2]) {
            if opens_html(s, i + 2) {
                false
            } else {
                let k = tag_close(s, i + 3, TagState::Name);
                if k < s.len() {
                    proof {
                        lemma_tag_close(s, i + 3, TagState::Name);
                    }
                    comment_ahead(s, k + 1)
                } else {
                    false
                }
            }
        } else {
            true
        }
    } else {
        false
    }
}

/// The parser files a comment ahead of the `html` element of the text: one
/// comes at its start, after a byte-order mark, which the parser drops.
pub open spec fn leads_with_comment(s: Seq<char>) -> bool {
    comment_ahead(s, if s.len() > 0 && s[0] == '\u{FEFF}' { 1 } else { 0 })
}

fn is_html_space_exec(c: char) -> (r: bool)
    ensures
        r == is_html_space(c),
{
    c == ' ' || c == '\t' || c == '\n' || c == '\x0C' || c == '\r'
}

fn ci_eq_exec(c: char, l: char) -> (r: bool)
    ensures
        r == ci_eq(c, l),
{
    c == l || ('a' <= l && l <= 'z' && (l as u32) - 32 == (c as u32))
}

fn ci_word_at_exec(v: &Vec<char>, j: usize, w: &Vec<char>) -> (r: bool)
    ensures
        r == ci_word_at(v@, j as int, w@),
{
    if j > v.len() || w.len() > v.len() - j {
        return false;
    }
    let mut m: usize = 0;
    while m < w.len()
        invariant
            j + w.len() <= v.len(),
            m <= w.len(),
            forall|x: int| 0 <= x < m ==> ci_eq(#[trigger] v@[j + x], w@[x]),
        decreases w.len() - m,
    {
        if !ci_eq_exec(v[j + m], w[m]) {
            assert(!ci_eq(v@[j + m as int], w@[m as int]));
            return false;
        }
        m = m + 1;
    }
    true
}

fn word_at_exec(v: &Vec<char>, j: usize, w: &Vec<char>) -> (r: bool)
    ensures
        r == word_at(v@, j as int, w@),
{
    if j > v.len() || w.len() > v.len() - j {
        return false;
    }
    let mut m: usize = 0;
    while m < w.len()
        invariant
            j + w.len() <= v.len(),
            m <= w.len(),
            forall|x: int| 0 <= x < m ==> #[trigger] v@[j + x] == w@[x],
        decreases w.len() - m,
    {
        if v[j + m] != w[m] {
            assert(v@[j + m as int] != w@[m as int]);
            return false;
        }
        m = m + 1;
    }
    true
}

fn next_gt_exec(v: &Vec<char>, j: usize) -> (r: usize)
    requires
        j <= v.len(),
    ensures
        r == next_gt(v@, j as int),
        r <= v.len(),
{
    let mut k = j;
    while k < v.len() && v[k] != '>'
        invariant
            j <= k <= v.len(),
            next_gt(v@, j as int) == next_gt(v@, k as int),
        decreases v.len() - k,
    {
        k = k + 1;
    }
    k
}

fn name_end_exec(v: &Vec<char>, j: usize) -> (r: usize)
    requires
        j <= v.len(),
    ensures
        r == name_end(v@, j as int),
{
    let mut k = j;
    while k < v.len() && !(is_html_space_exec(v[k]) || v[k] == '/' || v[k] == '>')
        invariant
            j <= k <= v.len(),
            name_end(v@, j as int) == name_end(v@, k as int),
        decreases v.len() - k,
    {
        k = k + 1;
    }
    k
}

fn tag_name_is_exec(v: &Vec<char>, j: usize, e: usize, w: &Vec<char>) -> (r: bool)
    requires
        j <= v.len(),
        e == name_end(v@, j as int),
    ensures
        r == tag_name_is(v@, j as int, w@),
{
    e >= j && e - j == w.len() && ci_word_at_exec(v, j, w)
}

fn opens_html_exec(v: &Vec<char>, j: usize) -> (r: bool)
    requires
        j <= v.len(),
    ensures
        r == opens_html(v@, j as int),
{
    let e = name_end_exec(v, j);
    let head = vec!['h', 'e', 'a', 'd'];
    let body = vec!['b', 'o', 'd', 'y'];
    let html = vec!['h', 't', 'm', 'l'];
    let br = vec!['b', 'r'];
    assert(head@ =~= seq!['h', 'e', 'a', 'd']);
    assert(body@ =~= seq!['b', 'o', 'd', 'y']);
    assert(html@ =~= seq!['h', 't', 'm', 'l']);
    assert(br@ =~= seq!['b', 'r']);
    tag_name_is_exec(v, j, e, &head) || tag_name_is_exec(v, j, e, &body) || tag_name_is_exec(v, j, e, &html)
        || tag_name_is_exec(v, j, e, &br)
}

fn tag_step_exec(c: char, st: TagState) -> (r: Option<TagState>)
    ensures
        r == tag_step(c, st),
{
    let space = is_html_space_exec(c);
    match st {
        TagState::Name => if c == '>' {
            None
        } else if space {
            Some(TagState::BeforeAttrName)
        } else if c == '/' {
            Some(TagState::SelfClosing)
        } else {
            Some(TagState::Name)
        },
        TagState::BeforeAttrName | TagState::SelfClosing => if c == '>' {
            None
        } else if space {
            Some(TagState::BeforeAttrName)
        } else if c == '/' {
            Some(TagState::SelfClosing)
        } else {
            Some(TagState::AttrName)
        },
        TagState::AttrName => if c == '>' {
            None
        } else if space {
            Some(TagState::AfterAttrName)
        } else if c == '/' {
            Some(TagState::SelfClosing)
        } else if c == '=' {
            Some(TagState::BeforeValue)
        } else {
            Some(TagState::AttrName)
        },
        TagState::AfterAttrName => if c == '>' {
            None
        } else if space {
            Some(TagState::AfterAttrName)
        } else if c == '/' {
            Some(TagState::SelfClosing)
        } else if c == '=' {
            Some(TagState::BeforeValue)
        } else {
            Some(TagState::AttrName)
        },
        TagState::BeforeValue => if c == '>' {
            None
        } else if space {
            Some(TagState::BeforeValue)
        } else if c == '"' {
            Some(TagState::DoubleQuoted)
        } else if c == '\'' {
            Some(TagState::SingleQuoted)
        } else {
            Some(TagState::Unquoted)
        },
        TagState::DoubleQuoted => if c == '"' {
            Some(TagState::AfterQuoted)
        } else {
            Some(TagState::DoubleQuoted)
        },
        TagState::SingleQuoted => if c == '\'' {
            Some(TagState::AfterQuoted)
        } else {
            Some(TagState::SingleQuoted)
        },
        TagState::Unquoted => if c == '>' {
            None
        } else if space {
            Some(TagState::BeforeAttrName)
        } else {
            Some(TagState::Unquoted)
        },
        TagState::AfterQuoted => if c == '>' {
            None
        } else if space {
            Some(TagState::BeforeAttrName)
        } else if c == '/' {
            Some(TagState::SelfClosing)
        } else {
            Some(TagState::AttrName)
        },
    }
}

fn tag_close_exec(v: &Vec<char>, k0: usize, st0: TagState) -> (r: usize)
    requires
        k0 <= v.len(),
    ensures
        r == tag_close(v@, k0 as int, st0),
        r <= v.len(),
{
    let mut k = k0;
    let mut st = st0;
    while k < v.len()
        invariant
            k0 <= k <= v.len(),
            tag_close(v@, k0 as int, st0) == tag_close(v@, k as int, st),
        decreases v.len() - k,
    {
        match tag_step_exec(v[k], st) {
            None => return k,
            Some(next) => {
                st = next;
                k = k + 1;
            },
        }
    }
    k
}

fn digit_value_exec(c: char, hex: bool) -> (r: Option<u32>)
    ensures
        match r {
            Some(x) => digit_value(c, if hex { 16 } else { 10 }) == Some(x as int) && x < 16,
            None => digit_value(c, if hex { 16 } else { 10 }) is None,
        },
{
    if '0' <= c && c <= '9' {
        Some((c as u32) - ('0' as u32))
    } else if hex && 'a' <= c && c <= 'f' {
        Some((c as u32) - ('a' as u32) + 10)
    } else if hex && 'A' <= c && c <= 'F' {
        Some((c as u32) - ('A' as u32) + 10)
    } else {
        None
    }
}

proof fn lemma_digits_nonneg(d: Seq<char>, base: int)
    requires
        base >= 1,
    ensures
        digits_value(d, base) >= 0,
    decreases d.len(),
{
    if d.len() > 0 {
        lemma_digits_nonneg(d.drop_last(), base);
        let p = digits_value(d.drop_last(), base);
        assert(p * base >= 0) by (nonlinear_arith)
            requires
                p >= 0,
                base >= 1,
        ;
    }
}

/// Whether the digits from `a` write the code of ASCII whitespace, and
/// where they end.
fn space_digits(v: &Vec<char>, a: usize, hex: bool) -> (r: (bool, usize))
    requires
        a <= v.len(),
    ensures
        r.1 == digit_end(v@, a as int, if hex { 16 } else { 10 }),
        r.1 <= v.len(),
        r.0 == is_space_code(digits_value(v@.subrange(a as int, r.1 as int), if hex { 16 } else { 10 })),
{
    let ghost base: int = if hex { 16 } else { 10 };
    let b: u32 = if hex { 16 } else { 10 };
    let mut e = a;
    let mut val: u32 = 0;
    let mut big = false;
    while e < v.len() && digit_value_exec(v[e], hex).is_some()
        invariant
            a <= e <= v.len(),
            b as int == base,
            base == (if hex { 16int } else { 10int }),
            base == 10 || base == 16,
            digit_end(v@, a as int, base) == digit_end(v@, e as int, base),
            big ==> digits_value(v@.subrange(a as int, e as int), base) > 0x10FFFF,
            !big ==> val == digits_value(v@.subrange(a as int, e as int), base) && val <= 0x10FFFF,
        decreases v.len() - e,
    {
        let x = match digit_value_exec(v[e], hex) {
            Some(x) => x,
            None => 0,
        };
        let ghost old_sub = v@.subrange(a as int, e as int);
        let ghost new_sub = v@.subrange(a as int, e + 1);
        assert(new_sub.drop_last() =~= old_sub);
        assert(new_sub.last() == v@[e as int]);
        let ghost p = digits_value(old_sub, base);
        proof {
            lemma_digits_nonneg(old_sub, base);
        }
        assert(digits_value(new_sub, base) == p * base + x);
        if !big {
            assert(val * b + x <= 0x10FFFF * 16 + 15) by (nonlinear_arith)
                requires
                    val <= 0x10FFFF,
                    b <= 16,
                    x < 16,
            ;
            let n = val * b + x;
            if n > 0x10FFFF {
                big = true;
            } else {
                val = n;
            }
        } else {
            assert(p * base + x >= p) by (nonlinear_arith)
                requires
                    p >= 0,
                    base >= 1,
                    x >= 0,
            ;
        }
        e = e + 1;
    }
    let ghost d = v@.subrange(a as int, e as int);
    let space = !big && (val == 9 || val == 10 || val == 12 || val == 13 || val == 32);
    (space, e)
}

fn space_ref_end_exec(v: &Vec<char>, i: usize) -> (r: Option<usize>)
    requires
        i < v.len(),
    ensures
        match r {
            Some(e) => space_ref_end(v@, i as int) == Some(e as int) && e <= v.len(),
            None => space_ref_end(v@, i as int) is None,
        },
{
    let tab = vec!['&', 'T', 'a', 'b', ';'];
    let newline = vec!['&', 'N', 'e', 'w', 'L', 'i', 'n', 'e', ';'];
    assert(tab@ =~= seq!['&', 'T', 'a', 'b', ';']);
    assert(newline@ =~= seq!['&', 'N', 'e', 'w', 'L', 'i', 'n', 'e', ';']);
    if word_at_exec(v, i, &tab) {
        return Some(i + 5);
    }
    if word_at_exec(v, i, &newline) {
        return Some(i + 9);
    }
    if v.len() - i > 1 && v[i] == '&' && v[i + 1] == '#' {
        let hex = v.len() - i > 2 && (v[i + 2] == 'x' || v[i + 2] == 'X');
        let a = if hex { i + 3 } else { i + 2 };
        let (space, e) = space_digits(v, a, hex);
        if e > a && space {
            if e < v.len() && v[e] == ';' {
                Some(e + 1)
            } else {
                Some(e)
            }
        } else {
            None
        }
    } else {
        None
    }
}

/// Whether the parser files a comment ahead of the `html` element of the
/// text.
pub fn leads_with_comment_exec(v: &Vec<char>) -> (r: bool)
    ensures
        r == leads_with_comment(v@),
{
    let doctype = vec!['d', 'o', 'c', 't', 'y', 'p', 'e'];
    assert(doctype@ =~= doctype_word());
    let mut i: usize = if v.len() > 0 && v[0] == '\u{FEFF}' { 1 } else { 0 };
    while i < v.len()
        invariant
            i <= v.len(),
            doctype@ == doctype_word(),
            leads_with_comment(v@) == comment_ahead(v@, i as int),
        decreases v.len() - i,
    {
        let c = v[i];
        if is_html_space_exec(c) {
            i = i + 1;
        } else if c == '&' {
            proof {
                lemma_space_ref_end(v@, i as int);
            }
            match space_ref_end_exec(v, i) {
                Some(e) => {
                    i = e;
                },
                None => return false,
            }
        } else if c != '<' || v.len() - i < 2 {
            return false;
        } else {
            let d = v[i + 1];
            if d == '?' {
                return true;
            } else if d == '!' {
                if ci_word_at_exec(v, i + 2, &doctype) {
                    let k = next_gt_exec(v, i + 9);
                    proof {
                        lemma_next_gt(v@, i + 9);
                    }
                    if k < v.len() {
                        i = k + 1;
                    } else {
                        return false;
                    }
                } else {
                    return true;
                }
            } else if d == '/' {
                if v.len() - i < 3 {
                    return false;
                }
                let n = v[i + 2];
                if n == '>' {
                    i = i + 3;
                } else if ('a' <= n && n <= 'z') || ('A' <= n && n <= 'Z') {
                    if opens_html_exec(v, i + 2) {
                        return false;
                    }
                    let k = tag_close_exec(v, i + 3, TagState::Name);
                    proof {
                        lemma_tag_close(v@, i + 3, TagState::Name);
                    }
                    if k < v.len() {
                        i = k + 1;
                    } else {
                        return false;
                    }
                } else {
                    return true;
                }
            } else {
                return false;
            }
        }
    }
    false
}

} // verus!
