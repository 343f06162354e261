//! The licenses shown on a package page, from the nixpkgs license field and
//! the SPDX license list.

use vstd::prelude::*;
use vstd::string::StringExecFns;

use crate::packages::{License as PkgLicense, LicenseEnum};

verus! {

/// A license as the package page shows it.
#[derive(Debug, PartialEq, Eq)]
pub struct License {
    pub free: Option<bool>,
    pub fullname: String,
    pub spdx_id: Option<String>,
    pub url: Option<String>,
}

/// Mathematical model of a shown [`License`].
pub struct LicenseModel {
    pub free: Option<bool>,
    pub fullname: Seq<char>,
    pub spdx_id: Option<Seq<char>>,
    pub url: Option<Seq<char>>,
}

pub open spec fn opt_view(o: Option<String>) -> Option<Seq<char>> {
    match o {
        Some(s) => Some(s@),
        None => None,
    }
}

impl View for License {
    type V = LicenseModel;

    open spec fn view(&self) -> LicenseModel {
        LicenseModel {
            free: self.free,
            fullname: self.fullname@,
            spdx_id: opt_view(self.spdx_id),
            url: opt_view(self.url),
        }
    }
}

pub open spec fn licenses_view(v: Seq<License>) -> Seq<LicenseModel> {
    v.map_values(|l: License| l@)
}

/// What the SPDX license list says of a license: short identifier, full
/// name, OSI approval, FSF free/libre status.
pub struct SpdxLicense {
    pub name: String,
    pub full_name: String,
    pub osi_approved: bool,
    pub fsf_free_libre: bool,
}

/// The first license that `spdx::Expression::parse` finds in an expression,
/// as (short identifier, full name, OSI approved, FSF free/libre); none when
/// the expression does not parse or its first term is not on the SPDX list.
pub uninterp spec fn spdx_first_license(expr: Seq<char>) -> Option<(Seq<char>, Seq<char>, bool, bool)>;

/// `spdx::Expression::parse`, then the first requirement's `LicenseId`.
#[verifier::external_body]
fn first_spdx_license(expr: &str) -> (r: Option<SpdxLicense>)
    ensures
        match r {
            Some(l) => spdx_first_license(expr@) == Some((l.name@, l.full_name@, l.osi_approved, l.fsf_free_libre)),
            None => spdx_first_license(expr@) is None,
        },
{
    let e = spdx::Expression::parse(expr).ok()?;
    let er = e.requirements().next()?;
    let id = er.req.license.id()?;
    Some(SpdxLicense {
        name: id.name.to_string(),
        full_name: id.full_name.to_string(),
        osi_approved: id.is_osi_approved(),
        fsf_free_libre: id.is_fsf_free_libre(),
    })
}

/// The page of a license on spdx.org.
pub open spec fn spdx_url(name: Seq<char>) -> Seq<char> {
    "https://spdx.org/licenses/"@ + name + ".html"@
}

fn spdx_url_exec(name: &String) -> (r: String)
    ensures
        r@ == spdx_url(name@),
{
    let mut s = String::from_str("https://spdx.org/licenses/");
    s.append(name.as_str());
    s.append(".html");
    s
}

pub open spec fn is_free(p: (Seq<char>, Seq<char>, bool, bool)) -> bool {
    p.2 || p.3
}

/// What the SPDX list says of a license, as a value.
pub open spec fn spdx_view(o: Option<SpdxLicense>) -> Option<(Seq<char>, Seq<char>, bool, bool)> {
    match o {
        Some(l) => Some((l.name@, l.full_name@, l.osi_approved, l.fsf_free_libre)),
        None => None,
    }
}

/// The text a license record is looked up by on the SPDX list: its SPDX
/// identifier, else its full name.
pub open spec fn license_key(l: PkgLicense) -> Option<Seq<char>> {
    match l.spdxid {
        Some(id) => Some(id@),
        None => match l.fullname {
            Some(n) => Some(n@),
            None => None,
        },
    }
}

/// The shown entry of a license record, given what the SPDX list says of
/// its key. A record with a full name always yields one, completed from the
/// list where it lacks a status or a link; one without yields one only when
/// its SPDX identifier is on the list.
pub open spec fn record_entry(l: PkgLicense, parsed: Option<(Seq<char>, Seq<char>, bool, bool)>) -> Option<LicenseModel> {
    match l.fullname {
        Some(n) => Some(LicenseModel {
            free: match l.free {
                Some(f) => Some(f),
                None => match parsed {
                    Some(p) => Some(is_free(p)),
                    None => None,
                },
            },
            fullname: n@,
            spdx_id: opt_view(l.spdxid),
            url: match l.url {
                Some(u) => Some(u@),
                None => match parsed {
                    Some(p) => Some(spdx_url(p.0)),
                    None => None,
                },
            },
        }),
        None => match l.spdxid {
            Some(_) => match parsed {
                Some(p) => Some(LicenseModel {
                    free: Some(
                        is_free(p) || match l.free {
                            Some(f) => f,
                            None => false,
                        },
                    ),
                    fullname: p.1,
                    spdx_id: Some(p.0),
                    url: match l.url {
                        Some(u) => Some(u@),
                        None => Some(spdx_url(p.0)),
                    },
                }),
                None => None,
            },
            None => None,
        },
    }
}

/// The shown entry of one license record, if it yields one.
pub open spec fn single_license_entry(l: PkgLicense) -> Option<LicenseModel> {
    record_entry(
        l,
        match license_key(l) {
            Some(k) => spdx_first_license(k),
            None => None,
        },
    )
}

/// The shown entry of an SPDX expression, given the first license the list
/// has of it: that license, with its status and its page on spdx.org.
pub open spec fn expression_entry_of(parsed: Option<(Seq<char>, Seq<char>, bool, bool)>) -> Option<LicenseModel> {
    match parsed {
        Some(p) => Some(LicenseModel {
            free: Some(is_free(p)),
            fullname: p.1,
            spdx_id: Some(p.0),
            url: Some(spdx_url(p.0)),
        }),
        None => None,
    }
}

/// The shown entry of a license given as an SPDX expression, if it yields one.
pub open spec fn expression_license_entry(s: Seq<char>) -> Option<LicenseModel> {
    expression_entry_of(spdx_first_license(s))
}

pub open spec fn opt_license_view(o: Option<License>) -> Option<LicenseModel> {
    match o {
        Some(x) => Some(x@),
        None => None,
    }
}

pub open spec fn opt_seq(o: Option<LicenseModel>) -> Seq<LicenseModel> {
    match o {
        Some(m) => seq![m],
        None => Seq::empty(),
    }
}

pub open spec fn records_entries(ls: Seq<PkgLicense>) -> Seq<LicenseModel>
    decreases ls.len(),
{
    if ls.len() == 0 {
        Seq::empty()
    } else {
        records_entries(ls.drop_last()) + opt_seq(single_license_entry(ls.last()))
    }
}

pub open spec fn expressions_entries(ls: Seq<String>) -> Seq<LicenseModel>
    decreases ls.len(),
{
    if ls.len() == 0 {
        Seq::empty()
    } else {
        expressions_entries(ls.drop_last()) + opt_seq(expression_license_entry(ls.last()@))
    }
}

/// The shown licenses of a license field, in order.
pub open spec fn license_entries(l: LicenseEnum) -> Seq<LicenseModel>
    decreases l,
{
    match l {
        LicenseEnum::Single(r) => opt_seq(single_license_entry(r)),
        LicenseEnum::List(lst) => records_entries(lst@),
        LicenseEnum::SingleStr(s) => opt_seq(expression_license_entry(s@)),
        LicenseEnum::VecStr(lst) => expressions_entries(lst@),
        LicenseEnum::Mixed(v) => mixed_entries(v@),
    }
}

pub open spec fn mixed_entries(ls: Seq<LicenseEnum>) -> Seq<LicenseModel>
    decreases ls,
{
    if ls.len() == 0 {
        Seq::empty()
    } else {
        mixed_entries(ls.drop_last()) + license_entries(ls.last())
    }
}


/// A copy of an optional string.
pub fn clone_opt_string(o: &Option<String>) -> (r: Option<String>)
    ensures
        r == *o,
{
    match o {
        Some(s) => Some(s.clone()),
        None => None,
    }
}

/// The shown entry of a license record, from what the SPDX list says of its
/// key.
pub fn license_entry_from_spdx(l: &PkgLicense, parsed: Option<SpdxLicense>) -> (r: Option<License>)
    ensures
        opt_license_view(r) == record_entry(*l, spdx_view(parsed)),
{
    match &l.fullname {
        Some(n) => {
            let free = match l.free {
                Some(f) => Some(f),
                None => match &parsed {
                    Some(p) => Some(p.osi_approved || p.fsf_free_libre),
                    None => None,
                },
            };
            let url = match &l.url {
                Some(u) => Some(u.clone()),
                None => match &parsed {
                    Some(p) => Some(spdx_url_exec(&p.name)),
                    None => None,
                },
            };
            Some(License { free, fullname: n.clone(), spdx_id: clone_opt_string(&l.spdxid), url })
        },
        None => match &l.spdxid {
            Some(_) => match parsed {
                Some(p) => {
                    let url = match &l.url {
                        Some(u) => Some(u.clone()),
                        None => Some(spdx_url_exec(&p.name)),
                    };
                    let extra = match l.free {
                        Some(f) => f,
                        None => false,
                    };
                    Some(
                        License {
                            free: Some(p.osi_approved || p.fsf_free_libre || extra),
                            fullname: p.full_name,
                            spdx_id: Some(p.name),
                            url,
                        },
                    )
                },
                None => None,
            },
            None => None,
        },
    }
}

/// The shown entry of an SPDX expression, from the first license the list
/// has of it.
pub fn expression_entry_from_spdx(parsed: Option<SpdxLicense>) -> (r: Option<License>)
    ensures
        opt_license_view(r) == expression_entry_of(spdx_view(parsed)),
{
    match parsed {
        Some(p) => {
            let url = spdx_url_exec(&p.name);
            Some(
                License {
                    free: Some(p.osi_approved || p.fsf_free_libre),
                    fullname: p.full_name,
                    spdx_id: Some(p.name),
                    url: Some(url),
                },
            )
        },
        None => None,
    }
}

/// The shown entry of a license record: its key looked up on the SPDX list.
fn single_entry(l: &PkgLicense) -> (r: Option<License>)
    ensures
        opt_license_view(r) == single_license_entry(*l),
{
    let parsed = match &l.spdxid {
        Some(id) => first_spdx_license(id.as_str()),
        None => match &l.fullname {
            Some(n) => first_spdx_license(n.as_str()),
            None => None,
        },
    };
    assert(spdx_view(parsed) == match license_key(*l) {
        Some(k) => spdx_first_license(k),
        None => None::<(Seq<char>, Seq<char>, bool, bool)>,
    });
    license_entry_from_spdx(l, parsed)
}

/// The shown entry of an SPDX expression: its first license on the list.
fn expression_entry(s: &String) -> (r: Option<License>)
    ensures
        opt_license_view(r) == expression_license_entry(s@),
{
    let parsed = first_spdx_license(s.as_str());
    expression_entry_from_spdx(parsed)
}

pub open spec fn opt_license_seq(o: Option<License>) -> Seq<LicenseModel> {
    match o {
        Some(x) => seq![x@],
        None => Seq::empty(),
    }
}

fn push_entry(licenses: &mut Vec<License>, e: Option<License>)
    ensures
        licenses_view(final(licenses)@) == licenses_view(old(licenses)@) + opt_license_seq(e),
{
    match e {
        Some(x) => {
            licenses.push(x);
            assert(licenses_view(licenses@) =~= licenses_view(old(licenses)@) + seq![x@]);
        },
        None => {
            assert(licenses_view(licenses@) =~= licenses_view(old(licenses)@) + Seq::<LicenseModel>::empty());
        },
    }
}

/// Appends the licenses that a package's license field names, in order.
pub fn addlicense(pkglicense: &LicenseEnum, licenses: &mut Vec<License>)
    ensures
        licenses_view(final(licenses)@) == licenses_view(old(licenses)@) + license_entries(*pkglicense),
    decreases pkglicense,
{
    let ghost start = licenses_view(licenses@);
    match pkglicense {
        LicenseEnum::Single(l) => {
            push_entry(licenses, single_entry(l));
        },
        LicenseEnum::List(lst) => {
            let mut i: usize = 0;
            while i < lst.len()
                invariant
                    i <= lst.len(),
                    licenses_view(licenses@) == start + records_entries(lst@.take(i as int)),
                decreases lst.len() - i,
            {
                assert(lst@.take(i + 1).drop_last() =~= lst@.take(i as int));
                push_entry(licenses, single_entry(&lst[i]));
                i = i + 1;
            }
            assert(lst@.take(lst.len() as int) =~= lst@);
        },
        LicenseEnum::SingleStr(s) => {
            push_entry(licenses, expression_entry(s));
        },
        LicenseEnum::VecStr(lst) => {
            let mut i: usize = 0;
            while i < lst.len()
                invariant
                    i <= lst.len(),
                    licenses_view(licenses@) == start + expressions_entries(lst@.take(i as int)),
                decreases lst.len() - i,
            {
                assert(lst@.take(i + 1).drop_last() =~= lst@.take(i as int));
                push_entry(licenses, expression_entry(&lst[i]));
                i = i + 1;
            }
            assert(lst@.take(lst.len() as int) =~= lst@);
        },
        LicenseEnum::Mixed(v) => {
            let mut i: usize = 0;
            while i < v.len()
                invariant
                    i <= v.len(),
                    *pkglicense == LicenseEnum::Mixed(*v),
                    licenses_view(licenses@) == start + mixed_entries(v@.take(i as int)),
                decreases v.len() - i,
            {
                assert(v@.take(i + 1).drop_last() =~= v@.take(i as int));
                proof {
                    assert(decreases_to!(*pkglicense => (*pkglicense)->Mixed_0));
                    assert((*pkglicense)->Mixed_0 == *v);
                    assert(decreases_to!(*v => v@));
                    assert(decreases_to!(v@ => v@[i as int]));
                }
                addlicense(&v[i], licenses);
                i = i + 1;
            }
            assert(v@.take(v.len() as int) =~= v@);
        },
    }
}

} // verus!
