//! How the system's packages are managed, decided from the configuration and
//! what the machine shows, and how configuration changes move that decision.

use vstd::prelude::*;

use crate::search::{byte_len, split_state, utf8_len};
use crate::text::{chars_of, matches_at};

verus! {

/// How the packages of the system are managed.
#[derive(Debug, Clone, Copy, PartialEq, Eq, Structural)]
pub enum SystemPkgs {
    Flake,
    Unmanaged,
}

/// The application's configuration: the system configuration file, the
/// flake and its argument, and how many generations to keep.
#[derive(Debug)]
pub struct NixDataConfig {
    pub systemconfig: Option<String>,
    pub flake: Option<String>,
    pub flakearg: Option<String>,
    pub generations: Option<u32>,
}

/// The last piece of `s` split at `sep`.
pub open spec fn last_piece(s: Seq<char>, sep: char) -> Seq<char> {
    split_state(s, sep).1
}

/// A NixOS version whose last dotted part is a short commit hash (seven
/// bytes), `dirty` or `git` comes from a flake or a checkout.
pub open spec fn flake_version(version: Seq<char>) -> bool {
    let last = last_piece(version, '.');
    byte_len(last) == 7 || last == seq!['d', 'i', 'r', 't', 'y'] || last == seq!['g', 'i', 't']
}

/// The package management of the system: none unless a system
/// configuration is set on NixOS and the version file can be read; then a
/// flake when there is no root channel, when a flake is configured, or when
/// the version names a commit; otherwise none.
pub open spec fn spec_system_pkgs(has_systemconfig: bool, nixos: bool, version: Option<Seq<char>>, root_channel: bool, has_flake: bool) -> SystemPkgs {
    if !has_systemconfig || !nixos {
        SystemPkgs::Unmanaged
    } else {
        match version {
            Some(v) => if !root_channel || has_flake || flake_version(v) {
                SystemPkgs::Flake
            } else {
                SystemPkgs::Unmanaged
            },
            None => SystemPkgs::Unmanaged,
        }
    }
}

fn last_piece_of(v: &Vec<char>, sep: char) -> (r: Vec<char>)
    ensures
        r@ == last_piece(v@, sep),
{
    let mut start: usize = 0;
    let mut i: usize = 0;
    while i < v.len()
        invariant
            start <= i <= v.len(),
            split_state(v@.take(i as int), sep).1 == v@.subrange(start as int, i as int),
        decreases v.len() - i,
    {
        assert(v@.take(i + 1).drop_last() =~= v@.take(i as int));
        assert(v@.take(i + 1).last() == v@[i as int]);
        if v[i] == sep {
            start = i + 1;
            assert(v@.subrange(start as int, i + 1) =~= Seq::<char>::empty());
        } else {
            assert(v@.subrange(start as int, i + 1) =~= v@.subrange(start as int, i as int).push(v@[i as int]));
        }
        i = i + 1;
    }
    assert(v@.take(v.len() as int) =~= v@);
    let mut r: Vec<char> = Vec::new();
    let mut k: usize = start;
    while k < v.len()
        invariant
            start <= k <= v.len(),
            r@ == v@.subrange(start as int, k as int),
        decreases v.len() - k,
    {
        r.push(v[k]);
        assert(r@ =~= v@.subrange(start as int, k + 1));
        k = k + 1;
    }
    r
}

fn same_chars(a: &Vec<char>, b: &Vec<char>) -> (r: bool)
    ensures
        r == (a@ == b@),
{
    if a.len() != b.len() {
        return false;
    }
    let r = matches_at(a, 0, b);
    assert(a@.subrange(0, b@.len() as int) =~= a@);
    r
}

/// Whether a NixOS version string names a flake build.
pub fn is_flake_version(version: &str) -> (r: bool)
    ensures
        r == flake_version(version@),
{
    let v = chars_of(version);
    let last = last_piece_of(&v, '.');
    let dirty = chars_of("dirty");
    let git = chars_of("git");
    proof {
        reveal_strlit("dirty");
        reveal_strlit("git");
        assert(dirty@ =~= seq!['d', 'i', 'r', 't', 'y']);
        assert(git@ =~= seq!['g', 'i', 't']);
    }
    utf8_len(&last) == 7 || same_chars(&last, &dirty) || same_chars(&last, &git)
}

/// Decides how the system's packages are managed. `version` is the content
/// of the running system's version file, `None` where it cannot be read;
/// `root_channel` says whether root's `nixos` channel exists.
pub fn system_pkgs(has_systemconfig: bool, nixos: bool, version: Option<&str>, root_channel: bool, has_flake: bool) -> (r: SystemPkgs)
    ensures
        r == spec_system_pkgs(has_systemconfig, nixos, match version { Some(v) => Some(v@), None => None }, root_channel, has_flake),
{
    if !has_systemconfig || !nixos {
        SystemPkgs::Unmanaged
    } else {
        match version {
            Some(v) => if !root_channel || has_flake || is_flake_version(v) {
                SystemPkgs::Flake
            } else {
                SystemPkgs::Unmanaged
            },
            None => SystemPkgs::Unmanaged,
        }
    }
}

/// Whether the welcome page must be shown: there is no configuration, or a
/// configured system configuration or flake path does not exist.
pub fn needs_welcome(has_config: bool, systemconfig_set: bool, systemconfig_exists: bool, flake_set: bool, flake_exists: bool) -> (r: bool)
    ensures
        r == (!has_config || (systemconfig_set && !systemconfig_exists) || (flake_set && !flake_exists)),
{
    !has_config || (systemconfig_set && !systemconfig_exists) || (flake_set && !flake_exists)
}

/// The package management after the system configuration is changed: none
/// without a configuration or off NixOS; from none to a flake when a flake
/// is configured; otherwise as it was.
pub open spec fn spec_after_sysconfig(current: SystemPkgs, has_systemconfig: bool, nixos: bool, has_flake: bool) -> SystemPkgs {
    if has_systemconfig && nixos {
        if current == SystemPkgs::Unmanaged {
            if has_flake { SystemPkgs::Flake } else { SystemPkgs::Unmanaged }
        } else {
            current
        }
    } else {
        SystemPkgs::Unmanaged
    }
}

/// The package management after the flake is changed: on NixOS a flake
/// exactly when one is set; elsewhere as it was.
pub open spec fn spec_after_flake(current: SystemPkgs, nixos: bool, has_flake: bool) -> SystemPkgs {
    if nixos {
        if has_flake { SystemPkgs::Flake } else { SystemPkgs::Unmanaged }
    } else {
        current
    }
}

impl NixDataConfig {
    /// An empty configuration.
    pub fn empty() -> (r: NixDataConfig)
        ensures
            r.systemconfig is None,
            r.flake is None,
            r.flakearg is None,
            r.generations is None,
    {
        NixDataConfig { systemconfig: None, flake: None, flakearg: None, generations: None }
    }
}

/// Sets the system configuration and returns the new package management.
pub fn update_sysconfig(config: &mut NixDataConfig, current: SystemPkgs, systemconfig: Option<String>, nixos: bool) -> (r: SystemPkgs)
    ensures
        final(config).systemconfig == systemconfig,
        final(config).flake == old(config).flake,
        final(config).flakearg == old(config).flakearg,
        final(config).generations == old(config).generations,
        r == spec_after_sysconfig(current, systemconfig is Some, nixos, old(config).flake is Some),
{
    let has = systemconfig.is_some();
    config.systemconfig = systemconfig;
    if has && nixos {
        if current == SystemPkgs::Unmanaged {
            if config.flake.is_some() { SystemPkgs::Flake } else { SystemPkgs::Unmanaged }
        } else {
            current
        }
    } else {
        SystemPkgs::Unmanaged
    }
}

/// Sets the flake and its argument and returns the new package management.
pub fn update_flake(config: &mut NixDataConfig, current: SystemPkgs, flake: Option<String>, flakearg: Option<String>, nixos: bool) -> (r: SystemPkgs)
    ensures
        final(config).systemconfig == old(config).systemconfig,
        final(config).flake == flake,
        final(config).flakearg == flakearg,
        final(config).generations == old(config).generations,
        r == spec_after_flake(current, nixos, flake is Some),
{
    let has = flake.is_some();
    config.flake = flake;
    config.flakearg = flakearg;
    if nixos {
        if has { SystemPkgs::Flake } else { SystemPkgs::Unmanaged }
    } else {
        current
    }
}

} // verus!
