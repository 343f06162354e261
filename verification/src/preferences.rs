//! The preferences dialog and the saved application state.

use vstd::prelude::*;

use crate::license::clone_opt_string;
use crate::package::InstallType;
use crate::system::NixDataConfig;

verus! {

/// What the application remembers between runs.
#[derive(Debug)]
pub struct State {
    pub install_type: Option<InstallType>,
}

/// The saved state with the install type chosen: the state read back, or an
/// empty one where none could be read, with `install_type` set.
pub fn state_with_install_type(loaded: Option<State>, install_type: InstallType) -> (r: State)
    ensures
        r.install_type == Some(install_type),
{
    let mut state = match loaded {
        Some(s) => s,
        None => State { install_type: None },
    };
    state.install_type = Some(install_type);
    state
}

/// The state of the preferences dialog. Paths are held as text.
pub struct PreferencesPageModel {
    pub configpath: Option<String>,
    pub flake: Option<String>,
    pub flakearg: Option<String>,
    pub flake_pending: bool,
}

pub enum PreferencesPageMsg {
    Show(NixDataConfig),
    Open,
    OpenFlake,
    SetConfigPath(Option<String>),
    SetFlakePath(Option<String>),
    SetFlakeArg(Option<String>),
    ModifyFlake,
    CancelFlakeSelection,
    Ignore,
}

pub enum PreferencesEffect {
    /// Show the dialog over the active window.
    Present,
    /// Open the file chooser for the system configuration.
    OpenConfigDialog,
    /// Open the file chooser for the flake.
    OpenFlakeDialog,
    /// Tell the window the new system configuration.
    UpdateSysconfig(Option<String>),
    /// Ask the window to reload the installed packages.
    UpdateInstalledPkgs,
    /// Send `ModifyFlake` back to the dialog.
    ModifyFlake,
    /// Tell the window the new flake and its argument.
    UpdateFlake(Option<String>, Option<String>),
}

/// The flake path handed on: none for an empty path.
pub open spec fn flake_path(f: Option<String>) -> Option<Seq<char>> {
    match f {
        Some(p) => if p@.len() == 0 { None } else { Some(p@) },
        None => None,
    }
}

impl PreferencesPageModel {
    pub fn new() -> (r: PreferencesPageModel)
        ensures
            r.configpath is None,
            r.flake is None,
            r.flakearg is None,
            !r.flake_pending,
    {
        PreferencesPageModel { configpath: None, flake: None, flakearg: None, flake_pending: false }
    }

    /// Handles a message of the preferences dialog.
    pub fn update(&mut self, msg: PreferencesPageMsg) -> (r: Vec<PreferencesEffect>)
        ensures
            match msg {
                PreferencesPageMsg::Show(c) => {
                    &&& final(self).configpath == c.systemconfig
                    &&& final(self).flake == c.flake
                    &&& final(self).flakearg == c.flakearg
                    &&& final(self).flake_pending == old(self).flake_pending
                    &&& r@.len() == 1 && r@[0] is Present
                },
                PreferencesPageMsg::Open => *final(self) == *old(self) && r@.len() == 1 && r@[0] is OpenConfigDialog,
                PreferencesPageMsg::OpenFlake => {
                    &&& final(self).flake_pending
                    &&& final(self).configpath == old(self).configpath
                    &&& final(self).flake == old(self).flake
                    &&& final(self).flakearg == old(self).flakearg
                    &&& r@.len() == 1 && r@[0] is OpenFlakeDialog
                },
                PreferencesPageMsg::SetConfigPath(p) => {
                    &&& final(self).configpath == p
                    &&& final(self).flake == old(self).flake
                    &&& final(self).flakearg == old(self).flakearg
                    &&& final(self).flake_pending == old(self).flake_pending
                    &&& r@.len() == 2
                    &&& (r@[0] matches PreferencesEffect::UpdateSysconfig(q) && q == p)
                    &&& r@[1] is UpdateInstalledPkgs
                },
                PreferencesPageMsg::SetFlakePath(p) => {
                    &&& final(self).flake == p
                    &&& !final(self).flake_pending
                    &&& final(self).configpath == old(self).configpath
                    &&& final(self).flakearg == (if p is None { None } else { old(self).flakearg })
                    &&& r@.len() == 1 && r@[0] is ModifyFlake
                },
                PreferencesPageMsg::SetFlakeArg(a) => {
                    &&& final(self).flakearg == a
                    &&& final(self).configpath == old(self).configpath
                    &&& final(self).flake == old(self).flake
                    &&& final(self).flake_pending == old(self).flake_pending
                    &&& r@.len() == 1 && r@[0] is ModifyFlake
                },
                PreferencesPageMsg::ModifyFlake => {
                    &&& *final(self) == *old(self)
                    &&& r@.len() == 1
                    &&& r@[0] matches PreferencesEffect::UpdateFlake(f, a)
                    &&& (match f { Some(s) => Some(s@), None => None }) == flake_path(old(self).flake)
                    &&& a == old(self).flakearg
                },
                PreferencesPageMsg::CancelFlakeSelection => {
                    &&& !final(self).flake_pending
                    &&& final(self).configpath == old(self).configpath
                    &&& final(self).flake == old(self).flake
                    &&& final(self).flakearg == old(self).flakearg
                    &&& r@.len() == 0
                },
                PreferencesPageMsg::Ignore => *final(self) == *old(self) && r@.len() == 0,
            },
    {
        match msg {
            PreferencesPageMsg::Show(c) => {
                self.configpath = c.systemconfig;
                self.flake = c.flake;
                self.flakearg = c.flakearg;
                vec![PreferencesEffect::Present]
            },
            PreferencesPageMsg::Open => vec![PreferencesEffect::OpenConfigDialog],
            PreferencesPageMsg::OpenFlake => {
                self.flake_pending = true;
                vec![PreferencesEffect::OpenFlakeDialog]
            },
            PreferencesPageMsg::SetConfigPath(p) => {
                let sent = clone_opt_string(&p);
                self.configpath = p;
                vec![PreferencesEffect::UpdateSysconfig(sent), PreferencesEffect::UpdateInstalledPkgs]
            },
            PreferencesPageMsg::SetFlakePath(p) => {
                let none = p.is_none();
                self.flake = p;
                self.flake_pending = false;
                if none {
                    self.flakearg = None;
                }
                vec![PreferencesEffect::ModifyFlake]
            },
            PreferencesPageMsg::SetFlakeArg(a) => {
                self.flakearg = a;
                vec![PreferencesEffect::ModifyFlake]
            },
            PreferencesPageMsg::ModifyFlake => {
                let f = match &self.flake {
                    Some(p) => if p.as_str().is_empty() { None } else { Some(p.clone()) },
                    None => None,
                };
                vec![PreferencesEffect::UpdateFlake(f, clone_opt_string(&self.flakearg))]
            },
            PreferencesPageMsg::CancelFlakeSelection => {
                self.flake_pending = false;
                Vec::new()
            },
            PreferencesPageMsg::Ignore => Vec::new(),
        }
    }
}

} // verus!
