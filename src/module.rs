//! The modules that a prompt can be made of, by name.

use vstd::prelude::*;
use crate::text::str_eq;

verus! {

/// One kind of status segment.
#[derive(Clone, Copy, PartialEq, Eq, Debug, Structural)]
pub enum Module {
    Cwd,
    Git,
    GitStage,
    Host,
    Jobs,
    LineBreak,
    NixShell,
    Perms,
    Ps,
    Root,
    Ssh,
    Time,
    User,
    VirtualEnv,
}

/// The name by which a module is asked for.
pub open spec fn module_name(m: Module) -> Seq<char> {
    match m {
        Module::Cwd => "cwd"@,
        Module::Git => "git"@,
        Module::GitStage => "gitstage"@,
        Module::Host => "host"@,
        Module::Jobs => "jobs"@,
        Module::LineBreak => "linebreak"@,
        Module::NixShell => "nix-shell"@,
        Module::Perms => "perms"@,
        Module::Ps => "ps"@,
        Module::Root => "root"@,
        Module::Ssh => "ssh"@,
        Module::Time => "time"@,
        Module::User => "user"@,
        Module::VirtualEnv => "virtualenv"@,
    }
}

impl Module {
    /// The module called `s`, if there is one.
    pub fn from_name(s: &str) -> (r: Option<Module>)
        ensures
            r matches Some(m) ==> s@ == module_name(m),
            r is None ==> forall|m: Module| s@ != #[trigger] module_name(m),
    {
        if str_eq(s, "cwd") {
            Some(Module::Cwd)
        } else if str_eq(s, "git") {
            Some(Module::Git)
        } else if str_eq(s, "gitstage") {
            Some(Module::GitStage)
        } else if str_eq(s, "host") {
            Some(Module::Host)
        } else if str_eq(s, "jobs") {
            Some(Module::Jobs)
        } else if str_eq(s, "linebreak") {
            Some(Module::LineBreak)
        } else if str_eq(s, "nix-shell") {
            Some(Module::NixShell)
        } else if str_eq(s, "perms") {
            Some(Module::Perms)
        } else if str_eq(s, "ps") {
            Some(Module::Ps)
        } else if str_eq(s, "root") {
            Some(Module::Root)
        } else if str_eq(s, "ssh") {
            Some(Module::Ssh)
        } else if str_eq(s, "time") {
            Some(Module::Time)
        } else if str_eq(s, "user") {
            Some(Module::User)
        } else if str_eq(s, "virtualenv") {
            Some(Module::VirtualEnv)
        } else {
            proof {
                assert forall|m: Module| s@ != #[trigger] module_name(m) by {
                    match m {
                        Module::Cwd => {},
                        Module::Git => {},
                        Module::GitStage => {},
                        Module::Host => {},
                        Module::Jobs => {},
                        Module::LineBreak => {},
                        Module::NixShell => {},
                        Module::Perms => {},
                        Module::Ps => {},
                        Module::Root => {},
                        Module::Ssh => {},
                        Module::Time => {},
                        Module::User => {},
                        Module::VirtualEnv => {},
                    }
                }
            }
            None
        }
    }
}

impl std::str::FromStr for Module {
    type Err = ();

    fn from_str(s: &str) -> Result<Module, ()> {
        match Module::from_name(s) {
            Some(m) => Ok(m),
            None => Err(()),
        }
    }
}

} // verus!
