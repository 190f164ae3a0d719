//! Module that contains the code for locating the `vswhere.exe` binary.
//!
//! Running the executable is the embedding application's job; this module
//! only decides which path to use and whether the resolution succeeds,
//! given the override value and the existence observation the application
//! supplies.
use vstd::prelude::*;

use vstd::string::StringExecFns;

use crate::vs_installation::opt_str_view;
use crate::Error;

verus! {

/// The path where vswhere is looked for: the override value when one is
/// supplied, else the default installer location.
pub open spec fn vswhere_path_spec(env_override: Option<Seq<char>>) -> Seq<char> {
    match env_override {
        Some(p) => p,
        None => "C:\\Program Files (x86)\\Microsoft Visual Studio\\Installer\\vswhere.exe"@,
    }
}

/// Type for finding and interacting with the vswhere executable.
#[derive(Debug)]
pub struct VsWhere {
    path: String,
}

impl View for VsWhere {
    type V = Seq<char>;

    closed spec fn view(&self) -> Seq<char> {
        self.path@
    }
}

impl VsWhere {
    /// The path where vswhere is looked for, given the override value the
    /// embedding application read from its environment.
    pub fn vswhere_path(env_override: &Option<String>) -> (r: String)
        ensures
            r@ == vswhere_path_spec(opt_str_view(*env_override)),
    {
        match env_override {
            Some(p) => p.clone(),
            None => String::from_str(
                "C:\\Program Files (x86)\\Microsoft Visual Studio\\Installer\\vswhere.exe",
            ),
        }
    }

    /// Creates a VsWhere object if the vswhere binary can be found; the
    /// embedding application reports whether the selected path exists.
    pub fn find_vswhere(env_override: &Option<String>, path_exists: bool) -> (r: Result<
        VsWhere,
        Error,
    >)
        ensures
            path_exists ==> (r matches Ok(w) && w@ == vswhere_path_spec(
                opt_str_view(*env_override),
            )),
            !path_exists ==> r == Err::<VsWhere, Error>(Error::NotFound),
    {
        let path: String = Self::vswhere_path(env_override);
        if path_exists {
            Ok(VsWhere { path })
        } else {
            Err(Error::NotFound)
        }
    }

    /// The selected path of the vswhere executable.
    pub fn path(&self) -> (r: &str)
        ensures
            r@ == self@,
    {
        self.path.as_str()
    }
}

} // verus!
