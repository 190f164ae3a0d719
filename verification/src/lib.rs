//! Locating versioned toolchain installations.
//!
//! The crate resolves the filesystem location of a versioned toolchain
//! installation (a Visual Studio or build-tools instance, or a Windows SDK
//! revision).  Candidates are enumerated by a collaborator outside this
//! library, filtered by a semantic-version range, and one of them is selected
//! either by an explicit override path or by taking the highest version.
//!
//! All decisions are made on plain values handed in by the caller: candidate
//! records, the optional override path, and a snapshot of which directories
//! the caller observed on disk.  Process spawning, environment variables,
//! registry reads and directory listings stay with the embedding application.

use vstd::prelude::*;

mod versions;

pub mod vs_installation;
pub mod vs_llvm;
pub mod vs_paths;
pub mod vs_where;
pub mod win_sdk;

pub use vs_installation::VsInstallation;
pub use vs_llvm::VsLlvm;
pub use vs_where::VsWhere;

pub use versions::has_version_in_range;
pub use versions::VsInstallationVersion;
pub use versions::VsProductLineVersion;

use crate::vs_installation::{
    find_match_spec, opt_str_view, records_view, InstanceRecord, InstanceRecordView,
};
use crate::vs_paths::{join_path, join_path_spec};
use crate::versions::{plv_max_parts, plv_min_parts, product_line_of, version_opt_view};

verus! {

/// Failure of a resolution step.
#[derive(Debug, Clone, Copy, PartialEq, Eq, Structural)]
pub enum Error {
    /// A version string could not be parsed.
    InvalidFormat,
    /// A candidate record lacked an expected field.
    MissingField,
    /// No candidate survived filtering and selection.
    NotFound,
    /// A required path is not an existing directory.
    NotADirectory,
}

/// The view of an optional product line name.
pub open spec fn opt_name_view(o: Option<&str>) -> Option<Seq<char>> {
    match o {
        Some(s) => Some(s@),
        None => None,
    }
}

/// The path of the msbuild executable inside an installation root.
pub open spec fn msbuild_exe_of(install: Seq<char>) -> Seq<char> {
    join_path_spec(install, "MsBuild/Current/Bin/msbuild.exe"@)
}

/// What resolving msbuild over a batch of records in a version range
/// yields: the selected installation's executable path, or the failure of
/// the selection.
pub open spec fn msbuild_in_range_spec(
    max: Option<Seq<u64>>,
    min: Option<Seq<u64>>,
    recs: Seq<InstanceRecordView>,
    op: Option<Seq<char>>,
) -> Result<Seq<char>, Error> {
    match find_match_spec(recs, max, min, op) {
        Ok(p) => Ok(msbuild_exe_of(p)),
        Err(e) => Err(e),
    }
}

/// What resolving msbuild for an optional product line name yields: the
/// name picks the version range, an unknown name is `InvalidFormat`, and no
/// name leaves the range unbounded.
pub open spec fn find_msbuild_spec(
    plv: Option<Seq<char>>,
    recs: Seq<InstanceRecordView>,
    op: Option<Seq<char>>,
) -> Result<Seq<char>, Error> {
    match plv {
        None => msbuild_in_range_spec(None, None, recs, op),
        Some(s) => match product_line_of(s) {
            None => Err(Error::InvalidFormat),
            Some(p) => msbuild_in_range_spec(
                Some(plv_max_parts(p)),
                Some(plv_min_parts(p)),
                recs,
                op,
            ),
        },
    }
}

/// Type for finding and interacting with the msbuild executable.
#[derive(Debug)]
pub struct MsBuild {
    path: String,
}

impl View for MsBuild {
    type V = Seq<char>;

    closed spec fn view(&self) -> Seq<char> {
        self.path@
    }
}

impl MsBuild {
    /// The path of the msbuild executable.
    pub fn path(&self) -> (r: &str)
        ensures
            r@ == self@,
    {
        self.path.as_str()
    }

    /// Finds the msbuild executable that is associated with the provided
    /// product line version; if no version is provided then the highest
    /// installation of msbuild among the candidates is selected.  The
    /// candidate records and the optional override path are supplied by the
    /// embedding application.
    pub fn find_msbuild(
        product_line_version: Option<&str>,
        instances: &Vec<InstanceRecord>,
        override_path: &Option<String>,
    ) -> (r: Result<MsBuild, Error>)
        ensures
            ({
                let outcome = find_msbuild_spec(
                    opt_name_view(product_line_version),
                    records_view(instances@),
                    opt_str_view(*override_path),
                );
                match r {
                    Ok(m) => outcome == Ok::<Seq<char>, Error>(m@),
                    Err(e) => outcome == Err::<Seq<char>, Error>(e),
                }
            }),
    {
        match product_line_version {
            None => Self::find_msbuild_in_range(None, None, instances, override_path),
            Some(s) => match VsProductLineVersion::parse(s) {
                Err(e) => Err(e),
                Ok(plv) => Self::find_msbuild_in_range(
                    Some(plv.installation_version_max()),
                    Some(plv.installation_version_min()),
                    instances,
                    override_path,
                ),
            },
        }
    }

    /// Finds a msbuild with the highest installation version that is in a
    /// range between max (exclusive) and min (inclusive).
    pub fn find_msbuild_in_range(
        max: Option<VsInstallationVersion>,
        min: Option<VsInstallationVersion>,
        instances: &Vec<InstanceRecord>,
        override_path: &Option<String>,
    ) -> (r: Result<MsBuild, Error>)
        ensures
            ({
                let outcome = msbuild_in_range_spec(
                    version_opt_view(max),
                    version_opt_view(min),
                    records_view(instances@),
                    opt_str_view(*override_path),
                );
                match r {
                    Ok(m) => outcome == Ok::<Seq<char>, Error>(m@),
                    Err(e) => outcome == Err::<Seq<char>, Error>(e),
                }
            }),
    {
        let max_ref: Option<&VsInstallationVersion> = match &max {
            Some(m) => Some(m),
            None => None,
        };
        let min_ref: Option<&VsInstallationVersion> = match &min {
            Some(m) => Some(m),
            None => None,
        };
        match VsInstallation::find_in_range(instances, max_ref, min_ref, override_path) {
            Ok(vs_installation) => {
                let path: String = join_path(
                    vs_installation.path(),
                    "MsBuild/Current/Bin/msbuild.exe",
                );
                Ok(MsBuild { path })
            },
            Err(e) => Err(e),
        }
    }

    /// Builds the handle for an installation once the embedding application
    /// has checked whether the executable exists as a file at the composed
    /// path; when it does not, the resolution fails with `NotFound` as the
    /// caller would observe on disk.
    pub fn from_installation(vs_installation: &VsInstallation, exe_is_file: bool) -> (r: Result<
        MsBuild,
        Error,
    >)
        ensures
            exe_is_file ==> (r matches Ok(m) && m@ == msbuild_exe_of(vs_installation@)),
            !exe_is_file ==> r == Err::<MsBuild, Error>(Error::NotFound),
    {
        let path: String = join_path(vs_installation.path(), "MsBuild/Current/Bin/msbuild.exe");
        if exe_is_file {
            Ok(MsBuild { path })
        } else {
            Err(Error::NotFound)
        }
    }
}

} // verus!
