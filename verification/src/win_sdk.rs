//! Module that contains functionality for programmatically retrieving
//! information about the windows SDKs available on the system.
//!
//! The embedding application resolves the installation folder (from its
//! environment or the registry), lists the children of the `Include`
//! directory, and records in a [`DirSnapshot`] which paths it observed as
//! directories; this module makes all decisions on those plain values.
use vstd::prelude::*;

use crate::versions::{parse_accepted, parse_components, parts_le, ver_in_range, ver_le,
    version_parts};
use crate::vs_installation::{last_max_idx, CandidateView};
use crate::vs_paths::{join_path, join_path_spec, sub_directory, DirSnapshot};
use crate::Error;

verus! {

// ////////////////////////////////////////////////////////////////////////
// The include tree of one SDK revision.
// ////////////////////////////////////////////////////////////////////////

/// The view of the include paths of an SDK revision.
pub ghost struct WinSdkIncludesView {
    pub cppwinrt: Seq<char>,
    pub shared: Seq<char>,
    pub ucrt: Seq<char>,
    pub um: Seq<char>,
    pub winrt: Seq<char>,
}

/// The include sub directories an SDK revision keeps under its versioned
/// include directory.
pub open spec fn includes_of(path: Seq<char>) -> WinSdkIncludesView {
    WinSdkIncludesView {
        cppwinrt: join_path_spec(path, "cppwinrt"@),
        shared: join_path_spec(path, "shared"@),
        ucrt: join_path_spec(path, "ucrt"@),
        um: join_path_spec(path, "um"@),
        winrt: join_path_spec(path, "winrt"@),
    }
}

/// Every required include sub directory of `path` was observed.
pub open spec fn includes_present(path: Seq<char>, observed: Seq<Seq<char>>) -> bool {
    &&& observed.contains(includes_of(path).cppwinrt)
    &&& observed.contains(includes_of(path).shared)
    &&& observed.contains(includes_of(path).ucrt)
    &&& observed.contains(includes_of(path).um)
    &&& observed.contains(includes_of(path).winrt)
}

/// `path` itself and every required include sub directory were observed.
pub open spec fn sdk_include_valid(path: Seq<char>, observed: Seq<Seq<char>>) -> bool {
    observed.contains(path) && includes_present(path, observed)
}

/// Struct holding information regarding the include paths of the windows
/// SDK.
#[derive(Debug)]
pub struct WinSdkIncludes {
    cppwinrt: String,
    shared: String,
    ucrt: String,
    um: String,
    winrt: String,
}

impl View for WinSdkIncludes {
    type V = WinSdkIncludesView;

    closed spec fn view(&self) -> WinSdkIncludesView {
        WinSdkIncludesView {
            cppwinrt: self.cppwinrt@,
            shared: self.shared@,
            ucrt: self.ucrt@,
            um: self.um@,
            winrt: self.winrt@,
        }
    }
}

impl WinSdkIncludes {
    /// Creates a WinSdkIncludes object from the include path; fails with
    /// `NotFound` when a required sub directory was not observed.
    pub fn create(include_path: &str, observed: &DirSnapshot) -> (r: Result<WinSdkIncludes, Error>)
        ensures
            match r {
                Ok(w) => w@ == includes_of(include_path@) && includes_present(
                    include_path@,
                    observed@,
                ),
                Err(e) => e == Error::NotFound && !includes_present(include_path@, observed@),
            },
    {
        let cppwinrt: String = match sub_directory(include_path, "cppwinrt", observed) {
            Ok(p) => p,
            Err(e) => {
                return Err(e);
            },
        };
        let shared: String = match sub_directory(include_path, "shared", observed) {
            Ok(p) => p,
            Err(e) => {
                return Err(e);
            },
        };
        let ucrt: String = match sub_directory(include_path, "ucrt", observed) {
            Ok(p) => p,
            Err(e) => {
                return Err(e);
            },
        };
        let um: String = match sub_directory(include_path, "um", observed) {
            Ok(p) => p,
            Err(e) => {
                return Err(e);
            },
        };
        let winrt: String = match sub_directory(include_path, "winrt", observed) {
            Ok(p) => p,
            Err(e) => {
                return Err(e);
            },
        };
        Ok(WinSdkIncludes { cppwinrt, shared, ucrt, um, winrt })
    }

    pub fn cppwinrt_dir(&self) -> (r: &str)
        ensures
            r@ == self@.cppwinrt,
    {
        self.cppwinrt.as_str()
    }

    pub fn shared_dir(&self) -> (r: &str)
        ensures
            r@ == self@.shared,
    {
        self.shared.as_str()
    }

    pub fn ucrt_dir(&self) -> (r: &str)
        ensures
            r@ == self@.ucrt,
    {
        self.ucrt.as_str()
    }

    pub fn um_dir(&self) -> (r: &str)
        ensures
            r@ == self@.um,
    {
        self.um.as_str()
    }

    pub fn winrt_dir(&self) -> (r: &str)
        ensures
            r@ == self@.winrt,
    {
        self.winrt.as_str()
    }

    /// Checks that `path` and all of its required include sub directories
    /// were observed as directories.
    pub fn is_valid(path: &str, observed: &DirSnapshot) -> (r: bool)
        ensures
            r == sdk_include_valid(path@, observed@),
    {
        if !observed.contains(path) {
            return false;
        }
        let cppwinrt: String = join_path(path, "cppwinrt");
        if !observed.contains(cppwinrt.as_str()) {
            return false;
        }
        let shared: String = join_path(path, "shared");
        if !observed.contains(shared.as_str()) {
            return false;
        }
        let ucrt: String = join_path(path, "ucrt");
        if !observed.contains(ucrt.as_str()) {
            return false;
        }
        let um: String = join_path(path, "um");
        if !observed.contains(um.as_str()) {
            return false;
        }
        let winrt: String = join_path(path, "winrt");
        observed.contains(winrt.as_str())
    }
}

// ////////////////////////////////////////////////////////////////////////
// The SDK version.
// ////////////////////////////////////////////////////////////////////////

/// The windows SDK version.
#[derive(Debug)]
pub struct WinSdkVersion {
    parts: Vec<u64>,
}

impl View for WinSdkVersion {
    type V = Seq<u64>;

    closed spec fn view(&self) -> Seq<u64> {
        self.parts@
    }
}

/// The view of an optional SDK version reference.
pub open spec fn opt_sdk_version_view(o: Option<&WinSdkVersion>) -> Option<Seq<u64>> {
    match o {
        Some(v) => Some(v@),
        None => None,
    }
}

impl WinSdkVersion {
    /// Parses the WinSdkVersion from a string.
    pub fn parse(value: &str) -> (r: Result<WinSdkVersion, Error>)
        ensures
            match r {
                Ok(v) => parse_accepted(value@) && v@ == version_parts(value@),
                Err(e) => !parse_accepted(value@) && e == Error::InvalidFormat,
            },
    {
        match parse_components(value) {
            Some(p) => {
                if p.1 {
                    proof {
                        assert(p.0@ =~= version_parts(value@));
                    }
                    Ok(WinSdkVersion { parts: p.0 })
                } else {
                    Err(Error::InvalidFormat)
                }
            },
            None => {
                proof {
                    let segs = crate::versions::split_at_dots(value@);
                    let k = choose|k: int|
                        0 <= k < segs.len() && crate::versions::seg_value(#[trigger] segs[k])
                            > u64::MAX;
                    assert(!parse_accepted(value@));
                }
                Err(Error::InvalidFormat)
            },
        }
    }

    /// Checks if the version is in the specified range.
    pub fn is_in_range(
        &self,
        max: Option<&WinSdkVersion>,
        min: Option<&WinSdkVersion>,
    ) -> (r: bool)
        ensures
            r == ver_in_range(self@, opt_sdk_version_view(max), opt_sdk_version_view(min)),
    {
        let is_below_max: bool = match max {
            Some(max_version) => crate::versions::parts_lt(&self.parts, &max_version.parts),
            None => true,
        };
        let is_above_min: bool = match min {
            Some(min_version) => parts_le(&min_version.parts, &self.parts),
            None => true,
        };
        is_below_max && is_above_min
    }

    /// Non-strict comparison of two SDK versions.
    pub(crate) fn le(&self, other: &WinSdkVersion) -> (r: bool)
        ensures
            r == ver_le(self@, other@),
    {
        parts_le(&self.parts, &other.parts)
    }
}

// ////////////////////////////////////////////////////////////////////////
// Enumeration and selection of versioned include directories.
// ////////////////////////////////////////////////////////////////////////

/// A versioned include directory: a directory whose name parses as an SDK
/// version.
#[derive(Debug)]
pub struct VersionedDir {
    pub version: WinSdkVersion,
    pub path: String,
}

impl View for VersionedDir {
    type V = CandidateView;

    open spec fn view(&self) -> CandidateView {
        CandidateView { version: self.version@, path: self.path@ }
    }
}

/// The views of a sequence of directory names.
pub open spec fn names_view(names: Seq<String>) -> Seq<Seq<char>> {
    names.map_values(|s: String| s@)
}

/// The views of a sequence of versioned directories.
pub open spec fn versioned_dirs_view(dirs: Seq<VersionedDir>) -> Seq<CandidateView> {
    dirs.map_values(|d: VersionedDir| d@)
}

/// A child of the include root qualifies when it was observed as a
/// directory, its name parses as a version in the range, and it holds all
/// required include sub directories.
pub open spec fn versioned_subdir_ok(
    include_dir: Seq<char>,
    name: Seq<char>,
    observed: Seq<Seq<char>>,
    max: Option<Seq<u64>>,
    min: Option<Seq<u64>>,
) -> bool {
    let path = join_path_spec(include_dir, name);
    &&& observed.contains(path)
    &&& parse_accepted(name)
    &&& ver_in_range(version_parts(name), max, min)
    &&& sdk_include_valid(path, observed)
}

/// The qualifying children of the include root, in input order, as
/// (version, path) pairs.
pub open spec fn sdk_versioned_dirs(
    include_dir: Seq<char>,
    names: Seq<Seq<char>>,
    observed: Seq<Seq<char>>,
    max: Option<Seq<u64>>,
    min: Option<Seq<u64>>,
) -> Seq<CandidateView>
    decreases names.len(),
{
    if names.len() == 0 {
        Seq::empty()
    } else {
        let rest = sdk_versioned_dirs(include_dir, names.drop_last(), observed, max, min);
        if versioned_subdir_ok(include_dir, names.last(), observed, max, min) {
            rest.push(
                CandidateView {
                    version: version_parts(names.last()),
                    path: join_path_spec(include_dir, names.last()),
                },
            )
        } else {
            rest
        }
    }
}

proof fn lemma_sdk_versioned_dirs_valid(
    include_dir: Seq<char>,
    names: Seq<Seq<char>>,
    observed: Seq<Seq<char>>,
    max: Option<Seq<u64>>,
    min: Option<Seq<u64>>,
)
    ensures
        forall|k: int|
            0 <= k < sdk_versioned_dirs(include_dir, names, observed, max, min).len()
                ==> sdk_include_valid(
                #[trigger] sdk_versioned_dirs(include_dir, names, observed, max, min)[k].path,
                observed,
            ),
    decreases names.len(),
{
    if names.len() > 0 {
        lemma_sdk_versioned_dirs_valid(include_dir, names.drop_last(), observed, max, min);
        let full = sdk_versioned_dirs(include_dir, names, observed, max, min);
        let rest = sdk_versioned_dirs(include_dir, names.drop_last(), observed, max, min);
        assert forall|k: int| 0 <= k < full.len() implies sdk_include_valid(
            #[trigger] full[k].path,
            observed,
        ) by {
            if k < rest.len() {
                assert(full[k] == rest[k]);
                assert(sdk_include_valid(rest[k].path, observed));
            } else {
                assert(versioned_subdir_ok(include_dir, names.last(), observed, max, min));
                assert(full[k].path == join_path_spec(include_dir, names.last()));
            }
        }
    }
}

// ////////////////////////////////////////////////////////////////////////
// The SDK handle.
// ////////////////////////////////////////////////////////////////////////

/// What finding an SDK under an installation folder yields: `NotFound` when
/// the `Include` directory was not observed or no child qualifies, else the
/// include tree of the qualifying child with the highest version, the last
/// such child in input order on ties.
pub open spec fn sdk_find_spec(
    installation_folder: Seq<char>,
    names: Seq<Seq<char>>,
    observed: Seq<Seq<char>>,
    max: Option<Seq<u64>>,
    min: Option<Seq<u64>>,
) -> Result<WinSdkIncludesView, Error> {
    let include_dir = join_path_spec(installation_folder, "Include"@);
    let found = sdk_versioned_dirs(include_dir, names, observed, max, min);
    if !observed.contains(include_dir) {
        Err(Error::NotFound)
    } else if found.len() == 0 {
        Err(Error::NotFound)
    } else {
        Ok(includes_of(found[last_max_idx(found)].path))
    }
}

/// Struct holding information regarding the Windows SDK.
pub struct WinSdk {
    includes: WinSdkIncludes,
}

impl View for WinSdk {
    type V = WinSdkIncludesView;

    closed spec fn view(&self) -> WinSdkIncludesView {
        self.includes@
    }
}

impl WinSdk {
    /// The include directories of the selected SDK revision.
    pub fn include_dirs(&self) -> (r: &WinSdkIncludes)
        ensures
            r@ == self@,
    {
        &self.includes
    }

    /// Finds a Windows SDK under the installation folder, over the listed
    /// children of its `Include` directory and the observed directories.
    pub fn find(
        installation_folder: &str,
        child_names: &Vec<String>,
        observed: &DirSnapshot,
    ) -> (r: Result<WinSdk, Error>)
        ensures
            ({
                let outcome = sdk_find_spec(
                    installation_folder@,
                    names_view(child_names@),
                    observed@,
                    None,
                    None,
                );
                match r {
                    Ok(w) => outcome == Ok::<WinSdkIncludesView, Error>(w@),
                    Err(e) => outcome == Err::<WinSdkIncludesView, Error>(e),
                }
            }),
    {
        Self::find_in_range(installation_folder, child_names, observed, None, None)
    }

    /// Finds a Windows SDK in the specified version range.  Each folder of
    /// interest contains folders with a version as the name; a revision is
    /// eligible only when its versioned include directory passes the
    /// structural check.
    pub fn find_in_range(
        installation_folder: &str,
        child_names: &Vec<String>,
        observed: &DirSnapshot,
        max: Option<&WinSdkVersion>,
        min: Option<&WinSdkVersion>,
    ) -> (r: Result<WinSdk, Error>)
        ensures
            ({
                let outcome = sdk_find_spec(
                    installation_folder@,
                    names_view(child_names@),
                    observed@,
                    opt_sdk_version_view(max),
                    opt_sdk_version_view(min),
                );
                match r {
                    Ok(w) => outcome == Ok::<WinSdkIncludesView, Error>(w@),
                    Err(e) => outcome == Err::<WinSdkIncludesView, Error>(e),
                }
            }),
    {
        let include_versioned_dirs: Vec<VersionedDir> = match Self::include_versioned_subdirs(
            installation_folder,
            child_names,
            observed,
            max,
            min,
        ) {
            Ok(dirs) => dirs,
            Err(e) => {
                return Err(e);
            },
        };
        proof {
            lemma_sdk_versioned_dirs_valid(
                join_path_spec(installation_folder@, "Include"@),
                names_view(child_names@),
                observed@,
                opt_sdk_version_view(max),
                opt_sdk_version_view(min),
            );
        }
        Self::select_sdk(&include_versioned_dirs, observed)
    }

    /// Selects the latest version among the qualifying directories and
    /// builds its include tree.
    fn select_sdk(versioned_include_dirs: &Vec<VersionedDir>, observed: &DirSnapshot) -> (r:
        Result<WinSdk, Error>)
        requires
            versioned_include_dirs@.len() > 0,
            forall|k: int|
                0 <= k < versioned_include_dirs@.len() ==> sdk_include_valid(
                    #[trigger] versioned_dirs_view(versioned_include_dirs@)[k].path,
                    observed@,
                ),
        ensures
            ({
                let dv = versioned_dirs_view(versioned_include_dirs@);
                r matches Ok(w) && w@ == includes_of(dv[last_max_idx(dv)].path)
            }),
    {
        let ghost dv = versioned_dirs_view(versioned_include_dirs@);
        let n: usize = versioned_include_dirs.len();
        let mut best: usize = 0;
        let mut i: usize = 1;
        proof {
            assert(dv.take(1) =~= seq![dv[0]]);
        }
        while i < n
            invariant
                1 <= i <= n,
                best < i,
                n == versioned_include_dirs@.len(),
                dv == versioned_dirs_view(versioned_include_dirs@),
                best == last_max_idx(dv.take(i as int)),
            decreases n - i,
        {
            proof {
                assert(dv[i as int] == versioned_include_dirs@[i as int]@);
                assert(dv[best as int] == versioned_include_dirs@[best as int]@);
                assert(dv.take(i + 1).drop_last() =~= dv.take(i as int));
                assert(dv.take(i + 1).last() == dv[i as int]);
                assert forall|k: int| 0 <= k < i implies dv.take(i + 1)[k] == dv.take(
                    i as int,
                )[k] by {}
            }
            if versioned_include_dirs[best].version.le(&versioned_include_dirs[i].version) {
                best = i;
            }
            i = i + 1;
        }
        proof {
            assert(dv.take(n as int) =~= dv);
            assert(dv[best as int] == versioned_include_dirs@[best as int]@);
        }
        match WinSdkIncludes::create(versioned_include_dirs[best].path.as_str(), observed) {
            Ok(includes) => Ok(WinSdk { includes }),
            Err(e) => {
                proof {
                    assert(sdk_include_valid(dv[best as int].path, observed@));
                    assert(false);
                }
                Err(e)
            },
        }
    }

    /// Collects all the versioned `Include` directories that qualify for
    /// the range; fails with `NotFound` when the `Include` directory was
    /// not observed or no child qualifies.
    pub fn include_versioned_subdirs(
        parent: &str,
        child_names: &Vec<String>,
        observed: &DirSnapshot,
        max: Option<&WinSdkVersion>,
        min: Option<&WinSdkVersion>,
    ) -> (r: Result<Vec<VersionedDir>, Error>)
        ensures
            ({
                let include_dir = join_path_spec(parent@, "Include"@);
                let found = sdk_versioned_dirs(
                    include_dir,
                    names_view(child_names@),
                    observed@,
                    opt_sdk_version_view(max),
                    opt_sdk_version_view(min),
                );
                match r {
                    Ok(dirs) => observed@.contains(include_dir) && versioned_dirs_view(dirs@)
                        == found && dirs@.len() > 0,
                    Err(e) => e == Error::NotFound && (!observed@.contains(include_dir)
                        || found.len() == 0),
                }
            }),
    {
        let search_dir: String = match sub_directory(parent, "Include", observed) {
            Ok(p) => p,
            Err(e) => {
                return Err(e);
            },
        };
        let ghost include_dir = join_path_spec(parent@, "Include"@);
        let ghost namesv = names_view(child_names@);
        let ghost maxv = opt_sdk_version_view(max);
        let ghost minv = opt_sdk_version_view(min);
        let mut found: Vec<VersionedDir> = Vec::new();
        let n: usize = child_names.len();
        let mut i: usize = 0;
        while i < n
            invariant
                i <= n,
                n == child_names@.len(),
                namesv == names_view(child_names@),
                search_dir@ == include_dir,
                maxv == opt_sdk_version_view(max),
                minv == opt_sdk_version_view(min),
                versioned_dirs_view(found@) == sdk_versioned_dirs(
                    include_dir,
                    namesv.take(i as int),
                    observed@,
                    maxv,
                    minv,
                ),
            decreases n - i,
        {
            proof {
                assert(namesv.take(i + 1).drop_last() =~= namesv.take(i as int));
                assert(namesv.take(i + 1).last() == namesv[i as int]);
                assert(namesv[i as int] == child_names@[i as int]@);
            }
            let name: &String = &child_names[i];
            let path: String = join_path(search_dir.as_str(), name.as_str());
            let mut keep: bool = false;
            if observed.contains(path.as_str()) {
                match WinSdkVersion::parse(name.as_str()) {
                    Ok(version) => {
                        if Self::has_version_in_range(&version, max, min) {
                            if WinSdkIncludes::is_valid(path.as_str(), observed) {
                                keep = true;
                                found.push(VersionedDir { version, path });
                                proof {
                                    assert(versioned_subdir_ok(
                                        include_dir,
                                        namesv[i as int],
                                        observed@,
                                        maxv,
                                        minv,
                                    ));
                                    assert(versioned_dirs_view(found@) =~= sdk_versioned_dirs(
                                        include_dir,
                                        namesv.take(i + 1),
                                        observed@,
                                        maxv,
                                        minv,
                                    ));
                                }
                            }
                        }
                    },
                    Err(_) => {},
                }
            }
            if !keep {
                proof {
                    assert(!versioned_subdir_ok(include_dir, namesv[i as int], observed@, maxv, minv));
                    assert(versioned_dirs_view(found@) =~= sdk_versioned_dirs(
                        include_dir,
                        namesv.take(i + 1),
                        observed@,
                        maxv,
                        minv,
                    ));
                }
            }
            i = i + 1;
        }
        proof {
            assert(namesv.take(n as int) =~= namesv);
        }
        if found.len() == 0 {
            Err(Error::NotFound)
        } else {
            Ok(found)
        }
    }

    /// Internal function to check if a version is in the range if it has
    /// been specified.
    fn has_version_in_range(
        version: &WinSdkVersion,
        max: Option<&WinSdkVersion>,
        min: Option<&WinSdkVersion>,
    ) -> (r: bool)
        ensures
            r == ver_in_range(version@, opt_sdk_version_view(max), opt_sdk_version_view(min)),
    {
        version.is_in_range(max, min)
    }
}

} // verus!
