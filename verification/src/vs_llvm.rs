//! Module for llvm parts of a VS installation.
use vstd::prelude::*;

use crate::vs_installation::VsInstallation;
use crate::vs_paths::{join_path_spec, sub_directory, DirSnapshot};
use crate::Error;

verus! {

/// The view of the LLVM paths: one per tool directory.
pub ghost struct VsLlvmView {
    pub bin: Seq<char>,
    pub lib: Seq<char>,
    pub bin_x64: Seq<char>,
    pub lib_x64: Seq<char>,
}

/// Type holding the paths associated with LLVM in the Visual compiler
/// tools.
#[derive(Debug)]
pub struct VsLlvm {
    bin: String,
    lib: String,
    bin_x64: String,
    lib_x64: String,
}

impl View for VsLlvm {
    type V = VsLlvmView;

    closed spec fn view(&self) -> VsLlvmView {
        VsLlvmView { bin: self.bin@, lib: self.lib@, bin_x64: self.bin_x64@, lib_x64: self.lib_x64@ }
    }
}

/// The LLVM tool directories under an installation root.
pub open spec fn llvm_dirs_of(install: Seq<char>) -> VsLlvmView {
    VsLlvmView {
        bin: join_path_spec(install, "VC/Tools/Llvm/bin"@),
        lib: join_path_spec(install, "VC/Tools/Llvm/lib"@),
        bin_x64: join_path_spec(install, "VC/Tools/Llvm/x64/bin"@),
        lib_x64: join_path_spec(install, "VC/Tools/Llvm/x64/lib"@),
    }
}

/// All four LLVM tool directories were observed to exist.
pub open spec fn llvm_dirs_present(install: Seq<char>, observed: Seq<Seq<char>>) -> bool {
    &&& observed.contains(llvm_dirs_of(install).bin)
    &&& observed.contains(llvm_dirs_of(install).lib)
    &&& observed.contains(llvm_dirs_of(install).bin_x64)
    &&& observed.contains(llvm_dirs_of(install).lib_x64)
}

impl VsLlvm {
    /// Builds the LLVM paths of an installation, each verified against the
    /// observed directories; any missing directory fails with `NotFound`.
    pub fn create(vs_installation: &VsInstallation, observed: &DirSnapshot) -> (r: Result<
        VsLlvm,
        Error,
    >)
        ensures
            match r {
                Ok(l) => l@ == llvm_dirs_of(vs_installation@) && llvm_dirs_present(
                    vs_installation@,
                    observed@,
                ),
                Err(e) => e == Error::NotFound && !llvm_dirs_present(vs_installation@, observed@),
            },
    {
        let bin: String = match sub_directory(vs_installation.path(), "VC/Tools/Llvm/bin", observed) {
            Ok(p) => p,
            Err(e) => {
                return Err(e);
            },
        };
        let lib: String = match sub_directory(vs_installation.path(), "VC/Tools/Llvm/lib", observed) {
            Ok(p) => p,
            Err(e) => {
                return Err(e);
            },
        };
        let bin_x64: String = match sub_directory(
            vs_installation.path(),
            "VC/Tools/Llvm/x64/bin",
            observed,
        ) {
            Ok(p) => p,
            Err(e) => {
                return Err(e);
            },
        };
        let lib_x64: String = match sub_directory(
            vs_installation.path(),
            "VC/Tools/Llvm/x64/lib",
            observed,
        ) {
            Ok(p) => p,
            Err(e) => {
                return Err(e);
            },
        };
        Ok(VsLlvm { bin, lib, bin_x64, lib_x64 })
    }

    pub fn bin(&self) -> (r: &str)
        ensures
            r@ == self@.bin,
    {
        self.bin.as_str()
    }

    pub fn lib(&self) -> (r: &str)
        ensures
            r@ == self@.lib,
    {
        self.lib.as_str()
    }

    pub fn bin_x64(&self) -> (r: &str)
        ensures
            r@ == self@.bin_x64,
    {
        self.bin_x64.as_str()
    }

    pub fn lib_x64(&self) -> (r: &str)
        ensures
            r@ == self@.lib_x64,
    {
        self.lib_x64.as_str()
    }
}

} // verus!
