use vstd::prelude::*;
use crate::spec_types::ExternPath;

verus! {

/// One group of proto sources of a build configuration: the files to
/// compile and the include directories they resolve imports against.
#[derive(Debug)]
pub struct ProtoSrc {
    pub files: Vec<String>,
    pub include_dir: Vec<String>,
}

/// A self-contained build configuration for one package compilation, as the
/// surrounding process deserializes it: what to compile, whether the
/// well-known types are compiled locally, and explicit binding overrides.
#[derive(Debug)]
pub struct Config {
    pub package_name: String,
    pub include_dirs: Vec<String>,
    pub protos: Vec<ProtoSrc>,
    pub compile_well_known_types: bool,
    pub extern_paths: Vec<ExternPath>,
}

} // verus!
