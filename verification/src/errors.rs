use vstd::prelude::*;
use crate::text::str_concat3;

verus! {

/// Everything that can fail a single package build inside this library.
/// Failures of the surrounding process (filesystem, the external compiler
/// frontend) stay with the caller.
#[derive(Debug, PartialEq, Eq)]
pub enum BuildError {
    /// The requested package is not declared in the configuration.
    PackageNotFound { package: String },
    /// The declared output path of the package is not relative.
    NonRelativeOutputPath { package: String },
    /// A declared dependency has no built package spec: the packages were
    /// not built in dependency order.
    MissingDependencySpec { package: String },
    /// The filtered descriptor set kept no file although the package declared
    /// at least one proto source: the declared sources or the declared proto
    /// package name match nothing the compiler returned.
    EmptyPackageOutput,
    /// The configuration path has no final file-name component.
    MissingProtogenFileName,
}

/// The rendering of each error as one line of text.
pub open spec fn message_of(e: BuildError) -> Seq<char> {
    match e {
        BuildError::PackageNotFound { package } => "failed to find package `"@ + package@
            + "` in the protogen spec"@,
        BuildError::NonRelativeOutputPath { package } => "package spec path for `"@ + package@
            + "` was not relative"@,
        BuildError::MissingDependencySpec { package } => "no package spec was built for declared dependency `"@
            + package@ + "`"@,
        BuildError::EmptyPackageOutput => "the filtered descriptor set kept no file for a package that declares proto sources"@,
        BuildError::MissingProtogenFileName => "the protogen spec path has no file name"@,
    }
}

impl BuildError {
    /// One line of text describing the failure.
    pub fn message(&self) -> (r: String)
        ensures
            r@ == message_of(*self),
    {
        match self {
            BuildError::PackageNotFound { package } => str_concat3(
                "failed to find package `",
                package.as_str(),
                "` in the protogen spec",
            ),
            BuildError::NonRelativeOutputPath { package } => str_concat3(
                "package spec path for `",
                package.as_str(),
                "` was not relative",
            ),
            BuildError::MissingDependencySpec { package } => str_concat3(
                "no package spec was built for declared dependency `",
                package.as_str(),
                "`",
            ),
            BuildError::EmptyPackageOutput => {
                let r = "the filtered descriptor set kept no file for a package that declares proto sources".to_owned();
                r
            },
            BuildError::MissingProtogenFileName => {
                let r = "the protogen spec path has no file name".to_owned();
                r
            },
        }
    }
}

} // verus!
