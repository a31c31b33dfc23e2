use vstd::prelude::*;
use vstd::string::*;
use crate::errors::BuildError;
use crate::spec_types::{ProtogenSpec, RustPackage};
use crate::text::{push_char, str_concat};

verus! {

/// Paths are modeled as '/'-separated strings; a path is relative when it
/// does not start with the separator.
pub open spec fn path_is_relative(s: Seq<char>) -> bool {
    s.len() == 0 || s[0] != '/'
}

pub fn is_relative_path(s: &str) -> (r: bool)
    ensures
        r == path_is_relative(s@),
{
    let len = s.unicode_len();
    if len == 0 {
        true
    } else {
        let c = s.get_char(0);
        c != '/'
    }
}

/// Number of path segments: maximal nonempty runs without a separator.
pub open spec fn seg_count(s: Seq<char>) -> nat
    decreases s.len(),
{
    if s.len() == 0 {
        0
    } else if s[0] == '/' {
        seg_count(s.drop_first())
    } else {
        1 + seg_count_in(s.drop_first())
    }
}

pub open spec fn seg_count_in(s: Seq<char>) -> nat
    decreases s.len(),
{
    if s.len() == 0 {
        0
    } else if s[0] == '/' {
        seg_count(s.drop_first())
    } else {
        seg_count_in(s.drop_first())
    }
}

pub fn count_path_segments(s: &str) -> (n: usize)
    ensures
        n as nat == seg_count(s@),
{
    let len = s.unicode_len();
    let mut n: usize = 0;
    let mut in_seg = false;
    let mut i: usize = 0;
    proof {
        assert(s@.skip(0) =~= s@);
    }
    while i < len
        invariant
            i <= len,
            n <= i,
            len == s@.len(),
            seg_count(s@) == n + (if in_seg {
                seg_count_in(s@.skip(i as int))
            } else {
                seg_count(s@.skip(i as int))
            }),
        decreases len - i,
    {
        let c = s.get_char(i);
        proof {
            assert(s@.skip(i as int)[0] == c);
            assert(s@.skip(i as int).drop_first() =~= s@.skip(i + 1));
        }
        if c == '/' {
            in_seg = false;
        } else {
            if !in_seg {
                n += 1;
            }
            in_seg = true;
        }
        i += 1;
    }
    proof {
        assert(s@.skip(len as int).len() == 0);
    }
    n
}

/// The final path component: everything after the last separator.
pub open spec fn file_name_of(s: Seq<char>) -> Seq<char>
    decreases s.len(),
{
    if s.len() == 0 {
        s
    } else if s.last() == '/' {
        Seq::empty()
    } else {
        file_name_of(s.drop_last()).push(s.last())
    }
}

pub fn path_file_name(s: &str) -> (r: String)
    ensures
        r@ == file_name_of(s@),
{
    let mut out = String::new();
    let len = s.unicode_len();
    let mut i: usize = 0;
    proof {
        assert(s@.take(0) =~= Seq::<char>::empty());
    }
    while i < len
        invariant
            i <= len,
            len == s@.len(),
            out@ == file_name_of(s@.take(i as int)),
        decreases len - i,
    {
        let ghost pre = s@.take(i as int);
        let c = s.get_char(i);
        proof {
            assert(s@.take(i + 1) =~= pre.push(c));
            assert(pre.push(c).drop_last() =~= pre);
        }
        if c == '/' {
            out = String::new();
        } else {
            push_char(&mut out, c);
        }
        i += 1;
    }
    proof {
        assert(s@.take(len as int) =~= s@);
    }
    out
}

/// One ascent step per directory level: `../` repeated.
pub open spec fn ascent_of(n: nat) -> Seq<char>
    decreases n,
{
    if n == 0 {
        Seq::empty()
    } else {
        "../"@ + ascent_of((n - 1) as nat)
    }
}

proof fn lemma_ascent_push(n: nat)
    ensures
        ascent_of(n + 1) == ascent_of(n) + "../"@,
    decreases n,
{
    if n == 0 {
        assert(ascent_of(1) =~= ascent_of(0) + "../"@);
    } else {
        lemma_ascent_push((n - 1) as nat);
        assert(ascent_of(n + 1) =~= ascent_of(n) + "../"@);
    }
}

/// The path from inside the package directory back up to the configuration
/// file: one ascent per path segment of the package directory, then the
/// configuration file's name. A configuration path without a final file
/// name cannot be ascended to.
pub fn relative_ascent_path(package_path: &str, protogen_path: &str) -> (r: Result<
    String,
    BuildError,
>)
    ensures
        match r {
            Ok(p) => {
                &&& p@ == ascent_of(seg_count(package_path@)) + file_name_of(protogen_path@)
                &&& file_name_of(protogen_path@).len() > 0
            },
            Err(e) => {
                &&& e == BuildError::MissingProtogenFileName
                &&& file_name_of(protogen_path@).len() == 0
            },
        },
{
    let name = path_file_name(protogen_path);
    if name.unicode_len() == 0 {
        return Err(BuildError::MissingProtogenFileName);
    }
    let n = count_path_segments(package_path);
    let mut out = String::new();
    let mut k: usize = 0;
    proof {
        assert(out@ =~= ascent_of(0));
    }
    while k < n
        invariant
            k <= n,
            out@ == ascent_of(k as nat),
        decreases n - k,
    {
        out.append("../");
        proof {
            lemma_ascent_push(k as nat);
        }
        k += 1;
    }
    let r = out.concat(name.as_str());
    Ok(r)
}

/// Finds the declaration of the requested package in the configuration.
pub fn find_rust_package<'a>(protogen: &'a ProtogenSpec, package: &String) -> (r: Result<
    &'a RustPackage,
    BuildError,
>)
    ensures
        match r {
            Ok(p) => exists|i: int|
                0 <= i < protogen.rust@.len() && #[trigger] protogen.rust@[i] == *p && p.name@
                    == package@ && forall|j: int| 0 <= j < i ==> protogen.rust@[j].name@
                    != package@,
            Err(e) => match e {
                BuildError::PackageNotFound { package: missing } => {
                    &&& missing@ == package@
                    &&& forall|i: int|
                        0 <= i < protogen.rust@.len() ==> #[trigger] protogen.rust@[i].name@
                            != package@
                },
                _ => false,
            },
        },
{
    let mut i: usize = 0;
    while i < protogen.rust.len()
        invariant
            i <= protogen.rust@.len(),
            forall|j: int| 0 <= j < i ==> #[trigger] protogen.rust@[j].name@ != package@,
        decreases protogen.rust@.len() - i,
    {
        if protogen.rust[i].name == *package {
            return Ok(&protogen.rust[i]);
        }
        i += 1;
    }
    Err(BuildError::PackageNotFound { package: package.clone() })
}

/// Everything the surrounding process needs to scaffold one package: the
/// output locations and the ascent path, all derived from the declaration.
#[derive(Debug)]
pub struct PackagePlan {
    pub package_name: String,
    pub package_version: String,
    pub package_path: String,
    pub src_path: String,
    pub manifest_path: String,
    pub package_spec_path: String,
    pub lib_rs_path: String,
    pub build_rs_path: String,
    pub prost_serde_rs_path: String,
    pub rel_protogen_path: String,
}

/// What a planning result must say, relative to the configuration, the
/// configuration file's own path, and the requested package name.
pub open spec fn plan_outcome(
    protogen: ProtogenSpec,
    protogen_path: Seq<char>,
    package: Seq<char>,
    r: Result<PackagePlan, BuildError>,
) -> bool {
    match r {
        Ok(plan) => exists|i: int|
            0 <= i < protogen.rust@.len() && {
                let p = #[trigger] protogen.rust@[i];
                &&& p.name@ == package
                &&& forall|j: int| 0 <= j < i ==> protogen.rust@[j].name@ != package
                &&& path_is_relative(p.path@)
                &&& file_name_of(protogen_path).len() > 0
                &&& plan.package_name@ == p.name@
                &&& plan.package_version@ == p.version@
                &&& plan.package_path@ == p.path@
                &&& plan.src_path@ == p.path@ + "/src"@
                &&& plan.manifest_path@ == p.path@ + "/Cargo.toml"@
                &&& plan.package_spec_path@ == p.path@ + "/src/package_spec.json"@
                &&& plan.lib_rs_path@ == p.path@ + "/src/lib.rs"@
                &&& plan.build_rs_path@ == p.path@ + "/build.rs"@
                &&& plan.prost_serde_rs_path@ == p.path@ + "/src/prost_serde.rs"@
                &&& plan.rel_protogen_path@ == ascent_of(seg_count(p.path@)) + file_name_of(
                    protogen_path,
                )
            },
        Err(e) => match e {
            BuildError::PackageNotFound { package: missing } => {
                &&& missing@ == package
                &&& forall|i: int|
                    0 <= i < protogen.rust@.len() ==> #[trigger] protogen.rust@[i].name@
                        != package
            },
            BuildError::NonRelativeOutputPath { package: named } => {
                &&& named@ == package
                &&& exists|i: int|
                    0 <= i < protogen.rust@.len() && #[trigger] protogen.rust@[i].name@ == package
                        && !path_is_relative(protogen.rust@[i].path@)
            },
            BuildError::MissingProtogenFileName => file_name_of(protogen_path).len() == 0,
            _ => false,
        },
    }
}

/// Plans one package build: finds the declaration, rejects a non-relative
/// output path, and derives every output location and the ascent path back
/// to the configuration file. Filesystem work stays with the caller.
pub fn plan_package_build(protogen: &ProtogenSpec, protogen_path: &String, package: &String) -> (r:
    Result<PackagePlan, BuildError>)
    ensures
        plan_outcome(*protogen, protogen_path@, package@, r),
{
    let p = match find_rust_package(protogen, package) {
        Ok(p) => p,
        Err(e) => {
            return Err(e);
        },
    };
    if !is_relative_path(p.path.as_str()) {
        return Err(BuildError::NonRelativeOutputPath { package: package.clone() });
    }
    let rel = match relative_ascent_path(p.path.as_str(), protogen_path.as_str()) {
        Ok(rel) => rel,
        Err(e) => {
            return Err(e);
        },
    };
    let plan = PackagePlan {
        package_name: p.name.clone(),
        package_version: p.version.clone(),
        package_path: p.path.clone(),
        src_path: str_concat(p.path.as_str(), "/src"),
        manifest_path: str_concat(p.path.as_str(), "/Cargo.toml"),
        package_spec_path: str_concat(p.path.as_str(), "/src/package_spec.json"),
        lib_rs_path: str_concat(p.path.as_str(), "/src/lib.rs"),
        build_rs_path: str_concat(p.path.as_str(), "/build.rs"),
        prost_serde_rs_path: str_concat(p.path.as_str(), "/src/prost_serde.rs"),
        rel_protogen_path: rel,
    };
    Ok(plan)
}

/// One parsed package-build invocation.
pub struct PackageCommand {
    pub protogen_path: String,
    pub protofetch_path: String,
    pub package: String,
    pub dry_run: bool,
}

/// The commands the surrounding process can dispatch.
pub enum Command {
    Package(PackageCommand),
}

/// Dispatches one parsed command to its planning logic, over the already
/// loaded configuration.
pub fn run_cmd(cmd: &Command, protogen: &ProtogenSpec) -> (r: Result<PackagePlan, BuildError>)
    ensures
        match cmd {
            Command::Package(pc) => plan_outcome(*protogen, pc.protogen_path@, pc.package@, r),
        },
{
    match cmd {
        Command::Package(pc) => plan_package_build(protogen, &pc.protogen_path, &pc.package),
    }
}

} // verus!
