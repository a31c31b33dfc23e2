use vstd::prelude::*;

verus! {

/// One extern-path binding: the fully-qualified, leading-dot protobuf name of
/// a type, and the Rust path under which that type is already generated.
#[derive(Clone, Debug, Hash, PartialEq, Eq, PartialOrd, Ord)]
pub struct ExternPath {
    pub proto_path: String,
    pub target_path: String,
}

/// Mathematical value of an [`ExternPath`]: both components as character
/// sequences.
pub ghost struct ExternPathView {
    pub proto_path: Seq<char>,
    pub target_path: Seq<char>,
}

impl View for ExternPath {
    type V = ExternPathView;

    open spec fn view(&self) -> ExternPathView {
        ExternPathView { proto_path: self.proto_path@, target_path: self.target_path@ }
    }
}

impl ExternPath {
    /// A copy holding the same value.
    pub fn duplicate(&self) -> (r: ExternPath)
        ensures
            r@ == self@,
    {
        ExternPath { proto_path: self.proto_path.clone(), target_path: self.target_path.clone() }
    }
}

/// The views of a sequence of extern paths.
pub open spec fn paths_view(s: Seq<ExternPath>) -> Seq<ExternPathView> {
    s.map_values(|e: ExternPath| e@)
}

/// One package's persisted closure of extern-path bindings, read by the
/// builds of dependent packages.
#[derive(Debug)]
pub struct ProtoPackageSpec {
    pub name: String,
    pub extern_paths: Vec<ExternPath>,
}

pub ghost struct ProtoPackageSpecView {
    pub name: Seq<char>,
    pub extern_paths: Seq<ExternPathView>,
}

impl View for ProtoPackageSpec {
    type V = ProtoPackageSpecView;

    open spec fn view(&self) -> ProtoPackageSpecView {
        ProtoPackageSpecView { name: self.name@, extern_paths: paths_view(self.extern_paths@) }
    }
}

/// One group of proto sources: an include directory and the proto files,
/// relative to it, that belong to the package.
#[derive(Debug)]
pub struct ProtoSrc {
    pub dir: String,
    pub files: Vec<String>,
}

/// One Rust package declaration of the top-level configuration.
#[derive(Debug)]
pub struct RustPackage {
    pub name: String,
    pub version: String,
    pub path: String,
    pub proto_package_name: String,
    pub compile_well_known_protos: bool,
    pub protos: Vec<ProtoSrc>,
    pub protogen_dependencies: Vec<String>,
}

/// The top-level configuration: the ordered list of package declarations.
#[derive(Debug)]
pub struct ProtogenSpec {
    pub rust: Vec<RustPackage>,
}

} // verus!
