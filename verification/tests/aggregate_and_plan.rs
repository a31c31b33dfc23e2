use protogen_build::aggregate::aggregate_extern_paths;
use protogen_build::casing::{default_root_module, module_segment, Casing};
use protogen_build::errors::BuildError;
use protogen_build::plan::{plan_package_build, run_cmd, Command, PackageCommand};
use protogen_build::spec_types::{ExternPath, ProtoPackageSpec, ProtoSrc, ProtogenSpec, RustPackage};
use protogen_build::wkt::well_known_extern_paths;

fn ep(proto: &str, target: &str) -> ExternPath {
    ExternPath { proto_path: proto.to_string(), target_path: target.to_string() }
}

fn geo_spec() -> ProtoPackageSpec {
    ProtoPackageSpec {
        name: "geo".to_string(),
        extern_paths: vec![
            ep(".geo.v1.Circle", "geo::Circle"),
            ep(".geo.v1.Circle.Point", "geo::Circle::Point"),
            ep(".geo.v1.Unit", "geo::Unit"),
        ],
    }
}

#[test]
fn well_known_table_is_fixed() {
    let wkt = well_known_extern_paths();
    assert_eq!(wkt.len(), 18);
    assert!(wkt.contains(&ep(".google.protobuf.Any", "::prost_wkt_types::Any")));
    assert!(wkt.contains(&ep(".google.protobuf.Timestamp", "::prost_wkt_types::Timestamp")));
    assert!(wkt.contains(&ep(".google.protobuf.Duration", "::prost_wkt_types::Duration")));
}

#[test]
fn dependency_merge_aggregates_dependency_and_well_known_paths() {
    let names = vec!["geo".to_string()];
    let deps = vec![geo_spec()];
    let out = aggregate_extern_paths(&names, &deps).unwrap();
    assert!(out.contains(&ep(".geo.v1.Circle", "geo::Circle")));
    assert!(out.contains(&ep(".geo.v1.Circle.Point", "geo::Circle::Point")));
    assert!(out.contains(&ep(".geo.v1.Unit", "geo::Unit")));
    assert!(out.contains(&ep(".google.protobuf.Any", "::prost_wkt_types::Any")));
    assert_eq!(out.len(), 18 + 3);
    for i in 0..out.len() {
        for j in 0..out.len() {
            if i != j {
                assert_ne!(out[i].proto_path, out[j].proto_path);
            }
        }
    }
}

#[test]
fn missing_dependency_spec_fails_the_build() {
    // a package depending on another whose spec was never built
    let names = vec!["geo".to_string()];
    let deps: Vec<ProtoPackageSpec> = vec![];
    let err = aggregate_extern_paths(&names, &deps).unwrap_err();
    assert_eq!(err, BuildError::MissingDependencySpec { package: "geo".to_string() });
    assert_eq!(
        err.message(),
        "no package spec was built for declared dependency `geo`"
    );
}

#[test]
fn undeclared_dependency_specs_are_ignored() {
    let names: Vec<String> = vec![];
    let deps = vec![geo_spec()];
    let out = aggregate_extern_paths(&names, &deps).unwrap();
    assert_eq!(out.len(), 18);
    assert!(!out.contains(&ep(".geo.v1.Circle", "geo::Circle")));
}

#[test]
fn overlapping_bindings_are_deduplicated_by_proto_path() {
    let names = vec!["a".to_string(), "b".to_string()];
    let deps = vec![
        ProtoPackageSpec {
            name: "a".to_string(),
            extern_paths: vec![ep(".x.T", "a::T")],
        },
        ProtoPackageSpec {
            name: "b".to_string(),
            extern_paths: vec![ep(".x.T", "b::T"), ep(".x.U", "b::U")],
        },
    ];
    let out = aggregate_extern_paths(&names, &deps).unwrap();
    let t_bindings: Vec<&ExternPath> =
        out.iter().filter(|e| e.proto_path == ".x.T").collect();
    assert_eq!(t_bindings.len(), 1);
    assert!(out.contains(&ep(".x.U", "b::U")));
}

#[test]
fn default_root_module_cases_the_package_name() {
    assert_eq!(default_root_module(&"my-package".to_string()), "myPackage::prost_serde");
    assert_eq!(module_segment(Casing::LowerCamel, &"FooBar".to_string()), "fooBar");
    assert_eq!(module_segment(Casing::Preserve, &"FooBar".to_string()), "FooBar");
}

fn protogen() -> ProtogenSpec {
    ProtogenSpec {
        rust: vec![RustPackage {
            name: "api".to_string(),
            version: "1.0.0".to_string(),
            path: "crates/api".to_string(),
            proto_package_name: "api.v1".to_string(),
            compile_well_known_protos: false,
            protos: vec![ProtoSrc {
                dir: "protos".to_string(),
                files: vec!["api.proto".to_string()],
            }],
            protogen_dependencies: vec![],
        }],
    }
}

#[test]
fn plan_derives_output_locations() {
    let plan = plan_package_build(
        &protogen(),
        &"protogen.json".to_string(),
        &"api".to_string(),
    )
    .unwrap();
    assert_eq!(plan.package_name, "api");
    assert_eq!(plan.package_version, "1.0.0");
    assert_eq!(plan.src_path, "crates/api/src");
    assert_eq!(plan.manifest_path, "crates/api/Cargo.toml");
    assert_eq!(plan.package_spec_path, "crates/api/src/package_spec.json");
    assert_eq!(plan.lib_rs_path, "crates/api/src/lib.rs");
    assert_eq!(plan.build_rs_path, "crates/api/build.rs");
    assert_eq!(plan.prost_serde_rs_path, "crates/api/src/prost_serde.rs");
    assert_eq!(plan.rel_protogen_path, "../../protogen.json");
}

#[test]
fn plan_rejects_unknown_package() {
    let err = plan_package_build(
        &protogen(),
        &"protogen.json".to_string(),
        &"nope".to_string(),
    )
    .unwrap_err();
    assert_eq!(err, BuildError::PackageNotFound { package: "nope".to_string() });
    assert_eq!(err.message(), "failed to find package `nope` in the protogen spec");
}

#[test]
fn plan_rejects_non_relative_output_path() {
    let mut spec = protogen();
    spec.rust[0].path = "/abs/path".to_string();
    let err = plan_package_build(
        &spec,
        &"protogen.json".to_string(),
        &"api".to_string(),
    )
    .unwrap_err();
    assert_eq!(err, BuildError::NonRelativeOutputPath { package: "api".to_string() });
}

#[test]
fn plan_rejects_configuration_path_without_file_name() {
    let err = plan_package_build(
        &protogen(),
        &"config/".to_string(),
        &"api".to_string(),
    )
    .unwrap_err();
    assert_eq!(err, BuildError::MissingProtogenFileName);
}

#[test]
fn run_cmd_dispatches_package_builds() {
    let cmd = Command::Package(PackageCommand {
        protogen_path: "protogen.json".to_string(),
        protofetch_path: "protofetch.toml".to_string(),
        package: "api".to_string(),
        dry_run: false,
    });
    let plan = run_cmd(&cmd, &protogen()).unwrap();
    assert_eq!(plan.package_name, "api");
    assert_eq!(plan.rel_protogen_path, "../../protogen.json");
}
