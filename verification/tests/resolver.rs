use protogen_build::casing::Casing;
use protogen_build::descriptor::{DescriptorSet, EnumDescriptor, FileDescriptor, MessageDescriptor};
use protogen_build::resolve::{emit_package_spec, resolve_package_paths};
use protogen_build::errors::BuildError;
use protogen_build::spec_types::{ExternPath, ProtoSrc};

fn msg(name: &str, messages: Vec<MessageDescriptor>, enums: Vec<&str>) -> MessageDescriptor {
    MessageDescriptor {
        name: name.to_string(),
        messages,
        enums: enums.into_iter().map(|n| EnumDescriptor { name: n.to_string() }).collect(),
    }
}

fn geo_descriptor_set() -> DescriptorSet {
    let point = msg("Point", vec![], vec![]);
    let circle = msg("Circle", vec![point], vec![]);
    DescriptorSet {
        files: vec![FileDescriptor {
            name: "shapes.proto".to_string(),
            package: "geo.v1".to_string(),
            messages: vec![circle],
            enums: vec![EnumDescriptor { name: "Unit".to_string() }],
        }],
    }
}

fn geo_protos() -> Vec<ProtoSrc> {
    vec![ProtoSrc { dir: "protos".to_string(), files: vec!["shapes.proto".to_string()] }]
}

#[test]
fn geo_package_spec() {
    let paths = resolve_package_paths(
        geo_descriptor_set(),
        &geo_protos(),
        &"geo.v1".to_string(),
        &"geo".to_string(),
        Casing::Preserve,
    )
    .unwrap();
    let (spec, text) = emit_package_spec(&"geo".to_string(), paths);
    assert_eq!(spec.name, "geo");
    assert_eq!(
        text,
        "{\"name\":\"geo\",\"extern_paths\":[\
         {\"proto_path\":\".geo.v1.Circle\",\"target_path\":\"geo::Circle\"},\
         {\"proto_path\":\".geo.v1.Circle.Point\",\"target_path\":\"geo::Circle::Point\"},\
         {\"proto_path\":\".geo.v1.Unit\",\"target_path\":\"geo::Unit\"}]}"
    );
}

#[test]
fn walk_twice_is_byte_identical() {
    let run = || {
        let paths = resolve_package_paths(
            geo_descriptor_set(),
            &geo_protos(),
            &"geo.v1".to_string(),
            &"geo".to_string(),
            Casing::Preserve,
        )
        .unwrap();
        emit_package_spec(&"geo".to_string(), paths).1
    };
    assert_eq!(run(), run());
}

#[test]
fn no_duplicate_proto_paths() {
    let paths = resolve_package_paths(
        geo_descriptor_set(),
        &geo_protos(),
        &"geo.v1".to_string(),
        &"geo".to_string(),
        Casing::Preserve,
    )
    .unwrap();
    let (spec, _) = emit_package_spec(&"geo".to_string(), paths);
    for i in 0..spec.extern_paths.len() {
        for j in 0..spec.extern_paths.len() {
            if i != j {
                assert_ne!(spec.extern_paths[i].proto_path, spec.extern_paths[j].proto_path);
            }
        }
    }
}

#[test]
fn nested_naming() {
    let inner = msg("Inner", vec![], vec![]);
    let outer = msg("Outer", vec![inner], vec![]);
    let dset = DescriptorSet {
        files: vec![FileDescriptor {
            name: "outer.proto".to_string(),
            package: "p".to_string(),
            messages: vec![outer],
            enums: vec![],
        }],
    };
    let protos = vec![ProtoSrc { dir: "d".to_string(), files: vec!["outer.proto".to_string()] }];
    let paths = resolve_package_paths(
        dset,
        &protos,
        &"p".to_string(),
        &"r".to_string(),
        Casing::Preserve,
    )
    .unwrap();
    let (spec, _) = emit_package_spec(&"p".to_string(), paths);
    assert_eq!(
        spec.extern_paths,
        vec![
            ExternPath { proto_path: ".p.Outer".to_string(), target_path: "r::Outer".to_string() },
            ExternPath {
                proto_path: ".p.Outer.Inner".to_string(),
                target_path: "r::Outer::Inner".to_string(),
            },
        ]
    );
}

#[test]
fn lower_camel_casing_of_nested_module_segments() {
    let inner = msg("Inner", vec![], vec![]);
    let outer = msg("FooBar", vec![inner], vec![]);
    let dset = DescriptorSet {
        files: vec![FileDescriptor {
            name: "foo.proto".to_string(),
            package: "p".to_string(),
            messages: vec![outer],
            enums: vec![],
        }],
    };
    let protos = vec![ProtoSrc { dir: "d".to_string(), files: vec!["foo.proto".to_string()] }];
    let paths = resolve_package_paths(
        dset,
        &protos,
        &"p".to_string(),
        &"r".to_string(),
        Casing::LowerCamel,
    )
    .unwrap();
    let (spec, _) = emit_package_spec(&"p".to_string(), paths);
    assert_eq!(
        spec.extern_paths,
        vec![
            ExternPath {
                proto_path: ".p.FooBar".to_string(),
                target_path: "r::FooBar".to_string(),
            },
            ExternPath {
                proto_path: ".p.FooBar.Inner".to_string(),
                target_path: "r::fooBar::Inner".to_string(),
            },
        ]
    );
}

#[test]
fn excluded_files_contribute_nothing() {
    let mut dset = geo_descriptor_set();
    // a file the compiler pulled in transitively: wrong package
    dset.files.push(FileDescriptor {
        name: "dep.proto".to_string(),
        package: "other.v1".to_string(),
        messages: vec![msg("Alien", vec![], vec![])],
        enums: vec![],
    });
    // a file with the right package that was never declared
    dset.files.push(FileDescriptor {
        name: "undeclared.proto".to_string(),
        package: "geo.v1".to_string(),
        messages: vec![msg("Ghostly", vec![], vec![])],
        enums: vec![],
    });
    let paths = resolve_package_paths(
        dset,
        &geo_protos(),
        &"geo.v1".to_string(),
        &"geo".to_string(),
        Casing::Preserve,
    )
    .unwrap();
    for p in &paths {
        assert!(!p.proto_path.contains("Alien"));
        assert!(!p.proto_path.contains("Ghostly"));
    }
    assert_eq!(paths.len(), 3);
}

#[test]
fn same_package_split_across_files() {
    let mut dset = geo_descriptor_set();
    dset.files.push(FileDescriptor {
        name: "more.proto".to_string(),
        package: "geo.v1".to_string(),
        messages: vec![msg("Square", vec![], vec![])],
        enums: vec![],
    });
    let mut protos = geo_protos();
    protos[0].files.push("more.proto".to_string());
    let paths = resolve_package_paths(
        dset,
        &protos,
        &"geo.v1".to_string(),
        &"geo".to_string(),
        Casing::Preserve,
    )
    .unwrap();
    let (_, text) = emit_package_spec(&"geo".to_string(), paths);
    assert!(text.contains("{\"proto_path\":\".geo.v1.Square\",\"target_path\":\"geo::Square\"}"));
}

#[test]
fn empty_package_output_is_an_error() {
    let dset = DescriptorSet {
        files: vec![FileDescriptor {
            name: "shapes.proto".to_string(),
            package: "geo.v2".to_string(),
            messages: vec![msg("Circle", vec![], vec![])],
            enums: vec![],
        }],
    };
    // declared sources exist, but the proto package name does not match
    let err = resolve_package_paths(
        dset,
        &geo_protos(),
        &"geo.v1".to_string(),
        &"geo".to_string(),
        Casing::Preserve,
    )
    .unwrap_err();
    assert_eq!(err, BuildError::EmptyPackageOutput);
}

#[test]
fn package_without_declared_sources_may_be_empty() {
    let dset = DescriptorSet { files: vec![] };
    let protos: Vec<ProtoSrc> = vec![];
    let paths = resolve_package_paths(
        dset,
        &protos,
        &"geo.v1".to_string(),
        &"geo".to_string(),
        Casing::Preserve,
    )
    .unwrap();
    let (_, text) = emit_package_spec(&"geo".to_string(), paths);
    assert_eq!(text, "{\"name\":\"geo\",\"extern_paths\":[]}");
}

#[test]
fn message_without_nested_types_emits_one_path() {
    let dset = DescriptorSet {
        files: vec![FileDescriptor {
            name: "one.proto".to_string(),
            package: "p".to_string(),
            messages: vec![msg("Lone", vec![], vec![])],
            enums: vec![],
        }],
    };
    let protos = vec![ProtoSrc { dir: "d".to_string(), files: vec!["one.proto".to_string()] }];
    let paths = resolve_package_paths(
        dset,
        &protos,
        &"p".to_string(),
        &"r".to_string(),
        Casing::Preserve,
    )
    .unwrap();
    assert_eq!(paths.len(), 1);
    assert_eq!(paths[0].proto_path, ".p.Lone");
    assert_eq!(paths[0].target_path, "r::Lone");
}

#[test]
fn json_escapes_quotes_and_control_characters() {
    let spec = emit_package_spec(
        &"a\"b\\c\nd".to_string(),
        vec![],
    );
    assert_eq!(spec.1, "{\"name\":\"a\\\"b\\\\c\\u000ad\",\"extern_paths\":[]}");
}
