use vstd::prelude::*;
use vstd::string::*;
use crate::spec_types::{paths_view, ExternPath, ExternPathView};

verus! {

/// The fixed binding table for protobuf's standard library: every well-known
/// type resolves to its shared, already-generated Rust type, so the compiler
/// frontend is never asked to regenerate one locally.
pub open spec fn wkt_table() -> Seq<ExternPathView> {
    seq![
        ExternPathView { proto_path: ".google.protobuf.Any"@, target_path: "::prost_wkt_types::Any"@ },
        ExternPathView { proto_path: ".google.protobuf.Timestamp"@, target_path: "::prost_wkt_types::Timestamp"@ },
        ExternPathView { proto_path: ".google.protobuf.Duration"@, target_path: "::prost_wkt_types::Duration"@ },
        ExternPathView { proto_path: ".google.protobuf.Struct"@, target_path: "::prost_wkt_types::Struct"@ },
        ExternPathView { proto_path: ".google.protobuf.Value"@, target_path: "::prost_wkt_types::Value"@ },
        ExternPathView { proto_path: ".google.protobuf.ListValue"@, target_path: "::prost_wkt_types::ListValue"@ },
        ExternPathView { proto_path: ".google.protobuf.NullValue"@, target_path: "::prost_wkt_types::NullValue"@ },
        ExternPathView { proto_path: ".google.protobuf.Empty"@, target_path: "::prost_wkt_types::Empty"@ },
        ExternPathView { proto_path: ".google.protobuf.FieldMask"@, target_path: "::prost_wkt_types::FieldMask"@ },
        ExternPathView { proto_path: ".google.protobuf.BoolValue"@, target_path: "::prost_wkt_types::BoolValue"@ },
        ExternPathView { proto_path: ".google.protobuf.BytesValue"@, target_path: "::prost_wkt_types::BytesValue"@ },
        ExternPathView { proto_path: ".google.protobuf.DoubleValue"@, target_path: "::prost_wkt_types::DoubleValue"@ },
        ExternPathView { proto_path: ".google.protobuf.FloatValue"@, target_path: "::prost_wkt_types::FloatValue"@ },
        ExternPathView { proto_path: ".google.protobuf.Int32Value"@, target_path: "::prost_wkt_types::Int32Value"@ },
        ExternPathView { proto_path: ".google.protobuf.Int64Value"@, target_path: "::prost_wkt_types::Int64Value"@ },
        ExternPathView { proto_path: ".google.protobuf.StringValue"@, target_path: "::prost_wkt_types::StringValue"@ },
        ExternPathView { proto_path: ".google.protobuf.UInt32Value"@, target_path: "::prost_wkt_types::UInt32Value"@ },
        ExternPathView { proto_path: ".google.protobuf.UInt64Value"@, target_path: "::prost_wkt_types::UInt64Value"@ },
    ]
}

fn wkt_entry(proto_path: &str, target_path: &str) -> (r: ExternPath)
    ensures
        r@.proto_path == proto_path@,
        r@.target_path == target_path@,
{
    ExternPath { proto_path: proto_path.to_owned(), target_path: target_path.to_owned() }
}

/// The well-known-type table as stored values, in the order of the table.
pub fn well_known_extern_paths() -> (r: Vec<ExternPath>)
    ensures
        paths_view(r@) == wkt_table(),
{
    let mut v: Vec<ExternPath> = Vec::new();
    v.push(wkt_entry(".google.protobuf.Any", "::prost_wkt_types::Any"));
    v.push(wkt_entry(".google.protobuf.Timestamp", "::prost_wkt_types::Timestamp"));
    v.push(wkt_entry(".google.protobuf.Duration", "::prost_wkt_types::Duration"));
    v.push(wkt_entry(".google.protobuf.Struct", "::prost_wkt_types::Struct"));
    v.push(wkt_entry(".google.protobuf.Value", "::prost_wkt_types::Value"));
    v.push(wkt_entry(".google.protobuf.ListValue", "::prost_wkt_types::ListValue"));
    v.push(wkt_entry(".google.protobuf.NullValue", "::prost_wkt_types::NullValue"));
    v.push(wkt_entry(".google.protobuf.Empty", "::prost_wkt_types::Empty"));
    v.push(wkt_entry(".google.protobuf.FieldMask", "::prost_wkt_types::FieldMask"));
    v.push(wkt_entry(".google.protobuf.BoolValue", "::prost_wkt_types::BoolValue"));
    v.push(wkt_entry(".google.protobuf.BytesValue", "::prost_wkt_types::BytesValue"));
    v.push(wkt_entry(".google.protobuf.DoubleValue", "::prost_wkt_types::DoubleValue"));
    v.push(wkt_entry(".google.protobuf.FloatValue", "::prost_wkt_types::FloatValue"));
    v.push(wkt_entry(".google.protobuf.Int32Value", "::prost_wkt_types::Int32Value"));
    v.push(wkt_entry(".google.protobuf.Int64Value", "::prost_wkt_types::Int64Value"));
    v.push(wkt_entry(".google.protobuf.StringValue", "::prost_wkt_types::StringValue"));
    v.push(wkt_entry(".google.protobuf.UInt32Value", "::prost_wkt_types::UInt32Value"));
    v.push(wkt_entry(".google.protobuf.UInt64Value", "::prost_wkt_types::UInt64Value"));
    proof {
        assert(paths_view(v@) =~= wkt_table());
    }
    v
}

} // verus!
