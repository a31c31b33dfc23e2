use vstd::prelude::*;
use vstd::string::*;
use crate::text::str_concat;

verus! {

/// How the name of a parent message is cased when it becomes a module
/// segment of the target paths of its nested types. A presentation choice;
/// the proto paths never depend on it.
#[derive(Clone, Copy, PartialEq, Eq, Structural, Debug)]
pub enum Casing {
    /// Keep the declared name as it is.
    Preserve,
    /// Fold the declared name to lowerCamelCase.
    LowerCamel,
}

/// The lowerCamelCase form of a character sequence, as the case folder
/// computes it.
pub uninterp spec fn lower_camel_of(s: Seq<char>) -> Seq<char>;

/// Relies on heck's `ToLowerCamelCase` for `str`: the lowerCamelCase form of
/// a string depends on its characters alone.
#[verifier::external_body]
fn to_lower_camel(s: &str) -> (r: String)
    ensures
        r@ == lower_camel_of(s@),
{
    heck::ToLowerCamelCase::to_lower_camel_case(s)
}

/// The module segment a declared name contributes under a given casing.
pub open spec fn seg_of(c: Casing, name: Seq<char>) -> Seq<char> {
    match c {
        Casing::Preserve => name,
        Casing::LowerCamel => lower_camel_of(name),
    }
}

pub fn module_segment(c: Casing, name: &String) -> (r: String)
    ensures
        r@ == seg_of(c, name@),
{
    match c {
        Casing::Preserve => name.clone(),
        Casing::LowerCamel => to_lower_camel(name.as_str()),
    }
}

/// The root module for a package's generated bindings: the package name in
/// lowerCamelCase with the bindings submodule appended.
pub fn default_root_module(package_name: &String) -> (r: String)
    ensures
        r@ == lower_camel_of(package_name@) + "::prost_serde"@,
{
    let camel = to_lower_camel(package_name.as_str());
    str_concat(camel.as_str(), "::prost_serde")
}

} // verus!
