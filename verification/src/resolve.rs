use vstd::prelude::*;
use vstd::relations::sorted_by;
use crate::casing::Casing;
use crate::descriptor::{files_entries, DescriptorSet};
use crate::emit::{build_package_spec, ep_leq, json_of_spec, spec_to_json};
use crate::errors::BuildError;
use crate::spec_types::{paths_view, ExternPath, ProtoPackageSpec, ProtoSrc};
use crate::text::names_of;
use crate::walker::{filtered, included_files, walk_descriptors};

verus! {

/// The file names of every declared proto source group, flattened in order.
pub open spec fn declared_files_of(ps: Seq<ProtoSrc>) -> Seq<Seq<char>>
    decreases ps,
{
    if ps.len() == 0 {
        Seq::empty()
    } else {
        names_of(ps[0].files@) + declared_files_of(ps.drop_first())
    }
}

proof fn lemma_declared_files_push(ps: Seq<ProtoSrc>, p: ProtoSrc)
    ensures
        declared_files_of(ps.push(p)) == declared_files_of(ps) + names_of(p.files@),
    decreases ps,
{
    if ps.len() == 0 {
        assert(ps.push(p).drop_first() =~= ps);
        assert(declared_files_of(ps.push(p)) =~= declared_files_of(ps) + names_of(p.files@));
    } else {
        assert(ps.push(p).drop_first() =~= ps.drop_first().push(p));
        lemma_declared_files_push(ps.drop_first(), p);
        assert(declared_files_of(ps.push(p)) =~= declared_files_of(ps) + names_of(p.files@));
    }
}

/// Collects the declared proto file names of a package, as the filtering
/// rule compares them.
pub fn declared_files(protos: &Vec<ProtoSrc>) -> (out: Vec<String>)
    ensures
        names_of(out@) == declared_files_of(protos@),
{
    let mut out: Vec<String> = Vec::new();
    proof {
        assert(protos@.take(0) =~= Seq::<ProtoSrc>::empty());
        assert(names_of(out@) =~= declared_files_of(protos@.take(0)));
    }
    let mut i: usize = 0;
    while i < protos.len()
        invariant
            i <= protos@.len(),
            names_of(out@) == declared_files_of(protos@.take(i as int)),
        decreases protos@.len() - i,
    {
        let ghost taken = protos@.take(i as int);
        let mut j: usize = 0;
        while j < protos[i].files.len()
            invariant
                i < protos@.len(),
                j <= protos@[i as int].files@.len(),
                names_of(out@) == declared_files_of(protos@.take(i as int)) + names_of(
                    protos@[i as int].files@.take(j as int),
                ),
            decreases protos@[i as int].files@.len() - j,
        {
            let ghost opre = out@;
            let ghost jpre = j as int;
            out.push(protos[i].files[j].clone());
            proof {
                assert(names_of(out@) =~= names_of(opre).push(protos@[i as int].files@[jpre]@));
                assert(names_of(protos@[i as int].files@.take(jpre + 1)) =~= names_of(
                    protos@[i as int].files@.take(jpre),
                ).push(protos@[i as int].files@[jpre]@));
                assert(names_of(out@) =~= declared_files_of(protos@.take(i as int)) + names_of(
                    protos@[i as int].files@.take(jpre + 1),
                ));
            }
            j += 1;
        }
        proof {
            assert(protos@[i as int].files@.take(protos@[i as int].files@.len() as int)
                =~= protos@[i as int].files@);
            lemma_declared_files_push(taken, protos@[i as int]);
            assert(protos@.take(i + 1) =~= taken.push(protos@[i as int]));
            assert(names_of(out@) =~= declared_files_of(protos@.take(i + 1)));
        }
        i += 1;
    }
    proof {
        assert(protos@.take(protos@.len() as int) =~= protos@);
    }
    out
}

/// The include directories of the declared proto source groups, in order.
pub fn include_dirs(protos: &Vec<ProtoSrc>) -> (out: Vec<String>)
    ensures
        names_of(out@) == protos@.map_values(|p: ProtoSrc| p.dir@),
{
    let mut out: Vec<String> = Vec::new();
    let mut i: usize = 0;
    proof {
        assert(names_of(out@) =~= protos@.take(0).map_values(|p: ProtoSrc| p.dir@));
    }
    while i < protos.len()
        invariant
            i <= protos@.len(),
            names_of(out@) == protos@.take(i as int).map_values(|p: ProtoSrc| p.dir@),
        decreases protos@.len() - i,
    {
        let ghost opre = out@;
        out.push(protos[i].dir.clone());
        proof {
            assert(names_of(out@) =~= names_of(opre).push(protos@[i as int].dir@));
            assert(protos@.take(i + 1).map_values(|p: ProtoSrc| p.dir@) =~= protos@.take(
                i as int,
            ).map_values(|p: ProtoSrc| p.dir@).push(protos@[i as int].dir@));
        }
        i += 1;
    }
    proof {
        assert(protos@.take(protos@.len() as int) =~= protos@);
    }
    out
}

/// The full path of one declared proto file within its source group.
pub open spec fn joined_path(dir: Seq<char>, file: Seq<char>) -> Seq<char> {
    dir + "/"@ + file
}

/// Every declared proto file joined onto its group's include directory, in
/// order: the file list handed to the compiler frontend.
pub open spec fn proto_paths_of(ps: Seq<ProtoSrc>) -> Seq<Seq<char>>
    decreases ps,
{
    if ps.len() == 0 {
        Seq::empty()
    } else {
        ps[0].files@.map_values(|f: String| joined_path(ps[0].dir@, f@)) + proto_paths_of(
            ps.drop_first(),
        )
    }
}

proof fn lemma_proto_paths_push(ps: Seq<ProtoSrc>, p: ProtoSrc)
    ensures
        proto_paths_of(ps.push(p)) == proto_paths_of(ps) + p.files@.map_values(
            |f: String| joined_path(p.dir@, f@),
        ),
    decreases ps,
{
    if ps.len() == 0 {
        assert(ps.push(p).drop_first() =~= ps);
        assert(proto_paths_of(ps.push(p)) =~= proto_paths_of(ps) + p.files@.map_values(
            |f: String| joined_path(p.dir@, f@),
        ));
    } else {
        assert(ps.push(p).drop_first() =~= ps.drop_first().push(p));
        lemma_proto_paths_push(ps.drop_first(), p);
        assert(proto_paths_of(ps.push(p)) =~= proto_paths_of(ps) + p.files@.map_values(
            |f: String| joined_path(p.dir@, f@),
        ));
    }
}

/// Joins every declared proto file onto its include directory.
pub fn proto_file_paths(protos: &Vec<ProtoSrc>) -> (out: Vec<String>)
    ensures
        names_of(out@) == proto_paths_of(protos@),
{
    let mut out: Vec<String> = Vec::new();
    proof {
        assert(protos@.take(0) =~= Seq::<ProtoSrc>::empty());
        assert(names_of(out@) =~= proto_paths_of(protos@.take(0)));
    }
    let mut i: usize = 0;
    while i < protos.len()
        invariant
            i <= protos@.len(),
            names_of(out@) == proto_paths_of(protos@.take(i as int)),
        decreases protos@.len() - i,
    {
        let ghost taken = protos@.take(i as int);
        let mut j: usize = 0;
        while j < protos[i].files.len()
            invariant
                i < protos@.len(),
                j <= protos@[i as int].files@.len(),
                names_of(out@) == proto_paths_of(protos@.take(i as int)) + protos@[i as int]
                    .files@.take(j as int).map_values(
                    |f: String| joined_path(protos@[i as int].dir@, f@),
                ),
            decreases protos@[i as int].files@.len() - j,
        {
            let ghost opre = out@;
            let ghost jpre = j as int;
            let joined = crate::text::str_concat3(
                protos[i].dir.as_str(),
                "/",
                protos[i].files[j].as_str(),
            );
            out.push(joined);
            proof {
                assert(names_of(out@) =~= names_of(opre).push(
                    joined_path(protos@[i as int].dir@, protos@[i as int].files@[jpre]@),
                ));
                assert(protos@[i as int].files@.take(jpre + 1).map_values(
                    |f: String| joined_path(protos@[i as int].dir@, f@),
                ) =~= protos@[i as int].files@.take(jpre).map_values(
                    |f: String| joined_path(protos@[i as int].dir@, f@),
                ).push(joined_path(protos@[i as int].dir@, protos@[i as int].files@[jpre]@)));
                assert(names_of(out@) =~= proto_paths_of(protos@.take(i as int)) + protos@[i
                    as int].files@.take(jpre + 1).map_values(
                    |f: String| joined_path(protos@[i as int].dir@, f@),
                ));
            }
            j += 1;
        }
        proof {
            assert(protos@[i as int].files@.take(protos@[i as int].files@.len() as int)
                =~= protos@[i as int].files@);
            lemma_proto_paths_push(taken, protos@[i as int]);
            assert(protos@.take(i + 1) =~= taken.push(protos@[i as int]));
            assert(names_of(out@) =~= proto_paths_of(protos@.take(i + 1)));
        }
        i += 1;
    }
    proof {
        assert(protos@.take(protos@.len() as int) =~= protos@);
    }
    out
}

/// After compilation: filters the returned descriptor set down to the
/// package's own files and walks it. Zero included files although the
/// package declares at least one proto source signals a source or
/// package-name mismatch and fails the build.
pub fn resolve_package_paths(
    dset: DescriptorSet,
    protos: &Vec<ProtoSrc>,
    proto_package_name: &String,
    root_module: &String,
    casing: Casing,
) -> (r: Result<Vec<ExternPath>, BuildError>)
    ensures
        ({
            let decl = declared_files_of(protos@);
            let kept = filtered(dset.files@, decl, proto_package_name@);
            match r {
                Ok(out) => {
                    &&& paths_view(out@).to_multiset() == files_entries(
                        root_module@,
                        casing,
                        kept,
                    )
                    &&& !(kept.len() == 0 && decl.len() > 0)
                },
                Err(e) => {
                    &&& e == BuildError::EmptyPackageOutput
                    &&& kept.len() == 0
                    &&& decl.len() > 0
                },
            }
        }),
{
    let decl = declared_files(protos);
    let DescriptorSet { files } = dset;
    let kept = included_files(files, &decl, proto_package_name);
    if kept.len() == 0 && decl.len() > 0 {
        proof {
            assert(names_of(decl@).len() == decl@.len());
        }
        return Err(BuildError::EmptyPackageOutput);
    }
    proof {
        assert(names_of(decl@).len() == decl@.len());
    }
    Ok(walk_descriptors(kept, root_module, casing))
}

/// The final step of a package build: the package's own spec, sorted for
/// deterministic serialization, together with its serialized text. The
/// caller persists the text atomically.
pub fn emit_package_spec(package_name: &String, paths: Vec<ExternPath>) -> (r: (
    ProtoPackageSpec,
    String,
))
    ensures
        r.0@.name == package_name@,
        sorted_by(r.0@.extern_paths, ep_leq()),
        r.0@.extern_paths.to_multiset() == paths_view(paths@).to_multiset(),
        r.1@ == json_of_spec(r.0@),
{
    let pkg_spec = build_package_spec(package_name, paths);
    let text = spec_to_json(&pkg_spec);
    (pkg_spec, text)
}

} // verus!
