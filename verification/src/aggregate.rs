use vstd::prelude::*;
use crate::errors::BuildError;
use crate::spec_types::{paths_view, ExternPath, ExternPathView, ProtoPackageSpec, ProtoPackageSpecView};
use crate::text::{contains_string, names_of};
use crate::emit::unique_proto_paths;
use crate::wkt::{well_known_extern_paths, wkt_table};

verus! {

/// The views of the loaded dependency specs.
pub open spec fn dep_views(deps: Seq<ProtoPackageSpec>) -> Seq<ProtoPackageSpecView> {
    deps.map_values(|d: ProtoPackageSpec| d@)
}

/// Whether some binding of the output sequence binds the proto path `p`.
pub open spec fn binds_proto_path(out: Seq<ExternPathView>, p: Seq<char>) -> bool {
    exists|k: int| 0 <= k < out.len() && out[k].proto_path == p
}

/// Membership in the union of the declared dependencies' bindings.
pub open spec fn in_dependency_union(
    e: ExternPathView,
    names: Seq<Seq<char>>,
    deps: Seq<ProtoPackageSpecView>,
) -> bool {
    exists|i: int|
        0 <= i < deps.len() && names.contains(deps[i].name) && deps[i].extern_paths.contains(e)
}

/// Membership in the full rewrite set the compiler frontend must honor: the
/// well-known-type table plus every declared dependency's bindings.
pub open spec fn in_rewrite_union(
    e: ExternPathView,
    names: Seq<Seq<char>>,
    deps: Seq<ProtoPackageSpecView>,
) -> bool {
    wkt_table().contains(e) || in_dependency_union(e, names, deps)
}

/// Appends the binding unless its proto path is already bound, keeping the
/// set unique by proto path.
fn push_if_new(out: &mut Vec<ExternPath>, e: ExternPath)
    requires
        unique_proto_paths(paths_view(old(out)@)),
    ensures
        unique_proto_paths(paths_view(final(out)@)),
        binds_proto_path(paths_view(final(out)@), e@.proto_path),
        paths_view(final(out)@) == paths_view(old(out)@) || paths_view(final(out)@) == paths_view(
            old(out)@,
        ).push(e@),
{
    let mut k: usize = 0;
    while k < out.len()
        invariant
            out@ == old(out)@,
            unique_proto_paths(paths_view(out@)),
            k <= out@.len(),
            forall|j: int| 0 <= j < k ==> paths_view(out@)[j].proto_path != e@.proto_path,
        decreases out@.len() - k,
    {
        if out[k].proto_path == e.proto_path {
            assert(paths_view(out@)[k as int].proto_path == e@.proto_path);
            return ;
        }
        k += 1;
    }
    let ghost opre = out@;
    out.push(e);
    proof {
        assert(paths_view(out@) =~= paths_view(opre).push(e@));
        assert(paths_view(out@)[paths_view(opre).len() as int] == e@);
    }
}

proof fn lemma_binds_push(out: Seq<ExternPathView>, e: ExternPathView, p: Seq<char>)
    requires
        binds_proto_path(out, p),
    ensures
        binds_proto_path(out.push(e), p),
{
    let k = choose|k: int| 0 <= k < out.len() && out[k].proto_path == p;
    assert(out.push(e)[k] == out[k]);
}

/// Computes the rewrite set for one package build, before the compiler
/// frontend runs: the union of every declared dependency's bindings with the
/// full well-known-type table, deduplicated by proto path. A declared
/// dependency whose spec is absent fails the build: packages must be built
/// in dependency order.
pub fn aggregate_extern_paths(names: &Vec<String>, deps: &Vec<ProtoPackageSpec>) -> (r: Result<
    Vec<ExternPath>,
    BuildError,
>)
    ensures
        match r {
            Ok(out) => {
                &&& unique_proto_paths(paths_view(out@))
                &&& forall|k: int|
                    0 <= k < out@.len() ==> in_rewrite_union(
                        paths_view(out@)[k],
                        names_of(names@),
                        dep_views(deps@),
                    )
                &&& forall|e: ExternPathView|
                    in_rewrite_union(e, names_of(names@), dep_views(deps@)) ==> binds_proto_path(
                        paths_view(out@),
                        e.proto_path,
                    )
                &&& forall|n: Seq<char>|
                    names_of(names@).contains(n) ==> exists|i: int|
                        0 <= i < deps@.len() && #[trigger] deps@[i].name@ == n
            },
            Err(err) => match err {
                BuildError::MissingDependencySpec { package } => {
                    &&& names_of(names@).contains(package@)
                    &&& forall|i: int| 0 <= i < deps@.len() ==> deps@[i].name@ != package@
                },
                _ => false,
            },
        },
{
    // every declared dependency must have a loaded spec
    let mut ni: usize = 0;
    while ni < names.len()
        invariant
            ni <= names@.len(),
            forall|m: int| #![trigger names_of(names@)[m]]
                0 <= m < ni ==> exists|i: int|
                    0 <= i < deps@.len() && #[trigger] deps@[i].name@ == names_of(names@)[m],
        decreases names@.len() - ni,
    {
        let mut di: usize = 0;
        let mut found = false;
        while di < deps.len()
                invariant
                ni < names@.len(),
                di <= deps@.len(),
                found ==> exists|i: int|
                    0 <= i < deps@.len() && #[trigger] deps@[i].name@ == names_of(names@)[ni as int],
                !found ==> forall|i: int| 0 <= i < di ==> deps@[i].name@ != names@[ni as int]@,
            decreases deps@.len() - di,
        {
            if !found && deps[di].name == names[ni] {
                found = true;
                assert(deps@[di as int].name@ == names_of(names@)[ni as int]);
            }
            di += 1;
        }
        if !found {
            let package = names[ni].clone();
            assert(names_of(names@)[ni as int] == package@);
            return Err(BuildError::MissingDependencySpec { package });
        }
        ni += 1;
    }
    proof {
        assert forall|n: Seq<char>| names_of(names@).contains(n) implies exists|i: int|
            0 <= i < deps@.len() && #[trigger] deps@[i].name@ == n by {
            let m = choose|m: int| 0 <= m < names_of(names@).len() && names_of(names@)[m] == n;
            assert(names_of(names@)[m] == n);
        }
    }
    // union: the well-known table first, then every declared dependency
    let wkt = well_known_extern_paths();
    let mut out: Vec<ExternPath> = Vec::new();
    proof {
        assert(paths_view(out@) =~= Seq::<ExternPathView>::empty());
    }
    let mut wi: usize = 0;
    while wi < wkt.len()
        invariant
            wi <= wkt@.len(),
            paths_view(wkt@) == wkt_table(),
            unique_proto_paths(paths_view(out@)),
            forall|k: int|
                0 <= k < out@.len() ==> in_rewrite_union(
                    paths_view(out@)[k],
                    names_of(names@),
                    dep_views(deps@),
                ),
            forall|j: int| 0 <= j < wi ==> binds_proto_path(
                paths_view(out@),
                wkt_table()[j].proto_path,
            ),
        decreases wkt@.len() - wi,
    {
        let e = wkt[wi].duplicate();
        proof {
            assert(e@ == wkt_table()[wi as int]);
            assert(wkt_table().contains(e@));
        }
        let ghost opre = paths_view(out@);
        push_if_new(&mut out, e);
        proof {
            if paths_view(out@) == opre.push(e@) {
                assert(paths_view(out@)[opre.len() as int] == e@);
                assert forall|k: int| 0 <= k < out@.len() implies in_rewrite_union(
                    paths_view(out@)[k],
                    names_of(names@),
                    dep_views(deps@),
                ) by {
                    if k < opre.len() {
                        assert(paths_view(out@)[k] == opre[k]);
                    }
                }
                assert forall|j: int| 0 <= j < wi + 1 implies binds_proto_path(
                    paths_view(out@),
                    wkt_table()[j].proto_path,
                ) by {
                    if j < wi as int {
                        lemma_binds_push(opre, e@, wkt_table()[j].proto_path);
                    }
                }
            }
        }
        wi += 1;
    }
    let mut di: usize = 0;
    while di < deps.len()
        invariant
            di <= deps@.len(),
            unique_proto_paths(paths_view(out@)),
            forall|k: int|
                0 <= k < out@.len() ==> in_rewrite_union(
                    paths_view(out@)[k],
                    names_of(names@),
                    dep_views(deps@),
                ),
            forall|j: int| 0 <= j < wkt_table().len() ==> binds_proto_path(
                paths_view(out@),
                wkt_table()[j].proto_path,
            ),
            forall|i: int, p: int|
                0 <= i < di && names_of(names@).contains(deps@[i].name@) && 0 <= p
                    < dep_views(deps@)[i].extern_paths.len() ==> binds_proto_path(
                    paths_view(out@),
                    dep_views(deps@)[i].extern_paths[p].proto_path,
                ),
        decreases deps@.len() - di,
    {
        let declared = contains_string(names, &deps[di].name);
        if declared {
            let mut p: usize = 0;
            while p < deps[di].extern_paths.len()
                invariant
                    di < deps@.len(),
                    declared,
                    names_of(names@).contains(deps@[di as int].name@),
                    p <= deps@[di as int].extern_paths@.len(),
                    unique_proto_paths(paths_view(out@)),
                    forall|k: int|
                        0 <= k < out@.len() ==> in_rewrite_union(
                            paths_view(out@)[k],
                            names_of(names@),
                            dep_views(deps@),
                        ),
                    forall|j: int| 0 <= j < wkt_table().len() ==> binds_proto_path(
                        paths_view(out@),
                        wkt_table()[j].proto_path,
                    ),
                    forall|i: int, q: int|
                        0 <= i < di && names_of(names@).contains(deps@[i].name@) && 0 <= q
                            < dep_views(deps@)[i].extern_paths.len() ==> binds_proto_path(
                            paths_view(out@),
                            dep_views(deps@)[i].extern_paths[q].proto_path,
                        ),
                    forall|q: int|
                        0 <= q < p ==> binds_proto_path(
                            paths_view(out@),
                            dep_views(deps@)[di as int].extern_paths[q].proto_path,
                        ),
                decreases deps@[di as int].extern_paths@.len() - p,
            {
                let e = deps[di].extern_paths[p].duplicate();
                proof {
                    assert(e@ == dep_views(deps@)[di as int].extern_paths[p as int]);
                    assert(dep_views(deps@)[di as int].extern_paths.contains(e@));
                    assert(in_dependency_union(e@, names_of(names@), dep_views(deps@)));
                }
                let ghost opre = paths_view(out@);
                push_if_new(&mut out, e);
                proof {
                    if paths_view(out@) == opre.push(e@) {
                        assert(paths_view(out@)[opre.len() as int] == e@);
                        assert forall|k: int| 0 <= k < out@.len() implies in_rewrite_union(
                            paths_view(out@)[k],
                            names_of(names@),
                            dep_views(deps@),
                        ) by {
                            if k < opre.len() {
                                assert(paths_view(out@)[k] == opre[k]);
                            }
                        }
                        assert forall|j: int| 0 <= j < wkt_table().len() implies binds_proto_path(
                            paths_view(out@),
                            wkt_table()[j].proto_path,
                        ) by {
                            lemma_binds_push(opre, e@, wkt_table()[j].proto_path);
                        }
                        assert forall|i: int, q: int|
                            0 <= i < di && names_of(names@).contains(deps@[i].name@) && 0 <= q
                                < dep_views(deps@)[i].extern_paths.len() implies binds_proto_path(
                            paths_view(out@),
                            dep_views(deps@)[i].extern_paths[q].proto_path,
                        ) by {
                            lemma_binds_push(
                                opre,
                                e@,
                                dep_views(deps@)[i].extern_paths[q].proto_path,
                            );
                        }
                        assert forall|q: int| 0 <= q < p + 1 implies binds_proto_path(
                            paths_view(out@),
                            dep_views(deps@)[di as int].extern_paths[q].proto_path,
                        ) by {
                            if q < p as int {
                                lemma_binds_push(
                                    opre,
                                    e@,
                                    dep_views(deps@)[di as int].extern_paths[q].proto_path,
                                );
                            }
                        }
                    }
                }
                p += 1;
            }
        }
        proof {
            assert(dep_views(deps@)[di as int].extern_paths.len() == deps@[di as int]
                .extern_paths@.len());
            assert forall|i: int, q: int|
                0 <= i < di + 1 && names_of(names@).contains(deps@[i].name@) && 0 <= q
                    < dep_views(deps@)[i].extern_paths.len() implies binds_proto_path(
                paths_view(out@),
                dep_views(deps@)[i].extern_paths[q].proto_path,
            ) by {
                if i == di as int {
                    assert(declared);
                }
            }
        }
        di += 1;
    }
    proof {
        assert forall|e: ExternPathView|
            in_rewrite_union(e, names_of(names@), dep_views(deps@)) implies binds_proto_path(
            paths_view(out@),
            e.proto_path,
        ) by {
            if wkt_table().contains(e) {
                let j = choose|j: int| 0 <= j < wkt_table().len() && wkt_table()[j] == e;
                assert(binds_proto_path(paths_view(out@), wkt_table()[j].proto_path));
            } else {
                let i = choose|i: int|
                    0 <= i < dep_views(deps@).len() && names_of(names@).contains(
                        dep_views(deps@)[i].name,
                    ) && dep_views(deps@)[i].extern_paths.contains(e);
                let q = choose|q: int|
                    0 <= q < dep_views(deps@)[i].extern_paths.len() && dep_views(
                        deps@,
                    )[i].extern_paths[q] == e;
                assert(binds_proto_path(
                    paths_view(out@),
                    dep_views(deps@)[i].extern_paths[q].proto_path,
                ));
            }
        }
    }
    Ok(out)
}

} // verus!
