use vstd::prelude::*;
use vstd::multiset::Multiset;
use std::collections::VecDeque;
use crate::casing::{module_segment, seg_of, Casing};
use crate::descriptor::{
    child_proto_prefix, child_target_prefix, entry_of, enum_entries, file_entries,
    file_proto_prefix, files_entries, item_entries, item_weight, lemma_worklist_entries_push,
    msg_entries, msgs_entries, msgs_weight, worklist_entries, worklist_weight,
    EnumDescriptor, FileDescriptor, MessageDescriptor, ProtoDef, ProtoType,
};
use crate::spec_types::{paths_view, ExternPath, ExternPathView};
use crate::text::{contains_string, names_of, str_concat, str_concat3};

verus! {

proof fn lemma_paths_view_push(s: Seq<ExternPath>, e: ExternPath)
    ensures
        paths_view(s.push(e)) == paths_view(s).push(e@),
{
    assert(paths_view(s.push(e)) =~= paths_view(s).push(e@));
}

/// Enqueues every given declaration as a worklist entry under the two given
/// prefixes. The worklist gains exactly the bindings those declarations owe.
#[allow(unused_variables)]
fn enqueue_children(
    queue: &mut VecDeque<ProtoType>,
    cpp: &String,
    ctp: &String,
    casing: Casing,
    msgs: Vec<MessageDescriptor>,
    enums: Vec<EnumDescriptor>,
)
    ensures
        worklist_entries(casing, final(queue)@) == worklist_entries(casing, old(queue)@).add(
            msgs_entries(cpp@, ctp@, casing, msgs@),
        ).add(enum_entries(cpp@, ctp@, enums@)),
        worklist_weight(final(queue)@) == worklist_weight(old(queue)@) + msgs_weight(msgs@)
            + enums@.len(),
{
    broadcast use vstd::multiset::group_multiset_axioms;

    let ghost q0 = queue@;
    let ghost ms0 = msgs@;
    let ghost es0 = enums@;
    let mut msgs = msgs;
    let mut enums = enums;
    while msgs.len() > 0
        invariant
            worklist_entries(casing, queue@).add(msgs_entries(cpp@, ctp@, casing, msgs@))
                =~= worklist_entries(casing, q0).add(msgs_entries(cpp@, ctp@, casing, ms0)),
            worklist_weight(queue@) + msgs_weight(msgs@) == worklist_weight(q0) + msgs_weight(ms0),
            enums@ == es0,
        decreases msgs@.len(),
    {
        let ghost pre = msgs@;
        let m = msgs.remove(0);
        proof {
            assert(pre.remove(0) =~= pre.drop_first());
        }
        let t = ProtoType {
            proto_path: cpp.clone(),
            target_path: ctp.clone(),
            def: ProtoDef::Message(m),
        };
        proof {
            lemma_worklist_entries_push(casing, queue@, t);
            assert(item_entries(casing, t) == msg_entries(cpp@, ctp@, casing, pre[0]));
            assert(msgs_entries(cpp@, ctp@, casing, pre) == msg_entries(
                cpp@,
                ctp@,
                casing,
                pre[0],
            ).add(msgs_entries(cpp@, ctp@, casing, pre.drop_first())));
        }
        let ghost qpre = queue@;
        queue.push_back(t);
        proof {
            assert(worklist_entries(casing, queue@).add(msgs_entries(cpp@, ctp@, casing, msgs@))
                =~= worklist_entries(casing, qpre).add(msgs_entries(cpp@, ctp@, casing, pre)));
        }
    }
    assert(msgs_entries(cpp@, ctp@, casing, msgs@) =~= Multiset::empty());
    while enums.len() > 0
        invariant
            worklist_entries(casing, queue@).add(enum_entries(cpp@, ctp@, enums@))
                =~= worklist_entries(casing, q0).add(msgs_entries(cpp@, ctp@, casing, ms0)).add(
                enum_entries(cpp@, ctp@, es0),
            ),
            worklist_weight(queue@) + enums@.len() == worklist_weight(q0) + msgs_weight(ms0)
                + es0.len(),
        decreases enums@.len(),
    {
        let ghost pre = enums@;
        let e = enums.remove(0);
        proof {
            assert(pre.remove(0) =~= pre.drop_first());
        }
        let t = ProtoType {
            proto_path: cpp.clone(),
            target_path: ctp.clone(),
            def: ProtoDef::Enum(e),
        };
        proof {
            lemma_worklist_entries_push(casing, queue@, t);
            assert(enum_entries(cpp@, ctp@, pre) == enum_entries(cpp@, ctp@, pre.drop_first())
                .insert(entry_of(cpp@, ctp@, pre[0].name@)));
        }
        let ghost qpre = queue@;
        queue.push_back(t);
        proof {
            assert(worklist_entries(casing, queue@).add(enum_entries(cpp@, ctp@, enums@))
                =~= worklist_entries(casing, qpre).add(enum_entries(cpp@, ctp@, pre)));
        }
    }
    assert(enum_entries(cpp@, ctp@, enums@) =~= Multiset::empty());
}

/// Seeds the worklist with every top-level declaration of every given file,
/// each under the file's dot-prefixed protobuf package and the package's
/// root module.
#[allow(unused_variables)]
pub fn seed_worklist(files: Vec<FileDescriptor>, root: &String, casing: Casing) -> (queue:
    VecDeque<ProtoType>)
    ensures
        worklist_entries(casing, queue@) == files_entries(root@, casing, files@),
{
    broadcast use vstd::multiset::group_multiset_axioms;

    let ghost fs0 = files@;
    let mut files = files;
    let mut queue: VecDeque<ProtoType> = VecDeque::new();
    while files.len() > 0
        invariant
            worklist_entries(casing, queue@).add(files_entries(root@, casing, files@))
                =~= files_entries(root@, casing, fs0),
        decreases files@.len(),
    {
        let ghost pre = files@;
        let f = files.remove(0);
        proof {
            assert(pre.remove(0) =~= pre.drop_first());
            assert(files_entries(root@, casing, pre) == file_entries(root@, casing, pre[0]).add(
                files_entries(root@, casing, pre.drop_first()),
            ));
        }
        let FileDescriptor { name, package, messages, enums } = f;
        let pp = str_concat(".", package.as_str());
        proof {
            assert(pp@ == file_proto_prefix(pre[0]));
            assert(file_entries(root@, casing, pre[0]) == msgs_entries(
                pp@,
                root@,
                casing,
                messages@,
            ).add(enum_entries(pp@, root@, enums@)));
        }
        let ghost qpre = queue@;
        enqueue_children(&mut queue, &pp, root, casing, messages, enums);
        proof {
            assert(worklist_entries(casing, queue@).add(files_entries(root@, casing, files@))
                =~= worklist_entries(casing, qpre).add(files_entries(root@, casing, pre)));
        }
    }
    assert(files_entries(root@, casing, files@) =~= Multiset::empty());
    queue
}

/// Drains the worklist. Dequeuing a message emits its binding and enqueues
/// its nested declarations with both prefixes extended; dequeuing an enum
/// emits its binding. The output holds, as a multiset, exactly the bindings
/// the initial worklist owed.
pub fn walk(queue: VecDeque<ProtoType>, casing: Casing) -> (out: Vec<ExternPath>)
    ensures
        paths_view(out@).to_multiset() == worklist_entries(casing, queue@),
{
    broadcast use vstd::multiset::group_multiset_axioms, vstd::seq_lib::group_to_multiset_ensures;

    let ghost q0 = queue@;
    let mut queue = queue;
    let mut out: Vec<ExternPath> = Vec::new();
    proof {
        assert(paths_view(out@) =~= Seq::<ExternPathView>::empty());
        assert(paths_view(out@).to_multiset() =~= Multiset::empty());
    }
    while queue.len() > 0
        invariant
            paths_view(out@).to_multiset().add(worklist_entries(casing, queue@))
                =~= worklist_entries(casing, q0),
        decreases worklist_weight(queue@),
    {
        let ghost pre = queue@;
        let t = queue.pop_front().unwrap();
        proof {
            assert(pre.subrange(1, pre.len() as int) =~= pre.drop_first());
            assert(worklist_entries(casing, pre) == item_entries(casing, pre[0]).add(
                worklist_entries(casing, pre.drop_first()),
            ));
            assert(worklist_weight(pre) == item_weight(pre[0]) + worklist_weight(
                pre.drop_first(),
            ));
        }
        let ProtoType { proto_path, target_path, def } = t;
        match def {
            ProtoDef::Message(m) => {
                let MessageDescriptor { name, messages, enums } = m;
                let proto_full = str_concat3(proto_path.as_str(), ".", name.as_str());
                let target_full = str_concat3(target_path.as_str(), "::", name.as_str());
                let seg = module_segment(casing, &name);
                let ctp = str_concat3(target_path.as_str(), "::", seg.as_str());
                let ep = ExternPath {
                    proto_path: proto_full.clone(),
                    target_path: target_full,
                };
                proof {
                    assert(proto_full@ == child_proto_prefix(proto_path@, name@));
                    assert(ctp@ == child_target_prefix(target_path@, seg_of(casing, name@)));
                    assert(ep@ == entry_of(proto_path@, target_path@, name@));
                    assert(item_entries(casing, pre[0]) == Multiset::empty().insert(ep@).add(
                        enum_entries(proto_full@, ctp@, enums@),
                    ).add(msgs_entries(proto_full@, ctp@, casing, messages@)));
                    assert(item_weight(pre[0]) == 1 + enums@.len() + msgs_weight(messages@));
                    lemma_paths_view_push(out@, ep);
                }
                let ghost opre = out@;
                out.push(ep);
                let ghost qmid = queue@;
                enqueue_children(&mut queue, &proto_full, &ctp, casing, messages, enums);
                proof {
                    assert(paths_view(out@) == paths_view(opre).push(ep@));
                    vstd::seq_lib::to_multiset_build(paths_view(opre), ep@);
                    assert(paths_view(out@).to_multiset() =~= paths_view(opre).to_multiset()
                        .insert(ep@));
                    assert(paths_view(out@).to_multiset().add(worklist_entries(casing, queue@))
                        =~= paths_view(opre).to_multiset().add(worklist_entries(casing, pre)));
                }
            },
            ProtoDef::Enum(e) => {
                let ep = ExternPath {
                    proto_path: str_concat3(proto_path.as_str(), ".", e.name.as_str()),
                    target_path: str_concat3(target_path.as_str(), "::", e.name.as_str()),
                };
                proof {
                    assert(ep@ == entry_of(proto_path@, target_path@, e.name@));
                    assert(item_entries(casing, pre[0]) == Multiset::empty().insert(ep@));
                    lemma_paths_view_push(out@, ep);
                }
                let ghost opre = out@;
                out.push(ep);
                proof {
                    assert(paths_view(out@) == paths_view(opre).push(ep@));
                    vstd::seq_lib::to_multiset_build(paths_view(opre), ep@);
                    assert(paths_view(out@).to_multiset() =~= paths_view(opre).to_multiset()
                        .insert(ep@));
                    assert(paths_view(out@).to_multiset().add(worklist_entries(casing, queue@))
                        =~= paths_view(opre).to_multiset().add(worklist_entries(casing, pre)));
                }
            },
        }
    }
    proof {
        assert(worklist_entries(casing, queue@) =~= Multiset::empty());
        assert(paths_view(out@).to_multiset() =~= worklist_entries(casing, q0));
    }
    out
}

/// Walks the given files: one binding per declared message or enum, nested
/// ones included, each fully qualified by its ancestry, rooted at the
/// package's root module. Traversal order never shows in the result, which
/// is pinned as a multiset.
pub fn walk_descriptors(files: Vec<FileDescriptor>, root: &String, casing: Casing) -> (out: Vec<
    ExternPath,
>)
    ensures
        paths_view(out@).to_multiset() == files_entries(root@, casing, files@),
{
    let queue = seed_worklist(files, root, casing);
    walk(queue, casing)
}

/// The filtering rule: a compiled file is the package's own exactly when its
/// file name is among the package's declared proto sources and its protobuf
/// package equals the package's declared proto package.
pub open spec fn included(f: FileDescriptor, declared: Seq<Seq<char>>, pkg: Seq<char>) -> bool {
    declared.contains(f.name@) && f.package@ == pkg
}

/// The subsequence of files the filtering rule keeps, in order.
pub open spec fn filtered(
    files: Seq<FileDescriptor>,
    declared: Seq<Seq<char>>,
    pkg: Seq<char>,
) -> Seq<FileDescriptor>
    decreases files,
{
    if files.len() == 0 {
        files
    } else {
        let rest = filtered(files.drop_first(), declared, pkg);
        if included(files[0], declared, pkg) {
            seq![files[0]] + rest
        } else {
            rest
        }
    }
}

/// Keeps exactly the files the filtering rule includes. Everything the
/// compiler pulled in transitively from dependencies is excluded; those
/// types already have bindings from the aggregated rewrite set.
pub fn included_files(
    files: Vec<FileDescriptor>,
    declared: &Vec<String>,
    proto_package: &String,
) -> (out: Vec<FileDescriptor>)
    ensures
        out@ == filtered(files@, names_of(declared@), proto_package@),
{
    let ghost fs0 = files@;
    let mut files = files;
    let mut out: Vec<FileDescriptor> = Vec::new();
    while files.len() > 0
        invariant
            out@ + filtered(files@, names_of(declared@), proto_package@) =~= filtered(
                fs0,
                names_of(declared@),
                proto_package@,
            ),
        decreases files@.len(),
    {
        let ghost pre = files@;
        let f = files.remove(0);
        proof {
            assert(pre.remove(0) =~= pre.drop_first());
        }
        let keep = contains_string(declared, &f.name);
        if keep && *proto_package == f.package {
            let ghost opre = out@;
            out.push(f);
            proof {
                assert(out@ + filtered(files@, names_of(declared@), proto_package@) =~= opre
                    + filtered(pre, names_of(declared@), proto_package@));
            }
        } else {
            proof {
                assert(!included(pre[0], names_of(declared@), proto_package@));
            }
        }
    }
    proof {
        assert(filtered(files@, names_of(declared@), proto_package@) =~= Seq::<
            FileDescriptor,
        >::empty());
        assert(out@ + filtered(files@, names_of(declared@), proto_package@) =~= out@);
    }
    out
}

} // verus!
