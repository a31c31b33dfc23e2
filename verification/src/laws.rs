use vstd::prelude::*;
use vstd::multiset::Multiset;
use crate::casing::Casing;
use crate::descriptor::{
    entry_of, enum_entries, file_entries, files_entries, msg_entries, msgs_entries,
    FileDescriptor, MessageDescriptor,
};
use crate::emit::{distinct_proto_paths, lemma_unique_proto_paths};
use crate::spec_types::ExternPathView;
use crate::walker::{filtered, included};

verus! {

/// Law: completeness. When the walker's output holds, as a multiset, exactly
/// the bindings of the included files — its contract — and fully-qualified
/// names are distinct, as the compiler guarantees of one compilation, then
/// every declared binding appears in the output, and no proto path appears
/// at two positions: each declaration has exactly one emitted binding.
pub proof fn lemma_walk_completeness(
    out: Seq<ExternPathView>,
    root: Seq<char>,
    c: Casing,
    fs: Seq<FileDescriptor>,
    e: ExternPathView,
)
    requires
        out.to_multiset() == files_entries(root, c, fs),
        files_entries(root, c, fs).contains(e),
        distinct_proto_paths(files_entries(root, c, fs)),
    ensures
        exists|k: int| 0 <= k < out.len() && out[k] == e,
        forall|k1: int, k2: int|
            0 <= k1 < k2 < out.len() ==> out[k1].proto_path != out[k2].proto_path,
{
    broadcast use vstd::multiset::group_multiset_axioms;

    out.to_multiset_ensures();
    assert(out.to_multiset().count(e) > 0);
    assert(out.contains(e));
    lemma_unique_proto_paths(out);
}

proof fn lemma_files_entries_member(
    root: Seq<char>,
    c: Casing,
    fs: Seq<FileDescriptor>,
    e: ExternPathView,
)
    requires
        files_entries(root, c, fs).contains(e),
    ensures
        exists|i: int| 0 <= i < fs.len() && #[trigger] file_entries(root, c, fs[i]).contains(e),
    decreases fs,
{
    broadcast use vstd::multiset::group_multiset_axioms;

    if fs.len() == 0 {
        assert(files_entries(root, c, fs).count(e) == 0);
    } else if file_entries(root, c, fs[0]).count(e) > 0 {
        assert(file_entries(root, c, fs[0]).contains(e));
    } else {
        assert(files_entries(root, c, fs.drop_first()).contains(e));
        lemma_files_entries_member(root, c, fs.drop_first(), e);
        let i = choose|i: int|
            0 <= i < fs.drop_first().len() && #[trigger] file_entries(
                root,
                c,
                fs.drop_first()[i],
            ).contains(e);
        assert(fs[i + 1] == fs.drop_first()[i]);
        assert(file_entries(root, c, fs[i + 1]).contains(e));
    }
}

proof fn lemma_filtered_member(
    files: Seq<FileDescriptor>,
    declared: Seq<Seq<char>>,
    pkg: Seq<char>,
)
    ensures
        forall|j: int|
            0 <= j < filtered(files, declared, pkg).len() ==> included(
                #[trigger] filtered(files, declared, pkg)[j],
                declared,
                pkg,
            ) && files.contains(filtered(files, declared, pkg)[j]),
    decreases files,
{
    if files.len() == 0 {
    } else {
        lemma_filtered_member(files.drop_first(), declared, pkg);
        let rest = filtered(files.drop_first(), declared, pkg);
        assert forall|j: int| 0 <= j < filtered(files, declared, pkg).len() implies included(
            #[trigger] filtered(files, declared, pkg)[j],
            declared,
            pkg,
        ) && files.contains(filtered(files, declared, pkg)[j]) by {
            if included(files[0], declared, pkg) {
                if j == 0 {
                    assert(filtered(files, declared, pkg)[0] == files[0]);
                    assert(files.contains(files[0]));
                } else {
                    assert(filtered(files, declared, pkg)[j] == rest[j - 1]);
                    assert(files.drop_first().contains(rest[j - 1]));
                    let k = choose|k: int|
                        0 <= k < files.drop_first().len() && files.drop_first()[k] == rest[j - 1];
                    assert(files[k + 1] == rest[j - 1]);
                }
            } else {
                assert(filtered(files, declared, pkg)[j] == rest[j]);
                assert(files.drop_first().contains(rest[j]));
                let k = choose|k: int|
                    0 <= k < files.drop_first().len() && files.drop_first()[k] == rest[j];
                assert(files[k + 1] == rest[j]);
            }
        }
    }
}

/// Law: isolation. When the walker ran on the filtered descriptor set — its
/// contract after filtering — every binding it emitted stems from a file the
/// filtering rule includes: nothing of an excluded file is ever emitted.
pub proof fn lemma_isolation(
    out: Seq<ExternPathView>,
    root: Seq<char>,
    c: Casing,
    files: Seq<FileDescriptor>,
    declared: Seq<Seq<char>>,
    pkg: Seq<char>,
    k: int,
)
    requires
        out.to_multiset() == files_entries(root, c, filtered(files, declared, pkg)),
        0 <= k < out.len(),
    ensures
        exists|f: FileDescriptor|
            #![trigger file_entries(root, c, f)]
            files.contains(f) && included(f, declared, pkg) && file_entries(root, c, f).contains(
                out[k],
            ),
{
    broadcast use vstd::multiset::group_multiset_axioms;

    out.to_multiset_ensures();
    assert(out.contains(out[k]));
    assert(out.to_multiset().count(out[k]) > 0);
    let kept = filtered(files, declared, pkg);
    assert(files_entries(root, c, kept).contains(out[k]));
    lemma_files_entries_member(root, c, kept, out[k]);
    let i = choose|i: int|
        0 <= i < kept.len() && #[trigger] file_entries(root, c, kept[i]).contains(out[k]);
    lemma_filtered_member(files, declared, pkg);
    assert(included(kept[i], declared, pkg));
    assert(files.contains(kept[i]));
}

/// Law: nested naming. A file of proto package `p` holding one message with
/// one nested message yields exactly two bindings: the outer message at its
/// dotted name under the root module, and the nested one with both paths
/// extended by the outer name.
pub proof fn lemma_nested_naming(
    p: Seq<char>,
    root: Seq<char>,
    f: FileDescriptor,
    outer: MessageDescriptor,
    inner: MessageDescriptor,
)
    requires
        f.package@ == p,
        f.messages@ == seq![outer],
        f.enums@.len() == 0,
        outer.messages@ == seq![inner],
        outer.enums@.len() == 0,
        inner.messages@.len() == 0,
        inner.enums@.len() == 0,
    ensures
        file_entries(root, Casing::Preserve, f) == Multiset::empty().insert(
            ExternPathView {
                proto_path: "."@ + p + "."@ + outer.name@,
                target_path: root + "::"@ + outer.name@,
            },
        ).insert(
            ExternPathView {
                proto_path: "."@ + p + "."@ + outer.name@ + "."@ + inner.name@,
                target_path: root + "::"@ + outer.name@ + "::"@ + inner.name@,
            },
        ),
{
    broadcast use vstd::multiset::group_multiset_axioms;

    let pp = "."@ + f.package@;
    let cpp = pp + "."@ + outer.name@;
    let ctp = root + "::"@ + outer.name@;
    assert(f.messages@.drop_first() =~= Seq::<MessageDescriptor>::empty());
    assert(outer.messages@.drop_first() =~= Seq::<MessageDescriptor>::empty());
    assert(f.messages@[0] == outer);
    assert(outer.messages@[0] == inner);
    assert(msgs_entries(cpp, ctp, Casing::Preserve, Seq::<MessageDescriptor>::empty())
        == Multiset::<ExternPathView>::empty());
    assert(files_entries(root, Casing::Preserve, Seq::<FileDescriptor>::empty())
        == Multiset::<ExternPathView>::empty());
    assert(enum_entries(cpp, ctp, outer.enums@) =~= Multiset::empty()) by {
        assert(outer.enums@ =~= Seq::<crate::descriptor::EnumDescriptor>::empty());
    }
    assert(enum_entries(pp, root, f.enums@) =~= Multiset::empty()) by {
        assert(f.enums@ =~= Seq::<crate::descriptor::EnumDescriptor>::empty());
    }
    assert(enum_entries(
        cpp + "."@ + inner.name@,
        ctp + "::"@ + inner.name@,
        inner.enums@,
    ) =~= Multiset::empty()) by {
        assert(inner.enums@ =~= Seq::<crate::descriptor::EnumDescriptor>::empty());
    }
    assert(msgs_entries(
        cpp + "."@ + inner.name@,
        ctp + "::"@ + inner.name@,
        Casing::Preserve,
        inner.messages@,
    ) =~= Multiset::empty()) by {
        assert(inner.messages@ =~= Seq::<MessageDescriptor>::empty());
    }
    assert(msgs_entries(cpp, ctp, Casing::Preserve, outer.messages@) =~= msg_entries(
        cpp,
        ctp,
        Casing::Preserve,
        inner,
    ).add(Multiset::empty()));
    assert(msg_entries(cpp, ctp, Casing::Preserve, inner) =~= Multiset::empty().insert(
        entry_of(cpp, ctp, inner.name@),
    ));
    assert(msg_entries(pp, root, Casing::Preserve, outer) =~= Multiset::empty().insert(
        entry_of(pp, root, outer.name@),
    ).insert(entry_of(cpp, ctp, inner.name@)));
    assert(files_entries(root, Casing::Preserve, seq![f]) == file_entries(
        root,
        Casing::Preserve,
        f,
    ).add(Multiset::empty())) by {
        assert(seq![f].drop_first() =~= Seq::<FileDescriptor>::empty());
    }
    assert(msgs_entries(pp, root, Casing::Preserve, Seq::<MessageDescriptor>::empty())
        == Multiset::<ExternPathView>::empty());
    assert(msgs_entries(pp, root, Casing::Preserve, f.messages@) =~= msg_entries(
        pp,
        root,
        Casing::Preserve,
        outer,
    ).add(Multiset::empty()));
    assert(file_entries(root, Casing::Preserve, f) =~= Multiset::empty().insert(
        ExternPathView {
            proto_path: "."@ + p + "."@ + outer.name@,
            target_path: root + "::"@ + outer.name@,
        },
    ).insert(
        ExternPathView {
            proto_path: "."@ + p + "."@ + outer.name@ + "."@ + inner.name@,
            target_path: root + "::"@ + outer.name@ + "::"@ + inner.name@,
        },
    ));
}

} // verus!
