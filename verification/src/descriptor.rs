use vstd::prelude::*;
use vstd::multiset::Multiset;
use crate::casing::{seg_of, Casing};
use crate::spec_types::ExternPathView;

verus! {

/// A declared protobuf enum. Enums have no nested members, so only the name
/// matters for path resolution.
pub struct EnumDescriptor {
    pub name: String,
}

/// A declared protobuf message together with the messages and enums nested
/// in it, to arbitrary depth.
pub struct MessageDescriptor {
    pub name: String,
    pub messages: Vec<MessageDescriptor>,
    pub enums: Vec<EnumDescriptor>,
}

/// One compiled proto file: its name as the compiler reports it, its
/// protobuf package, and its top-level declarations.
pub struct FileDescriptor {
    pub name: String,
    pub package: String,
    pub messages: Vec<MessageDescriptor>,
    pub enums: Vec<EnumDescriptor>,
}

/// The compiler frontend's output over all files of one compilation.
pub struct DescriptorSet {
    pub files: Vec<FileDescriptor>,
}

/// A worklist entry of the descriptor walk: a declaration not yet emitted,
/// tagged with the proto-path and target-path prefixes of its ancestry.
pub struct ProtoType {
    pub proto_path: String,
    pub target_path: String,
    pub def: ProtoDef,
}

/// The declaration a worklist entry carries.
pub enum ProtoDef {
    Message(MessageDescriptor),
    Enum(EnumDescriptor),
}

/// The proto-path prefix of declarations nested in a declaration `name`
/// whose own prefix is `pp`.
pub open spec fn child_proto_prefix(pp: Seq<char>, name: Seq<char>) -> Seq<char> {
    pp + "."@ + name
}

/// The target-path prefix of declarations nested under module segment `seg`
/// of a target-path prefix `tp`.
pub open spec fn child_target_prefix(tp: Seq<char>, seg: Seq<char>) -> Seq<char> {
    tp + "::"@ + seg
}

/// The binding emitted for a declaration `name` under the given prefixes.
pub open spec fn entry_of(pp: Seq<char>, tp: Seq<char>, name: Seq<char>) -> ExternPathView {
    ExternPathView {
        proto_path: child_proto_prefix(pp, name),
        target_path: child_target_prefix(tp, name),
    }
}

/// Number of declarations in a message subtree: the message itself, its
/// nested enums, and everything under its nested messages.
pub open spec fn msg_weight(m: MessageDescriptor) -> nat
    decreases m,
{
    1 + m.enums@.len() + msgs_weight(m.messages@)
}

pub open spec fn msgs_weight(ms: Seq<MessageDescriptor>) -> nat
    decreases ms,
{
    if ms.len() == 0 {
        0
    } else {
        msg_weight(ms[0]) + msgs_weight(ms.drop_first())
    }
}

/// The bindings of a run of enum declarations under fixed prefixes.
pub open spec fn enum_entries(pp: Seq<char>, tp: Seq<char>, es: Seq<EnumDescriptor>) -> Multiset<
    ExternPathView,
>
    decreases es,
{
    if es.len() == 0 {
        Multiset::empty()
    } else {
        enum_entries(pp, tp, es.drop_first()).insert(entry_of(pp, tp, es[0].name@))
    }
}

/// The bindings of one message subtree: one for the message itself and one
/// for every declaration nested under it, each fully qualified by its
/// ancestry.
pub open spec fn msg_entries(
    pp: Seq<char>,
    tp: Seq<char>,
    c: Casing,
    m: MessageDescriptor,
) -> Multiset<ExternPathView>
    decreases m,
{
    let cpp = child_proto_prefix(pp, m.name@);
    let ctp = child_target_prefix(tp, seg_of(c, m.name@));
    Multiset::empty().insert(entry_of(pp, tp, m.name@)).add(
        enum_entries(cpp, ctp, m.enums@),
    ).add(msgs_entries(cpp, ctp, c, m.messages@))
}

pub open spec fn msgs_entries(
    pp: Seq<char>,
    tp: Seq<char>,
    c: Casing,
    ms: Seq<MessageDescriptor>,
) -> Multiset<ExternPathView>
    decreases ms,
{
    if ms.len() == 0 {
        Multiset::empty()
    } else {
        msg_entries(pp, tp, c, ms[0]).add(msgs_entries(pp, tp, c, ms.drop_first()))
    }
}

/// The proto-path prefix every top-level declaration of a file starts from:
/// the file's protobuf package, dot-prefixed.
pub open spec fn file_proto_prefix(f: FileDescriptor) -> Seq<char> {
    "."@ + f.package@
}

/// Every binding a file contributes, rooted at the package's root module.
pub open spec fn file_entries(root: Seq<char>, c: Casing, f: FileDescriptor) -> Multiset<
    ExternPathView,
> {
    msgs_entries(file_proto_prefix(f), root, c, f.messages@).add(
        enum_entries(file_proto_prefix(f), root, f.enums@),
    )
}

pub open spec fn files_entries(root: Seq<char>, c: Casing, fs: Seq<FileDescriptor>) -> Multiset<
    ExternPathView,
>
    decreases fs,
{
    if fs.len() == 0 {
        Multiset::empty()
    } else {
        file_entries(root, c, fs[0]).add(files_entries(root, c, fs.drop_first()))
    }
}

/// The bindings a single worklist entry still owes: its own and those of
/// everything nested under it.
pub open spec fn item_entries(c: Casing, t: ProtoType) -> Multiset<ExternPathView> {
    match t.def {
        ProtoDef::Message(m) => msg_entries(t.proto_path@, t.target_path@, c, m),
        ProtoDef::Enum(e) => Multiset::empty().insert(
            entry_of(t.proto_path@, t.target_path@, e.name@),
        ),
    }
}

pub open spec fn worklist_entries(c: Casing, ts: Seq<ProtoType>) -> Multiset<ExternPathView>
    decreases ts,
{
    if ts.len() == 0 {
        Multiset::empty()
    } else {
        item_entries(c, ts[0]).add(worklist_entries(c, ts.drop_first()))
    }
}

pub open spec fn item_weight(t: ProtoType) -> nat {
    match t.def {
        ProtoDef::Message(m) => msg_weight(m),
        ProtoDef::Enum(_) => 1,
    }
}

pub open spec fn worklist_weight(ts: Seq<ProtoType>) -> nat
    decreases ts,
{
    if ts.len() == 0 {
        0
    } else {
        item_weight(ts[0]) + worklist_weight(ts.drop_first())
    }
}

pub proof fn lemma_worklist_entries_push(c: Casing, ts: Seq<ProtoType>, t: ProtoType)
    ensures
        worklist_entries(c, ts.push(t)) == worklist_entries(c, ts).add(item_entries(c, t)),
        worklist_weight(ts.push(t)) == worklist_weight(ts) + item_weight(t),
    decreases ts,
{
    broadcast use vstd::multiset::group_multiset_axioms;

    if ts.len() == 0 {
        assert(ts.push(t).drop_first() =~= ts);
        assert(worklist_entries(c, ts.push(t)) =~= worklist_entries(c, ts).add(
            item_entries(c, t),
        ));
    } else {
        assert(ts.push(t).drop_first() =~= ts.drop_first().push(t));
        lemma_worklist_entries_push(c, ts.drop_first(), t);
        assert(worklist_entries(c, ts.push(t)) =~= worklist_entries(c, ts).add(
            item_entries(c, t),
        ));
    }
}

} // verus!
