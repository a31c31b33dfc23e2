use vstd::prelude::*;
use vstd::multiset::Multiset;
use vstd::relations::{sorted_by, total_ordering};
use crate::spec_types::{paths_view, ExternPath, ExternPathView, ProtoPackageSpec, ProtoPackageSpecView};
use crate::text::{
    lemma_lex_le_antisymmetric, lemma_lex_le_total, lemma_lex_le_transitive, lex_le, push_char,
    str_lex_le,
};

verus! {

/// The total order of the serialized spec: by proto path, then by target
/// path.
pub open spec fn ep_le(a: ExternPathView, b: ExternPathView) -> bool {
    if a.proto_path == b.proto_path {
        lex_le(a.target_path, b.target_path)
    } else {
        lex_le(a.proto_path, b.proto_path)
    }
}

/// The order as a relation value, as the sortedness predicates expect it.
pub open spec fn ep_leq() -> spec_fn(ExternPathView, ExternPathView) -> bool {
    |a: ExternPathView, b: ExternPathView| ep_le(a, b)
}

pub proof fn lemma_ep_le_reflexive(a: ExternPathView)
    ensures
        ep_le(a, a),
{
    lemma_lex_le_total(a.proto_path, a.proto_path);
    lemma_lex_le_total(a.target_path, a.target_path);
}

pub proof fn lemma_ep_le_total(a: ExternPathView, b: ExternPathView)
    ensures
        ep_le(a, b) || ep_le(b, a),
{
    lemma_lex_le_total(a.proto_path, b.proto_path);
    lemma_lex_le_total(a.target_path, b.target_path);
}

pub proof fn lemma_ep_le_antisymmetric(a: ExternPathView, b: ExternPathView)
    requires
        ep_le(a, b),
        ep_le(b, a),
    ensures
        a == b,
{
    if a.proto_path == b.proto_path {
        lemma_lex_le_antisymmetric(a.target_path, b.target_path);
    } else {
        lemma_lex_le_antisymmetric(a.proto_path, b.proto_path);
    }
}

pub proof fn lemma_ep_le_transitive(a: ExternPathView, b: ExternPathView, c: ExternPathView)
    requires
        ep_le(a, b),
        ep_le(b, c),
    ensures
        ep_le(a, c),
{
    if a.proto_path == b.proto_path && b.proto_path == c.proto_path {
        lemma_lex_le_transitive(a.target_path, b.target_path, c.target_path);
    } else if a.proto_path == b.proto_path {
        assert(lex_le(a.proto_path, c.proto_path));
    } else if b.proto_path == c.proto_path {
        assert(lex_le(a.proto_path, c.proto_path));
    } else {
        lemma_lex_le_transitive(a.proto_path, b.proto_path, c.proto_path);
        if a.proto_path == c.proto_path {
            lemma_lex_le_antisymmetric(a.proto_path, b.proto_path);
        }
    }
}

pub proof fn lemma_ep_le_total_ordering()
    ensures
        total_ordering(ep_leq()),
{
    assert forall|a: ExternPathView, b: ExternPathView| #[trigger] ep_leq()(a, b) || ep_leq()(
        b,
        a,
    ) by {
        lemma_ep_le_total(a, b);
    }
    assert forall|a: ExternPathView, b: ExternPathView|
        #[trigger] ep_leq()(a, b) && ep_leq()(b, a) implies a == b by {
        lemma_ep_le_antisymmetric(a, b);
    }
    assert forall|a: ExternPathView, b: ExternPathView, c: ExternPathView|
        #![trigger ep_leq()(a, b), ep_leq()(b, c)]
        ep_leq()(a, b) && ep_leq()(b, c) implies ep_leq()(a, c) by {
        lemma_ep_le_transitive(a, b, c);
    }
    assert forall|a: ExternPathView| #[trigger] ep_leq()(a, a) by {
        lemma_ep_le_reflexive(a);
    }
}

/// The serialized order, on the stored values.
pub fn extern_path_le(a: &ExternPath, b: &ExternPath) -> (r: bool)
    ensures
        r == ep_le(a@, b@),
{
    if a.proto_path == b.proto_path {
        str_lex_le(a.target_path.as_str(), b.target_path.as_str())
    } else {
        str_lex_le(a.proto_path.as_str(), b.proto_path.as_str())
    }
}

/// Sorts bindings by `(proto_path, target_path)`. Selection sort: small
/// inputs, and the contract is what matters.
pub fn sort_extern_paths(paths: Vec<ExternPath>) -> (out: Vec<ExternPath>)
    ensures
        sorted_by(paths_view(out@), ep_leq()),
        paths_view(out@).to_multiset() == paths_view(paths@).to_multiset(),
{
    broadcast use vstd::multiset::group_multiset_axioms, vstd::seq_lib::group_to_multiset_ensures;

    let ghost p0 = paths@;
    let mut rest = paths;
    let mut out: Vec<ExternPath> = Vec::new();
    proof {
        assert(paths_view(out@) =~= Seq::<ExternPathView>::empty());
    }
    while rest.len() > 0
        invariant
            paths_view(out@).to_multiset().add(paths_view(rest@).to_multiset()) =~= paths_view(
                p0,
            ).to_multiset(),
            sorted_by(paths_view(out@), ep_leq()),
            forall|i: int, j: int|
                0 <= i < out@.len() && 0 <= j < rest@.len() ==> ep_le(
                    paths_view(out@)[i],
                    paths_view(rest@)[j],
                ),
        decreases rest@.len(),
    {
        let mut mi: usize = 0;
        let mut i: usize = 1;
        proof {
            lemma_ep_le_reflexive(rest@[0]@);
        }
        while i < rest.len()
            invariant
                mi < i <= rest@.len(),
                rest@.len() > 0,
                forall|k: int| 0 <= k < i ==> ep_le(rest@[mi as int]@, rest@[k]@),
            decreases rest@.len() - i,
        {
            let ghost mprev = mi as int;
            let takes = extern_path_le(&rest[i], &rest[mi]);
            if takes {
                mi = i;
            }
            proof {
                if takes {
                    assert forall|k: int| 0 <= k < i + 1 implies ep_le(
                        rest@[mi as int]@,
                        rest@[k]@,
                    ) by {
                        if k < i {
                            lemma_ep_le_transitive(rest@[mi as int]@, rest@[mprev]@, rest@[k]@);
                        } else {
                            lemma_ep_le_reflexive(rest@[mi as int]@);
                        }
                    }
                } else {
                    lemma_ep_le_total(rest@[mi as int]@, rest@[i as int]@);
                    assert(ep_le(rest@[mi as int]@, rest@[i as int]@));
                }
            }
            i += 1;
        }
        let ghost rpre = rest@;
        let x = rest.remove(mi);
        proof {
            assert(paths_view(rpre.remove(mi as int)) =~= paths_view(rpre).remove(mi as int));
            assert(paths_view(rpre)[mi as int] == x@);
            paths_view(rpre).to_multiset_ensures();
            assert(paths_view(rpre).remove(mi as int).to_multiset() =~= paths_view(
                rpre,
            ).to_multiset().remove(x@));
            assert(paths_view(rest@).to_multiset() =~= paths_view(rpre).to_multiset().remove(x@));
            // every remaining element was an element of the pre-removal run
            assert forall|j: int| 0 <= j < rest@.len() implies ep_le(x@, rest@[j]@) by {
                if j < mi as int {
                    assert(rest@[j] == rpre[j]);
                } else {
                    assert(rest@[j] == rpre[j + 1]);
                }
            }
        }
        let ghost opre = out@;
        out.push(x);
        proof {
            assert(paths_view(out@) =~= paths_view(opre).push(x@));
            vstd::seq_lib::to_multiset_build(paths_view(opre), x@);
            assert(sorted_by(paths_view(out@), ep_leq())) by {
                assert(forall|i: int|
                    0 <= i < opre.len() ==> paths_view(out@)[i] == paths_view(opre)[i]);
                assert(paths_view(out@)[opre.len() as int] == x@);
            }
            assert(paths_view(out@).to_multiset().add(paths_view(rest@).to_multiset())
                =~= paths_view(opre).to_multiset().add(paths_view(rpre).to_multiset()));
        }
    }
    proof {
        assert(paths_view(rest@).to_multiset() =~= Multiset::empty());
        assert(paths_view(out@).to_multiset() =~= paths_view(p0).to_multiset());
    }
    out
}

/// The final spec for one package: its name with its own bindings in the
/// serialized order.
pub fn build_package_spec(name: &String, paths: Vec<ExternPath>) -> (r: ProtoPackageSpec)
    ensures
        r@.name == name@,
        sorted_by(r@.extern_paths, ep_leq()),
        r@.extern_paths.to_multiset() == paths_view(paths@).to_multiset(),
{
    ProtoPackageSpec { name: name.clone(), extern_paths: sort_extern_paths(paths) }
}

/// Law: determinism of emission. Two sorted emissions of the same binding
/// multiset under the same package name are the same sequence, so the
/// serialized artifacts are identical character for character.
pub proof fn lemma_emission_deterministic(a: ProtoPackageSpecView, b: ProtoPackageSpecView)
    requires
        a.name == b.name,
        a.extern_paths.to_multiset() == b.extern_paths.to_multiset(),
        sorted_by(a.extern_paths, ep_leq()),
        sorted_by(b.extern_paths, ep_leq()),
    ensures
        json_of_spec(a) == json_of_spec(b),
{
    lemma_ep_le_total_ordering();
    vstd::seq_lib::lemma_sorted_unique(a.extern_paths, b.extern_paths, ep_leq());
    assert(a.extern_paths == b.extern_paths);
}

/// No two entries of the sequence bind the same proto path.
pub open spec fn unique_proto_paths(s: Seq<ExternPathView>) -> bool {
    forall|i: int, j: int| 0 <= i < j < s.len() ==> s[i].proto_path != s[j].proto_path
}

/// No two bindings of the multiset share a proto path: what the compiler
/// guarantees of a package's declarations, since fully-qualified names are
/// unique within one compilation.
pub open spec fn distinct_proto_paths(m: Multiset<ExternPathView>) -> bool {
    &&& forall|e: ExternPathView| #[trigger] m.count(e) <= 1
    &&& forall|a: ExternPathView, b: ExternPathView|
        m.contains(a) && m.contains(b) && a != b ==> a.proto_path != b.proto_path
}

/// Law: uniqueness. A sequence whose bindings come from a multiset with
/// distinct proto paths never holds two entries with the same proto path.
pub proof fn lemma_unique_proto_paths(s: Seq<ExternPathView>)
    requires
        distinct_proto_paths(s.to_multiset()),
    ensures
        unique_proto_paths(s),
{
    broadcast use vstd::multiset::group_multiset_axioms, vstd::seq_lib::group_to_multiset_ensures;

    assert forall|i: int, j: int| 0 <= i < j < s.len() implies s[i].proto_path
        != s[j].proto_path by {
        s.to_multiset_ensures();
        assert(s.contains(s[i]));
        assert(s.contains(s[j]));
        assert(s.to_multiset().count(s[i]) > 0);
        assert(s.to_multiset().count(s[j]) > 0);
        assert(s.to_multiset().contains(s[i]));
        assert(s.to_multiset().contains(s[j]));
        if s[i] == s[j] {
            let s2 = s.remove(i);
            s2.to_multiset_ensures();
            assert(s2[j - 1] == s[j]);
            assert(s2.contains(s[j]));
            assert(s2.to_multiset() =~= s.to_multiset().remove(s[i]));
            assert(s2.to_multiset().count(s[j]) > 0);
            assert(s.to_multiset().count(s[i]) >= 2);
            assert(false);
        }
    }
}

/// The hexadecimal digit for a value below sixteen.
pub open spec fn hex_digit(n: int) -> char {
    if n == 0 {
        '0'
    } else if n == 1 {
        '1'
    } else if n == 2 {
        '2'
    } else if n == 3 {
        '3'
    } else if n == 4 {
        '4'
    } else if n == 5 {
        '5'
    } else if n == 6 {
        '6'
    } else if n == 7 {
        '7'
    } else if n == 8 {
        '8'
    } else if n == 9 {
        '9'
    } else if n == 10 {
        'a'
    } else if n == 11 {
        'b'
    } else if n == 12 {
        'c'
    } else if n == 13 {
        'd'
    } else if n == 14 {
        'e'
    } else {
        'f'
    }
}

/// How one character reads inside a JSON string literal.
pub open spec fn escaped_char(c: char) -> Seq<char> {
    if c == '"' {
        seq!['\\', '"']
    } else if c == '\\' {
        seq!['\\', '\\']
    } else if (c as u32) < 32 {
        seq!['\\', 'u', '0', '0', hex_digit((c as u32) as int / 16), hex_digit((c as u32) as int % 16)]
    } else {
        seq![c]
    }
}

pub open spec fn json_escaped(s: Seq<char>) -> Seq<char>
    decreases s,
{
    if s.len() == 0 {
        s
    } else {
        escaped_char(s[0]) + json_escaped(s.drop_first())
    }
}

proof fn lemma_json_escaped_push(s: Seq<char>, c: char)
    ensures
        json_escaped(s.push(c)) == json_escaped(s) + escaped_char(c),
    decreases s,
{
    if s.len() == 0 {
        assert(s.push(c).drop_first() =~= s);
        assert(json_escaped(s.push(c)) =~= json_escaped(s) + escaped_char(c));
    } else {
        assert(s.push(c).drop_first() =~= s.drop_first().push(c));
        lemma_json_escaped_push(s.drop_first(), c);
        assert(json_escaped(s.push(c)) =~= json_escaped(s) + escaped_char(c));
    }
}

/// A JSON string literal: quoted, with its characters escaped.
pub open spec fn json_string(s: Seq<char>) -> Seq<char> {
    seq!['"'] + json_escaped(s) + seq!['"']
}

fn hex_digit_exec(n: u32) -> (c: char)
    requires
        n < 16,
    ensures
        c == hex_digit(n as int),
{
    if n == 0 {
        '0'
    } else if n == 1 {
        '1'
    } else if n == 2 {
        '2'
    } else if n == 3 {
        '3'
    } else if n == 4 {
        '4'
    } else if n == 5 {
        '5'
    } else if n == 6 {
        '6'
    } else if n == 7 {
        '7'
    } else if n == 8 {
        '8'
    } else if n == 9 {
        '9'
    } else if n == 10 {
        'a'
    } else if n == 11 {
        'b'
    } else if n == 12 {
        'c'
    } else if n == 13 {
        'd'
    } else if n == 14 {
        'e'
    } else {
        'f'
    }
}

fn append_json_string(out: &mut String, s: &str)
    ensures
        final(out)@ == old(out)@ + json_string(s@),
{
    push_char(out, '"');
    let len = s.unicode_len();
    let mut i: usize = 0;
    proof {
        assert(s@.take(0) =~= Seq::<char>::empty());
    }
    while i < len
        invariant
            i <= len,
            len == s@.len(),
            out@ == old(out)@ + seq!['"'] + json_escaped(s@.take(i as int)),
        decreases len - i,
    {
        let ghost pre = s@.take(i as int);
        let c = s.get_char(i);
        if c == '"' {
            push_char(out, '\\');
            push_char(out, '"');
        } else if c == '\\' {
            push_char(out, '\\');
            push_char(out, '\\');
        } else if (c as u32) < 32 {
            push_char(out, '\\');
            push_char(out, 'u');
            push_char(out, '0');
            push_char(out, '0');
            let code = c as u32;
            push_char(out, hex_digit_exec(code / 16));
            push_char(out, hex_digit_exec(code % 16));
        } else {
            push_char(out, c);
        }
        proof {
            lemma_json_escaped_push(pre, c);
            assert(s@.take(i + 1) =~= pre.push(c));
            assert(out@ =~= old(out)@ + seq!['"'] + json_escaped(s@.take(i + 1)));
        }
        i += 1;
    }
    proof {
        assert(s@.take(len as int) =~= s@);
    }
    push_char(out, '"');
    proof {
        assert(out@ =~= old(out)@ + json_string(s@));
    }
}

/// One serialized binding.
pub open spec fn json_of_entry(e: ExternPathView) -> Seq<char> {
    "{\"proto_path\":"@ + json_string(e.proto_path) + ",\"target_path\":"@ + json_string(
        e.target_path,
    ) + "}"@
}

pub open spec fn json_of_entries_rest(s: Seq<ExternPathView>) -> Seq<char>
    decreases s,
{
    if s.len() == 0 {
        Seq::empty()
    } else {
        ","@ + json_of_entry(s[0]) + json_of_entries_rest(s.drop_first())
    }
}

/// The serialized binding list, comma-separated.
pub open spec fn json_of_entries(s: Seq<ExternPathView>) -> Seq<char> {
    if s.len() == 0 {
        Seq::empty()
    } else {
        json_of_entry(s[0]) + json_of_entries_rest(s.drop_first())
    }
}

proof fn lemma_json_of_entries_rest_push(s: Seq<ExternPathView>, e: ExternPathView)
    ensures
        json_of_entries_rest(s.push(e)) == json_of_entries_rest(s) + ","@ + json_of_entry(e),
    decreases s,
{
    if s.len() == 0 {
        assert(s.push(e).drop_first() =~= s);
        assert(json_of_entries_rest(s.push(e)) =~= json_of_entries_rest(s) + ","@
            + json_of_entry(e));
    } else {
        assert(s.push(e).drop_first() =~= s.drop_first().push(e));
        lemma_json_of_entries_rest_push(s.drop_first(), e);
        assert(json_of_entries_rest(s.push(e)) =~= json_of_entries_rest(s) + ","@
            + json_of_entry(e));
    }
}

proof fn lemma_json_of_entries_push(s: Seq<ExternPathView>, e: ExternPathView)
    ensures
        s.len() == 0 ==> json_of_entries(s.push(e)) == json_of_entry(e),
        s.len() > 0 ==> json_of_entries(s.push(e)) == json_of_entries(s) + ","@ + json_of_entry(
            e,
        ),
    decreases s,
{
    if s.len() == 0 {
        assert(s.push(e).drop_first() =~= Seq::<ExternPathView>::empty());
        assert(json_of_entries(s.push(e)) =~= json_of_entry(e));
    } else {
        assert(s.push(e).drop_first() =~= s.drop_first().push(e));
        lemma_json_of_entries_rest_push(s.drop_first(), e);
        assert(json_of_entries(s.push(e)) =~= json_of_entries(s) + ","@ + json_of_entry(e));
    }
}

/// The serialized package spec.
pub open spec fn json_of_spec(p: ProtoPackageSpecView) -> Seq<char> {
    "{\"name\":"@ + json_string(p.name) + ",\"extern_paths\":["@ + json_of_entries(
        p.extern_paths,
    ) + "]}"@
}

fn append_entry(out: &mut String, e: &ExternPath)
    ensures
        final(out)@ == old(out)@ + json_of_entry(e@),
{
    out.append("{\"proto_path\":");
    append_json_string(out, e.proto_path.as_str());
    out.append(",\"target_path\":");
    append_json_string(out, e.target_path.as_str());
    out.append("}");
    proof {
        assert(out@ =~= old(out)@ + json_of_entry(e@));
    }
}

/// Serializes a package spec: the one artifact a dependent package reads.
/// The text is a function of the spec's value alone.
pub fn spec_to_json(p: &ProtoPackageSpec) -> (r: String)
    ensures
        r@ == json_of_spec(p@),
{
    let mut out = String::new();
    out.append("{\"name\":");
    append_json_string(&mut out, p.name.as_str());
    out.append(",\"extern_paths\":[");
    let ghost header = out@;
    let mut i: usize = 0;
    proof {
        assert(paths_view(p.extern_paths@).take(0) =~= Seq::<ExternPathView>::empty());
    }
    while i < p.extern_paths.len()
        invariant
            i <= p.extern_paths@.len(),
            out@ == header + json_of_entries(paths_view(p.extern_paths@).take(i as int)),
            header == "{\"name\":"@ + json_string(p.name@) + ",\"extern_paths\":["@,
        decreases p.extern_paths@.len() - i,
    {
        let ghost pre = paths_view(p.extern_paths@).take(i as int);
        if i > 0 {
            out.append(",");
        }
        append_entry(&mut out, &p.extern_paths[i]);
        proof {
            lemma_json_of_entries_push(pre, paths_view(p.extern_paths@)[i as int]);
            assert(paths_view(p.extern_paths@).take(i + 1) =~= pre.push(
                paths_view(p.extern_paths@)[i as int],
            ));
            assert(out@ =~= header + json_of_entries(paths_view(p.extern_paths@).take(i + 1)));
        }
        i += 1;
    }
    proof {
        assert(paths_view(p.extern_paths@).take(p.extern_paths@.len() as int) =~= paths_view(
            p.extern_paths@,
        ));
    }
    out.append("]}");
    proof {
        assert(out@ =~= json_of_spec(p@));
    }
    out
}

} // verus!
