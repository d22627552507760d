//! Stage-script generation.  A stage body is wrapped into a script with a
//! strict-mode preamble, one assignment line per bound variable in a
//! deterministic sorted order, the verbatim body, and a trailing success
//! exit.

use vstd::prelude::*;
use vstd::relations::{antisymmetric, reflexive, sorted_by, strongly_connected, total_ordering,
    transitive};
use vstd::seq_lib::lemma_sorted_unique;
use crate::strutil;
use crate::strutil::{lex_le, lemma_lex_le_antisym, lemma_lex_le_connected, lemma_lex_le_refl,
    lemma_lex_le_trans};

verus! {

/// One variable binding handed to a stage script.
pub struct VarBinding {
    pub name: String,
    pub value: String,
}

/// The view of one binding: its name and value character sequences.
pub open spec fn binding_view(b: VarBinding) -> (Seq<char>, Seq<char>) {
    (b.name@, b.value@)
}

/// The views of a sequence of bindings.
pub open spec fn binding_views(s: Seq<VarBinding>) -> Seq<(Seq<char>, Seq<char>)> {
    s.map_values(|b: VarBinding| binding_view(b))
}

/// Order on bindings: by name, and among equal names by value.
pub open spec fn pair_le(a: (Seq<char>, Seq<char>), b: (Seq<char>, Seq<char>)) -> bool {
    if a.0 == b.0 {
        lex_le(a.1, b.1)
    } else {
        lex_le(a.0, b.0)
    }
}

/// `pair_le` as a binary relation value.
pub open spec fn pair_le_fn() -> spec_fn((Seq<char>, Seq<char>), (Seq<char>, Seq<char>)) -> bool {
    |a: (Seq<char>, Seq<char>), b: (Seq<char>, Seq<char>)| pair_le(a, b)
}

pub proof fn lemma_pair_le_connected(a: (Seq<char>, Seq<char>), b: (Seq<char>, Seq<char>))
    ensures
        pair_le(a, b) || pair_le(b, a),
{
    if a.0 == b.0 {
        lemma_lex_le_connected(a.1, b.1);
    } else {
        lemma_lex_le_connected(a.0, b.0);
    }
}

pub proof fn lemma_pair_le_trans(
    a: (Seq<char>, Seq<char>),
    b: (Seq<char>, Seq<char>),
    c: (Seq<char>, Seq<char>),
)
    requires
        pair_le(a, b),
        pair_le(b, c),
    ensures
        pair_le(a, c),
{
    if a.0 == b.0 && b.0 == c.0 {
        lemma_lex_le_trans(a.1, b.1, c.1);
    } else if a.0 != b.0 && b.0 != c.0 {
        lemma_lex_le_trans(a.0, b.0, c.0);
        if a.0 == c.0 {
            lemma_lex_le_antisym(a.0, b.0);
        }
    }
}

pub proof fn lemma_pair_le_total_ordering()
    ensures
        total_ordering(pair_le_fn()),
{
    let r = pair_le_fn();
    assert forall|a: (Seq<char>, Seq<char>)| #[trigger] r(a, a) by {
        lemma_lex_le_refl(a.1);
    }
    assert(reflexive(r));
    assert forall|a: (Seq<char>, Seq<char>), b: (Seq<char>, Seq<char>)|
        #[trigger] r(a, b) && #[trigger] r(b, a) implies a == b by {
        if a.0 == b.0 {
            lemma_lex_le_antisym(a.1, b.1);
        } else {
            lemma_lex_le_antisym(a.0, b.0);
        }
    }
    assert(antisymmetric(r));
    assert forall|a: (Seq<char>, Seq<char>), b: (Seq<char>, Seq<char>), c: (Seq<char>, Seq<char>)|
        #[trigger] r(a, b) && #[trigger] r(b, c) implies r(a, c) by {
        if a.0 == b.0 && b.0 == c.0 {
            lemma_lex_le_trans(a.1, b.1, c.1);
        } else if a.0 != b.0 && b.0 != c.0 {
            lemma_lex_le_trans(a.0, b.0, c.0);
            if a.0 == c.0 {
                lemma_lex_le_antisym(a.0, b.0);
            }
        }
    }
    assert(transitive(r));
    assert forall|a: (Seq<char>, Seq<char>), b: (Seq<char>, Seq<char>)|
        #[trigger] r(a, b) || #[trigger] r(b, a) by {
        if a.0 == b.0 {
            lemma_lex_le_connected(a.1, b.1);
        } else {
            lemma_lex_le_connected(a.0, b.0);
        }
    }
    assert(strongly_connected(r));
}

/// The assignment line emitted for one binding: `name='value'` and a
/// newline.
pub open spec fn binding_line(p: (Seq<char>, Seq<char>)) -> Seq<char> {
    p.0 + seq!['=', '\''] + p.1 + seq!['\'', '\n']
}

/// The concatenation of a sequence of character sequences, in order.
pub open spec fn concat_all(parts: Seq<Seq<char>>) -> Seq<char>
    decreases parts.len(),
{
    if parts.len() == 0 {
        Seq::empty()
    } else {
        parts[0] + concat_all(parts.drop_first())
    }
}

proof fn lemma_concat_all_push(parts: Seq<Seq<char>>, x: Seq<char>)
    ensures
        concat_all(parts.push(x)) == concat_all(parts) + x,
    decreases parts.len(),
{
    if parts.len() == 0 {
        assert(parts.push(x)[0] == x);
        assert(parts.push(x).drop_first() =~= Seq::<Seq<char>>::empty());
        assert(concat_all(Seq::<Seq<char>>::empty()) == Seq::<char>::empty());
        assert(concat_all(parts.push(x)) == x + Seq::<char>::empty());
        assert(x + Seq::<char>::empty() =~= Seq::<char>::empty() + x);
        assert(concat_all(parts) == Seq::<char>::empty());
        assert(concat_all(parts.push(x)) =~= concat_all(parts) + x);
    } else {
        assert(parts.push(x).drop_first() =~= parts.drop_first().push(x));
        lemma_concat_all_push(parts.drop_first(), x);
        assert(parts.push(x)[0] == parts[0]);
        assert(concat_all(parts.push(x)) == parts[0] + (concat_all(parts.drop_first()) + x));
        assert(parts[0] + (concat_all(parts.drop_first()) + x) =~= (parts[0] + concat_all(
            parts.drop_first())) + x);
    }
}

/// The strict-mode preamble: `set -ex` and a blank line.
pub open spec fn preamble() -> Seq<char> {
    seq!['s', 'e', 't', ' ', '-', 'e', 'x', '\n', '\n']
}

/// The trailing success exit: `exit 0` on its own line.
pub open spec fn exit_line() -> Seq<char> {
    seq!['\n', 'e', 'x', 'i', 't', ' ', '0', '\n']
}

/// The full wrapper script for a stage body and a set of bindings: the
/// preamble, the assignment lines in sorted order, a blank line, the
/// verbatim body, and the success exit.
pub open spec fn script_text(body: Seq<char>, vars: Seq<(Seq<char>, Seq<char>)>) -> Seq<char> {
    preamble() + concat_all(vars.sort_by(pair_le_fn()).map_values(
        |p: (Seq<char>, Seq<char>)| binding_line(p))) + seq!['\n'] + body + exit_line()
}

/// The generated script depends only on which bindings are present, never
/// on the order in which they were supplied.
pub proof fn lemma_script_deterministic(
    body: Seq<char>,
    vars1: Seq<(Seq<char>, Seq<char>)>,
    vars2: Seq<(Seq<char>, Seq<char>)>,
)
    requires
        vars1.to_multiset() == vars2.to_multiset(),
    ensures
        script_text(body, vars1) == script_text(body, vars2),
{
    lemma_pair_le_total_ordering();
    vars1.lemma_sort_by_ensures(pair_le_fn());
    vars2.lemma_sort_by_ensures(pair_le_fn());
    lemma_sorted_unique(vars1.sort_by(pair_le_fn()), vars2.sort_by(pair_le_fn()), pair_le_fn());
}

fn clone_binding(b: &VarBinding) -> (r: VarBinding)
    ensures
        binding_view(r) == binding_view(*b),
{
    VarBinding { name: b.name.clone(), value: b.value.clone() }
}

fn binding_le(a: &VarBinding, b: &VarBinding) -> (r: bool)
    ensures
        r == pair_le(binding_view(*a), binding_view(*b)),
{
    if strutil::str_eq(a.name.as_str(), b.name.as_str()) {
        strutil::str_le(a.value.as_str(), b.value.as_str())
    } else {
        strutil::str_le(a.name.as_str(), b.name.as_str())
    }
}

fn insert_pos(out: &Vec<VarBinding>, elem: &VarBinding) -> (r: usize)
    requires
        sorted_by(binding_views(out@), pair_le_fn()),
    ensures
        r <= out@.len(),
        forall|k: int| 0 <= k < r ==> pair_le(#[trigger] binding_views(out@)[k], binding_view(
            *elem)),
        r < out@.len() ==> pair_le(binding_view(*elem), binding_views(out@)[r as int]),
{
    let mut j: usize = 0;
    while j < out.len()
        invariant
            j <= out@.len(),
            forall|k: int| 0 <= k < j ==> pair_le(#[trigger] binding_views(out@)[k], binding_view(
                *elem)),
        decreases out@.len() - j,
    {
        assert(binding_views(out@)[j as int] == binding_view(out@[j as int]));
        if !binding_le(&out[j], elem) {
            proof {
                lemma_pair_le_connected(binding_view(out@[j as int]), binding_view(*elem));
            }
            return j;
        }
        j = j + 1;
    }
    j
}

/// Sorts bindings by name, and among equal names by value.
fn sort_bindings(v: &Vec<VarBinding>) -> (r: Vec<VarBinding>)
    ensures
        binding_views(r@) == binding_views(v@).sort_by(pair_le_fn()),
{
    let mut out: Vec<VarBinding> = Vec::new();
    let mut idx: usize = 0;
    proof {
        assert(binding_views(out@) =~= Seq::<(Seq<char>, Seq<char>)>::empty());
        assert(binding_views(out@) =~= binding_views(v@.take(0)));
    }
    while idx < v.len()
        invariant
            idx <= v.len(),
            sorted_by(binding_views(out@), pair_le_fn()),
            binding_views(out@).to_multiset() == binding_views(v@.take(idx as int)).to_multiset(),
        decreases v.len() - idx,
    {
        let elem = clone_binding(&v[idx]);
        assert(binding_view(elem) == binding_views(v@)[idx as int]);
        let ghost old_out = out@;
        let j = insert_pos(&out, &elem);
        out.insert(j, elem);
        proof {
            broadcast use vstd::seq_lib::group_to_multiset_ensures;

            let vs = binding_views(out@);
            let old_vs = binding_views(old_out);
            assert(out@ == old_out.insert(j as int, elem));
            assert(vs =~= old_vs.insert(j as int, binding_view(elem)));
            assert forall|p: int, q: int| 0 <= p < q < vs.len()
                implies #[trigger] pair_le_fn()(vs[p], vs[q]) by {
                if q < j {
                    assert(vs[p] == old_vs[p] && vs[q] == old_vs[q]);
                    assert(pair_le_fn()(old_vs[p], old_vs[q]));
                } else if p > j {
                    assert(vs[p] == old_vs[p - 1] && vs[q] == old_vs[q - 1]);
                    assert(pair_le_fn()(old_vs[p - 1], old_vs[q - 1]));
                } else if p < j && q == j {
                    assert(vs[p] == old_vs[p] && vs[q] == binding_view(elem));
                    assert(pair_le(old_vs[p], binding_view(elem)));
                } else if p == j {
                    assert(vs[p] == binding_view(elem) && vs[q] == old_vs[q - 1]);
                    assert(pair_le(binding_view(elem), old_vs[j as int]));
                    if q - 1 > j {
                        assert(pair_le_fn()(old_vs[j as int], old_vs[q - 1]));
                        lemma_pair_le_trans(binding_view(elem), old_vs[j as int], old_vs[q - 1]);
                    }
                } else {
                    assert(vs[p] == old_vs[p] && vs[q] == old_vs[q - 1]);
                    assert(pair_le_fn()(old_vs[p], old_vs[q - 1]));
                }
            }
            assert(old_vs.insert(j as int, binding_view(elem)).to_multiset()
                == old_vs.to_multiset().insert(binding_view(elem)));
            assert(v@.take(idx + 1) =~= v@.take(idx as int).push(v@[idx as int]));
            assert(binding_views(v@.take(idx + 1)) =~= binding_views(v@.take(idx as int)).push(
                binding_view(v@[idx as int])));
            assert(binding_views(v@.take(idx as int)).push(binding_view(
                v@[idx as int])).to_multiset() == binding_views(v@.take(
                idx as int)).to_multiset().insert(binding_view(v@[idx as int])));
        }
        idx = idx + 1;
    }
    proof {
        assert(v@.take(v@.len() as int) =~= v@);
        lemma_pair_le_total_ordering();
        binding_views(v@).lemma_sort_by_ensures(pair_le_fn());
        lemma_sorted_unique(binding_views(out@), binding_views(v@).sort_by(pair_le_fn()),
            pair_le_fn());
    }
    out
}

/// Appends the characters of `s` to `out`.
fn push_str_chars(out: &mut Vec<char>, s: &str)
    ensures
        final(out)@ == old(out)@ + s@,
{
    let cs = strutil::str_chars(s);
    strutil::push_all(out, &cs);
}

/// Builds the wrapper script for one stage: the strict-mode preamble, one
/// assignment line per binding in sorted order, a blank line, the verbatim
/// stage body, and an explicit success exit.
pub fn create_script(body: &str, variables: &Vec<VarBinding>) -> (r: String)
    ensures
        r@ == script_text(body@, binding_views(variables@)),
{
    let sorted = sort_bindings(variables);
    let ghost lines = binding_views(sorted@).map_values(|p: (Seq<char>, Seq<char>)|
        binding_line(p));
    let mut out: Vec<char> = Vec::new();
    push_str_chars(&mut out, "set -ex\n\n");
    proof {
        reveal_strlit("set -ex\n\n");
        assert(("set -ex\n\n")@ =~= preamble());
        assert(lines.take(0) =~= Seq::<Seq<char>>::empty());
        assert(out@ =~= preamble() + concat_all(lines.take(0)));
    }
    let mut i: usize = 0;
    while i < sorted.len()
        invariant
            i <= sorted@.len(),
            lines == binding_views(sorted@).map_values(|p: (Seq<char>, Seq<char>)|
                binding_line(p)),
            out@ == preamble() + concat_all(lines.take(i as int)),
        decreases sorted@.len() - i,
    {
        let ghost out0 = out@;
        push_str_chars(&mut out, sorted[i].name.as_str());
        out.push('=');
        out.push('\'');
        push_str_chars(&mut out, sorted[i].value.as_str());
        out.push('\'');
        out.push('\n');
        proof {
            let p = binding_views(sorted@)[i as int];
            assert(p == binding_view(sorted@[i as int]));
            assert(out@ =~= out0 + binding_line(p));
            assert(lines[i as int] == binding_line(p));
            assert(lines.take(i + 1) =~= lines.take(i as int).push(lines[i as int]));
            lemma_concat_all_push(lines.take(i as int), lines[i as int]);
            assert(out@ =~= preamble() + concat_all(lines.take(i + 1)));
        }
        i = i + 1;
    }
    out.push('\n');
    push_str_chars(&mut out, body);
    push_str_chars(&mut out, "\nexit 0\n");
    proof {
        reveal_strlit("\nexit 0\n");
        assert(("\nexit 0\n")@ =~= exit_line());
        assert(lines.take(sorted@.len() as int) =~= lines);
        assert(out@ =~= preamble() + concat_all(lines) + seq!['\n'] + body@ + exit_line());
        assert(binding_views(sorted@) == binding_views(variables@).sort_by(pair_le_fn()));
    }
    strutil::chars_to_string(&out)
}

} // verus!
