//! Character-sequence utilities: lexicographic ordering, sorting of string
//! vectors, single-pass token replacement, decimal rendering of integers,
//! and final-path-segment extraction.

use vstd::prelude::*;
use vstd::relations::{antisymmetric, reflexive, sorted_by, strongly_connected, total_ordering,
    transitive};
use vstd::seq_lib::lemma_sorted_unique;

verus! {

/// Lexicographic "less than or equal" on character sequences, ordered by
/// Unicode scalar value.
pub open spec fn lex_le(a: Seq<char>, b: Seq<char>) -> bool
    decreases a.len(),
{
    if a.len() == 0 {
        true
    } else if b.len() == 0 {
        false
    } else if a[0] != b[0] {
        a[0] < b[0]
    } else {
        lex_le(a.drop_first(), b.drop_first())
    }
}

/// `lex_le` as a binary relation value, for use with `vstd::relations`.
pub open spec fn lex_le_fn() -> spec_fn(Seq<char>, Seq<char>) -> bool {
    |a: Seq<char>, b: Seq<char>| lex_le(a, b)
}

pub proof fn lemma_lex_le_refl(a: Seq<char>)
    ensures
        lex_le(a, a),
    decreases a.len(),
{
    if a.len() > 0 {
        lemma_lex_le_refl(a.drop_first());
    }
}

pub proof fn lemma_lex_le_connected(a: Seq<char>, b: Seq<char>)
    ensures
        lex_le(a, b) || lex_le(b, a),
    decreases a.len(),
{
    if a.len() == 0 {
        assert(lex_le(a, b));
    } else if b.len() == 0 {
        assert(lex_le(b, a));
    } else if a[0] != b[0] {
        assert(a[0] < b[0] || b[0] < a[0]);
    } else {
        lemma_lex_le_connected(a.drop_first(), b.drop_first());
    }
}

pub proof fn lemma_lex_le_antisym(a: Seq<char>, b: Seq<char>)
    requires
        lex_le(a, b),
        lex_le(b, a),
    ensures
        a == b,
    decreases a.len(),
{
    if a.len() == 0 {
        assert(b.len() == 0);
        assert(a =~= b);
    } else {
        assert(b.len() > 0);
        assert(a[0] == b[0]);
        lemma_lex_le_antisym(a.drop_first(), b.drop_first());
        assert(a.drop_first() == b.drop_first());
        assert(a.drop_first().len() == a.len() - 1);
        assert(b.drop_first().len() == b.len() - 1);
        assert(a.len() == b.len());
        assert(forall|i: int| 1 <= i < a.len() ==> a[i] == a.drop_first()[i - 1]
            && b[i] == b.drop_first()[i - 1]);
        assert(a =~= b);
    }
}

pub proof fn lemma_lex_le_trans(a: Seq<char>, b: Seq<char>, c: Seq<char>)
    requires
        lex_le(a, b),
        lex_le(b, c),
    ensures
        lex_le(a, c),
    decreases a.len(),
{
    if a.len() > 0 && b.len() > 0 && c.len() > 0 {
        if a[0] == b[0] && b[0] == c[0] {
            lemma_lex_le_trans(a.drop_first(), b.drop_first(), c.drop_first());
        }
    }
}

pub proof fn lemma_lex_le_total_ordering()
    ensures
        total_ordering(lex_le_fn()),
{
    let r = lex_le_fn();
    assert forall|a: Seq<char>| #[trigger] r(a, a) by {
        lemma_lex_le_refl(a);
    }
    assert(reflexive(r));
    assert forall|a: Seq<char>, b: Seq<char>| #[trigger] r(a, b) && #[trigger] r(b, a)
        implies a == b by {
        lemma_lex_le_antisym(a, b);
    }
    assert(antisymmetric(r));
    assert forall|a: Seq<char>, b: Seq<char>, c: Seq<char>|
        #[trigger] r(a, b) && #[trigger] r(b, c) implies r(a, c) by {
        lemma_lex_le_trans(a, b, c);
    }
    assert(transitive(r));
    assert forall|a: Seq<char>, b: Seq<char>| #[trigger] r(a, b) || #[trigger] r(b, a) by {
        lemma_lex_le_connected(a, b);
    }
    assert(strongly_connected(r));
}

/// The views of a sequence of strings.
pub open spec fn views_of(s: Seq<String>) -> Seq<Seq<char>> {
    s.map_values(|x: String| x@)
}

/// Compares two strings in the order given by `lex_le`.
pub fn str_le(a: &str, b: &str) -> (r: bool)
    ensures
        r == lex_le(a@, b@),
{
    let alen = a.unicode_len();
    let blen = b.unicode_len();
    let mut i: usize = 0;
    assert(a@.skip(0) =~= a@);
    assert(b@.skip(0) =~= b@);
    loop
        invariant
            i <= alen,
            i <= blen,
            alen == a@.len(),
            blen == b@.len(),
            forall|k: int| 0 <= k < i ==> a@[k] == b@[k],
            lex_le(a@, b@) == lex_le(a@.skip(i as int), b@.skip(i as int)),
        decreases alen - i,
    {
        if i >= alen {
            assert(a@.skip(i as int).len() == 0);
            return true;
        }
        if i >= blen {
            assert(b@.skip(i as int).len() == 0);
            assert(a@.skip(i as int).len() > 0);
            return false;
        }
        let ca = a.get_char(i);
        let cb = b.get_char(i);
        assert(a@.skip(i as int)[0] == a@[i as int]);
        assert(b@.skip(i as int)[0] == b@[i as int]);
        if ca != cb {
            return ca < cb;
        }
        assert(a@.skip(i as int).drop_first() =~= a@.skip(i + 1));
        assert(b@.skip(i as int).drop_first() =~= b@.skip(i + 1));
        i = i + 1;
    }
}

/// Finds the position in a sorted vector at which a string can be inserted
/// while keeping the vector sorted.
fn insert_pos(out: &Vec<String>, elem: &String) -> (r: usize)
    requires
        sorted_by(views_of(out@), lex_le_fn()),
    ensures
        r <= out@.len(),
        forall|k: int| 0 <= k < r ==> lex_le(#[trigger] views_of(out@)[k], elem@),
        r < out@.len() ==> lex_le(elem@, views_of(out@)[r as int]),
{
    let mut j: usize = 0;
    while j < out.len()
        invariant
            j <= out@.len(),
            forall|k: int| 0 <= k < j ==> lex_le(#[trigger] views_of(out@)[k], elem@),
        decreases out@.len() - j,
    {
        assert(views_of(out@)[j as int] == out@[j as int]@);
        if !str_le(&out[j], elem.as_str()) {
            proof {
                lemma_lex_le_connected(out@[j as int]@, elem@);
            }
            return j;
        }
        j = j + 1;
    }
    j
}

/// Sorts a vector of strings into the order given by `lex_le`.
pub fn sort_strings(v: Vec<String>) -> (r: Vec<String>)
    ensures
        sorted_by(views_of(r@), lex_le_fn()),
        views_of(r@).to_multiset() == views_of(v@).to_multiset(),
        r@.to_multiset() == v@.to_multiset(),
        views_of(r@) == views_of(v@).sort_by(lex_le_fn()),
{
    let mut out: Vec<String> = Vec::new();
    let mut idx: usize = 0;
    proof {
        assert(views_of(out@) =~= Seq::<Seq<char>>::empty());
        assert(views_of(v@.take(0)) =~= Seq::<Seq<char>>::empty());
        assert(out@ =~= v@.take(0));
    }
    while idx < v.len()
        invariant
            idx <= v.len(),
            sorted_by(views_of(out@), lex_le_fn()),
            views_of(out@).to_multiset() == views_of(v@.take(idx as int)).to_multiset(),
            out@.to_multiset() == v@.take(idx as int).to_multiset(),
        decreases v.len() - idx,
    {
        let elem = v[idx].clone();
        assert(elem@ == v@[idx as int]@);
        let ghost old_out = out@;
        let j = insert_pos(&out, &elem);
        out.insert(j, elem);
        proof {
            broadcast use vstd::seq_lib::group_to_multiset_ensures;

            let vs = views_of(out@);
            let old_vs = views_of(old_out);
            assert(out@ == old_out.insert(j as int, elem));
            assert(vs =~= old_vs.insert(j as int, elem@));
            // sortedness of the inserted sequence
            assert forall|p: int, q: int| 0 <= p < q < vs.len()
                implies #[trigger] lex_le_fn()(vs[p], vs[q]) by {
                if q < j {
                    assert(vs[p] == old_vs[p] && vs[q] == old_vs[q]);
                    assert(lex_le_fn()(old_vs[p], old_vs[q]));
                } else if p > j {
                    assert(vs[p] == old_vs[p - 1] && vs[q] == old_vs[q - 1]);
                    assert(lex_le_fn()(old_vs[p - 1], old_vs[q - 1]));
                } else if p < j && q == j {
                    assert(vs[p] == old_vs[p] && vs[q] == elem@);
                    assert(lex_le(old_vs[p], elem@));
                } else if p == j {
                    assert(vs[p] == elem@ && vs[q] == old_vs[q - 1]);
                    assert(lex_le(elem@, old_vs[j as int]));
                    if q - 1 > j {
                        assert(lex_le_fn()(old_vs[j as int], old_vs[q - 1]));
                        lemma_lex_le_trans(elem@, old_vs[j as int], old_vs[q - 1]);
                    }
                } else {
                    // p < j < q
                    assert(vs[p] == old_vs[p] && vs[q] == old_vs[q - 1]);
                    assert(lex_le_fn()(old_vs[p], old_vs[q - 1]));
                }
            }
            // multiset preservation, at both levels
            assert(old_out.insert(j as int, elem).to_multiset() == old_out.to_multiset().insert(
                elem));
            assert(old_vs.insert(j as int, elem@).to_multiset() == old_vs.to_multiset().insert(
                elem@));
            assert(v@.take(idx + 1) =~= v@.take(idx as int).push(v@[idx as int]));
            assert(v@.take(idx as int).push(v@[idx as int]).to_multiset() == v@.take(
                idx as int).to_multiset().insert(v@[idx as int]));
            assert(views_of(v@.take(idx + 1)) =~= views_of(v@.take(idx as int)).push(
                v@[idx as int]@));
            assert(views_of(v@.take(idx as int)).push(v@[idx as int]@).to_multiset() == views_of(
                v@.take(idx as int)).to_multiset().insert(v@[idx as int]@));
        }
        idx = idx + 1;
    }
    proof {
        assert(v@.take(v@.len() as int) =~= v@);
        let vs = views_of(v@);
        lemma_lex_le_total_ordering();
        vs.lemma_sort_by_ensures(lex_le_fn());
        lemma_sorted_unique(views_of(out@), vs.sort_by(lex_le_fn()), lex_le_fn());
    }
    out
}

/// Compares two strings for equality of their character sequences.
pub fn str_eq(a: &str, b: &str) -> (r: bool)
    ensures
        r == (a@ == b@),
{
    let r = str_le(a, b) && str_le(b, a);
    proof {
        if r {
            lemma_lex_le_antisym(a@, b@);
        } else {
            lemma_lex_le_refl(a@);
        }
    }
    r
}

/// True iff some element of `v` has the character sequence `s@`.
pub fn contains_str(v: &Vec<String>, s: &str) -> (r: bool)
    ensures
        r == views_of(v@).contains(s@),
{
    let mut i: usize = 0;
    while i < v.len()
        invariant
            i <= v@.len(),
            forall|k: int| 0 <= k < i ==> views_of(v@)[k] != s@,
        decreases v@.len() - i,
    {
        assert(views_of(v@)[i as int] == v@[i as int]@);
        if str_eq(v[i].as_str(), s) {
            assert(views_of(v@)[i as int] == s@);
            return true;
        }
        i = i + 1;
    }
    assert(forall|k: int| 0 <= k < views_of(v@).len() ==> views_of(v@)[k] != s@);
    false
}

/// A single left-to-right pass replacing every non-overlapping occurrence of
/// `pat` with `rep`; the replacement text is never rescanned.
pub open spec fn spec_replace(s: Seq<char>, pat: Seq<char>, rep: Seq<char>) -> Seq<char>
    decreases s.len(),
{
    if pat.len() == 0 || s.len() < pat.len() {
        s
    } else if s.take(pat.len() as int) == pat {
        rep + spec_replace(s.skip(pat.len() as int), pat, rep)
    } else {
        seq![s[0]] + spec_replace(s.drop_first(), pat, rep)
    }
}

/// True iff `pat` occurs in `s` starting at index `i`.
fn matches_at(s: &Vec<char>, pat: &Vec<char>, i: usize) -> (r: bool)
    requires
        i + pat@.len() <= s@.len(),
    ensures
        r == (s@.subrange(i as int, i + pat@.len()) == pat@),
{
    let slen = s.len();
    let mut k: usize = 0;
    while k < pat.len()
        invariant
            k <= pat@.len(),
            i + pat@.len() <= s@.len(),
            s@.len() == slen,
            forall|m: int| 0 <= m < k ==> s@[i + m] == pat@[m],
        decreases pat@.len() - k,
    {
        if s[i + k] != pat[k] {
            assert(s@.subrange(i as int, i + pat@.len())[k as int] == s@[i + k]);
            return false;
        }
        k = k + 1;
    }
    assert(s@.subrange(i as int, i + pat@.len()) =~= pat@);
    true
}

/// Appends the characters of `src` to `out`.
pub fn push_all(out: &mut Vec<char>, src: &Vec<char>)
    ensures
        final(out)@ == old(out)@ + src@,
{
    let mut k: usize = 0;
    while k < src.len()
        invariant
            k <= src@.len(),
            out@ == old(out)@ + src@.take(k as int),
        decreases src@.len() - k,
    {
        out.push(src[k]);
        assert(old(out)@ + src@.take(k as int) + seq![src@[k as int]] =~= old(out)@ + src@.take(
            k + 1));
        k = k + 1;
    }
    assert(src@.take(src@.len() as int) =~= src@);
}

/// Replaces every occurrence of `pat` in `s` by `rep`, scanning left to
/// right without rescanning replaced text.
pub fn replace_chars(s: &Vec<char>, pat: &Vec<char>, rep: &Vec<char>) -> (r: Vec<char>)
    requires
        pat@.len() > 0,
    ensures
        r@ == spec_replace(s@, pat@, rep@),
{
    let mut out: Vec<char> = Vec::new();
    let mut i: usize = 0;
    assert(s@.skip(0) =~= s@);
    assert(out@ + spec_replace(s@, pat@, rep@) =~= spec_replace(s@, pat@, rep@));
    while i < s.len()
        invariant
            i <= s@.len(),
            pat@.len() > 0,
            spec_replace(s@, pat@, rep@) == out@ + spec_replace(s@.skip(i as int), pat@, rep@),
        decreases s@.len() - i,
    {
        let ghost rest = s@.skip(i as int);
        if pat.len() <= s.len() - i && matches_at(s, pat, i) {
            proof {
                assert(rest.take(pat@.len() as int) =~= s@.subrange(i as int, i + pat@.len()));
                assert(rest.skip(pat@.len() as int) =~= s@.skip(i + pat@.len()));
                assert(spec_replace(rest, pat@, rep@) == rep@ + spec_replace(
                    s@.skip(i + pat@.len()), pat@, rep@));
            }
            let ghost out0 = out@;
            push_all(&mut out, rep);
            proof {
                assert(out0 + (rep@ + spec_replace(s@.skip(i + pat@.len()), pat@, rep@)) =~= (out0
                    + rep@) + spec_replace(s@.skip(i + pat@.len()), pat@, rep@));
            }
            i = i + pat.len();
        } else {
            proof {
                assert(rest.len() > 0);
                if i + pat@.len() <= s@.len() {
                    assert(rest.take(pat@.len() as int) =~= s@.subrange(i as int, i
                        + pat@.len()));
                } else {
                    assert(rest.len() < pat@.len());
                }
                assert(rest.drop_first() =~= s@.skip(i + 1));
                assert(rest[0] == s@[i as int]);
                assert(spec_replace(rest, pat@, rep@) == seq![s@[i as int]] + spec_replace(
                    s@.skip(i + 1), pat@, rep@));
            }
            let ghost out0 = out@;
            out.push(s[i]);
            proof {
                assert(out0 + (seq![s@[i as int]] + spec_replace(s@.skip(i + 1), pat@, rep@))
                    =~= (out0 + seq![s@[i as int]]) + spec_replace(s@.skip(i + 1), pat@, rep@));
                assert(out@ =~= out0 + seq![s@[i as int]]);
            }
            i = i + 1;
        }
    }
    proof {
        assert(s@.skip(s@.len() as int) =~= Seq::<char>::empty());
        assert(out@ + Seq::<char>::empty() =~= out@);
    }
    out
}

/// Replaces every occurrence of `pat` in `s` by `rep`.
pub fn replace_str(s: &str, pat: &str, rep: &str) -> (r: String)
    requires
        pat@.len() > 0,
    ensures
        r@ == spec_replace(s@, pat@, rep@),
{
    let sc = str_chars(s);
    let pc = str_chars(pat);
    let rc = str_chars(rep);
    let out = replace_chars(&sc, &pc, &rc);
    chars_to_string(&out)
}

/// The decimal rendering of a natural number, most significant digit first.
pub open spec fn spec_udec(n: nat) -> Seq<char>
    decreases n,
{
    if n < 10 {
        seq![((48 + n) as char)]
    } else {
        spec_udec(n / 10) + seq![((48 + n % 10) as char)]
    }
}

/// Appends the decimal rendering of `n` to `out`.
pub fn push_udec(out: &mut Vec<char>, n: u32)
    ensures
        final(out)@ == old(out)@ + spec_udec(n as nat),
    decreases n,
{
    if n >= 10 {
        push_udec(out, n / 10);
    }
    let d: u8 = (n % 10) as u8 + 48;
    let c = d as char;
    assert(c == ((48 + (n as nat) % 10) as char));
    out.push(c);
    proof {
        if n < 10 {
            assert((n as nat) % 10 == n as nat);
            assert(final(out)@ =~= old(out)@ + spec_udec(n as nat));
        } else {
            assert(final(out)@ =~= old(out)@ + (spec_udec((n as nat) / 10) + seq![(
                (48 + (n as nat) % 10) as char)]));
        }
    }
}

/// The characters after the last `'/'` of `p`; empty when `p` is empty or
/// ends in `'/'`.
pub open spec fn after_last_slash(p: Seq<char>) -> Seq<char>
    decreases p.len(),
{
    if p.len() == 0 {
        Seq::empty()
    } else if p.last() == '/' {
        Seq::empty()
    } else {
        after_last_slash(p.drop_last()) + seq![p.last()]
    }
}

/// The final path segment of `p`: the text after the last `'/'`, or `None`
/// when that text is empty.
pub open spec fn final_segment(p: Seq<char>) -> Option<Seq<char>> {
    if after_last_slash(p).len() == 0 {
        None
    } else {
        Some(after_last_slash(p))
    }
}

proof fn lemma_after_last_slash(p: Seq<char>, cut: int)
    requires
        0 <= cut <= p.len(),
        forall|k: int| cut <= k < p.len() ==> p[k] != '/',
        cut > 0 ==> p[cut - 1] == '/',
    ensures
        after_last_slash(p) == p.skip(cut),
    decreases p.len(),
{
    if cut == p.len() {
        if p.len() == 0 || p.last() == '/' {
            assert(after_last_slash(p) =~= p.skip(cut));
        } else {
            assert(cut > 0 && p[cut - 1] == '/');
            assert(p.last() == p[cut - 1]);
            assert(false);
        }
    } else {
        assert(p.last() != '/');
        lemma_after_last_slash(p.drop_last(), cut);
        assert(after_last_slash(p) == p.drop_last().skip(cut) + seq![p.last()]);
        assert(p.drop_last().skip(cut) + seq![p.last()] =~= p.skip(cut));
    }
}

/// Extracts the final path segment of `p`, if it is nonempty.
pub fn final_segment_of(p: &str) -> (r: Option<String>)
    ensures
        r matches Some(seg) ==> final_segment(p@) == Some(seg@),
        r is None ==> final_segment(p@) is None,
{
    let chars = str_chars(p);
    let n = chars.len();
    let mut cut: usize = n;
    loop
        invariant
            cut <= n,
            n == p@.len(),
            chars@ == p@,
            forall|k: int| cut <= k < n ==> p@[k] != '/',
        ensures
            cut <= n,
            forall|k: int| cut <= k < n ==> p@[k] != '/',
            cut > 0 ==> p@[cut - 1] == '/',
        decreases cut,
    {
        if cut == 0 {
            break;
        }
        if chars[cut - 1] == '/' {
            break;
        }
        cut = cut - 1;
    }
    proof {
        lemma_after_last_slash(p@, cut as int);
    }
    if cut == n {
        assert(after_last_slash(p@) =~= p@.skip(cut as int));
        assert(after_last_slash(p@).len() == 0);
        None
    } else {
        let mut seg: Vec<char> = Vec::new();
        let mut k: usize = cut;
        while k < n
            invariant
                cut <= k <= n,
                n == chars@.len(),
                seg@ == chars@.subrange(cut as int, k as int),
            decreases n - k,
        {
            seg.push(chars[k]);
            assert(seg@ =~= chars@.subrange(cut as int, k + 1));
            k = k + 1;
        }
        assert(seg@ =~= p@.skip(cut as int));
        assert(seg@.len() > 0);
        Some(chars_to_string(&seg))
    }
}

/// Relies on `String`'s `FromIterator` implementation: collecting the
/// characters of a vector yields the string of those characters in order.
#[verifier::external_body]
pub fn chars_to_string(v: &Vec<char>) -> (r: String)
    ensures
        r@ == v@,
{
    v.iter().collect()
}

/// Copies the characters of a string slice into a vector.
pub fn str_chars(s: &str) -> (r: Vec<char>)
    ensures
        r@ == s@,
{
    let n = s.unicode_len();
    let mut out: Vec<char> = Vec::new();
    let mut i: usize = 0;
    while i < n
        invariant
            i <= n,
            n == s@.len(),
            out@ == s@.take(i as int),
        decreases n - i,
    {
        let c = s.get_char(i);
        out.push(c);
        assert(out@ =~= s@.take(i + 1));
        i = i + 1;
    }
    assert(out@ =~= s@);
    out
}

} // verus!
