//! The order of texts (as `str` orders them: by Unicode scalar value, then
//! by length) and a sort of keyed texts.
use vstd::prelude::*;

use crate::text::{chars_of, texts};

verus! {

broadcast use vstd::seq_lib::group_to_multiset_ensures;

/// Whether `a` sorts strictly before `b`: lexicographically by scalar value,
/// a proper prefix first.
pub open spec fn text_lt(a: Seq<char>, b: Seq<char>) -> bool
    decreases a.len(),
{
    if a.len() == 0 {
        b.len() > 0
    } else if b.len() == 0 {
        false
    } else if a[0] != b[0] {
        (a[0] as int) < (b[0] as int)
    } else {
        text_lt(a.drop_first(), b.drop_first())
    }
}

/// The text order is irreflexive.
pub proof fn lemma_text_lt_irreflexive(a: Seq<char>)
    ensures
        !text_lt(a, a),
    decreases a.len(),
{
    if a.len() > 0 {
        lemma_text_lt_irreflexive(a.drop_first());
    }
}

/// The text order is transitive.
pub proof fn lemma_text_lt_transitive(a: Seq<char>, b: Seq<char>, c: Seq<char>)
    requires
        text_lt(a, b),
        text_lt(b, c),
    ensures
        text_lt(a, c),
    decreases a.len(),
{
    if a.len() > 0 && b.len() > 0 && c.len() > 0 && a[0] == b[0] && b[0] == c[0] {
        lemma_text_lt_transitive(a.drop_first(), b.drop_first(), c.drop_first());
    }
}

/// Two different texts are ordered one way or the other.
pub proof fn lemma_text_lt_total(a: Seq<char>, b: Seq<char>)
    ensures
        a == b || text_lt(a, b) || text_lt(b, a),
    decreases a.len(),
{
    if a.len() > 0 && b.len() > 0 {
        if a[0] == b[0] {
            lemma_text_lt_total(a.drop_first(), b.drop_first());
            if a.drop_first() == b.drop_first() {
                assert(a =~= seq![a[0]] + a.drop_first());
                assert(b =~= seq![b[0]] + b.drop_first());
            }
        } else {
        }
    } else if a.len() == 0 && b.len() == 0 {
        assert(a =~= b);
    }
}

/// The order of one text before another is never both ways.
pub proof fn lemma_text_lt_asymmetric(a: Seq<char>, b: Seq<char>)
    requires
        text_lt(a, b),
    ensures
        !text_lt(b, a),
{
    if text_lt(b, a) {
        lemma_text_lt_transitive(a, b, a);
        lemma_text_lt_irreflexive(a);
    }
}

/// Whether `a` sorts strictly before `b`.
pub fn text_less(a: &str, b: &str) -> (r: bool)
    ensures
        r == text_lt(a@, b@),
{
    let x = chars_of(a);
    let y = chars_of(b);
    let mut i: usize = 0;
    assert(x@.subrange(0, x@.len() as int) =~= x@);
    assert(y@.subrange(0, y@.len() as int) =~= y@);
    while i < x.len() && i < y.len() && x[i] == y[i]
        invariant
            i <= x@.len(),
            i <= y@.len(),
            x@ == a@,
            y@ == b@,
            text_lt(a@, b@) == text_lt(x@.subrange(i as int, x@.len() as int), y@.subrange(i as int, y@.len() as int)),
        decreases x@.len() - i,
    {
        proof {
            let s = x@.subrange(i as int, x@.len() as int);
            let t = y@.subrange(i as int, y@.len() as int);
            assert(s.drop_first() =~= x@.subrange(i + 1, x@.len() as int));
            assert(t.drop_first() =~= y@.subrange(i + 1, y@.len() as int));
        }
        i = i + 1;
    }
    if i == x.len() {
        i < y.len()
    } else if i == y.len() {
        false
    } else {
        let (p, q) = (x[i], y[i]);
        proof {
            let s = x@.subrange(i as int, x@.len() as int);
            let t = y@.subrange(i as int, y@.len() as int);
            assert(s[0] == x@[i as int] && t[0] == y@[i as int]);
        }
        p < q
    }
}

/// A keyed text: a text and a tie-breaking number.
pub open spec fn key_view(p: (String, usize)) -> (Seq<char>, usize) {
    (p.0@, p.1)
}

/// The views of keyed texts.
pub open spec fn key_views(v: Seq<(String, usize)>) -> Seq<(Seq<char>, usize)> {
    v.map_values(|p: (String, usize)| key_view(p))
}

/// Whether one keyed text sorts strictly before another: by text, then by
/// number.
pub open spec fn key_lt(a: (Seq<char>, usize), b: (Seq<char>, usize)) -> bool {
    text_lt(a.0, b.0) || (a.0 == b.0 && a.1 < b.1)
}

/// Whether keyed texts are in non-decreasing order.
pub open spec fn keys_sorted(s: Seq<(Seq<char>, usize)>) -> bool {
    forall|i: int, j: int| 0 <= i < j < s.len() ==> !key_lt(#[trigger] s[j], #[trigger] s[i])
}

/// The keyed order is transitive.
pub proof fn lemma_key_lt_transitive(a: (Seq<char>, usize), b: (Seq<char>, usize), c: (Seq<char>, usize))
    requires
        key_lt(a, b),
        key_lt(b, c),
    ensures
        key_lt(a, c),
{
    if text_lt(a.0, b.0) && text_lt(b.0, c.0) {
        lemma_text_lt_transitive(a.0, b.0, c.0);
    }
}

/// The keyed order is total: of two different keys, one sorts first.
pub proof fn lemma_key_not_lt(a: (Seq<char>, usize), b: (Seq<char>, usize))
    requires
        !key_lt(a, b),
    ensures
        a == b || key_lt(b, a),
{
    lemma_text_lt_total(a.0, b.0);
}

fn key_less(a: &(String, usize), b: &(String, usize)) -> (r: bool)
    ensures
        r == key_lt(key_view(*a), key_view(*b)),
{
    if text_less(a.0.as_str(), b.0.as_str()) {
        true
    } else if text_less(b.0.as_str(), a.0.as_str()) {
        proof {
            lemma_text_lt_asymmetric(b.0@, a.0@);
        }
        false
    } else {
        proof {
            lemma_text_lt_total(a.0@, b.0@);
        }
        a.1 < b.1
    }
}

/// Sorts keyed texts into non-decreasing order (by text, then number),
/// keeping every element.
pub fn sort_keyed(v: Vec<(String, usize)>) -> (r: Vec<(String, usize)>)
    ensures
        keys_sorted(key_views(r@)),
        key_views(r@).to_multiset() == key_views(v@).to_multiset(),
        r@.len() == v@.len(),
{
    let ghost all = key_views(v@);
    let mut rest = v;
    let mut out: Vec<(String, usize)> = Vec::new();
    assert(key_views(rest@) =~= all);
    assert(key_views(out@) =~= Seq::<(Seq<char>, usize)>::empty());
    while rest.len() > 0
        invariant
            keys_sorted(key_views(out@)),
            key_views(out@).to_multiset().add(key_views(rest@).to_multiset()) == all.to_multiset(),
            out@.len() + rest@.len() == all.len(),
        decreases rest@.len(),
    {
        let ghost before_rest = rest@;
        let x = rest.remove(0);
        proof {
            let kr = key_views(before_rest);
            assert(key_views(rest@) =~= kr.remove(0));
            vstd::seq_lib::to_multiset_remove(kr, 0);
            assert(kr[0] == key_view(x));
        }
        let mut j: usize = 0;
        while j < out.len() && !key_less(&x, &out[j])
            invariant
                j <= out@.len(),
                forall|i: int| 0 <= i < j ==> !key_lt(key_view(x), #[trigger] key_views(out@)[i]),
            decreases out@.len() - j,
        {
            assert(key_views(out@)[j as int] == key_view(out@[j as int]));
            j = j + 1;
        }
        let ghost old_out = key_views(out@);
        let ghost kx = key_view(x);
        proof {
            if j < out@.len() {
                assert(key_lt(kx, old_out[j as int]));
            }
        }
        out.insert(j, x);
        proof {
            let nk = key_views(out@);
            assert(nk =~= old_out.insert(j as int, kx));
            vstd::seq_lib::to_multiset_insert(old_out, j as int, kx);
            assert forall|a: int, b: int| 0 <= a < b < nk.len() implies !key_lt(#[trigger] nk[b], #[trigger] nk[a]) by {
                if b < j {
                    assert(nk[a] == old_out[a] && nk[b] == old_out[b]);
                } else if b == j {
                    assert(nk[a] == old_out[a]);
                    assert(!key_lt(kx, old_out[a]));
                } else if a == j {
                    assert(nk[b] == old_out[b - 1]);
                    // kx < old_out[j] <= old_out[b - 1]
                    assert(key_lt(kx, old_out[j as int]));
                    if key_lt(old_out[b - 1], kx) {
                        if b - 1 == j {
                            lemma_key_lt_transitive(kx, old_out[j as int], kx);
                            lemma_text_lt_irreflexive(kx.0);
                        } else {
                            assert(!key_lt(old_out[b - 1], old_out[j as int]));
                            lemma_key_lt_transitive(old_out[b - 1], kx, old_out[j as int]);
                        }
                    }
                } else if a < j {
                    assert(nk[a] == old_out[a]);
                    assert(nk[b] == old_out[b - 1]);
                } else {
                    assert(nk[a] == old_out[a - 1]);
                    assert(nk[b] == old_out[b - 1]);
                }
            }
        }
    }
    proof {
        assert(key_views(rest@) =~= Seq::<(Seq<char>, usize)>::empty());
        assert(key_views(rest@).to_multiset() =~= vstd::multiset::Multiset::empty());
        assert(key_views(out@).to_multiset().add(vstd::multiset::Multiset::empty()) =~= key_views(out@).to_multiset());
    }
    out
}

/// Whether texts are in strictly increasing order.
pub open spec fn strictly_sorted(s: Seq<Seq<char>>) -> bool {
    forall|i: int, j: int| 0 <= i < j < s.len() ==> text_lt(#[trigger] s[i], #[trigger] s[j])
}

/// Sorts texts and drops repeats (a sort followed by `dedup`): the result is
/// strictly increasing and holds the same set of texts.
pub fn sort_dedup(v: Vec<String>) -> (r: Vec<String>)
    ensures
        strictly_sorted(texts(r@)),
        texts(r@).to_set() == texts(v@).to_set(),
{
    let mut keyed: Vec<(String, usize)> = Vec::new();
    let mut i: usize = 0;
    while i < v.len()
        invariant
            i <= v@.len(),
            key_views(keyed@) == texts(v@.subrange(0, i as int)).map_values(|t: Seq<char>| (t, 0usize)),
        decreases v@.len() - i,
    {
        let ghost prev = keyed@;
        keyed.push((v[i].clone(), 0));
        proof {
            assert(texts(v@.subrange(0, i + 1)) =~= texts(v@.subrange(0, i as int)).push(v@[i as int]@));
            assert(key_views(keyed@) =~= key_views(prev).push((v@[i as int]@, 0usize)));
            assert(key_views(keyed@) =~= texts(v@.subrange(0, i + 1)).map_values(|t: Seq<char>| (t, 0usize)));
        }
        i = i + 1;
    }
    assert(v@.subrange(0, v@.len() as int) =~= v@);
    let ghost kin = key_views(keyed@);
    let sorted = sort_keyed(keyed);
    let ghost ks = key_views(sorted@);
    proof {
        assert forall|t: Seq<char>| ks.contains((t, 0usize)) <==> texts(v@).contains(t) by {
            vstd::seq_lib::to_multiset_contains(ks, (t, 0usize));
            vstd::seq_lib::to_multiset_contains(kin, (t, 0usize));
            if texts(v@).contains(t) {
                let k = choose|k: int| 0 <= k < texts(v@).len() && texts(v@)[k] == t;
                assert(kin[k] == (t, 0usize));
            }
            if kin.contains((t, 0usize)) {
                let k = choose|k: int| 0 <= k < kin.len() && kin[k] == (t, 0usize);
                assert(texts(v@)[k] == t);
            }
        }
        assert forall|k: int| 0 <= k < ks.len() implies (#[trigger] ks[k]).1 == 0usize by {
            vstd::seq_lib::to_multiset_contains(ks, ks[k]);
            vstd::seq_lib::to_multiset_contains(kin, ks[k]);
            assert(ks.contains(ks[k]));
            let m = choose|m: int| 0 <= m < kin.len() && kin[m] == ks[k];
        }
    }
    let mut out: Vec<String> = Vec::new();
    let mut j: usize = 0;
    while j < sorted.len()
        invariant
            j <= ks.len(),
            ks == key_views(sorted@),
            keys_sorted(ks),
            forall|k: int| 0 <= k < ks.len() ==> (#[trigger] ks[k]).1 == 0usize,
            strictly_sorted(texts(out@)),
            j > 0 ==> out@.len() > 0 && texts(out@).last() == ks[j - 1].0,
            j == 0 ==> out@.len() == 0,
            forall|t: Seq<char>| texts(out@).contains(t) <==> exists|k: int| 0 <= k < j && (#[trigger] ks[k]).0 == t,
        decreases ks.len() - j,
    {
        let ghost before = texts(out@);
        let keep = j == 0 || !crate::text::text_is(sorted[j].0.as_str(), out[out.len() - 1].as_str());
        if keep {
            out.push(sorted[j].0.clone());
            proof {
                let now = texts(out@);
                assert(now =~= before.push(ks[j as int].0));
                if j > 0 {
                    assert(!key_lt(ks[j as int], ks[j - 1]));
                    lemma_text_lt_total(ks[j - 1].0, ks[j as int].0);
                    assert(text_lt(before.last(), ks[j as int].0));
                    assert forall|a: int, b: int| 0 <= a < b < now.len() implies text_lt(#[trigger] now[a], #[trigger] now[b]) by {
                        if b == now.len() - 1 {
                            if a < before.len() - 1 {
                                assert(text_lt(before[a], before.last()));
                                lemma_text_lt_transitive(before[a], before.last(), ks[j as int].0);
                            }
                        } else {
                            assert(now[a] == before[a] && now[b] == before[b]);
                        }
                    }
                }
                assert forall|t: Seq<char>| now.contains(t) <==> exists|k: int| 0 <= k < j + 1 && (#[trigger] ks[k]).0 == t by {
                    if now.contains(t) && !before.contains(t) {
                        let m = choose|m: int| 0 <= m < now.len() && now[m] == t;
                        assert(m == now.len() - 1);
                        assert(ks[j as int].0 == t);
                    }
                    if exists|k: int| 0 <= k < j + 1 && (#[trigger] ks[k]).0 == t {
                        let k = choose|k: int| 0 <= k < j + 1 && (#[trigger] ks[k]).0 == t;
                        if k < j {
                            assert(before.contains(t));
                            let m = choose|m: int| 0 <= m < before.len() && before[m] == t;
                            assert(now[m] == t);
                        } else {
                            assert(now[now.len() - 1] == t);
                        }
                    }
                }
            }
        } else {
            proof {
                assert(ks[j as int].0 == ks[j - 1].0);
                assert forall|t: Seq<char>| before.contains(t) <==> exists|k: int| 0 <= k < j + 1 && (#[trigger] ks[k]).0 == t by {
                    if exists|k: int| 0 <= k < j + 1 && (#[trigger] ks[k]).0 == t {
                        let k = choose|k: int| 0 <= k < j + 1 && (#[trigger] ks[k]).0 == t;
                        if k == j {
                            assert(ks[j - 1].0 == t);
                        }
                    }
                }
            }
        }
        j = j + 1;
    }
    proof {
        assert forall|t: Seq<char>| texts(out@).to_set().contains(t) <==> texts(v@).to_set().contains(t) by {
            if texts(v@).contains(t) {
                assert(ks.contains((t, 0usize)));
                let k = choose|k: int| 0 <= k < ks.len() && ks[k] == (t, 0usize);
                assert(ks[k].0 == t);
            }
            if exists|k: int| 0 <= k < ks.len() && (#[trigger] ks[k]).0 == t {
                let k = choose|k: int| 0 <= k < ks.len() && (#[trigger] ks[k]).0 == t;
                assert(ks[k] == (t, 0usize));
                assert(ks.contains((t, 0usize)));
            }
        }
        assert(texts(out@).to_set() =~= texts(v@).to_set());
    }
    out
}

} // verus!
