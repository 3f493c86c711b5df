//! The ordering of strings (`String`'s `Ord`: lexicographic by code point, which is the byte
//! order of UTF-8) and sorting of string vectors.

use vstd::prelude::*;

use crate::text::chars_of;

verus! {

/// `a` sorts strictly before `b`.
pub open spec fn seq_less(a: Seq<char>, b: Seq<char>) -> bool
    decreases a.len(),
{
    if a.len() == 0 {
        b.len() > 0
    } else if b.len() == 0 {
        false
    } else if a[0] != b[0] {
        (a[0] as u32) < (b[0] as u32)
    } else {
        seq_less(a.drop_first(), b.drop_first())
    }
}

pub proof fn lemma_less_irreflexive(a: Seq<char>)
    ensures
        !seq_less(a, a),
    decreases a.len(),
{
    if a.len() > 0 {
        lemma_less_irreflexive(a.drop_first());
    }
}

pub proof fn lemma_less_asymmetric(a: Seq<char>, b: Seq<char>)
    ensures
        seq_less(a, b) ==> !seq_less(b, a),
    decreases a.len(),
{
    if a.len() > 0 && b.len() > 0 && a[0] == b[0] {
        lemma_less_asymmetric(a.drop_first(), b.drop_first());
    }
}

pub proof fn lemma_less_transitive(a: Seq<char>, b: Seq<char>, c: Seq<char>)
    ensures
        seq_less(a, b) && seq_less(b, c) ==> seq_less(a, c),
    decreases a.len(),
{
    if a.len() > 0 && b.len() > 0 && c.len() > 0 {
        lemma_less_transitive(a.drop_first(), b.drop_first(), c.drop_first());
    }
}

pub proof fn lemma_less_total(a: Seq<char>, b: Seq<char>)
    ensures
        a != b ==> seq_less(a, b) || seq_less(b, a),
    decreases a.len(),
{
    if a.len() > 0 && b.len() > 0 {
        if a[0] == b[0] {
            lemma_less_total(a.drop_first(), b.drop_first());
            if a.drop_first() == b.drop_first() {
                assert(a =~= seq![a[0]] + a.drop_first());
                assert(b =~= seq![b[0]] + b.drop_first());
            }
        } else {
            vstd::utf8::char_u32_cast(a[0], a[0] as u32);
            vstd::utf8::char_u32_cast(b[0], b[0] as u32);
            assert((a[0] as u32) != (b[0] as u32));
        }
    } else if a.len() == 0 && b.len() == 0 {
        assert(a =~= b);
    }
}

/// `a` sorts at or before `b`.
pub open spec fn seq_le(a: Seq<char>, b: Seq<char>) -> bool {
    !seq_less(b, a)
}

pub proof fn lemma_le_transitive(a: Seq<char>, b: Seq<char>, c: Seq<char>)
    ensures
        seq_le(a, b) && seq_le(b, c) ==> seq_le(a, c),
{
    lemma_less_total(a, b);
    lemma_less_total(b, c);
    lemma_less_transitive(c, b, a);
    lemma_less_transitive(a, b, c);
    lemma_less_asymmetric(a, c);
    lemma_less_irreflexive(a);
    lemma_less_irreflexive(b);
}

/// Whether the characters `a` sort strictly before the characters `b`.
pub fn chars_less(a: &[char], b: &[char]) -> (r: bool)
    ensures
        r == seq_less(a@, b@),
{
    let mut i: usize = 0;
    assert(a@.skip(0) =~= a@);
    assert(b@.skip(0) =~= b@);
    while i < a.len() && i < b.len()
        invariant
            i <= a.len(),
            i <= b.len(),
            seq_less(a@, b@) == seq_less(a@.skip(i as int), b@.skip(i as int)),
        decreases a.len() - i,
    {
        if a[i] != b[i] {
            return (a[i] as u32) < (b[i] as u32);
        }
        assert(a@.skip(i as int).drop_first() =~= a@.skip(i + 1));
        assert(b@.skip(i as int).drop_first() =~= b@.skip(i + 1));
        i = i + 1;
    }
    i == a.len() && i < b.len()
}

/// Whether `a` sorts strictly before `b`, as `String`'s `<` orders them.
pub fn str_less(a: &str, b: &str) -> (r: bool)
    ensures
        r == seq_less(a@, b@),
{
    let x = chars_of(a);
    let y = chars_of(b);
    chars_less(&x, &y)
}

/// The text of each string.
pub open spec fn views(v: Seq<String>) -> Seq<Seq<char>> {
    v.map_values(|s: String| s@)
}

/// Sorted, ties allowed.
pub open spec fn sorted(v: Seq<Seq<char>>) -> bool {
    forall|i: int, j: int| 0 <= i < j < v.len() ==> seq_le(#[trigger] v[i], #[trigger] v[j])
}

/// Sorted without repetition.
pub open spec fn strictly_sorted(v: Seq<Seq<char>>) -> bool {
    forall|i: int, j: int| 0 <= i < j < v.len() ==> seq_less(#[trigger] v[i], #[trigger] v[j])
}

/// The first position whose string does not sort strictly before `s`.
fn lower_bound(v: &Vec<String>, s: &str) -> (k: usize)
    ensures
        k <= v.len(),
        forall|i: int| 0 <= i < k ==> seq_less(#[trigger] v@[i]@, s@),
        k < v.len() ==> !seq_less(v@[k as int]@, s@),
{
    let mut k: usize = 0;
    while k < v.len() && str_less(v[k].as_str(), s)
        invariant
            k <= v.len(),
            forall|i: int| 0 <= i < k ==> seq_less(#[trigger] v@[i]@, s@),
        decreases v.len() - k,
    {
        k = k + 1;
    }
    k
}

/// Inserts `s` at its sorted position, keeping equal strings.
pub fn insert_sorted(v: &mut Vec<String>, s: String)
    requires
        sorted(views(old(v)@)),
    ensures
        sorted(views(final(v)@)),
        views(final(v)@).to_multiset() == views(old(v)@).to_multiset().insert(s@),
        final(v)@.len() == old(v)@.len() + 1,
{
    let k = lower_bound(v, s.as_str());
    let ghost old_v = views(v@);
    let ghost sv = s@;
    v.insert(k, s);
    proof {
        let nv = views(v@);
        assert(nv =~= old_v.insert(k as int, sv));
        assert forall|i: int, j: int| 0 <= i < j < nv.len() implies seq_le(
            #[trigger] nv[i],
            #[trigger] nv[j],
        ) by {
            if j < k {
                assert(nv[i] == old_v[i] && nv[j] == old_v[j]);
            } else if j == k {
                lemma_less_asymmetric(old_v[i], sv);
            } else if i == k {
                let x = old_v[j - 1];
                lemma_less_irreflexive(x);
                assert(seq_le(old_v[k as int], x));
                assert(seq_le(sv, old_v[k as int])) by {
                    lemma_less_total(sv, old_v[k as int]);
                    lemma_less_irreflexive(sv);
                    lemma_less_asymmetric(sv, old_v[k as int]);
                }
                lemma_le_transitive(sv, old_v[k as int], x);
            } else if i < k {
                assert(seq_less(old_v[i], sv));
                assert(seq_le(old_v[i], old_v[j - 1]));
            } else {
                assert(nv[i] == old_v[i - 1] && nv[j] == old_v[j - 1]);
            }
        }
        assert(nv.remove(k as int) =~= old_v);
        broadcast use vstd::seq_lib::group_to_multiset_ensures;
        assert(nv.to_multiset().remove(sv) =~= old_v.to_multiset());
        assert(nv.to_multiset().count(sv) > 0) by {
            assert(nv[k as int] == sv);
            assert(nv.contains(sv));
        }
        assert(nv.to_multiset() =~= old_v.to_multiset().insert(sv));
    }
}

/// Inserts `s` at its sorted position unless an equal string is present.
pub fn insert_sorted_unique(v: &mut Vec<String>, s: String)
    requires
        strictly_sorted(views(old(v)@)),
    ensures
        strictly_sorted(views(final(v)@)),
        views(final(v)@).to_set() == views(old(v)@).to_set().insert(s@),
{
    let k = lower_bound(v, s.as_str());
    let ghost old_v = views(v@);
    let ghost sv = s@;
    if k < v.len() && crate::text::str_equal(v[k].as_str(), s.as_str()) {
        proof {
            assert(old_v[k as int] == sv);
            assert(old_v.to_set().insert(sv) =~= old_v.to_set());
        }
        return;
    }
    v.insert(k, s);
    proof {
        let nv = views(v@);
        assert(nv =~= old_v.insert(k as int, sv));
        if k < old_v.len() {
            lemma_less_total(sv, old_v[k as int]);
        }
        assert forall|i: int, j: int| 0 <= i < j < nv.len() implies seq_less(
            #[trigger] nv[i],
            #[trigger] nv[j],
        ) by {
            if j < k {
                assert(nv[i] == old_v[i] && nv[j] == old_v[j]);
            } else if j == k {
            } else if i == k {
                let x = old_v[j - 1];
                if j - 1 > k {
                    assert(seq_less(old_v[k as int], x));
                    lemma_less_transitive(sv, old_v[k as int], x);
                }
            } else if i < k {
                assert(seq_less(old_v[i], sv));
                if j - 1 == k {
                    lemma_less_transitive(old_v[i], sv, old_v[k as int]);
                } else {
                    assert(seq_less(old_v[i], old_v[j - 1]));
                }
            } else {
                assert(nv[i] == old_v[i - 1] && nv[j] == old_v[j - 1]);
            }
        }
        assert forall|x: Seq<char>| nv.to_set().contains(x) <==> old_v.to_set().insert(
            sv,
        ).contains(x) by {
            if nv.contains(x) {
                let i = choose|i: int| 0 <= i < nv.len() && nv[i] == x;
                if i < k {
                    assert(old_v[i] == x);
                } else if i > k {
                    assert(old_v[i - 1] == x);
                }
            }
            if old_v.contains(x) {
                let i = choose|i: int| 0 <= i < old_v.len() && old_v[i] == x;
                if i < k {
                    assert(nv[i] == x);
                } else {
                    assert(nv[i + 1] == x);
                }
            }
            if x == sv {
                assert(nv[k as int] == x);
            }
        }
        assert(nv.to_set() =~= old_v.to_set().insert(sv));
    }
}

/// The strings of `v` in sorted order, equal strings kept.
pub fn sort_strings(v: &Vec<String>) -> (r: Vec<String>)
    ensures
        sorted(views(r@)),
        views(r@).to_multiset() == views(v@).to_multiset(),
{
    let mut r: Vec<String> = Vec::new();
    let mut i: usize = 0;
    proof {
        broadcast use vstd::seq_lib::group_to_multiset_ensures;
        assert(views(v@.take(0)) =~= views(r@));
    }
    while i < v.len()
        invariant
            i <= v.len(),
            sorted(views(r@)),
            views(r@).to_multiset() == views(v@.take(i as int)).to_multiset(),
        decreases v.len() - i,
    {
        let s = v[i].clone();
        insert_sorted(&mut r, s);
        proof {
            broadcast use vstd::seq_lib::group_to_multiset_ensures;
            assert(views(v@.take(i + 1)) =~= views(v@.take(i as int)).push(v@[i as int]@));
        }
        i = i + 1;
    }
    assert(v@.take(v@.len() as int) =~= v@);
    r
}

/// The distinct strings of `v` in sorted order.
pub fn sort_unique_strings(v: &Vec<String>) -> (r: Vec<String>)
    ensures
        strictly_sorted(views(r@)),
        views(r@).to_set() == views(v@).to_set(),
{
    let mut r: Vec<String> = Vec::new();
    let mut i: usize = 0;
    assert(views(v@.take(0)) =~= views(r@));
    while i < v.len()
        invariant
            i <= v.len(),
            strictly_sorted(views(r@)),
            views(r@).to_set() == views(v@.take(i as int)).to_set(),
        decreases v.len() - i,
    {
        let s = v[i].clone();
        insert_sorted_unique(&mut r, s);
        proof {
            assert(views(v@.take(i + 1)) =~= views(v@.take(i as int)).push(v@[i as int]@));
            views(v@.take(i as int)).lemma_push_to_set_commute(v@[i as int]@);
        }
        i = i + 1;
    }
    assert(v@.take(v@.len() as int) =~= v@);
    r
}

} // verus!
