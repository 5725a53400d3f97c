//! Lexicographic order on keys made of comparable units, and the stable sort
//! of feeds by such keys.
use vstd::prelude::*;

use crate::feed::Feed;

verus! {

broadcast use vstd::seq_lib::group_seq_properties, vstd::seq_lib::group_to_multiset_ensures;

/// A unit of a sort key: its values are strictly and totally ordered.
pub trait KeyUnit: DeepView + Sized {
    /// The strict order on units.
    spec fn unit_lt(a: Self::V, b: Self::V) -> bool;

    /// `unit_lt` is a strict total order.
    proof fn lemma_unit_order(a: Self::V, b: Self::V, c: Self::V)
        ensures
            !Self::unit_lt(a, a),
            Self::unit_lt(a, b) && Self::unit_lt(b, c) ==> Self::unit_lt(a, c),
            a != b ==> Self::unit_lt(a, b) || Self::unit_lt(b, a),
    ;

    /// Whether `self` comes strictly before `other`.
    fn less(&self, other: &Self) -> (b: bool)
        ensures
            b == Self::unit_lt(self.deep_view(), other.deep_view()),
    ;
}

impl KeyUnit for char {
    open spec fn unit_lt(a: char, b: char) -> bool {
        a < b
    }

    proof fn lemma_unit_order(a: char, b: char, c: char) {
    }

    fn less(&self, other: &char) -> (b: bool) {
        *self < *other
    }
}

/// Lexicographic order on sequences of units, as `Vec` and `str` compare:
/// the first differing unit decides, and a proper prefix comes first.
pub open spec fn lex_lt<S: KeyUnit>(a: Seq<S::V>, b: Seq<S::V>) -> bool
    decreases a.len(),
{
    if b.len() == 0 {
        false
    } else if a.len() == 0 {
        true
    } else if a[0] == b[0] {
        lex_lt::<S>(a.drop_first(), b.drop_first())
    } else {
        S::unit_lt(a[0], b[0])
    }
}

pub proof fn lemma_lex_irreflexive<S: KeyUnit>(a: Seq<S::V>)
    ensures
        !lex_lt::<S>(a, a),
    decreases a.len(),
{
    if a.len() > 0 {
        lemma_lex_irreflexive::<S>(a.drop_first());
    }
}

pub proof fn lemma_lex_transitive<S: KeyUnit>(a: Seq<S::V>, b: Seq<S::V>, c: Seq<S::V>)
    requires
        lex_lt::<S>(a, b),
        lex_lt::<S>(b, c),
    ensures
        lex_lt::<S>(a, c),
    decreases a.len(),
{
    if a.len() > 0 {
        S::lemma_unit_order(a[0], b[0], c[0]);
        S::lemma_unit_order(b[0], a[0], c[0]);
        S::lemma_unit_order(a[0], c[0], b[0]);
        if a[0] == b[0] && b[0] == c[0] {
            lemma_lex_transitive::<S>(a.drop_first(), b.drop_first(), c.drop_first());
        }
    }
}

pub proof fn lemma_lex_total<S: KeyUnit>(a: Seq<S::V>, b: Seq<S::V>)
    requires
        a != b,
    ensures
        lex_lt::<S>(a, b) || lex_lt::<S>(b, a),
    decreases a.len(),
{
    if a.len() > 0 && b.len() > 0 {
        S::lemma_unit_order(a[0], b[0], a[0]);
        if a[0] == b[0] {
            assert(a.drop_first() != b.drop_first()) by {
                if a.drop_first() == b.drop_first() {
                    assert(a =~= seq![a[0]] + a.drop_first());
                    assert(b =~= seq![b[0]] + b.drop_first());
                }
            }
            lemma_lex_total::<S>(a.drop_first(), b.drop_first());
        }
    } else if a.len() == 0 && b.len() == 0 {
        assert(a =~= b);
    }
}

/// `lex_lt` is a strict total order.
pub proof fn lemma_lex_order<S: KeyUnit>(a: Seq<S::V>, b: Seq<S::V>, c: Seq<S::V>)
    ensures
        !lex_lt::<S>(a, a),
        lex_lt::<S>(a, b) && lex_lt::<S>(b, c) ==> lex_lt::<S>(a, c),
        a != b ==> lex_lt::<S>(a, b) || lex_lt::<S>(b, a),
{
    lemma_lex_irreflexive::<S>(a);
    if lex_lt::<S>(a, b) && lex_lt::<S>(b, c) {
        lemma_lex_transitive::<S>(a, b, c);
    }
    if a != b {
        lemma_lex_total::<S>(a, b);
    }
}

/// Whether key `a` comes strictly before key `b`.
pub fn key_less<S: KeyUnit>(a: &Vec<S>, b: &Vec<S>) -> (r: bool)
    ensures
        r == lex_lt::<S>(a.deep_view(), b.deep_view()),
{
    let ghost av = a.deep_view();
    let ghost bv = b.deep_view();
    let mut i: usize = 0;
    while i < a.len() && i < b.len()
        invariant
            av == a.deep_view(),
            bv == b.deep_view(),
            i <= a.len(),
            i <= b.len(),
            lex_lt::<S>(av, bv) == lex_lt::<S>(av.skip(i as int), bv.skip(i as int)),
        decreases a.len() - i,
    {
        let ghost sa = av.skip(i as int);
        let ghost sb = bv.skip(i as int);
        assert(sa[0] == a[i as int].deep_view());
        assert(sb[0] == b[i as int].deep_view());
        if a[i].less(&b[i]) {
            proof {
                S::lemma_unit_order(sa[0], sb[0], sa[0]);
            }
            return true;
        }
        if b[i].less(&a[i]) {
            return false;
        }
        proof {
            S::lemma_unit_order(sa[0], sb[0], sa[0]);
            assert(sa.drop_first() =~= av.skip(i + 1));
            assert(sb.drop_first() =~= bv.skip(i + 1));
        }
        i = i + 1;
    }
    i < b.len()
}

/// The feeds of `s` whose key is `k`, in their order in `s`.
pub open spec fn with_key<K>(s: Seq<Feed>, keyf: spec_fn(Feed) -> K, k: K) -> Seq<Feed> {
    s.filter(key_is(keyf, k))
}

/// Whether a feed's key is `k`.
pub open spec fn key_is<K>(keyf: spec_fn(Feed) -> K, k: K) -> spec_fn(Feed) -> bool {
    |f: Feed| keyf(f) == k
}

/// `s` is in ascending order of keys.
pub open spec fn sorted_by<S: KeyUnit>(s: Seq<Feed>, keyf: spec_fn(Feed) -> Seq<S::V>) -> bool {
    forall|i: int, j: int| 0 <= i < j < s.len() ==> !lex_lt::<S>(#[trigger] keyf(s[j]), #[trigger] keyf(s[i]))
}

/// `out` is the stable sort of `inp` by `keyf`: the same feeds, in ascending
/// order of keys, and the feeds of each key in the order they had in `inp`.
pub open spec fn is_stable_sort<S: KeyUnit>(
    out: Seq<Feed>,
    inp: Seq<Feed>,
    keyf: spec_fn(Feed) -> Seq<S::V>,
) -> bool {
    &&& out.to_multiset() == inp.to_multiset()
    &&& sorted_by::<S>(out, keyf)
    &&& forall|k: Seq<S::V>| #[trigger] with_key(out, keyf, k) == with_key(inp, keyf, k)
}

proof fn lemma_filter_none<A>(s: Seq<A>, p: spec_fn(A) -> bool)
    requires
        forall|i: int| 0 <= i < s.len() ==> !p(#[trigger] s[i]),
    ensures
        s.filter(p) == Seq::<A>::empty(),
{
    if s.filter(p).len() > 0 {
        s.lemma_filter_pred(p, 0);
        let e = s.filter(p)[0];
        assert(s.filter(p).contains(e));
        s.lemma_filter_contains_rev(p, e);
    }
    assert(s.filter(p) =~= Seq::<A>::empty());
}

/// Sorts `feeds` stably by `keys`, where `keys[i]` is the key of `feeds[i]`.
pub fn sort_by_keys<S: KeyUnit>(
    feeds: Vec<Feed>,
    keys: Vec<Vec<S>>,
    Ghost(keyf): Ghost<spec_fn(Feed) -> Seq<S::V>>,
) -> (out: Vec<Feed>)
    requires
        feeds.len() == keys.len(),
        forall|i: int| 0 <= i < feeds.len() ==> #[trigger] keys[i].deep_view() == keyf(feeds[i]),
    ensures
        is_stable_sort::<S>(out@, feeds@, keyf),
{
    let ghost orig = feeds@;
    let ghost origk = keys@;
    let mut rest = feeds;
    let mut restk = keys;
    let mut out: Vec<Feed> = Vec::new();
    let mut outk: Vec<Vec<S>> = Vec::new();
    let n = rest.len();
    let mut i: usize = 0;
    proof {
        assert(orig.skip(0) =~= orig);
        assert(origk.skip(0) =~= origk);
        assert(orig.take(0) =~= Seq::<Feed>::empty());
        assert forall|k: Seq<S::V>| #[trigger] with_key(out@, keyf, k) == with_key(orig.take(0), keyf, k) by {
            assert(out@ =~= orig.take(0));
        }
    }
    while i < n
        invariant
            n == orig.len(),
            origk.len() == orig.len(),
            forall|m: int| 0 <= m < orig.len() ==> #[trigger] origk[m].deep_view() == keyf(orig[m]),
            i <= n,
            rest@ == orig.skip(i as int),
            restk@ == origk.skip(i as int),
            out.len() == i,
            outk.len() == i,
            forall|m: int| 0 <= m < out.len() ==> #[trigger] outk[m].deep_view() == keyf(out[m]),
            sorted_by::<S>(out@, keyf),
            out@.to_multiset() == orig.take(i as int).to_multiset(),
            forall|k: Seq<S::V>| #[trigger] with_key(out@, keyf, k) == with_key(orig.take(i as int), keyf, k),
        decreases n - i,
    {
        assert(rest@[0] == orig[i as int]);
        assert(restk@[0] == origk[i as int]);
        let x = rest.remove(0);
        let kx = restk.remove(0);
        assert(rest@ =~= orig.skip(i + 1));
        assert(restk@ =~= origk.skip(i + 1));
        let ghost kxv = keyf(x);
        assert(kx.deep_view() == kxv);
        let mut p: usize = 0;
        while p < out.len() && !key_less(&kx, &outk[p])
            invariant
                p <= out.len(),
                outk.len() == out.len(),
                kx.deep_view() == kxv,
                forall|m: int| 0 <= m < out.len() ==> #[trigger] outk[m].deep_view() == keyf(out[m]),
                forall|m: int| 0 <= m < p ==> !lex_lt::<S>(kxv, #[trigger] keyf(out@[m])),
            decreases out.len() - p,
        {
            p = p + 1;
        }
        let ghost old_out = out@;
        proof {
            // Every feed from `p` on has a key strictly after that of `x`.
            assert forall|m: int| p <= m < old_out.len() implies lex_lt::<S>(kxv, #[trigger] keyf(old_out[m])) by {
                let kp = keyf(old_out[p as int]);
                let km = keyf(old_out[m]);
                assert(lex_lt::<S>(kxv, kp));
                if m > p {
                    assert(!lex_lt::<S>(km, kp));
                    lemma_lex_order::<S>(kxv, kp, km);
                    lemma_lex_order::<S>(kp, km, kp);
                }
            }
        }
        out.insert(p, x);
        outk.insert(p, kx);
        proof {
            let new_out = out@;
            assert(new_out == old_out.insert(p as int, x));
            old_out.insert_ensures(p as int, x);
            assert forall|m: int| 0 <= m < out.len() implies #[trigger] outk[m].deep_view() == keyf(out[m]) by {
                if m < p {
                } else if m == p {
                } else {
                    assert(out[m] == old_out[m - 1]);
                }
            }
            assert forall|a: int, b: int| 0 <= a < b < new_out.len() implies !lex_lt::<S>(
                #[trigger] keyf(new_out[b]),
                #[trigger] keyf(new_out[a]),
            ) by {
                let ka = keyf(new_out[a]);
                let kb = keyf(new_out[b]);
                if a < p && b == p {
                    lemma_lex_order::<S>(kxv, ka, kxv);
                } else if a == p && b > p {
                    assert(new_out[b] == old_out[b - 1]);
                    assert(lex_lt::<S>(kxv, kb));
                    lemma_lex_order::<S>(kb, kxv, kb);
                } else if a < p && b > p {
                    assert(new_out[b] == old_out[b - 1]);
                } else if a > p {
                    assert(new_out[a] == old_out[a - 1]);
                    assert(new_out[b] == old_out[b - 1]);
                }
            }
            assert(orig.take(i + 1) =~= orig.take(i as int).push(x));
            assert(out@.to_multiset() == orig.take(i + 1).to_multiset());
            let left = old_out.subrange(0, p as int);
            let right = old_out.subrange(p as int, old_out.len() as int);
            assert(old_out =~= left + right);
            assert(new_out =~= left + (seq![x] + right));
            assert forall|k: Seq<S::V>| #[trigger] with_key(out@, keyf, k) == with_key(orig.take(i + 1), keyf, k) by {
                let pr = key_is(keyf, k);
                Seq::filter_distributes_over_add(left, right, pr);
                Seq::filter_distributes_over_add(left, seq![x] + right, pr);
                Seq::filter_distributes_over_add(seq![x], right, pr);
                orig.take(i as int).lemma_filter_push(x, pr);
                Seq::<Feed>::empty().lemma_filter_push(x, pr);
                assert(seq![x] =~= Seq::<Feed>::empty().push(x));
                assert(Seq::<Feed>::empty().filter(pr) =~= Seq::<Feed>::empty()) by {
                    lemma_filter_none(Seq::<Feed>::empty(), pr);
                }
                assert(with_key(old_out, keyf, k) == with_key(orig.take(i as int), keyf, k));
                assert(old_out.filter(pr) == left.filter(pr) + right.filter(pr));
                assert(new_out.filter(pr) == left.filter(pr) + (seq![x].filter(pr) + right.filter(pr)));
                if kxv == k {
                    assert(pr(x));
                    assert forall|m: int| 0 <= m < right.len() implies !pr(#[trigger] right[m]) by {
                        assert(right[m] == old_out[p + m]);
                        lemma_lex_order::<S>(kxv, kxv, kxv);
                    }
                    lemma_filter_none(right, pr);
                    assert(seq![x].filter(pr) =~= seq![x]);
                    assert(new_out.filter(pr) =~= left.filter(pr).push(x));
                    assert(old_out.filter(pr) =~= left.filter(pr));
                    assert(orig.take(i + 1).filter(pr) == orig.take(i as int).filter(pr).push(x));
                } else {
                    assert(!pr(x));
                    assert(seq![x].filter(pr) =~= Seq::<Feed>::empty());
                    assert(new_out.filter(pr) =~= left.filter(pr) + right.filter(pr));
                    assert(orig.take(i + 1).filter(pr) == orig.take(i as int).filter(pr));
                }
            }
        }
        i = i + 1;
    }
    assert(orig.take(n as int) =~= orig);
    out
}

proof fn lemma_with_key_push<K>(s: Seq<Feed>, x: Feed, keyf: spec_fn(Feed) -> K, k: K)
    ensures
        with_key(s.push(x), keyf, k) == if keyf(x) == k {
            with_key(s, keyf, k).push(x)
        } else {
            with_key(s, keyf, k)
        },
{
    s.lemma_filter_push(x, key_is(keyf, k));
}

/// A feed with key `k` occurs in `s` when the feeds of `s` with key `k` are
/// not none.
proof fn lemma_with_key_witness<K>(s: Seq<Feed>, keyf: spec_fn(Feed) -> K, k: K) -> (j: int)
    requires
        with_key(s, keyf, k).len() > 0,
    ensures
        0 <= j < s.len(),
        keyf(s[j]) == k,
{
    let p = key_is(keyf, k);
    s.lemma_filter_pred(p, 0);
    let e = s.filter(p)[0];
    assert(s.filter(p).contains(e));
    s.lemma_filter_contains_rev(p, e);
    choose|j: int| 0 <= j < s.len() && s[j] == e
}

/// Two sequences in ascending order of keys that hold, for every key, the
/// same feeds with that key in the same order, are equal.
pub proof fn lemma_sorted_unique<S: KeyUnit>(
    a: Seq<Feed>,
    b: Seq<Feed>,
    keyf: spec_fn(Feed) -> Seq<S::V>,
)
    requires
        sorted_by::<S>(a, keyf),
        sorted_by::<S>(b, keyf),
        forall|k: Seq<S::V>| #[trigger] with_key(a, keyf, k) == with_key(b, keyf, k),
    ensures
        a == b,
    decreases a.len() + b.len(),
{
    if a.len() == 0 && b.len() == 0 {
        assert(a =~= b);
    } else if a.len() == 0 || b.len() == 0 {
        let (full, empty) = if a.len() == 0 {
            (b, a)
        } else {
            (a, b)
        };
        let k = keyf(full[0]);
        full.lemma_filter_contains(key_is(keyf, k), 0);
        assert(with_key(full, keyf, k).len() > 0);
        assert(with_key(empty, keyf, k) == with_key(full, keyf, k));
        let j = lemma_with_key_witness(empty, keyf, k);
    } else {
        let la = a.last();
        let lb = b.last();
        let ka = keyf(la);
        let kb = keyf(lb);
        let a0 = a.drop_last();
        let b0 = b.drop_last();
        assert(a =~= a0.push(la));
        assert(b =~= b0.push(lb));
        lemma_with_key_push(a0, la, keyf, ka);
        lemma_with_key_push(b0, lb, keyf, kb);
        // Both ends have the same key.
        assert(with_key(b, keyf, ka).len() > 0);
        let jb = lemma_with_key_witness(b, keyf, ka);
        assert(with_key(a, keyf, kb).len() > 0);
        let ja = lemma_with_key_witness(a, keyf, kb);
        if jb < b.len() - 1 {
            assert(!lex_lt::<S>(keyf(b[b.len() - 1]), keyf(b[jb])));
        }
        if ja < a.len() - 1 {
            assert(!lex_lt::<S>(keyf(a[a.len() - 1]), keyf(a[ja])));
        }
        if ka != kb {
            lemma_lex_total::<S>(ka, kb);
        }
        assert(ka == kb);
        // Both ends are the last feed with that key.
        assert(la == with_key(a, keyf, ka).last());
        assert(lb == with_key(b, keyf, ka).last());
        assert(la == lb);
        assert forall|k: Seq<S::V>| #[trigger] with_key(a0, keyf, k) == with_key(b0, keyf, k) by {
            lemma_with_key_push(a0, la, keyf, k);
            lemma_with_key_push(b0, lb, keyf, k);
            if k == ka {
                assert(with_key(a0, keyf, k) =~= with_key(a, keyf, k).drop_last());
                assert(with_key(b0, keyf, k) =~= with_key(b, keyf, k).drop_last());
            } else {
                assert(with_key(a0, keyf, k) == with_key(a, keyf, k));
                assert(with_key(b0, keyf, k) == with_key(b, keyf, k));
            }
        }
        assert(sorted_by::<S>(a0, keyf)) by {
            assert forall|i: int, j: int| 0 <= i < j < a0.len() implies !lex_lt::<S>(
                #[trigger] keyf(a0[j]),
                #[trigger] keyf(a0[i]),
            ) by {
                assert(a0[i] == a[i] && a0[j] == a[j]);
            }
        }
        assert(sorted_by::<S>(b0, keyf)) by {
            assert forall|i: int, j: int| 0 <= i < j < b0.len() implies !lex_lt::<S>(
                #[trigger] keyf(b0[j]),
                #[trigger] keyf(b0[i]),
            ) by {
                assert(b0[i] == b[i] && b0[j] == b[j]);
            }
        }
        lemma_sorted_unique::<S>(a0, b0, keyf);
    }
}

/// The stable sort of a list is unique: two results that both meet
/// `is_stable_sort` for the same list are equal.
pub proof fn lemma_stable_sort_unique<S: KeyUnit>(
    out1: Seq<Feed>,
    out2: Seq<Feed>,
    inp: Seq<Feed>,
    keyf: spec_fn(Feed) -> Seq<S::V>,
)
    requires
        is_stable_sort::<S>(out1, inp, keyf),
        is_stable_sort::<S>(out2, inp, keyf),
    ensures
        out1 == out2,
{
    assert forall|k: Seq<S::V>| #[trigger] with_key(out1, keyf, k) == with_key(out2, keyf, k) by {
        assert(with_key(out1, keyf, k) == with_key(inp, keyf, k));
        assert(with_key(out2, keyf, k) == with_key(inp, keyf, k));
    }
    lemma_sorted_unique::<S>(out1, out2, keyf);
}

/// Sorting a list that is already in order leaves it as it is.
pub proof fn lemma_stable_sort_of_sorted<S: KeyUnit>(
    out: Seq<Feed>,
    inp: Seq<Feed>,
    keyf: spec_fn(Feed) -> Seq<S::V>,
)
    requires
        sorted_by::<S>(inp, keyf),
        is_stable_sort::<S>(out, inp, keyf),
    ensures
        out == inp,
{
    assert forall|k: Seq<S::V>| #[trigger] with_key(out, keyf, k) == with_key(inp, keyf, k) by {
    }
    lemma_sorted_unique::<S>(out, inp, keyf);
}

/// Characters are ordered by code point, as `char` and `str` compare.
pub proof fn lemma_char_order(a: char, b: char)
    ensures
        <char as KeyUnit>::unit_lt(a, b) <==> (a as u32) < (b as u32),
{
}

/// `lex_lt` is the lexicographic order: `a` comes before `b` exactly when,
/// at the first position where they differ, the unit of `a` comes first,
/// or when `a` is a proper prefix of `b`.
pub proof fn lemma_lex_meaning<S: KeyUnit>(a: Seq<S::V>, b: Seq<S::V>)
    ensures
        lex_lt::<S>(a, b) <==> ((exists|i: int|
            0 <= i < a.len() && i < b.len() && a.take(i) == b.take(i) && #[trigger] S::unit_lt(
                a[i],
                b[i],
            )) || (a.len() < b.len() && a == b.take(a.len() as int))),
    decreases a.len(),
{
    if a.len() == 0 {
        if b.len() > 0 {
            assert(a =~= b.take(0));
        }
    } else if b.len() == 0 {
    } else {
        let ta = a.drop_first();
        let tb = b.drop_first();
        lemma_lex_meaning::<S>(ta, tb);
        S::lemma_unit_order(a[0], b[0], a[0]);
        if lex_lt::<S>(a, b) {
            if a[0] != b[0] {
                assert(a.take(0) =~= b.take(0));
                assert(S::unit_lt(a[0], b[0]));
            } else if exists|i: int|
                0 <= i < ta.len() && i < tb.len() && ta.take(i) == tb.take(i) && #[trigger] S::unit_lt(
                    ta[i],
                    tb[i],
                ) {
                let i = choose|i: int|
                    0 <= i < ta.len() && i < tb.len() && ta.take(i) == tb.take(i)
                        && #[trigger] S::unit_lt(ta[i], tb[i]);
                assert(a.take(i + 1) =~= seq![a[0]] + ta.take(i));
                assert(b.take(i + 1) =~= seq![b[0]] + tb.take(i));
                assert(S::unit_lt(a[i + 1], b[i + 1]));
            } else {
                assert(ta == tb.take(ta.len() as int));
                assert(a =~= b.take(a.len() as int));
            }
        } else {
            if exists|i: int|
                0 <= i < a.len() && i < b.len() && a.take(i) == b.take(i) && #[trigger] S::unit_lt(
                    a[i],
                    b[i],
                ) {
                let i = choose|i: int|
                    0 <= i < a.len() && i < b.len() && a.take(i) == b.take(i)
                        && #[trigger] S::unit_lt(a[i], b[i]);
                S::lemma_unit_order(a[i], b[i], a[i]);
                if i > 0 {
                    assert(a.take(i)[0] == b.take(i)[0]);
                    assert(ta.take(i - 1) =~= a.take(i).drop_first());
                    assert(tb.take(i - 1) =~= b.take(i).drop_first());
                    assert(S::unit_lt(ta[i - 1], tb[i - 1]));
                }
            }
            if a.len() < b.len() && a == b.take(a.len() as int) {
                assert(a[0] == b.take(a.len() as int)[0]);
                assert(ta =~= tb.take(ta.len() as int));
            }
        }
    }
}

/// Character sequences are ordered as `str` compares them: by code point at
/// the first position where they differ, a proper prefix first.
pub proof fn lemma_str_order(a: Seq<char>, b: Seq<char>)
    ensures
        lex_lt::<char>(a, b) <==> ((exists|i: int|
            0 <= i < a.len() && i < b.len() && a.take(i) == b.take(i) && (#[trigger] a[i] as u32)
                < (b[i] as u32)) || (a.len() < b.len() && a == b.take(a.len() as int))),
{
    lemma_lex_meaning::<char>(a, b);
    if exists|i: int|
        0 <= i < a.len() && i < b.len() && a.take(i) == b.take(i) && (#[trigger] a[i] as u32) < (
        b[i] as u32) {
        let i = choose|i: int|
            0 <= i < a.len() && i < b.len() && a.take(i) == b.take(i) && (#[trigger] a[i] as u32)
                < (b[i] as u32);
        lemma_char_order(a[i], b[i]);
        assert(<char as KeyUnit>::unit_lt(a[i], b[i]));
    }
    if exists|i: int|
        0 <= i < a.len() && i < b.len() && a.take(i) == b.take(i) && #[trigger] <char as KeyUnit>::unit_lt(
            a[i],
            b[i],
        ) {
        let i = choose|i: int|
            0 <= i < a.len() && i < b.len() && a.take(i) == b.take(i)
                && #[trigger] <char as KeyUnit>::unit_lt(a[i], b[i]);
        lemma_char_order(a[i], b[i]);
        assert((a[i] as u32) < (b[i] as u32));
    }
}

/// In a stable sort, of two feeds whose keys are in order, the one with the
/// smaller key comes first.
pub proof fn lemma_sort_places_smaller_first<S: KeyUnit>(
    out: Seq<Feed>,
    inp: Seq<Feed>,
    keyf: spec_fn(Feed) -> Seq<S::V>,
    i: int,
    j: int,
)
    requires
        is_stable_sort::<S>(out, inp, keyf),
        0 <= i < out.len(),
        0 <= j < out.len(),
        lex_lt::<S>(keyf(out[i]), keyf(out[j])),
    ensures
        i < j,
{
    lemma_lex_order::<S>(keyf(out[i]), keyf(out[j]), keyf(out[i]));
    if j < i {
        assert(!lex_lt::<S>(keyf(out[i]), keyf(out[j])));
    }
}

} // verus!
