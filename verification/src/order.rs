//! The order in which clients are listed and closed: windows before layers,
//! each by app ID, keeping the order they came in among equal keys; and the
//! removal of a client listed twice in a row.
use vstd::prelude::*;

use crate::text::{lex_le, lex_le_str, lemma_lex_antisymmetric, lemma_lex_total, lemma_lex_transitive};

verus! {

/// A client that has a place in the list: whether it is a layer and its app ID.
pub trait ClientOrd: View + Sized {
    spec fn layer_key(&self) -> bool;

    spec fn name_key(&self) -> Seq<char>;

    fn layer_flag(&self) -> (b: bool)
        ensures
            b == self.layer_key(),
    ;

    fn name_str(&self) -> (s: &str)
        ensures
            s@ == self.name_key(),
    ;

    /// Whether the two clients are equal in every field.
    fn same_client(&self, other: &Self) -> (b: bool)
        ensures
            b == (self@ == other@),
    ;
}

/// `a` may stand before `b`: non-layer clients first, then by app ID.
pub open spec fn precedes<T: ClientOrd>(a: T, b: T) -> bool {
    (!a.layer_key() && b.layer_key()) || (a.layer_key() == b.layer_key() && lex_le(
        a.name_key(),
        b.name_key(),
    ))
}

pub open spec fn sorted_by_key<T: ClientOrd>(s: Seq<T>) -> bool {
    forall|i: int, j: int| 0 <= i < j < s.len() ==> precedes(#[trigger] s[i], #[trigger] s[j])
}

/// The clients of `s` with the given key, in the order of `s`.
pub open spec fn key_group<T: ClientOrd>(s: Seq<T>, layer: bool, name: Seq<char>) -> Seq<T>
    decreases s.len(),
{
    if s.len() == 0 {
        seq![]
    } else {
        let g = key_group(s.drop_last(), layer, name);
        if s.last().layer_key() == layer && s.last().name_key() == name {
            g.push(s.last())
        } else {
            g
        }
    }
}

/// `r` is what a stable sort of `s` by key gives: sorted, and for every key
/// the clients with that key in the order they had in `s`.
pub open spec fn is_stable_sort_of<T: ClientOrd>(r: Seq<T>, s: Seq<T>) -> bool {
    &&& sorted_by_key(r)
    &&& forall|layer: bool, name: Seq<char>| #[trigger]
        key_group(r, layer, name) == key_group(s, layer, name)
}

/// `s` without each client that is equal to the one just before it, as
/// `Vec::dedup` leaves it.
pub open spec fn dedup_seq<T: View>(s: Seq<T>) -> Seq<T>
    decreases s.len(),
{
    if s.len() <= 1 {
        s
    } else {
        let d = dedup_seq(s.drop_last());
        if s.last()@ == s[s.len() - 2]@ {
            d
        } else {
            d.push(s.last())
        }
    }
}

pub proof fn lemma_lex_reflexive(a: Seq<char>)
    ensures
        lex_le(a, a),
    decreases a.len(),
{
    if a.len() > 0 {
        lemma_lex_reflexive(a.drop_first());
    }
}

pub proof fn lemma_precedes_total<T: ClientOrd>(a: T, b: T)
    ensures
        precedes(a, b) || precedes(b, a),
{
    lemma_lex_total(a.name_key(), b.name_key());
}

pub proof fn lemma_precedes_transitive<T: ClientOrd>(a: T, b: T, c: T)
    requires
        precedes(a, b),
        precedes(b, c),
    ensures
        precedes(a, c),
{
    if a.layer_key() == b.layer_key() && b.layer_key() == c.layer_key() {
        lemma_lex_transitive(a.name_key(), b.name_key(), c.name_key());
    }
}

pub proof fn lemma_precedes_same_key<T: ClientOrd>(a: T, b: T)
    requires
        a.layer_key() == b.layer_key(),
        a.name_key() == b.name_key(),
    ensures
        precedes(a, b),
{
    lemma_lex_reflexive(a.name_key());
}

pub proof fn lemma_precedes_antisymmetric<T: ClientOrd>(a: T, b: T)
    requires
        precedes(a, b),
        precedes(b, a),
    ensures
        a.layer_key() == b.layer_key(),
        a.name_key() == b.name_key(),
{
    lemma_lex_antisymmetric(a.name_key(), b.name_key());
}

pub proof fn lemma_key_group_concat<T: ClientOrd>(a: Seq<T>, b: Seq<T>, layer: bool, name: Seq<char>)
    ensures
        key_group(a + b, layer, name) == key_group(a, layer, name) + key_group(b, layer, name),
    decreases b.len(),
{
    if b.len() == 0 {
        assert(a + b =~= a);
        assert(key_group(a, layer, name) + key_group(b, layer, name) =~= key_group(a, layer, name));
    } else {
        assert((a + b).drop_last() =~= a + b.drop_last());
        lemma_key_group_concat(a, b.drop_last(), layer, name);
        let ga = key_group(a, layer, name);
        let gb = key_group(b.drop_last(), layer, name);
        if b.last().layer_key() == layer && b.last().name_key() == name {
            assert(ga + gb.push(b.last()) =~= (ga + gb).push(b.last()));
        }
    }
}

pub proof fn lemma_key_group_none<T: ClientOrd>(s: Seq<T>, layer: bool, name: Seq<char>)
    requires
        forall|i: int|
            0 <= i < s.len() ==> !(#[trigger] s[i].layer_key() == layer && s[i].name_key() == name),
    ensures
        key_group(s, layer, name) == Seq::<T>::empty(),
    decreases s.len(),
{
    if s.len() > 0 {
        lemma_key_group_none(s.drop_last(), layer, name);
        assert(!(s[s.len() - 1].layer_key() == layer && s[s.len() - 1].name_key() == name));
    }
}

/// Whether `a` may stand before `b`.
pub fn client_precedes<T: ClientOrd>(a: &T, b: &T) -> (r: bool)
    ensures
        r == precedes(*a, *b),
{
    let la = a.layer_flag();
    let lb = b.layer_flag();
    if la != lb {
        !la && lb
    } else {
        lex_le_str(a.name_str(), b.name_str())
    }
}

/// Inserts `x` after every client that may stand before it.
fn insert_in_order<T: ClientOrd>(out: &mut Vec<T>, x: T)
    requires
        sorted_by_key(old(out)@),
    ensures
        sorted_by_key(final(out)@),
        forall|layer: bool, name: Seq<char>| #[trigger]
            key_group(final(out)@, layer, name) == if x.layer_key() == layer && x.name_key()
                == name {
                key_group(old(out)@, layer, name).push(x)
            } else {
                key_group(old(out)@, layer, name)
            },
{
    let ghost a = out@;
    let n = out.len();
    let mut p: usize = 0;
    while p < n && client_precedes(&out[p], &x)
        invariant
            n == out@.len(),
            out@ == a,
            p <= n,
            forall|i: int| 0 <= i < p ==> precedes(#[trigger] a[i], x),
        decreases n - p,
    {
        p = p + 1;
    }
    proof {
        assert forall|j: int| p <= j < n implies !precedes(#[trigger] a[j], x) by {
            assert(!precedes(a[p as int], x));
            if j > p && precedes(a[j], x) {
                assert(precedes(a[p as int], a[j]));
                lemma_precedes_transitive(a[p as int], a[j], x);
            }
        }
    }
    out.insert(p, x);
    proof {
        let b = out@;
        let front = a.subrange(0, p as int);
        let back = a.subrange(p as int, n as int);
        assert(b =~= front + seq![x] + back);
        assert(a =~= front + back);
        assert forall|i: int, j: int| 0 <= i < j < b.len() implies precedes(
            #[trigger] b[i],
            #[trigger] b[j],
        ) by {
            if j < p {
                assert(b[i] == a[i] && b[j] == a[j]);
            } else if j == p {
                assert(b[i] == a[i]);
            } else if i < p {
                assert(b[i] == a[i] && b[j] == a[j - 1]);
            } else if i == p {
                assert(b[j] == a[j - 1]);
                assert(!precedes(a[j - 1], x));
                lemma_precedes_total(x, a[j - 1]);
            } else {
                assert(b[i] == a[i - 1] && b[j] == a[j - 1]);
            }
        }
        assert forall|layer: bool, name: Seq<char>| #[trigger]
            key_group(b, layer, name) == if x.layer_key() == layer && x.name_key() == name {
                key_group(a, layer, name).push(x)
            } else {
                key_group(a, layer, name)
            } by {
            lemma_key_group_concat(front + seq![x], back, layer, name);
            lemma_key_group_concat(front, seq![x], layer, name);
            lemma_key_group_concat(front, back, layer, name);
            let sx = seq![x];
            assert(sx.drop_last() =~= Seq::<T>::empty());
            assert(key_group(Seq::<T>::empty(), layer, name) =~= Seq::<T>::empty());
            if x.layer_key() == layer && x.name_key() == name {
                assert forall|j: int| 0 <= j < back.len() implies !(#[trigger] back[j].layer_key()
                    == layer && back[j].name_key() == name) by {
                    assert(back[j] == a[p + j]);
                    if back[j].layer_key() == layer && back[j].name_key() == name {
                        lemma_precedes_same_key(a[p + j], x);
                    }
                }
                lemma_key_group_none(back, layer, name);
                assert(key_group(sx, layer, name) =~= seq![x]);
                assert(key_group(front, layer, name) + seq![x] + Seq::<T>::empty()
                    =~= key_group(front, layer, name).push(x));
                assert(key_group(front, layer, name) + Seq::<T>::empty() =~= key_group(
                    front,
                    layer,
                    name,
                ));
            } else {
                assert(key_group(sx, layer, name) =~= Seq::<T>::empty());
                assert(key_group(front, layer, name) + Seq::<T>::empty() =~= key_group(
                    front,
                    layer,
                    name,
                ));
            }
        }
    }
}

/// Sorts clients by key, keeping the order they came in among equal keys
/// (`<[T]>::sort` under the clients' `Ord`).
pub fn sort_clients<T: ClientOrd>(v: Vec<T>) -> (r: Vec<T>)
    ensures
        is_stable_sort_of(r@, v@),
{
    let ghost orig = v@;
    let mut input = v;
    let mut out: Vec<T> = Vec::new();
    let ghost mut k: int = 0;
    proof {
        assert(orig.subrange(0, 0) =~= Seq::<T>::empty());
        assert(out@ =~= Seq::<T>::empty());
        assert(input@ =~= orig.subrange(0, orig.len() as int));
    }
    while input.len() > 0
        invariant
            0 <= k <= orig.len(),
            input@ == orig.subrange(k, orig.len() as int),
            sorted_by_key(out@),
            forall|layer: bool, name: Seq<char>| #[trigger]
                key_group(out@, layer, name) == key_group(orig.subrange(0, k), layer, name),
        decreases input.len(),
    {
        let x = input.remove(0);
        let ghost before = out@;
        insert_in_order(&mut out, x);
        proof {
            assert(x == orig[k]);
            assert(orig.subrange(0, k + 1).drop_last() =~= orig.subrange(0, k));
            assert(orig.subrange(0, k + 1).last() == x);
            k = k + 1;
            assert(input@ =~= orig.subrange(k, orig.len() as int));
        }
    }
    proof {
        assert(orig.subrange(0, k) =~= orig);
    }
    out
}

/// Drops each client equal to the one just before it (`Vec::dedup`).
pub fn dedup_clients<T: ClientOrd>(v: Vec<T>) -> (r: Vec<T>)
    ensures
        r@ == dedup_seq(v@),
{
    let ghost orig = v@;
    let mut input = v;
    let mut out: Vec<T> = Vec::new();
    let ghost mut k: int = 0;
    proof {
        assert(input@ =~= orig.subrange(0, orig.len() as int));
        assert(out@ =~= dedup_seq(orig.subrange(0, 0)));
    }
    while input.len() > 0
        invariant
            0 <= k <= orig.len(),
            input@ == orig.subrange(k, orig.len() as int),
            out@ == dedup_seq(orig.subrange(0, k)),
            k > 0 ==> out@.len() > 0 && out@.last()@ == orig[k - 1]@,
        decreases input.len(),
    {
        let x = input.remove(0);
        let ghost pre = orig.subrange(0, k + 1);
        proof {
            assert(x == orig[k]);
            assert(pre.drop_last() =~= orig.subrange(0, k));
            assert(pre.last() == x);
        }
        let n = out.len();
        if n > 0 && out[n - 1].same_client(&x) {
            proof {
                assert(pre[pre.len() - 2] == orig[k - 1]);
            }
        } else {
            proof {
                if k > 0 {
                    assert(pre[pre.len() - 2] == orig[k - 1]);
                } else {
                    assert(pre =~= seq![x]);
                }
            }
            out.push(x);
        }
        proof {
            k = k + 1;
            assert(input@ =~= orig.subrange(k, orig.len() as int));
        }
    }
    proof {
        assert(orig.subrange(0, k) =~= orig);
    }
    out
}

/// A client is in a key group exactly when it is in the sequence and has
/// that key.
pub proof fn lemma_key_group_contains<T: ClientOrd>(s: Seq<T>, layer: bool, name: Seq<char>, x: T)
    ensures
        key_group(s, layer, name).contains(x) <==> (s.contains(x) && x.layer_key() == layer
            && x.name_key() == name),
    decreases s.len(),
{
    let gs = key_group(s, layer, name);
    if s.len() == 0 {
        assert(gs.len() == 0);
        assert(!gs.contains(x));
    } else {
        let sd = s.drop_last();
        let g = key_group(sd, layer, name);
        lemma_key_group_contains(sd, layer, name, x);
        let last_in = s.last().layer_key() == layer && s.last().name_key() == name;
        if s.contains(x) && x.layer_key() == layer && x.name_key() == name {
            let i = choose|i: int| 0 <= i < s.len() && s[i] == x;
            if i < s.len() - 1 {
                assert(sd[i] == x);
                assert(g.contains(x));
                let j = choose|j: int| 0 <= j < g.len() && g[j] == x;
                assert(gs[j] == x);
            } else {
                assert(gs[gs.len() - 1] == x);
            }
            assert(gs.contains(x));
        }
        if gs.contains(x) {
            let i = choose|i: int| 0 <= i < gs.len() && gs[i] == x;
            if i < g.len() {
                assert(g[i] == x);
                assert(g.contains(x));
                let j = choose|j: int| 0 <= j < sd.len() && sd[j] == x;
                assert(s[j] == x);
            } else {
                assert(last_in);
                assert(x == s.last());
                assert(s[s.len() - 1] == x);
            }
            assert(s.contains(x));
        }
    }
}

/// A stable sort neither loses nor adds a client.
pub proof fn law_stable_sort_keeps_clients<T: ClientOrd>(r: Seq<T>, s: Seq<T>, x: T)
    requires
        is_stable_sort_of(r, s),
    ensures
        r.contains(x) <==> s.contains(x),
{
    lemma_key_group_contains(r, x.layer_key(), x.name_key(), x);
    lemma_key_group_contains(s, x.layer_key(), x.name_key(), x);
}

/// Sorted clients list every window before every layer.
pub proof fn law_windows_before_layers<T: ClientOrd>(r: Seq<T>, i: int, j: int)
    requires
        sorted_by_key(r),
        0 <= i < j < r.len(),
        r[j].layer_key() == false,
    ensures
        r[i].layer_key() == false,
{
    assert(precedes(r[i], r[j]));
}

/// Among windows, and among layers, sorted clients are in order of app ID.
pub proof fn law_sorted_by_app_id<T: ClientOrd>(r: Seq<T>, i: int, j: int)
    requires
        sorted_by_key(r),
        0 <= i < j < r.len(),
        r[i].layer_key() == r[j].layer_key(),
    ensures
        lex_le(r[i].name_key(), r[j].name_key()),
{
    assert(precedes(r[i], r[j]));
}

proof fn lemma_dedup_last<T: View>(s: Seq<T>)
    requires
        s.len() > 0,
    ensures
        dedup_seq(s).len() > 0,
        dedup_seq(s).last()@ == s.last()@,
    decreases s.len(),
{
    if s.len() > 1 {
        lemma_dedup_last(s.drop_last());
    }
}

/// Every client of `dedup_seq(s)` is a client of `s`.
pub proof fn lemma_dedup_from<T: View>(s: Seq<T>, i: int)
    requires
        0 <= i < dedup_seq(s).len(),
    ensures
        s.contains(dedup_seq(s)[i]),
    decreases s.len(),
{
    if s.len() > 1 {
        let d = dedup_seq(s.drop_last());
        if i < d.len() {
            lemma_dedup_from(s.drop_last(), i);
            let k = choose|k: int| 0 <= k < s.drop_last().len() && s.drop_last()[k] == d[i];
            assert(s[k] == d[i]);
        } else {
            assert(s[s.len() - 1] == dedup_seq(s)[i]);
        }
    } else {
        assert(s[i] == dedup_seq(s)[i]);
    }
}

/// No client of `dedup_seq(s)` is followed by one equal to it.
pub proof fn law_dedup_no_repeats<T: View>(s: Seq<T>, i: int)
    requires
        0 <= i < dedup_seq(s).len() - 1,
    ensures
        dedup_seq(s)[i]@ != dedup_seq(s)[i + 1]@,
    decreases s.len(),
{
    if s.len() > 1 {
        let d = dedup_seq(s.drop_last());
        if i + 1 < d.len() {
            law_dedup_no_repeats(s.drop_last(), i);
        } else {
            lemma_dedup_last(s.drop_last());
            assert(s.drop_last().last() == s[s.len() - 2]);
        }
    }
}

/// Every client of `s` has one equal to it in `dedup_seq(s)`.
pub proof fn law_dedup_keeps_every_client<T: View>(s: Seq<T>, k: int)
    requires
        0 <= k < s.len(),
    ensures
        exists|i: int| 0 <= i < dedup_seq(s).len() && (#[trigger] dedup_seq(s)[i])@ == s[k]@,
    decreases s.len(),
{
    if s.len() > 1 {
        let d = dedup_seq(s.drop_last());
        if k < s.len() - 1 {
            law_dedup_keeps_every_client(s.drop_last(), k);
            let i = choose|i: int| 0 <= i < d.len() && (#[trigger] d[i])@ == s.drop_last()[k]@;
            assert(dedup_seq(s)[i] == d[i]);
        } else {
            lemma_dedup_last(s);
            assert(dedup_seq(s)[dedup_seq(s).len() - 1]@ == s[k]@);
        }
    } else {
        assert(dedup_seq(s)[k] == s[k]);
    }
}

/// Dropping repeated clients keeps a sorted list sorted.
pub proof fn law_dedup_keeps_order<T: ClientOrd>(s: Seq<T>)
    requires
        sorted_by_key(s),
    ensures
        sorted_by_key(dedup_seq(s)),
    decreases s.len(),
{
    if s.len() > 1 {
        let sd = s.drop_last();
        assert(sorted_by_key(sd)) by {
            assert forall|i: int, j: int| 0 <= i < j < sd.len() implies precedes(
                #[trigger] sd[i],
                #[trigger] sd[j],
            ) by {
                assert(sd[i] == s[i] && sd[j] == s[j]);
            }
        }
        law_dedup_keeps_order(sd);
        let d = dedup_seq(sd);
        if !(s.last()@ == s[s.len() - 2]@) {
            let r = d.push(s.last());
            assert forall|i: int, j: int| 0 <= i < j < r.len() implies precedes(
                #[trigger] r[i],
                #[trigger] r[j],
            ) by {
                if j == r.len() - 1 {
                    lemma_dedup_from(sd, i);
                    let k = choose|k: int| 0 <= k < sd.len() && sd[k] == d[i];
                    assert(s[k] == r[i]);
                    assert(s[s.len() - 1] == r[j]);
                } else {
                    assert(r[i] == d[i] && r[j] == d[j]);
                }
            }
        }
    }
}

proof fn lemma_group_drop_last<T: ClientOrd>(r: Seq<T>, layer: bool, name: Seq<char>)
    requires
        r.len() > 0,
    ensures
        key_group(r.drop_last(), layer, name) == if r.last().layer_key() == layer
            && r.last().name_key() == name {
            key_group(r, layer, name).drop_last()
        } else {
            key_group(r, layer, name)
        },
{
    let g = key_group(r.drop_last(), layer, name);
    if r.last().layer_key() == layer && r.last().name_key() == name {
        assert(g.push(r.last()).drop_last() =~= g);
    }
}

proof fn lemma_sorted_drop_last<T: ClientOrd>(r: Seq<T>)
    requires
        sorted_by_key(r),
        r.len() > 0,
    ensures
        sorted_by_key(r.drop_last()),
{
    let d = r.drop_last();
    assert forall|i: int, j: int| 0 <= i < j < d.len() implies precedes(
        #[trigger] d[i],
        #[trigger] d[j],
    ) by {
        assert(d[i] == r[i] && d[j] == r[j]);
    }
}

/// Two sorted sequences with the same clients under every key are equal.
proof fn lemma_sorted_groups_determine<T: ClientOrd>(r1: Seq<T>, r2: Seq<T>)
    requires
        sorted_by_key(r1),
        sorted_by_key(r2),
        forall|layer: bool, name: Seq<char>| #[trigger]
            key_group(r1, layer, name) == key_group(r2, layer, name),
    ensures
        r1 == r2,
    decreases r1.len() + r2.len(),
{
    if r1.len() == 0 && r2.len() == 0 {
        assert(r1 =~= r2);
    } else if r1.len() == 0 {
        let x = r2.last();
        assert(r2.contains(x)) by {
            assert(r2[r2.len() - 1] == x);
        }
        lemma_key_group_contains(r2, x.layer_key(), x.name_key(), x);
        lemma_key_group_contains(r1, x.layer_key(), x.name_key(), x);
        assert(key_group(r1, x.layer_key(), x.name_key()) == key_group(r2, x.layer_key(), x.name_key()));
    } else if r2.len() == 0 {
        let x = r1.last();
        assert(r1.contains(x)) by {
            assert(r1[r1.len() - 1] == x);
        }
        lemma_key_group_contains(r1, x.layer_key(), x.name_key(), x);
        lemma_key_group_contains(r2, x.layer_key(), x.name_key(), x);
        assert(key_group(r1, x.layer_key(), x.name_key()) == key_group(r2, x.layer_key(), x.name_key()));
    } else {
        let a = r1.last();
        let b = r2.last();
        assert(r1.contains(a)) by {
            assert(r1[r1.len() - 1] == a);
        }
        assert(r2.contains(b)) by {
            assert(r2[r2.len() - 1] == b);
        }
        // `a` has a key that occurs in r2, so it precedes b; and the other way.
        lemma_key_group_contains(r1, a.layer_key(), a.name_key(), a);
        assert(key_group(r1, a.layer_key(), a.name_key()) == key_group(r2, a.layer_key(), a.name_key()));
        lemma_key_group_contains(r2, a.layer_key(), a.name_key(), a);
        let ga = key_group(r2, a.layer_key(), a.name_key());
        assert(ga.contains(a));
        let ia = choose|i: int| 0 <= i < ga.len() && ga[i] == a;
        assert(ga.contains(ga[ia]));
        lemma_key_group_contains(r2, a.layer_key(), a.name_key(), ga[ia]);
        let ka = choose|k: int| 0 <= k < r2.len() && r2[k] == ga[ia];
        if ka < r2.len() - 1 {
            assert(precedes(r2[ka], r2[r2.len() - 1]));
        } else {
            lemma_precedes_same_key(r2[ka], b);
        }
        assert(precedes(a, b));
        lemma_key_group_contains(r2, b.layer_key(), b.name_key(), b);
        assert(key_group(r1, b.layer_key(), b.name_key()) == key_group(r2, b.layer_key(), b.name_key()));
        lemma_key_group_contains(r1, b.layer_key(), b.name_key(), b);
        let gb = key_group(r1, b.layer_key(), b.name_key());
        assert(gb.contains(b));
        let ib = choose|i: int| 0 <= i < gb.len() && gb[i] == b;
        assert(gb.contains(gb[ib]));
        lemma_key_group_contains(r1, b.layer_key(), b.name_key(), gb[ib]);
        let kb = choose|k: int| 0 <= k < r1.len() && r1[k] == gb[ib];
        if kb < r1.len() - 1 {
            assert(precedes(r1[kb], r1[r1.len() - 1]));
        } else {
            lemma_precedes_same_key(r1[kb], a);
        }
        assert(precedes(b, a));
        lemma_precedes_antisymmetric(a, b);
        let l = a.layer_key();
        let n = a.name_key();
        // The last client of each is the last of the same group.
        assert(key_group(r1, l, n).last() == a);
        assert(key_group(r2, l, n).last() == b);
        assert(key_group(r1, l, n) == key_group(r2, l, n));
        assert(a == b);
        lemma_sorted_drop_last(r1);
        lemma_sorted_drop_last(r2);
        assert forall|layer: bool, name: Seq<char>| #[trigger]
            key_group(r1.drop_last(), layer, name) == key_group(r2.drop_last(), layer, name) by {
            lemma_group_drop_last(r1, layer, name);
            lemma_group_drop_last(r2, layer, name);
            assert(key_group(r1, layer, name) == key_group(r2, layer, name));
        }
        lemma_sorted_groups_determine(r1.drop_last(), r2.drop_last());
        assert(r1 =~= r1.drop_last().push(a));
        assert(r2 =~= r2.drop_last().push(b));
    }
}

/// A sequence has only one stable sort: the contract of `sort_clients`
/// pins its result down.
pub proof fn law_stable_sort_is_unique<T: ClientOrd>(r1: Seq<T>, r2: Seq<T>, s: Seq<T>)
    requires
        is_stable_sort_of(r1, s),
        is_stable_sort_of(r2, s),
    ensures
        r1 == r2,
{
    assert forall|layer: bool, name: Seq<char>| #[trigger]
        key_group(r1, layer, name) == key_group(r2, layer, name) by {
        assert(key_group(r1, layer, name) == key_group(s, layer, name));
        assert(key_group(r2, layer, name) == key_group(s, layer, name));
    }
    lemma_sorted_groups_determine(r1, r2);
}

} // verus!
