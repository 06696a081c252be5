//! Maps kept in ascending order of their keys.

use vstd::prelude::*;

verus! {

/// A key with a strict total order on its view.
pub trait MapKey: View + Sized {
    /// Whether a key stands before another.
    spec fn precedes(a: <Self as View>::V, b: <Self as View>::V) -> bool;

    /// The order is strict, transitive and total.
    proof fn order_laws(a: <Self as View>::V, b: <Self as View>::V, c: <Self as View>::V)
        ensures
            !Self::precedes(a, a),
            Self::precedes(a, b) && Self::precedes(b, c) ==> Self::precedes(a, c),
            a == b || Self::precedes(a, b) || Self::precedes(b, a),
            Self::precedes(a, b) ==> !Self::precedes(b, a),
    ;

    /// Decides the order.
    fn stands_before(&self, other: &Self) -> (r: bool)
        ensures
            r == Self::precedes(self@, other@),
    ;

    /// Decides equality.
    fn same_as(&self, other: &Self) -> (r: bool)
        ensures
            r == (self@ == other@),
    ;

    /// A key with the same view.
    fn duplicate(&self) -> (r: Self)
        ensures
            r@ == self@,
    ;
}

/// The views of a list of keys.
pub open spec fn views<K: MapKey>(v: Seq<K>) -> Seq<<K as View>::V> {
    v.map_values(|k: K| k@)
}

/// Strictly ascending keys.
pub open spec fn ascending<K: MapKey>(s: Seq<<K as View>::V>) -> bool {
    forall|i: int, j: int| 0 <= i < j < s.len() ==> K::precedes(#[trigger] s[i], #[trigger] s[j])
}

/// The members of a set in ascending order.
pub open spec fn in_order<K: MapKey>(s: Set<<K as View>::V>) -> Seq<<K as View>::V> {
    choose|q: Seq<<K as View>::V>| ascending::<K>(q) && q.to_set() == s
}

/// No member of an ascending sequence occurs twice.
pub proof fn ascending_has_no_repeats<K: MapKey>(s: Seq<<K as View>::V>, i: int, j: int)
    requires
        ascending::<K>(s),
        0 <= i < j < s.len(),
    ensures
        s[i] != s[j],
{
    assert(K::precedes(s[i], s[j]));
    K::order_laws(s[i], s[i], s[i]);
}

/// Two ascending sequences with the same members are equal.
pub proof fn ascending_is_unique<K: MapKey>(p: Seq<<K as View>::V>, q: Seq<<K as View>::V>)
    requires
        ascending::<K>(p),
        ascending::<K>(q),
        p.to_set() == q.to_set(),
    ensures
        p == q,
    decreases p.len(),
{
    if p.len() == 0 {
        if q.len() > 0 {
            assert(q.to_set().contains(q[0]));
            assert(p.to_set().contains(q[0]));
        }
        assert(p =~= q);
    } else {
        assert(p.to_set().contains(p[0]));
        assert(q.to_set().contains(p[0]));
        assert(q.len() > 0);
        let pl = p.last();
        let ql = q.last();
        assert(q.to_set().contains(pl)) by {
            assert(p.to_set().contains(pl));
        }
        assert(p.to_set().contains(ql)) by {
            assert(q.to_set().contains(ql));
        }
        let i = choose|i: int| 0 <= i < q.len() && q[i] == pl;
        let j = choose|j: int| 0 <= j < p.len() && p[j] == ql;
        K::order_laws(pl, ql, pl);
        assert(pl == ql) by {
            if i < q.len() - 1 && j < p.len() - 1 {
                assert(K::precedes(q[i], q[q.len() - 1]));
                assert(K::precedes(p[j], p[p.len() - 1]));
            }
        }
        let p1 = p.drop_last();
        let q1 = q.drop_last();
        assert(p1.to_set() =~= q1.to_set()) by {
            assert forall|x: <K as View>::V| p1.to_set().contains(x) <==> q1.to_set().contains(x) by {
                drop_last_members::<K>(p, x);
                drop_last_members::<K>(q, x);
            }
        }
        ascending_is_unique::<K>(p1, q1);
        assert(p =~= p1.push(pl));
        assert(q =~= q1.push(ql));
    }
}

proof fn drop_last_members<K: MapKey>(p: Seq<<K as View>::V>, x: <K as View>::V)
    requires
        ascending::<K>(p),
        p.len() > 0,
    ensures
        p.drop_last().to_set().contains(x) <==> p.to_set().contains(x) && x != p.last(),
{
    let p1 = p.drop_last();
    if p1.to_set().contains(x) {
        let i = choose|i: int| 0 <= i < p1.len() && p1[i] == x;
        assert(p[i] == x);
        assert(K::precedes(p[i], p[p.len() - 1]));
        K::order_laws(x, x, x);
    }
    if p.to_set().contains(x) && x != p.last() {
        let i = choose|i: int| 0 <= i < p.len() && p[i] == x;
        assert(p1[i] == x);
    }
}

/// An ascending sequence is the ordering of the set of its members.
pub proof fn ascending_is_in_order<K: MapKey>(p: Seq<<K as View>::V>)
    requires
        ascending::<K>(p),
    ensures
        in_order::<K>(p.to_set()) == p,
{
    let q = in_order::<K>(p.to_set());
    assert(ascending::<K>(q) && q.to_set() == p.to_set());
    ascending_is_unique::<K>(p, q);
}

/// An ascending sequence with one more member.
pub open spec fn with_member<K: MapKey>(q: Seq<<K as View>::V>, a: <K as View>::V) -> Seq<
    <K as View>::V,
>
    decreases q.len(),
{
    if q.len() == 0 {
        seq![a]
    } else if K::precedes(q.last(), a) {
        q.push(a)
    } else {
        with_member::<K>(q.drop_last(), a).push(q.last())
    }
}

proof fn with_member_ascends<K: MapKey>(q: Seq<<K as View>::V>, a: <K as View>::V)
    requires
        ascending::<K>(q),
        !q.contains(a),
    ensures
        ascending::<K>(with_member::<K>(q, a)),
        forall|x: <K as View>::V| #[trigger]
            with_member::<K>(q, a).contains(x) <==> q.contains(x) || x == a,
    decreases q.len(),
{
    let r = with_member::<K>(q, a);
    if q.len() == 0 {
        assert(r[0] == a);
    } else if K::precedes(q.last(), a) {
        assert forall|i: int, j: int| 0 <= i < j < r.len() implies K::precedes(
            #[trigger] r[i],
            #[trigger] r[j],
        ) by {
            assert(r[i] == q[i]);
            if j < q.len() {
                assert(r[j] == q[j]);
            } else if i < q.len() - 1 {
                assert(K::precedes(q[i], q[q.len() - 1]));
                K::order_laws(q[i], q.last(), a);
            }
        }
        assert forall|x: <K as View>::V| #[trigger] r.contains(x) <==> q.contains(x) || x == a by {
            if q.contains(x) {
                let j = choose|j: int| 0 <= j < q.len() && q[j] == x;
                assert(r[j] == x);
            }
            assert(r[q.len() as int] == a);
            if r.contains(x) {
                let j = choose|j: int| 0 <= j < r.len() && r[j] == x;
                if j < q.len() {
                    assert(q[j] == x);
                }
            }
        }
    } else {
        let front = q.drop_last();
        let last = q.last();
        assert(q.contains(last)) by {
            assert(q[q.len() - 1] == last);
        }
        K::order_laws(last, a, last);
        assert forall|x: <K as View>::V| #[trigger] front.contains(x) implies q.contains(x) by {
            let j = choose|j: int| 0 <= j < front.len() && front[j] == x;
            assert(q[j] == x);
        }
        with_member_ascends::<K>(front, a);
        let f = with_member::<K>(front, a);
        assert forall|i: int, j: int| 0 <= i < j < r.len() implies K::precedes(
            #[trigger] r[i],
            #[trigger] r[j],
        ) by {
            assert(r[i] == f[i]);
            if j < f.len() {
                assert(r[j] == f[j]);
            } else {
                assert(f.contains(f[i]));
                if f[i] != a {
                    let k = choose|k: int| 0 <= k < front.len() && front[k] == f[i];
                    assert(K::precedes(q[k], q[q.len() - 1]));
                }
            }
        }
        assert forall|x: <K as View>::V| #[trigger] r.contains(x) <==> q.contains(x) || x == a by {
            if q.contains(x) {
                let j = choose|j: int| 0 <= j < q.len() && q[j] == x;
                if j < front.len() {
                    assert(front[j] == x);
                    assert(f.contains(x));
                    let k = choose|k: int| 0 <= k < f.len() && f[k] == x;
                    assert(r[k] == x);
                } else {
                    assert(r[f.len() as int] == x);
                }
            }
            if x == a {
                assert(f.contains(a));
                let k = choose|k: int| 0 <= k < f.len() && f[k] == a;
                assert(r[k] == a);
            }
            if r.contains(x) {
                let k = choose|k: int| 0 <= k < r.len() && r[k] == x;
                if k < f.len() {
                    assert(f[k] == x);
                    assert(f.contains(x));
                }
            }
        }
    }
}

/// The members of every finite set can be put in ascending order.
pub proof fn finite_set_has_order<K: MapKey>(s: Set<<K as View>::V>)
    requires
        s.finite(),
    ensures
        ascending::<K>(in_order::<K>(s)),
        in_order::<K>(s).to_set() == s,
    decreases s.len(),
{
    if s.len() == 0 {
        let q = Seq::<<K as View>::V>::empty();
        assert(q.to_set() =~= s);
        assert(ascending::<K>(q));
    } else {
        let a = s.choose();
        let t = s.remove(a);
        finite_set_has_order::<K>(t);
        let q = in_order::<K>(t);
        assert(!q.contains(a)) by {
            assert(!q.to_set().contains(a));
        }
        with_member_ascends::<K>(q, a);
        let r = with_member::<K>(q, a);
        assert forall|x: <K as View>::V| r.to_set().contains(x) <==> s.contains(x) by {
            assert(q.to_set().contains(x) <==> q.contains(x));
        }
        assert(r.to_set() =~= s);
    }
}

/// A map kept in ascending order of its keys.
#[derive(Debug, PartialEq, Eq)]
pub struct OrderedMap<K: MapKey, V> {
    entries: Vec<(K, V)>,
}

/// The keys of a list of entries.
pub open spec fn entry_keys<K: MapKey, V>(e: Seq<(K, V)>) -> Seq<<K as View>::V> {
    e.map_values(|x: (K, V)| x.0@)
}

/// The map that a list of entries stands for.
pub open spec fn entry_map<K: MapKey, V>(e: Seq<(K, V)>) -> Map<<K as View>::V, V> {
    let keys = entry_keys(e);
    Map::new(|k: <K as View>::V| keys.contains(k), |k: <K as View>::V| e[keys.index_of(k)].1)
}

proof fn entry_lookup<K: MapKey, V>(e: Seq<(K, V)>, i: int)
    requires
        ascending::<K>(entry_keys(e)),
        0 <= i < e.len(),
    ensures
        entry_map(e).contains_key(e[i].0@),
        entry_map(e)[e[i].0@] == e[i].1,
{
    let keys = entry_keys(e);
    let k = e[i].0@;
    assert(keys[i] == k);
    let j = keys.index_of(k);
    assert(keys[j] == k && 0 <= j < keys.len());
    K::order_laws(k, k, k);
    if i < j {
        assert(K::precedes(keys[i], keys[j]));
    } else if j < i {
        assert(K::precedes(keys[j], keys[i]));
    }
}

/// A list of entries stands for a finite map.
proof fn entries_are_finite<K: MapKey, V>(e: Seq<(K, V)>)
    ensures
        entry_map(e).dom().finite(),
{
    vstd::seq_lib::seq_to_set_is_finite(entry_keys(e));
    assert(entry_map(e).dom() =~= entry_keys(e).to_set());
}

proof fn entry_absent<K: MapKey, V>(e: Seq<(K, V)>, k: <K as View>::V)
    requires
        forall|i: int| 0 <= i < e.len() ==> (#[trigger] e[i]).0@ != k,
    ensures
        !entry_map(e).contains_key(k),
{
    let keys = entry_keys(e);
    if keys.contains(k) {
        let i = choose|i: int| 0 <= i < keys.len() && keys[i] == k;
        assert(e[i].0@ == k);
    }
}

/// Two lists of entries that agree at every key stand for the same map.
proof fn entry_map_ext<K: MapKey, V>(e: Seq<(K, V)>, m: Map<<K as View>::V, V>)
    requires
        ascending::<K>(entry_keys(e)),
        forall|i: int| 0 <= i < e.len() ==> m.contains_key((#[trigger] e[i]).0@) && m[e[i].0@] == e[i].1,
        forall|k: <K as View>::V| m.contains_key(k) ==> exists|i: int| 0 <= i < e.len() && (#[trigger] e[i]).0@ == k,
    ensures
        entry_map(e) == m,
{
    assert forall|k: <K as View>::V| entry_map(e).contains_key(k) == m.contains_key(k) && (m.contains_key(k)
        ==> entry_map(e)[k] == m[k]) by {
        if m.contains_key(k) {
            let i = choose|i: int| 0 <= i < e.len() && (#[trigger] e[i]).0@ == k;
            entry_lookup(e, i);
        }
        if entry_map(e).contains_key(k) {
            let keys = entry_keys(e);
            let i = keys.index_of(k);
            assert(keys[i] == k);
            assert(e[i].0@ == k);
        }
    }
    assert(entry_map(e) =~= m);
}

impl<K: MapKey, V> View for OrderedMap<K, V> {
    type V = Map<<K as View>::V, V>;

    closed spec fn view(&self) -> Map<<K as View>::V, V> {
        entry_map(self.entries@)
    }
}

impl<K: MapKey, V> OrderedMap<K, V> {
    /// A map holds finitely many keys.
    pub proof fn keys_are_finite(&self)
        ensures
            self@.dom().finite(),
    {
        entries_are_finite(self.entries@);
    }

    #[verifier::type_invariant]
    spec fn in_order(self) -> bool {
        ascending::<K>(entry_keys(self.entries@))
    }

    /// The empty map.
    pub fn new() -> (r: Self)
        ensures
            r@ == Map::<<K as View>::V, V>::empty(),
    {
        let r = OrderedMap { entries: Vec::new() };
        assert(r@ =~= Map::<<K as View>::V, V>::empty());
        r
    }

    /// The position of the first entry that does not stand before `k`.
    fn position(&self, k: &K) -> (r: usize)
        ensures
            r <= self.entries@.len(),
            forall|i: int| 0 <= i < r ==> K::precedes((#[trigger] self.entries@[i]).0@, k@),
            forall|i: int|
                r <= i < self.entries@.len() ==> !K::precedes((#[trigger] self.entries@[i]).0@, k@),
    {
        proof {
            use_type_invariant(self);
        }
        let mut i: usize = 0;
        while i < self.entries.len() && self.entries[i].0.stands_before(k)
            invariant
                i <= self.entries@.len(),
                forall|j: int| 0 <= j < i ==> K::precedes((#[trigger] self.entries@[j]).0@, k@),
            decreases self.entries@.len() - i,
        {
            i += 1;
        }
        proof {
            let keys = entry_keys(self.entries@);
            assert forall|j: int| i <= j < self.entries@.len() implies !K::precedes(
                (#[trigger] self.entries@[j]).0@,
                k@,
            ) by {
                if j > i {
                    assert(K::precedes(keys[i as int], keys[j]));
                    K::order_laws(keys[i as int], keys[j], k@);
                }
            }
        }
        i
    }

    /// Absence of a key, from what `position` says.
    proof fn absent_at(e: Seq<(K, V)>, k: <K as View>::V, p: int)
        requires
            0 <= p <= e.len(),
            ascending::<K>(entry_keys(e)),
            forall|i: int| 0 <= i < p ==> K::precedes((#[trigger] e[i]).0@, k),
            forall|i: int| p <= i < e.len() ==> !K::precedes((#[trigger] e[i]).0@, k),
            p < e.len() ==> e[p].0@ != k,
        ensures
            forall|i: int| 0 <= i < e.len() ==> (#[trigger] e[i]).0@ != k,
            forall|i: int| p <= i < e.len() ==> K::precedes(k, (#[trigger] e[i]).0@),
    {
        let keys = entry_keys(e);
        assert forall|i: int| p <= i < e.len() implies K::precedes(k, (#[trigger] e[i]).0@) by {
            K::order_laws(k, e[p].0@, k);
            if i > p {
                assert(K::precedes(keys[p], keys[i]));
                K::order_laws(k, e[p].0@, e[i].0@);
            }
        }
        assert forall|i: int| 0 <= i < e.len() implies (#[trigger] e[i]).0@ != k by {
            K::order_laws(k, k, k);
        }
    }

    /// The value stored for a key.
    pub fn get(&self, k: &K) -> (r: Option<&V>)
        ensures
            match r {
                Some(v) => self@.contains_key(k@) && self@[k@] == *v,
                None => !self@.contains_key(k@),
            },
    {
        let p = self.position(k);
        proof {
            use_type_invariant(self);
        }
        if p < self.entries.len() && self.entries[p].0.same_as(k) {
            proof {
                entry_lookup(self.entries@, p as int);
            }
            Some(&self.entries[p].1)
        } else {
            proof {
                Self::absent_at(self.entries@, k@, p as int);
                entry_absent(self.entries@, k@);
            }
            None
        }
    }

    /// Whether a key is in the map.
    pub fn contains(&self, k: &K) -> (r: bool)
        ensures
            r == self@.contains_key(k@),
    {
        match self.get(k) {
            Some(_) => true,
            None => false,
        }
    }

    proof fn replaced_at(e: Seq<(K, V)>, p: int, entry: (K, V))
        requires
            ascending::<K>(entry_keys(e)),
            0 <= p < e.len(),
            e[p].0@ == entry.0@,
        ensures
            ascending::<K>(entry_keys(e.update(p, entry))),
            entry_map(e.update(p, entry)) == entry_map(e).insert(entry.0@, entry.1),
    {
        let e2 = e.update(p, entry);
        let key = entry.0@;
        let v = entry.1;
        assert(entry_keys(e2) =~= entry_keys(e));
        assert forall|i: int| 0 <= i < e2.len() implies entry_map(e).insert(key, v).contains_key(
            (#[trigger] e2[i]).0@,
        ) && entry_map(e).insert(key, v)[e2[i].0@] == e2[i].1 by {
            entry_lookup(e, i);
            let keys = entry_keys(e);
            if i < p {
                assert(K::precedes(keys[i], keys[p]));
            } else if i > p {
                assert(K::precedes(keys[p], keys[i]));
            }
            K::order_laws(key, key, key);
        }
        assert forall|x: <K as View>::V| entry_map(e).insert(key, v).contains_key(x) implies exists|
            i: int,
        | 0 <= i < e2.len() && (#[trigger] e2[i]).0@ == x by {
            if x == key {
                assert(e2[p].0@ == x);
            } else {
                let i = entry_keys(e).index_of(x);
                assert(entry_keys(e)[i] == x);
                assert(e2[i].0@ == x);
            }
        }
        entry_map_ext(e2, entry_map(e).insert(key, v));
    }

    proof fn inserted_at(e: Seq<(K, V)>, p: int, entry: (K, V))
        requires
            ascending::<K>(entry_keys(e)),
            0 <= p <= e.len(),
            forall|i: int| 0 <= i < p ==> K::precedes((#[trigger] e[i]).0@, entry.0@),
            forall|i: int| p <= i < e.len() ==> K::precedes(entry.0@, (#[trigger] e[i]).0@),
            forall|i: int| 0 <= i < e.len() ==> (#[trigger] e[i]).0@ != entry.0@,
        ensures
            ascending::<K>(entry_keys(e.insert(p, entry))),
            entry_map(e.insert(p, entry)) == entry_map(e).insert(entry.0@, entry.1),
    {
        let e2 = e.insert(p, entry);
        let key = entry.0@;
        let v = entry.1;
        let keys = entry_keys(e);
        let keys2 = entry_keys(e2);
        assert forall|i: int, j: int| 0 <= i < j < keys2.len() implies K::precedes(
            #[trigger] keys2[i],
            #[trigger] keys2[j],
        ) by {
            let oi = if i < p { i } else { i - 1 };
            let oj = if j < p { j } else { j - 1 };
            if i != p {
                assert(keys2[i] == keys[oi]);
                assert(keys[oi] == e[oi].0@);
            }
            if j != p {
                assert(keys2[j] == keys[oj]);
                assert(keys[oj] == e[oj].0@);
            }
        }
        assert forall|i: int| 0 <= i < e2.len() implies entry_map(e).insert(key, v).contains_key(
            (#[trigger] e2[i]).0@,
        ) && entry_map(e).insert(key, v)[e2[i].0@] == e2[i].1 by {
            let oi = if i < p { i } else { i - 1 };
            if i != p {
                assert(e2[i] == e[oi]);
                entry_lookup(e, oi);
            }
        }
        assert forall|x: <K as View>::V| entry_map(e).insert(key, v).contains_key(x) implies exists|
            i: int,
        | 0 <= i < e2.len() && (#[trigger] e2[i]).0@ == x by {
            if x == key {
                assert(e2[p].0@ == x);
            } else {
                let i = keys.index_of(x);
                assert(keys[i] == x);
                assert(e[i].0@ == x);
                let ni = if i < p { i } else { i + 1 };
                assert(e2[ni] == e[i]);
            }
        }
        entry_map_ext(e2, entry_map(e).insert(key, v));
    }

    /// Stores a value and returns the one it replaces.
    pub fn insert(&mut self, k: K, v: V) -> (r: Option<V>)
        ensures
            old(self)@.dom().finite(),
            final(self)@ == old(self)@.insert(k@, v),
            match r {
                Some(w) => old(self)@.contains_key(k@) && old(self)@[k@] == w,
                None => !old(self)@.contains_key(k@),
            },
    {
        proof {
            entries_are_finite(self.entries@);
        }
        let p = self.position(&k);
        proof {
            use_type_invariant(&*self);
        }
        let ghost e = self.entries@;
        let ghost key = k@;
        if p < self.entries.len() && self.entries[p].0.same_as(&k) {
            proof {
                entry_lookup(e, p as int);
            }
            let mut entry = (k, v);
            let mut entries: Vec<(K, V)> = Vec::new();
            core::mem::swap(&mut self.entries, &mut entries);
            entries.set_and_swap(p, &mut entry);
            proof {
                Self::replaced_at(e, p as int, (k, v));
            }
            self.entries = entries;
            Some(entry.1)
        } else {
            proof {
                Self::absent_at(e, key, p as int);
                entry_absent(e, key);
                Self::inserted_at(e, p as int, (k, v));
            }
            let mut entries: Vec<(K, V)> = Vec::new();
            core::mem::swap(&mut self.entries, &mut entries);
            entries.insert(p, (k, v));
            self.entries = entries;
            None
        }
    }

    proof fn removed_at(e: Seq<(K, V)>, p: int)
        requires
            ascending::<K>(entry_keys(e)),
            0 <= p < e.len(),
        ensures
            ascending::<K>(entry_keys(e.remove(p))),
            entry_map(e.remove(p)) == entry_map(e).remove(e[p].0@),
    {
        let e2 = e.remove(p);
        let keys = entry_keys(e);
        let keys2 = entry_keys(e2);
        let m = entry_map(e).remove(e[p].0@);
        assert forall|i: int, j: int| 0 <= i < j < keys2.len() implies K::precedes(
            #[trigger] keys2[i],
            #[trigger] keys2[j],
        ) by {
            let oi = if i < p { i } else { i + 1 };
            let oj = if j < p { j } else { j + 1 };
            assert(keys2[i] == keys[oi]);
            assert(keys2[j] == keys[oj]);
        }
        assert forall|i: int| 0 <= i < e2.len() implies m.contains_key((#[trigger] e2[i]).0@)
            && m[e2[i].0@] == e2[i].1 by {
            let oi = if i < p { i } else { i + 1 };
            assert(e2[i] == e[oi]);
            entry_lookup(e, oi);
            K::order_laws(e[p].0@, e[p].0@, e[p].0@);
            if oi < p {
                assert(K::precedes(keys[oi], keys[p]));
            } else {
                assert(K::precedes(keys[p], keys[oi]));
            }
        }
        assert forall|x: <K as View>::V| m.contains_key(x) implies exists|i: int|
            0 <= i < e2.len() && (#[trigger] e2[i]).0@ == x by {
            let i = keys.index_of(x);
            assert(keys[i] == x);
            assert(e[i].0@ == x);
            let ni = if i < p { i } else { i - 1 };
            assert(e2[ni] == e[i]);
        }
        entry_map_ext(e2, m);
    }

    /// Removes a key and returns its value.
    pub fn remove(&mut self, k: &K) -> (r: Option<V>)
        ensures
            old(self)@.dom().finite(),
            final(self)@ == old(self)@.remove(k@),
            match r {
                Some(w) => old(self)@.contains_key(k@) && old(self)@[k@] == w,
                None => !old(self)@.contains_key(k@),
            },
    {
        proof {
            entries_are_finite(self.entries@);
        }
        let p = self.position(k);
        proof {
            use_type_invariant(&*self);
        }
        let ghost e = self.entries@;
        if p < self.entries.len() && self.entries[p].0.same_as(k) {
            proof {
                entry_lookup(e, p as int);
                Self::removed_at(e, p as int);
            }
            let mut entries: Vec<(K, V)> = Vec::new();
            core::mem::swap(&mut self.entries, &mut entries);
            let entry = entries.remove(p);
            self.entries = entries;
            Some(entry.1)
        } else {
            proof {
                Self::absent_at(e, k@, p as int);
                entry_absent(e, k@);
                assert(entry_map(e).remove(k@) =~= entry_map(e));
            }
            None
        }
    }

    /// Removes every entry.
    pub fn clear(&mut self)
        ensures
            final(self)@ == Map::<<K as View>::V, V>::empty(),
    {
        self.entries = Vec::new();
        assert(self@ =~= Map::<<K as View>::V, V>::empty());
    }

    /// The keys in ascending order.
    pub fn keys(&self) -> (r: Vec<K>)
        ensures
            self@.dom().finite(),
            views(r@) == in_order::<K>(self@.dom()),
            views(r@).to_set() == self@.dom(),
            ascending::<K>(views(r@)),
    {
        proof {
            entries_are_finite(self.entries@);
        }
        proof {
            use_type_invariant(self);
        }
        let mut out: Vec<K> = Vec::new();
        let mut i: usize = 0;
        while i < self.entries.len()
            invariant
                i <= self.entries@.len(),
                views(out@) == entry_keys(self.entries@).take(i as int),
            decreases self.entries@.len() - i,
        {
            let k = self.entries[i].0.duplicate();
            let ghost done = views(out@);
            out.push(k);
            assert(views(out@) =~= done.push(k@));
            assert(entry_keys(self.entries@).take(i + 1) =~= entry_keys(self.entries@).take(
                i as int,
            ).push(k@));
            i += 1;
        }
        proof {
            let keys = entry_keys(self.entries@);
            assert(keys.take(i as int) =~= keys);
            ascending_is_in_order::<K>(keys);
            assert(keys.to_set() =~= self@.dom());
        }
        out
    }

    /// Removes the listed keys.
    pub fn remove_all(&mut self, list: &[K])
        ensures
            final(self)@ == old(self)@.remove_keys(views(list@).to_set()),
    {
        let ghost m = self@;
        let ghost keys = views(list@);
        let mut i: usize = 0;
        assert(keys.take(0).to_set() =~= Set::empty());
        assert(m.remove_keys(keys.take(0).to_set()) =~= m);
        while i < list.len()
            invariant
                i <= list@.len(),
                keys == views(list@),
                self@ == m.remove_keys(keys.take(i as int).to_set()),
            decreases list@.len() - i,
        {
            self.remove(&list[i]);
            proof {
                let done = keys.take(i as int);
                let next = keys.take(i + 1);
                let k = keys[i as int];
                assert(k == list@[i as int]@);
                assert forall|x: <K as View>::V| next.to_set().contains(x) <==> done.to_set().contains(
                    x,
                ) || x == k by {
                    if done.contains(x) {
                        let j = choose|j: int| 0 <= j < done.len() && done[j] == x;
                        assert(next[j] == x);
                    }
                    assert(next[i as int] == k);
                    if next.contains(x) {
                        let j = choose|j: int| 0 <= j < next.len() && next[j] == x;
                        if j < i {
                            assert(done[j] == x);
                        }
                    }
                }
                assert(self@ =~= m.remove_keys(next.to_set()));
            }
            i += 1;
        }
        assert(keys.take(i as int) =~= keys);
    }
}

} // verus!
