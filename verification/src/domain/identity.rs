//! Controlled identities, package name and uid, and ordered maps keyed by them.

use vstd::prelude::*;

use crate::domain::ordered::{
    ascending, ascending_is_in_order, in_order, views, MapKey, OrderedMap,
};
use crate::text::{before, before_irreflexive, before_total, before_transitive, copy, is_before, same};

verus! {

/// The package name and uid under which an application is controlled.
pub type RuntimeIdentity = (String, u32);

/// An identity as a value.
pub type Ident = (Seq<char>, u32);

/// Order of identities: by package name, then by uid.
pub open spec fn ident_before(a: Ident, b: Ident) -> bool {
    before(a.0, b.0) || (a.0 == b.0 && a.1 < b.1)
}

/// The identities of a set in ascending order.
pub open spec fn ordered(s: Set<Ident>) -> Seq<Ident> {
    in_order::<RuntimeIdentity>(s)
}

/// Facts about the order of identities.
pub proof fn ident_order(a: Ident, b: Ident, c: Ident)
    ensures
        !ident_before(a, a),
        ident_before(a, b) && ident_before(b, c) ==> ident_before(a, c),
        a == b || ident_before(a, b) || ident_before(b, a),
        ident_before(a, b) ==> !ident_before(b, a),
{
    before_irreflexive(a.0);
    before_irreflexive(b.0);
    before_total(a.0, b.0);
    if before(a.0, b.0) && before(b.0, c.0) {
        before_transitive(a.0, b.0, c.0);
    }
    if before(a.0, b.0) && before(b.0, a.0) {
        before_transitive(a.0, b.0, a.0);
    }
}

/// A copy of an identity.
pub fn copy_identity(k: &RuntimeIdentity) -> (r: RuntimeIdentity)
    ensures
        r@ == k@,
{
    (copy(k.0.as_str()), k.1)
}

/// Decides the order of identities.
fn is_identity_before(a: &RuntimeIdentity, b: &RuntimeIdentity) -> (r: bool)
    ensures
        r == ident_before(a@, b@),
{
    is_before(a.0.as_str(), b.0.as_str()) || (same(a.0.as_str(), b.0.as_str()) && a.1 < b.1)
}

/// Decides equality of identities.
pub fn same_identity(a: &RuntimeIdentity, b: &RuntimeIdentity) -> (r: bool)
    ensures
        r == (a@ == b@),
{
    a.1 == b.1 && same(a.0.as_str(), b.0.as_str())
}

impl MapKey for RuntimeIdentity {
    open spec fn precedes(a: Ident, b: Ident) -> bool {
        ident_before(a, b)
    }

    proof fn order_laws(a: Ident, b: Ident, c: Ident) {
        ident_order(a, b, c);
    }

    fn stands_before(&self, other: &Self) -> (r: bool) {
        is_identity_before(self, other)
    }

    fn same_as(&self, other: &Self) -> (r: bool) {
        same_identity(self, other)
    }

    fn duplicate(&self) -> (r: Self) {
        copy_identity(self)
    }
}

/// A map from identities, kept in ascending order of the identities.
pub type IdentityMap<V> = OrderedMap<RuntimeIdentity, V>;

impl<V> OrderedMap<RuntimeIdentity, V> {
    /// The identities whose uid is listed (`listed`), or those whose uid is not, in ascending
    /// order.
    pub fn keys_of_uids(&self, uids: &[u32], listed: bool) -> (r: Vec<RuntimeIdentity>)
        ensures
            identities(r@) == ordered(only_uids(self@, uids@.to_set(), listed).dom()),
            identities(r@).to_set() == only_uids(self@, uids@.to_set(), listed).dom(),
    {
        let all = self.keys();
        let ghost ids = identities(all@);
        let mut out: Vec<RuntimeIdentity> = Vec::new();
        let mut i: usize = 0;
        while i < all.len()
            invariant
                i <= all@.len(),
                ids == identities(all@),
                ascending::<RuntimeIdentity>(ids),
                ascending::<RuntimeIdentity>(identities(out@)),
                forall|j: int|
                    0 <= j < out@.len() ==> exists|m: int|
                        0 <= m < i && ids[m] == #[trigger] identities(out@)[j],
                forall|k: Ident| #[trigger]
                    identities(out@).contains(k) <==> ids.take(i as int).contains(k)
                        && uids@.to_set().contains(k.1) == listed,
            decreases all@.len() - i,
        {
            let found = contains_uid(uids, all[i].1);
            assert(ids[i as int] == all@[i as int]@);
            assert(ids.take(i + 1) =~= ids.take(i as int).push(ids[i as int]));
            assert forall|k: Ident| #[trigger]
                ids.take(i + 1).contains(k) <==> ids.take(i as int).contains(k) || k
                    == ids[i as int] by {
                push_members(ids.take(i as int), ids[i as int], k);
            }
            if found == listed {
                let k = copy_identity(&all[i]);
                let ghost done = identities(out@);
                out.push(k);
                proof {
                    assert(identities(out@) =~= done.push(k@));
                    assert forall|a: int, b: int|
                        0 <= a < b < identities(out@).len() implies ident_before(
                        #[trigger] identities(out@)[a],
                        #[trigger] identities(out@)[b],
                    ) by {
                        assert(identities(out@)[a] == done[a]);
                        let m = choose|m: int| 0 <= m < i && ids[m] == done[a];
                        assert(done[a] == ids[m]);
                        if b == done.len() {
                            assert(ident_before(ids[m], ids[i as int]));
                        } else {
                            assert(identities(out@)[b] == done[b]);
                        }
                    }
                    assert forall|j: int| 0 <= j < out@.len() implies exists|m: int|
                        0 <= m < i + 1 && ids[m] == #[trigger] identities(out@)[j] by {
                        if j < done.len() {
                            assert(identities(out@)[j] == done[j]);
                            let m = choose|m: int| 0 <= m < i && ids[m] == done[j];
                            assert(ids[m] == identities(out@)[j]);
                        } else {
                            assert(ids[i as int] == identities(out@)[j]);
                        }
                    }
                    assert forall|x: Ident| #[trigger]
                        identities(out@).contains(x) <==> ids.take(i + 1).contains(x)
                            && uids@.to_set().contains(x.1) == listed by {
                        push_members(done, k@, x);
                    }
                }
            }
            i += 1;
        }
        proof {
            assert(ids.take(i as int) =~= ids);
            let target = only_uids(self@, uids@.to_set(), listed).dom();
            assert forall|k: Ident| identities(out@).to_set().contains(k) <==> target.contains(k) by {
                assert(ids.to_set().contains(k) == self@.contains_key(k));
                assert(identities(out@).contains(k) == identities(out@).to_set().contains(k));
                assert(ids.contains(k) == ids.to_set().contains(k));
            }
            assert(identities(out@).to_set() =~= target);
            ascending_is_in_order::<RuntimeIdentity>(identities(out@));
        }
        out
    }

    /// Keeps the entries whose uid is listed (`listed`), or those whose uid is not.
    pub fn retain_uids(&mut self, uids: &[u32], listed: bool)
        ensures
            final(self)@ == only_uids(old(self)@, uids@.to_set(), listed),
    {
        let ghost m = self@;
        let dropped = self.keys_of_uids(uids, !listed);
        self.remove_all(dropped.as_slice());
        assert(self@ =~= only_uids(m, uids@.to_set(), listed));
    }
}

/// The members of a sequence with one more element.
pub proof fn push_members<T>(s: Seq<T>, x: T, k: T)
    ensures
        s.push(x).contains(k) <==> s.contains(k) || k == x,
{
    if s.contains(k) {
        let j = choose|j: int| 0 <= j < s.len() && s[j] == k;
        assert(s.push(x)[j] == k);
    }
    if k == x {
        assert(s.push(x)[s.len() as int] == k);
    }
    if s.push(x).contains(k) {
        let j = choose|j: int| 0 <= j < s.push(x).len() && s.push(x)[j] == k;
        if j < s.len() {
            assert(s[j] == k);
        }
    }
}

/// The identities of a vector as values.
pub open spec fn identities(v: Seq<RuntimeIdentity>) -> Seq<Ident> {
    views(v)
}

/// The entries whose uid is among `uids`, or those whose uid is not.
pub open spec fn only_uids<V>(m: Map<Ident, V>, uids: Set<u32>, listed: bool) -> Map<Ident, V> {
    Map::new(|k: Ident| m.contains_key(k) && uids.contains(k.1) == listed, |k: Ident| m[k])
}

/// Whether a uid is listed.
pub fn contains_uid(uids: &[u32], uid: u32) -> (r: bool)
    ensures
        r == uids@.contains(uid),
        r == uids@.to_set().contains(uid),
{
    let mut i: usize = 0;
    while i < uids.len()
        invariant
            i <= uids@.len(),
            forall|k: int| 0 <= k < i ==> uids@[k] != uid,
        decreases uids@.len() - i,
    {
        if uids[i] == uid {
            assert(uids@[i as int] == uid);
            return true;
        }
        i += 1;
    }
    false
}

} // verus!
