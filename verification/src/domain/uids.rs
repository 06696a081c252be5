//! Sets of uids and maps keyed by uid.

use std::collections::{BTreeMap, BTreeSet};
use vstd::prelude::*;

use crate::domain::identity::contains_uid;

verus! {

broadcast use {
    vstd::seq_lib::group_seq_properties,
    vstd::std_specs::btree::group_btree_axioms,
    vstd::laws_cmp::group_laws_cmp,
};

/// Strictly ascending uids.
pub open spec fn rising(s: Seq<u32>) -> bool {
    forall|i: int, j: int| 0 <= i < j < s.len() ==> s[i] < s[j]
}

/// Adds a uid to an ascending list, unless it is already there.
pub fn insert_rising(list: &mut Vec<u32>, uid: u32)
    requires
        rising(old(list)@),
    ensures
        rising(final(list)@),
        final(list)@.to_set() == old(list)@.to_set().insert(uid),
{
    let ghost before = list@;
    let mut i: usize = 0;
    while i < list.len() && list[i] < uid
        invariant
            i <= list@.len(),
            list@ == before,
            rising(before),
            forall|k: int| 0 <= k < i ==> list@[k] < uid,
        decreases list@.len() - i,
    {
        i += 1;
    }
    if i < list.len() && list[i] == uid {
        assert(before.to_set().contains(before[i as int]));
        assert(before.to_set() =~= before.to_set().insert(uid));
        return;
    }
    list.insert(i, uid);
    proof {
        let after = list@;
        assert(after == before.insert(i as int, uid));
        assert forall|u: u32| after.to_set().contains(u) <==> before.to_set().insert(uid).contains(u)
            by {
            if before.contains(u) {
                let k = choose|k: int| 0 <= k < before.len() && before[k] == u;
                assert(after[if k < i { k } else { k + 1 }] == u);
            }
            if u == uid {
                assert(after[i as int] == u);
            }
            if after.contains(u) {
                let k = choose|k: int| 0 <= k < after.len() && after[k] == u;
                if k != i {
                    assert(before[if k < i { k } else { k - 1 }] == u);
                }
            }
        }
        assert(after.to_set() =~= before.to_set().insert(uid));
    }
}

/// The uids of a set in ascending order.
pub fn uid_list(set: &BTreeSet<u32>) -> (r: Vec<u32>)
    ensures
        rising(r@),
        r@.to_set() == set@,
{
    let mut out: Vec<u32> = Vec::new();
    for uid in it: set.iter()
        invariant
            rising(out@),
            out@.to_set() == it.seq().unref().take(it.index() as int).to_set(),
    {
        insert_rising(&mut out, *uid);
        assert(it.seq().unref().take(it.index() + 1) =~= it.seq().unref().take(
            it.index() as int,
        ).push(*uid));
        assert(out@.to_set() =~= it.seq().unref().take(it.index() + 1).to_set());
    }
    out
}

/// The keys of a map in ascending order.
pub fn key_list<V>(map: &BTreeMap<u32, V>) -> (r: Vec<u32>)
    ensures
        rising(r@),
        r@.to_set() == map@.dom(),
{
    let mut out: Vec<u32> = Vec::new();
    for uid in it: map.keys()
        invariant
            rising(out@),
            out@.to_set() == it.seq().unref().take(it.index() as int).to_set(),
    {
        insert_rising(&mut out, *uid);
        assert(it.seq().unref().take(it.index() + 1) =~= it.seq().unref().take(
            it.index() as int,
        ).push(*uid));
        assert(out@.to_set() =~= it.seq().unref().take(it.index() + 1).to_set());
    }
    out
}

/// The set of listed uids.
pub fn uid_set(uids: &[u32]) -> (r: BTreeSet<u32>)
    ensures
        r@ == uids@.to_set(),
{
    let mut out: BTreeSet<u32> = BTreeSet::new();
    let mut i: usize = 0;
    while i < uids.len()
        invariant
            i <= uids@.len(),
            out@ == uids@.take(i as int).to_set(),
        decreases uids@.len() - i,
    {
        out.insert(uids[i]);
        assert(uids@.take(i + 1) =~= uids@.take(i as int).push(uids@[i as int]));
        assert(out@ =~= uids@.take(i + 1).to_set());
        i += 1;
    }
    assert(uids@.take(i as int) =~= uids@);
    out
}

/// Keeps the members that are listed.
pub fn retain_listed(set: &mut BTreeSet<u32>, uids: &[u32])
    ensures
        final(set)@ == old(set)@.intersect(uids@.to_set()),
{
    let members = uid_list(set);
    let ghost all = set@;
    let mut i: usize = 0;
    while i < members.len()
        invariant
            i <= members@.len(),
            members@.to_set() == all,
            forall|u: u32|
                set@.contains(u) <==> all.contains(u) && (uids@.to_set().contains(u)
                    || !members@.take(i as int).contains(u)),
        decreases members@.len() - i,
    {
        let uid = members[i];
        let keep = contains_uid(uids, uid);
        if !keep {
            set.remove(&uid);
        }
        assert(members@.take(i + 1) =~= members@.take(i as int).push(uid));
        i += 1;
    }
    assert(members@.take(i as int) =~= members@);
    assert forall|u: u32| set@.contains(u) == all.intersect(uids@.to_set()).contains(u) by {
        if all.contains(u) {
            assert(members@.to_set().contains(u));
        }
    }
    assert(set@ =~= all.intersect(uids@.to_set()));
}

/// The entries at the listed keys.
pub open spec fn at_listed<V>(m: Map<u32, V>, uids: Set<u32>) -> Map<u32, V> {
    m.restrict(uids)
}

/// Keeps the entries whose key is listed.
pub fn retain_listed_keys<V>(map: &mut BTreeMap<u32, V>, uids: &[u32])
    ensures
        final(map)@ == at_listed(old(map)@, uids@.to_set()),
{
    let members = key_list(map);
    let ghost all = map@;
    let mut i: usize = 0;
    while i < members.len()
        invariant
            i <= members@.len(),
            members@.to_set() == all.dom(),
            forall|u: u32|
                map@.contains_key(u) <==> all.contains_key(u) && (uids@.to_set().contains(u)
                    || !members@.take(i as int).contains(u)),
            forall|u: u32| map@.contains_key(u) ==> map@[u] == all[u],
        decreases members@.len() - i,
    {
        let uid = members[i];
        let keep = contains_uid(uids, uid);
        if !keep {
            map.remove(&uid);
        }
        assert(members@.take(i + 1) =~= members@.take(i as int).push(uid));
        i += 1;
    }
    assert(members@.take(i as int) =~= members@);
    assert forall|u: u32| map@.contains_key(u) == at_listed(all, uids@.to_set()).contains_key(u) by {
        if all.contains_key(u) {
            assert(members@.to_set().contains(u));
        }
    }
    assert(map@ =~= at_listed(all, uids@.to_set()));
}

} // verus!
