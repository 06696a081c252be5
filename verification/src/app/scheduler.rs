//! Freezes that wait for their time.

use vstd::prelude::*;

use crate::domain::identity::{
    ident_before, identities, ordered, Ident, IdentityMap, RuntimeIdentity,
};
use crate::domain::ordered::{ascending, finite_set_has_order, MapKey};
use crate::text::copy;

verus! {

/// A freeze that waits for its time.
#[derive(Debug, Clone, PartialEq, Eq)]
pub struct PendingFreeze {
    pub package_name: String,
    pub uid: u32,
    pub due_at_ms: u128,
}

/// A freeze that waits for its time, as a value.
pub ghost struct PendingView {
    pub identity: Ident,
    pub due_at_ms: u128,
}

impl View for PendingFreeze {
    type V = PendingView;

    open spec fn view(&self) -> PendingView {
        PendingView { identity: (self.package_name@, self.uid), due_at_ms: self.due_at_ms }
    }
}

/// Pending freezes as values.
pub open spec fn pending_views(v: Seq<PendingFreeze>) -> Seq<PendingView> {
    v.map_values(|p: PendingFreeze| p@)
}

/// The freezes that wait, at most one for each application.
#[derive(Debug)]
pub struct FreezeScheduler {
    pending: IdentityMap<u128>,
}

impl View for FreezeScheduler {
    type V = Map<Ident, u128>;

    closed spec fn view(&self) -> Map<Ident, u128> {
        self.pending@
    }
}

/// Those of the applications whose time has come, in the same order.
pub open spec fn due_list(m: Map<Ident, u128>, keys: Seq<Ident>, now_ms: u128) -> Seq<PendingView>
    decreases keys.len(),
{
    if keys.len() == 0 {
        seq![]
    } else {
        let rest = due_list(m, keys.drop_last(), now_ms);
        if m[keys.last()] <= now_ms {
            rest.push(PendingView { identity: keys.last(), due_at_ms: m[keys.last()] })
        } else {
            rest
        }
    }
}

/// The freezes whose time has come, by package name and uid.
pub open spec fn due(m: Map<Ident, u128>, now_ms: u128) -> Seq<PendingView> {
    due_list(m, ordered(m.dom()), now_ms)
}

/// The freezes whose time has not come.
pub open spec fn not_due(m: Map<Ident, u128>, now_ms: u128) -> Map<Ident, u128> {
    Map::new(|k: Ident| m.contains_key(k) && m[k] > now_ms, |k: Ident| m[k])
}

impl Default for FreezeScheduler {
    fn default() -> (r: Self)
        ensures
            r@ == Map::<Ident, u128>::empty(),
            r@.dom().finite(),
    {
        FreezeScheduler { pending: IdentityMap::new() }
    }
}

impl FreezeScheduler {
    /// Lets an application freeze after a delay; an earlier plan for it is dropped.
    pub fn schedule_background(&mut self, package_name: &str, uid: u32, now_ms: u128, delay_ms: u64)
        requires
            now_ms + delay_ms <= u128::MAX,
        ensures
            final(self)@ == old(self)@.insert((package_name@, uid), (now_ms + delay_ms) as u128),
            final(self)@.dom().finite(),
    {
        let identity: RuntimeIdentity = (copy(package_name), uid);
        self.pending.insert(identity, now_ms + delay_ms as u128);
    }

    /// Drops the plan for an application.
    pub fn cancel_foreground(&mut self, package_name: &str, uid: u32) -> (r: Option<PendingFreeze>)
        ensures
            final(self)@ == old(self)@.remove((package_name@, uid)),
            final(self)@.dom().finite(),
            match r {
                Some(p) => old(self)@.contains_key((package_name@, uid)) && p@ == (PendingView {
                    identity: (package_name@, uid),
                    due_at_ms: old(self)@[(package_name@, uid)],
                }),
                None => !old(self)@.contains_key((package_name@, uid)),
            },
    {
        let identity: RuntimeIdentity = (copy(package_name), uid);
        match self.pending.remove(&identity) {
            Some(due_at_ms) => Some(
                PendingFreeze { package_name: copy(package_name), uid, due_at_ms },
            ),
            None => None,
        }
    }

    /// Takes out the freezes whose time has come.
    pub fn due_at(&mut self, now_ms: u128) -> (r: Vec<PendingFreeze>)
        ensures
            pending_views(r@) == due(old(self)@, now_ms),
            final(self)@ == not_due(old(self)@, now_ms),
            old(self)@.dom().finite(),
            final(self)@.dom().finite(),
    {
        let ghost m = self@;
        let keys = self.pending.keys();
        let ghost ids = identities(keys@);
        let mut out: Vec<PendingFreeze> = Vec::new();
        let mut taken: Vec<RuntimeIdentity> = Vec::new();
        let mut i: usize = 0;
        assert(pending_views(out@) =~= due_list(m, ids.take(0), now_ms));
        while i < keys.len()
            invariant
                i <= keys@.len(),
                ids == identities(keys@),
                ids.to_set() == m.dom(),
                self@ == m,
                pending_views(out@) == due_list(m, ids.take(i as int), now_ms),
                forall|k: Ident| #[trigger]
                    identities(taken@).contains(k) <==> ids.take(i as int).contains(k) && m[k]
                        <= now_ms,
            decreases keys@.len() - i,
        {
            let ghost k = ids[i as int];
            assert(k == keys@[i as int]@);
            assert(ids.contains(k));
            assert(ids.to_set().contains(k));
            assert(ids.take(i + 1).drop_last() =~= ids.take(i as int));
            assert forall|x: Ident| #[trigger]
                ids.take(i + 1).contains(x) <==> ids.take(i as int).contains(x) || x == k by {
                let t = ids.take(i as int);
                assert(ids.take(i + 1) =~= t.push(k));
                if t.contains(x) {
                    let j = choose|j: int| 0 <= j < t.len() && t[j] == x;
                    assert(t.push(k)[j] == x);
                }
                assert(t.push(k)[t.len() as int] == k);
            }
            match self.pending.get(&keys[i]) {
                Some(due_at_ms) => {
                    let due_at_ms = *due_at_ms;
                    if due_at_ms <= now_ms {
                        let ghost done = pending_views(out@);
                        let p = PendingFreeze {
                            package_name: copy(keys[i].0.as_str()),
                            uid: keys[i].1,
                            due_at_ms,
                        };
                        out.push(p);
                        assert(pending_views(out@) =~= done.push(p@));
                        let ghost before = identities(taken@);
                        let id: RuntimeIdentity = (copy(keys[i].0.as_str()), keys[i].1);
                        taken.push(id);
                        assert(identities(taken@) =~= before.push(k));
                        assert forall|x: Ident| #[trigger]
                            identities(taken@).contains(x) <==> before.contains(x) || x == k by {
                            if before.contains(x) {
                                let j = choose|j: int| 0 <= j < before.len() && before[j] == x;
                                assert(before.push(k)[j] == x);
                            }
                            assert(before.push(k)[before.len() as int] == k);
                        }
                    }
                },
                None => {
                    assert(false);
                },
            }
            i += 1;
        }
        assert(ids.take(i as int) =~= ids);
        self.pending.remove_all(taken.as_slice());
        proof {
            let gone = identities(taken@).to_set();
            assert(self@ == m.remove_keys(gone));
            assert forall|k: Ident| #[trigger] self@.contains_key(k) == not_due(
                m,
                now_ms,
            ).contains_key(k) by {
                assert(gone.contains(k) == identities(taken@).contains(k));
                assert(ids.to_set().contains(k) == ids.contains(k));
                assert(m.contains_key(k) == ids.contains(k));
                assert(self@.contains_key(k) == (m.contains_key(k) && !gone.contains(k)));
            }
            assert forall|k: Ident| #[trigger] self@.contains_key(k) implies self@[k] == m[k] by {
                assert(!gone.contains(k));
            }
            assert(self@ =~= not_due(m, now_ms));
            assert(self@.dom().subset_of(m.dom()));
            vstd::set_lib::lemma_set_subset_finite(m.dom(), self@.dom());
        }
        out
    }
}

/// What stands in the list of due freezes.
proof fn due_list_facts(m: Map<Ident, u128>, keys: Seq<Ident>, now_ms: u128)
    requires
        ascending::<RuntimeIdentity>(keys),
    ensures
        forall|p: PendingView| #[trigger]
            due_list(m, keys, now_ms).contains(p) <==> keys.contains(p.identity) && p.due_at_ms
                == m[p.identity] && p.due_at_ms <= now_ms,
        forall|a: int, b: int|
            0 <= a < b < due_list(m, keys, now_ms).len() ==> ident_before(
                (#[trigger] due_list(m, keys, now_ms)[a]).identity,
                (#[trigger] due_list(m, keys, now_ms)[b]).identity,
            ),
    decreases keys.len(),
{
    let all = due_list(m, keys, now_ms);
    if keys.len() > 0 {
        let fewer = keys.drop_last();
        let last = keys.last();
        assert(ascending::<RuntimeIdentity>(fewer)) by {
            assert forall|i: int, j: int| 0 <= i < j < fewer.len() implies ident_before(
                #[trigger] fewer[i],
                #[trigger] fewer[j],
            ) by {
                assert(<RuntimeIdentity as MapKey>::precedes(keys[i], keys[j]));
            }
        }
        due_list_facts(m, fewer, now_ms);
        let rest = due_list(m, fewer, now_ms);
        let top = PendingView { identity: last, due_at_ms: m[last] };
        assert forall|p: PendingView| #[trigger]
            all.contains(p) <==> keys.contains(p.identity) && p.due_at_ms == m[p.identity]
                && p.due_at_ms <= now_ms by {
            assert(keys.contains(p.identity) <==> fewer.contains(p.identity) || p.identity == last)
                by {
                assert(keys =~= fewer.push(last));
                if fewer.contains(p.identity) {
                    let k = choose|k: int| 0 <= k < fewer.len() && fewer[k] == p.identity;
                    assert(keys[k] == p.identity);
                }
                assert(keys[keys.len() - 1] == last);
            }
            if m[last] <= now_ms {
                assert(all == rest.push(top));
                assert(all.contains(p) <==> rest.contains(p) || p == top) by {
                    if rest.contains(p) {
                        let k = choose|k: int| 0 <= k < rest.len() && rest[k] == p;
                        assert(all[k] == p);
                    }
                    assert(all[all.len() - 1] == top);
                }
            }
        }
        assert forall|a: int, b: int| 0 <= a < b < all.len() implies ident_before(
            (#[trigger] all[a]).identity,
            (#[trigger] all[b]).identity,
        ) by {
            if m[last] <= now_ms {
                assert(all == rest.push(top));
                assert(rest.contains(rest[a]));
                if b == rest.len() {
                    let k = choose|k: int| 0 <= k < fewer.len() && fewer[k] == rest[a].identity;
                    assert(keys[k] == rest[a].identity && keys[keys.len() - 1] == last);
                    assert(<RuntimeIdentity as MapKey>::precedes(keys[k], keys[keys.len() - 1]));
                }
            }
        }
    } else {
        assert(all =~= seq![]);
    }
}

/// Taking out what is due gives exactly the freezes whose time has come, by package name and
/// uid, and leaves exactly the others as they are. What was taken out does not come again at
/// any later time, unless it is planned anew.
pub proof fn due_freezes_are_claimed_once(m: Map<Ident, u128>, now_ms: u128, later_ms: u128)
    requires
        m.dom().finite(),
    ensures
        forall|p: PendingView| #[trigger]
            due(m, now_ms).contains(p) <==> m.contains_key(p.identity) && m[p.identity]
                == p.due_at_ms && p.due_at_ms <= now_ms,
        forall|a: int, b: int|
            0 <= a < b < due(m, now_ms).len() ==> ident_before(
                (#[trigger] due(m, now_ms)[a]).identity,
                (#[trigger] due(m, now_ms)[b]).identity,
            ),
        forall|k: Ident| #[trigger]
            not_due(m, now_ms).contains_key(k) <==> m.contains_key(k) && m[k] > now_ms,
        forall|k: Ident| #[trigger]
            not_due(m, now_ms).contains_key(k) ==> not_due(m, now_ms)[k] == m[k],
        forall|p: PendingView| #[trigger]
            due(not_due(m, now_ms), later_ms).contains(p) ==> p.due_at_ms > now_ms && !due(
                m,
                now_ms,
            ).contains(p),
        due(not_due(m, now_ms), now_ms) == Seq::<PendingView>::empty(),
{
    let rest = not_due(m, now_ms);
    assert(rest.dom().subset_of(m.dom()));
    vstd::set_lib::lemma_set_subset_finite(m.dom(), rest.dom());
    due_facts(m, now_ms);
    due_facts(rest, later_ms);
    due_facts(rest, now_ms);
    let none = due(rest, now_ms);
    if none.len() > 0 {
        assert(none.contains(none[0]));
    }
    assert(none =~= seq![]);
}

proof fn due_facts(m: Map<Ident, u128>, now_ms: u128)
    requires
        m.dom().finite(),
    ensures
        forall|p: PendingView| #[trigger]
            due(m, now_ms).contains(p) <==> m.contains_key(p.identity) && m[p.identity]
                == p.due_at_ms && p.due_at_ms <= now_ms,
        forall|a: int, b: int|
            0 <= a < b < due(m, now_ms).len() ==> ident_before(
                (#[trigger] due(m, now_ms)[a]).identity,
                (#[trigger] due(m, now_ms)[b]).identity,
            ),
{
    finite_set_has_order::<RuntimeIdentity>(m.dom());
    let keys = ordered(m.dom());
    due_list_facts(m, keys, now_ms);
    assert forall|k: Ident| keys.contains(k) == m.contains_key(k) by {
        assert(keys.to_set().contains(k) == m.dom().contains(k));
    }
}

} // verus!
