//! What the controller keeps between passes.

use std::collections::{BTreeMap, BTreeSet};
use vstd::multiset::Multiset;
use vstd::prelude::*;

use crate::app::controller::transaction::FrozenOwnership;
use crate::app::download_deferral::{DownloadDeferral, Sample};
use crate::app::operation_log::{logged, OperationLog, OperationLogView};
use crate::domain::identity::{
    copy_identity, identities, only_uids, Ident, IdentityMap, RuntimeIdentity,
};
use crate::domain::operation::{ControlOperation, OperationView};
use crate::domain::runtime::{process_views, ProcessView, RuntimeProcess};
use crate::domain::uids::{insert_rising, rising, uid_list};
use crate::text::{copy, same};

verus! {

broadcast use {vstd::std_specs::btree::group_btree_axioms, vstd::laws_cmp::group_laws_cmp};

/// What tells one set of processes from another: pid, package and start time.
pub type ProcessSignature = Vec<(i32, String, Option<u64>)>;

/// One process in a signature.
pub type SignatureEntry = (i32, Seq<char>, Option<u64>);

/// The entries of a signature.
pub open spec fn signature_entries(s: Seq<(i32, String, Option<u64>)>) -> Seq<SignatureEntry> {
    s.map_values(|e: (i32, String, Option<u64>)| (e.0, e.1@, e.2))
}

/// The signature of a list of processes. The order of the list does not matter.
pub open spec fn signature(ps: Seq<ProcessView>) -> Multiset<SignatureEntry> {
    ps.map_values(|p: ProcessView| (p.pid, p.package_name, p.start_time_ticks)).to_multiset()
}

/// The state of the controller.
#[derive(Debug)]
pub struct RuntimeControlState {
    pub operation_log: OperationLog,
    /// The identities that are frozen.
    pub frozen_apps: IdentityMap<()>,
    /// Since when an identity is frozen.
    pub frozen_since_ms: IdentityMap<u128>,
    /// Which freezers hold an identity.
    pub frozen_ownership: IdentityMap<FrozenOwnership>,
    /// When a postponed freeze is due.
    pub pending_freezes: IdentityMap<u128>,
    /// The uids whose network is to be restricted.
    pub network_restriction_requests: BTreeSet<u32>,
    pub next_operation_id: u64,
    /// The displayed state of a uid, and since when it is displayed.
    pub status_since_ms: BTreeMap<u32, (i32, u128)>,
    /// The processes for which control was refused.
    pub blocked_process_signatures: IdentityMap<ProcessSignature>,
    pub download_deferral: DownloadDeferral,
    pub audit_started_at_ms: Option<u128>,
    pub next_refreeze_audit_at_ms: Option<u128>,
}

/// The state of the controller as a value.
#[verifier::ext_equal]
pub ghost struct ControlView {
    pub log: OperationLogView,
    pub frozen: Set<Ident>,
    pub since: Map<Ident, u128>,
    pub ownership: Map<Ident, FrozenOwnership>,
    pub pending: Map<Ident, u128>,
    pub network: Set<u32>,
    pub next_id: u64,
    pub status: Map<u32, (i32, u128)>,
    pub blocked: Map<Ident, Multiset<SignatureEntry>>,
    pub samples: Map<u32, Sample>,
    pub audit_start: Option<u128>,
    pub next_audit: Option<u128>,
}

/// The refused processes by identity as values.
pub open spec fn blocked_view(m: Map<Ident, ProcessSignature>) -> Map<
    Ident,
    Multiset<SignatureEntry>,
> {
    Map::new(
        |k: Ident| m.contains_key(k),
        |k: Ident| signature_entries(m[k]@).to_multiset(),
    )
}

impl View for RuntimeControlState {
    type V = ControlView;

    open spec fn view(&self) -> ControlView {
        ControlView {
            log: self.operation_log@,
            frozen: self.frozen_apps@.dom(),
            since: self.frozen_since_ms@,
            ownership: self.frozen_ownership@,
            pending: self.pending_freezes@,
            network: self.network_restriction_requests@,
            next_id: self.next_operation_id,
            status: self.status_since_ms@,
            blocked: blocked_view(self.blocked_process_signatures@),
            samples: self.download_deferral@,
            audit_start: self.audit_started_at_ms,
            next_audit: self.next_refreeze_audit_at_ms,
        }
    }
}

// ---------------------------------------------------------------------------
// The state as it changes
// ---------------------------------------------------------------------------

/// The state before the first pass.
pub open spec fn initial_state() -> ControlView {
    ControlView {
        log: OperationLogView { capacity: 128, records: seq![] },
        frozen: Set::empty(),
        since: Map::empty(),
        ownership: Map::empty(),
        pending: Map::empty(),
        network: Set::empty(),
        next_id: 1,
        status: Map::empty(),
        blocked: Map::empty(),
        samples: Map::empty(),
        audit_start: None,
        next_audit: None,
    }
}

/// Which freezers hold an identity; unknown where nothing is recorded.
pub open spec fn owner(s: ControlView, id: Ident) -> FrozenOwnership {
    if s.ownership.contains_key(id) {
        s.ownership[id]
    } else {
        FrozenOwnership::ResidualUnknown
    }
}

/// Whether the freezers that hold an identity are unknown: so recorded, or frozen without a
/// record.
pub open spec fn unknown_owner(s: ControlView, id: Ident) -> bool {
    if s.ownership.contains_key(id) {
        s.ownership[id] == FrozenOwnership::ResidualUnknown
    } else {
        s.frozen.contains(id)
    }
}

/// Whether other freezers than a signal may hold an identity.
pub open spec fn unresolved(s: ControlView, id: Ident) -> bool {
    if s.ownership.contains_key(id) {
        s.ownership[id] != FrozenOwnership::SignalOnly
    } else {
        s.frozen.contains(id)
    }
}

/// An identity is frozen. Unknown freezers stay unknown; the time of an earlier freeze stays.
pub open spec fn track(
    s: ControlView,
    id: Ident,
    at: u128,
    ownership: FrozenOwnership,
) -> ControlView {
    ControlView {
        frozen: s.frozen.insert(id),
        since: if s.since.contains_key(id) {
            s.since
        } else {
            s.since.insert(id, at)
        },
        ownership: s.ownership.insert(
            id,
            if unknown_owner(s, id) {
                FrozenOwnership::ResidualUnknown
            } else {
                ownership
            },
        ),
        ..s
    }
}

/// An identity is no longer frozen.
pub open spec fn cleared(s: ControlView, id: Ident) -> ControlView {
    ControlView {
        frozen: s.frozen.remove(id),
        since: s.since.remove(id),
        ownership: s.ownership.remove(id),
        ..s
    }
}

/// A frozen identity was seen running: it is to be frozen again, and what else holds it is
/// unknown unless it was a signal alone.
pub open spec fn seen_running(s: ControlView, id: Ident) -> ControlView {
    ControlView {
        frozen: s.frozen.remove(id),
        since: s.since.remove(id),
        ownership: s.ownership.insert(
            id,
            if owner(s, id) == FrozenOwnership::SignalOnly {
                FrozenOwnership::SignalOnly
            } else {
                FrozenOwnership::ResidualUnknown
            },
        ),
        ..s
    }
}

/// Forgets the freezers of the identities in `ids` that are not frozen.
pub open spec fn without_detached(s: ControlView, ids: Set<Ident>) -> ControlView {
    ControlView {
        ownership: Map::new(
            |k: Ident| s.ownership.contains_key(k) && !(ids.contains(k) && !s.frozen.contains(k)),
            |k: Ident| s.ownership[k],
        ),
        ..s
    }
}

/// Forgets the time of an identity that is not frozen.
pub open spec fn without_stale_time(s: ControlView, id: Ident) -> ControlView {
    if s.frozen.contains(id) {
        s
    } else {
        ControlView { since: s.since.remove(id), ..s }
    }
}

/// Forgets what is kept for a uid only while its processes live.
pub open spec fn transient_cleared(s: ControlView, uid: u32) -> ControlView {
    ControlView {
        pending: only_uids(s.pending, set![uid], false),
        network: s.network.remove(uid),
        blocked: only_uids(s.blocked, set![uid], false),
        samples: s.samples.remove(uid),
        status: s.status.remove(uid),
        ..s
    }
}

/// When the postponed freeze of an identity is due.
pub open spec fn pending_due(s: ControlView, id: Ident) -> Option<u128> {
    if s.pending.contains_key(id) {
        Some(s.pending[id])
    } else {
        None
    }
}

/// The freeze of an identity is due at a time.
pub open spec fn postponed(s: ControlView, id: Ident, due: u128) -> ControlView {
    ControlView { pending: s.pending.insert(id, due), ..s }
}

/// No freeze of an identity is due.
pub open spec fn not_pending(s: ControlView, id: Ident) -> ControlView {
    ControlView { pending: s.pending.remove(id), ..s }
}

/// Control of the processes with a signature was refused.
pub open spec fn blocked(s: ControlView, id: Ident, sig: Multiset<SignatureEntry>) -> ControlView {
    ControlView { blocked: s.blocked.insert(id, sig), ..s }
}

/// Whether control of the processes with a signature was refused.
pub open spec fn is_blocked(s: ControlView, id: Ident, sig: Multiset<SignatureEntry>) -> bool {
    s.blocked.contains_key(id) && s.blocked[id] == sig
}

/// No refusal is kept for an identity.
pub open spec fn unblocked(s: ControlView, id: Ident) -> ControlView {
    ControlView { blocked: s.blocked.remove(id), ..s }
}

/// The number after `n`.
pub open spec fn next_operation_number(n: u64) -> u64 {
    if n == u64::MAX {
        0
    } else {
        (n + 1) as u64
    }
}

/// An operation takes the next number and the time, and is logged.
pub open spec fn recorded(s: ControlView, operation: OperationView, at: u128) -> ControlView {
    ControlView {
        log: logged(
            s.log,
            OperationView { operation_id: s.next_id, timestamp_ms: at, ..operation },
        ),
        next_id: next_operation_number(s.next_id),
        ..s
    }
}

// ---------------------------------------------------------------------------
// Laws
// ---------------------------------------------------------------------------

/// Frozen identities have a time and an owner, and no other identity has a time.
pub open spec fn in_step(s: ControlView) -> bool {
    &&& s.since.dom() == s.frozen
    &&& s.frozen.subset_of(s.ownership.dom())
}

/// A change that leaves the audit times alone and keeps a state in step.
pub open spec fn sound_change(a: ControlView, b: ControlView) -> bool {
    &&& b.audit_start == a.audit_start
    &&& b.next_audit == a.next_audit
    &&& in_step(a) ==> in_step(b)
}

/// Tracking, clearing, finding an identity running and forgetting detached owners keep the
/// set of frozen identities, their times and their owners in step.
pub proof fn tracking_stays_in_step(s: ControlView, id: Ident, at: u128, own: FrozenOwnership, ids: Set<Ident>)
    requires
        in_step(s),
    ensures
        in_step(initial_state()),
        in_step(track(s, id, at, own)),
        in_step(cleared(s, id)),
        in_step(seen_running(s, id)),
        in_step(without_detached(s, ids)),
        in_step(without_stale_time(s, id)),
{
    assert(initial_state().since.dom() =~= Set::empty());
    assert(track(s, id, at, own).since.dom() =~= track(s, id, at, own).frozen);
    assert(cleared(s, id).since.dom() =~= cleared(s, id).frozen);
    assert(seen_running(s, id).since.dom() =~= seen_running(s, id).frozen);
    assert(without_stale_time(s, id).since.dom() =~= without_stale_time(s, id).frozen);
}

/// Unknown ownership wins: once it is not known which freezers hold an identity, no later
/// freeze makes it known; only clearing the identity does.
pub proof fn unknown_ownership_is_never_downgraded(
    s: ControlView,
    id: Ident,
    at: u128,
    own: FrozenOwnership,
)
    requires
        unknown_owner(s, id),
    ensures
        owner(track(s, id, at, own), id) == FrozenOwnership::ResidualUnknown,
        owner(seen_running(s, id), id) == FrozenOwnership::ResidualUnknown,
        unknown_owner(track(s, id, at, own), id),
        unknown_owner(seen_running(s, id), id),
{
}

/// After an identity is cleared, a freeze of it is tracked as if it had never been frozen.
pub proof fn cleared_identity_is_tracked_afresh(
    s: ControlView,
    id: Ident,
    at: u128,
    own: FrozenOwnership,
)
    ensures
        owner(track(cleared(s, id), id, at, own), id) == own,
        track(cleared(s, id), id, at, own).since[id] == at,
        !cleared(s, id).frozen.contains(id),
{
}

/// Operations on one identity leave every other identity as it is.
pub proof fn other_identities_are_untouched(
    s: ControlView,
    id: Ident,
    other: Ident,
    at: u128,
    own: FrozenOwnership,
)
    requires
        id != other,
    ensures
        track(s, id, at, own).frozen.contains(other) == s.frozen.contains(other),
        owner(track(s, id, at, own), other) == owner(s, other),
        cleared(s, id).frozen.contains(other) == s.frozen.contains(other),
        owner(cleared(s, id), other) == owner(s, other),
        seen_running(s, id).frozen.contains(other) == s.frozen.contains(other),
        owner(seen_running(s, id), other) == owner(s, other),
{
}

// ---------------------------------------------------------------------------
// The executable state
// ---------------------------------------------------------------------------

impl Default for RuntimeControlState {
    fn default() -> (r: Self)
        ensures
            r@ == initial_state(),
    {
        let r = RuntimeControlState {
            operation_log: OperationLog::new(128),
            frozen_apps: IdentityMap::new(),
            frozen_since_ms: IdentityMap::new(),
            frozen_ownership: IdentityMap::new(),
            pending_freezes: IdentityMap::new(),
            network_restriction_requests: BTreeSet::new(),
            next_operation_id: 1,
            status_since_ms: BTreeMap::new(),
            blocked_process_signatures: IdentityMap::new(),
            download_deferral: DownloadDeferral::default(),
            audit_started_at_ms: None,
            next_refreeze_audit_at_ms: None,
        };
        assert(r@ =~= initial_state());
        r
    }
}

impl RuntimeControlState {
    /// Notes that an identity is frozen.
    pub fn track_frozen(
        &mut self,
        identity: RuntimeIdentity,
        timestamp_ms: u128,
        ownership: FrozenOwnership,
    )
        ensures
            sound_change(old(self)@, final(self)@),
            final(self)@ == track(old(self)@, identity@, timestamp_ms, ownership),
    {
        let ghost s0 = self@;
        let ghost given = ownership;
        let unknown = match self.frozen_ownership.get(&identity) {
            Some(known) => *known == FrozenOwnership::ResidualUnknown,
            None => self.frozen_apps.contains(&identity),
        };
        let ownership = if unknown {
            FrozenOwnership::ResidualUnknown
        } else {
            ownership
        };
        self.frozen_apps.insert(copy_identity(&identity), ());
        if !self.frozen_since_ms.contains(&identity) {
            self.frozen_since_ms.insert(copy_identity(&identity), timestamp_ms);
        }
        let ghost id = identity@;
        self.frozen_ownership.insert(identity, ownership);
        assert(self@ =~= track(s0, id, timestamp_ms, given));
        proof {
            if in_step(s0) {
                tracking_stays_in_step(s0, id, timestamp_ms, given, set![]);
            }
        }
    }

    /// Which freezers hold an identity.
    pub fn frozen_ownership(&self, identity: &RuntimeIdentity) -> (r: FrozenOwnership)
        ensures
            r == owner(self@, identity@),
    {
        match self.frozen_ownership.get(identity) {
            Some(known) => *known,
            None => FrozenOwnership::ResidualUnknown,
        }
    }

    /// Whether other freezers than a signal may hold an identity.
    pub fn has_unresolved_freeze_ownership(&self, identity: &RuntimeIdentity) -> (r: bool)
        ensures
            r == unresolved(self@, identity@),
    {
        match self.frozen_ownership.get(identity) {
            Some(known) => *known != FrozenOwnership::SignalOnly,
            None => self.frozen_apps.contains(identity),
        }
    }

    /// Notes that an identity is no longer frozen.
    pub fn clear_frozen(&mut self, identity: &RuntimeIdentity)
        ensures
            sound_change(old(self)@, final(self)@),
            final(self)@ == cleared(old(self)@, identity@),
    {
        let ghost s0 = self@;
        self.frozen_apps.remove(identity);
        self.frozen_since_ms.remove(identity);
        self.frozen_ownership.remove(identity);
        assert(self@ =~= cleared(s0, identity@));
        proof {
            if in_step(s0) {
                tracking_stays_in_step(
                    s0,
                    identity@,
                    0,
                    FrozenOwnership::SignalOnly,
                    set![],
                );
            }
        }
    }

    /// Notes that a frozen identity was seen running.
    pub fn mark_abnormal_thaw_for_refreeze(&mut self, identity: &RuntimeIdentity)
        ensures
            sound_change(old(self)@, final(self)@),
            final(self)@ == seen_running(old(self)@, identity@),
    {
        let ghost s0 = self@;
        let ownership = match self.frozen_ownership(identity) {
            FrozenOwnership::SignalOnly => FrozenOwnership::SignalOnly,
            FrozenOwnership::CgroupBinder | FrozenOwnership::ResidualUnknown => {
                FrozenOwnership::ResidualUnknown
            },
        };
        self.frozen_apps.remove(identity);
        self.frozen_since_ms.remove(identity);
        self.frozen_ownership.insert(copy_identity(identity), ownership);
        assert(self@ =~= seen_running(s0, identity@));
        proof {
            if in_step(s0) {
                tracking_stays_in_step(
                    s0,
                    identity@,
                    0,
                    FrozenOwnership::SignalOnly,
                    set![],
                );
            }
        }
    }

    /// Forgets the freezers of an identity that is not frozen.
    pub fn clear_detached_ownership(&mut self, identity: &RuntimeIdentity)
        ensures
            sound_change(old(self)@, final(self)@),
            final(self)@ == without_detached(old(self)@, set![identity@]),
    {
        let ghost s0 = self@;
        if !self.frozen_apps.contains(identity) {
            self.frozen_ownership.remove(identity);
        }
        assert(self@ =~= without_detached(s0, set![identity@]));
    }

    /// Forgets the freezers of the listed identities that are not frozen.
    pub fn clear_detached_ownerships(&mut self, list: &[RuntimeIdentity])
        ensures
            sound_change(old(self)@, final(self)@),
            final(self)@ == without_detached(old(self)@, identities(list@).to_set()),
    {
        let ghost s0 = self@;
        let mut i: usize = 0;
        assert(without_detached(s0, identities(list@).take(0).to_set()) =~= s0);
        while i < list.len()
            invariant
                i <= list@.len(),
                self@ == without_detached(s0, identities(list@).take(i as int).to_set()),
            decreases list@.len() - i,
        {
            let ghost done = identities(list@).take(i as int).to_set();
            let ghost next = identities(list@).take(i + 1).to_set();
            self.clear_detached_ownership(&list[i]);
            proof {
                let id = list@[i as int]@;
                assert(identities(list@).take(i + 1) =~= identities(list@).take(i as int).push(id));
                assert forall|k: Ident| next.contains(k) <==> done.contains(k) || k == id by {
                    let a = identities(list@).take(i as int);
                    let b = identities(list@).take(i + 1);
                    if a.contains(k) {
                        let j = choose|j: int| 0 <= j < a.len() && a[j] == k;
                        assert(b[j] == k);
                    }
                    assert(b[i as int] == id);
                }
                assert(self@ =~= without_detached(s0, next));
            }
            i += 1;
        }
        assert(identities(list@).take(i as int) =~= identities(list@));
    }

    /// Forgets the time of an identity that is not frozen.
    pub fn drop_stale_time(&mut self, identity: &RuntimeIdentity)
        ensures
            sound_change(old(self)@, final(self)@),
            final(self)@ == without_stale_time(old(self)@, identity@),
    {
        let ghost s0 = self@;
        if !self.frozen_apps.contains(identity) {
            self.frozen_since_ms.remove(identity);
        }
        assert(self@ =~= without_stale_time(s0, identity@));
        proof {
            if in_step(s0) {
                tracking_stays_in_step(
                    s0,
                    identity@,
                    0,
                    FrozenOwnership::SignalOnly,
                    set![],
                );
            }
        }
    }

    /// The uids with a postponed freeze, in ascending order.
    pub fn pending_freeze_uids(&self) -> (r: Vec<u32>)
        ensures
            rising(r@),
            forall|uid: u32|
                r@.contains(uid) <==> exists|k: Ident| #[trigger]
                    self@.pending.contains_key(k) && k.1 == uid,
    {
        let keys = self.pending_freezes.keys();
        let ghost ids = identities(keys@);
        let mut out: Vec<u32> = Vec::new();
        let mut i: usize = 0;
        while i < keys.len()
            invariant
                i <= keys@.len(),
                ids == identities(keys@),
                rising(out@),
                forall|uid: u32| #[trigger]
                    out@.to_set().contains(uid) <==> exists|j: int|
                        0 <= j < i && (#[trigger] ids[j]).1 == uid,
            decreases keys@.len() - i,
        {
            let ghost before = out@;
            insert_rising(&mut out, keys[i].1);
            assert(ids[i as int].1 == keys@[i as int].1);
            proof {
                assert forall|uid: u32| #[trigger]
                    out@.to_set().contains(uid) <==> exists|j: int|
                        0 <= j < i + 1 && (#[trigger] ids[j]).1 == uid by {
                    if out@.to_set().contains(uid) {
                        if before.to_set().contains(uid) {
                            let j = choose|j: int| 0 <= j < i && (#[trigger] ids[j]).1 == uid;
                            assert(ids[j].1 == uid);
                        } else {
                            assert(ids[i as int].1 == uid);
                        }
                    }
                    if exists|j: int| 0 <= j < i + 1 && (#[trigger] ids[j]).1 == uid {
                        let j = choose|j: int| 0 <= j < i + 1 && (#[trigger] ids[j]).1 == uid;
                        if j < i {
                            assert(before.to_set().contains(uid));
                        }
                    }
                }
            }
            i += 1;
        }
        proof {
            let dom = self.pending_freezes@.dom();
            assert forall|uid: u32|
                out@.contains(uid) <==> exists|k: Ident| #[trigger]
                    self@.pending.contains_key(k) && k.1 == uid by {
                if out@.contains(uid) {
                    assert(out@.to_set().contains(uid));
                    let j = choose|j: int| 0 <= j < i && (#[trigger] ids[j]).1 == uid;
                    assert(ids.to_set().contains(ids[j]));
                    assert(self@.pending.contains_key(ids[j]));
                }
                if exists|k: Ident| #[trigger] self@.pending.contains_key(k) && k.1 == uid {
                    let k = choose|k: Ident| #[trigger]
                        self@.pending.contains_key(k) && k.1 == uid;
                    assert(ids.to_set().contains(k));
                    let j = choose|j: int| 0 <= j < ids.len() && ids[j] == k;
                    assert(ids[j].1 == uid);
                    assert(out@.to_set().contains(uid));
                }
            }
        }
        out
    }

    /// Takes the uids whose network is to be restricted, in ascending order.
    pub fn take_network_restriction_uids(&mut self) -> (r: Vec<u32>)
        ensures
            sound_change(old(self)@, final(self)@),
            rising(r@),
            r@.to_set() == old(self)@.network,
            final(self)@ == (ControlView { network: Set::empty(), ..old(self)@ }),
    {
        let ghost s0 = self@;
        let out = uid_list(&self.network_restriction_requests);
        self.network_restriction_requests = BTreeSet::new();
        assert(self@ =~= (ControlView { network: Set::empty(), ..s0 }));
        out
    }

    /// Asks again for the restriction of a uid's network.
    pub fn requeue_network_restriction_uid(&mut self, uid: u32)
        ensures
            sound_change(old(self)@, final(self)@),
            final(self)@ == (ControlView { network: old(self)@.network.insert(uid), ..old(self)@ }),
    {
        let ghost s0 = self@;
        self.network_restriction_requests.insert(uid);
        assert(self@ =~= (ControlView { network: s0.network.insert(uid), ..s0 }));
    }

    /// Forgets what is kept for a uid only while its processes live.
    pub fn clear_transient_control_state_for_uid(&mut self, uid: u32)
        ensures
            sound_change(old(self)@, final(self)@),
            final(self)@ == transient_cleared(old(self)@, uid),
    {
        let ghost s0 = self@;
        let uids = [uid];
        assert(uids@.to_set() =~= set![uid]) by {
            assert(uids@[0] == uid);
        }
        self.pending_freezes.retain_uids(&uids, false);
        self.network_restriction_requests.remove(&uid);
        self.blocked_process_signatures.retain_uids(&uids, false);
        self.download_deferral.clear_uid(uid);
        self.status_since_ms.remove(&uid);
        assert(self@.blocked =~= only_uids(s0.blocked, set![uid], false));
        assert(self@ =~= transient_cleared(s0, uid));
    }

    /// Postpones the freeze of an identity and returns the earlier due time.
    pub fn postpone(&mut self, identity: &RuntimeIdentity, due_at_ms: u128) -> (r: Option<u128>)
        ensures
            sound_change(old(self)@, final(self)@),
            final(self)@ == postponed(old(self)@, identity@, due_at_ms),
            r == pending_due(old(self)@, identity@),
    {
        let ghost s0 = self@;
        let previous = self.pending_freezes.insert(copy_identity(identity), due_at_ms);
        assert(self@ =~= postponed(s0, identity@, due_at_ms));
        previous
    }

    /// Forgets the postponed freeze of an identity.
    pub fn drop_pending(&mut self, identity: &RuntimeIdentity)
        ensures
            sound_change(old(self)@, final(self)@),
            final(self)@ == not_pending(old(self)@, identity@),
    {
        let ghost s0 = self@;
        self.pending_freezes.remove(identity);
        assert(self@ =~= not_pending(s0, identity@));
    }

    /// Notes that control of these processes was refused.
    pub fn block(&mut self, identity: &RuntimeIdentity, processes: &[RuntimeProcess])
        ensures
            sound_change(old(self)@, final(self)@),
            final(self)@ == blocked(
                old(self)@,
                identity@,
                signature(process_views(processes@)),
            ),
    {
        let ghost s0 = self@;
        let sig = process_signature(processes);
        self.blocked_process_signatures.insert(copy_identity(identity), sig);
        assert(self@.blocked =~= s0.blocked.insert(
            identity@,
            signature(process_views(processes@)),
        ));
        assert(self@ =~= blocked(s0, identity@, signature(process_views(processes@))));
    }

    /// Whether control of exactly these processes was refused; a refusal of other processes
    /// of the identity is forgotten.
    pub fn still_blocked(&mut self, identity: &RuntimeIdentity, processes: &[RuntimeProcess]) -> (r:
        bool)
        ensures
            sound_change(old(self)@, final(self)@),
            r == is_blocked(old(self)@, identity@, signature(process_views(processes@))),
            final(self)@ == if r {
                old(self)@
            } else {
                unblocked(old(self)@, identity@)
            },
    {
        let ghost s0 = self@;
        let sig = process_signature(processes);
        let same_processes = match self.blocked_process_signatures.get(identity) {
            Some(refused) => same_signature(refused, &sig),
            None => false,
        };
        if !same_processes {
            self.blocked_process_signatures.remove(identity);
            assert(self@.blocked =~= s0.blocked.remove(identity@));
            assert(self@ =~= unblocked(s0, identity@));
        }
        same_processes
    }

    /// Gives an operation its number and time, and logs it.
    pub fn record_operation(&mut self, operation: ControlOperation, timestamp_ms: u128)
        ensures
            sound_change(old(self)@, final(self)@),
            final(self)@ == recorded(old(self)@, operation@, timestamp_ms),
    {
        let ghost s0 = self@;
        let mut operation = operation;
        let ghost given = operation@;
        operation.operation_id = self.next_operation_id;
        operation.timestamp_ms = timestamp_ms;
        self.next_operation_id =
        if self.next_operation_id == u64::MAX {
            0
        } else {
            self.next_operation_id + 1
        };
        self.operation_log.push(operation);
        assert(self@ =~= recorded(s0, given, timestamp_ms));
    }
}

/// The signature of a list of processes.
pub fn process_signature(processes: &[RuntimeProcess]) -> (r: ProcessSignature)
    ensures
        signature_entries(r@).to_multiset() == signature(process_views(processes@)),
{
    let ghost ps = process_views(processes@);
    let ghost entries = ps.map_values(
        |p: ProcessView| (p.pid, p.package_name, p.start_time_ticks),
    );
    let mut out: ProcessSignature = Vec::new();
    let mut i: usize = 0;
    while i < processes.len()
        invariant
            i <= processes@.len(),
            ps == process_views(processes@),
            entries == ps.map_values(
                |p: ProcessView| (p.pid, p.package_name, p.start_time_ticks),
            ),
            signature_entries(out@) == entries.take(i as int),
        decreases processes@.len() - i,
    {
        let p = &processes[i];
        let entry = (p.pid, copy(p.package_name.as_str()), p.start_time_ticks);
        let ghost done = signature_entries(out@);
        out.push(entry);
        assert(signature_entries(out@) =~= done.push((entry.0, entry.1@, entry.2)));
        assert(ps[i as int] == p@);
        assert(entries.take(i + 1) =~= entries.take(i as int).push(entries[i as int]));
        i += 1;
    }
    assert(entries.take(i as int) =~= entries);
    out
}

/// Whether one entry of a signature equals another.
fn same_entry(a: &(i32, String, Option<u64>), b: &(i32, String, Option<u64>)) -> (r: bool)
    ensures
        r == ((a.0, a.1@, a.2) == (b.0, b.1@, b.2)),
{
    let same_start = match (a.2, b.2) {
        (Some(x), Some(y)) => x == y,
        (None, None) => true,
        _ => false,
    };
    a.0 == b.0 && same_start && same(a.1.as_str(), b.1.as_str())
}

/// Whether two signatures have the same processes, in any order.
fn same_signature(a: &ProcessSignature, b: &ProcessSignature) -> (r: bool)
    ensures
        r == (signature_entries(a@).to_multiset() == signature_entries(b@).to_multiset()),
{
    broadcast use vstd::seq_lib::group_to_multiset_ensures;

    let ghost x = signature_entries(a@);
    let ghost y = signature_entries(b@);
    if a.len() != b.len() {
        assert(x.to_multiset().len() == x.len());
        assert(y.to_multiset().len() == y.len());
        return false;
    }
    // Strike the entries of `a` from a list of the positions of `b`.
    let mut left: Vec<usize> = Vec::new();
    let mut i: usize = 0;
    while i < b.len()
        invariant
            i <= b@.len(),
            y == signature_entries(b@),
            left@.len() == i,
            forall|j: int| 0 <= j < i ==> left@[j] == j,
        decreases b@.len() - i,
    {
        left.push(i);
        i += 1;
    }
    let ghost mut rest = left@.map_values(|j: usize| y[j as int]);
    assert(rest =~= y);
    assert(x.take(0) =~= seq![]);
    assert(x.take(0).to_multiset() =~= Multiset::empty());
    assert(x.take(0).to_multiset().add(rest.to_multiset()) =~= y.to_multiset());
    i = 0;
    while i < a.len()
        invariant
            i <= a@.len(),
            a@.len() == b@.len(),
            left@.len() == a@.len() - i,
            x == signature_entries(a@),
            y == signature_entries(b@),
            forall|j: int| 0 <= j < left@.len() ==> left@[j] < b@.len(),
            rest == left@.map_values(|j: usize| y[j as int]),
            x.take(i as int).to_multiset().add(rest.to_multiset()) == y.to_multiset(),
        decreases a@.len() - i,
    {
        let mut k: usize = 0;
        while k < left.len() && !same_entry(&a[i], &b[left[k]])
            invariant
                i < a@.len(),
                k <= left@.len(),
                x == signature_entries(a@),
                y == signature_entries(b@),
                forall|j: int| 0 <= j < left@.len() ==> left@[j] < b@.len(),
                rest == left@.map_values(|j: usize| y[j as int]),
                forall|j: int| 0 <= j < k ==> rest[j] != x[i as int],
            decreases left@.len() - k,
        {
            assert(rest[k as int] == y[left@[k as int] as int]);
            k += 1;
        }
        let ghost e = x[i as int];
        assert(x.take(i + 1) =~= x.take(i as int).push(e));
        if k >= left.len() {
            proof {
                assert(!rest.contains(e));
                vstd::seq_lib::to_multiset_contains(rest, e);
                vstd::seq_lib::to_multiset_build(x.take(i as int), e);
                assert(rest.to_multiset().count(e) == 0);
                assert(y.to_multiset().count(e) == x.take(i as int).to_multiset().count(e));
                prefix_count(x, i + 1, e);
                assert(x.take(i + 1).to_multiset().count(e) == x.take(
                    i as int,
                ).to_multiset().count(e) + 1);
            }
            return false;
        }
        proof {
            let shorter = left@.remove(k as int).map_values(|j: usize| y[j as int]);
            assert(shorter =~= rest.remove(k as int));
            assert(rest[k as int] == e);
            vstd::seq_lib::to_multiset_remove(rest, k as int);
            vstd::seq_lib::to_multiset_contains(rest, e);
            vstd::seq_lib::to_multiset_build(x.take(i as int), e);
            assert(rest.to_multiset() =~= shorter.to_multiset().insert(e));
            assert(x.take(i + 1).to_multiset() =~= x.take(i as int).to_multiset().insert(e));
            assert(x.take(i + 1).to_multiset().add(shorter.to_multiset()) =~= x.take(
                i as int,
            ).to_multiset().add(rest.to_multiset()));
            rest = shorter;
        }
        left.remove(k);
        i += 1;
    }
    assert(x.take(i as int) =~= x);
    assert(rest =~= seq![]);
    assert(x.to_multiset().add(rest.to_multiset()) =~= x.to_multiset());
    true
}

proof fn prefix_count(s: Seq<SignatureEntry>, n: int, e: SignatureEntry)
    requires
        0 <= n <= s.len(),
    ensures
        s.take(n).to_multiset().count(e) <= s.to_multiset().count(e),
    decreases s.len() - n,
{
    broadcast use vstd::seq_lib::group_to_multiset_ensures;

    if n < s.len() {
        prefix_count(s, n + 1, e);
        assert(s.take(n + 1) =~= s.take(n).push(s[n]));
    } else {
        assert(s.take(n) =~= s);
    }
}

} // verus!
