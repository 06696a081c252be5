//! One round of the control loop: the pass, and what the manager is shown of it.

use std::collections::BTreeMap;
use vstd::prelude::*;
use vstd::string::*;

use crate::app::controller::carry::failure_of;
use crate::app::controller::entry::{thaw_all, thaw_all_on};
use crate::app::controller::pass::{controlled, pass_from, run_pass, PassContext, PassInput};
use crate::app::controller::port::{extends, proceeded, ControlBackend, Effect};
use crate::app::controller::recovery::managed_uids;
use crate::app::controller::rules::{well_timed, LATEST_TIMESTAMP_MS};
use crate::app::controller::startup::{push_operations, with_operations};
use crate::app::controller::state::{in_step, ControlView, RuntimeControlState};
use crate::app::controller::status::{in_row_order, status_rows};
use crate::app::download_deferral::{is_candidate, is_candidate_package};
use crate::app::error::{error_text, outcome, DaemonError, ErrorView};
use crate::app::logging::{text_record, LogCategory, LogLevel, LogRecord};
use crate::app::operation_log::operations_json;
use crate::domain::operation::OperationView;
use crate::domain::runtime::RuntimeProcess;
use crate::domain::uids::{at_listed, key_list, rising};
use crate::protocol::manager_v1::state::{ManagerView, ReadOnlyState};
use crate::protocol::records::ManagerFreezeStatusRecord;
use crate::sys::socket::{
    pass_allowed, should_run_control_pass, told_once, HookRuntimeSyncOutcome,
};
use crate::text::{decimal, join, join_strings, number, same, text, texts};

verus! {

broadcast use {vstd::std_specs::btree::group_btree_axioms, vstd::laws_cmp::group_laws_cmp};

/// What is seen of the device before a pass.
#[derive(Debug)]
pub struct LiveSight {
    pub processes_by_uid: BTreeMap<u32, Vec<RuntimeProcess>>,
    pub foreground_uids: Vec<u32>,
    pub binder_available: bool,
}

/// Some of the processes belong to a download application.
pub open spec fn any_candidate(processes: Map<u32, Vec<RuntimeProcess>>) -> bool {
    exists|uid: u32, k: int|
        processes.contains_key(uid) && 0 <= k < processes[uid]@.len() && is_candidate(
            (#[trigger] processes[uid]@[k]).package_name@,
        )
}

fn has_candidate(processes: &[RuntimeProcess]) -> (r: bool)
    ensures
        r == exists|k: int|
            0 <= k < processes@.len() && is_candidate((#[trigger] processes@[k]).package_name@),
{
    let mut i: usize = 0;
    while i < processes.len()
        invariant
            i <= processes@.len(),
            forall|k: int|
                0 <= k < i ==> !is_candidate((#[trigger] processes@[k]).package_name@),
        decreases processes@.len() - i,
    {
        if is_candidate_package(processes[i].package_name.as_str()) {
            assert(is_candidate(processes@[i as int].package_name@));
            return true;
        }
        i += 1;
    }
    false
}

/// Whether the received bytes have to be sampled: only where a download application runs.
pub fn needs_rx_sample(processes_by_uid: &BTreeMap<u32, Vec<RuntimeProcess>>) -> (r: bool)
    ensures
        r == any_candidate(processes_by_uid@),
{
    let ghost all = processes_by_uid@;
    let keys = key_list(processes_by_uid);
    let mut i: usize = 0;
    while i < keys.len()
        invariant
            i <= keys@.len(),
            all == processes_by_uid@,
            keys@.to_set() == all.dom(),
            forall|j: int, k: int|
                0 <= j < i && 0 <= k < all[keys@[j]]@.len() ==> !is_candidate(
                    (#[trigger] all[#[trigger] keys@[j]]@[k]).package_name@,
                ),
        decreases keys@.len() - i,
    {
        assert(keys@.to_set().contains(keys@[i as int]));
        match processes_by_uid.get(&keys[i]) {
            Some(processes) => {
                if has_candidate(processes.as_slice()) {
                    let ghost k = choose|k: int|
                        0 <= k < processes@.len() && is_candidate(
                            (#[trigger] processes@[k]).package_name@,
                        );
                    assert(all[keys@[i as int]]@[k] == processes@[k]);
                    return true;
                }
                assert(all[keys@[i as int]] == *processes);
            },
            None => {
                assert(false);
            },
        }
        i += 1;
    }
    assert(!any_candidate(all)) by {
        if any_candidate(all) {
            let (uid, k) = choose|uid: u32, k: int|
                all.contains_key(uid) && 0 <= k < all[uid]@.len() && is_candidate(
                    (#[trigger] all[uid]@[k]).package_name@,
                );
            assert(keys@.to_set().contains(uid));
            let j = choose|j: int| 0 <= j < keys@.len() && keys@[j] == uid;
            assert(!is_candidate(all[keys@[j]]@[k].package_name@));
        }
    }
    false
}

/// What a sample says of an application; nothing where there is no sample.
pub fn sampled_rx_bytes(
    sample: &Option<Result<BTreeMap<u32, u64>, DaemonError>>,
    uid: u32,
) -> (r: Result<Option<u64>, DaemonError>)
    ensures
        match sample {
            None => r matches Ok(None),
            Some(Ok(values)) => r matches Ok(v) && v == (if values@.contains_key(uid) {
                Some(values@[uid])
            } else {
                None
            }),
            Some(Err(error)) => r matches Err(e) && e@ == ErrorView::System(error_text(error@)),
        },
{
    match sample {
        None => Ok(None),
        Some(Ok(values)) => match values.get(&uid) {
            Some(bytes) => Ok(Some(*bytes)),
            None => Ok(None),
        },
        Some(Err(error)) => Err(DaemonError::system(error.message())),
    }
}

/// Control is disabled: everything is thawed, and nothing is shown any more.
pub fn thaw_disabled_control_state<B: ControlBackend>(
    state: &mut ReadOnlyState,
    control_state: &mut RuntimeControlState,
    backend: &mut B,
    timestamp_ms: u128,
) -> (r: Result<(), DaemonError>)
    requires
        old(backend).ready(),
    ensures
        proceeded(*old(backend), *final(backend)),
        final(control_state)@.audit_start == old(control_state)@.audit_start,
        in_step(old(control_state)@) ==> in_step(final(control_state)@),
        final(state)@ == (ManagerView { freeze_status: seq![], ..old(state)@ }),
        forall|full: Seq<Effect>|
            extends(full, final(backend).trace()) ==> #[trigger] thaw_all(
                old(control_state)@,
                timestamp_ms,
                full,
                old(backend).trace().len() as int,
            ) == Some((final(backend).trace().len() as int, final(control_state)@, outcome(r))),
{
    let ghost s = state@;
    let result = thaw_all_on(control_state, backend, timestamp_ms);
    state.freeze_status = Vec::new();
    assert(state@ =~= (ManagerView { freeze_status: seq![], ..s }));
    result
}

/// The device can be seen this way.
pub open spec fn sight_gives<G: FnOnce(&[u32]) -> Result<LiveSight, DaemonError>>(
    gather: G,
    uids: Set<u32>,
    reply: Result<LiveSight, DaemonError>,
) -> bool {
    exists|u: &[u32]| #[trigger]
        call_ensures(gather, (u,), reply) && rising(u@) && u@.to_set() == uids
}

/// A round whose pass was allowed. Without a sight of the device nothing happens; after a pass
/// that failed the status shown stays; else it is the new one.
pub open spec fn round_went(
    s: ManagerView,
    c: ControlView,
    sight: Result<LiveSight, DaemonError>,
    at: u128,
    full: Seq<Effect>,
    from: int,
    end: int,
    s2: ManagerView,
    c2: ControlView,
    r: Result<(), ErrorView>,
) -> bool {
    match sight {
        Err(e) => r == Err::<(), ErrorView>(e@) && s2 == s && c2 == c && end == from,
        Ok(seen) => {
            let input = PassInput {
                settings: s.settings,
                foreground: seen.foreground_uids@,
                binder: seen.binder_available,
                at,
            };
            match pass_from(c, s.app_config, input, full, from) {
                None => false,
                Some((stop, mid, failure)) => {
                    &&& stop == end
                    &&& match failure {
                        Some(e) => r == Err::<(), ErrorView>(e) && s2 == s && c2 == mid,
                        None => {
                            let (rows, status, visible) = status_rows(
                                mid,
                                s.app_config,
                                0,
                                seen.processes_by_uid@,
                                seen.foreground_uids@,
                                at,
                                seq![],
                                mid.status,
                                Set::empty(),
                            );
                            &&& r == Ok::<(), ErrorView>(())
                            &&& in_row_order(s2.freeze_status)
                            &&& s2.freeze_status.to_multiset() == rows.to_multiset()
                            &&& s2 == (ManagerView { freeze_status: s2.freeze_status, ..s })
                            &&& c2 == (ControlView { status: at_listed(status, visible), ..mid })
                        },
                    }
                },
            }
        },
    }
}

/// Runs a round: a pass where control is allowed, else everything is thawed. The device is looked
/// at only for a pass.
pub fn run_live_control_pass<B: ControlBackend, G: FnOnce(&[u32]) -> Result<LiveSight, DaemonError>>(
    state: &mut ReadOnlyState,
    control_state: &mut RuntimeControlState,
    gather: G,
    backend: &mut B,
    timestamp_ms: u128,
) -> (r: Result<(), DaemonError>)
    requires
        old(backend).ready(),
        well_timed(old(control_state)@),
        timestamp_ms <= LATEST_TIMESTAMP_MS,
        pass_allowed(old(state)@) ==> forall|u: &[u32]|
            rising(u@) && u@.to_set() == controlled(old(state)@.app_config)
                ==> #[trigger] call_requires(gather, (u,)),
    ensures
        well_timed(final(control_state)@),
        proceeded(*old(backend), *final(backend)),
        in_step(old(control_state)@) ==> in_step(final(control_state)@),
        if pass_allowed(old(state)@) {
            exists|sight: Result<LiveSight, DaemonError>|
                #![trigger sight_gives(gather, controlled(old(state)@.app_config), sight)]
                sight_gives(gather, controlled(old(state)@.app_config), sight) && forall|
                    full: Seq<Effect>,
                | #[trigger]
                    extends(full, final(backend).trace()) ==> round_went(
                        old(state)@,
                        old(control_state)@,
                        sight,
                        timestamp_ms,
                        full,
                        old(backend).trace().len() as int,
                        final(backend).trace().len() as int,
                        final(state)@,
                        final(control_state)@,
                        outcome(r),
                    )
        } else {
            &&& final(state)@ == (ManagerView { freeze_status: seq![], ..old(state)@ })
            &&& forall|full: Seq<Effect>|
                extends(full, final(backend).trace()) ==> #[trigger] thaw_all(
                    old(control_state)@,
                    timestamp_ms,
                    full,
                    old(backend).trace().len() as int,
                ) == Some(
                    (final(backend).trace().len() as int, final(control_state)@, outcome(r)),
                )
        },
{
    if !should_run_control_pass(state) {
        return thaw_disabled_control_state(state, control_state, backend, timestamp_ms);
    }
    let ghost s = state@;
    let ghost c = control_state@;
    let ghost look = gather;
    let ghost i0 = backend.trace().len() as int;
    let ghost b0 = *backend;
    let uids = managed_uids(state.app_config.as_slice());
    let sight = gather(uids.as_slice());
    assert(sight_gives(look, controlled(s.app_config), sight));
    let seen = match sight {
        Ok(seen) => seen,
        Err(e) => {
            proof {
                assert(sight_gives(look, controlled(s.app_config), sight));
                assert forall|full: Seq<Effect>| #[trigger] extends(full, backend.trace()) implies
                    round_went(
                    s,
                    c,
                    sight,
                    timestamp_ms,
                    full,
                    i0,
                    i0,
                    state@,
                    control_state@,
                    Err::<(), ErrorView>(e@),
                ) by {}
            }
            return Err(e);
        },
    };
    let context = PassContext {
        settings: state.settings.as_slice(),
        foreground_uids: seen.foreground_uids.as_slice(),
        binder_available: seen.binder_available,
        timestamp_ms,
    };
    let ghost input = context@;
    let passed = run_pass(control_state, state.app_config.as_slice(), context, backend);
    let ghost mid = control_state@;
    let ghost i1 = backend.trace().len() as int;
    assert(forall|full: Seq<Effect>|
        extends(full, backend.trace()) ==> #[trigger] pass_from(
            c,
            s.app_config,
            input,
            full,
            i0,
        ) == Some((i1, mid, failure_of(passed))));
    match passed {
        Err(e) => {
            proof {
                assert forall|full: Seq<Effect>| #[trigger] extends(full, backend.trace()) implies
                    round_went(
                    s,
                    c,
                    sight,
                    timestamp_ms,
                    full,
                    i0,
                    i1,
                    state@,
                    control_state@,
                    Err::<(), ErrorView>(e@),
                ) by {
                    assert(pass_from(c, s.app_config, input, full, i0) is Some);
                }
            }
            Err(e)
        },
        Ok(()) => {
            state.freeze_status =
            control_state.freeze_status_records(
                state.app_config.as_slice(),
                &seen.processes_by_uid,
                seen.foreground_uids.as_slice(),
                timestamp_ms,
            );
            assert(state@ =~= (ManagerView { freeze_status: state@.freeze_status, ..s }));
            proof {
                assert forall|full: Seq<Effect>| #[trigger] extends(full, backend.trace()) implies
                    round_went(
                    s,
                    c,
                    sight,
                    timestamp_ms,
                    full,
                    i0,
                    i1,
                    state@,
                    control_state@,
                    Ok::<(), ErrorView>(()),
                ) by {
                    assert(pass_from(c, s.app_config, input, full, i0) is Some);
                }
            }
            Ok(())
        },
    }
}

// ---------------------------------------------------------------------------
// After the pass
// ---------------------------------------------------------------------------

/// Whether the hook is told of a round: only where it is active.
pub fn hook_is_told(state: &ReadOnlyState) -> (r: bool)
    ensures
        r == (state@.hook_health == "active"@),
{
    same(state.hook_health.as_str(), "active")
}

/// What comes of the hook when it is not active: nobody is told, and every uid waits.
pub fn untold_hook(network_uids: Vec<u32>) -> (r: HookRuntimeSyncOutcome)
    ensures
        r.pending_error is None,
        r.failed_network_uids@ == network_uids@,
{
    HookRuntimeSyncOutcome { pending_error: None, failed_network_uids: network_uids }
}

/// Asks again for the uids whose network could not be restricted.
pub fn requeue_network_uids(control_state: &mut RuntimeControlState, uids: &[u32])
    ensures
        final(control_state)@ == (ControlView {
            network: old(control_state)@.network.union(uids@.to_set()),
            ..old(control_state)@
        }),
{
    let ghost c = control_state@;
    let mut i: usize = 0;
    assert(uids@.take(0).to_set() =~= Set::empty());
    assert(c.network.union(uids@.take(0).to_set()) =~= c.network);
    while i < uids.len()
        invariant
            i <= uids@.len(),
            control_state@ == (ControlView {
                network: c.network.union(uids@.take(i as int).to_set()),
                ..c
            }),
        decreases uids@.len() - i,
    {
        control_state.requeue_network_restriction_uid(uids[i]);
        proof {
            let t = uids@.take(i as int);
            let u = uids@[i as int];
            assert(uids@.take(i + 1) =~= t.push(u));
            let a = c.network.union(t.push(u).to_set());
            let b = c.network.union(t.to_set()).insert(u);
            assert forall|x: u32| #[trigger] a.contains(x) == b.contains(x) by {
                assert(t.push(u).to_set().contains(x) == t.push(u).contains(x));
                assert(t.to_set().contains(x) == t.contains(x));
                if t.contains(x) {
                    let j = choose|j: int| 0 <= j < t.len() && t[j] == x;
                    assert(t.push(u)[j] == x);
                }
                assert(t.push(u)[t.len() as int] == u);
                if t.push(u).contains(x) && x != u {
                    let j = choose|j: int| 0 <= j < t.push(u).len() && t.push(u)[j] == x;
                    assert(t[j] == x);
                }
            }
            assert(a =~= b);
        }
        i += 1;
    }
    assert(uids@.take(i as int) =~= uids@);
}

/// Numbers as a list.
pub open spec fn number_list(s: Seq<u32>) -> Seq<char> {
    "["@ + join(s.map_values(|n: u32| decimal(n as nat)), ", "@) + "]"@
}

fn write_number_list(list: &[u32]) -> (r: String)
    ensures
        r@ == number_list(list@),
{
    let ghost all = list@.map_values(|n: u32| decimal(n as nat));
    let mut parts: Vec<String> = Vec::new();
    let mut i: usize = 0;
    while i < list.len()
        invariant
            i <= list@.len(),
            all == list@.map_values(|n: u32| decimal(n as nat)),
            texts(parts@) == all.take(i as int),
        decreases list@.len() - i,
    {
        let ghost done = texts(parts@);
        let part = number(list[i] as u128);
        parts.push(part);
        assert(texts(parts@) =~= done.push(part@));
        assert(all.take(i + 1) =~= all.take(i as int).push(all[i as int]));
        i += 1;
    }
    assert(all.take(i as int) =~= all);
    let mut out = text("[");
    let joined = join_strings(parts.as_slice(), ", ");
    out.append(joined.as_str());
    out.append("]");
    out
}

/// The message about a pending list that the hook did not take.
pub open spec fn pending_message(error: Seq<char>) -> Seq<char> {
    "hook pending UID sync failed: "@ + error
}

/// The message about networks that could not be restricted.
pub open spec fn network_message(uids: Seq<u32>) -> Seq<char> {
    "hook network break failed for UIDs "@ + number_list(uids) + "; queued for retry"@
}

/// What the manager is shown after a round.
pub open spec fn published(
    s: ManagerView,
    operations: Seq<OperationView>,
    pending_error: Option<Seq<char>>,
    failed: Seq<u32>,
    status: Seq<ManagerFreezeStatusRecord>,
    now_ms: u128,
) -> ManagerView {
    let a = ManagerView {
        operation_log_json: operations_json(operations),
        manager_log: with_operations(s.manager_log, operations),
        ..s
    };
    let b = match pending_error {
        Some(e) => told_once(
            a,
            text_record(LogLevel::Warn, LogCategory::Fault, now_ms, pending_message(e)),
        ),
        None => a,
    };
    let c = if failed.len() > 0 {
        told_once(
            b,
            text_record(LogLevel::Warn, LogCategory::Fault, now_ms, network_message(failed)),
        )
    } else {
        b
    };
    ManagerView { freeze_status: status, ..c }
}

/// Shows the manager what a round did.
pub fn publish_round(
    state: &mut ReadOnlyState,
    control_state: &RuntimeControlState,
    hook: &HookRuntimeSyncOutcome,
    freeze_status: Vec<ManagerFreezeStatusRecord>,
    now_ms: u128,
)
    ensures
        final(state)@ == published(
            old(state)@,
            control_state@.log.records,
            crate::domain::runtime::optional_text(hook.pending_error),
            hook.failed_network_uids@,
            freeze_status@,
            now_ms,
        ),
{
    state.operation_log_json = control_state.operation_log.to_json();
    push_operations(state, control_state.operation_log.records());
    match &hook.pending_error {
        Some(error) => {
            let mut message = text("hook pending UID sync failed: ");
            message.append(error.as_str());
            state.manager_log.push_once(
                LogRecord::fault(LogLevel::Warn, now_ms, message.as_str()),
            );
        },
        None => {},
    }
    if hook.failed_network_uids.len() > 0 {
        let mut message = text("hook network break failed for UIDs ");
        let list = write_number_list(hook.failed_network_uids.as_slice());
        message.append(list.as_str());
        message.append("; queued for retry");
        state.manager_log.push_once(LogRecord::fault(LogLevel::Warn, now_ms, message.as_str()));
    }
    state.freeze_status = freeze_status;
}

} // verus!
