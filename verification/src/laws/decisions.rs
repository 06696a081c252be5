//! What is decided about an application, and what is told of it.

use vstd::prelude::*;

use crate::app::controller::carry::{freeze_confirmed, new_pids, CarriedView};
use crate::app::controller::live::published;
use crate::app::controller::pass::{app_step, PassInput};
use crate::app::controller::port::Effect;
use crate::app::controller::recovery::judged_state;
use crate::app::controller::rules::{environment, least_package, thaw_result};
use crate::app::controller::state::{recorded, signature, ControlView};
use crate::app::controller::thaw::found;
use crate::app::controller::transaction::FrozenOwnership;
use crate::app::error::ErrorView;
use crate::app::freezer_backend::{decision, decision_after, DecisionAction};
use crate::domain::identity::Ident;
use crate::domain::operation::{OperationResult, OperationView};
use crate::domain::policy::{AppView, FallbackAction, PolicyView};
use crate::domain::runtime::{pids, ControlState, ProcessView, RuntimeProcess};
use crate::laws::transactions::{handed, is_mixed, thaw_was_tried, thaws_try_everything};
use crate::protocol::manager_v1::state::ManagerView;
use crate::protocol::records::{ManagerAppConfigRecord, ManagerFreezeStatusRecord};
use crate::protocol::xposed::{command_number, XposedCommand};
use crate::sys::cgroup::FreezeState;
use crate::sys::discovery::{groups, uid_processes};
use crate::sys::procfs::{discovered_process, ProcEntry};
use crate::sys::socket::{after_hook, current_payload};
use crate::sys::transfer::{step_after, Direction, StepView, TransferEvent};
use crate::text::before;

verus! {

// ---------------------------------------------------------------------------
// Applications
// ---------------------------------------------------------------------------

/// The package that stands for a uid is one of its processes' packages, and none of them comes
/// before it.
pub proof fn the_least_package_stands_for_the_uid(ps: Seq<ProcessView>, k: int)
    requires
        0 <= k < ps.len(),
    ensures
        exists|m: int| 0 <= m < ps.len() && (#[trigger] ps[m]).package_name == least_package(ps),
        !before(ps[k].package_name, least_package(ps)),
    decreases ps.len(),
{
    if ps.len() == 1 {
        crate::text::before_irreflexive(ps[0].package_name);
        assert(ps[0].package_name == least_package(ps));
    } else {
        let rest = ps.drop_last();
        let last = ps.last().package_name;
        let least = least_package(rest);
        the_least_package_stands_for_the_uid(rest, if k < rest.len() { k } else { 0 });
        let m = choose|m: int|
            0 <= m < rest.len() && (#[trigger] rest[m]).package_name == least_package(rest);
        assert(ps[m] == rest[m]);
        assert(ps[ps.len() - 1].package_name == last);
        crate::text::before_irreflexive(last);
        if k < rest.len() {
            assert(rest[k] == ps[k]);
            if before(last, least) && before(ps[k].package_name, last) {
                crate::text::before_transitive(ps[k].package_name, last, least);
            }
        }
    }
}

/// The freezer of the kernel is used only where every process has a cgroup, of which there is at
/// least one, and the binder freezer works; and not while somebody waits for a transaction.
pub proof fn freezing_needs_cgroup_and_binder(
    app: AppView,
    policy: PolicyView,
    ps: Seq<ProcessView>,
    binder: bool,
)
    ensures
        decision(app, policy, ps, environment(ps, binder)).action == DecisionAction::Freeze
            && policy.fallback_strategy.len() > 0 ==> {
            &&& binder
            &&& ps.len() > 0
            &&& forall|k: int|
                0 <= k < ps.len() ==> (#[trigger] ps[k]).cgroup_freeze_path is Some
                    && ps[k].binder_state != Some("binder_queue active_sync_transaction"@)
            &&& !app.is_system_app
            &&& app.protected_reason is None
        },
        crate::domain::policy::control_allowed(policy, app) && binder && ps.len() > 0 && (forall|
            k: int,
        |
            0 <= k < ps.len() ==> (#[trigger] ps[k]).cgroup_freeze_path is Some
                && ps[k].binder_state != Some("binder_queue active_sync_transaction"@))
            ==> decision(app, policy, ps, environment(ps, binder)).action
            == DecisionAction::Freeze,
{
}

/// Where the freezer cannot be used, or failed, the first fallback of the policy decides.
pub proof fn the_first_fallback_decides(
    app: AppView,
    policy: PolicyView,
    ps: Seq<ProcessView>,
    error: ErrorView,
)
    requires
        policy.fallback_strategy.len() > 0,
    ensures
        policy.fallback_strategy[0] == FallbackAction::Signal ==> decision_after(
            policy,
            error,
        ).action == DecisionAction::Signal,
        policy.fallback_strategy[0] == FallbackAction::Postpone ==> decision_after(
            policy,
            error,
        ).action == DecisionAction::Postpone,
        policy.fallback_strategy[0] == FallbackAction::Skip ==> decision_after(policy, error).action
            == DecisionAction::Skip,
        policy.fallback_strategy[0] == FallbackAction::Terminate ==> decision_after(
            policy,
            error,
        ).action == DecisionAction::Terminate,
        ({
            let d = decision(app, policy, ps, environment(ps, false)).action;
            d == decision_after(policy, error).action || d == DecisionAction::Skip || d
                == DecisionAction::Postpone
        }),
{
}

/// A process counts as frozen where its cgroup is frozen or it is stopped, as running only where
/// its cgroup is known to be thawed and it is known not to be stopped.
pub proof fn evidence_decides_the_state(cgroup: Option<FreezeState>, state: Option<char>)
    ensures
        judged_state(cgroup, state) == ControlState::Frozen <==> cgroup == Some(FreezeState::Frozen)
            || state == Some('T') || state == Some('t'),
        judged_state(cgroup, state) == ControlState::Running <==> cgroup == Some(
            FreezeState::Thawed,
        ) && (state matches Some(c) && c != 'T' && c != 't'),
{
}

/// Processes of which control was refused for being of several packages are left alone as long as
/// they are the same ones: nothing is asked but why they are protected.
pub proof fn refused_processes_are_left_alone(
    s: ControlView,
    record: ManagerAppConfigRecord,
    ps: Seq<ProcessView>,
    audit_due: bool,
    input: PassInput,
    log: Seq<Effect>,
    i: int,
)
    requires
        s.blocked.contains_key((least_package(ps), record.uid)),
        s.blocked[(least_package(ps), record.uid)] == signature(ps),
        log[i] matches Effect::Classify { reply, .. } && reply is None,
        record.mode == 10 || record.mode == 20 || record.mode == 21 || record.mode == 30
            || record.mode == 31,
        record.uid % 100_000 >= 10_000,
    ensures
        app_step(s, record, ps, audit_due, input, log, i) matches Some((j, after, failure)) ==> j
            == i + 1 && after == s && failure is None,
{
}

/// The processes that appeared during a freeze are those of the uid that were not frozen.
pub proof fn new_processes_are_noticed(
    post: Seq<ProcessView>,
    uid: u32,
    frozen: Seq<i32>,
    pid: i32,
)
    ensures
        new_pids(post, uid, frozen).contains(pid) <==> exists|k: int|
            0 <= k < post.len() && (#[trigger] post[k]).pid == pid && post[k].uid == uid
                && !frozen.contains(pid),
    decreases post.len(),
{
    if post.len() > 0 {
        let rest = post.drop_last();
        let last = post.last();
        new_processes_are_noticed(rest, uid, frozen, pid);
        let a = new_pids(rest, uid, frozen);
        crate::domain::identity::push_members(a, last.pid, pid);
        if a.contains(pid) {
            let k = choose|k: int|
                0 <= k < rest.len() && (#[trigger] rest[k]).pid == pid && rest[k].uid == uid
                    && !frozen.contains(pid);
            assert(post[k] == rest[k]);
        }
        if last.pid == pid && last.uid == uid && !frozen.contains(pid) {
            assert(post[post.len() - 1] == last);
        }
        if exists|k: int|
            0 <= k < post.len() && (#[trigger] post[k]).pid == pid && post[k].uid == uid
                && !frozen.contains(pid) {
            let k = choose|k: int|
                0 <= k < post.len() && (#[trigger] post[k]).pid == pid && post[k].uid == uid
                    && !frozen.contains(pid);
            if k < rest.len() {
                assert(rest[k] == post[k]);
            }
        }
    }
}

/// A process that appeared during a freeze undoes it: every process is thawed again, and the
/// application counts as frozen only where that failed.
pub proof fn new_processes_undo_a_freeze(
    s: ControlView,
    record: ManagerAppConfigRecord,
    id: Ident,
    pending: Seq<ProcessView>,
    reason: Seq<char>,
    at: u128,
    log: Seq<Effect>,
    j: int,
    k: int,
)
    requires
        found(log, j, record.uid) matches Some(Ok(post)) && 0 <= k < post.len() && post[k].uid
            == record.uid && !pids(pending).contains(post[k].pid) && !is_mixed(id.0, post),
    ensures
        freeze_confirmed(s, record, id, pending, reason, at, log, j) matches Some((end, after, c))
            ==> {
            let post = found(log, j, record.uid)->0->Ok_0;
            &&& c == CarriedView::Done
            &&& forall|m: int|
                0 <= m < post.len() ==> thaw_was_tried(
                    log,
                    j + 1,
                    end,
                    handed(post[m], false),
                    #[trigger] post[m],
                    false,
                )
            &&& !after.pending.contains_key(id)
            &&& after.network == s.network
        },
{
    let post = found(log, j, record.uid)->0->Ok_0;
    new_processes_are_noticed(post, record.uid, pids(pending), post[k].pid);
    assert(new_pids(post, record.uid, pids(pending)).contains(post[k].pid));
    thaws_try_everything(id.0, post, FrozenOwnership::CgroupBinder, log, j + 1);
}

/// Every operation is logged last, with the next number and the time; the numbers never repeat
/// before all have been used.
pub proof fn operations_are_numbered(s: ControlView, o: OperationView, at: u128)
    requires
        s.log.capacity > 0,
        s.log.records.len() <= s.log.capacity,
    ensures
        recorded(s, o, at).log.records.last() == (OperationView {
            operation_id: s.next_id,
            timestamp_ms: at,
            ..o
        }),
        s.next_id < u64::MAX ==> recorded(s, o, at).next_id == s.next_id + 1,
        recorded(s, o, at).frozen == s.frozen,
        recorded(s, o, at).pending == s.pending,
{
}

/// A thaw succeeded where nothing failed, failed where nothing was thawed, and else did its part.
pub proof fn results_tell_how_much_was_done(applied: nat, failures: nat)
    ensures
        thaw_result(applied, failures) == OperationResult::Success <==> failures == 0,
        thaw_result(applied, failures) == OperationResult::Failed <==> failures > 0 && applied == 0,
        thaw_result(applied, failures) == OperationResult::Partial <==> failures > 0 && applied > 0,
{
}

/// The processes of the managed uids are listed by uid: each of them, under its own uid, and none
/// of another uid.
pub proof fn managed_processes_are_listed_by_uid(
    m: Map<u32, Vec<RuntimeProcess>>,
    entries: Seq<ProcEntry>,
    managed: Set<u32>,
    k: int,
)
    requires
        groups(m, entries, managed),
        0 <= k < entries.len(),
    ensures
        forall|uid: u32| #[trigger] m.contains_key(uid) ==> managed.contains(uid) && m[uid]@.len()
            > 0,
        match discovered_process(entries[k]) {
            Some(p) if managed.contains(p.uid) => m.contains_key(p.uid)
                && crate::domain::runtime::process_views(m[p.uid]@).contains(p),
            _ => true,
        },
{
    if let Some(p) = discovered_process(entries[k]) {
        found_is_listed(entries, k, p);
        assert(uid_processes(entries, p.uid).len() > 0);
        if managed.contains(p.uid) {
            assert(m.contains_key(p.uid));
            let all = crate::domain::runtime::process_views(m[p.uid]@);
            assert(all == uid_processes(entries, p.uid));
            assert(all.contains(p));
        }
    }
}

proof fn found_is_listed(entries: Seq<ProcEntry>, k: int, p: ProcessView)
    requires
        0 <= k < entries.len(),
        discovered_process(entries[k]) == Some(p),
    ensures
        uid_processes(entries, p.uid).contains(p),
        uid_processes(entries, p.uid).len() > 0,
    decreases entries.len(),
{
    let rest = entries.drop_last();
    let a = uid_processes(rest, p.uid);
    let b = uid_processes(entries, p.uid);
    if k < rest.len() {
        assert(rest[k] == entries[k]);
        found_is_listed(rest, k, p);
        let n = choose|n: int| 0 <= n < a.len() && a[n] == p;
        assert(b[n] == p);
    } else {
        assert(b == a.push(p));
        assert(b[a.len() as int] == p);
    }
}

// ---------------------------------------------------------------------------
// The hook and the manager
// ---------------------------------------------------------------------------

/// The configuration counts as known to the hook only where the hook accepted it, it still is the
/// current one, and the hook is active.
pub proof fn only_an_active_hook_knows_the_configuration(
    s: ManagerView,
    revision: u64,
    payload: Option<Seq<u8>>,
    sync: Option<Result<bool, ErrorView>>,
    health: Result<Seq<char>, ErrorView>,
    now_ms: u128,
)
    ensures
        ({
            let after = after_hook(s, revision, payload, sync, health, now_ms);
            &&& after.hook_config_synced ==> after.hook_health == "active"@ && (sync is None
                && s.hook_config_synced || (sync == Some(Ok::<bool, ErrorView>(true)) && revision
                == s.config_revision && payload is Some && payload == current_payload(s)))
            &&& health is Err ==> !after.hook_config_synced
            &&& after.settings == s.settings
            &&& after.app_config == s.app_config
            &&& after.config_revision == s.config_revision
            &&& after.control_allowed == s.control_allowed
            &&& after.freeze_status == s.freeze_status
            &&& health matches Ok(text) ==> after.xp_log == text
        }),
{
}

/// After a round the manager is shown the status and the operations of the round, and nothing of
/// its configuration changes.
pub proof fn rounds_are_shown(
    s: ManagerView,
    operations: Seq<OperationView>,
    pending_error: Option<Seq<char>>,
    failed: Seq<u32>,
    status: Seq<ManagerFreezeStatusRecord>,
    now_ms: u128,
)
    ensures
        ({
            let after = published(s, operations, pending_error, failed, status, now_ms);
            &&& after.freeze_status == status
            &&& after.operation_log_json == crate::app::operation_log::operations_json(operations)
            &&& after == (ManagerView {
                freeze_status: after.freeze_status,
                operation_log_json: after.operation_log_json,
                manager_log: after.manager_log,
                ..s
            })
        }),
{
}

/// The commands of the hook have these numbers, counted from a base.
pub proof fn hook_commands_have_their_numbers()
    ensures
        command_number(XposedCommand::GetForeground) == 1_359_322_926,
        command_number(XposedCommand::GetScreen) == 1_359_322_927,
        command_number(XposedCommand::GetXpLog) == 1_359_322_928,
        command_number(XposedCommand::SetConfig) == 1_359_322_945,
        command_number(XposedCommand::SetWakeupLock) == 1_359_322_946,
        command_number(XposedCommand::BreakNetwork) == 1_359_322_966,
        command_number(XposedCommand::UpdatePending) == 1_359_322_985,
        command_number(XposedCommand::GetHookHealth) == 1_359_322_995,
        command_number(XposedCommand::GetRuntimeAppStates) == 1_359_322_996,
        command_number(XposedCommand::GetSystemFreezerHints) == 1_359_322_997,
{
}

/// A transfer goes on from where it is by as many bytes as were moved, is complete when all have
/// been moved, and fails where none were, where it is late, or where the stream fails.
pub proof fn transfers_move_on_by_what_was_moved(
    direction: Direction,
    offset: nat,
    total: nat,
    event: TransferEvent,
    expired: bool,
)
    ensures
        ({
            let step = step_after(direction, offset, total, event, expired);
            &&& event matches TransferEvent::Moved(n) ==> {
                &&& n == 0 || expired ==> step is Fail
                &&& n > 0 && !expired && offset + n >= total ==> step is Complete
                &&& n > 0 && !expired && offset + n < total ==> step == StepView::Continue(
                    offset + n as nat,
                )
            }
            &&& event is Failed || event is Blocked ==> step is Fail
            &&& event is Interrupted && offset < total && !expired ==> step == StepView::Continue(
                offset,
            )
            &&& event is Interrupted && offset < total && expired ==> step is Fail
        }),
{
}

} // verus!
