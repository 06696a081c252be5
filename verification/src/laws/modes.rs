//! What the modes of the applications do.

use vstd::prelude::*;

use crate::app::controller::carry::{
    acted, decided, decision_carried, fallback_carried, freeze_carried, kill_carried, ledger_clean,
    promotion_for, CarriedView,
};
use crate::app::controller::laws::{foreground_is_careful, gentle, protected_is_careful};
use crate::app::controller::pass::{
    app_step, attempt_step, background_step, delay_step, download_step, foreground_step,
    record_step, records_step, PassInput,
};
use crate::app::controller::port::Effect;
use crate::app::controller::rules::{audit, controls, managed_app, record_policy};
use crate::app::controller::state::{owner, ControlView};
use crate::app::controller::thaw::found;
use crate::app::controller::transaction::{
    freeze_transaction, freezing, kill_transaction, killing, prechecked, promoting, rolling_back,
    stop_transaction, thaw_identity, FrozenOwnership, SignalStopLedgerPromotion,
};
use crate::app::freezer_backend::{BackendEnvironment, DecisionAction, DecisionView};
use crate::domain::identity::Ident;
use crate::domain::operation::{ControlAction, OperationResult};
use crate::domain::policy::{control_allowed, AppView, PolicyView};
use crate::domain::runtime::{all_with_control_state, ControlState, ProcessView};
use crate::laws::transactions::{
    handed, is_mixed, thaw_was_tried, thaws_try_everything, was_frozen,
};
use crate::protocol::records::ManagerAppConfigRecord;

verus! {

// ---------------------------------------------------------------------------
// Which mechanism is used
// ---------------------------------------------------------------------------

/// From `i` to `j` nothing is killed.
pub open spec fn kills_nothing(log: Seq<Effect>, i: int, j: int) -> bool {
    forall|a: int| i <= a < j ==> !((#[trigger] log[a]) is Terminate)
}

/// From `i` to `j` nothing is frozen or stopped.
pub open spec fn freezes_nothing(log: Seq<Effect>, i: int, j: int) -> bool {
    forall|a: int| i <= a < j ==> !((#[trigger] log[a]) is Freeze)
}

/// From `i` to `j` processes are frozen by signal alone.
pub open spec fn only_signals(log: Seq<Effect>, i: int, j: int) -> bool {
    forall|a: int|
        i <= a < j ==> ((#[trigger] log[a]) matches Effect::Freeze { process, .. }
            ==> process.cgroup_freeze_path is None)
}

proof fn checks_only_ask(ps: Seq<ProcessView>, k: int, head: Seq<char>, log: Seq<Effect>, i: int)
    ensures
        prechecked(ps, k, head, log, i) matches Some((j, _)) ==> i <= j && kills_nothing(log, i, j)
            && freezes_nothing(log, i, j),
    decreases ps.len() - k,
{
    if 0 <= k < ps.len() {
        checks_only_ask(ps, k + 1, head, log, i + 1);
    }
}

proof fn killing_freezes_nothing(ps: Seq<ProcessView>, k: int, log: Seq<Effect>, i: int)
    ensures
        killing(ps, k, log, i) matches Some((j, _)) ==> i <= j && freezes_nothing(log, i, j),
    decreases ps.len() - k,
{
    if 0 <= k < ps.len() {
        killing_freezes_nothing(ps, k + 1, log, i + 2);
    }
}

proof fn freezing_kills_nothing(ps: Seq<ProcessView>, k: int, signal: bool, log: Seq<Effect>, i: int)
    ensures
        freezing(ps, k, signal, log, i) matches Some((j, _, _)) ==> i <= j && kills_nothing(
            log,
            i,
            j,
        ) && (signal ==> only_signals(log, i, j)),
    decreases ps.len() - k,
{
    if 0 <= k < ps.len() {
        freezing_kills_nothing(ps, k + 1, signal, log, i + 2);
    }
}

proof fn undoing_forces_nothing(
    ps: Seq<ProcessView>,
    k: int,
    signal: bool,
    log: Seq<Effect>,
    i: int,
    back: nat,
    failed: nat,
)
    ensures
        rolling_back(ps, k, signal, log, i, back, failed) matches Some((j, _, _)) ==> i <= j
            && kills_nothing(log, i, j) && freezes_nothing(log, i, j),
    decreases k,
{
    if k > 0 {
        undoing_forces_nothing(ps, k - 1, signal, log, i + 1, back, failed + 1);
        undoing_forces_nothing(ps, k - 1, signal, log, i + 2, back + 1, failed);
        undoing_forces_nothing(ps, k - 1, signal, log, i + 2, back, failed + 1);
    }
}

proof fn noting_forces_nothing(ps: Seq<ProcessView>, k: int, log: Seq<Effect>, i: int)
    ensures
        promoting(ps, k, log, i) matches Some(j) ==> i <= j && kills_nothing(log, i, j)
            && freezes_nothing(log, i, j),
    decreases ps.len() - k,
{
    if 0 <= k < ps.len() {
        noting_forces_nothing(ps, k + 1, log, i + 1);
    }
}

proof fn reading_forces_nothing(ps: Seq<ProcessView>, k: int, log: Seq<Effect>, i: int)
    ensures
        ledger_clean(ps, k, log, i) matches Some((j, _)) ==> i <= j && kills_nothing(log, i, j)
            && freezes_nothing(log, i, j),
    decreases ps.len() - k,
{
    if 0 <= k < ps.len() {
        reading_forces_nothing(ps, k + 1, log, i + 1);
    }
}

proof fn freezes_kill_nothing(ps: Seq<ProcessView>, signal: bool, log: Seq<Effect>, i: int)
    ensures
        freeze_transaction(ps, signal, log, i) matches Some((j, _)) ==> i <= j && kills_nothing(
            log,
            i,
            j,
        ) && (signal ==> only_signals(log, i, j)),
{
    let head = "identity validation failed"@;
    checks_only_ask(ps, 0, head, log, i);
    if let Some((j, None)) = prechecked(ps, 0, head, log, i) {
        freezing_kills_nothing(ps, 0, signal, log, j);
        if let Some((j2, n, Some(_))) = freezing(ps, 0, signal, log, j) {
            undoing_forces_nothing(ps, n, signal, log, j2, 0, 0);
        }
    }
}

proof fn stops_use_signals(
    ps: Seq<ProcessView>,
    promotion: SignalStopLedgerPromotion,
    log: Seq<Effect>,
    i: int,
)
    ensures
        stop_transaction(ps, promotion, log, i) matches Some((j, _)) ==> i <= j && kills_nothing(
            log,
            i,
            j,
        ) && only_signals(log, i, j),
{
    freezes_kill_nothing(ps, true, log, i);
    if let Some((j, _)) = freeze_transaction(ps, true, log, i) {
        noting_forces_nothing(ps, 0, log, j);
    }
}

proof fn kills_freeze_nothing(ps: Seq<ProcessView>, log: Seq<Effect>, i: int)
    ensures
        kill_transaction(ps, log, i) matches Some((j, _)) ==> i <= j && freezes_nothing(log, i, j),
{
    let head = "identity validation failed before SIGKILL"@;
    checks_only_ask(ps, 0, head, log, i);
    if let Some((j, None)) = prechecked(ps, 0, head, log, i) {
        killing_freezes_nothing(ps, 0, log, j);
    }
}

proof fn carried_freezes_kill_nothing(
    s: ControlView,
    record: ManagerAppConfigRecord,
    id: Ident,
    ps: Seq<ProcessView>,
    pending: Seq<ProcessView>,
    policy: PolicyView,
    env: BackendEnvironment,
    reason: Seq<char>,
    at: u128,
    log: Seq<Effect>,
    i: int,
)
    ensures
        freeze_carried(s, record, id, ps, pending, policy, env, reason, at, log, i) matches Some(
            (j, _, _),
        ) ==> kills_nothing(log, i, j),
{
    freezes_kill_nothing(pending, false, log, i);
    if let Some((j, out)) = freeze_transaction(pending, false, log, i) {
        stops_use_signals(pending, SignalStopLedgerPromotion::Never, log, j + 1);
        if let Some(Ok(post)) = found(log, j, record.uid) {
            crate::app::controller::laws::thaws_are_careful(
                id.0,
                post,
                FrozenOwnership::CgroupBinder,
                log,
                j + 1,
            );
            if let Some((j2, _)) = thaw_identity(
                id.0,
                post,
                FrozenOwnership::CgroupBinder,
                log,
                j + 1,
            ) {
                gentle_kills_nothing(log, j + 1, j2);
            }
        }
    }
}

proof fn gentle_kills_nothing(log: Seq<Effect>, i: int, j: int)
    requires
        gentle(log, i, j),
    ensures
        kills_nothing(log, i, j),
        freezes_nothing(log, i, j),
        only_signals(log, i, j),
        forall|mode: i32, settings: Seq<u8>| #[trigger] follows_mode(mode, settings, log, i, j),
{
    reveal(follows_mode);
    assert forall|a: int| i <= a < j implies !((#[trigger] log[a]) is Terminate)
        && !(log[a] is Freeze) by {
        assert(crate::app::controller::laws::forced(log[a]) is None);
    }
}

/// The settings ask for signals in place of the freezer.
pub open spec fn signals_for_all(settings: Seq<u8>) -> bool {
    settings.len() > 5 && settings[5] == 2
}

/// The mechanism that a mode asks for is used, and no other: killing for mode 10; stopping by
/// signal for modes 20 and 21, and for 30 and 31 where the settings ask for it; killing under
/// these two only where the freezer backend decided it.
#[verifier::opaque]
pub open spec fn follows_mode(
    mode: i32,
    settings: Seq<u8>,
    log: Seq<Effect>,
    i: int,
    j: int,
) -> bool {
    &&& mode == 10 ==> freezes_nothing(log, i, j)
    &&& mode == 20 || mode == 21 || ((mode == 30 || mode == 31) && signals_for_all(settings))
        ==> kills_nothing(log, i, j) && only_signals(log, i, j)
    &&& (mode == 30 || mode == 31) && !signals_for_all(settings) ==> kills_nothing(log, i, j)
        || exists|d: int|
        i <= d < j && (#[trigger] log[d] matches Effect::Decide { reply, .. } && reply.action
            == DecisionAction::Terminate)
}

#[verifier::rlimit(40)]
#[verifier::spinoff_prover]
proof fn actions_follow_the_mode(
    s: ControlView,
    record: ManagerAppConfigRecord,
    settings: Seq<u8>,
    app: AppView,
    id: Ident,
    ps: Seq<ProcessView>,
    abnormal: bool,
    binder: bool,
    at: u128,
    log: Seq<Effect>,
    i: int,
)
    ensures
        acted(s, record, settings, app, id, ps, abnormal, binder, at, log, i) matches Some(
            (j, _, _),
        ) ==> i <= j && follows_mode(record.mode, settings, log, i, j),
{
    crate::app::controller::laws::acting_is_careful(
        s,
        record,
        settings,
        app,
        id,
        ps,
        abnormal,
        binder,
        at,
        log,
        i,
    );
    reveal(follows_mode);
    let pending = all_with_control_state(ps, ControlState::PendingFreeze);
    let env = crate::app::controller::rules::environment(pending, binder);
    if let Some((j, decision)) = decided(record, settings, app, pending, env, log, i) {
        assert(i <= j <= i + 1);
        assert(j == i + 1 ==> log[i] is Decide);
        kills_freeze_nothing(pending, log, j);
        reading_forces_nothing(pending, 0, log, j);
        if let Some((j2, promotion)) = promotion_for(s, id, pending, log, j) {
            stops_use_signals(pending, promotion, log, j2);
        }
        carried_freezes_kill_nothing(
            s,
            record,
            id,
            ps,
            pending,
            record_policy(record),
            env,
            decision.reason,
            at,
            log,
            j,
        );
    }
}

proof fn attempts_follow_the_mode(
    s: ControlView,
    record: ManagerAppConfigRecord,
    app: AppView,
    id: Ident,
    ps: Seq<ProcessView>,
    abnormal: bool,
    input: PassInput,
    log: Seq<Effect>,
    i: int,
)
    ensures
        attempt_step(s, record, app, id, ps, abnormal, input, log, i) matches Some((j, _, _)) ==> i
            <= j && follows_mode(record.mode, input.settings, log, i, j),
{
    let (s1, due) = delay_step(s, record, id, ps, abnormal, input.settings, input.at);
    gentle_kills_nothing(log, i, i);
    if let Some((j, s2, go)) = download_step(s1, record, id, ps, input.at, log, i) {
        assert(i <= j <= i + 1);
        assert(j == i + 1 ==> log[i] is Sample);
        gentle_kills_nothing(log, i, j);
        if due && go {
            actions_follow_the_mode(
                s2,
                record,
                input.settings,
                app,
                id,
                ps,
                abnormal,
                input.binder,
                input.at,
                log,
                j,
            );
            if let Some((j2, _, _)) = acted(
                s2,
                record,
                input.settings,
                app,
                id,
                ps,
                abnormal,
                input.binder,
                input.at,
                log,
                j,
            ) {
                earlier_calls_change_nothing(record.mode, input.settings, log, i, j, j2);
            }
        }
    }
}

proof fn earlier_calls_change_nothing(
    mode: i32,
    settings: Seq<u8>,
    log: Seq<Effect>,
    i: int,
    a: int,
    j: int,
)
    requires
        i <= a <= j,
        follows_mode(mode, settings, log, a, j),
        forall|d: int| i <= d < a ==> !((#[trigger] log[d]) is Freeze) && !(log[d] is Terminate),
    ensures
        follows_mode(mode, settings, log, i, j),
{
    reveal(follows_mode);
    if (mode == 30 || mode == 31) && !signals_for_all(settings) && !kills_nothing(log, a, j) {
        let d = choose|d: int|
            a <= d < j && (#[trigger] log[d] matches Effect::Decide { reply, .. } && reply.action
                == DecisionAction::Terminate);
        assert(log[d] is Decide);
    }
}

proof fn background_follows_the_mode(
    s: ControlView,
    record: ManagerAppConfigRecord,
    app: AppView,
    id: Ident,
    ps: Seq<ProcessView>,
    audit_due: bool,
    input: PassInput,
    log: Seq<Effect>,
    i: int,
)
    ensures
        background_step(s, record, app, id, ps, audit_due, input, log, i) matches Some((j, _, _))
            ==> i <= j && follows_mode(record.mode, input.settings, log, i, j),
{
    crate::app::controller::laws::thaws_are_careful(id.0, ps, owner(s, id), log, i);
    gentle_kills_nothing(log, i, i);
    if let Some((j, _)) = thaw_identity(id.0, ps, owner(s, id), log, i) {
        gentle_kills_nothing(log, i, j);
    }
    if !s.frozen.contains(id) {
        attempts_follow_the_mode(s, record, app, id, ps, false, input, log, i);
    } else {
        let s1 = crate::app::controller::state::seen_running(s, id);
        attempts_follow_the_mode(s1, record, app, id, ps, true, input, log, i);
    }
}

proof fn applications_follow_the_mode(
    s: ControlView,
    record: ManagerAppConfigRecord,
    ps: Seq<ProcessView>,
    audit_due: bool,
    input: PassInput,
    log: Seq<Effect>,
    i: int,
)
    ensures
        app_step(s, record, ps, audit_due, input, log, i) matches Some((j, _, _)) ==> i <= j
            && follows_mode(record.mode, input.settings, log, i, j),
{
    let id = (crate::app::controller::rules::least_package(ps), record.uid);
    if let Some((j, _, _)) = app_step(s, record, ps, audit_due, input, log, i) {
        if let Effect::Classify { package, system, reply } = log[i] {
            let app = managed_app(id.0, record.uid, reply);
            let s1 = crate::app::controller::state::unblocked(s, id);
            let sig = crate::app::controller::state::signature(ps);
            if !control_allowed(record_policy(record), app) {
                protected_is_careful(s, record.uid, input.at, log, i + 1);
                gentle_kills_nothing(log, i + 1, j);
            } else if crate::app::controller::state::is_blocked(s, id, sig) {
                gentle_kills_nothing(log, i + 1, i + 1);
            } else if input.foreground.contains(record.uid) {
                foreground_is_careful(s1, record.uid, id, ps, input.at, log, i + 1);
                gentle_kills_nothing(log, i + 1, j);
            } else {
                background_follows_the_mode(
                    s1,
                    record,
                    app,
                    id,
                    ps,
                    audit_due,
                    input,
                    log,
                    i + 1,
                );
            }
            assert(follows_mode(record.mode, input.settings, log, i + 1, j));
            earlier_calls_change_nothing(record.mode, input.settings, log, i, i + 1, j);
        }
    }
}

/// Each record is handled by the mechanism that its mode asks for, and by no other; a record with
/// another mode is not handled at all.
pub proof fn records_are_handled_by_their_mode(
    s: ControlView,
    record: ManagerAppConfigRecord,
    audit_due: bool,
    input: PassInput,
    log: Seq<Effect>,
    i: int,
)
    ensures
        record_step(s, record, audit_due, input, log, i) matches Some((j, after, failure)) ==> {
            &&& i <= j
            &&& follows_mode(record.mode, input.settings, log, i, j)
            &&& record.mode != 10 && record.mode != 20 && record.mode != 21 && record.mode != 30
                && record.mode != 31 ==> j == i && after == s && failure is None
        },
{
    gentle_kills_nothing(log, i, i);
    if controls(record.mode) {
        if let Some(reply) = found(log, i, record.uid) {
            assert(log[i] is Discover);
            gentle_kills_nothing(log, i, i + 1);
            if let Ok(ps) = reply {
                if ps.len() > 0 {
                    applications_follow_the_mode(s, record, ps, audit_due, input, log, i + 1);
                    if let Some((j, _, _)) = app_step(s, record, ps, audit_due, input, log, i + 1) {
                        earlier_calls_change_nothing(
                            record.mode,
                            input.settings,
                            log,
                            i,
                            i + 1,
                            j,
                        );
                    }
                }
            }
        }
    }
}

// ---------------------------------------------------------------------------
// What is kept of an action
// ---------------------------------------------------------------------------

/// The network of a uid is restricted after an action exactly where it was before, or where the
/// mode is 21 or 31.
pub open spec fn restricts_network(
    a: ControlView,
    b: ControlView,
    record: ManagerAppConfigRecord,
) -> bool {
    forall|uid: u32| #[trigger]
        b.network.contains(uid) <==> a.network.contains(uid) || (uid == record.uid && (record.mode
            == 21 || record.mode == 31))
}

/// A freeze or a stop that was carried out is kept: the application is frozen, since now where it
/// was not frozen before; it no longer waits; and its network is restricted where the mode asks
/// for it.
pub proof fn carried_out_freezes_are_kept(
    s: ControlView,
    record: ManagerAppConfigRecord,
    id: Ident,
    ps: Seq<ProcessView>,
    pending: Seq<ProcessView>,
    env: BackendEnvironment,
    decision: DecisionView,
    at: u128,
    log: Seq<Effect>,
    i: int,
)
    requires
        decision.action == DecisionAction::Freeze || decision.action == DecisionAction::Signal,
    ensures
        decision_carried(s, record, id, ps, pending, env, decision, at, log, i) matches Some(
            (_, after, CarriedView::ToLog(action, result)),
        ) ==> {
            &&& action == ControlAction::Freeze
            &&& result == OperationResult::Success
            &&& after.frozen == s.frozen.insert(id)
            &&& after.since.contains_key(id)
            &&& after.since[id] == (if s.since.contains_key(id) {
                s.since[id]
            } else {
                at
            })
            &&& !after.pending.contains_key(id)
            &&& restricts_network(s, after, record)
        },
{
}

/// A kill that was carried out leaves nothing of the application: it is neither frozen nor
/// waiting.
pub proof fn carried_out_kills_leave_nothing(
    s: ControlView,
    record: ManagerAppConfigRecord,
    id: Ident,
    pending: Seq<ProcessView>,
    reason: Seq<char>,
    at: u128,
    log: Seq<Effect>,
    i: int,
)
    ensures
        kill_carried(s, record, id, pending, reason, at, log, i) matches Some(
            (_, after, CarriedView::ToLog(action, result)),
        ) ==> {
            &&& action == ControlAction::Terminate
            &&& result == OperationResult::Success
            &&& !after.frozen.contains(id)
            &&& !after.pending.contains_key(id)
            &&& !after.since.contains_key(id)
            &&& after.network == s.network
        },
{
}

/// An application of which no process runs is forgotten.
pub proof fn applications_that_ended_are_forgotten(
    s: ControlView,
    record: ManagerAppConfigRecord,
    audit_due: bool,
    input: PassInput,
    log: Seq<Effect>,
    i: int,
    id: Ident,
)
    requires
        record.mode == 10 || record.mode == 20 || record.mode == 21 || record.mode == 30
            || record.mode == 31,
        found(log, i, record.uid) matches Some(Ok(ps)) && ps.len() == 0,
        id.1 == record.uid,
    ensures
        record_step(s, record, audit_due, input, log, i) matches Some((j, after, failure)) && {
            &&& j == i + 1
            &&& failure is None
            &&& !after.frozen.contains(id)
            &&& !after.pending.contains_key(id)
            &&& !after.ownership.contains_key(id)
            &&& !after.blocked.contains_key(id)
            &&& !after.network.contains(record.uid)
            &&& !after.status.contains_key(record.uid)
            &&& !after.samples.contains_key(record.uid)
        },
{
}

// ---------------------------------------------------------------------------
// Foreground, wakeups and audits
// ---------------------------------------------------------------------------

/// In the foreground a frozen application is thawed, process by process, and a freeze that waits
/// is given up.
pub proof fn the_foreground_is_thawed(
    s: ControlView,
    uid: u32,
    id: Ident,
    ps: Seq<ProcessView>,
    at: u128,
    log: Seq<Effect>,
    i: int,
)
    ensures
        foreground_step(s, uid, id, ps, at, log, i) matches Some((j, after)) ==> {
            &&& !after.pending.contains_key(id)
            &&& !s.frozen.contains(id) ==> j == i && !after.frozen.contains(id)
            &&& s.frozen.contains(id) && !is_mixed(id.0, ps) ==> forall|m: int|
                0 <= m < ps.len() ==> {
                    let signal = s.ownership.contains_key(id) && s.ownership[id]
                        == FrozenOwnership::SignalOnly;
                    thaw_was_tried(log, i, j, handed(ps[m], signal), #[trigger] ps[m], signal)
                }
        },
{
    let s1 = crate::app::controller::state::not_pending(s, id);
    thaws_try_everything(id.0, ps, owner(s1, id), log, i);
}

/// The minutes after which a frozen application is woken up, by the fourth setting.
pub open spec fn wakeup_minutes(settings: Seq<u8>) -> Option<int> {
    if settings.len() <= 3 {
        None
    } else if settings[3] == 1 {
        Some(5)
    } else if settings[3] == 2 {
        Some(15)
    } else if settings[3] == 3 {
        Some(30)
    } else if settings[3] == 4 {
        Some(60)
    } else if settings[3] == 5 {
        Some(120)
    } else {
        None
    }
}

/// A frozen application is woken up once it was frozen for the configured minutes, and never
/// before; then every process is thawed, and it is to be frozen again after as many seconds as
/// the third setting says.
#[verifier::rlimit(60)]
#[verifier::spinoff_prover]
pub proof fn wakeups_come_when_they_are_due(
    s: ControlView,
    record: ManagerAppConfigRecord,
    app: AppView,
    id: Ident,
    ps: Seq<ProcessView>,
    audit_due: bool,
    input: PassInput,
    log: Seq<Effect>,
    i: int,
)
    requires
        s.frozen.contains(id),
        s.since.contains_key(id),
        s.since[id] + 7_200_000 <= u128::MAX,
        input.at + 255_000 <= u128::MAX,
        !is_mixed(id.0, ps),
    ensures
        ({
            let signal = s.ownership.contains_key(id) && s.ownership[id]
                == FrozenOwnership::SignalOnly;
            let due = wakeup_minutes(input.settings) matches Some(minutes) && input.at >= s.since[id]
                + minutes * 60_000;
            background_step(s, record, app, id, ps, audit_due, input, log, i) matches Some(
                (j, after, failure),
            ) ==> {
                &&& due ==> {
                    &&& failure is None
                    &&& forall|m: int|
                        0 <= m < ps.len() ==> thaw_was_tried(
                            log,
                            i,
                            j,
                            handed(ps[m], signal),
                            #[trigger] ps[m],
                            signal,
                        )
                    &&& !after.frozen.contains(id) ==> after.pending.contains_key(id)
                        && after.pending[id] == input.at + (if input.settings.len() > 2 {
                        input.settings[2] * 1000
                    } else {
                        0
                    })
                    &&& after.frozen.contains(id) ==> after.pending == s.pending
                }
                &&& !due && !audit_due ==> j == i && after == s
            }
        }),
{
    thaws_try_everything(id.0, ps, owner(s, id), log, i);
}

/// Without an audit, or where no process is seen running, a frozen application that is not to be
/// woken up is left as it is; with an audit and a process that runs it is frozen again at once,
/// without a delay.
pub proof fn audits_freeze_again_what_runs(
    s: ControlView,
    record: ManagerAppConfigRecord,
    app: AppView,
    id: Ident,
    ps: Seq<ProcessView>,
    audit_due: bool,
    input: PassInput,
    log: Seq<Effect>,
    i: int,
)
    requires
        s.frozen.contains(id),
        wakeup_minutes(input.settings) is None,
    ensures
        ({
            let runs = exists|m: int|
                0 <= m < ps.len() && (#[trigger] ps[m]).control_state == ControlState::Running;
            background_step(s, record, app, id, ps, audit_due, input, log, i) matches Some(
                (j, after, failure),
            ) ==> {
                &&& !audit_due || !runs ==> j == i && after == s && failure is None
                &&& audit_due && runs ==> j > i
            }
        }),
{
    let s1 = crate::app::controller::state::seen_running(s, id);
    if audit_due && crate::app::controller::pass::any_running(ps) {
        attempts_without_delay_act(s1, record, app, id, ps, true, input, log, i);
    }
}

/// The first setting block says nothing about a delay, or the freeze that waits is due.
spec fn need_not_wait(
    s: ControlView,
    record: ManagerAppConfigRecord,
    id: Ident,
    abnormal: bool,
    input: PassInput,
) -> bool {
    abnormal || crate::app::controller::rules::policy_delay(record.mode, input.settings) == 0 || (
    s.pending.contains_key(id) && s.pending[id] <= input.at)
}

proof fn stops_make_calls(
    ps: Seq<ProcessView>,
    promotion: SignalStopLedgerPromotion,
    log: Seq<Effect>,
    i: int,
)
    requires
        ps.len() > 0,
    ensures
        stop_transaction(ps, promotion, log, i) matches Some((j, _)) ==> j > i,
        freeze_transaction(ps, false, log, i) matches Some((j, _)) ==> j > i,
        kill_transaction(ps, log, i) matches Some((j, _)) ==> j > i,
{
    let head = "identity validation failed"@;
    let kill = "identity validation failed before SIGKILL"@;
    first_check_asks(ps, head, log, i);
    first_check_asks(ps, kill, log, i);
    if let Some((j, None)) = prechecked(ps, 0, head, log, i) {
        freezing_kills_nothing(ps, 0, true, log, j);
        freezing_kills_nothing(ps, 0, false, log, j);
        if let Some((j2, n, Some(_))) = freezing(ps, 0, true, log, j) {
            undoing_forces_nothing(ps, n, true, log, j2, 0, 0);
        }
        if let Some((j2, n, Some(_))) = freezing(ps, 0, false, log, j) {
            undoing_forces_nothing(ps, n, false, log, j2, 0, 0);
        }
    }
    if let Some((j, None)) = prechecked(ps, 0, kill, log, i) {
        killing_freezes_nothing(ps, 0, log, j);
    }
    if let Some((j, _)) = freeze_transaction(ps, true, log, i) {
        noting_forces_nothing(ps, 0, log, j);
    }
}

proof fn first_check_asks(ps: Seq<ProcessView>, head: Seq<char>, log: Seq<Effect>, i: int)
    requires
        ps.len() > 0,
    ensures
        prechecked(ps, 0, head, log, i) matches Some((j, _)) ==> j > i,
{
    checks_only_ask(ps, 1, head, log, i + 1);
}

#[verifier::rlimit(40)]
#[verifier::spinoff_prover]
proof fn attempts_without_delay_act(
    s: ControlView,
    record: ManagerAppConfigRecord,
    app: AppView,
    id: Ident,
    ps: Seq<ProcessView>,
    abnormal: bool,
    input: PassInput,
    log: Seq<Effect>,
    i: int,
)
    requires
        need_not_wait(s, record, id, abnormal, input),
        ps.len() > 0,
    ensures
        attempt_step(s, record, app, id, ps, abnormal, input, log, i) matches Some((j, _, _)) ==> j
            > i,
{
    let (s1, due) = delay_step(s, record, id, ps, abnormal, input.settings, input.at);
    assert(due);
    if let Some((j, s2, go)) = download_step(s1, record, id, ps, input.at, log, i) {
        if go {
            actions_follow_the_mode(
                s2,
                record,
                input.settings,
                app,
                id,
                ps,
                abnormal,
                input.binder,
                input.at,
                log,
                j,
            );
            if j == i {
                actions_make_calls(
                    s2,
                    record,
                    input.settings,
                    app,
                    id,
                    ps,
                    abnormal,
                    input.binder,
                    input.at,
                    log,
                    j,
                );
            }
        }
    }
}

#[verifier::rlimit(40)]
#[verifier::spinoff_prover]
proof fn actions_make_calls(
    s: ControlView,
    record: ManagerAppConfigRecord,
    settings: Seq<u8>,
    app: AppView,
    id: Ident,
    ps: Seq<ProcessView>,
    abnormal: bool,
    binder: bool,
    at: u128,
    log: Seq<Effect>,
    i: int,
)
    requires
        ps.len() > 0,
    ensures
        acted(s, record, settings, app, id, ps, abnormal, binder, at, log, i) matches Some(
            (j, _, _),
        ) ==> j > i,
{
    let pending = all_with_control_state(ps, ControlState::PendingFreeze);
    let env = crate::app::controller::rules::environment(pending, binder);
    if let Some((j, decision)) = decided(record, settings, app, pending, env, log, i) {
        stops_make_calls(pending, SignalStopLedgerPromotion::Never, log, j);
        reading_forces_nothing(pending, 0, log, j);
        if let Some((j2, promotion)) = promotion_for(s, id, pending, log, j) {
            stops_make_calls(pending, promotion, log, j2);
        }
        if j == i + 1 {
            crate::app::controller::laws::acting_is_careful(
                s,
                record,
                settings,
                app,
                id,
                ps,
                abnormal,
                binder,
                at,
                log,
                i,
            );
            if let Some((j3, s3, c)) = decision_carried(
                s,
                record,
                id,
                ps,
                pending,
                env,
                decision,
                at,
                log,
                j,
            ) {
                crate::app::controller::laws::carrying_is_careful(
                    s,
                    record,
                    id,
                    ps,
                    pending,
                    env,
                    decision,
                    at,
                    log,
                    j,
                );
            }
        }
    }
}

/// An application in the background that is not frozen is dealt with as soon as it need not wait:
/// where its mode has no delay, or where the time is up for which it waited.
pub proof fn what_is_due_is_dealt_with(
    s: ControlView,
    record: ManagerAppConfigRecord,
    app: AppView,
    id: Ident,
    ps: Seq<ProcessView>,
    audit_due: bool,
    input: PassInput,
    log: Seq<Effect>,
    i: int,
)
    requires
        !s.frozen.contains(id),
        ps.len() > 0,
        (s.pending.contains_key(id) && s.pending[id] <= input.at) || (record.mode == 10 && (
        input.settings.len() <= 4 || input.settings[4] == 0)) || ((record.mode == 20 || record.mode
            == 21 || record.mode == 30 || record.mode == 31) && (input.settings.len() <= 2
            || input.settings[2] == 0)),
    ensures
        background_step(s, record, app, id, ps, audit_due, input, log, i) matches Some((j, _, _))
            ==> j > i,
{
    attempts_without_delay_act(s, record, app, id, ps, false, input, log, i);
}

/// The minutes between audits once the first quarter of an hour is over, by the seventh setting.
pub open spec fn audit_minutes(settings: Seq<u8>) -> Option<int> {
    if settings.len() <= 6 {
        None
    } else if settings[6] == 1 {
        Some(30)
    } else if settings[6] == 2 {
        Some(60)
    } else if settings[6] == 3 {
        Some(120)
    } else {
        None
    }
}

/// The first audit is due a minute after the first pass. In the first quarter of an hour one
/// audit follows another after a minute, later after the configured minutes, and there is none
/// where none are configured.
pub proof fn audits_come_when_they_are_due(
    s: ControlView,
    settings: Seq<u8>,
    first: u128,
    at: u128,
    later: u128,
)
    requires
        s.audit_start is None,
        s.next_audit is None,
        first <= at <= later,
        later + 7_200_000 <= u128::MAX,
    ensures
        ({
            let s1 = audit(s, settings, first).0;
            let s2 = audit(s1, settings, at).0;
            &&& !audit(s, settings, first).1
            &&& at < first + 900_000 ==> audit(s1, settings, at).1 == (at >= first + 60_000)
            &&& at < first + 900_000 && audit(s1, settings, at).1 && later < first + 900_000
                ==> audit(s2, settings, later).1 == (later >= at + 60_000)
            &&& at >= first + 900_000 && audit_minutes(settings) is None ==> !audit(
                s1,
                settings,
                at,
            ).1
            &&& at >= first + 900_000 && audit_minutes(settings) is Some ==> audit(
                s1,
                settings,
                at,
            ).1 && audit(s2, settings, later).1 == (later >= at + audit_minutes(settings)->0
                * 60_000)
        }),
{
}

/// Only the times of the audits change where it is asked whether one is due.
pub proof fn asking_for_audits_changes_nothing_else(s: ControlView, settings: Seq<u8>, at: u128)
    ensures
        audit(s, settings, at).0 == (ControlView {
            audit_start: audit(s, settings, at).0.audit_start,
            next_audit: audit(s, settings, at).0.next_audit,
            ..s
        }),
{
}

// ---------------------------------------------------------------------------
// Every record
// ---------------------------------------------------------------------------

/// From `i` to `j` the processes of a uid are listed.
pub open spec fn are_listed(log: Seq<Effect>, i: int, j: int, uid: u32) -> bool {
    exists|a: int|
        i <= a < j && (#[trigger] log[a] matches Effect::Discover { uid: u, .. } && u == uid)
}

/// A pass that goes through lists the processes of every application under control; one that does
/// not go through ends with an error that a listing gave.
pub proof fn every_record_is_handled(
    s: ControlView,
    records: Seq<ManagerAppConfigRecord>,
    k: int,
    audit_due: bool,
    input: PassInput,
    log: Seq<Effect>,
    i: int,
    m: int,
)
    requires
        0 <= k <= m < records.len(),
        records[m].mode == 10 || records[m].mode == 20 || records[m].mode == 21 || records[m].mode
            == 30 || records[m].mode == 31,
    ensures
        records_step(s, records, k, audit_due, input, log, i) matches Some((j, _, failure)) ==> {
            &&& i <= j
            &&& failure is None ==> are_listed(log, i, j, records[m].uid)
        },
    decreases records.len() - k,
{
    records_are_handled_by_their_mode(s, records[k], audit_due, input, log, i);
    if let Some((j, s1, None)) = record_step(s, records[k], audit_due, input, log, i) {
        crate::app::controller::laws::records_are_handled_carefully(
            s1,
            records,
            k + 1,
            audit_due,
            input,
            log,
            j,
        );
        if k < m {
            every_record_is_handled(s1, records, k + 1, audit_due, input, log, j, m);
            if let Some((end, _, None)) = records_step(
                s1,
                records,
                k + 1,
                audit_due,
                input,
                log,
                j,
            ) {
                let a = choose|a: int|
                    j <= a < end && (#[trigger] log[a] matches Effect::Discover { uid: u, .. } && u
                        == records[m].uid);
                assert(log[a] is Discover);
            }
        } else {
            a_record_lists_its_processes(s, records[m], audit_due, input, log, i);
            if let Some((end, _, _)) = records_step(s1, records, k + 1, audit_due, input, log, j) {
                assert(log[i] is Discover);
                assert(i < j <= end);
            }
        }
    }
}

proof fn a_record_lists_its_processes(
    s: ControlView,
    record: ManagerAppConfigRecord,
    audit_due: bool,
    input: PassInput,
    log: Seq<Effect>,
    i: int,
)
    requires
        controls(record.mode),
    ensures
        record_step(s, record, audit_due, input, log, i) matches Some((j, _, _)) ==> i < j && (
        log[i] matches Effect::Discover { uid, .. } && uid == record.uid),
{
    if let Some(Ok(ps)) = found(log, i, record.uid) {
        applications_follow_the_mode(s, record, ps, audit_due, input, log, i + 1);
    }
}

/// While an application downloads, its freeze is put off: by a second after a reading, by half a
/// minute where there was none.
pub proof fn downloads_put_a_freeze_off(
    s: ControlView,
    record: ManagerAppConfigRecord,
    id: Ident,
    ps: Seq<ProcessView>,
    at: u128,
    log: Seq<Effect>,
    i: int,
)
    requires
        at + 30_000 <= u128::MAX,
    ensures
        download_step(s, record, id, ps, at, log, i) matches Some((j, after, go)) ==> {
            &&& !go ==> {
                &&& j == i + 1
                &&& log[i] matches Effect::Sample { uid, reply, .. } && uid == record.uid
                    && after.pending.contains_key(id) && after.pending[id] == at + (
                if reply is Ok {
                    1_000int
                } else {
                    30_000int
                })
            }
            &&& go ==> after.pending == s.pending
            &&& after.frozen == s.frozen
        },
{
}

/// After a freeze that failed, the fallback to signals stops every process, or says that it did not;
/// only then is the network restricted where the mode asks for it. Any other fallback does nothing
/// to the processes.
pub proof fn fallbacks_stop_every_process_or_none(
    s: ControlView,
    record: ManagerAppConfigRecord,
    id: Ident,
    pending: Seq<ProcessView>,
    action: DecisionAction,
    at: u128,
    log: Seq<Effect>,
    i: int,
)
    ensures
        fallback_carried(s, record, id, pending, action, at, log, i) matches Some(
            (j, after, what, result, backend, _),
        ) ==> {
            &&& action == DecisionAction::Signal && result == OperationResult::Success ==> {
                &&& what == ControlAction::Freeze
                &&& backend == "signal.stop"@
                &&& after.frozen == s.frozen.insert(id)
                &&& restricts_network(s, after, record)
                &&& forall|m: int|
                    0 <= m < pending.len() ==> was_frozen(log, i, j, #[trigger] pending[m], true)
            }
            &&& action == DecisionAction::Signal && result != OperationResult::Success ==> {
                &&& what == ControlAction::Fallback
                &&& after.network == s.network
                &&& after.frozen == s.frozen || after.frozen == s.frozen.insert(id)
            }
            &&& action != DecisionAction::Signal ==> j == i && after.frozen == s.frozen
                && after.pending == s.pending
        },
{
    if action == DecisionAction::Signal {
        crate::laws::transactions::freezes_are_all_or_nothing(pending, true, log, i);
        assert(stop_transaction(pending, SignalStopLedgerPromotion::Never, log, i)
            == freeze_transaction(pending, true, log, i));
    }
}

} // verus!
