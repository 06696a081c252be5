//! What waits before it is frozen, and for how long.

use vstd::prelude::*;

use crate::app::controller::carry::{
    acted, decided, decision_carried, fallback_carried, freeze_carried, stop_carried,
};
use crate::app::controller::laws::{
    application_is_handled_carefully, lists_its_own, record_is_handled_carefully,
    records_are_handled_carefully, same_process, spares, thaw_each_is_careful,
};
use crate::app::controller::pass::{
    app_step, attempt_step, controlled, delay_step, download_step, pass_from, protected_step,
    record_step, records_step, PassInput,
};
use crate::app::controller::port::Effect;
use crate::app::controller::rules::{controls, managed_app, record_policy};
use crate::app::controller::state::ControlView;
use crate::app::controller::thaw::{found, thaw_each, thaw_one};
use crate::app::controller::transaction::freeze_transaction;
use crate::app::freezer_backend::{BackendEnvironment, DecisionAction, DecisionView};
use crate::domain::identity::Ident;
use crate::domain::policy::{control_allowed, AppView, PolicyView};
use crate::domain::runtime::{all_with_control_state, ControlState, ProcessView};
use crate::protocol::records::ManagerAppConfigRecord;

verus! {

/// No application of the uid is frozen, and no freeze of it is due before a time.
pub open spec fn waits_until(s: ControlView, uid: u32, due: int) -> bool {
    &&& forall|id: Ident| #[trigger] s.frozen.contains(id) ==> id.1 != uid
    &&& forall|id: Ident| #[trigger]
        s.pending.contains_key(id) && id.1 == uid ==> s.pending[id] >= due
}

/// The settings ask for a delay of at least so many seconds before an application under this
/// mode is controlled: the fifth one where it is killed, the third one where it is frozen or
/// stopped.
pub open spec fn asks_delay(mode: i32, settings: Seq<u8>, seconds: int) -> bool {
    &&& mode == 10 ==> settings.len() > 4 && settings[4] >= seconds
    &&& mode == 20 || mode == 21 || mode == 30 || mode == 31 ==> settings.len() > 2 && settings[2]
        >= seconds
}

/// Every record of the uid asks for a delay of at least so many seconds.
pub open spec fn all_ask_delay(
    records: Seq<ManagerAppConfigRecord>,
    settings: Seq<u8>,
    uid: u32,
    seconds: int,
) -> bool {
    forall|m: int|
        0 <= m < records.len() && (#[trigger] records[m]).uid == uid ==> asks_delay(
            records[m].mode,
            settings,
            seconds,
        )
}

/// For the uid nothing more is frozen than before, and what waits is due as before.
pub(crate) open spec fn adds_nothing(a: ControlView, b: ControlView, uid: u32) -> bool {
    &&& forall|id: Ident| #[trigger] b.frozen.contains(id) && id.1 == uid ==> a.frozen.contains(id)
    &&& forall|id: Ident| #[trigger]
        b.pending.contains_key(id) && id.1 == uid ==> a.pending.contains_key(id) && b.pending[id]
            == a.pending[id]
}

pub(crate) proof fn thawing_adds_nothing(
    s: ControlView,
    ids: Seq<Ident>,
    k: int,
    reason: Seq<char>,
    at: u128,
    log: Seq<Effect>,
    i: int,
    failures: Seq<Seq<char>>,
    uid: u32,
)
    ensures
        thaw_each(s, ids, k, reason, at, log, i, failures) matches Some((_, after, _))
            ==> adds_nothing(s, after, uid),
    decreases ids.len() - k,
{
    if 0 <= k < ids.len() {
        if let Some((j, s1, more)) = thaw_one(s, ids[k], reason, at, log, i) {
            assert(adds_nothing(s, s1, uid));
            thawing_adds_nothing(s1, ids, k + 1, reason, at, log, j, failures + more, uid);
        }
    }
}

proof fn fallback_adds_nothing(
    s: ControlView,
    record: ManagerAppConfigRecord,
    id: Ident,
    pending: Seq<ProcessView>,
    action: DecisionAction,
    at: u128,
    log: Seq<Effect>,
    i: int,
    uid: u32,
)
    requires
        id.1 != uid,
    ensures
        fallback_carried(s, record, id, pending, action, at, log, i) matches Some(
            (_, after, _, _, _, _),
        ) ==> adds_nothing(s, after, uid),
{
}

proof fn freezing_adds_nothing(
    s: ControlView,
    record: ManagerAppConfigRecord,
    id: Ident,
    ps: Seq<ProcessView>,
    pending: Seq<ProcessView>,
    policy: PolicyView,
    env: BackendEnvironment,
    reason: Seq<char>,
    at: u128,
    log: Seq<Effect>,
    i: int,
    uid: u32,
)
    requires
        id.1 != uid,
    ensures
        freeze_carried(s, record, id, ps, pending, policy, env, reason, at, log, i) matches Some(
            (_, after, _),
        ) ==> adds_nothing(s, after, uid),
{
    if let Some((j, out)) = freeze_transaction(pending, false, log, i) {
        if let Some(failure) = out.failure {
            if let Effect::Fallback { reply, .. } = log[j] {
                let s1 = crate::app::controller::carry::freeze_failed(s, id, ps, at, out, failure);
                assert(adds_nothing(s, s1, uid));
                fallback_adds_nothing(
                    s1,
                    record,
                    id,
                    pending,
                    reply.action,
                    at,
                    log,
                    j + 1,
                    uid,
                );
            }
        }
    }
}

proof fn stopping_adds_nothing(
    s: ControlView,
    record: ManagerAppConfigRecord,
    id: Ident,
    ps: Seq<ProcessView>,
    pending: Seq<ProcessView>,
    reason: Seq<char>,
    at: u128,
    log: Seq<Effect>,
    i: int,
    uid: u32,
)
    requires
        id.1 != uid,
    ensures
        stop_carried(s, record, id, ps, pending, reason, at, log, i) matches Some((_, after, _))
            ==> adds_nothing(s, after, uid),
{
}

proof fn carrying_adds_nothing(
    s: ControlView,
    record: ManagerAppConfigRecord,
    id: Ident,
    ps: Seq<ProcessView>,
    pending: Seq<ProcessView>,
    env: BackendEnvironment,
    decision: DecisionView,
    at: u128,
    log: Seq<Effect>,
    i: int,
    uid: u32,
)
    requires
        id.1 != uid,
    ensures
        decision_carried(s, record, id, ps, pending, env, decision, at, log, i) matches Some(
            (_, after, _),
        ) ==> adds_nothing(s, after, uid),
{
    match decision.action {
        DecisionAction::Freeze => freezing_adds_nothing(
            s,
            record,
            id,
            ps,
            pending,
            record_policy(record),
            env,
            decision.reason,
            at,
            log,
            i,
            uid,
        ),
        DecisionAction::Signal => stopping_adds_nothing(
            s,
            record,
            id,
            ps,
            pending,
            decision.reason,
            at,
            log,
            i,
            uid,
        ),
        _ => {},
    }
}

#[verifier::rlimit(60)]
#[verifier::spinoff_prover]
proof fn acting_adds_nothing(
    s: ControlView,
    record: ManagerAppConfigRecord,
    settings: Seq<u8>,
    app: AppView,
    id: Ident,
    ps: Seq<ProcessView>,
    abnormal: bool,
    binder: bool,
    at: u128,
    log: Seq<Effect>,
    i: int,
    uid: u32,
)
    requires
        id.1 != uid,
    ensures
        acted(s, record, settings, app, id, ps, abnormal, binder, at, log, i) matches Some(
            (_, after, _),
        ) ==> adds_nothing(s, after, uid),
{
    let pending = all_with_control_state(ps, ControlState::PendingFreeze);
    let env = crate::app::controller::rules::environment(pending, binder);
    if let Some((j, decision)) = decided(record, settings, app, pending, env, log, i) {
        carrying_adds_nothing(s, record, id, ps, pending, env, decision, at, log, j, uid);
    }
}

proof fn attempting_adds_nothing(
    s: ControlView,
    record: ManagerAppConfigRecord,
    app: AppView,
    id: Ident,
    ps: Seq<ProcessView>,
    abnormal: bool,
    input: PassInput,
    log: Seq<Effect>,
    i: int,
    uid: u32,
)
    requires
        id.1 == record.uid,
        id.1 != uid,
    ensures
        attempt_step(s, record, app, id, ps, abnormal, input, log, i) matches Some((_, after, _))
            ==> adds_nothing(s, after, uid),
{
    let (s1, due) = delay_step(s, record, id, ps, abnormal, input.settings, input.at);
    assert(adds_nothing(s, s1, uid));
    if let Some((j, s2, go)) = download_step(s1, record, id, ps, input.at, log, i) {
        assert(adds_nothing(s1, s2, uid));
        acting_adds_nothing(
            s2,
            record,
            input.settings,
            app,
            id,
            ps,
            abnormal,
            input.binder,
            input.at,
            log,
            j,
            uid,
        );
    }
}

proof fn protecting_adds_nothing(
    s: ControlView,
    owner: u32,
    at: u128,
    log: Seq<Effect>,
    i: int,
    uid: u32,
)
    ensures
        protected_step(s, owner, at, log, i) matches Some((_, after)) ==> adds_nothing(
            s,
            after,
            uid,
        ),
{
    let s1 = crate::app::controller::state::transient_cleared(s, owner);
    let ids = crate::domain::identity::ordered(
        s1.frozen.intersect(crate::app::controller::pass::of_uid(owner)),
    );
    let reason = "policy or protected package blocks control"@;
    thawing_adds_nothing(s1, ids, 0, reason, at, log, i, seq![], uid);
    assert(adds_nothing(s, s1, uid));
}

proof fn other_applications_add_nothing(
    s: ControlView,
    record: ManagerAppConfigRecord,
    ps: Seq<ProcessView>,
    audit_due: bool,
    input: PassInput,
    log: Seq<Effect>,
    i: int,
    uid: u32,
)
    requires
        record.uid != uid,
    ensures
        app_step(s, record, ps, audit_due, input, log, i) matches Some((_, after, _))
            ==> adds_nothing(s, after, uid),
{
    let id = (crate::app::controller::rules::least_package(ps), record.uid);
    protecting_adds_nothing(s, record.uid, input.at, log, i + 1, uid);
    if let Effect::Classify { package, system, reply } = log[i] {
        let app = managed_app(id.0, record.uid, reply);
        let s1 = crate::app::controller::state::unblocked(s, id);
        assert(adds_nothing(s, s1, uid));
        attempting_adds_nothing(s1, record, app, id, ps, false, input, log, i + 1, uid);
        let s2 = crate::app::controller::state::seen_running(s1, id);
        assert(adds_nothing(s1, s2, uid));
        attempting_adds_nothing(s2, record, app, id, ps, true, input, log, i + 1, uid);
    }
}

proof fn waiting_application_waits(
    s: ControlView,
    record: ManagerAppConfigRecord,
    ps: Seq<ProcessView>,
    audit_due: bool,
    input: PassInput,
    log: Seq<Effect>,
    i: int,
    due: int,
    seconds: int,
)
    requires
        controls(record.mode),
        waits_until(s, record.uid, due),
        asks_delay(record.mode, input.settings, seconds),
        seconds > 0,
        input.at < due <= input.at + seconds * 1000,
        input.at + seconds * 1000 <= u128::MAX - 255_000,
    ensures
        app_step(s, record, ps, audit_due, input, log, i) matches Some((j, after, _)) ==> {
            &&& waits_until(after, record.uid, due)
            &&& crate::app::controller::laws::gentle(log, i, j)
        },
{
    let uid = record.uid;
    let id = (crate::app::controller::rules::least_package(ps), uid);
    protecting_adds_nothing(s, uid, input.at, log, i + 1, uid);
    crate::app::controller::laws::protected_is_careful(s, uid, input.at, log, i + 1);
    if let Effect::Classify { package, system, reply } = log[i] {
        let app = managed_app(id.0, uid, reply);
        let s1 = crate::app::controller::state::unblocked(s, id);
        crate::app::controller::laws::foreground_is_careful(
            s1,
            uid,
            id,
            ps,
            input.at,
            log,
            i + 1,
        );
        if control_allowed(record_policy(record), app) {
            assert(!s1.frozen.contains(id));
        }
    }
}

proof fn waiting_record_waits(
    s: ControlView,
    records: Seq<ManagerAppConfigRecord>,
    m: int,
    audit_due: bool,
    input: PassInput,
    log: Seq<Effect>,
    i: int,
    uid: u32,
    due: int,
    seconds: int,
)
    requires
        0 <= m < records.len(),
        waits_until(s, uid, due),
        all_ask_delay(records, input.settings, uid, seconds),
        seconds > 0,
        input.at < due <= input.at + seconds * 1000,
        input.at + seconds * 1000 <= u128::MAX - 255_000,
        record_step(s, records[m], audit_due, input, log, i) matches Some((j, _, _))
            ==> lists_its_own(log, i, j),
    ensures
        record_step(s, records[m], audit_due, input, log, i) matches Some((j, after, _)) ==> {
            &&& waits_until(after, uid, due)
            &&& spares(log, i, j, uid)
        },
{
    let record = records[m];
    if let Some((j, after, _)) = record_step(s, record, audit_due, input, log, i) {
        if controls(record.mode) {
            if let Some(Ok(ps)) = found(log, i, record.uid) {
                if ps.len() > 0 {
                    assert(log[i] is Discover);
                    application_is_handled_carefully(s, record, ps, audit_due, input, log, i + 1);
                    if record.uid == uid {
                        waiting_application_waits(
                            s,
                            record,
                            ps,
                            audit_due,
                            input,
                            log,
                            i + 1,
                            due,
                            seconds,
                        );
                    } else {
                        other_applications_add_nothing(
                            s,
                            record,
                            ps,
                            audit_due,
                            input,
                            log,
                            i + 1,
                            uid,
                        );
                        assert forall|k: int| i <= k < j implies (
                        crate::app::controller::laws::forced(#[trigger] log[k]) matches Some(p)
                            ==> p.uid != uid) by {
                            if let Some(p) = crate::app::controller::laws::forced(log[k]) {
                                let n = choose|n: int|
                                    0 <= n < ps.len() && same_process(#[trigger] ps[n], p);
                                assert(ps[n].uid == record.uid);
                            }
                        }
                    }
                }
            }
        }
    }
}

proof fn waiting_records_wait(
    s: ControlView,
    records: Seq<ManagerAppConfigRecord>,
    m: int,
    audit_due: bool,
    input: PassInput,
    log: Seq<Effect>,
    i: int,
    end: int,
    uid: u32,
    due: int,
    seconds: int,
)
    requires
        records_step(s, records, m, audit_due, input, log, i) matches Some((j, _, _)) && j == end,
        waits_until(s, uid, due),
        all_ask_delay(records, input.settings, uid, seconds),
        seconds > 0,
        input.at < due <= input.at + seconds * 1000,
        input.at + seconds * 1000 <= u128::MAX - 255_000,
        lists_its_own(log, i, end),
    ensures
        records_step(s, records, m, audit_due, input, log, i) matches Some((_, after, _))
            && waits_until(after, uid, due),
        i <= end,
        spares(log, i, end, uid),
    decreases records.len() - m,
{
    records_are_handled_carefully(s, records, m, audit_due, input, log, i);
    if 0 <= m < records.len() {
        record_is_handled_carefully(s, records, m, audit_due, input, log, i);
        if let Some((j, s1, failure)) = record_step(s, records[m], audit_due, input, log, i) {
            if failure is None {
                records_are_handled_carefully(s1, records, m + 1, audit_due, input, log, j);
            }
            assert(j <= end);
            waiting_record_waits(
                s,
                records,
                m,
                audit_due,
                input,
                log,
                i,
                uid,
                due,
                seconds,
            );
            if failure is None {
                waiting_records_wait(
                    s1,
                    records,
                    m + 1,
                    audit_due,
                    input,
                    log,
                    j,
                    end,
                    uid,
                    due,
                    seconds,
                );
            }
        }
    }
}

/// Where the settings ask for a delay, a pass freezes and kills nothing of an application that
/// waits for a later time, or that it sees in the background for the first time; and it leaves
/// the application waiting at least until that time.
pub proof fn passes_wait_for_what_is_not_due(
    s: ControlView,
    records: Seq<ManagerAppConfigRecord>,
    input: PassInput,
    log: Seq<Effect>,
    i: int,
    uid: u32,
    due: int,
    seconds: int,
)
    requires
        waits_until(s, uid, due),
        all_ask_delay(records, input.settings, uid, seconds),
        seconds > 0,
        input.at < due <= input.at + seconds * 1000,
        input.at + seconds * 1000 <= u128::MAX - 255_000,
        pass_from(s, records, input, log, i) matches Some((j, _, _)) ==> lists_its_own(log, i, j),
    ensures
        pass_from(s, records, input, log, i) matches Some((j, after, _)) ==> {
            &&& spares(log, i, j, uid)
            &&& waits_until(after, uid, due)
        },
{
    if let Some((end, _, _)) = pass_from(s, records, input, log, i) {
        let uids = controlled(records);
        let s0 = crate::app::controller::pass::retired(s, uids);
        let ids = crate::domain::identity::ordered(
            s.frozen.intersect(crate::app::controller::pass::outside(uids)),
        );
        let reason = "control policy removed"@;
        thaw_each_is_careful(s0, ids, 0, reason, input.at, log, i, seq![]);
        thawing_adds_nothing(s0, ids, 0, reason, input.at, log, i, seq![], uid);
        if let Some((j, s1, _)) = thaw_each(s0, ids, 0, reason, input.at, log, i, seq![]) {
            let (s2, audit_due) = crate::app::controller::rules::audit(
                crate::app::controller::state::without_detached(
                    s1,
                    crate::app::controller::pass::outside(uids),
                ),
                input.settings,
                input.at,
            );
            records_are_handled_carefully(s2, records, 0, audit_due, input, log, j);
            assert(waits_until(s2, uid, due));
            waiting_records_wait(
                s2,
                records,
                0,
                audit_due,
                input,
                log,
                j,
                end,
                uid,
                due,
                seconds,
            );
        }
    }
}

/// One pass: the configuration, the other input and the calls made.
#[verifier::ext_equal]
pub ghost struct Pass {
    pub records: Seq<ManagerAppConfigRecord>,
    pub input: PassInput,
    pub log: Seq<Effect>,
}

/// Each pass starts in one of the states and ends in the next, at no earlier time than the one
/// before.
pub open spec fn passes_follow(states: Seq<ControlView>, passes: Seq<Pass>) -> bool {
    &&& states.len() == passes.len() + 1
    &&& forall|k: int|
        0 <= k < passes.len() ==> (pass_from(
            states[k],
            (#[trigger] passes[k]).records,
            passes[k].input,
            passes[k].log,
            0,
        ) matches Some((end, after, _)) && end == passes[k].log.len() && after == states[k + 1])
    &&& forall|k: int|
        0 < k < passes.len() ==> passes[k - 1].input.at <= (#[trigger] passes[k]).input.at
}

/// An application that is neither frozen nor waiting when a pass first sees it is not frozen or
/// killed in any pass before the configured delay is over, counted from that pass.
pub proof fn first_freezes_wait_out_the_delay(
    states: Seq<ControlView>,
    passes: Seq<Pass>,
    uid: u32,
    seconds: int,
    k: int,
)
    requires
        passes_follow(states, passes),
        0 <= k < passes.len(),
        seconds > 0,
        forall|id: Ident| #[trigger] states[0].frozen.contains(id) ==> id.1 != uid,
        forall|id: Ident| #[trigger] states[0].pending.contains_key(id) ==> id.1 != uid,
        forall|m: int|
            0 <= m <= k ==> all_ask_delay(
                (#[trigger] passes[m]).records,
                passes[m].input.settings,
                uid,
                seconds,
            ),
        forall|m: int|
            0 <= m <= k ==> lists_its_own(
                (#[trigger] passes[m]).log,
                0,
                passes[m].log.len() as int,
            ),
        passes[k].input.at + seconds * 1000 <= u128::MAX - 255_000,
        passes[k].input.at < passes[0].input.at + seconds * 1000,
    ensures
        spares(passes[k].log, 0, passes[k].log.len() as int, uid),
{
    let due = passes[0].input.at + seconds * 1000;
    passes_keep_waiting(states, passes, uid, seconds, due, k);
    passes_wait_for_what_is_not_due(
        states[k],
        passes[k].records,
        passes[k].input,
        passes[k].log,
        0,
        uid,
        due,
        seconds,
    );
}

proof fn times_grow(states: Seq<ControlView>, passes: Seq<Pass>, a: int, b: int)
    requires
        passes_follow(states, passes),
        0 <= a <= b < passes.len(),
    ensures
        passes[a].input.at <= passes[b].input.at,
    decreases b - a,
{
    if a < b {
        times_grow(states, passes, a, b - 1);
        assert(passes[b - 1].input.at <= passes[b].input.at);
    }
}

proof fn passes_keep_waiting(
    states: Seq<ControlView>,
    passes: Seq<Pass>,
    uid: u32,
    seconds: int,
    due: int,
    k: int,
)
    requires
        passes_follow(states, passes),
        0 <= k < passes.len(),
        seconds > 0,
        forall|id: Ident| #[trigger] states[0].frozen.contains(id) ==> id.1 != uid,
        forall|id: Ident| #[trigger] states[0].pending.contains_key(id) ==> id.1 != uid,
        forall|m: int|
            0 <= m <= k ==> all_ask_delay(
                (#[trigger] passes[m]).records,
                passes[m].input.settings,
                uid,
                seconds,
            ),
        forall|m: int|
            0 <= m <= k ==> lists_its_own(
                (#[trigger] passes[m]).log,
                0,
                passes[m].log.len() as int,
            ),
        passes[k].input.at + seconds * 1000 <= u128::MAX - 255_000,
        due == passes[0].input.at + seconds * 1000,
        passes[k].input.at < due,
    ensures
        waits_until(states[k], uid, due),
        passes[0].input.at <= passes[k].input.at,
    decreases k,
{
    times_grow(states, passes, 0, k);
    if k > 0 {
        times_grow(states, passes, k - 1, k);
        passes_keep_waiting(states, passes, uid, seconds, due, k - 1);
        assert(passes[k - 1].log.len() >= 0);
        passes_wait_for_what_is_not_due(
            states[k - 1],
            passes[k - 1].records,
            passes[k - 1].input,
            passes[k - 1].log,
            0,
            uid,
            due,
            seconds,
        );
    }
}

} // verus!
