//! Evidence about live processes, and recovery of processes that an earlier daemon stopped.

use vstd::prelude::*;
use vstd::string::*;

use crate::app::controller::pass::controlled;
use crate::app::controller::rules::{controls, is_control_policy_mode};
use crate::app::controller::transaction::{about_pid, pid_message, validation_error};
use crate::app::error::{error_text, outcome, DaemonError, ErrorView};
use crate::app::logging::{text_record, LogCategory, LogLevel, LogRecord};
use crate::domain::operation::{
    ControlAction, ControlOperation, OperationResult, OperationView,
};
use crate::domain::runtime::{
    all_with_control_state, pids, process_ids, process_views, set_control_states,
    with_control_state, ControlState, ProcessView, RuntimeProcess,
};
use crate::domain::uids::{insert_rising, rising};
use crate::protocol::manager_v1::state::{ManagerView, ReadOnlyState};
use crate::protocol::records::ManagerAppConfigRecord;
use crate::sys::cgroup::FreezeState;
use crate::sys::procfs::SignalStopOwnership;
use crate::sys::socket::told_once;
use crate::text::{copy, decimal, number, text, texts};

verus! {

// ---------------------------------------------------------------------------
// Live control states
// ---------------------------------------------------------------------------

/// The control state that the evidence shows: frozen where the cgroup is frozen or the process
/// is stopped, running where both were read and neither holds it, unknown otherwise.
pub open spec fn judged_state(
    cgroup: Option<FreezeState>,
    proc_state: Option<char>,
) -> ControlState {
    if cgroup == Some(FreezeState::Frozen) {
        ControlState::Frozen
    } else if proc_state == Some('T') || proc_state == Some('t') {
        ControlState::Frozen
    } else if cgroup == Some(FreezeState::Thawed) && proc_state is Some {
        ControlState::Running
    } else {
        ControlState::Unknown
    }
}

/// Missing evidence never makes a process count as running.
pub proof fn missing_evidence_is_never_running(
    cgroup: Option<FreezeState>,
    proc_state: Option<char>,
)
    requires
        cgroup is None || proc_state is None,
    ensures
        judged_state(cgroup, proc_state) != ControlState::Running,
{
}

/// What reading the cgroup of a process shows; a process without a cgroup freezer is thawed
/// as far as cgroups go.
pub open spec fn cgroup_shows<C>(read_cgroup: C, p: ProcessView, seen: Option<FreezeState>) -> bool where
    C: FnMut(&str) -> Result<FreezeState, DaemonError>,
 {
    match p.cgroup_freeze_path {
        None => seen == Some(FreezeState::Thawed),
        Some(path) => exists|s: &str, r: Result<FreezeState, DaemonError>| #[trigger]
            call_ensures(read_cgroup, (s,), r) && s@ == path && seen == read_value(r),
    }
}

/// The value of a successful reading.
pub open spec fn read_value<T>(r: Result<T, DaemonError>) -> Option<T> {
    match r {
        Ok(v) => Some(v),
        Err(_) => None,
    }
}

/// The control state of a process follows from what the readings show. The stop state is not
/// read where the cgroup is frozen.
pub open spec fn state_follows<C, P>(
    read_cgroup: C,
    read_proc: P,
    p: ProcessView,
    state: ControlState,
) -> bool where
    C: FnMut(&str) -> Result<FreezeState, DaemonError>,
    P: FnMut(i32) -> Result<char, DaemonError>,
 {
    exists|seen: Option<FreezeState>|
        {
            &&& #[trigger] cgroup_shows(read_cgroup, p, seen)
            &&& if seen == Some(FreezeState::Frozen) {
                state == ControlState::Frozen
            } else {
                exists|pid: i32, r: Result<char, DaemonError>| #[trigger]
                    call_ensures(read_proc, (pid,), r) && pid == p.pid && state == judged_state(
                        seen,
                        read_value(r),
                    )
            }
        }
}

/// A process whose control state was set from what the readings show, and nothing else of it.
pub open spec fn reconciled<C, P>(
    read_cgroup: C,
    read_proc: P,
    was: ProcessView,
    now: ProcessView,
) -> bool where
    C: FnMut(&str) -> Result<FreezeState, DaemonError>,
    P: FnMut(i32) -> Result<char, DaemonError>,
 {
    &&& now == with_control_state(was, now.control_state)
    &&& state_follows(read_cgroup, read_proc, was, now.control_state)
}

/// What a process shows can be read: its cgroup, where it has one, and its own state.
pub open spec fn readable<C, P>(read_cgroup: C, read_proc: P, p: ProcessView) -> bool where
    C: FnMut(&str) -> Result<FreezeState, DaemonError>,
    P: FnMut(i32) -> Result<char, DaemonError>,
 {
    &&& p.cgroup_freeze_path matches Some(path) ==> forall|s: &str|
        s@ == path ==> #[trigger] call_requires(read_cgroup, (s,))
    &&& forall|pid: i32| pid == p.pid ==> #[trigger] call_requires(read_proc, (pid,))
}

/// Sets the control state of every process from evidence.
pub fn reconcile_live_process_control_states<C, P>(
    processes: &mut Vec<RuntimeProcess>,
    read_cgroup_state: C,
    read_proc_state: P,
) where
    C: FnMut(&str) -> Result<FreezeState, DaemonError>,
    P: FnMut(i32) -> Result<char, DaemonError>,

    requires
        forall|i: int|
            0 <= i < old(processes)@.len() ==> readable(
                read_cgroup_state,
                read_proc_state,
                (#[trigger] old(processes)@[i])@,
            ),
    ensures
        final(processes)@.len() == old(processes)@.len(),
        forall|i: int|
            0 <= i < old(processes)@.len() ==> reconciled(
                read_cgroup_state,
                read_proc_state,
                old(processes)@[i]@,
                (#[trigger] final(processes)@[i])@,
            ),
{
    let mut read_cgroup = read_cgroup_state;
    let mut read_proc = read_proc_state;
    let mut i: usize = 0;
    let ghost before = processes@;
    while i < processes.len()
        invariant
            i <= processes@.len(),
            before == old(processes)@,
            processes@.len() == before.len(),
            read_cgroup == read_cgroup_state,
            read_proc == read_proc_state,
            forall|j: int|
                0 <= j < before.len() ==> readable(
                    read_cgroup_state,
                    read_proc_state,
                    (#[trigger] before[j])@,
                ),
            forall|j: int| i <= j < before.len() ==> processes@[j] == #[trigger] before[j],
            forall|j: int|
                0 <= j < i ==> reconciled(
                    read_cgroup_state,
                    read_proc_state,
                    before[j]@,
                    (#[trigger] processes@[j])@,
                ),
        decreases processes@.len() - i,
    {
        let mut process = processes[i].clone();
        let ghost p = before[i as int]@;
        assert(readable(read_cgroup_state, read_proc_state, p));
        let cgroup_state: Option<FreezeState> = match &process.cgroup_freeze_path {
            Some(path) => match read_cgroup(path.as_str()) {
                Ok(state) => Some(state),
                Err(_) => None,
            },
            None => Some(FreezeState::Thawed),
        };
        assert(cgroup_shows(read_cgroup_state, p, cgroup_state));
        let cgroup_frozen = match cgroup_state {
            Some(FreezeState::Frozen) => true,
            _ => false,
        };
        if cgroup_frozen {
            process.control_state = ControlState::Frozen;
        } else {
            let reply = read_proc(process.pid);
            assert(call_ensures(read_proc_state, (process.pid,), reply));
            let cgroup_thawed = match cgroup_state {
                Some(FreezeState::Thawed) => true,
                _ => false,
            };
            process.control_state =
            match reply {
                Ok(state) => if state == 'T' || state == 't' {
                    ControlState::Frozen
                } else if cgroup_thawed {
                    ControlState::Running
                } else {
                    ControlState::Unknown
                },
                Err(_) => ControlState::Unknown,
            };
        }
        assert(state_follows(read_cgroup_state, read_proc_state, p, process.control_state));
        assert(process@ == with_control_state(p, process.control_state));
        let ghost prior = processes@;
        processes.set(i, process);
        proof {
            assert(processes@[i as int] == process);
            assert forall|j: int| 0 <= j < i + 1 implies reconciled(
                read_cgroup_state,
                read_proc_state,
                before[j]@,
                (#[trigger] processes@[j])@,
            ) by {
                if j < i {
                    assert(processes@[j] == prior[j]);
                    assert(reconciled(
                        read_cgroup_state,
                        read_proc_state,
                        before[j]@,
                        prior[j]@,
                    ));
                } else {
                    assert(processes@[j]@ == process@);
                }
            }
        }
        i += 1;
    }
}

// ---------------------------------------------------------------------------
// Recovery after a restart
// ---------------------------------------------------------------------------

/// A call that recovery makes, and its reply.
#[allow(inconsistent_fields)]
#[verifier::ext_equal]
pub ghost enum RecoveryEffect {
    /// Asks whether a process is still the one that was discovered.
    Validate { process: ProcessView, reply: Result<bool, ErrorView> },
    /// Thaws a cgroup.
    ThawCgroup { path: Seq<char>, reply: Result<(), ErrorView> },
    /// Lifts the binder freeze of a process.
    UnfreezeBinder { process: ProcessView, reply: Result<(), ErrorView> },
    /// Continues a stopped process.
    Resume { process: ProcessView, reply: Result<(), ErrorView> },
}

/// The calls of recovery given as functions, with a record of the calls made.
pub struct RecoveryPort<V, T, B, S> where
    V: FnMut(&RuntimeProcess) -> Result<bool, DaemonError>,
    T: FnMut(&str) -> Result<(), DaemonError>,
    B: FnMut(&RuntimeProcess) -> Result<(), DaemonError>,
    S: FnMut(&RuntimeProcess) -> Result<(), DaemonError>,
 {
    validate_process: V,
    thaw_cgroup: T,
    unfreeze_binder: B,
    resume_signal: S,
    trace: Ghost<Seq<RecoveryEffect>>,
}

/// The functions can be called for a process, and for its cgroup where it has one.
pub open spec fn serves<V, T, B, S>(
    validate: V,
    thaw: T,
    binder: B,
    resume: S,
    p: ProcessView,
) -> bool where
    V: FnMut(&RuntimeProcess) -> Result<bool, DaemonError>,
    T: FnMut(&str) -> Result<(), DaemonError>,
    B: FnMut(&RuntimeProcess) -> Result<(), DaemonError>,
    S: FnMut(&RuntimeProcess) -> Result<(), DaemonError>,
 {
    &&& forall|q: &RuntimeProcess| q@ == p ==> #[trigger] call_requires(validate, (q,))
    &&& p.cgroup_freeze_path matches Some(path) ==> forall|s: &str|
        s@ == path ==> #[trigger] call_requires(thaw, (s,))
    &&& forall|q: &RuntimeProcess| q@ == p ==> #[trigger] call_requires(binder, (q,))
    &&& forall|q: &RuntimeProcess| q@ == p ==> #[trigger] call_requires(resume, (q,))
}

/// A call with a reply that one of these functions can return.
pub open spec fn recovery_gives<V, T, B, S>(
    validate: V,
    thaw: T,
    binder: B,
    resume: S,
    e: RecoveryEffect,
) -> bool where
    V: FnMut(&RuntimeProcess) -> Result<bool, DaemonError>,
    T: FnMut(&str) -> Result<(), DaemonError>,
    B: FnMut(&RuntimeProcess) -> Result<(), DaemonError>,
    S: FnMut(&RuntimeProcess) -> Result<(), DaemonError>,
 {
    match e {
        RecoveryEffect::Validate { process, reply } => exists|
            p: &RuntimeProcess,
            r: Result<bool, DaemonError>,
        | #[trigger] call_ensures(validate, (p,), r) && p@ == process && outcome(r) == reply,
        RecoveryEffect::ThawCgroup { path, reply } => exists|s: &str, r: Result<(), DaemonError>|
            #[trigger] call_ensures(thaw, (s,), r) && s@ == path && outcome(r) == reply,
        RecoveryEffect::UnfreezeBinder { process, reply } => exists|
            p: &RuntimeProcess,
            r: Result<(), DaemonError>,
        | #[trigger] call_ensures(binder, (p,), r) && p@ == process && outcome(r) == reply,
        RecoveryEffect::Resume { process, reply } => exists|
            p: &RuntimeProcess,
            r: Result<(), DaemonError>,
        | #[trigger] call_ensures(resume, (p,), r) && p@ == process && outcome(r) == reply,
    }
}

/// What recovery of a process did.
#[derive(Debug, Clone, PartialEq, Eq)]
pub struct RestartRecoveryOutcome {
    pub cgroup_thawed: bool,
    pub signal_resumed: bool,
    pub failures: Vec<String>,
}

/// The outcome of recovery as a value.
#[verifier::ext_equal]
pub ghost struct RecoveryView {
    pub cgroup_thawed: bool,
    pub signal_resumed: bool,
    pub failures: Seq<Seq<char>>,
}

impl View for RestartRecoveryOutcome {
    type V = RecoveryView;

    open spec fn view(&self) -> RecoveryView {
        RecoveryView {
            cgroup_thawed: self.cgroup_thawed,
            signal_resumed: self.signal_resumed,
            failures: texts(self.failures@),
        }
    }
}

/// The failure of a validation in a phase of recovery, if the reply at position `i` is one.
pub open spec fn identity_current(
    log: Seq<RecoveryEffect>,
    i: int,
    p: ProcessView,
    phase: Seq<char>,
) -> Option<Option<Seq<char>>> {
    match log[i] {
        RecoveryEffect::Validate { process, reply } if 0 <= i < log.len() && process == p => Some(
            if reply == Ok::<bool, ErrorView>(true) {
                None
            } else {
                Some(
                    about_pid(
                        "identity validation failed "@ + phase,
                        p.pid,
                        validation_error(reply),
                    ),
                )
            },
        ),
        _ => None,
    }
}

/// Whether only the signal is to be undone: the ledger says so and the cgroup was read as
/// thawed.
pub open spec fn signal_only_recovery(
    ledger: Option<SignalStopOwnership>,
    cgroup: Option<FreezeState>,
) -> bool {
    ledger == Some(SignalStopOwnership::SignalOnly) && cgroup == Some(FreezeState::Thawed)
}

/// An outcome with one more failure.
pub open spec fn and_failure(out: RecoveryView, failure: Seq<char>) -> RecoveryView {
    RecoveryView { failures: out.failures.push(failure), ..out }
}

/// Continuing a process that the ledger holds; nothing where it holds none.
pub open spec fn resumed(
    p: ProcessView,
    ledger: Option<SignalStopOwnership>,
    out: RecoveryView,
    log: Seq<RecoveryEffect>,
    i: int,
) -> Option<(int, RecoveryView)> {
    if ledger is None {
        Some((i, out))
    } else {
        match identity_current(log, i, p, "immediately before SIGCONT"@) {
            None => None,
            Some(Some(failure)) => Some((i + 1, and_failure(out, failure))),
            Some(None) => match log[i + 1] {
                RecoveryEffect::Resume { process, reply } if 0 <= i + 1 < log.len() && process
                    == p => Some(
                    (
                        i + 2,
                        match reply {
                            Ok(_) => RecoveryView { signal_resumed: true, ..out },
                            Err(e) => and_failure(
                                out,
                                about_pid("SIGCONT failed"@, p.pid, Some(e)),
                            ),
                        },
                    ),
                ),
                _ => None,
            },
        }
    }
}

/// Thawing the cgroup and the binder of a process, then continuing it. The process is
/// validated before each step, and a failed validation ends recovery.
pub open spec fn fully_recovered(
    p: ProcessView,
    path: Seq<char>,
    ledger: Option<SignalStopOwnership>,
    log: Seq<RecoveryEffect>,
    i: int,
) -> Option<(int, RecoveryView)> {
    let out = RecoveryView { cgroup_thawed: false, signal_resumed: false, failures: seq![] };
    match identity_current(log, i, p, "before cgroup thaw"@) {
        None => None,
        Some(Some(failure)) => Some((i + 1, and_failure(out, failure))),
        Some(None) => match log[i + 1] {
            RecoveryEffect::ThawCgroup { path: cgroup, reply } if 0 <= i + 1 < log.len() && cgroup
                == path => {
                let out1 = match reply {
                    Ok(_) => RecoveryView { cgroup_thawed: true, ..out },
                    Err(e) => and_failure(out, about_pid("cgroup thaw failed"@, p.pid, Some(e))),
                };
                match identity_current(log, i + 2, p, "before binder unfreeze"@) {
                    None => None,
                    Some(Some(failure)) => Some((i + 3, and_failure(out1, failure))),
                    Some(None) => match log[i + 3] {
                        RecoveryEffect::UnfreezeBinder { process, reply } if 0 <= i + 3 < log.len()
                            && process == p => {
                            let out2 = match reply {
                                Ok(_) => out1,
                                Err(e) => and_failure(
                                    out1,
                                    about_pid("binder unfreeze failed"@, p.pid, Some(e)),
                                ),
                            };
                            resumed(p, ledger, out2, log, i + 4)
                        },
                        _ => None,
                    },
                }
            },
            _ => None,
        },
    }
}

/// Recovering one process: fully where it has a cgroup freezer, unless only the signal is to
/// be undone.
pub open spec fn process_recovered(
    p: ProcessView,
    ledger: Option<SignalStopOwnership>,
    cgroup: Option<FreezeState>,
    log: Seq<RecoveryEffect>,
    i: int,
) -> Option<(int, RecoveryView)> {
    match p.cgroup_freeze_path {
        Some(path) if !signal_only_recovery(ledger, cgroup) => fully_recovered(
            p,
            path,
            ledger,
            log,
            i,
        ),
        _ => resumed(
            p,
            ledger,
            RecoveryView { cgroup_thawed: false, signal_resumed: false, failures: seq![] },
            log,
            i,
        ),
    }
}

/// Only a signal recorded as the only holder of a thawed cgroup is undone alone; in every
/// other case with a cgroup freezer the first calls validate the process and thaw the cgroup.
pub proof fn unclear_provenance_is_fully_recovered(
    p: ProcessView,
    ledger: Option<SignalStopOwnership>,
    cgroup: Option<FreezeState>,
    log: Seq<RecoveryEffect>,
)
    requires
        p.cgroup_freeze_path is Some,
        ledger != Some(SignalStopOwnership::SignalOnly) || cgroup != Some(FreezeState::Thawed),
        process_recovered(p, ledger, cgroup, log, 0) matches Some((j, _)) && j > 1,
    ensures
        log[0] is Validate,
        log[1] is ThawCgroup,
{
}

/// A process that does not validate is never continued.
pub proof fn drifted_process_is_never_continued(
    p: ProcessView,
    ledger: Option<SignalStopOwnership>,
    cgroup: Option<FreezeState>,
    log: Seq<RecoveryEffect>,
)
    requires
        forall|i: int|
            0 <= i < log.len() ==> ((#[trigger] log[i]) matches RecoveryEffect::Validate {
                reply,
                ..
            } ==> reply != Ok::<bool, ErrorView>(true)),
        process_recovered(p, ledger, cgroup, log, 0) matches Some((j, _)) && j == log.len(),
    ensures
        process_recovered(p, ledger, cgroup, log, 0) matches Some((_, out)) && !out.signal_resumed
            && !out.cgroup_thawed,
        forall|i: int| 0 <= i < log.len() ==> (#[trigger] log[i]) is Validate,
{
}

impl<V, T, B, S> RecoveryPort<V, T, B, S> where
    V: FnMut(&RuntimeProcess) -> Result<bool, DaemonError>,
    T: FnMut(&str) -> Result<(), DaemonError>,
    B: FnMut(&RuntimeProcess) -> Result<(), DaemonError>,
    S: FnMut(&RuntimeProcess) -> Result<(), DaemonError>,
 {
    /// The calls made so far.
    pub closed spec fn log(&self) -> Seq<RecoveryEffect> {
        self.trace@
    }

    /// The functions, none of which is made from the calls.
    pub closed spec fn functions(&self) -> (V, T, B, S) {
        (self.validate_process, self.thaw_cgroup, self.unfreeze_binder, self.resume_signal)
    }

    /// The calls can be made for a process.
    pub open spec fn can_serve(&self, p: ProcessView) -> bool {
        serves(self.functions().0, self.functions().1, self.functions().2, self.functions().3, p)
    }

    /// Every call made so far has a reply that its function can return.
    pub closed spec fn sound(&self) -> bool {
        forall|i: int|
            0 <= i < self.trace@.len() ==> recovery_gives(
                self.validate_process,
                self.thaw_cgroup,
                self.unfreeze_binder,
                self.resume_signal,
                #[trigger] self.trace@[i],
            )
    }

    /// Recovery with these functions.
    pub fn new(validate_process: V, thaw_cgroup: T, unfreeze_binder: B, resume_signal: S) -> (r:
        Self)
        ensures
            r.sound(),
            r.log() == Seq::<RecoveryEffect>::empty(),
            r.functions() == (validate_process, thaw_cgroup, unfreeze_binder, resume_signal),
    {
        RecoveryPort {
            validate_process,
            thaw_cgroup,
            unfreeze_binder,
            resume_signal,
            trace: Ghost(Seq::empty()),
        }
    }

    /// Every call made so far has a reply that its function can return.
    pub proof fn replies_are_given(self)
        requires
            self.sound(),
        ensures
            forall|i: int|
                0 <= i < self.log().len() ==> recovery_gives(
                    self.functions().0,
                    self.functions().1,
                    self.functions().2,
                    self.functions().3,
                    #[trigger] self.log()[i],
                ),
    {
    }

    fn check(&mut self, process: &RuntimeProcess, phase: &str) -> (r: Option<String>)
        requires
            old(self).sound(),
            old(self).can_serve(process@),
        ensures
            final(self).sound(),
            final(self).functions() == old(self).functions(),
            final(self).log().len() == old(self).log().len() + 1,
            final(self).log().take(old(self).log().len() as int) == old(self).log(),
            identity_current(
                final(self).log(),
                old(self).log().len() as int,
                process@,
                phase@,
            ) == Some(
                match r {
                    Some(s) => Some(s@),
                    None => None,
                },
            ),
    {
        let reply = (self.validate_process)(process);
        self.trace =
        Ghost(
            self.trace@.push(
                RecoveryEffect::Validate { process: process@, reply: outcome(reply) },
            ),
        );
        assert(self.log().take(old(self).log().len() as int) =~= old(self).log());
        let mut head = text("identity validation failed ");
        head.append(phase);
        match reply {
            Ok(true) => None,
            Ok(false) => Some(pid_message(head.as_str(), process.pid, None)),
            Err(error) => Some(pid_message(head.as_str(), process.pid, Some(&error))),
        }
    }

    fn thaw(&mut self, process: &RuntimeProcess, path: &str) -> (r: Result<(), DaemonError>)
        requires
            old(self).sound(),
            old(self).can_serve(process@),
            process@.cgroup_freeze_path == Some(path@),
        ensures
            final(self).sound(),
            final(self).functions() == old(self).functions(),
            final(self).log() == old(self).log().push(
                RecoveryEffect::ThawCgroup { path: path@, reply: outcome(r) },
            ),
    {
        let reply = (self.thaw_cgroup)(path);
        self.trace =
        Ghost(
            self.trace@.push(RecoveryEffect::ThawCgroup { path: path@, reply: outcome(reply) }),
        );
        reply
    }

    fn release_binder(&mut self, process: &RuntimeProcess) -> (r: Result<(), DaemonError>)
        requires
            old(self).sound(),
            old(self).can_serve(process@),
        ensures
            final(self).sound(),
            final(self).functions() == old(self).functions(),
            final(self).log() == old(self).log().push(
                RecoveryEffect::UnfreezeBinder { process: process@, reply: outcome(r) },
            ),
    {
        let reply = (self.unfreeze_binder)(process);
        self.trace =
        Ghost(
            self.trace@.push(
                RecoveryEffect::UnfreezeBinder { process: process@, reply: outcome(reply) },
            ),
        );
        reply
    }

    fn resume(&mut self, process: &RuntimeProcess) -> (r: Result<(), DaemonError>)
        requires
            old(self).sound(),
            old(self).can_serve(process@),
        ensures
            final(self).sound(),
            final(self).functions() == old(self).functions(),
            final(self).log() == old(self).log().push(
                RecoveryEffect::Resume { process: process@, reply: outcome(r) },
            ),
    {
        let reply = (self.resume_signal)(process);
        self.trace =
        Ghost(
            self.trace@.push(RecoveryEffect::Resume { process: process@, reply: outcome(reply) }),
        );
        reply
    }
}

fn add_failure(failures: &mut Vec<String>, failure: String)
    ensures
        texts(final(failures)@) == texts(old(failures)@).push(failure@),
{
    let ghost done = texts(failures@);
    failures.push(failure);
    assert(texts(failures@) =~= done.push(failure@));
}

/// Recovers one process that an earlier daemon may have stopped or frozen.
pub fn recover_process_after_restart<V, T, B, S>(
    process: &RuntimeProcess,
    signal_stop_ownership: Option<SignalStopOwnership>,
    observed_cgroup_state: Option<FreezeState>,
    validate_process: V,
    thaw_cgroup: T,
    unfreeze_binder: B,
    resume_signal: S,
) -> (r: RestartRecoveryOutcome) where
    V: FnMut(&RuntimeProcess) -> Result<bool, DaemonError>,
    T: FnMut(&str) -> Result<(), DaemonError>,
    B: FnMut(&RuntimeProcess) -> Result<(), DaemonError>,
    S: FnMut(&RuntimeProcess) -> Result<(), DaemonError>,

    requires
        serves(validate_process, thaw_cgroup, unfreeze_binder, resume_signal, process@),
    ensures
        exists|log: Seq<RecoveryEffect>|
            #![trigger process_recovered(
                process@,
                signal_stop_ownership,
                observed_cgroup_state,
                log,
                0,
            )]
            {
                &&& process_recovered(
                    process@,
                    signal_stop_ownership,
                    observed_cgroup_state,
                    log,
                    0,
                ) == Some((log.len() as int, r@))
                &&& forall|i: int|
                    0 <= i < log.len() ==> recovery_gives(
                        validate_process,
                        thaw_cgroup,
                        unfreeze_binder,
                        resume_signal,
                        #[trigger] log[i],
                    )
            },
{
    let mut port = RecoveryPort::new(validate_process, thaw_cgroup, unfreeze_binder, resume_signal);
    let r = recover_process_with(
        process,
        signal_stop_ownership,
        observed_cgroup_state,
        &mut port,
    );
    proof {
        port.replies_are_given();
        assert(process_recovered(
            process@,
            signal_stop_ownership,
            observed_cgroup_state,
            port.log(),
            0,
        ) is Some);
    }
    r
}

/// A record of calls goes on from another one.
pub open spec fn keeps(before: Seq<RecoveryEffect>, after: Seq<RecoveryEffect>) -> bool {
    &&& before.len() <= after.len()
    &&& forall|k: int| 0 <= k < before.len() ==> #[trigger] after[k] == before[k]
}

proof fn prefix_keeps(before: Seq<RecoveryEffect>, after: Seq<RecoveryEffect>)
    requires
        before.len() <= after.len(),
        after.take(before.len() as int) == before,
    ensures
        keeps(before, after),
{
    assert forall|k: int| 0 <= k < before.len() implies #[trigger] after[k] == before[k] by {
        assert(after.take(before.len() as int)[k] == after[k]);
    }
}

/// Recovers one process that an earlier daemon may have stopped or frozen, with a record of the
/// calls: these are made, in this order, and no others.
pub fn recover_process_with<V, T, B, S>(
    process: &RuntimeProcess,
    signal_stop_ownership: Option<SignalStopOwnership>,
    observed_cgroup_state: Option<FreezeState>,
    port: &mut RecoveryPort<V, T, B, S>,
) -> (r: RestartRecoveryOutcome) where
    V: FnMut(&RuntimeProcess) -> Result<bool, DaemonError>,
    T: FnMut(&str) -> Result<(), DaemonError>,
    B: FnMut(&RuntimeProcess) -> Result<(), DaemonError>,
    S: FnMut(&RuntimeProcess) -> Result<(), DaemonError>,

    requires
        old(port).sound(),
        old(port).can_serve(process@),
    ensures
        final(port).sound(),
        final(port).functions() == old(port).functions(),
        keeps(old(port).log(), final(port).log()),
        process_recovered(
            process@,
            signal_stop_ownership,
            observed_cgroup_state,
            final(port).log(),
            old(port).log().len() as int,
        ) == Some((final(port).log().len() as int, r@)),
{
    let ghost l0 = port.log();
    let ghost n = l0.len() as int;
    let mut cgroup_thawed = false;
    let mut failures: Vec<String> = Vec::new();
    assert(texts(failures@) =~= seq![]);
    let signal_only = match (signal_stop_ownership, observed_cgroup_state) {
        (Some(SignalStopOwnership::SignalOnly), Some(FreezeState::Thawed)) => true,
        _ => false,
    };
    match &process.cgroup_freeze_path {
        Some(cgroup_path) => {
            if !signal_only {
                match port.check(process, "before cgroup thaw") {
                    Some(failure) => {
                        proof {
                            prefix_keeps(l0, port.log());
                        }
                        add_failure(&mut failures, failure);
                        return RestartRecoveryOutcome {
                            cgroup_thawed,
                            signal_resumed: false,
                            failures,
                        };
                    },
                    None => {},
                }
                let ghost l1 = port.log();
                proof {
                    prefix_keeps(l0, l1);
                }
                match port.thaw(process, cgroup_path.as_str()) {
                    Ok(()) => {
                        cgroup_thawed = true;
                    },
                    Err(error) => {
                        add_failure(
                            &mut failures,
                            pid_message("cgroup thaw failed", process.pid, Some(&error)),
                        );
                    },
                }
                let ghost l2 = port.log();
                assert(l2[n] == l1[n]);
                assert(keeps(l1, l2));
                match port.check(process, "before binder unfreeze") {
                    Some(failure) => {
                        proof {
                            prefix_keeps(l2, port.log());
                        }
                        add_failure(&mut failures, failure);
                        return RestartRecoveryOutcome {
                            cgroup_thawed,
                            signal_resumed: false,
                            failures,
                        };
                    },
                    None => {},
                }
                let ghost l3 = port.log();
                proof {
                    prefix_keeps(l2, l3);
                }
                match port.release_binder(process) {
                    Ok(()) => {},
                    Err(error) => {
                        add_failure(
                            &mut failures,
                            pid_message("binder unfreeze failed", process.pid, Some(&error)),
                        );
                    },
                }
            }
        },
        None => {},
    }
    let ghost l4 = port.log();
    assert(keeps(l0, l4));
    let mut signal_resumed = false;
    if signal_stop_ownership.is_some() {
        match port.check(process, "immediately before SIGCONT") {
            Some(failure) => {
                proof {
                    prefix_keeps(l4, port.log());
                }
                add_failure(&mut failures, failure);
                return RestartRecoveryOutcome { cgroup_thawed, signal_resumed, failures };
            },
            None => {},
        }
        let ghost l5 = port.log();
        proof {
            prefix_keeps(l4, l5);
        }
        match port.resume(process) {
            Ok(()) => {
                signal_resumed = true;
            },
            Err(error) => {
                add_failure(
                    &mut failures,
                    pid_message("SIGCONT failed", process.pid, Some(&error)),
                );
            },
        }
    }
    RestartRecoveryOutcome { cgroup_thawed, signal_resumed, failures }
}

/// The uids of controlled applications.
pub fn managed_uids(app_config: &[ManagerAppConfigRecord]) -> (r: Vec<u32>)
    ensures
        rising(r@),
        r@.to_set() == controlled(app_config@),
{
    let mut out: Vec<u32> = Vec::new();
    let mut i: usize = 0;
    assert(out@.to_set() =~= controlled(app_config@.take(0)));
    while i < app_config.len()
        invariant
            i <= app_config@.len(),
            rising(out@),
            out@.to_set() == controlled(app_config@.take(i as int)),
        decreases app_config@.len() - i,
    {
        let ghost done = app_config@.take(i as int);
        let ghost next = app_config@.take(i + 1);
        let record = &app_config[i];
        let ghost before = out@.to_set();
        if is_control_policy_mode(record.mode) {
            insert_rising(&mut out, record.uid);
        }
        proof {
            assert forall|u: u32| out@.to_set().contains(u) <==> controlled(next).contains(u) by {
                if before.contains(u) {
                    let j = choose|j: int|
                        0 <= j < done.len() && controls((#[trigger] done[j]).mode) && done[j].uid
                            == u;
                    assert(next[j] == done[j]);
                }
                assert(next[i as int] == *record);
                if controlled(next).contains(u) {
                    let j = choose|j: int|
                        0 <= j < next.len() && controls((#[trigger] next[j]).mode) && next[j].uid
                            == u;
                    if j < i {
                        assert(done[j] == next[j]);
                        assert(controlled(done).contains(u));
                    }
                }
            }
            assert(out@.to_set() =~= controlled(next));
        }
        i += 1;
    }
    assert(app_config@.take(i as int) =~= app_config@);
    out
}

/// Whether there is anything to recover about a process.
pub open spec fn recovery_needed(p: ProcessView, ledger: Option<SignalStopOwnership>) -> bool {
    p.cgroup_freeze_path is Some || ledger is Some
}

/// Whether there is anything to recover about a process.
pub fn needs_recovery(process: &RuntimeProcess, ledger: Option<SignalStopOwnership>) -> (r: bool)
    ensures
        r == recovery_needed(process@, ledger),
{
    process.cgroup_freeze_path.is_some() || ledger.is_some()
}

/// How many outcomes have a property.
pub open spec fn count_of(outcomes: Seq<RecoveryView>, f: spec_fn(RecoveryView) -> bool) -> nat
    decreases outcomes.len(),
{
    if outcomes.len() == 0 {
        0
    } else {
        count_of(outcomes.drop_last(), f) + if f(outcomes.last()) {
            1nat
        } else {
            0nat
        }
    }
}

/// What is told of a recovery, if it did or tried anything.
pub open spec fn recovery_report(outcomes: Seq<RecoveryView>) -> Option<Seq<char>> {
    let thawed = count_of(outcomes, |o: RecoveryView| o.cgroup_thawed);
    let continued = count_of(outcomes, |o: RecoveryView| o.signal_resumed);
    let failed = count_of(outcomes, |o: RecoveryView| o.failures.len() > 0);
    if thawed > 0 || continued > 0 || failed > 0 {
        Some(
            "restart recovery: cgroup_thawed="@ + decimal(thawed) + " sigcont_resumed="@ + decimal(
                continued,
            ) + " failed="@ + decimal(failed),
        )
    } else {
        None
    }
}

/// Outcomes as values.
pub open spec fn outcome_views(v: Seq<RestartRecoveryOutcome>) -> Seq<RecoveryView> {
    v.map_values(|o: RestartRecoveryOutcome| o@)
}

/// Tells what a recovery did.
pub fn restart_recovery_report(outcomes: &[RestartRecoveryOutcome]) -> (r: Option<String>)
    ensures
        match r {
            Some(s) => recovery_report(outcome_views(outcomes@)) == Some(s@),
            None => recovery_report(outcome_views(outcomes@)) is None,
        },
{
    let ghost all = outcome_views(outcomes@);
    let ghost by_cgroup = |o: RecoveryView| o.cgroup_thawed;
    let ghost by_signal = |o: RecoveryView| o.signal_resumed;
    let ghost by_failure = |o: RecoveryView| o.failures.len() > 0;
    let mut thawed: usize = 0;
    let mut continued: usize = 0;
    let mut failed: usize = 0;
    let mut i: usize = 0;
    while i < outcomes.len()
        invariant
            i <= outcomes@.len(),
            thawed <= i,
            continued <= i,
            failed <= i,
            all == outcome_views(outcomes@),
            by_cgroup == (|o: RecoveryView| o.cgroup_thawed),
            by_signal == (|o: RecoveryView| o.signal_resumed),
            by_failure == (|o: RecoveryView| o.failures.len() > 0),
            thawed == count_of(all.take(i as int), by_cgroup),
            continued == count_of(all.take(i as int), by_signal),
            failed == count_of(all.take(i as int), by_failure),
        decreases outcomes@.len() - i,
    {
        let outcome = &outcomes[i];
        assert(all.take(i + 1).drop_last() =~= all.take(i as int));
        assert(all.take(i + 1).last() == outcome@);
        assert(texts(outcome.failures@).len() == outcome.failures@.len());
        if outcome.cgroup_thawed {
            thawed += 1;
        }
        if outcome.signal_resumed {
            continued += 1;
        }
        if outcome.failures.len() > 0 {
            failed += 1;
        }
        i += 1;
    }
    assert(all.take(i as int) =~= all);
    if thawed > 0 || continued > 0 || failed > 0 {
        let mut out = text("restart recovery: cgroup_thawed=");
        let digits = number(thawed as u128);
        out.append(digits.as_str());
        out.append(" sigcont_resumed=");
        let digits = number(continued as u128);
        out.append(digits.as_str());
        out.append(" failed=");
        let digits = number(failed as u128);
        out.append(digits.as_str());
        Some(out)
    } else {
        None
    }
}

/// What is seen of a process at a restart: who stopped it, and the state of its cgroup.
pub type Sight = (Option<SignalStopOwnership>, Option<FreezeState>);

/// What can be seen of a process.
pub open spec fn can_be_seen<O: FnMut(&RuntimeProcess) -> Sight>(
    observe: O,
    p: ProcessView,
    sight: Sight,
) -> bool {
    exists|q: &RuntimeProcess| #[trigger] call_ensures(observe, (q,), sight) && q@ == p
}

/// What can be seen of the processes, one after the other.
pub open spec fn seen_by<O: FnMut(&RuntimeProcess) -> Sight>(
    observe: O,
    ps: Seq<ProcessView>,
    seen: Seq<Sight>,
) -> bool {
    &&& seen.len() == ps.len()
    &&& forall|k: int|
        0 <= k < ps.len() ==> can_be_seen(observe, ps[k], #[trigger] seen[k])
}

/// The first `n` processes were recovered one after the other, each of them where what was seen
/// of it asks for it, with the calls from `i` on: where the calls end, and the outcomes.
pub open spec fn all_recovered(
    ps: Seq<ProcessView>,
    seen: Seq<Sight>,
    log: Seq<RecoveryEffect>,
    i: int,
    n: int,
) -> Option<(int, Seq<RecoveryView>)>
    decreases n,
{
    if n <= 0 {
        Some((i, seq![]))
    } else {
        match all_recovered(ps, seen, log, i, n - 1) {
            None => None,
            Some((j, outs)) => if recovery_needed(ps[n - 1], seen[n - 1].0) {
                match process_recovered(ps[n - 1], seen[n - 1].0, seen[n - 1].1, log, j) {
                    Some((k, out)) => Some((k, outs.push(out))),
                    None => None,
                }
            } else {
                Some((j, outs))
            },
        }
    }
}

proof fn recovered_is_kept(
    p: ProcessView,
    ledger: Option<SignalStopOwnership>,
    cgroup: Option<FreezeState>,
    log: Seq<RecoveryEffect>,
    more: Seq<RecoveryEffect>,
    i: int,
)
    requires
        keeps(log, more),
        process_recovered(p, ledger, cgroup, log, i) is Some,
    ensures
        process_recovered(p, ledger, cgroup, more, i) == process_recovered(
            p,
            ledger,
            cgroup,
            log,
            i,
        ),
{
}

proof fn all_recovered_is_kept(
    ps: Seq<ProcessView>,
    seen: Seq<Sight>,
    longer: Seq<Sight>,
    log: Seq<RecoveryEffect>,
    more: Seq<RecoveryEffect>,
    i: int,
    n: int,
)
    requires
        keeps(log, more),
        n <= seen.len() <= longer.len(),
        forall|k: int| 0 <= k < seen.len() ==> #[trigger] longer[k] == seen[k],
        all_recovered(ps, seen, log, i, n) is Some,
    ensures
        all_recovered(ps, longer, more, i, n) == all_recovered(ps, seen, log, i, n),
    decreases n,
{
    if n > 0 {
        all_recovered_is_kept(ps, seen, longer, log, more, i, n - 1);
        assert(longer[n - 1] == seen[n - 1]);
        if let Some((j, _)) = all_recovered(ps, seen, log, i, n - 1) {
            if recovery_needed(ps[n - 1], seen[n - 1].0) {
                recovered_is_kept(ps[n - 1], seen[n - 1].0, seen[n - 1].1, log, more, j);
            }
        }
    }
}

/// The processes can be found this way.
pub open spec fn search_gives<D: FnOnce(&[u32]) -> Result<Vec<RuntimeProcess>, DaemonError>>(
    discover: D,
    uids: Set<u32>,
    reply: Result<Vec<RuntimeProcess>, DaemonError>,
) -> bool {
    exists|u: &[u32]| #[trigger]
        call_ensures(discover, (u,), reply) && rising(u@) && u@.to_set() == uids
}

/// The processes of these uids, of which there are some, can be looked for.
pub open spec fn searches<D: FnOnce(&[u32]) -> Result<Vec<RuntimeProcess>, DaemonError>>(
    discover: D,
    uids: Set<u32>,
) -> bool {
    forall|u: &[u32]|
        rising(u@) && u@.len() > 0 && u@.to_set() == uids ==> #[trigger] call_requires(
            discover,
            (u,),
        )
}

/// A process can be looked at and, where what is seen asks for it, recovered.
pub open spec fn recoverable<O, V, T, B, S>(
    observe: O,
    validate: V,
    thaw: T,
    binder: B,
    resume: S,
    p: ProcessView,
) -> bool where
    O: FnMut(&RuntimeProcess) -> Sight,
    V: FnMut(&RuntimeProcess) -> Result<bool, DaemonError>,
    T: FnMut(&str) -> Result<(), DaemonError>,
    B: FnMut(&RuntimeProcess) -> Result<(), DaemonError>,
    S: FnMut(&RuntimeProcess) -> Result<(), DaemonError>,
 {
    &&& forall|q: &RuntimeProcess| q@ == p ==> #[trigger] call_requires(observe, (q,))
    &&& forall|q: &RuntimeProcess, seen: Sight|
        q@ == p && recovery_needed(p, seen.0) && #[trigger] call_ensures(observe, (q,), seen)
            ==> serves(validate, thaw, binder, resume, p)
}

/// The state after a search that failed.
pub open spec fn search_failed(s: ManagerView, error: ErrorView, now_ms: u128) -> ManagerView {
    told_once(
        s,
        text_record(
            LogLevel::Error,
            LogCategory::Fault,
            now_ms,
            "restart recovery: process discovery failed: "@ + error_text(error),
        ),
    )
}

/// The state after the processes were recovered.
pub open spec fn recovery_told(s: ManagerView, outcomes: Seq<RecoveryView>, now_ms: u128) ->
    ManagerView {
    match recovery_report(outcomes) {
        Some(message) => told_once(
            s,
            text_record(LogLevel::Info, LogCategory::Fault, now_ms, message),
        ),
        None => s,
    }
}

/// Looks at every process and recovers it where what is seen asks for it, with a record of the
/// calls: these are made, in this order, and no others.
pub fn recover_found_with<O, V, T, B, S>(
    found: &[RuntimeProcess],
    observe: O,
    port: &mut RecoveryPort<V, T, B, S>,
) -> (r: Vec<RestartRecoveryOutcome>) where
    O: FnMut(&RuntimeProcess) -> Sight,
    V: FnMut(&RuntimeProcess) -> Result<bool, DaemonError>,
    T: FnMut(&str) -> Result<(), DaemonError>,
    B: FnMut(&RuntimeProcess) -> Result<(), DaemonError>,
    S: FnMut(&RuntimeProcess) -> Result<(), DaemonError>,

    requires
        old(port).sound(),
        forall|k: int|
            0 <= k < found@.len() ==> recoverable(
                observe,
                old(port).functions().0,
                old(port).functions().1,
                old(port).functions().2,
                old(port).functions().3,
                #[trigger] process_views(found@)[k],
            ),
    ensures
        final(port).sound(),
        final(port).functions() == old(port).functions(),
        keeps(old(port).log(), final(port).log()),
        exists|seen: Seq<Sight>| #[trigger]
            seen_by(observe, process_views(found@), seen) && all_recovered(
                process_views(found@),
                seen,
                final(port).log(),
                old(port).log().len() as int,
                found@.len() as int,
            ) == Some((final(port).log().len() as int, outcome_views(r@))),
{
    let ghost ps = process_views(found@);
    let ghost functions = port.functions();
    let ghost l0 = port.log();
    let ghost n = l0.len() as int;
    let mut look = observe;
    let mut outcomes: Vec<RestartRecoveryOutcome> = Vec::new();
    let ghost mut seen: Seq<Sight> = seq![];
    let mut i: usize = 0;
    assert(outcome_views(outcomes@) =~= seq![]);
    while i < found.len()
        invariant
            i <= found@.len(),
            ps == process_views(found@),
            look == observe,
            forall|k: int|
                0 <= k < ps.len() ==> recoverable(
                    observe,
                    functions.0,
                    functions.1,
                    functions.2,
                    functions.3,
                    #[trigger] ps[k],
                ),
            port.sound(),
            port.functions() == functions,
            keeps(l0, port.log()),
            n == l0.len(),
            seen.len() == i,
            forall|k: int|
                0 <= k < i ==> can_be_seen(observe, ps[k], #[trigger] seen[k]),
            all_recovered(ps, seen, port.log(), n, i as int) == Some(
                (port.log().len() as int, outcome_views(outcomes@)),
            ),
        decreases found@.len() - i,
    {
        let process = &found[i];
        assert(ps[i as int] == process@);
        let (ownership, cgroup) = look(process);
        let ghost before = port.log();
        let ghost prior = seen;
        proof {
            seen = seen.push((ownership, cgroup));
            assert(can_be_seen(observe, ps[i as int], (ownership, cgroup)));
        }
        if needs_recovery(process, ownership) {
            let outcome = recover_process_with(process, ownership, cgroup, port);
            let ghost done = outcome_views(outcomes@);
            outcomes.push(outcome);
            assert(outcome_views(outcomes@) =~= done.push(outcome@));
        }
        proof {
            all_recovered_is_kept(ps, prior, seen, before, port.log(), n, i as int);
        }
        i += 1;
    }
    assert(seen_by(observe, ps, seen));
    outcomes
}

/// Recovery after a restart made exactly the calls of the record from `from` on. Where nothing is
/// controlled it looks for nothing; where the search fails it makes no call; else every process
/// that was found is looked at, and recovered where that asks for it.
pub open spec fn recovery_went<D, O>(
    discover: D,
    observe: O,
    s: ManagerView,
    log: Seq<RecoveryEffect>,
    from: int,
    s2: ManagerView,
    now_ms: u128,
) -> bool where
    D: FnOnce(&[u32]) -> Result<Vec<RuntimeProcess>, DaemonError>,
    O: FnMut(&RuntimeProcess) -> Sight,
 {
    if controlled(s.app_config) =~= Set::empty() {
        log.len() == from && s2 == s
    } else {
        exists|reply: Result<Vec<RuntimeProcess>, DaemonError>|
            #![trigger search_gives(discover, controlled(s.app_config), reply)]
            search_gives(discover, controlled(s.app_config), reply) && match reply {
                Err(e) => log.len() == from && s2 == search_failed(s, e@, now_ms),
                Ok(found) => exists|seen: Seq<Sight>| #[trigger]
                    seen_by(observe, process_views(found@), seen) && (all_recovered(
                        process_views(found@),
                        seen,
                        log,
                        from,
                        found@.len() as int,
                    ) matches Some((end, outs)) && end == log.len() && s2 == recovery_told(
                        s,
                        outs,
                        now_ms,
                    )),
            }
    }
}

/// Every process that a search can find can be looked at and recovered.
pub open spec fn finds_recoverable<D, O, V, T, B, S>(
    discover: D,
    uids: Set<u32>,
    observe: O,
    validate: V,
    thaw: T,
    binder: B,
    resume: S,
) -> bool where
    D: FnOnce(&[u32]) -> Result<Vec<RuntimeProcess>, DaemonError>,
    O: FnMut(&RuntimeProcess) -> Sight,
    V: FnMut(&RuntimeProcess) -> Result<bool, DaemonError>,
    T: FnMut(&str) -> Result<(), DaemonError>,
    B: FnMut(&RuntimeProcess) -> Result<(), DaemonError>,
    S: FnMut(&RuntimeProcess) -> Result<(), DaemonError>,
 {
    forall|reply: Result<Vec<RuntimeProcess>, DaemonError>, k: int|
        #![trigger search_gives(discover, uids, reply), process_views(reply->Ok_0@)[k]]
        search_gives(discover, uids, reply) && reply is Ok && 0 <= k < reply->Ok_0@.len()
            ==> recoverable(
            observe,
            validate,
            thaw,
            binder,
            resume,
            process_views(reply->Ok_0@)[k],
        )
}

/// Recovers the processes of controlled applications that an earlier daemon left stopped or
/// frozen, with a record of the calls: these are made, in this order, and no others.
pub fn recover_managed_with<D, O, V, T, B, S>(
    state: &mut ReadOnlyState,
    discover: D,
    observe: O,
    port: &mut RecoveryPort<V, T, B, S>,
    now_ms: u128,
) where
    D: FnOnce(&[u32]) -> Result<Vec<RuntimeProcess>, DaemonError>,
    O: FnMut(&RuntimeProcess) -> Sight,
    V: FnMut(&RuntimeProcess) -> Result<bool, DaemonError>,
    T: FnMut(&str) -> Result<(), DaemonError>,
    B: FnMut(&RuntimeProcess) -> Result<(), DaemonError>,
    S: FnMut(&RuntimeProcess) -> Result<(), DaemonError>,

    requires
        old(port).sound(),
        searches(discover, controlled(old(state)@.app_config)),
        finds_recoverable(
            discover,
            controlled(old(state)@.app_config),
            observe,
            old(port).functions().0,
            old(port).functions().1,
            old(port).functions().2,
            old(port).functions().3,
        ),
    ensures
        final(port).sound(),
        final(port).functions() == old(port).functions(),
        keeps(old(port).log(), final(port).log()),
        recovery_went(
            discover,
            observe,
            old(state)@,
            final(port).log(),
            old(port).log().len() as int,
            final(state)@,
            now_ms,
        ),
{
    let ghost s = state@;
    let ghost search = discover;
    let uids = managed_uids(state.app_config.as_slice());
    if uids.len() == 0 {
        assert(controlled(s.app_config) =~= Set::empty()) by {
            assert forall|u: u32| !controlled(s.app_config).contains(u) by {
                assert(uids@.to_set().contains(u) == uids@.contains(u));
            }
        }
        return;
    }
    assert(uids@.to_set().contains(uids@[0]));
    let reply = discover(uids.as_slice());
    assert(search_gives(search, controlled(s.app_config), reply));
    let found = match &reply {
        Ok(found) => found,
        Err(e) => {
            let mut message = text("restart recovery: process discovery failed: ");
            message.append(e.message());
            state.manager_log.push_once(
                LogRecord::fault(LogLevel::Error, now_ms, message.as_str()),
            );
            return;
        },
    };
    let ghost ps = process_views(found@);
    assert forall|k: int| 0 <= k < ps.len() implies recoverable(
        observe,
        port.functions().0,
        port.functions().1,
        port.functions().2,
        port.functions().3,
        #[trigger] ps[k],
    ) by {
        assert(search_gives(search, controlled(s.app_config), reply));
        assert(process_views(reply->Ok_0@)[k] == ps[k]);
    }
    let outcomes = recover_found_with(found.as_slice(), observe, port);
    match restart_recovery_report(outcomes.as_slice()) {
        Some(message) => {
            state.manager_log.push_once(
                LogRecord::fault(LogLevel::Info, now_ms, message.as_str()),
            );
        },
        None => {},
    }
}

/// Recovers the processes of controlled applications that an earlier daemon left stopped or
/// frozen. The calls are those of [`recover_managed_with`], in its order.
#[allow(clippy::too_many_arguments)]
pub fn recover_stopped_managed_processes_after_restart<D, O, V, T, B, S>(
    state: &mut ReadOnlyState,
    discover: D,
    observe: O,
    validate_process: V,
    thaw_cgroup: T,
    unfreeze_binder: B,
    resume_signal: S,
    now_ms: u128,
) where
    D: FnOnce(&[u32]) -> Result<Vec<RuntimeProcess>, DaemonError>,
    O: FnMut(&RuntimeProcess) -> Sight,
    V: FnMut(&RuntimeProcess) -> Result<bool, DaemonError>,
    T: FnMut(&str) -> Result<(), DaemonError>,
    B: FnMut(&RuntimeProcess) -> Result<(), DaemonError>,
    S: FnMut(&RuntimeProcess) -> Result<(), DaemonError>,

    requires
        searches(discover, controlled(old(state)@.app_config)),
        finds_recoverable(
            discover,
            controlled(old(state)@.app_config),
            observe,
            validate_process,
            thaw_cgroup,
            unfreeze_binder,
            resume_signal,
        ),
    ensures
        exists|log: Seq<RecoveryEffect>|
            #![trigger recovery_went(
                discover,
                observe,
                old(state)@,
                log,
                0,
                final(state)@,
                now_ms,
            )]
            {
                &&& recovery_went(
                    discover,
                    observe,
                    old(state)@,
                    log,
                    0,
                    final(state)@,
                    now_ms,
                )
                &&& forall|i: int|
                    0 <= i < log.len() ==> recovery_gives(
                        validate_process,
                        thaw_cgroup,
                        unfreeze_binder,
                        resume_signal,
                        #[trigger] log[i],
                    )
            },
{
    let mut port = RecoveryPort::new(validate_process, thaw_cgroup, unfreeze_binder, resume_signal);
    recover_managed_with(state, discover, observe, &mut port, now_ms);
    proof {
        port.replies_are_given();
    }
}

/// The operation that records what was observed after a restart.
pub fn recover_after_restart(
    operation_id: u64,
    timestamp_ms: u128,
    package_name: &str,
    uid: u32,
    processes: &[RuntimeProcess],
) -> (r: ControlOperation)
    ensures
        r@ == (OperationView {
            operation_id,
            timestamp_ms,
            package_name: package_name@,
            uid,
            pid_list: pids(process_views(processes@)),
            action: ControlAction::Recover,
            backend: "restart-reconciliation"@,
            reason: "daemon restart reconciliation"@,
            result: OperationResult::Success,
            details: "observed "@ + decimal(processes@.len())
                + " process(es) before new control"@,
        }),
{
    let mut details = text("observed ");
    let digits = number(processes.len() as u128);
    details.append(digits.as_str());
    details.append(" process(es) before new control");
    ControlOperation {
        operation_id,
        timestamp_ms,
        package_name: copy(package_name),
        uid,
        pid_list: process_ids(processes),
        action: ControlAction::Recover,
        backend: text("restart-reconciliation"),
        reason: text("daemon restart reconciliation"),
        result: OperationResult::Success,
        details,
    }
}

/// Notes that all processes are frozen.
pub fn mark_frozen(processes: &mut Vec<RuntimeProcess>)
    ensures
        process_views(final(processes)@) == all_with_control_state(
            process_views(old(processes)@),
            ControlState::Frozen,
        ),
{
    set_control_states(processes, ControlState::Frozen);
}

/// Notes that all processes are running.
pub fn mark_running(processes: &mut Vec<RuntimeProcess>)
    ensures
        process_views(final(processes)@) == all_with_control_state(
            process_views(old(processes)@),
            ControlState::Running,
        ),
{
    set_control_states(processes, ControlState::Running);
}

} // verus!
