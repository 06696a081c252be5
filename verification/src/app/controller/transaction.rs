//! Acting on all processes of one identity: freezing, thawing and killing as transactions.

use vstd::prelude::*;
use vstd::string::*;

use crate::app::controller::port::{extends, proceeded, ControlBackend, Effect};
use crate::app::error::{error_text, DaemonError, ErrorView};
use crate::domain::runtime::{process_views, ProcessView, RuntimeProcess};
use crate::text::{same, signed_decimal, signed_number, text, texts};

verus! {

/// Which freezers hold a frozen identity.
#[derive(Debug, Clone, Copy, PartialEq, Eq, Structural)]
pub enum FrozenOwnership {
    /// A stop signal alone.
    SignalOnly,
    /// The cgroup freezer together with the binder freezer.
    CgroupBinder,
    /// It is not known which freezers still hold it.
    ResidualUnknown,
}

/// Whether completed stops may be recorded as held by the signal alone.
#[derive(Debug, Clone, Copy, PartialEq, Eq, Structural)]
pub enum SignalStopLedgerPromotion {
    Never,
    AfterCompletedDirectTransaction,
}

impl SignalStopLedgerPromotion {
    /// The ownership that a completed stop transaction leaves.
    pub fn frozen_ownership(self) -> (r: FrozenOwnership)
        ensures
            r == promotion_ownership(self),
    {
        match self {
            SignalStopLedgerPromotion::Never => FrozenOwnership::ResidualUnknown,
            SignalStopLedgerPromotion::AfterCompletedDirectTransaction => FrozenOwnership::SignalOnly,
        }
    }
}

/// The ownership that a completed stop transaction leaves.
pub open spec fn promotion_ownership(p: SignalStopLedgerPromotion) -> FrozenOwnership {
    match p {
        SignalStopLedgerPromotion::Never => FrozenOwnership::ResidualUnknown,
        SignalStopLedgerPromotion::AfterCompletedDirectTransaction => FrozenOwnership::SignalOnly,
    }
}

// ---------------------------------------------------------------------------
// Reading a trace
// ---------------------------------------------------------------------------

/// The reply to the validation of `p` at position `i` of a trace.
pub open spec fn validated(log: Seq<Effect>, i: int, p: ProcessView) -> Option<
    Result<bool, ErrorView>,
> {
    match log[i] {
        Effect::Validate { process, reply } if 0 <= i < log.len() && process == p => Some(reply),
        _ => None,
    }
}

/// The reply to the freeze of `p` at position `i` of a trace.
pub open spec fn froze(log: Seq<Effect>, i: int, p: ProcessView) -> Option<Result<(), ErrorView>> {
    match log[i] {
        Effect::Freeze { process, reply } if 0 <= i < log.len() && process == p => Some(reply),
        _ => None,
    }
}

/// The reply to the thaw of `p` at position `i` of a trace.
pub open spec fn thawed(log: Seq<Effect>, i: int, p: ProcessView) -> Option<Result<(), ErrorView>> {
    match log[i] {
        Effect::Unfreeze { process, reply } if 0 <= i < log.len() && process == p => Some(reply),
        _ => None,
    }
}

/// The reply to the kill of `p` at position `i` of a trace.
pub open spec fn killed(log: Seq<Effect>, i: int, p: ProcessView) -> Option<Result<(), ErrorView>> {
    match log[i] {
        Effect::Terminate { process, reply } if 0 <= i < log.len() && process == p => Some(reply),
        _ => None,
    }
}

/// Whether position `i` of a trace promotes `p`.
pub open spec fn promoted(log: Seq<Effect>, i: int, p: ProcessView) -> bool {
    match log[i] {
        Effect::Promote { process, .. } => 0 <= i < log.len() && process == p,
        _ => false,
    }
}

// ---------------------------------------------------------------------------
// Messages
// ---------------------------------------------------------------------------

/// A message about a process, with the error that it reports.
pub open spec fn about_pid(head: Seq<char>, pid: i32, error: Option<ErrorView>) -> Seq<char> {
    let base = head + " for pid "@ + signed_decimal(pid as int);
    match error {
        Some(e) => base + ": "@ + error_text(e),
        None => base,
    }
}

/// The error of a reply to a validation that is not `Ok(true)`.
pub open spec fn validation_error(reply: Result<bool, ErrorView>) -> Option<ErrorView> {
    match reply {
        Ok(_) => None,
        Err(e) => Some(e),
    }
}

/// The refusal of processes of more than one package.
pub open spec fn shared_uid_refusal(pid: i32) -> Seq<char> {
    "shared uid contains multiple package identities; refusing pid "@ + signed_decimal(pid as int)
}

/// Writes a message about a process.
pub fn pid_message(head: &str, pid: i32, error: Option<&DaemonError>) -> (r: String)
    ensures
        r@ == about_pid(
            head@,
            pid,
            match error {
                Some(e) => Some(e@),
                None => None,
            },
        ),
{
    let mut out = text(head);
    out.append(" for pid ");
    let digits = signed_number(pid as i64);
    out.append(digits.as_str());
    match error {
        Some(e) => {
            out.append(": ");
            out.append(e.message());
        },
        None => {},
    }
    out
}

fn shared_uid_message(pid: i32) -> (r: String)
    ensures
        r@ == shared_uid_refusal(pid),
{
    let mut out = text("shared uid contains multiple package identities; refusing pid ");
    let digits = signed_number(pid as i64);
    out.append(digits.as_str());
    out
}

/// What a validation says: nothing where it holds, else the message of the failure.
pub open spec fn validation_failure(
    head: Seq<char>,
    p: ProcessView,
    reply: Result<bool, ErrorView>,
) -> Option<Seq<char>> {
    if reply == Ok::<bool, ErrorView>(true) {
        None
    } else {
        Some(about_pid(head, p.pid, validation_error(reply)))
    }
}

/// Validates a process once.
pub fn validate_once<B: ControlBackend>(head: &str, process: &RuntimeProcess, backend: &mut B) -> (r:
    Option<String>)
    requires
        old(backend).ready(),
    ensures
        proceeded(*old(backend), *final(backend)),
        final(backend).trace().len() == old(backend).trace().len() + 1,
        forall|full: Seq<Effect>|
            extends(full, final(backend).trace()) ==> match #[trigger] validated(
                full,
                old(backend).trace().len() as int,
                process@,
            ) {
                None => false,
                Some(reply) => validation_failure(head@, process@, reply) == opt_text(r),
            },
{
    match backend.validate(process) {
        Ok(true) => None,
        Ok(false) => Some(pid_message(head, process.pid, None)),
        Err(error) => Some(pid_message(head, process.pid, Some(&error))),
    }
}

/// The characters of an optional string.
pub open spec fn opt_text(o: Option<String>) -> Option<Seq<char>> {
    match o {
        Some(s) => Some(s@),
        None => None,
    }
}

// ---------------------------------------------------------------------------
// Checks before a transaction
// ---------------------------------------------------------------------------

/// Before a transaction, from process `k` on: all belong to one package, and each one
/// validates. Gives the position behind the calls and the first failure.
pub open spec fn prechecked(
    ps: Seq<ProcessView>,
    k: int,
    head: Seq<char>,
    log: Seq<Effect>,
    i: int,
) -> Option<(int, Option<Seq<char>>)>
    decreases ps.len() - k,
{
    if k >= ps.len() || k < 0 {
        Some((i, None))
    } else if ps[k].package_name != ps[0].package_name {
        Some((i, Some(shared_uid_refusal(ps[k].pid))))
    } else {
        match validated(log, i, ps[k]) {
            None => None,
            Some(reply) => match validation_failure(head, ps[k], reply) {
                Some(failure) => Some((i + 1, Some(failure))),
                None => prechecked(ps, k + 1, head, log, i + 1),
            },
        }
    }
}

fn precheck<B: ControlBackend>(
    processes: &[RuntimeProcess],
    head: &str,
    backend: &mut B,
) -> (r: Option<String>)
    requires
        old(backend).ready(),
    ensures
        proceeded(*old(backend), *final(backend)),
        forall|full: Seq<Effect>|
            extends(full, final(backend).trace()) ==> #[trigger] prechecked(
                process_views(processes@),
                0,
                head@,
                full,
                old(backend).trace().len() as int,
            ) == Some((final(backend).trace().len() as int, opt_text(r))),
{
    let ghost ps = process_views(processes@);
    let ghost b0 = *backend;
    let ghost i0 = backend.trace().len() as int;
    let mut k: usize = 0;
    while k < processes.len()
        invariant
            k <= processes@.len(),
            ps == process_views(processes@),
            b0 == *old(backend),
            i0 == b0.trace().len(),
            proceeded(b0, *backend),
            forall|full: Seq<Effect>|
                extends(full, backend.trace()) ==> #[trigger] prechecked(ps, 0, head@, full, i0)
                    == prechecked(ps, k as int, head@, full, backend.trace().len() as int),
        decreases processes@.len() - k,
    {
        let process = &processes[k];
        assert(ps[k as int] == process@);
        assert(ps[0] == processes@[0]@);
        if !same(process.package_name.as_str(), processes[0].package_name.as_str()) {
            return Some(shared_uid_message(process.pid));
        }
        let ghost i1 = backend.trace().len() as int;
        match validate_once(head, process, backend) {
            None => {},
            Some(failure) => {
                proof {
                    assert forall|full: Seq<Effect>|
                        extends(full, backend.trace()) implies #[trigger] prechecked(
                        ps,
                        0,
                        head@,
                        full,
                        i0,
                    ) == Some((backend.trace().len() as int, Some(failure@))) by {
                        assert(validated(full, i1, process@) is Some);
                    }
                }
                return Some(failure);
            },
        }
        proof {
            assert forall|full: Seq<Effect>|
                extends(full, backend.trace()) implies #[trigger] prechecked(
                ps,
                0,
                head@,
                full,
                i0,
            ) == prechecked(ps, k + 1, head@, full, backend.trace().len() as int) by {
                assert(validated(full, i1, process@) is Some);
            }
        }
        k += 1;
    }
    None
}

// ---------------------------------------------------------------------------
// Killing
// ---------------------------------------------------------------------------

/// What a kill transaction did.
#[derive(Debug, Clone, PartialEq, Eq)]
pub struct TerminateTransactionOutcome {
    pub applied: usize,
    pub failure: Option<String>,
}

/// The outcome of a kill transaction as a value.
#[verifier::ext_equal]
pub ghost struct KillView {
    pub applied: nat,
    pub failure: Option<Seq<char>>,
}

impl View for TerminateTransactionOutcome {
    type V = KillView;

    open spec fn view(&self) -> KillView {
        KillView { applied: self.applied as nat, failure: opt_text(self.failure) }
    }
}

/// Killing from process `k` on: each one is validated again and then killed, up to the
/// first failure.
pub open spec fn killing(ps: Seq<ProcessView>, k: int, log: Seq<Effect>, i: int) -> Option<
    (int, KillView),
>
    decreases ps.len() - k,
{
    if k >= ps.len() || k < 0 {
        Some((i, KillView { applied: k as nat, failure: None }))
    } else {
        match validated(log, i, ps[k]) {
            None => None,
            Some(reply) => match validation_failure(
                "identity validation failed immediately before SIGKILL"@,
                ps[k],
                reply,
            ) {
                Some(failure) => Some(
                    (i + 1, KillView { applied: k as nat, failure: Some(failure) }),
                ),
                None => match killed(log, i + 1, ps[k]) {
                    None => None,
                    Some(Ok(_)) => killing(ps, k + 1, log, i + 2),
                    Some(Err(e)) => Some(
                        (
                            i + 2,
                            KillView {
                                applied: k as nat,
                                failure: Some(about_pid("SIGKILL failed"@, ps[k].pid, Some(e))),
                            },
                        ),
                    ),
                },
            },
        }
    }
}

/// A kill transaction: nothing is killed unless every process passes the check first.
pub open spec fn kill_transaction(ps: Seq<ProcessView>, log: Seq<Effect>, i: int) -> Option<
    (int, KillView),
> {
    match prechecked(ps, 0, "identity validation failed before SIGKILL"@, log, i) {
        None => None,
        Some((j, Some(failure))) => Some((j, KillView { applied: 0, failure: Some(failure) })),
        Some((j, None)) => killing(ps, 0, log, j),
    }
}

/// Kills all processes of an identity, after validating all of them.
pub fn apply_terminate_transaction<B: ControlBackend>(
    processes: &[RuntimeProcess],
    backend: &mut B,
) -> (r: TerminateTransactionOutcome)
    requires
        old(backend).ready(),
    ensures
        proceeded(*old(backend), *final(backend)),
        forall|full: Seq<Effect>|
            extends(full, final(backend).trace()) ==> #[trigger] kill_transaction(
                process_views(processes@),
                full,
                old(backend).trace().len() as int,
            ) == Some((final(backend).trace().len() as int, r@)),
{
    let ghost ps = process_views(processes@);
    let ghost b0 = *backend;
    let ghost i0 = backend.trace().len() as int;
    match precheck(processes, "identity validation failed before SIGKILL", backend) {
        Some(failure) => {
            return TerminateTransactionOutcome { applied: 0, failure: Some(failure) };
        },
        None => {},
    }
    let ghost b1 = *backend;
    let mut applied: usize = 0;
    while applied < processes.len()
        invariant
            applied <= processes@.len(),
            ps == process_views(processes@),
            b0 == *old(backend),
            i0 == b0.trace().len(),
            proceeded(b0, *backend),
            forall|full: Seq<Effect>|
                extends(full, backend.trace()) ==> #[trigger] kill_transaction(ps, full, i0)
                    == killing(ps, applied as int, full, backend.trace().len() as int),
        decreases processes@.len() - applied,
    {
        let process = &processes[applied];
        assert(ps[applied as int] == process@);
        let ghost i1 = backend.trace().len() as int;
        match validate_once(
            "identity validation failed immediately before SIGKILL",
            process,
            backend,
        ) {
            None => {},
            Some(failure) => {
                proof {
                    assert forall|full: Seq<Effect>|
                        extends(full, backend.trace()) implies #[trigger] kill_transaction(
                        ps,
                        full,
                        i0,
                    ) == Some(
                        (
                            backend.trace().len() as int,
                            KillView { applied: applied as nat, failure: Some(failure@) },
                        ),
                    ) by {
                        assert(validated(full, i1, process@) is Some);
                    }
                }
                return TerminateTransactionOutcome { applied, failure: Some(failure) };
            },
        }
        let ghost i2 = backend.trace().len() as int;
        match backend.terminate(process) {
            Ok(()) => {},
            Err(error) => {
                let failure = pid_message("SIGKILL failed", process.pid, Some(&error));
                proof {
                    assert forall|full: Seq<Effect>|
                        extends(full, backend.trace()) implies #[trigger] kill_transaction(
                        ps,
                        full,
                        i0,
                    ) == Some(
                        (
                            backend.trace().len() as int,
                            KillView { applied: applied as nat, failure: Some(failure@) },
                        ),
                    ) by {
                        assert(validated(full, i1, process@) is Some);
                        assert(full[i2] == backend.trace()[i2]);
                    }
                }
                return TerminateTransactionOutcome { applied, failure: Some(failure) };
            },
        }
        proof {
            assert forall|full: Seq<Effect>|
                extends(full, backend.trace()) implies #[trigger] kill_transaction(ps, full, i0)
                == killing(ps, applied + 1, full, backend.trace().len() as int) by {
                assert(validated(full, i1, process@) is Some);
                assert(full[i2] == backend.trace()[i2]);
            }
        }
        applied += 1;
    }
    TerminateTransactionOutcome { applied, failure: None }
}

// ---------------------------------------------------------------------------
// Freezing
// ---------------------------------------------------------------------------

/// What a freeze transaction did.
#[derive(Debug, Clone, PartialEq, Eq)]
pub struct FreezeTransactionOutcome {
    pub applied: usize,
    pub rolled_back: usize,
    pub rollback_failures: usize,
    pub residual_possible: bool,
    pub failure: Option<String>,
}

/// The outcome of a freeze transaction as a value.
#[verifier::ext_equal]
pub ghost struct FreezeView {
    pub applied: nat,
    pub rolled_back: nat,
    pub rollback_failures: nat,
    pub residual_possible: bool,
    pub failure: Option<Seq<char>>,
}

impl View for FreezeTransactionOutcome {
    type V = FreezeView;

    open spec fn view(&self) -> FreezeView {
        FreezeView {
            applied: self.applied as nat,
            rolled_back: self.rolled_back as nat,
            rollback_failures: self.rollback_failures as nat,
            residual_possible: self.residual_possible,
            failure: opt_text(self.failure),
        }
    }
}

/// The process as it is handed to the signal backend: without its cgroup.
pub open spec fn signal_process(p: ProcessView) -> ProcessView {
    ProcessView { cgroup_freeze_path: None, ..p }
}

/// The process that is frozen or thawed in place of `p`.
pub open spec fn control_target(p: ProcessView, signal: bool) -> ProcessView {
    if signal {
        signal_process(p)
    } else {
        p
    }
}

/// The process as it is handed to the signal backend.
pub fn signal_control_process(process: &RuntimeProcess) -> (r: RuntimeProcess)
    ensures
        r@ == signal_process(process@),
{
    let mut target = process.clone();
    target.cgroup_freeze_path = None;
    target
}

fn target_of(process: &RuntimeProcess, signal: bool) -> (r: RuntimeProcess)
    ensures
        r@ == control_target(process@, signal),
{
    if signal {
        signal_control_process(process)
    } else {
        process.clone()
    }
}

/// Freezing from process `k` on: each one is validated again and then frozen, up to the
/// first failure. Gives how many were frozen and the failure.
pub open spec fn freezing(
    ps: Seq<ProcessView>,
    k: int,
    signal: bool,
    log: Seq<Effect>,
    i: int,
) -> Option<(int, int, Option<Seq<char>>)>
    decreases ps.len() - k,
{
    if k >= ps.len() || k < 0 {
        Some((i, k, None))
    } else {
        match validated(log, i, ps[k]) {
            None => None,
            Some(reply) => match validation_failure(
                "identity validation failed"@,
                ps[k],
                reply,
            ) {
                Some(failure) => Some((i + 1, k, Some(failure))),
                None => match froze(log, i + 1, control_target(ps[k], signal)) {
                    None => None,
                    Some(Ok(_)) => freezing(ps, k + 1, signal, log, i + 2),
                    Some(Err(e)) => Some(
                        (i + 2, k, Some(about_pid("control apply failed"@, ps[k].pid, Some(e)))),
                    ),
                },
            },
        }
    }
}

/// Rolling back the first `k` processes, the last one first: a process that does not validate
/// is left alone and counts as a failure. Gives the processes thawed and the failures.
pub open spec fn rolling_back(
    ps: Seq<ProcessView>,
    k: int,
    signal: bool,
    log: Seq<Effect>,
    i: int,
    back: nat,
    failed: nat,
) -> Option<(int, nat, nat)>
    decreases k,
{
    if k <= 0 {
        Some((i, back, failed))
    } else {
        match validated(log, i, ps[k - 1]) {
            None => None,
            Some(reply) => if reply != Ok::<bool, ErrorView>(true) {
                rolling_back(ps, k - 1, signal, log, i + 1, back, failed + 1)
            } else {
                match thawed(log, i + 1, control_target(ps[k - 1], signal)) {
                    None => None,
                    Some(Ok(_)) => rolling_back(ps, k - 1, signal, log, i + 2, back + 1, failed),
                    Some(Err(_)) => rolling_back(ps, k - 1, signal, log, i + 2, back, failed + 1),
                }
            },
        }
    }
}

/// A freeze transaction: nothing is frozen unless every process passes the check first, and
/// after a failure what was frozen is thawed again in reverse order.
pub open spec fn freeze_transaction(
    ps: Seq<ProcessView>,
    signal: bool,
    log: Seq<Effect>,
    i: int,
) -> Option<(int, FreezeView)> {
    match prechecked(ps, 0, "identity validation failed"@, log, i) {
        None => None,
        Some((j, Some(failure))) => Some(
            (
                j,
                FreezeView {
                    applied: 0,
                    rolled_back: 0,
                    rollback_failures: 0,
                    residual_possible: false,
                    failure: Some(failure),
                },
            ),
        ),
        Some((j, None)) => match freezing(ps, 0, signal, log, j) {
            None => None,
            Some((j2, k, None)) => Some(
                (
                    j2,
                    FreezeView {
                        applied: k as nat,
                        rolled_back: 0,
                        rollback_failures: 0,
                        residual_possible: false,
                        failure: None,
                    },
                ),
            ),
            Some((j2, k, Some(failure))) => match rolling_back(ps, k, signal, log, j2, 0, 0) {
                None => None,
                Some((j3, back, failed)) => Some(
                    (
                        j3,
                        FreezeView {
                            applied: k as nat,
                            rolled_back: back,
                            rollback_failures: failed,
                            residual_possible: true,
                            failure: Some(failure),
                        },
                    ),
                ),
            },
        },
    }
}

fn freeze_each<B: ControlBackend>(
    processes: &[RuntimeProcess],
    signal: bool,
    backend: &mut B,
) -> (r: (usize, Option<String>))
    requires
        old(backend).ready(),
    ensures
        proceeded(*old(backend), *final(backend)),
        r.0 <= processes@.len(),
        forall|full: Seq<Effect>|
            extends(full, final(backend).trace()) ==> #[trigger] freezing(
                process_views(processes@),
                0,
                signal,
                full,
                old(backend).trace().len() as int,
            ) == Some((final(backend).trace().len() as int, r.0 as int, opt_text(r.1))),
{
    let ghost ps = process_views(processes@);
    let ghost b0 = *backend;
    let ghost i0 = backend.trace().len() as int;
    let mut k: usize = 0;
    while k < processes.len()
        invariant
            k <= processes@.len(),
            ps == process_views(processes@),
            b0 == *old(backend),
            i0 == b0.trace().len(),
            proceeded(b0, *backend),
            forall|full: Seq<Effect>|
                extends(full, backend.trace()) ==> #[trigger] freezing(ps, 0, signal, full, i0)
                    == freezing(ps, k as int, signal, full, backend.trace().len() as int),
        decreases processes@.len() - k,
    {
        let process = &processes[k];
        assert(ps[k as int] == process@);
        let ghost i1 = backend.trace().len() as int;
        match validate_once("identity validation failed", process, backend) {
            None => {},
            Some(failure) => {
                proof {
                    assert forall|full: Seq<Effect>|
                        extends(full, backend.trace()) implies #[trigger] freezing(
                        ps,
                        0,
                        signal,
                        full,
                        i0,
                    ) == Some((backend.trace().len() as int, k as int, Some(failure@))) by {
                        assert(validated(full, i1, process@) is Some);
                    }
                }
                return (k, Some(failure));
            },
        }
        let ghost i2 = backend.trace().len() as int;
        let target = target_of(process, signal);
        match backend.freeze(&target) {
            Ok(()) => {},
            Err(error) => {
                let failure = pid_message("control apply failed", process.pid, Some(&error));
                proof {
                    assert forall|full: Seq<Effect>|
                        extends(full, backend.trace()) implies #[trigger] freezing(
                        ps,
                        0,
                        signal,
                        full,
                        i0,
                    ) == Some((backend.trace().len() as int, k as int, Some(failure@))) by {
                        assert(validated(full, i1, process@) is Some);
                        assert(full[i2] == backend.trace()[i2]);
                    }
                }
                return (k, Some(failure));
            },
        }
        proof {
            assert forall|full: Seq<Effect>|
                extends(full, backend.trace()) implies #[trigger] freezing(
                ps,
                0,
                signal,
                full,
                i0,
            ) == freezing(ps, k + 1, signal, full, backend.trace().len() as int) by {
                assert(validated(full, i1, process@) is Some);
                assert(full[i2] == backend.trace()[i2]);
            }
        }
        k += 1;
    }
    (k, None)
}

fn roll_back<B: ControlBackend>(
    processes: &[RuntimeProcess],
    count: usize,
    signal: bool,
    backend: &mut B,
) -> (r: (usize, usize))
    requires
        old(backend).ready(),
        count <= processes@.len(),
    ensures
        proceeded(*old(backend), *final(backend)),
        forall|full: Seq<Effect>|
            extends(full, final(backend).trace()) ==> #[trigger] rolling_back(
                process_views(processes@),
                count as int,
                signal,
                full,
                old(backend).trace().len() as int,
                0,
                0,
            ) == Some((final(backend).trace().len() as int, r.0 as nat, r.1 as nat)),
{
    let ghost ps = process_views(processes@);
    let ghost b0 = *backend;
    let ghost i0 = backend.trace().len() as int;
    let mut rolled_back: usize = 0;
    let mut rollback_failures: usize = 0;
    let mut k: usize = count;
    while k > 0
        invariant
            k <= count <= processes@.len(),
            rolled_back + rollback_failures + k == count,
            ps == process_views(processes@),
            b0 == *old(backend),
            i0 == b0.trace().len(),
            proceeded(b0, *backend),
            forall|full: Seq<Effect>|
                extends(full, backend.trace()) ==> #[trigger] rolling_back(
                    ps,
                    count as int,
                    signal,
                    full,
                    i0,
                    0,
                    0,
                ) == rolling_back(
                    ps,
                    k as int,
                    signal,
                    full,
                    backend.trace().len() as int,
                    rolled_back as nat,
                    rollback_failures as nat,
                ),
        decreases k,
    {
        let process = &processes[k - 1];
        assert(ps[k - 1] == process@);
        let ghost i1 = backend.trace().len() as int;
        let identity_valid = match backend.validate(process) {
            Ok(valid) => valid,
            Err(_) => false,
        };
        if !identity_valid {
            rollback_failures += 1;
            proof {
                assert forall|full: Seq<Effect>|
                    extends(full, backend.trace()) implies #[trigger] rolling_back(
                    ps,
                    count as int,
                    signal,
                    full,
                    i0,
                    0,
                    0,
                ) == rolling_back(
                    ps,
                    k - 1,
                    signal,
                    full,
                    backend.trace().len() as int,
                    rolled_back as nat,
                    rollback_failures as nat,
                ) by {
                    assert(full[i1] == backend.trace()[i1]);
                }
            }
        } else {
            let ghost i2 = backend.trace().len() as int;
            let target = target_of(process, signal);
            let ghost t1 = backend.trace();
            match backend.unfreeze(&target) {
                Ok(()) => {
                    rolled_back += 1;
                },
                Err(_) => {
                    rollback_failures += 1;
                },
            }
            proof {
                assert forall|full: Seq<Effect>|
                    extends(full, backend.trace()) implies #[trigger] rolling_back(
                    ps,
                    count as int,
                    signal,
                    full,
                    i0,
                    0,
                    0,
                ) == rolling_back(
                    ps,
                    k - 1,
                    signal,
                    full,
                    backend.trace().len() as int,
                    rolled_back as nat,
                    rollback_failures as nat,
                ) by {
                    assert(full[i1] == t1[i1]);
                    assert(full[i2] == backend.trace()[i2]);
                }
            }
        }
        k -= 1;
    }
    (rolled_back, rollback_failures)
}

/// Freezes all processes of an identity, after validating all of them; on failure thaws the
/// ones that were frozen. With `signal` only the signal backend is used.
pub fn apply_freeze_transaction<B: ControlBackend>(
    processes: &[RuntimeProcess],
    signal: bool,
    backend: &mut B,
) -> (r: FreezeTransactionOutcome)
    requires
        old(backend).ready(),
    ensures
        proceeded(*old(backend), *final(backend)),
        forall|full: Seq<Effect>|
            extends(full, final(backend).trace()) ==> #[trigger] freeze_transaction(
                process_views(processes@),
                signal,
                full,
                old(backend).trace().len() as int,
            ) == Some((final(backend).trace().len() as int, r@)),
{
    match precheck(processes, "identity validation failed", backend) {
        Some(failure) => {
            return FreezeTransactionOutcome {
                applied: 0,
                rolled_back: 0,
                rollback_failures: 0,
                residual_possible: false,
                failure: Some(failure),
            };
        },
        None => {},
    }
    let (applied, failure) = freeze_each(processes, signal, backend);
    if failure.is_none() {
        return FreezeTransactionOutcome {
            applied,
            rolled_back: 0,
            rollback_failures: 0,
            residual_possible: false,
            failure: None,
        };
    }
    let (rolled_back, rollback_failures) = roll_back(processes, applied, signal, backend);
    FreezeTransactionOutcome {
        applied,
        rolled_back,
        rollback_failures,
        residual_possible: true,
        failure,
    }
}

/// Promoting from process `k` on: one call for each process, whatever the replies.
pub open spec fn promoting(ps: Seq<ProcessView>, k: int, log: Seq<Effect>, i: int) -> Option<int>
    decreases ps.len() - k,
{
    if k >= ps.len() || k < 0 {
        Some(i)
    } else if promoted(log, i, ps[k]) {
        promoting(ps, k + 1, log, i + 1)
    } else {
        None
    }
}

/// A stop transaction: a freeze transaction by signal; once all processes are stopped they
/// are promoted in the ledger, where that is allowed. A failed promotion changes nothing.
pub open spec fn stop_transaction(
    ps: Seq<ProcessView>,
    promotion: SignalStopLedgerPromotion,
    log: Seq<Effect>,
    i: int,
) -> Option<(int, FreezeView)> {
    match freeze_transaction(ps, true, log, i) {
        None => None,
        Some((j, out)) => if out.failure is None && promotion
            == SignalStopLedgerPromotion::AfterCompletedDirectTransaction {
            match promoting(ps, 0, log, j) {
                None => None,
                Some(j2) => Some((j2, out)),
            }
        } else {
            Some((j, out))
        },
    }
}

/// Runs a stop transaction. Promotion is for the direct decision to stop by signal; a stop
/// that replaces a failed freeze keeps the cautious ledger entry.
pub fn apply_signal_stop_freeze_transaction<B: ControlBackend>(
    processes: &[RuntimeProcess],
    promotion: SignalStopLedgerPromotion,
    backend: &mut B,
) -> (r: FreezeTransactionOutcome)
    requires
        old(backend).ready(),
    ensures
        proceeded(*old(backend), *final(backend)),
        forall|full: Seq<Effect>|
            extends(full, final(backend).trace()) ==> #[trigger] stop_transaction(
                process_views(processes@),
                promotion,
                full,
                old(backend).trace().len() as int,
            ) == Some((final(backend).trace().len() as int, r@)),
{
    let ghost ps = process_views(processes@);
    let ghost i0 = backend.trace().len() as int;
    let out = apply_freeze_transaction(processes, true, backend);
    if out.failure.is_none() && promotion
        == SignalStopLedgerPromotion::AfterCompletedDirectTransaction {
        let ghost b1 = *backend;
        let ghost i1 = backend.trace().len() as int;
        let mut k: usize = 0;
        while k < processes.len()
            invariant
                k <= processes@.len(),
                ps == process_views(processes@),
                i1 == b1.trace().len(),
                proceeded(b1, *backend),
                forall|full: Seq<Effect>|
                    extends(full, backend.trace()) ==> #[trigger] promoting(ps, 0, full, i1)
                        == promoting(ps, k as int, full, backend.trace().len() as int),
            decreases processes@.len() - k,
        {
            let process = &processes[k];
            assert(ps[k as int] == process@);
            let ghost i2 = backend.trace().len() as int;
            let _ = backend.promote(process);
            proof {
                assert forall|full: Seq<Effect>|
                    extends(full, backend.trace()) implies #[trigger] promoting(ps, 0, full, i1)
                    == promoting(ps, k + 1, full, backend.trace().len() as int) by {
                    assert(full[i2] == backend.trace()[i2]);
                }
            }
            k += 1;
        }
        proof {
            assert forall|full: Seq<Effect>|
                extends(full, backend.trace()) implies #[trigger] stop_transaction(
                ps,
                promotion,
                full,
                i0,
            ) == Some((backend.trace().len() as int, out@)) by {
                assert(freeze_transaction(ps, true, full, i0) == Some((i1, out@)));
                assert(promoting(ps, 0, full, i1) == Some(backend.trace().len() as int));
            }
        }
    }
    out
}

// ---------------------------------------------------------------------------
// Thawing
// ---------------------------------------------------------------------------

/// What thawing an identity did.
#[derive(Debug, Clone, PartialEq, Eq)]
pub struct UnfreezeOutcome {
    pub applied: usize,
    pub failures: Vec<String>,
}

/// The outcome of thawing as a value.
#[verifier::ext_equal]
pub ghost struct ThawView {
    pub applied: nat,
    pub failures: Seq<Seq<char>>,
}

impl View for UnfreezeOutcome {
    type V = ThawView;

    open spec fn view(&self) -> ThawView {
        ThawView { applied: self.applied as nat, failures: texts(self.failures@) }
    }
}

/// Whether a process belongs to another package than `package`.
pub open spec fn has_stranger(package: Seq<char>, ps: Seq<ProcessView>) -> bool {
    exists|k: int| 0 <= k < ps.len() && (#[trigger] ps[k]).package_name != package
}

/// Thawing from process `k` on: every process is tried; one that does not validate is left
/// alone.
pub open spec fn thawing(
    ps: Seq<ProcessView>,
    k: int,
    signal: bool,
    log: Seq<Effect>,
    i: int,
    out: ThawView,
) -> Option<(int, ThawView)>
    decreases ps.len() - k,
{
    if k >= ps.len() || k < 0 {
        Some((i, out))
    } else {
        let target = control_target(ps[k], signal);
        match validated(log, i, target) {
            None => None,
            Some(reply) => match validation_failure(
                "identity validation failed before unfreeze"@,
                target,
                reply,
            ) {
                Some(failure) => thawing(
                    ps,
                    k + 1,
                    signal,
                    log,
                    i + 1,
                    ThawView { failures: out.failures.push(failure), ..out },
                ),
                None => match thawed(log, i + 1, target) {
                    None => None,
                    Some(Ok(_)) => thawing(
                        ps,
                        k + 1,
                        signal,
                        log,
                        i + 2,
                        ThawView { applied: out.applied + 1, ..out },
                    ),
                    Some(Err(e)) => thawing(
                        ps,
                        k + 1,
                        signal,
                        log,
                        i + 2,
                        ThawView {
                            failures: out.failures.push(
                                about_pid("unfreeze failed"@, target.pid, Some(e)),
                            ),
                            ..out
                        },
                    ),
                },
            },
        }
    }
}

/// Thawing the processes of an identity. Processes of another package under the same uid
/// stop it before any call. An identity held by a signal alone is thawed by signal alone.
pub open spec fn thaw_identity(
    package: Seq<char>,
    ps: Seq<ProcessView>,
    ownership: FrozenOwnership,
    log: Seq<Effect>,
    i: int,
) -> Option<(int, ThawView)> {
    if has_stranger(package, ps) {
        Some(
            (
                i,
                ThawView {
                    applied: 0,
                    failures: seq!["shared uid contains multiple package identities"@],
                },
            ),
        )
    } else {
        thawing(
            ps,
            0,
            ownership == FrozenOwnership::SignalOnly,
            log,
            i,
            ThawView { applied: 0, failures: seq![] },
        )
    }
}

fn find_stranger(expected_package: &str, processes: &[RuntimeProcess]) -> (r: bool)
    ensures
        r == has_stranger(expected_package@, process_views(processes@)),
{
    let ghost ps = process_views(processes@);
    let mut k: usize = 0;
    while k < processes.len()
        invariant
            k <= processes@.len(),
            ps == process_views(processes@),
            forall|j: int| 0 <= j < k ==> (#[trigger] ps[j]).package_name == expected_package@,
        decreases processes@.len() - k,
    {
        assert(ps[k as int] == processes@[k as int]@);
        if !same(processes[k].package_name.as_str(), expected_package) {
            return true;
        }
        k += 1;
    }
    false
}

/// Thaws the processes of an identity.
pub fn unfreeze_identity_processes<B: ControlBackend>(
    expected_package: &str,
    processes: &[RuntimeProcess],
    ownership: FrozenOwnership,
    backend: &mut B,
) -> (r: UnfreezeOutcome)
    requires
        old(backend).ready(),
    ensures
        proceeded(*old(backend), *final(backend)),
        forall|full: Seq<Effect>|
            extends(full, final(backend).trace()) ==> #[trigger] thaw_identity(
                expected_package@,
                process_views(processes@),
                ownership,
                full,
                old(backend).trace().len() as int,
            ) == Some((final(backend).trace().len() as int, r@)),
{
    let ghost ps = process_views(processes@);
    let ghost b0 = *backend;
    let ghost i0 = backend.trace().len() as int;
    if find_stranger(expected_package, processes) {
        let mut failures: Vec<String> = Vec::new();
        failures.push(text("shared uid contains multiple package identities"));
        let r = UnfreezeOutcome { applied: 0, failures };
        assert(texts(r.failures@) =~= seq!["shared uid contains multiple package identities"@]);
        return r;
    }
    let signal = ownership == FrozenOwnership::SignalOnly;
    let mut applied: usize = 0;
    let mut failures: Vec<String> = Vec::new();
    let ghost empty = ThawView { applied: 0, failures: seq![] };
    assert(texts(failures@) =~= seq![]);
    let mut k: usize = 0;
    while k < processes.len()
        invariant
            k <= processes@.len(),
            applied <= k,
            ps == process_views(processes@),
            b0 == *old(backend),
            i0 == b0.trace().len(),
            proceeded(b0, *backend),
            forall|full: Seq<Effect>|
                extends(full, backend.trace()) ==> #[trigger] thawing(
                    ps,
                    0,
                    signal,
                    full,
                    i0,
                    empty,
                ) == thawing(
                    ps,
                    k as int,
                    signal,
                    full,
                    backend.trace().len() as int,
                    ThawView { applied: applied as nat, failures: texts(failures@) },
                ),
        decreases processes@.len() - k,
    {
        let target = target_of(&processes[k], signal);
        assert(ps[k as int] == processes@[k as int]@);
        let ghost i1 = backend.trace().len() as int;
        let ghost failed = texts(failures@);
        match validate_once("identity validation failed before unfreeze", &target, backend) {
            Some(failure) => {
                failures.push(failure);
                proof {
                    assert(texts(failures@) =~= failed.push(failure@));
                    assert forall|full: Seq<Effect>|
                        extends(full, backend.trace()) implies #[trigger] thawing(
                        ps,
                        0,
                        signal,
                        full,
                        i0,
                        empty,
                    ) == thawing(
                        ps,
                        k + 1,
                        signal,
                        full,
                        backend.trace().len() as int,
                        ThawView { applied: applied as nat, failures: texts(failures@) },
                    ) by {
                        assert(validated(full, i1, target@) is Some);
                    }
                }
                k += 1;
                continue;
            },
            None => {},
        }
        let ghost i2 = backend.trace().len() as int;
        match backend.unfreeze(&target) {
            Ok(()) => {
                applied += 1;
            },
            Err(error) => {
                let failure = pid_message("unfreeze failed", target.pid, Some(&error));
                failures.push(failure);
                assert(texts(failures@) =~= failed.push(failure@));
            },
        }
        proof {
            assert forall|full: Seq<Effect>|
                extends(full, backend.trace()) implies #[trigger] thawing(
                ps,
                0,
                signal,
                full,
                i0,
                empty,
            ) == thawing(
                ps,
                k + 1,
                signal,
                full,
                backend.trace().len() as int,
                ThawView { applied: applied as nat, failures: texts(failures@) },
            ) by {
                assert(validated(full, i1, target@) is Some);
                assert(full[i2] == backend.trace()[i2]);
            }
        }
        k += 1;
    }
    UnfreezeOutcome { applied, failures }
}

} // verus!
