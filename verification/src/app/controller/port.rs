//! The device as the controller sees it: calls that act on processes or ask for evidence.
//!
//! Every call that a control pass makes is recorded, with its reply, in a ghost trace. The
//! contracts of the controller speak of that trace: it says which calls are made, in which
//! order, and how the controller's state follows from the replies.

use vstd::prelude::*;

use crate::app::error::{outcome, DaemonError, ErrorView};
use crate::app::freezer_backend::{BackendEnvironment, DecisionView, FreezeDecision};
use crate::domain::policy::{AppView, FreezePolicy, ManagedApp, PolicyView, ProtectedReason};
use crate::domain::runtime::{process_views, ProcessView, RuntimeProcess};
use crate::sys::procfs::SignalStopOwnership;

verus! {

/// A call to the device and its reply.
#[allow(inconsistent_fields)]
#[verifier::ext_equal]
pub ghost enum Effect {
    /// Lists the processes of a uid.
    Discover { package: Seq<char>, uid: u32, reply: Result<Seq<ProcessView>, ErrorView> },
    /// Asks whether a process is still the one that was discovered.
    Validate { process: ProcessView, reply: Result<bool, ErrorView> },
    /// Freezes a process.
    Freeze { process: ProcessView, reply: Result<(), ErrorView> },
    /// Thaws a process.
    Unfreeze { process: ProcessView, reply: Result<(), ErrorView> },
    /// Kills a process.
    Terminate { process: ProcessView, reply: Result<(), ErrorView> },
    /// Reads the received bytes of a uid.
    Sample { uid: u32, package: Seq<char>, reply: Result<Option<u64>, ErrorView> },
    /// Reads what the stop ledger holds for a process.
    Recorded { pid: i32, start: u64, reply: Result<Option<SignalStopOwnership>, ErrorView> },
    /// Marks a stopped process in the ledger as held by the signal alone.
    Promote { process: ProcessView, reply: Result<(), ErrorView> },
    /// Asks why a package is protected.
    Classify { package: Seq<char>, system: bool, reply: Option<ProtectedReason> },
    /// Asks the freezer backend what to do with the processes of an application.
    Decide {
        app: AppView,
        policy: PolicyView,
        processes: Seq<ProcessView>,
        environment: BackendEnvironment,
        reply: DecisionView,
    },
    /// Asks the freezer backend what to do after a failed freeze.
    Fallback {
        policy: PolicyView,
        error: ErrorView,
        environment: BackendEnvironment,
        reply: DecisionView,
    },
}

/// The reply to a discovery as a value.
pub open spec fn discovered(r: Result<Vec<RuntimeProcess>, DaemonError>) -> Result<
    Seq<ProcessView>,
    ErrorView,
> {
    match r {
        Ok(v) => Ok(process_views(v@)),
        Err(e) => Err(e@),
    }
}

/// The calls of a controller. Each one appends itself, with its reply, to the trace.
pub trait ControlBackend: Sized {
    /// The calls made so far.
    spec fn trace(&self) -> Seq<Effect>;

    /// The calls, with replies, that this device can give.
    spec fn gives(&self) -> spec_fn(Effect) -> bool;

    /// Whether calls can be made.
    spec fn ready(&self) -> bool;

    fn discover(&mut self, package_name: &str, uid: u32) -> (r: Result<
        Vec<RuntimeProcess>,
        DaemonError,
    >)
        requires
            old(self).ready(),
        ensures
            final(self).ready(),
            final(self).gives() == old(self).gives(),
            final(self).trace() == old(self).trace().push(
                Effect::Discover { package: package_name@, uid, reply: discovered(r) },
            ),
            (old(self).gives())(
                Effect::Discover { package: package_name@, uid, reply: discovered(r) },
            ),
    ;

    fn validate(&mut self, process: &RuntimeProcess) -> (r: Result<bool, DaemonError>)
        requires
            old(self).ready(),
        ensures
            final(self).ready(),
            final(self).gives() == old(self).gives(),
            final(self).trace() == old(self).trace().push(
                Effect::Validate { process: process@, reply: outcome(r) },
            ),
            (old(self).gives())(Effect::Validate { process: process@, reply: outcome(r) }),
    ;

    fn freeze(&mut self, process: &RuntimeProcess) -> (r: Result<(), DaemonError>)
        requires
            old(self).ready(),
        ensures
            final(self).ready(),
            final(self).gives() == old(self).gives(),
            final(self).trace() == old(self).trace().push(
                Effect::Freeze { process: process@, reply: outcome(r) },
            ),
            (old(self).gives())(Effect::Freeze { process: process@, reply: outcome(r) }),
    ;

    fn unfreeze(&mut self, process: &RuntimeProcess) -> (r: Result<(), DaemonError>)
        requires
            old(self).ready(),
        ensures
            final(self).ready(),
            final(self).gives() == old(self).gives(),
            final(self).trace() == old(self).trace().push(
                Effect::Unfreeze { process: process@, reply: outcome(r) },
            ),
            (old(self).gives())(Effect::Unfreeze { process: process@, reply: outcome(r) }),
    ;

    fn terminate(&mut self, process: &RuntimeProcess) -> (r: Result<(), DaemonError>)
        requires
            old(self).ready(),
        ensures
            final(self).ready(),
            final(self).gives() == old(self).gives(),
            final(self).trace() == old(self).trace().push(
                Effect::Terminate { process: process@, reply: outcome(r) },
            ),
            (old(self).gives())(Effect::Terminate { process: process@, reply: outcome(r) }),
    ;

    fn sample(&mut self, uid: u32, package_name: &str) -> (r: Result<Option<u64>, DaemonError>)
        requires
            old(self).ready(),
        ensures
            final(self).ready(),
            final(self).gives() == old(self).gives(),
            final(self).trace() == old(self).trace().push(
                Effect::Sample { uid, package: package_name@, reply: outcome(r) },
            ),
            (old(self).gives())(Effect::Sample { uid, package: package_name@, reply: outcome(r) }),
    ;

    fn recorded(&mut self, pid: i32, start: u64) -> (r: Result<
        Option<SignalStopOwnership>,
        DaemonError,
    >)
        requires
            old(self).ready(),
        ensures
            final(self).ready(),
            final(self).gives() == old(self).gives(),
            final(self).trace() == old(self).trace().push(
                Effect::Recorded { pid, start, reply: outcome(r) },
            ),
            (old(self).gives())(Effect::Recorded { pid, start, reply: outcome(r) }),
    ;

    fn promote(&mut self, process: &RuntimeProcess) -> (r: Result<(), DaemonError>)
        requires
            old(self).ready(),
        ensures
            final(self).ready(),
            final(self).gives() == old(self).gives(),
            final(self).trace() == old(self).trace().push(
                Effect::Promote { process: process@, reply: outcome(r) },
            ),
            (old(self).gives())(Effect::Promote { process: process@, reply: outcome(r) }),
    ;

    fn classify(&mut self, package_name: &str, system: bool) -> (r: Option<ProtectedReason>)
        requires
            old(self).ready(),
        ensures
            final(self).ready(),
            final(self).gives() == old(self).gives(),
            final(self).trace() == old(self).trace().push(
                Effect::Classify { package: package_name@, system, reply: r },
            ),
            (old(self).gives())(Effect::Classify { package: package_name@, system, reply: r }),
    ;

    fn decide(
        &mut self,
        app: &ManagedApp,
        policy: &FreezePolicy,
        processes: &[RuntimeProcess],
        environment: BackendEnvironment,
    ) -> (r: FreezeDecision)
        requires
            old(self).ready(),
        ensures
            final(self).ready(),
            final(self).gives() == old(self).gives(),
            final(self).trace() == old(self).trace().push(
                Effect::Decide {
                    app: app@,
                    policy: policy@,
                    processes: process_views(processes@),
                    environment,
                    reply: r@,
                },
            ),
            (old(self).gives())(
                Effect::Decide {
                    app: app@,
                    policy: policy@,
                    processes: process_views(processes@),
                    environment,
                    reply: r@,
                },
            ),
    ;

    fn fallback(
        &mut self,
        policy: &FreezePolicy,
        error: &DaemonError,
        environment: BackendEnvironment,
    ) -> (r: FreezeDecision)
        requires
            old(self).ready(),
        ensures
            final(self).ready(),
            final(self).gives() == old(self).gives(),
            final(self).trace() == old(self).trace().push(
                Effect::Fallback { policy: policy@, error: error@, environment, reply: r@ },
            ),
            (old(self).gives())(
                Effect::Fallback { policy: policy@, error: error@, environment, reply: r@ },
            ),
    ;
}

/// The trace `full` begins with the trace `base`.
pub open spec fn extends(full: Seq<Effect>, base: Seq<Effect>) -> bool {
    base.len() <= full.len() && forall|i: int| 0 <= i < base.len() ==> #[trigger] full[i] == base[i]
}

/// From `before` to `after` only calls were made that the device can give.
pub open spec fn proceeded<B: ControlBackend>(before: B, after: B) -> bool {
    &&& after.ready()
    &&& after.gives() == before.gives()
    &&& extends(after.trace(), before.trace())
    &&& forall|i: int|
        before.trace().len() <= i < after.trace().len() ==> (before.gives())(
            #[trigger] after.trace()[i],
        )
}

/// A device made of one function for each call.
pub struct ControlPort<D, F, U, V, S, K, O, P, C, J, R> where
    D: FnMut(&str, u32) -> Result<Vec<RuntimeProcess>, DaemonError>,
    F: FnMut(&RuntimeProcess) -> Result<(), DaemonError>,
    U: FnMut(&RuntimeProcess) -> Result<(), DaemonError>,
    V: FnMut(&RuntimeProcess) -> Result<bool, DaemonError>,
    S: FnMut(u32, &str) -> Result<Option<u64>, DaemonError>,
    K: FnMut(&RuntimeProcess) -> Result<(), DaemonError>,
    O: FnMut(i32, u64) -> Result<Option<SignalStopOwnership>, DaemonError>,
    P: FnMut(&RuntimeProcess) -> Result<(), DaemonError>,
    C: FnMut(&str, bool) -> Option<ProtectedReason>,
    J: FnMut(&ManagedApp, &FreezePolicy, &[RuntimeProcess], BackendEnvironment) -> FreezeDecision,
    R: FnMut(&FreezePolicy, &DaemonError, BackendEnvironment) -> FreezeDecision,
 {
    discover_processes: D,
    freeze_process: F,
    unfreeze_process: U,
    validate_process: V,
    sample_rx_bytes: S,
    terminate_process: K,
    recorded_ownership: O,
    promote_signal_stop: P,
    protected_reason: C,
    can_freeze: J,
    fallback_after_error: R,
    trace: Ghost<Seq<Effect>>,
}

impl<D, F, U, V, S, K, O, P, C, J, R> ControlPort<D, F, U, V, S, K, O, P, C, J, R> where
    D: FnMut(&str, u32) -> Result<Vec<RuntimeProcess>, DaemonError>,
    F: FnMut(&RuntimeProcess) -> Result<(), DaemonError>,
    U: FnMut(&RuntimeProcess) -> Result<(), DaemonError>,
    V: FnMut(&RuntimeProcess) -> Result<bool, DaemonError>,
    S: FnMut(u32, &str) -> Result<Option<u64>, DaemonError>,
    K: FnMut(&RuntimeProcess) -> Result<(), DaemonError>,
    O: FnMut(i32, u64) -> Result<Option<SignalStopOwnership>, DaemonError>,
    P: FnMut(&RuntimeProcess) -> Result<(), DaemonError>,
    C: FnMut(&str, bool) -> Option<ProtectedReason>,
    J: FnMut(&ManagedApp, &FreezePolicy, &[RuntimeProcess], BackendEnvironment) -> FreezeDecision,
    R: FnMut(&FreezePolicy, &DaemonError, BackendEnvironment) -> FreezeDecision,
 {
    /// A device that makes each call with the function given for it.
    #[allow(clippy::too_many_arguments)]
    pub fn new(
        discover_processes: D,
        freeze_process: F,
        unfreeze_process: U,
        validate_process: V,
        sample_rx_bytes: S,
        terminate_process: K,
        recorded_ownership: O,
        promote_signal_stop: P,
        protected_reason: C,
        can_freeze: J,
        fallback_after_error: R,
    ) -> (r: Self)
        requires
            forall|p: &str, u: u32| call_requires(discover_processes, (p, u)),
            forall|p: &RuntimeProcess| call_requires(freeze_process, (p,)),
            forall|p: &RuntimeProcess| call_requires(unfreeze_process, (p,)),
            forall|p: &RuntimeProcess| call_requires(validate_process, (p,)),
            forall|u: u32, p: &str| call_requires(sample_rx_bytes, (u, p)),
            forall|p: &RuntimeProcess| call_requires(terminate_process, (p,)),
            forall|p: i32, s: u64| call_requires(recorded_ownership, (p, s)),
            forall|p: &RuntimeProcess| call_requires(promote_signal_stop, (p,)),
            forall|p: &str, s: bool| call_requires(protected_reason, (p, s)),
            forall|a: &ManagedApp, p: &FreezePolicy, s: &[RuntimeProcess], e: BackendEnvironment|
                call_requires(can_freeze, (a, p, s, e)),
            forall|p: &FreezePolicy, d: &DaemonError, e: BackendEnvironment|
                call_requires(fallback_after_error, (p, d, e)),
        ensures
            r.ready(),
            r.trace() == Seq::<Effect>::empty(),
            r.gives() == (|e: Effect|
                port_gives(
                    discover_processes,
                    freeze_process,
                    unfreeze_process,
                    validate_process,
                    sample_rx_bytes,
                    terminate_process,
                    recorded_ownership,
                    promote_signal_stop,
                    protected_reason,
                    can_freeze,
                    fallback_after_error,
                    e,
                )),
    {
        ControlPort {
            discover_processes,
            freeze_process,
            unfreeze_process,
            validate_process,
            sample_rx_bytes,
            terminate_process,
            recorded_ownership,
            promote_signal_stop,
            protected_reason,
            can_freeze,
            fallback_after_error,
            trace: Ghost(Seq::empty()),
        }
    }
}

/// A call with a reply that one of these functions can return.
pub open spec fn port_gives<D, F, U, V, S, K, O, P, C, J, R>(
    discover: D,
    freeze: F,
    unfreeze: U,
    validate: V,
    sample: S,
    terminate: K,
    recorded: O,
    promote: P,
    classify: C,
    decide: J,
    fallback: R,
    e: Effect,
) -> bool where
    D: FnMut(&str, u32) -> Result<Vec<RuntimeProcess>, DaemonError>,
    F: FnMut(&RuntimeProcess) -> Result<(), DaemonError>,
    U: FnMut(&RuntimeProcess) -> Result<(), DaemonError>,
    V: FnMut(&RuntimeProcess) -> Result<bool, DaemonError>,
    S: FnMut(u32, &str) -> Result<Option<u64>, DaemonError>,
    K: FnMut(&RuntimeProcess) -> Result<(), DaemonError>,
    O: FnMut(i32, u64) -> Result<Option<SignalStopOwnership>, DaemonError>,
    P: FnMut(&RuntimeProcess) -> Result<(), DaemonError>,
    C: FnMut(&str, bool) -> Option<ProtectedReason>,
    J: FnMut(&ManagedApp, &FreezePolicy, &[RuntimeProcess], BackendEnvironment) -> FreezeDecision,
    R: FnMut(&FreezePolicy, &DaemonError, BackendEnvironment) -> FreezeDecision,
 {
    match e {
        Effect::Discover { package, uid, reply } => exists|
            p: &str,
            u: u32,
            r: Result<Vec<RuntimeProcess>, DaemonError>,
        | #[trigger]
            call_ensures(discover, (p, u), r) && p@ == package && u == uid && discovered(r)
                == reply,
        Effect::Validate { process, reply } => exists|
            p: &RuntimeProcess,
            r: Result<bool, DaemonError>,
        | #[trigger] call_ensures(validate, (p,), r) && p@ == process && outcome(r) == reply,
        Effect::Freeze { process, reply } => exists|p: &RuntimeProcess, r: Result<(), DaemonError>|
            #[trigger] call_ensures(freeze, (p,), r) && p@ == process && outcome(r) == reply,
        Effect::Unfreeze { process, reply } => exists|
            p: &RuntimeProcess,
            r: Result<(), DaemonError>,
        | #[trigger] call_ensures(unfreeze, (p,), r) && p@ == process && outcome(r) == reply,
        Effect::Terminate { process, reply } => exists|
            p: &RuntimeProcess,
            r: Result<(), DaemonError>,
        | #[trigger] call_ensures(terminate, (p,), r) && p@ == process && outcome(r) == reply,
        Effect::Sample { uid, package, reply } => exists|
            u: u32,
            p: &str,
            r: Result<Option<u64>, DaemonError>,
        | #[trigger]
            call_ensures(sample, (u, p), r) && u == uid && p@ == package && outcome(r) == reply,
        Effect::Recorded { pid, start, reply } => exists|
            i: i32,
            t: u64,
            r: Result<Option<SignalStopOwnership>, DaemonError>,
        | #[trigger]
            call_ensures(recorded, (i, t), r) && i == pid && t == start && outcome(r) == reply,
        Effect::Promote { process, reply } => exists|
            p: &RuntimeProcess,
            r: Result<(), DaemonError>,
        | #[trigger] call_ensures(promote, (p,), r) && p@ == process && outcome(r) == reply,
        Effect::Classify { package, system, reply } => exists|
            p: &str,
            s: bool,
            r: Option<ProtectedReason>,
        | #[trigger]
            call_ensures(classify, (p, s), r) && p@ == package && s == system && r == reply,
        Effect::Decide { app, policy, processes, environment, reply } => exists|
            a: &ManagedApp,
            p: &FreezePolicy,
            s: &[RuntimeProcess],
            r: FreezeDecision,
        | #[trigger]
            call_ensures(decide, (a, p, s, environment), r) && a@ == app && p@ == policy
                && process_views(s@) == processes && r@ == reply,
        Effect::Fallback { policy, error, environment, reply } => exists|
            p: &FreezePolicy,
            d: &DaemonError,
            r: FreezeDecision,
        | #[trigger]
            call_ensures(fallback, (p, d, environment), r) && p@ == policy && d@ == error && r@
                == reply,
    }
}

impl<D, F, U, V, S, K, O, P, C, J, R> ControlBackend for ControlPort<
    D,
    F,
    U,
    V,
    S,
    K,
    O,
    P,
    C,
    J,
    R,
> where
    D: FnMut(&str, u32) -> Result<Vec<RuntimeProcess>, DaemonError>,
    F: FnMut(&RuntimeProcess) -> Result<(), DaemonError>,
    U: FnMut(&RuntimeProcess) -> Result<(), DaemonError>,
    V: FnMut(&RuntimeProcess) -> Result<bool, DaemonError>,
    S: FnMut(u32, &str) -> Result<Option<u64>, DaemonError>,
    K: FnMut(&RuntimeProcess) -> Result<(), DaemonError>,
    O: FnMut(i32, u64) -> Result<Option<SignalStopOwnership>, DaemonError>,
    P: FnMut(&RuntimeProcess) -> Result<(), DaemonError>,
    C: FnMut(&str, bool) -> Option<ProtectedReason>,
    J: FnMut(&ManagedApp, &FreezePolicy, &[RuntimeProcess], BackendEnvironment) -> FreezeDecision,
    R: FnMut(&FreezePolicy, &DaemonError, BackendEnvironment) -> FreezeDecision,
 {
    closed spec fn trace(&self) -> Seq<Effect> {
        self.trace@
    }

    closed spec fn gives(&self) -> spec_fn(Effect) -> bool {
        |e: Effect|
            port_gives(
                self.discover_processes,
                self.freeze_process,
                self.unfreeze_process,
                self.validate_process,
                self.sample_rx_bytes,
                self.terminate_process,
                self.recorded_ownership,
                self.promote_signal_stop,
                self.protected_reason,
                self.can_freeze,
                self.fallback_after_error,
                e,
            )
    }

    closed spec fn ready(&self) -> bool {
        &&& forall|p: &str, u: u32| call_requires(self.discover_processes, (p, u))
        &&& forall|p: &RuntimeProcess| call_requires(self.freeze_process, (p,))
        &&& forall|p: &RuntimeProcess| call_requires(self.unfreeze_process, (p,))
        &&& forall|p: &RuntimeProcess| call_requires(self.validate_process, (p,))
        &&& forall|u: u32, p: &str| call_requires(self.sample_rx_bytes, (u, p))
        &&& forall|p: &RuntimeProcess| call_requires(self.terminate_process, (p,))
        &&& forall|p: i32, s: u64| call_requires(self.recorded_ownership, (p, s))
        &&& forall|p: &RuntimeProcess| call_requires(self.promote_signal_stop, (p,))
        &&& forall|p: &str, s: bool| call_requires(self.protected_reason, (p, s))
        &&& forall|a: &ManagedApp, p: &FreezePolicy, s: &[RuntimeProcess], e: BackendEnvironment|
            call_requires(self.can_freeze, (a, p, s, e))
        &&& forall|p: &FreezePolicy, d: &DaemonError, e: BackendEnvironment|
            call_requires(self.fallback_after_error, (p, d, e))
    }

    fn discover(&mut self, package_name: &str, uid: u32) -> (r: Result<
        Vec<RuntimeProcess>,
        DaemonError,
    >) {
        let r = (self.discover_processes)(package_name, uid);
        self.trace =
        Ghost(
            self.trace@.push(
                Effect::Discover { package: package_name@, uid, reply: discovered(r) },
            ),
        );
        r
    }

    fn validate(&mut self, process: &RuntimeProcess) -> (r: Result<bool, DaemonError>) {
        let r = (self.validate_process)(process);
        self.trace =
        Ghost(self.trace@.push(Effect::Validate { process: process@, reply: outcome(r) }));
        r
    }

    fn freeze(&mut self, process: &RuntimeProcess) -> (r: Result<(), DaemonError>) {
        let r = (self.freeze_process)(process);
        self.trace =
        Ghost(self.trace@.push(Effect::Freeze { process: process@, reply: outcome(r) }));
        r
    }

    fn unfreeze(&mut self, process: &RuntimeProcess) -> (r: Result<(), DaemonError>) {
        let r = (self.unfreeze_process)(process);
        self.trace =
        Ghost(self.trace@.push(Effect::Unfreeze { process: process@, reply: outcome(r) }));
        r
    }

    fn terminate(&mut self, process: &RuntimeProcess) -> (r: Result<(), DaemonError>) {
        let r = (self.terminate_process)(process);
        self.trace =
        Ghost(self.trace@.push(Effect::Terminate { process: process@, reply: outcome(r) }));
        r
    }

    fn sample(&mut self, uid: u32, package_name: &str) -> (r: Result<Option<u64>, DaemonError>) {
        let r = (self.sample_rx_bytes)(uid, package_name);
        self.trace =
        Ghost(
            self.trace@.push(Effect::Sample { uid, package: package_name@, reply: outcome(r) }),
        );
        r
    }

    fn recorded(&mut self, pid: i32, start: u64) -> (r: Result<
        Option<SignalStopOwnership>,
        DaemonError,
    >) {
        let r = (self.recorded_ownership)(pid, start);
        self.trace = Ghost(self.trace@.push(Effect::Recorded { pid, start, reply: outcome(r) }));
        r
    }

    fn promote(&mut self, process: &RuntimeProcess) -> (r: Result<(), DaemonError>) {
        let r = (self.promote_signal_stop)(process);
        self.trace =
        Ghost(self.trace@.push(Effect::Promote { process: process@, reply: outcome(r) }));
        r
    }

    fn classify(&mut self, package_name: &str, system: bool) -> (r: Option<ProtectedReason>) {
        let r = (self.protected_reason)(package_name, system);
        self.trace =
        Ghost(self.trace@.push(Effect::Classify { package: package_name@, system, reply: r }));
        r
    }

    fn decide(
        &mut self,
        app: &ManagedApp,
        policy: &FreezePolicy,
        processes: &[RuntimeProcess],
        environment: BackendEnvironment,
    ) -> (r: FreezeDecision) {
        let r = (self.can_freeze)(app, policy, processes, environment);
        self.trace =
        Ghost(
            self.trace@.push(
                Effect::Decide {
                    app: app@,
                    policy: policy@,
                    processes: process_views(processes@),
                    environment,
                    reply: r@,
                },
            ),
        );
        r
    }

    fn fallback(
        &mut self,
        policy: &FreezePolicy,
        error: &DaemonError,
        environment: BackendEnvironment,
    ) -> (r: FreezeDecision) {
        let r = (self.fallback_after_error)(policy, error, environment);
        self.trace =
        Ghost(
            self.trace@.push(
                Effect::Fallback { policy: policy@, error: error@, environment, reply: r@ },
            ),
        );
        r
    }
}

} // verus!
