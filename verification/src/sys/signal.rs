//! Stopping and continuing processes by signals.

use vstd::prelude::*;
use vstd::string::*;

use crate::app::error::{error_text, DaemonError, ErrorView};
use crate::text::text;

verus! {

/// The number of the signal that stops a process.
pub const SIGSTOP_NUMBER: i32 = 19;

/// The number of the signal that lets a process go on.
pub const SIGCONT_NUMBER: i32 = 18;

/// What a signal does to a process.
#[derive(Debug, Clone, Copy, PartialEq, Eq, Structural)]
pub enum SignalAction {
    Stop,
    Continue,
}

impl SignalAction {
    /// The number of the signal.
    pub fn signal_number(self) -> (r: i32)
        ensures
            r == match self {
                SignalAction::Stop => 19i32,
                SignalAction::Continue => 18i32,
            },
    {
        match self {
            SignalAction::Stop => SIGSTOP_NUMBER,
            SignalAction::Continue => SIGCONT_NUMBER,
        }
    }
}

/// Whether a signal may be sent in a test.
pub fn is_signal_allowed(test_mode: bool, pid: i32) -> (r: bool)
    ensures
        r == (test_mode && pid > 0),
{
    test_mode && pid > 0
}

/// The error after a stop that could not be recorded.
pub open spec fn unrecorded_stop(ledger: ErrorView, rollback: Option<ErrorView>) -> ErrorView {
    ErrorView::System(
        "SIGSTOP succeeded but ownership ledger failed: "@ + error_text(ledger) + (
        match rollback {
            Some(e) => "; SIGCONT rollback failed: "@ + error_text(e),
            None => "; SIGCONT rollback succeeded"@,
        }),
    )
}

/// A result with its error as a value.
pub open spec fn ended<T>(r: Result<T, DaemonError>) -> Result<T, ErrorView> {
    match r {
        Ok(v) => Ok(v),
        Err(e) => Err(e@),
    }
}

/// The signal can end this way.
pub open spec fn signal_gives<K: FnMut(i32, SignalAction) -> Result<(), DaemonError>>(
    send: K,
    pid: i32,
    action: SignalAction,
    reply: Result<(), ErrorView>,
) -> bool {
    exists|p: i32, a: SignalAction, r: Result<(), DaemonError>| #[trigger]
        call_ensures(send, (p, a), r) && p == pid && a == action && ended(r) == reply
}

/// Recording the stop can end this way.
pub open spec fn record_gives<R: FnMut(i32) -> Result<(), DaemonError>>(
    record: R,
    pid: i32,
    reply: Result<(), ErrorView>,
) -> bool {
    exists|p: i32, r: Result<(), DaemonError>| #[trigger]
        call_ensures(record, (p,), r) && p == pid && ended(r) == reply
}

/// Taking the stop out of the ledger can end this way.
pub open spec fn take_gives<T: FnMut(i32) -> Result<bool, DaemonError>>(
    take: T,
    pid: i32,
    reply: Result<bool, ErrorView>,
) -> bool {
    exists|p: i32, r: Result<bool, DaemonError>| #[trigger]
        call_ensures(take, (p,), r) && p == pid && ended(r) == reply
}

/// The result of a stop: the signal, then the ledger; a stop that cannot be recorded is undone.
pub open spec fn stop_result(
    signal: Result<(), ErrorView>,
    ledger: Result<(), ErrorView>,
    rollback: Result<(), ErrorView>,
) -> Result<(), ErrorView> {
    match (signal, ledger) {
        (Err(e), _) => Err(e),
        (Ok(_), Ok(_)) => Ok(()),
        (Ok(_), Err(e)) => Err(
            unrecorded_stop(
                e,
                match rollback {
                    Ok(_) => None,
                    Err(b) => Some(b),
                },
            ),
        ),
    }
}

/// The result of letting a process go on: the ledger first; a stop of ours is recorded again
/// where the signal fails.
pub open spec fn continue_result(
    taken: Result<bool, ErrorView>,
    signal: Result<(), ErrorView>,
    restored: Result<(), ErrorView>,
) -> Result<(), ErrorView> {
    match (taken, signal) {
        (Err(e), _) => Err(e),
        (Ok(_), Ok(_)) => Ok(()),
        (Ok(false), Err(e)) => Err(e),
        (Ok(true), Err(e)) => match restored {
            Ok(_) => Err(e),
            Err(b) => Err(
                ErrorView::System(
                    "SIGCONT failed: "@ + error_text(e)
                        + "; failed to restore ownership ledger: "@ + error_text(b),
                ),
            ),
        },
    }
}

/// A call that stops a process, lets it go on, or notes that in the ledger.
#[verifier::ext_equal]
pub ghost enum SignalCall {
    Send(i32, SignalAction),
    Record(i32),
    Take(i32),
}

/// A call and its reply. For the ledger's record and for signals the reply says nothing on
/// success.
#[verifier::ext_equal]
pub ghost struct SignalEffect {
    pub call: SignalCall,
    pub reply: Result<bool, ErrorView>,
}

/// A reply that says nothing on success.
pub open spec fn plain(r: Result<(), DaemonError>) -> Result<bool, ErrorView> {
    match r {
        Ok(_) => Ok(true),
        Err(e) => Err(e@),
    }
}

/// What sends signals and keeps the ledger. Each call appends itself, with its reply, to the
/// trace.
pub trait SignalBackend: Sized {
    /// The calls made so far.
    spec fn trace(&self) -> Seq<SignalEffect>;

    /// The calls, with replies, that this device can give.
    spec fn gives(&self) -> spec_fn(SignalEffect) -> bool;

    /// Whether a call can be made.
    spec fn may(&self, call: SignalCall) -> bool;

    fn send(&mut self, pid: i32, action: SignalAction) -> (r: Result<(), DaemonError>)
        requires
            old(self).may(SignalCall::Send(pid, action)),
        ensures
            final(self).gives() == old(self).gives(),
            forall|c: SignalCall| #[trigger] final(self).may(c) == old(self).may(c),
            final(self).trace() == old(self).trace().push(
                SignalEffect { call: SignalCall::Send(pid, action), reply: plain(r) },
            ),
            (old(self).gives())(
                SignalEffect { call: SignalCall::Send(pid, action), reply: plain(r) },
            ),
    ;

    fn record(&mut self, pid: i32) -> (r: Result<(), DaemonError>)
        requires
            old(self).may(SignalCall::Record(pid)),
        ensures
            final(self).gives() == old(self).gives(),
            forall|c: SignalCall| #[trigger] final(self).may(c) == old(self).may(c),
            final(self).trace() == old(self).trace().push(
                SignalEffect { call: SignalCall::Record(pid), reply: plain(r) },
            ),
            (old(self).gives())(SignalEffect { call: SignalCall::Record(pid), reply: plain(r) }),
    ;

    fn take(&mut self, pid: i32) -> (r: Result<bool, DaemonError>)
        requires
            old(self).may(SignalCall::Take(pid)),
        ensures
            final(self).gives() == old(self).gives(),
            forall|c: SignalCall| #[trigger] final(self).may(c) == old(self).may(c),
            final(self).trace() == old(self).trace().push(
                SignalEffect { call: SignalCall::Take(pid), reply: ended(r) },
            ),
            (old(self).gives())(SignalEffect { call: SignalCall::Take(pid), reply: ended(r) }),
    ;
}

/// From `before` to `after` exactly these calls were made, each with a reply that the device can
/// give.
pub open spec fn signalled<B: SignalBackend>(before: B, after: B, calls: Seq<SignalCall>) -> bool {
    let n = before.trace().len() as int;
    &&& after.gives() == before.gives()
    &&& after.trace().len() == n + calls.len()
    &&& forall|k: int| 0 <= k < n ==> #[trigger] after.trace()[k] == before.trace()[k]
    &&& forall|k: int|
        n <= k < n + calls.len() ==> (#[trigger] after.trace()[k]).call == calls[k - n]
            && (before.gives())(after.trace()[k])
}

/// A reply without what it says on success.
pub open spec fn unit(r: Result<bool, ErrorView>) -> Result<(), ErrorView> {
    match r {
        Ok(_) => Ok(()),
        Err(e) => Err(e),
    }
}

/// A process was stopped: the signal; the ledger, where it was sent; and the process goes on
/// again where the ledger failed, and only there.
pub open spec fn stop_went<B: SignalBackend>(
    pid: i32,
    before: B,
    after: B,
    result: Result<(), ErrorView>,
) -> bool {
    let n = before.trace().len() as int;
    let signal = after.trace()[n].reply;
    let ledger = after.trace()[n + 1].reply;
    let send = SignalCall::Send(pid, SignalAction::Stop);
    if signal is Err {
        &&& signalled(before, after, seq![send])
        &&& result == unit(signal)
    } else if ledger is Ok {
        &&& signalled(before, after, seq![send, SignalCall::Record(pid)])
        &&& result is Ok
    } else {
        &&& signalled(
            before,
            after,
            seq![
                send,
                SignalCall::Record(pid),
                SignalCall::Send(pid, SignalAction::Continue),
            ],
        )
        &&& result == stop_result(
            unit(signal),
            unit(ledger),
            unit(after.trace()[n + 2].reply),
        )
    }
}

/// A process was let go on: the ledger; the signal, where the ledger could be read; and a stop of
/// ours is recorded again where the signal failed, and only there.
pub open spec fn continue_went<B: SignalBackend>(
    pid: i32,
    before: B,
    after: B,
    result: Result<(), ErrorView>,
) -> bool {
    let n = before.trace().len() as int;
    let taken = after.trace()[n].reply;
    let signal = after.trace()[n + 1].reply;
    let send = SignalCall::Send(pid, SignalAction::Continue);
    if taken is Err {
        &&& signalled(before, after, seq![SignalCall::Take(pid)])
        &&& result == unit(taken)
    } else if signal is Ok || taken == Ok::<bool, ErrorView>(false) {
        &&& signalled(before, after, seq![SignalCall::Take(pid), send])
        &&& result == unit(signal)
    } else {
        &&& signalled(
            before,
            after,
            seq![SignalCall::Take(pid), send, SignalCall::Record(pid)],
        )
        &&& result == continue_result(
            taken,
            unit(signal),
            unit(after.trace()[n + 2].reply),
        )
    }
}

/// A call can fail.
pub open spec fn can_fail<B: SignalBackend>(backend: B, call: SignalCall) -> bool {
    exists|e: SignalEffect| #[trigger] (backend.gives())(e) && e.call == call && e.reply is Err
}

/// Stops a process, or lets it go on, and keeps the ledger of stops in step.
pub fn signal_on<B: SignalBackend>(pid: i32, action: SignalAction, backend: &mut B) -> (r: Result<
    (),
    DaemonError,
>)
    requires
        pid > 0 ==> match action {
            SignalAction::Stop => {
                &&& old(backend).may(SignalCall::Send(pid, SignalAction::Stop))
                &&& old(backend).may(SignalCall::Record(pid))
                &&& can_fail(*old(backend), SignalCall::Record(pid)) ==> old(backend).may(
                    SignalCall::Send(pid, SignalAction::Continue),
                )
            },
            SignalAction::Continue => {
                &&& old(backend).may(SignalCall::Take(pid))
                &&& old(backend).may(SignalCall::Send(pid, SignalAction::Continue))
                &&& can_fail(
                    *old(backend),
                    SignalCall::Send(pid, SignalAction::Continue),
                ) ==> old(backend).may(SignalCall::Record(pid))
            },
        },
    ensures
        if pid <= 0 {
            &&& r matches Err(e) && e@ == ErrorView::System("refusing to signal non-positive pid"@)
            &&& signalled(*old(backend), *final(backend), seq![])
        } else if action == SignalAction::Stop {
            stop_went(pid, *old(backend), *final(backend), ended(r))
        } else {
            continue_went(pid, *old(backend), *final(backend), ended(r))
        },
{
    let ghost before = *backend;
    if pid <= 0 {
        return Err(DaemonError::system("refusing to signal non-positive pid"));
    }
    match action {
        SignalAction::Stop => {
            match backend.send(pid, SignalAction::Stop) {
                Err(e) => {
                    return Err(e);
                },
                Ok(()) => {},
            }
            match backend.record(pid) {
                Ok(()) => Ok(()),
                Err(ledger_error) => {
                    proof {
                        let e = SignalEffect {
                            call: SignalCall::Record(pid),
                            reply: Err(ledger_error@),
                        };
                        assert((before.gives())(e));
                    }
                    let rollback = backend.send(pid, SignalAction::Continue);
                    let mut message = text("SIGSTOP succeeded but ownership ledger failed: ");
                    message.append(ledger_error.message());
                    let ghost head = message@;
                    match rollback {
                        Err(e) => {
                            message.append("; SIGCONT rollback failed: ");
                            message.append(e.message());
                            assert(message@ =~= head + ("; SIGCONT rollback failed: "@
                                + error_text(e@)));
                        },
                        Ok(()) => {
                            message.append("; SIGCONT rollback succeeded");
                        },
                    }
                    Err(DaemonError::system(message.as_str()))
                },
            }
        },
        SignalAction::Continue => {
            let was_owned = match backend.take(pid) {
                Ok(owned) => owned,
                Err(e) => {
                    return Err(e);
                },
            };
            match backend.send(pid, SignalAction::Continue) {
                Ok(()) => Ok(()),
                Err(signal_error) => {
                    if !was_owned {
                        return Err(signal_error);
                    }
                    proof {
                        let e = SignalEffect {
                            call: SignalCall::Send(pid, SignalAction::Continue),
                            reply: Err(signal_error@),
                        };
                        assert((before.gives())(e));
                    }
                    match backend.record(pid) {
                        Ok(()) => Err(signal_error),
                        Err(restore_error) => {
                            let mut message = text("SIGCONT failed: ");
                            message.append(signal_error.message());
                            message.append("; failed to restore ownership ledger: ");
                            message.append(restore_error.message());
                            Err(DaemonError::system(message.as_str()))
                        },
                    }
                },
            }
        },
    }
}

/// A device made of one function for each call.
pub struct SignalPort<K, R, T> where
    K: FnMut(i32, SignalAction) -> Result<(), DaemonError>,
    R: FnMut(i32) -> Result<(), DaemonError>,
    T: FnMut(i32) -> Result<bool, DaemonError>,
 {
    send_raw_signal: K,
    record_stop: R,
    take_stop: T,
    trace: Ghost<Seq<SignalEffect>>,
}

/// A call with a reply that one of these functions can return.
pub open spec fn signal_port_gives<K, R, T>(send: K, record: R, take: T, e: SignalEffect) -> bool where
    K: FnMut(i32, SignalAction) -> Result<(), DaemonError>,
    R: FnMut(i32) -> Result<(), DaemonError>,
    T: FnMut(i32) -> Result<bool, DaemonError>,
 {
    match e.call {
        SignalCall::Send(pid, action) => signal_gives(send, pid, action, unit(e.reply)),
        SignalCall::Record(pid) => record_gives(record, pid, unit(e.reply)),
        SignalCall::Take(pid) => take_gives(take, pid, e.reply),
    }
}

/// One of these functions can be called so.
pub open spec fn signal_port_may<K, R, T>(send: K, record: R, take: T, c: SignalCall) -> bool where
    K: FnMut(i32, SignalAction) -> Result<(), DaemonError>,
    R: FnMut(i32) -> Result<(), DaemonError>,
    T: FnMut(i32) -> Result<bool, DaemonError>,
 {
    match c {
        SignalCall::Send(pid, action) => call_requires(send, (pid, action)),
        SignalCall::Record(pid) => call_requires(record, (pid,)),
        SignalCall::Take(pid) => call_requires(take, (pid,)),
    }
}

impl<K, R, T> SignalPort<K, R, T> where
    K: FnMut(i32, SignalAction) -> Result<(), DaemonError>,
    R: FnMut(i32) -> Result<(), DaemonError>,
    T: FnMut(i32) -> Result<bool, DaemonError>,
 {
    /// A device that makes each call with the function given for it.
    pub fn new(send_raw_signal: K, record_stop: R, take_stop: T) -> (r: Self)
        ensures
            r.trace() == Seq::<SignalEffect>::empty(),
            r.gives() == (|e: SignalEffect|
                signal_port_gives(send_raw_signal, record_stop, take_stop, e)),
            forall|c: SignalCall| #[trigger]
                r.may(c) == signal_port_may(send_raw_signal, record_stop, take_stop, c),
    {
        SignalPort { send_raw_signal, record_stop, take_stop, trace: Ghost(Seq::empty()) }
    }
}

impl<K, R, T> SignalBackend for SignalPort<K, R, T> where
    K: FnMut(i32, SignalAction) -> Result<(), DaemonError>,
    R: FnMut(i32) -> Result<(), DaemonError>,
    T: FnMut(i32) -> Result<bool, DaemonError>,
 {
    closed spec fn trace(&self) -> Seq<SignalEffect> {
        self.trace@
    }

    closed spec fn gives(&self) -> spec_fn(SignalEffect) -> bool {
        |e: SignalEffect|
            signal_port_gives(self.send_raw_signal, self.record_stop, self.take_stop, e)
    }

    closed spec fn may(&self, call: SignalCall) -> bool {
        signal_port_may(self.send_raw_signal, self.record_stop, self.take_stop, call)
    }

    fn send(&mut self, pid: i32, action: SignalAction) -> (r: Result<(), DaemonError>) {
        let r = (self.send_raw_signal)(pid, action);
        self.trace =
        Ghost(
            self.trace@.push(
                SignalEffect { call: SignalCall::Send(pid, action), reply: plain(r) },
            ),
        );
        assert(unit(plain(r)) == ended(r));
        r
    }

    fn record(&mut self, pid: i32) -> (r: Result<(), DaemonError>) {
        let r = (self.record_stop)(pid);
        self.trace =
        Ghost(self.trace@.push(SignalEffect { call: SignalCall::Record(pid), reply: plain(r) }));
        assert(unit(plain(r)) == ended(r));
        r
    }

    fn take(&mut self, pid: i32) -> (r: Result<bool, DaemonError>) {
        let r = (self.take_stop)(pid);
        self.trace =
        Ghost(self.trace@.push(SignalEffect { call: SignalCall::Take(pid), reply: ended(r) }));
        r
    }
}

/// The calls that a stop needs were made.
pub open spec fn stopped<K, R>(
    send: K,
    record: R,
    pid: i32,
    signal: Result<(), ErrorView>,
    ledger: Result<(), ErrorView>,
    rollback: Result<(), ErrorView>,
) -> bool where
    K: FnMut(i32, SignalAction) -> Result<(), DaemonError>,
    R: FnMut(i32) -> Result<(), DaemonError>,
 {
    &&& signal_gives(send, pid, SignalAction::Stop, signal)
    &&& signal is Ok ==> record_gives(record, pid, ledger)
    &&& signal is Ok && ledger is Err ==> signal_gives(
        send,
        pid,
        SignalAction::Continue,
        rollback,
    )
}

/// The calls that letting a process go on needs were made.
pub open spec fn continued<K, R, T>(
    send: K,
    record: R,
    take: T,
    pid: i32,
    taken: Result<bool, ErrorView>,
    signal: Result<(), ErrorView>,
    restored: Result<(), ErrorView>,
) -> bool where
    K: FnMut(i32, SignalAction) -> Result<(), DaemonError>,
    R: FnMut(i32) -> Result<(), DaemonError>,
    T: FnMut(i32) -> Result<bool, DaemonError>,
 {
    &&& take_gives(take, pid, taken)
    &&& taken is Ok ==> signal_gives(send, pid, SignalAction::Continue, signal)
    &&& taken == Ok::<bool, ErrorView>(true) && signal is Err ==> record_gives(
        record,
        pid,
        restored,
    )
}

/// Stops a process, or lets it go on, and keeps the ledger of stops in step. The calls are those
/// of [`signal_on`], in its order.
pub fn send_signal<K, R, T>(
    pid: i32,
    action: SignalAction,
    send_raw_signal: K,
    record_stop: R,
    take_stop: T,
) -> (r: Result<(), DaemonError>) where
    K: FnMut(i32, SignalAction) -> Result<(), DaemonError>,
    R: FnMut(i32) -> Result<(), DaemonError>,
    T: FnMut(i32) -> Result<bool, DaemonError>,

    requires
        pid > 0 ==> match action {
            SignalAction::Stop => {
                &&& call_requires(send_raw_signal, (pid, SignalAction::Stop))
                &&& call_requires(record_stop, (pid,))
                &&& (exists|b: Result<(), ErrorView>|
                    b is Err && #[trigger] record_gives(record_stop, pid, b)) ==> call_requires(
                    send_raw_signal,
                    (pid, SignalAction::Continue),
                )
            },
            SignalAction::Continue => {
                &&& call_requires(take_stop, (pid,))
                &&& call_requires(send_raw_signal, (pid, SignalAction::Continue))
                &&& (exists|b: Result<(), ErrorView>|
                    b is Err && #[trigger] signal_gives(
                        send_raw_signal,
                        pid,
                        SignalAction::Continue,
                        b,
                    )) ==> call_requires(record_stop, (pid,))
            },
        },
    ensures
        if pid <= 0 {
            r matches Err(e) && e@ == ErrorView::System("refusing to signal non-positive pid"@)
        } else if action == SignalAction::Stop {
            exists|
                a: Result<(), ErrorView>,
                b: Result<(), ErrorView>,
                c: Result<(), ErrorView>,
            | #[trigger]
                stopped(send_raw_signal, record_stop, pid, a, b, c) && ended(r) == stop_result(
                    a,
                    b,
                    c,
                )
        } else {
            exists|
                a: Result<bool, ErrorView>,
                b: Result<(), ErrorView>,
                c: Result<(), ErrorView>,
            | #[trigger]
                continued(send_raw_signal, record_stop, take_stop, pid, a, b, c) && ended(r)
                    == continue_result(a, b, c)
        },
{
    let ghost (send, record, take) = (send_raw_signal, record_stop, take_stop);
    let mut port = SignalPort::new(send_raw_signal, record_stop, take_stop);
    proof {
        let cont = SignalCall::Send(pid, SignalAction::Continue);
        if can_fail(port, SignalCall::Record(pid)) {
            let e = choose|e: SignalEffect| #[trigger]
                (port.gives())(e) && e.call == SignalCall::Record(pid) && e.reply is Err;
            assert(record_gives(record, pid, unit(e.reply)));
        }
        if can_fail(port, cont) {
            let e = choose|e: SignalEffect| #[trigger]
                (port.gives())(e) && e.call == cont && e.reply is Err;
            assert(signal_gives(send, pid, SignalAction::Continue, unit(e.reply)));
        }
    }
    let r = signal_on(pid, action, &mut port);
    proof {
        let t = port.trace();
        let nothing: Result<(), ErrorView> = Ok(());
        if pid > 0 && action == SignalAction::Stop {
            assert(signal_port_gives(send, record, take, t[0]));
            if t[0].reply is Err {
                assert(stopped(send, record, pid, unit(t[0].reply), nothing, nothing));
            } else {
                assert(signal_port_gives(send, record, take, t[1]));
                if t[1].reply is Err {
                    assert(signal_port_gives(send, record, take, t[2]));
                }
                assert(stopped(
                    send,
                    record,
                    pid,
                    unit(t[0].reply),
                    unit(t[1].reply),
                    unit(t[2].reply),
                ));
            }
        } else if pid > 0 {
            assert(signal_port_gives(send, record, take, t[0]));
            if t[0].reply is Err {
                assert(continued(send, record, take, pid, t[0].reply, nothing, nothing));
            } else {
                assert(signal_port_gives(send, record, take, t[1]));
                if t[1].reply is Err && t[0].reply == Ok::<bool, ErrorView>(true) {
                    assert(signal_port_gives(send, record, take, t[2]));
                }
                assert(continued(
                    send,
                    record,
                    take,
                    pid,
                    t[0].reply,
                    unit(t[1].reply),
                    unit(t[2].reply),
                ));
            }
        }
    }
    r
}

/// The process that may be ended: only one with a positive pid, which is no group.
pub fn termination_target(pid: i32) -> (r: Result<i32, DaemonError>)
    ensures
        pid <= 0 <==> r is Err,
        r matches Ok(p) ==> p == pid,
        r matches Err(e) ==> e@ == ErrorView::System("refusing to SIGKILL non-positive pid"@),
{
    if pid <= 0 {
        Err(DaemonError::system("refusing to SIGKILL non-positive pid"))
    } else {
        Ok(pid)
    }
}

/// A stop succeeds only when the signal was sent and recorded.
pub proof fn stops_are_recorded(
    signal: Result<(), ErrorView>,
    ledger: Result<(), ErrorView>,
    rollback: Result<(), ErrorView>,
)
    ensures
        stop_result(signal, ledger, rollback) is Ok <==> signal is Ok && ledger is Ok,
{
}

} // verus!
