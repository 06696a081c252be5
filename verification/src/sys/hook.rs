//! Calls of the hook. Every call is recorded, with its reply, in a ghost trace.

use vstd::prelude::*;

use crate::app::error::{outcome, DaemonError, ErrorView};
use crate::protocol::xposed::XposedCommand;

verus! {

/// A call of the hook.
#[verifier::ext_equal]
pub ghost enum HookCall {
    /// Sends the configuration.
    SetConfig(Seq<u8>),
    /// Asks for the health report.
    Health,
    /// Sends a request with its payload.
    Request(XposedCommand, Seq<u8>),
}

/// The reply to a call of the hook.
#[verifier::ext_equal]
pub ghost enum HookReply {
    SetConfig(Result<bool, ErrorView>),
    Health(Result<Seq<char>, ErrorView>),
    Request(Result<Seq<u8>, ErrorView>),
}

/// A call and its reply.
#[verifier::ext_equal]
pub ghost struct HookEffect {
    pub call: HookCall,
    pub reply: HookReply,
}

/// Two calls of one kind: they differ at most in what is sent.
pub open spec fn same_call_kind(a: HookCall, b: HookCall) -> bool {
    match (a, b) {
        (HookCall::SetConfig(_), HookCall::SetConfig(_)) => true,
        (HookCall::Health, HookCall::Health) => true,
        (HookCall::Request(_, _), HookCall::Request(_, _)) => true,
        _ => false,
    }
}

/// The health report of the hook as a value.
pub open spec fn health_view(r: Result<String, DaemonError>) -> Result<Seq<char>, ErrorView> {
    match r {
        Ok(s) => Ok(s@),
        Err(e) => Err(e@),
    }
}

/// A reply of the hook as a value.
pub open spec fn hook_reply(r: Result<Vec<u8>, DaemonError>) -> Result<Seq<u8>, ErrorView> {
    match r {
        Ok(b) => Ok(b@),
        Err(e) => Err(e@),
    }
}

/// What calls the hook. Each call appends itself, with its reply, to the trace.
pub trait HookBackend: Sized {
    /// The calls made so far.
    spec fn trace(&self) -> Seq<HookEffect>;

    /// The calls, with replies, that this hook can give.
    spec fn gives(&self) -> spec_fn(HookEffect) -> bool;

    /// Whether a call can be made.
    spec fn may(&self, call: HookCall) -> bool;

    fn set_config(&mut self, payload: &[u8]) -> (r: Result<bool, DaemonError>)
        requires
            old(self).may(HookCall::SetConfig(payload@)),
        ensures
            final(self).gives() == old(self).gives(),
            final(self).trace() == old(self).trace().push(
                HookEffect { call: HookCall::SetConfig(payload@), reply: HookReply::SetConfig(outcome(r)) },
            ),
            (old(self).gives())(HookEffect { call: HookCall::SetConfig(payload@), reply: HookReply::SetConfig(outcome(r)) }),
            forall|other: HookCall|
                !same_call_kind(other, HookCall::SetConfig(payload@)) ==> #[trigger] final(self).may(other) == old(self).may(
                    other,
                ),
    ;

    fn health(&mut self) -> (r: Result<String, DaemonError>)
        requires
            old(self).may(HookCall::Health),
        ensures
            final(self).gives() == old(self).gives(),
            final(self).trace() == old(self).trace().push(
                HookEffect { call: HookCall::Health, reply: HookReply::Health(health_view(r)) },
            ),
            (old(self).gives())(HookEffect { call: HookCall::Health, reply: HookReply::Health(health_view(r)) }),
            forall|other: HookCall|
                !same_call_kind(other, HookCall::Health) ==> #[trigger] final(self).may(other) == old(self).may(
                    other,
                ),
    ;

    fn request(&mut self, command: XposedCommand, payload: &[u8]) -> (r: Result<
        Vec<u8>,
        DaemonError,
    >)
        requires
            old(self).may(HookCall::Request(command, payload@)),
        ensures
            final(self).gives() == old(self).gives(),
            final(self).trace() == old(self).trace().push(
                HookEffect { call: HookCall::Request(command, payload@), reply: HookReply::Request(hook_reply(r)) },
            ),
            (old(self).gives())(HookEffect { call: HookCall::Request(command, payload@), reply: HookReply::Request(hook_reply(r)) }),
            forall|other: HookCall|
                !same_call_kind(other, HookCall::Request(command, payload@)) ==> #[trigger] final(self).may(other) == old(self).may(
                    other,
                ),
            forall|other: HookCall|
                other is Request ==> #[trigger] final(self).may(other) == old(self).may(other),
    ;
}

/// From `before` to `after` exactly these calls were made, each with a reply that the hook can
/// give.
pub open spec fn made<B: HookBackend>(before: B, after: B, calls: Seq<HookCall>) -> bool {
    let n = before.trace().len() as int;
    &&& after.gives() == before.gives()
    &&& after.trace().len() == n + calls.len()
    &&& forall|k: int| 0 <= k < n ==> #[trigger] after.trace()[k] == before.trace()[k]
    &&& forall|k: int|
        n <= k < n + calls.len() ==> (#[trigger] after.trace()[k]).call == calls[k - n]
            && (before.gives())(after.trace()[k])
}

// ---------------------------------------------------------------------------
// Hooks made of functions
// ---------------------------------------------------------------------------

/// The configuration can be sent with this reply.
pub open spec fn send_gives<F: FnOnce(&[u8]) -> Result<bool, DaemonError>>(
    send: F,
    payload: Seq<u8>,
    reply: Result<bool, ErrorView>,
) -> bool {
    exists|p: &[u8], r: Result<bool, DaemonError>| #[trigger]
        call_ensures(send, (p,), r) && p@ == payload && outcome(r) == reply
}

/// The configuration can be sent.
pub open spec fn takes_payload<F: FnOnce(&[u8]) -> Result<bool, DaemonError>>(
    send: F,
    payload: Seq<u8>,
) -> bool {
    forall|p: &[u8]| p@ == payload ==> #[trigger] call_requires(send, (p,))
}

/// The health can be asked with this reply.
pub open spec fn query_gives<Q: FnOnce() -> Result<String, DaemonError>>(
    query: Q,
    reply: Result<Seq<char>, ErrorView>,
) -> bool {
    exists|r: Result<String, DaemonError>| #[trigger]
        call_ensures(query, (), r) && health_view(r) == reply
}

/// The hook can give this reply.
pub open spec fn hook_gives<F: FnMut(XposedCommand, &[u8]) -> Result<Vec<u8>, DaemonError>>(
    request: F,
    command: XposedCommand,
    payload: Seq<u8>,
    reply: Result<Seq<u8>, ErrorView>,
) -> bool {
    exists|c: XposedCommand, p: &[u8], r: Result<Vec<u8>, DaemonError>| #[trigger]
        call_ensures(request, (c, p), r) && c == command && p@ == payload && hook_reply(r) == reply
}

/// A request can be sent.
pub open spec fn takes_request<F: FnMut(XposedCommand, &[u8]) -> Result<Vec<u8>, DaemonError>>(
    request: F,
    command: XposedCommand,
    payload: Seq<u8>,
) -> bool {
    forall|p: &[u8]| p@ == payload ==> #[trigger] call_requires(request, (command, p))
}

/// A hook that takes the configuration and tells its health, made of a function for each; each
/// is called at most once.
pub struct HealthPort<F, Q> where
    F: FnOnce(&[u8]) -> Result<bool, DaemonError>,
    Q: FnOnce() -> Result<String, DaemonError>,
 {
    set_app_config: Option<F>,
    query_hook_health: Option<Q>,
    made_of: Ghost<(F, Q)>,
    trace: Ghost<Seq<HookEffect>>,
}

/// A call with a reply that one of these functions can return.
pub open spec fn health_gives<F, Q>(send: F, query: Q, e: HookEffect) -> bool where
    F: FnOnce(&[u8]) -> Result<bool, DaemonError>,
    Q: FnOnce() -> Result<String, DaemonError>,
 {
    match (e.call, e.reply) {
        (HookCall::SetConfig(payload), HookReply::SetConfig(reply)) => send_gives(
            send,
            payload,
            reply,
        ),
        (HookCall::Health, HookReply::Health(reply)) => query_gives(query, reply),
        _ => false,
    }
}

impl<F, Q> HealthPort<F, Q> where
    F: FnOnce(&[u8]) -> Result<bool, DaemonError>,
    Q: FnOnce() -> Result<String, DaemonError>,
 {
    /// A hook that makes each call with the function given for it.
    pub fn new(set_app_config: F, query_hook_health: Q) -> (r: Self)
        ensures
            r.trace() == Seq::<HookEffect>::empty(),
            r.gives() == (|e: HookEffect| health_gives(set_app_config, query_hook_health, e)),
            forall|p: Seq<u8>| #[trigger]
                r.may(HookCall::SetConfig(p)) == takes_payload(set_app_config, p),
            r.may(HookCall::Health) == call_requires(query_hook_health, ()),
    {
        let made_of: Ghost<(F, Q)> = Ghost((set_app_config, query_hook_health));
        HealthPort {
            set_app_config: Some(set_app_config),
            query_hook_health: Some(query_hook_health),
            made_of,
            trace: Ghost(Seq::empty()),
        }
    }
}

impl<F, Q> HookBackend for HealthPort<F, Q> where
    F: FnOnce(&[u8]) -> Result<bool, DaemonError>,
    Q: FnOnce() -> Result<String, DaemonError>,
 {
    closed spec fn trace(&self) -> Seq<HookEffect> {
        self.trace@
    }

    closed spec fn gives(&self) -> spec_fn(HookEffect) -> bool {
        |e: HookEffect| health_gives(self.made_of@.0, self.made_of@.1, e)
    }

    closed spec fn may(&self, call: HookCall) -> bool {
        match call {
            HookCall::SetConfig(payload) => self.set_app_config == Some(self.made_of@.0)
                && takes_payload(self.made_of@.0, payload),
            HookCall::Health => self.query_hook_health == Some(self.made_of@.1) && call_requires(
                self.made_of@.1,
                (),
            ),
            HookCall::Request(_, _) => false,
        }
    }

    fn set_config(&mut self, payload: &[u8]) -> (r: Result<bool, DaemonError>) {
        let r = match self.set_app_config.take() {
            Some(send) => send(payload),
            None => Ok(false),
        };
        self.trace =
        Ghost(
            self.trace@.push(
                HookEffect {
                    call: HookCall::SetConfig(payload@),
                    reply: HookReply::SetConfig(outcome(r)),
                },
            ),
        );
        r
    }

    fn health(&mut self) -> (r: Result<String, DaemonError>) {
        let r = match self.query_hook_health.take() {
            Some(query) => query(),
            None => Ok(String::new()),
        };
        self.trace =
        Ghost(
            self.trace@.push(
                HookEffect { call: HookCall::Health, reply: HookReply::Health(health_view(r)) },
            ),
        );
        r
    }

    fn request(&mut self, command: XposedCommand, payload: &[u8]) -> (r: Result<
        Vec<u8>,
        DaemonError,
    >) {
        Ok(Vec::new())
    }
}

/// A hook that takes requests, made of one function.
pub struct RequestPort<F> where F: FnMut(XposedCommand, &[u8]) -> Result<Vec<u8>, DaemonError> {
    send: F,
    trace: Ghost<Seq<HookEffect>>,
}

/// A request with a reply that the function can return.
pub open spec fn request_gives<F: FnMut(XposedCommand, &[u8]) -> Result<Vec<u8>, DaemonError>>(
    send: F,
    e: HookEffect,
) -> bool {
    match (e.call, e.reply) {
        (HookCall::Request(command, payload), HookReply::Request(reply)) => hook_gives(
            send,
            command,
            payload,
            reply,
        ),
        _ => false,
    }
}

impl<F> RequestPort<F> where F: FnMut(XposedCommand, &[u8]) -> Result<Vec<u8>, DaemonError> {
    /// A hook that sends every request with a function.
    pub fn new(send: F) -> (r: Self)
        ensures
            r.trace() == Seq::<HookEffect>::empty(),
            r.gives() == (|e: HookEffect| request_gives(send, e)),
            forall|c: XposedCommand, p: Seq<u8>| #[trigger]
                r.may(HookCall::Request(c, p)) == takes_request(send, c, p),
    {
        RequestPort { send, trace: Ghost(Seq::empty()) }
    }
}

impl<F> HookBackend for RequestPort<F> where
    F: FnMut(XposedCommand, &[u8]) -> Result<Vec<u8>, DaemonError>,
 {
    closed spec fn trace(&self) -> Seq<HookEffect> {
        self.trace@
    }

    closed spec fn gives(&self) -> spec_fn(HookEffect) -> bool {
        |e: HookEffect| request_gives(self.send, e)
    }

    closed spec fn may(&self, call: HookCall) -> bool {
        match call {
            HookCall::Request(command, payload) => takes_request(self.send, command, payload),
            _ => false,
        }
    }

    fn set_config(&mut self, payload: &[u8]) -> (r: Result<bool, DaemonError>) {
        Ok(false)
    }

    fn health(&mut self) -> (r: Result<String, DaemonError>) {
        Ok(String::new())
    }

    fn request(&mut self, command: XposedCommand, payload: &[u8]) -> (r: Result<
        Vec<u8>,
        DaemonError,
    >) {
        let r = (self.send)(command, payload);
        self.trace =
        Ghost(
            self.trace@.push(
                HookEffect {
                    call: HookCall::Request(command, payload@),
                    reply: HookReply::Request(hook_reply(r)),
                },
            ),
        );
        r
    }
}

} // verus!
