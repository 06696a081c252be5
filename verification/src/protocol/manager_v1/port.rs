//! What the manager's commands ask of the device: files, the hook and live samples.
//!
//! Every call is recorded, with its reply, in a ghost trace. The contracts of the commands
//! speak of that trace: it says which calls are made, in which order, and how the answer and
//! the state follow from the replies.

use vstd::prelude::*;

use crate::app::error::{outcome, DaemonError, ErrorView};
use crate::protocol::manager_v1::chart::{RealtimeSample, SampleView};

verus! {

/// A call and its reply.
#[allow(inconsistent_fields)]
#[verifier::ext_equal]
pub ghost enum ManagerEffect {
    /// Sends the configuration to the hook, which may refuse it.
    Hook { payload: Seq<u8>, reply: Result<bool, ErrorView> },
    /// Reads a file.
    Read { path: Seq<char>, reply: Result<Seq<u8>, ErrorView> },
    /// Replaces the content of a file.
    Write { path: Seq<char>, bytes: Seq<u8>, reply: Result<(), ErrorView> },
    /// Removes a file.
    Remove { path: Seq<char>, reply: Result<(), ErrorView> },
    /// Samples the device.
    Sample { settings: Seq<u8>, reply: SampleView },
}

/// The reply to a read as a value.
pub open spec fn read_reply(r: Result<Vec<u8>, DaemonError>) -> Result<Seq<u8>, ErrorView> {
    match r {
        Ok(b) => Ok(b@),
        Err(e) => Err(e@),
    }
}

/// The calls of the manager's commands. Each one appends itself, with its reply, to the trace.
pub trait ManagerBackend: Sized {
    /// The calls made so far.
    spec fn trace(&self) -> Seq<ManagerEffect>;

    /// The calls, with replies, that this device can give.
    spec fn gives(&self) -> spec_fn(ManagerEffect) -> bool;

    /// Whether calls can be made.
    spec fn ready(&self) -> bool;

    fn hook(&mut self, payload: &[u8]) -> (r: Result<bool, DaemonError>)
        requires
            old(self).ready(),
        ensures
            final(self).ready(),
            final(self).gives() == old(self).gives(),
            final(self).trace() == old(self).trace().push(
                ManagerEffect::Hook { payload: payload@, reply: outcome(r) },
            ),
            (old(self).gives())(ManagerEffect::Hook { payload: payload@, reply: outcome(r) }),
    ;

    fn read(&mut self, path: &str) -> (r: Result<Vec<u8>, DaemonError>)
        requires
            old(self).ready(),
        ensures
            final(self).ready(),
            final(self).gives() == old(self).gives(),
            final(self).trace() == old(self).trace().push(
                ManagerEffect::Read { path: path@, reply: read_reply(r) },
            ),
            (old(self).gives())(ManagerEffect::Read { path: path@, reply: read_reply(r) }),
    ;

    fn write(&mut self, path: &str, bytes: &[u8]) -> (r: Result<(), DaemonError>)
        requires
            old(self).ready(),
        ensures
            final(self).ready(),
            final(self).gives() == old(self).gives(),
            final(self).trace() == old(self).trace().push(
                ManagerEffect::Write { path: path@, bytes: bytes@, reply: outcome(r) },
            ),
            (old(self).gives())(
                ManagerEffect::Write { path: path@, bytes: bytes@, reply: outcome(r) },
            ),
    ;

    fn remove(&mut self, path: &str) -> (r: Result<(), DaemonError>)
        requires
            old(self).ready(),
        ensures
            final(self).ready(),
            final(self).gives() == old(self).gives(),
            final(self).trace() == old(self).trace().push(
                ManagerEffect::Remove { path: path@, reply: outcome(r) },
            ),
            (old(self).gives())(ManagerEffect::Remove { path: path@, reply: outcome(r) }),
    ;

    fn sample(&mut self, settings: &[u8]) -> (r: RealtimeSample)
        requires
            old(self).ready(),
        ensures
            final(self).ready(),
            final(self).gives() == old(self).gives(),
            final(self).trace() == old(self).trace().push(
                ManagerEffect::Sample { settings: settings@, reply: r@ },
            ),
            (old(self).gives())(ManagerEffect::Sample { settings: settings@, reply: r@ }),
    ;
}

/// The trace `full` begins with the trace `base`.
pub open spec fn follows(full: Seq<ManagerEffect>, base: Seq<ManagerEffect>) -> bool {
    base.len() <= full.len() && forall|i: int| 0 <= i < base.len() ==> #[trigger] full[i] == base[i]
}

/// From `before` to `after` only calls were made that the device can give.
pub open spec fn went_on<B: ManagerBackend>(before: B, after: B) -> bool {
    &&& after.ready()
    &&& after.gives() == before.gives()
    &&& follows(after.trace(), before.trace())
    &&& forall|i: int|
        before.trace().len() <= i < after.trace().len() ==> (before.gives())(
            #[trigger] after.trace()[i],
        )
}

/// The reply to the hook call at a position.
pub open spec fn hook_at(full: Seq<ManagerEffect>, at: int, sent: Seq<u8>) -> Option<
    Result<bool, ErrorView>,
> {
    if 0 <= at < full.len() {
        match full[at] {
            ManagerEffect::Hook { payload, reply } => if payload == sent {
                Some(reply)
            } else {
                None
            },
            _ => None,
        }
    } else {
        None
    }
}

/// The reply to the read at a position.
pub open spec fn read_at(full: Seq<ManagerEffect>, at: int, file: Seq<char>) -> Option<
    Result<Seq<u8>, ErrorView>,
> {
    if 0 <= at < full.len() {
        match full[at] {
            ManagerEffect::Read { path, reply } => if path == file {
                Some(reply)
            } else {
                None
            },
            _ => None,
        }
    } else {
        None
    }
}

/// The reply to the write at a position.
pub open spec fn write_at(
    full: Seq<ManagerEffect>,
    at: int,
    file: Seq<char>,
    content: Seq<u8>,
) -> Option<Result<(), ErrorView>> {
    if 0 <= at < full.len() {
        match full[at] {
            ManagerEffect::Write { path, bytes, reply } => if path == file && bytes == content {
                Some(reply)
            } else {
                None
            },
            _ => None,
        }
    } else {
        None
    }
}

/// The reply to the removal at a position.
pub open spec fn remove_at(full: Seq<ManagerEffect>, at: int, file: Seq<char>) -> Option<
    Result<(), ErrorView>,
> {
    if 0 <= at < full.len() {
        match full[at] {
            ManagerEffect::Remove { path, reply } => if path == file {
                Some(reply)
            } else {
                None
            },
            _ => None,
        }
    } else {
        None
    }
}

/// The sample at a position.
pub open spec fn sample_at(full: Seq<ManagerEffect>, at: int, with: Seq<u8>) -> Option<
    SampleView,
> {
    if 0 <= at < full.len() {
        match full[at] {
            ManagerEffect::Sample { settings, reply } => if settings == with {
                Some(reply)
            } else {
                None
            },
            _ => None,
        }
    } else {
        None
    }
}

/// A device made of one function for each call.
pub struct ManagerPort<H, R, W, X, S> where
    H: FnMut(&[u8]) -> Result<bool, DaemonError>,
    R: FnMut(&str) -> Result<Vec<u8>, DaemonError>,
    W: FnMut(&str, &[u8]) -> Result<(), DaemonError>,
    X: FnMut(&str) -> Result<(), DaemonError>,
    S: FnMut(&[u8]) -> RealtimeSample,
 {
    set_app_config: H,
    read_file: R,
    write_file: W,
    remove_file: X,
    collect_sample: S,
    trace: Ghost<Seq<ManagerEffect>>,
}

/// A call with a reply that one of these functions can return.
pub open spec fn manager_gives<H, R, W, X, S>(
    hook: H,
    read: R,
    write: W,
    remove: X,
    sample: S,
    e: ManagerEffect,
) -> bool where
    H: FnMut(&[u8]) -> Result<bool, DaemonError>,
    R: FnMut(&str) -> Result<Vec<u8>, DaemonError>,
    W: FnMut(&str, &[u8]) -> Result<(), DaemonError>,
    X: FnMut(&str) -> Result<(), DaemonError>,
    S: FnMut(&[u8]) -> RealtimeSample,
 {
    match e {
        ManagerEffect::Hook { payload, reply } => exists|b: &[u8], r: Result<bool, DaemonError>|
            #[trigger] call_ensures(hook, (b,), r) && b@ == payload && outcome(r) == reply,
        ManagerEffect::Read { path, reply } => exists|p: &str, r: Result<Vec<u8>, DaemonError>|
            #[trigger] call_ensures(read, (p,), r) && p@ == path && read_reply(r) == reply,
        ManagerEffect::Write { path, bytes, reply } => exists|
            p: &str,
            b: &[u8],
            r: Result<(), DaemonError>,
        | #[trigger]
            call_ensures(write, (p, b), r) && p@ == path && b@ == bytes && outcome(r) == reply,
        ManagerEffect::Remove { path, reply } => exists|p: &str, r: Result<(), DaemonError>|
            #[trigger] call_ensures(remove, (p,), r) && p@ == path && outcome(r) == reply,
        ManagerEffect::Sample { settings, reply } => exists|b: &[u8], r: RealtimeSample|
            #[trigger] call_ensures(sample, (b,), r) && b@ == settings && r@ == reply,
    }
}

impl<H, R, W, X, S> ManagerPort<H, R, W, X, S> where
    H: FnMut(&[u8]) -> Result<bool, DaemonError>,
    R: FnMut(&str) -> Result<Vec<u8>, DaemonError>,
    W: FnMut(&str, &[u8]) -> Result<(), DaemonError>,
    X: FnMut(&str) -> Result<(), DaemonError>,
    S: FnMut(&[u8]) -> RealtimeSample,
 {
    /// A device that makes each call with the function given for it.
    pub fn new(
        set_app_config: H,
        read_file: R,
        write_file: W,
        remove_file: X,
        collect_sample: S,
    ) -> (r: Self)
        requires
            forall|b: &[u8]| call_requires(set_app_config, (b,)),
            forall|p: &str| call_requires(read_file, (p,)),
            forall|p: &str, b: &[u8]| call_requires(write_file, (p, b)),
            forall|p: &str| call_requires(remove_file, (p,)),
            forall|b: &[u8]| call_requires(collect_sample, (b,)),
        ensures
            r.ready(),
            r.trace() == Seq::<ManagerEffect>::empty(),
            r.gives() == (|e: ManagerEffect|
                manager_gives(
                    set_app_config,
                    read_file,
                    write_file,
                    remove_file,
                    collect_sample,
                    e,
                )),
    {
        ManagerPort {
            set_app_config,
            read_file,
            write_file,
            remove_file,
            collect_sample,
            trace: Ghost(Seq::empty()),
        }
    }
}

impl<H, R, W, X, S> ManagerBackend for ManagerPort<H, R, W, X, S> where
    H: FnMut(&[u8]) -> Result<bool, DaemonError>,
    R: FnMut(&str) -> Result<Vec<u8>, DaemonError>,
    W: FnMut(&str, &[u8]) -> Result<(), DaemonError>,
    X: FnMut(&str) -> Result<(), DaemonError>,
    S: FnMut(&[u8]) -> RealtimeSample,
 {
    closed spec fn trace(&self) -> Seq<ManagerEffect> {
        self.trace@
    }

    closed spec fn gives(&self) -> spec_fn(ManagerEffect) -> bool {
        |e: ManagerEffect|
            manager_gives(
                self.set_app_config,
                self.read_file,
                self.write_file,
                self.remove_file,
                self.collect_sample,
                e,
            )
    }

    closed spec fn ready(&self) -> bool {
        &&& forall|b: &[u8]| call_requires(self.set_app_config, (b,))
        &&& forall|p: &str| call_requires(self.read_file, (p,))
        &&& forall|p: &str, b: &[u8]| call_requires(self.write_file, (p, b))
        &&& forall|p: &str| call_requires(self.remove_file, (p,))
        &&& forall|b: &[u8]| call_requires(self.collect_sample, (b,))
    }

    fn hook(&mut self, payload: &[u8]) -> (r: Result<bool, DaemonError>) {
        let r = (self.set_app_config)(payload);
        self.trace =
        Ghost(self.trace@.push(ManagerEffect::Hook { payload: payload@, reply: outcome(r) }));
        r
    }

    fn read(&mut self, path: &str) -> (r: Result<Vec<u8>, DaemonError>) {
        let r = (self.read_file)(path);
        self.trace =
        Ghost(self.trace@.push(ManagerEffect::Read { path: path@, reply: read_reply(r) }));
        r
    }

    fn write(&mut self, path: &str, bytes: &[u8]) -> (r: Result<(), DaemonError>) {
        let r = (self.write_file)(path, bytes);
        self.trace =
        Ghost(
            self.trace@.push(
                ManagerEffect::Write { path: path@, bytes: bytes@, reply: outcome(r) },
            ),
        );
        r
    }

    fn remove(&mut self, path: &str) -> (r: Result<(), DaemonError>) {
        let r = (self.remove_file)(path);
        self.trace =
        Ghost(self.trace@.push(ManagerEffect::Remove { path: path@, reply: outcome(r) }));
        r
    }

    fn sample(&mut self, settings: &[u8]) -> (r: RealtimeSample) {
        let r = (self.collect_sample)(settings);
        self.trace =
        Ghost(self.trace@.push(ManagerEffect::Sample { settings: settings@, reply: r@ }));
        r
    }
}

} // verus!
