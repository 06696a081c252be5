//! The steps that freeze and thaw a process: its binder, its cgroup, and signals.
//!
//! Every step is recorded, with its reply, in a ghost trace. The contracts of freezing and
//! thawing speak of that trace: it says which steps are taken, in which order, and how the
//! result follows from the replies.

use vstd::prelude::*;
use vstd::string::*;

use crate::app::error::{error_text, DaemonError, ErrorView};
use crate::text::{copy, join, join_strings, text, texts};

verus! {

/// A step of freezing or thawing a process.
#[derive(Debug, Clone, Copy)]
pub enum FreezerStep<'a> {
    FreezeBinder,
    UnfreezeBinder,
    FreezeCgroup(&'a str),
    ThawCgroup(&'a str),
    Stop,
    Resume,
}

/// A step as a value.
#[verifier::ext_equal]
pub ghost enum StepView {
    FreezeBinder,
    UnfreezeBinder,
    FreezeCgroup(Seq<char>),
    ThawCgroup(Seq<char>),
    Stop,
    Resume,
}

impl<'a> View for FreezerStep<'a> {
    type V = StepView;

    open spec fn view(&self) -> StepView {
        match self {
            FreezerStep::FreezeBinder => StepView::FreezeBinder,
            FreezerStep::UnfreezeBinder => StepView::UnfreezeBinder,
            FreezerStep::FreezeCgroup(path) => StepView::FreezeCgroup(path@),
            FreezerStep::ThawCgroup(path) => StepView::ThawCgroup(path@),
            FreezerStep::Stop => StepView::Stop,
            FreezerStep::Resume => StepView::Resume,
        }
    }
}

/// Two steps of one kind: they differ at most in the path.
pub open spec fn same_kind(a: StepView, b: StepView) -> bool {
    match (a, b) {
        (StepView::FreezeCgroup(_), StepView::FreezeCgroup(_)) => true,
        (StepView::ThawCgroup(_), StepView::ThawCgroup(_)) => true,
        _ => a == b,
    }
}

/// A step and its reply.
#[verifier::ext_equal]
pub ghost struct FreezerEffect {
    pub step: StepView,
    pub reply: Result<(), ErrorView>,
}

/// A result with its error as a value.
pub open spec fn done(r: Result<(), DaemonError>) -> Result<(), ErrorView> {
    match r {
        Ok(_) => Ok(()),
        Err(e) => Err(e@),
    }
}

/// What takes the steps. Each one appends itself, with its reply, to the trace.
pub trait FreezerBackend: Sized {
    /// The steps taken so far.
    spec fn trace(&self) -> Seq<FreezerEffect>;

    /// The steps, with replies, that this device can give.
    spec fn gives(&self) -> spec_fn(FreezerEffect) -> bool;

    /// Whether a step can be taken.
    spec fn may(&self, step: StepView) -> bool;

    fn perform(&mut self, step: FreezerStep<'_>) -> (r: Result<(), DaemonError>)
        requires
            old(self).may(step@),
        ensures
            final(self).gives() == old(self).gives(),
            final(self).trace() == old(self).trace().push(
                FreezerEffect { step: step@, reply: done(r) },
            ),
            (old(self).gives())(FreezerEffect { step: step@, reply: done(r) }),
            forall|other: StepView|
                !same_kind(other, step@) ==> #[trigger] final(self).may(other) == old(self).may(
                    other,
                ),
    ;
}

/// From `before` to `after` exactly these steps were taken, each with a reply that the device can
/// give.
pub open spec fn took<B: FreezerBackend>(before: B, after: B, steps: Seq<StepView>) -> bool {
    let n = before.trace().len() as int;
    &&& after.gives() == before.gives()
    &&& after.trace().len() == n + steps.len()
    &&& forall|k: int| 0 <= k < n ==> #[trigger] after.trace()[k] == before.trace()[k]
    &&& forall|k: int|
        n <= k < n + steps.len() ==> (#[trigger] after.trace()[k]).step == steps[k - n]
            && (before.gives())(after.trace()[k])
}

/// The reply to the `k`-th step after `before`.
pub open spec fn reply_of<B: FreezerBackend>(before: B, after: B, k: int) -> Result<(), ErrorView> {
    after.trace()[before.trace().len() + k].reply
}

// ---------------------------------------------------------------------------
// Thawing
// ---------------------------------------------------------------------------

/// The failures of a thaw, in order.
pub open spec fn thaw_failures(
    in_cgroup: bool,
    cgroup: Result<(), ErrorView>,
    binder: Result<(), ErrorView>,
    signal: Result<(), ErrorView>,
) -> Seq<Seq<char>> {
    let none: Seq<Seq<char>> = seq![];
    let a = match cgroup {
        Err(e) if in_cgroup => none.push("cgroup thaw failed: "@ + error_text(e)),
        _ => none,
    };
    let b = match binder {
        Err(e) if in_cgroup => a.push("binder unfreeze failed: "@ + error_text(e)),
        _ => a,
    };
    match signal {
        Err(e) => b.push("SIGCONT failed: "@ + error_text(e)),
        Ok(_) => b,
    }
}

/// The result of a thaw.
pub open spec fn thaw_result(failures: Seq<Seq<char>>) -> Result<(), ErrorView> {
    if failures.len() == 0 {
        Ok(())
    } else {
        Err(ErrorView::System(join(failures, "; "@)))
    }
}

/// A thaw counts as done only when each of its steps was: a signal that got through does not
/// make up for a cgroup or a binder that did not thaw.
pub proof fn partial_thaws_are_failures(
    cgroup: bool,
    a: Result<(), ErrorView>,
    b: Result<(), ErrorView>,
    c: Result<(), ErrorView>,
)
    ensures
        thaw_result(thaw_failures(cgroup, a, b, c)) is Ok <==> c is Ok && (cgroup ==> a is Ok
            && b is Ok),
{
}

/// A process was thawed: with a cgroup the cgroup, the binder and the signal, in this order and
/// whatever came of the earlier ones; without one the signal alone.
pub open spec fn thaw_went<B: FreezerBackend>(
    path: Option<Seq<char>>,
    before: B,
    after: B,
    result: Result<(), ErrorView>,
) -> bool {
    match path {
        Some(p) => {
            &&& took(
                before,
                after,
                seq![StepView::ThawCgroup(p), StepView::UnfreezeBinder, StepView::Resume],
            )
            &&& result == thaw_result(
                thaw_failures(
                    true,
                    reply_of(before, after, 0),
                    reply_of(before, after, 1),
                    reply_of(before, after, 2),
                ),
            )
        },
        None => {
            &&& took(before, after, seq![StepView::Resume])
            &&& result == thaw_result(
                thaw_failures(false, Ok(()), Ok(()), reply_of(before, after, 0)),
            )
        },
    }
}

/// An optional path as a value.
pub open spec fn path_view(path: Option<&str>) -> Option<Seq<char>> {
    match path {
        Some(p) => Some(p@),
        None => None,
    }
}

fn add_failure(failures: &mut Vec<String>, head: &str, r: &Result<(), DaemonError>)
    ensures
        texts(final(failures)@) == match *r {
            Err(e) => texts(old(failures)@).push(head@ + error_text(e@)),
            Ok(_) => texts(old(failures)@),
        },
{
    match r {
        Err(e) => {
            let ghost before = texts(failures@);
            let mut failure = copy(head);
            failure.append(e.message());
            failures.push(failure);
            assert(texts(failures@) =~= before.push(failure@));
        },
        Ok(_) => {},
    }
}

/// Thaws a process: its cgroup and the binder where it has a cgroup, and always the signal, last.
pub fn thaw_on<B: FreezerBackend>(cgroup_path: Option<&str>, backend: &mut B) -> (r: Result<
    (),
    DaemonError,
>)
    requires
        cgroup_path matches Some(p) ==> old(backend).may(StepView::ThawCgroup(p@)) && old(
            backend,
        ).may(StepView::UnfreezeBinder),
        old(backend).may(StepView::Resume),
    ensures
        thaw_went(path_view(cgroup_path), *old(backend), *final(backend), done(r)),
{
    let ghost before = *backend;
    let mut failures: Vec<String> = Vec::new();
    assert(texts(failures@) =~= seq![]);
    match cgroup_path {
        Some(path) => {
            let first = backend.perform(FreezerStep::ThawCgroup(path));
            add_failure(&mut failures, "cgroup thaw failed: ", &first);
            let second = backend.perform(FreezerStep::UnfreezeBinder);
            add_failure(&mut failures, "binder unfreeze failed: ", &second);
        },
        None => {},
    }
    let last = backend.perform(FreezerStep::Resume);
    add_failure(&mut failures, "SIGCONT failed: ", &last);
    assert(texts(failures@).len() == failures@.len());
    if failures.len() == 0 {
        Ok(())
    } else {
        let message = join_strings(failures.as_slice(), "; ");
        Err(DaemonError::system(message.as_str()))
    }
}

// ---------------------------------------------------------------------------
// Freezing
// ---------------------------------------------------------------------------

/// The result of a freeze with a cgroup: the binder first, then the cgroup; a binder that was
/// frozen alone is thawed again.
pub open spec fn freeze_result(
    binder: Result<(), ErrorView>,
    cgroup: Result<(), ErrorView>,
    cleanup: Result<(), ErrorView>,
) -> Result<(), ErrorView> {
    match (binder, cgroup) {
        (Err(e), _) => Err(e),
        (Ok(_), Ok(_)) => Ok(()),
        (Ok(_), Err(e)) => match cleanup {
            Ok(_) => Err(e),
            Err(c) => Err(
                ErrorView::System(
                    "cgroup freeze failed: "@ + error_text(e) + "; binder rollback failed: "@
                        + error_text(c),
                ),
            ),
        },
    }
}

/// A process was frozen in its cgroup: the binder; the cgroup, where the binder was frozen; and
/// the binder is thawed again where the cgroup was not frozen, and only there.
pub open spec fn freeze_went<B: FreezerBackend>(
    path: Seq<char>,
    before: B,
    after: B,
    result: Result<(), ErrorView>,
) -> bool {
    let binder = reply_of(before, after, 0);
    let cgroup = reply_of(before, after, 1);
    if binder is Err {
        &&& took(before, after, seq![StepView::FreezeBinder])
        &&& result == binder
    } else if cgroup is Ok {
        &&& took(before, after, seq![StepView::FreezeBinder, StepView::FreezeCgroup(path)])
        &&& result is Ok
    } else {
        &&& took(
            before,
            after,
            seq![
                StepView::FreezeBinder,
                StepView::FreezeCgroup(path),
                StepView::UnfreezeBinder,
            ],
        )
        &&& result == freeze_result(binder, cgroup, reply_of(before, after, 2))
    }
}

/// A freeze of the binder can succeed.
pub open spec fn binder_can_freeze<B: FreezerBackend>(backend: B) -> bool {
    exists|e: FreezerEffect| #[trigger]
        (backend.gives())(e) && e.step == StepView::FreezeBinder && e.reply is Ok
}

/// A freeze of the cgroup can fail.
pub open spec fn cgroup_can_fail<B: FreezerBackend>(backend: B, path: Seq<char>) -> bool {
    exists|e: FreezerEffect| #[trigger]
        (backend.gives())(e) && e.step == StepView::FreezeCgroup(path) && e.reply is Err
}

/// Freezes a process in a cgroup.
pub fn freeze_on<B: FreezerBackend>(cgroup_path: &str, backend: &mut B) -> (r: Result<
    (),
    DaemonError,
>)
    requires
        old(backend).may(StepView::FreezeBinder),
        binder_can_freeze(*old(backend)) ==> old(backend).may(
            StepView::FreezeCgroup(cgroup_path@),
        ),
        cgroup_can_fail(*old(backend), cgroup_path@) ==> old(backend).may(
            StepView::UnfreezeBinder,
        ),
    ensures
        freeze_went(cgroup_path@, *old(backend), *final(backend), done(r)),
{
    let ghost before = *backend;
    match backend.perform(FreezerStep::FreezeBinder) {
        Err(e) => {
            return Err(e);
        },
        Ok(()) => {
            assert((before.gives())(
                FreezerEffect { step: StepView::FreezeBinder, reply: Ok(()) },
            ));
        },
    }
    match backend.perform(FreezerStep::FreezeCgroup(cgroup_path)) {
        Ok(()) => Ok(()),
        Err(error) => {
            proof {
                let e = FreezerEffect {
                    step: StepView::FreezeCgroup(cgroup_path@),
                    reply: Err(error@),
                };
                assert((before.gives())(e));
            }
            match backend.perform(FreezerStep::UnfreezeBinder) {
                Ok(()) => Err(error),
                Err(cleanup_error) => {
                    let mut message = text("cgroup freeze failed: ");
                    message.append(error.message());
                    message.append("; binder rollback failed: ");
                    message.append(cleanup_error.message());
                    Err(DaemonError::system(message.as_str()))
                },
            }
        },
    }
}

/// Freezes a process: in its cgroup where it has one, else by the signal that stops it, and by
/// nothing else.
pub fn freeze_process_on<B: FreezerBackend>(cgroup_path: Option<&str>, backend: &mut B) -> (r:
    Result<(), DaemonError>)
    requires
        match cgroup_path {
            Some(p) => {
                &&& old(backend).may(StepView::FreezeBinder)
                &&& binder_can_freeze(*old(backend)) ==> old(backend).may(
                    StepView::FreezeCgroup(p@),
                )
                &&& cgroup_can_fail(*old(backend), p@) ==> old(backend).may(
                    StepView::UnfreezeBinder,
                )
            },
            None => old(backend).may(StepView::Stop),
        },
    ensures
        match cgroup_path {
            Some(p) => freeze_went(p@, *old(backend), *final(backend), done(r)),
            None => took(*old(backend), *final(backend), seq![StepView::Stop]) && done(r)
                == reply_of(*old(backend), *final(backend), 0),
        },
{
    match cgroup_path {
        Some(path) => freeze_on(path, backend),
        None => backend.perform(FreezerStep::Stop),
    }
}

// ---------------------------------------------------------------------------
// Devices made of functions
// ---------------------------------------------------------------------------

/// A device made of one function for all steps.
pub struct StepPort<F> where F: FnMut(FreezerStep<'_>) -> Result<(), DaemonError> {
    take_step: F,
    trace: Ghost<Seq<FreezerEffect>>,
}

/// The function can end a step this way.
pub open spec fn step_gives<F: FnMut(FreezerStep<'_>) -> Result<(), DaemonError>>(
    f: F,
    e: FreezerEffect,
) -> bool {
    exists|s: FreezerStep<'_>, r: Result<(), DaemonError>| #[trigger]
        call_ensures(f, (s,), r) && s@ == e.step && done(r) == e.reply
}

impl<F> StepPort<F> where F: FnMut(FreezerStep<'_>) -> Result<(), DaemonError> {
    /// A device that takes every step with a function.
    pub fn new(take_step: F) -> (r: Self)
        ensures
            r.trace() == Seq::<FreezerEffect>::empty(),
            r.gives() == (|e: FreezerEffect| step_gives(take_step, e)),
            forall|step: StepView|
                (forall|s: FreezerStep<'_>| s@ == step ==> #[trigger] call_requires(
                    take_step,
                    (s,),
                )) ==> #[trigger] r.may(step),
    {
        StepPort { take_step, trace: Ghost(Seq::empty()) }
    }
}

impl<F> FreezerBackend for StepPort<F> where F: FnMut(FreezerStep<'_>) -> Result<(), DaemonError> {
    closed spec fn trace(&self) -> Seq<FreezerEffect> {
        self.trace@
    }

    closed spec fn gives(&self) -> spec_fn(FreezerEffect) -> bool {
        |e: FreezerEffect| step_gives(self.take_step, e)
    }

    closed spec fn may(&self, step: StepView) -> bool {
        forall|s: FreezerStep<'_>| s@ == step ==> #[trigger] call_requires(self.take_step, (s,))
    }

    fn perform(&mut self, step: FreezerStep<'_>) -> (r: Result<(), DaemonError>) {
        let ghost before = *self;
        let r = (self.take_step)(step);
        self.trace = Ghost(self.trace@.push(FreezerEffect { step: step@, reply: done(r) }));
        proof {
            assert(self.take_step == before.take_step);
            assert forall|other: StepView| #[trigger] self.may(other) == before.may(other) by {
                if before.may(other) {
                    assert(self.may(other));
                }
                if self.may(other) {
                    assert(before.may(other));
                }
            }
        }
        r
    }
}

/// A call without arguments can end this way.
pub open spec fn call_gives<F: FnOnce() -> Result<(), DaemonError>>(
    f: F,
    reply: Result<(), ErrorView>,
) -> bool {
    exists|r: Result<(), DaemonError>| #[trigger] call_ensures(f, (), r) && done(r) == reply
}

/// A call for a path can end this way.
pub open spec fn path_call_gives<F: FnOnce(&str) -> Result<(), DaemonError>>(
    f: F,
    path: Seq<char>,
    reply: Result<(), ErrorView>,
) -> bool {
    exists|p: &str, r: Result<(), DaemonError>| #[trigger]
        call_ensures(f, (p,), r) && p@ == path && done(r) == reply
}

/// A function can be called for a path.
pub open spec fn takes_path<F: FnOnce(&str) -> Result<(), DaemonError>>(
    f: F,
    path: Seq<char>,
) -> bool {
    forall|p: &str| p@ == path ==> #[trigger] call_requires(f, (p,))
}

/// A device that thaws, made of one function for each step; each is called at most once.
pub struct ThawPort<T, B, S> where
    T: FnOnce(&str) -> Result<(), DaemonError>,
    B: FnOnce() -> Result<(), DaemonError>,
    S: FnOnce() -> Result<(), DaemonError>,
 {
    thaw_cgroup: Option<T>,
    unfreeze_binder: Option<B>,
    resume_signal: Option<S>,
    made_of: Ghost<(T, B, S)>,
    trace: Ghost<Seq<FreezerEffect>>,
}

/// A step of a thaw with a reply that one of these functions can return.
pub open spec fn thaw_gives<T, B, S>(thaw: T, binder: B, resume: S, e: FreezerEffect) -> bool where
    T: FnOnce(&str) -> Result<(), DaemonError>,
    B: FnOnce() -> Result<(), DaemonError>,
    S: FnOnce() -> Result<(), DaemonError>,
 {
    match e.step {
        StepView::ThawCgroup(path) => path_call_gives(thaw, path, e.reply),
        StepView::UnfreezeBinder => call_gives(binder, e.reply),
        StepView::Resume => call_gives(resume, e.reply),
        _ => false,
    }
}

impl<T, B, S> ThawPort<T, B, S> where
    T: FnOnce(&str) -> Result<(), DaemonError>,
    B: FnOnce() -> Result<(), DaemonError>,
    S: FnOnce() -> Result<(), DaemonError>,
 {
    /// A device that takes each step with the function given for it.
    pub fn new(thaw_cgroup: T, unfreeze_binder: B, resume_signal: S) -> (r: Self)
        ensures
            r.trace() == Seq::<FreezerEffect>::empty(),
            r.gives() == (|e: FreezerEffect|
                thaw_gives(thaw_cgroup, unfreeze_binder, resume_signal, e)),
            forall|p: Seq<char>| #[trigger]
                r.may(StepView::ThawCgroup(p)) == takes_path(thaw_cgroup, p),
            r.may(StepView::UnfreezeBinder) == call_requires(unfreeze_binder, ()),
            r.may(StepView::Resume) == call_requires(resume_signal, ()),
    {
        let made_of: Ghost<(T, B, S)> = Ghost((thaw_cgroup, unfreeze_binder, resume_signal));
        ThawPort {
            thaw_cgroup: Some(thaw_cgroup),
            unfreeze_binder: Some(unfreeze_binder),
            resume_signal: Some(resume_signal),
            made_of,
            trace: Ghost(Seq::empty()),
        }
    }
}

impl<T, B, S> FreezerBackend for ThawPort<T, B, S> where
    T: FnOnce(&str) -> Result<(), DaemonError>,
    B: FnOnce() -> Result<(), DaemonError>,
    S: FnOnce() -> Result<(), DaemonError>,
 {
    closed spec fn trace(&self) -> Seq<FreezerEffect> {
        self.trace@
    }

    closed spec fn gives(&self) -> spec_fn(FreezerEffect) -> bool {
        |e: FreezerEffect| thaw_gives(self.made_of@.0, self.made_of@.1, self.made_of@.2, e)
    }

    closed spec fn may(&self, step: StepView) -> bool {
        match step {
            StepView::ThawCgroup(path) => self.thaw_cgroup == Some(self.made_of@.0) && takes_path(
                self.made_of@.0,
                path,
            ),
            StepView::UnfreezeBinder => self.unfreeze_binder == Some(self.made_of@.1)
                && call_requires(self.made_of@.1, ()),
            StepView::Resume => self.resume_signal == Some(self.made_of@.2) && call_requires(
                self.made_of@.2,
                (),
            ),
            _ => false,
        }
    }

    fn perform(&mut self, step: FreezerStep<'_>) -> (r: Result<(), DaemonError>) {
        let r = match step {
            FreezerStep::ThawCgroup(path) => match self.thaw_cgroup.take() {
                Some(thaw) => thaw(path),
                None => Ok(()),
            },
            FreezerStep::UnfreezeBinder => match self.unfreeze_binder.take() {
                Some(unfreeze) => unfreeze(),
                None => Ok(()),
            },
            FreezerStep::Resume => match self.resume_signal.take() {
                Some(resume) => resume(),
                None => Ok(()),
            },
            _ => Ok(()),
        };
        self.trace = Ghost(self.trace@.push(FreezerEffect { step: step@, reply: done(r) }));
        r
    }
}

/// A device that freezes, made of one function for each step; each is called at most once.
pub struct FreezePort<B, T, C> where
    B: FnOnce() -> Result<(), DaemonError>,
    T: FnOnce(&str) -> Result<(), DaemonError>,
    C: FnOnce() -> Result<(), DaemonError>,
 {
    freeze_binder: Option<B>,
    freeze_cgroup: Option<T>,
    unfreeze_binder: Option<C>,
    made_of: Ghost<(B, T, C)>,
    trace: Ghost<Seq<FreezerEffect>>,
}

/// A step of a freeze with a reply that one of these functions can return.
pub open spec fn freeze_gives<B, T, C>(
    binder: B,
    freeze: T,
    cleanup: C,
    e: FreezerEffect,
) -> bool where
    B: FnOnce() -> Result<(), DaemonError>,
    T: FnOnce(&str) -> Result<(), DaemonError>,
    C: FnOnce() -> Result<(), DaemonError>,
 {
    match e.step {
        StepView::FreezeBinder => call_gives(binder, e.reply),
        StepView::FreezeCgroup(path) => path_call_gives(freeze, path, e.reply),
        StepView::UnfreezeBinder => call_gives(cleanup, e.reply),
        _ => false,
    }
}

impl<B, T, C> FreezePort<B, T, C> where
    B: FnOnce() -> Result<(), DaemonError>,
    T: FnOnce(&str) -> Result<(), DaemonError>,
    C: FnOnce() -> Result<(), DaemonError>,
 {
    /// A device that takes each step with the function given for it.
    pub fn new(freeze_binder: B, freeze_cgroup: T, unfreeze_binder: C) -> (r: Self)
        ensures
            r.trace() == Seq::<FreezerEffect>::empty(),
            r.gives() == (|e: FreezerEffect|
                freeze_gives(freeze_binder, freeze_cgroup, unfreeze_binder, e)),
            r.may(StepView::FreezeBinder) == call_requires(freeze_binder, ()),
            forall|p: Seq<char>| #[trigger]
                r.may(StepView::FreezeCgroup(p)) == takes_path(freeze_cgroup, p),
            r.may(StepView::UnfreezeBinder) == call_requires(unfreeze_binder, ()),
    {
        let made_of: Ghost<(B, T, C)> = Ghost((freeze_binder, freeze_cgroup, unfreeze_binder));
        FreezePort {
            freeze_binder: Some(freeze_binder),
            freeze_cgroup: Some(freeze_cgroup),
            unfreeze_binder: Some(unfreeze_binder),
            made_of,
            trace: Ghost(Seq::empty()),
        }
    }
}

impl<B, T, C> FreezerBackend for FreezePort<B, T, C> where
    B: FnOnce() -> Result<(), DaemonError>,
    T: FnOnce(&str) -> Result<(), DaemonError>,
    C: FnOnce() -> Result<(), DaemonError>,
 {
    closed spec fn trace(&self) -> Seq<FreezerEffect> {
        self.trace@
    }

    closed spec fn gives(&self) -> spec_fn(FreezerEffect) -> bool {
        |e: FreezerEffect| freeze_gives(self.made_of@.0, self.made_of@.1, self.made_of@.2, e)
    }

    closed spec fn may(&self, step: StepView) -> bool {
        match step {
            StepView::FreezeBinder => self.freeze_binder == Some(self.made_of@.0) && call_requires(
                self.made_of@.0,
                (),
            ),
            StepView::FreezeCgroup(path) => self.freeze_cgroup == Some(self.made_of@.1)
                && takes_path(self.made_of@.1, path),
            StepView::UnfreezeBinder => self.unfreeze_binder == Some(self.made_of@.2)
                && call_requires(self.made_of@.2, ()),
            _ => false,
        }
    }

    fn perform(&mut self, step: FreezerStep<'_>) -> (r: Result<(), DaemonError>) {
        let r = match step {
            FreezerStep::FreezeBinder => match self.freeze_binder.take() {
                Some(freeze) => freeze(),
                None => Ok(()),
            },
            FreezerStep::FreezeCgroup(path) => match self.freeze_cgroup.take() {
                Some(freeze) => freeze(path),
                None => Ok(()),
            },
            FreezerStep::UnfreezeBinder => match self.unfreeze_binder.take() {
                Some(unfreeze) => unfreeze(),
                None => Ok(()),
            },
            _ => Ok(()),
        };
        self.trace = Ghost(self.trace@.push(FreezerEffect { step: step@, reply: done(r) }));
        r
    }
}

} // verus!
