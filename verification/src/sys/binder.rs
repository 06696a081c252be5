//! The binder freezer.

use vstd::prelude::*;
use vstd::string::*;

use crate::app::error::{DaemonError, ErrorView};
use crate::domain::capability::CapabilityStatus;
use crate::domain::runtime::optional_text;
use crate::text::{
    copy, join, join_strings, same, signed_decimal, signed_number, text, texts,
};

verus! {

/// The number of the request that freezes a process.
pub const BINDER_FREEZE_IOCTL: u64 = 0x400c_620e;

/// Where the binder device may be.
pub fn binder_device_candidates() -> (r: [&'static str; 2])
    ensures
        r@[0]@ == "/dev/binder"@,
        r@[1]@ == "/dev/binderfs/binder"@,
{
    ["/dev/binder", "/dev/binderfs/binder"]
}

/// The number of the request that freezes a process.
pub fn binder_freezer_ioctl_number() -> (r: u64)
    ensures
        r == 0x400c_620e,
{
    BINDER_FREEZE_IOCTL
}

/// Whether a process is frozen or thawed.
#[derive(Debug, Clone, Copy, PartialEq, Eq, Structural)]
pub enum BinderFreezeRequest {
    Freeze,
    Unfreeze,
}

/// The request as the kernel reads it.
#[derive(Debug, Clone, Copy, PartialEq, Eq, Structural)]
pub struct BinderFreezeInfo {
    pub pid: u32,
    pub enable: u32,
    pub timeout_ms: u32,
}

/// The request for a process.
pub fn binder_freezer_request(pid: u32, request: BinderFreezeRequest, timeout_ms: u32) -> (r:
    BinderFreezeInfo)
    ensures
        r == (BinderFreezeInfo {
            pid,
            enable: if request == BinderFreezeRequest::Freeze { 1 } else { 0 },
            timeout_ms,
        }),
{
    BinderFreezeInfo {
        pid,
        enable: if request == BinderFreezeRequest::Freeze { 1 } else { 0 },
        timeout_ms,
    }
}

/// What the binder freezer can do.
#[derive(Debug, PartialEq, Eq)]
pub struct BinderFreezerCapability {
    pub status: CapabilityStatus,
    pub device_path: Option<String>,
    pub evidence: String,
}

/// What the binder freezer can do, as a value.
#[verifier::ext_equal]
pub ghost struct BinderView {
    pub status: CapabilityStatus,
    pub device_path: Option<Seq<char>>,
    pub evidence: Seq<char>,
}

impl View for BinderFreezerCapability {
    type V = BinderView;

    open spec fn view(&self) -> BinderView {
        BinderView {
            status: self.status,
            device_path: optional_text(self.device_path),
            evidence: self.evidence@,
        }
    }
}

/// A probe that failed: the error number, if there is one, and the message.
#[derive(Debug, Clone, PartialEq, Eq)]
pub struct ProbeFailure {
    pub error_number: Option<i32>,
    pub message: String,
}

/// A reply to a probe as a value.
pub open spec fn probe_view(r: Result<(), ProbeFailure>) -> Result<(), (Option<i32>, Seq<char>)> {
    match r {
        Ok(()) => Ok(()),
        Err(f) => Err((f.error_number, f.message@)),
    }
}

/// `libc::ESRCH`: the number of the error "no such process", which is 3 on Linux and Android.
#[verifier::external_body]
fn no_such_process() -> (r: i32)
    ensures
        r == 3,
{
    libc::ESRCH
}

/// The devices that failed, with their errors.
pub open spec fn failed_probes(
    paths: Seq<Seq<char>>,
    replies: Seq<Result<(), (Option<i32>, Seq<char>)>>,
    n: int,
) -> Seq<Seq<char>>
    decreases n,
{
    if n <= 0 {
        seq![]
    } else {
        failed_probes(paths, replies, n - 1).push(
            paths[n - 1] + ": "@ + (match replies[n - 1] {
                Err((_, message)) => message,
                Ok(_) => seq![],
            }),
        )
    }
}

/// The capability that the replies show, where they suffice. The probe names no process, so the
/// error "no such process" shows that the kernel knows the request.
pub open spec fn probed(
    paths: Seq<Seq<char>>,
    replies: Seq<Result<(), (Option<i32>, Seq<char>)>>,
    i: int,
) -> Option<BinderView>
    decreases paths.len() - i,
{
    if i >= paths.len() {
        Some(
            if paths.len() == 0 {
                BinderView {
                    status: CapabilityStatus::Missing,
                    device_path: None,
                    evidence: "no binder device found"@,
                }
            } else {
                BinderView {
                    status: CapabilityStatus::Degraded,
                    device_path: Some(paths[0]),
                    evidence: "binder freezer ioctl probe failed: "@ + join(
                        failed_probes(paths, replies, paths.len() as int),
                        "; "@,
                    ),
                }
            },
        )
    } else if i >= replies.len() {
        None
    } else {
        match replies[i] {
            Ok(_) => Some(
                BinderView {
                    status: CapabilityStatus::Available,
                    device_path: Some(paths[i]),
                    evidence: "binder freezer ioctl probe succeeded"@,
                },
            ),
            Err((number, message)) => if number == Some(3i32) {
                Some(
                    BinderView {
                        status: CapabilityStatus::Available,
                        device_path: Some(paths[i]),
                        evidence: "binder kernel recognized freezer ioctl: "@ + message,
                    },
                )
            } else {
                probed(paths, replies, i + 1)
            },
        }
    }
}

/// The function can give this reply for a device.
pub open spec fn probe_gives<F: FnMut(&str) -> Result<(), ProbeFailure>>(
    probe: F,
    path: Seq<char>,
    reply: Result<(), (Option<i32>, Seq<char>)>,
) -> bool {
    exists|p: &str, r: Result<(), ProbeFailure>| #[trigger]
        call_ensures(probe, (p,), r) && p@ == path && probe_view(r) == reply
}

/// Replies of the function for the first devices.
pub open spec fn probe_replies<F: FnMut(&str) -> Result<(), ProbeFailure>>(
    probe: F,
    paths: Seq<Seq<char>>,
    replies: Seq<Result<(), (Option<i32>, Seq<char>)>>,
) -> bool {
    &&& replies.len() <= paths.len()
    &&& forall|i: int|
        0 <= i < replies.len() ==> probe_gives(probe, paths[i], #[trigger] replies[i])
}

/// Probes the binder devices that exist until one shows that it can freeze.
pub fn detect_binder_freezer_capability_with_probe<F: FnMut(&str) -> Result<(), ProbeFailure>>(
    existing: &[String],
    probe: F,
) -> (r: BinderFreezerCapability)
    requires
        forall|p: &str| texts(existing@).contains(p@) ==> #[trigger] call_requires(probe, (p,)),
    ensures
        exists|replies: Seq<Result<(), (Option<i32>, Seq<char>)>>| #[trigger]
            probe_replies(probe, texts(existing@), replies) && probed(
                texts(existing@),
                replies,
                0,
            ) == Some(r@),
{
    let ghost f = probe;
    let mut ask = probe;
    let ghost paths = texts(existing@);
    let ghost mut replies: Seq<Result<(), (Option<i32>, Seq<char>)>> = seq![];
    let mut attempted: Vec<String> = Vec::new();
    let known = no_such_process();
    let mut i: usize = 0;
    assert(texts(attempted@) =~= failed_probes(paths, replies, 0));
    while i < existing.len()
        invariant
            i <= existing@.len(),
            paths == texts(existing@),
            known == 3,
            ask == f,
            f == probe,
            forall|p: &str| paths.contains(p@) ==> #[trigger] call_requires(ask, (p,)),
            replies.len() == i,
            forall|k: int| 0 <= k < i ==> probe_gives(f, paths[k], #[trigger] replies[k]),
            forall|k: int|
                0 <= k < i ==> ((#[trigger] replies[k]) matches Err((n, _)) && n != Some(3i32)),
            texts(attempted@) == failed_probes(paths, replies, i as int),
        decreases existing@.len() - i,
    {
        let path = existing[i].as_str();
        assert(paths[i as int] == path@);
        let reply = ask(path);
        let ghost before = replies;
        proof {
            assert(probe_gives(f, paths[i as int], probe_view(reply)));
            replies = replies.push(probe_view(reply));
        }
        match reply {
            Ok(()) => {
                proof {
                    probing_goes_on(paths, replies, 0, i as int);
                    assert(probe_replies(f, paths, replies));
                }
                let found = BinderFreezerCapability {
                    status: CapabilityStatus::Available,
                    device_path: Some(copy(path)),
                    evidence: text("binder freezer ioctl probe succeeded"),
                };
                assert(probed(paths, replies, i as int) == Some(found@));
                return found;
            },
            Err(failure) => {
                let recognized = match failure.error_number {
                    Some(n) => n == known,
                    None => false,
                };
                if recognized {
                    proof {
                        probing_goes_on(paths, replies, 0, i as int);
                        assert(probe_replies(f, paths, replies));
                    }
                    let mut evidence = text("binder kernel recognized freezer ioctl: ");
                    evidence.append(failure.message.as_str());
                    let found = BinderFreezerCapability {
                        status: CapabilityStatus::Available,
                        device_path: Some(copy(path)),
                        evidence,
                    };
                    assert(probed(paths, replies, i as int) == Some(found@));
                    return found;
                }
                let ghost done = texts(attempted@);
                let mut entry = copy(path);
                entry.append(": ");
                entry.append(failure.message.as_str());
                attempted.push(entry);
                assert(texts(attempted@) =~= done.push(entry@));
                proof {
                    failed_probes_extend(paths, before, replies, i as int);
                }
            },
        }
        i += 1;
    }
    proof {
        probing_goes_on(paths, replies, 0, i as int);
        assert(probe_replies(f, paths, replies));
        assert(paths.len() == existing@.len());
    }
    if existing.len() == 0 {
        return BinderFreezerCapability {
            status: CapabilityStatus::Missing,
            device_path: None,
            evidence: text("no binder device found"),
        };
    }
    assert(paths[0] == existing@[0]@);
    let mut evidence = text("binder freezer ioctl probe failed: ");
    let joined = join_strings(attempted.as_slice(), "; ");
    evidence.append(joined.as_str());
    BinderFreezerCapability {
        status: CapabilityStatus::Degraded,
        device_path: Some(copy(existing[0].as_str())),
        evidence,
    }
}

proof fn failed_probes_extend(
    paths: Seq<Seq<char>>,
    a: Seq<Result<(), (Option<i32>, Seq<char>)>>,
    b: Seq<Result<(), (Option<i32>, Seq<char>)>>,
    n: int,
)
    requires
        0 <= n <= a.len() <= b.len(),
        forall|k: int| 0 <= k < n ==> a[k] == b[k],
    ensures
        failed_probes(paths, a, n) == failed_probes(paths, b, n),
    decreases n,
{
    if n > 0 {
        failed_probes_extend(paths, a, b, n - 1);
    }
}

proof fn probing_goes_on(
    paths: Seq<Seq<char>>,
    replies: Seq<Result<(), (Option<i32>, Seq<char>)>>,
    from: int,
    to: int,
)
    requires
        0 <= from <= to <= paths.len(),
        to <= replies.len(),
        forall|k: int|
            from <= k < to ==> ((#[trigger] replies[k]) matches Err((n, _)) && n != Some(3i32)),
    ensures
        probed(paths, replies, from) == probed(paths, replies, to),
    decreases to - from,
{
    if from < to {
        assert(replies[from] matches Err((n, _)) && n != Some(3i32));
        probing_goes_on(paths, replies, from + 1, to);
    }
}

/// A device is available only if its probe succeeded or named no process.
pub proof fn refused_probes_show_nothing(
    paths: Seq<Seq<char>>,
    replies: Seq<Result<(), (Option<i32>, Seq<char>)>>,
)
    requires
        replies.len() == paths.len(),
        forall|k: int|
            0 <= k < replies.len() ==> ((#[trigger] replies[k]) matches Err((n, _)) && n != Some(
                3i32,
            )),
    ensures
        probed(paths, replies, 0) matches Some(c) && c.status != CapabilityStatus::Available,
{
    probing_goes_on(paths, replies, 0, paths.len() as int);
}

/// The pid of a process as the binder device takes it: one that is not negative.
pub fn binder_pid(pid: i32) -> (r: Result<u32, DaemonError>)
    ensures
        pid < 0 <==> r is Err,
        r matches Ok(p) ==> p == pid,
        r matches Err(e) ==> e@ == ErrorView::System(
            "invalid binder pid "@ + signed_decimal(pid as int),
        ),
{
    if pid < 0 {
        let mut message = text("invalid binder pid ");
        let digits = signed_number(pid as i64);
        message.append(digits.as_str());
        Err(DaemonError::system(message.as_str()))
    } else {
        Ok(pid as u32)
    }
}

/// The binder device to use, where the freezer is available.
pub fn discover_binder_device(capability: &BinderFreezerCapability) -> (r: Option<&'static str>)
    ensures
        match r {
            Some(p) => capability@.status == CapabilityStatus::Available && capability@.device_path
                == Some(p@) && (p@ == "/dev/binder"@ || p@ == "/dev/binderfs/binder"@),
            None => capability@.status != CapabilityStatus::Available || !(
            capability@.device_path matches Some(p) && (p == "/dev/binder"@ || p
                == "/dev/binderfs/binder"@)),
        },
{
    if capability.status != CapabilityStatus::Available {
        return None;
    }
    match &capability.device_path {
        Some(path) => {
            if same(path.as_str(), "/dev/binder") {
                Some("/dev/binder")
            } else if same(path.as_str(), "/dev/binderfs/binder") {
                Some("/dev/binderfs/binder")
            } else {
                None
            }
        },
        None => None,
    }
}

} // verus!
