//! What is done to the device, and what is found out about it.

use vstd::prelude::*;

use crate::app::download_deferral::{
    candidate_patterns, deferral, is_candidate, DownloadDeferralAction, Sample, UidRxSample,
};
use crate::app::error::ErrorView;
use crate::domain::capability::CapabilityStatus;
use crate::laws::discovery::bears;
use crate::sys::binder::probed;
use crate::sys::cgroup::{
    chosen, files_at, place_of, writable_paths, CgroupFreezerPreference, FreezeFile,
};
use crate::sys::freezer::{freeze_went, thaw_went, FreezerBackend, StepView};
use crate::sys::hook::HookCall;
use crate::sys::paths::{join_path, lies_in};
use crate::sys::signal::{
    continue_went, stop_went, SignalAction, SignalBackend, SignalCall,
};
use crate::sys::socket::{failed_uids, request_fault, sync_requests, uid_bytes};
use crate::protocol::bytes::{le_bytes, le_u32};
use crate::protocol::xposed::XposedCommand;

verus! {

// ---------------------------------------------------------------------------
// Signals
// ---------------------------------------------------------------------------

/// A stop first stops the process and then records it. It succeeds exactly where both did; a stop
/// that could not be recorded is taken back at once.
pub proof fn stops_are_recorded_or_taken_back<B: SignalBackend>(
    pid: i32,
    before: B,
    after: B,
    result: Result<(), ErrorView>,
)
    requires
        stop_went(pid, before, after, result),
    ensures
        ({
            let n = before.trace().len() as int;
            let t = after.trace();
            &&& t.len() > n
            &&& t[n].call == SignalCall::Send(pid, SignalAction::Stop)
            &&& t[n].reply is Err ==> t.len() == n + 1 && result is Err
            &&& t[n].reply is Ok ==> t.len() > n + 1 && t[n + 1].call == SignalCall::Record(pid)
            &&& t[n].reply is Ok && t[n + 1].reply is Ok ==> t.len() == n + 2 && result is Ok
            &&& t[n].reply is Ok && t[n + 1].reply is Err ==> t.len() == n + 3 && result is Err
                && t[n + 2].call == SignalCall::Send(pid, SignalAction::Continue)
        }),
{
    let n = before.trace().len() as int;
    let t = after.trace();
    assert(t.len() > n);
    assert(t[n].call == SignalCall::Send(pid, SignalAction::Stop));
    if t[n].reply is Ok {
        assert(t[n + 1].call == SignalCall::Record(pid));
        if t[n + 1].reply is Err {
            assert(t[n + 2].call == SignalCall::Send(pid, SignalAction::Continue));
        }
    }
}

/// A process goes on only after its record was taken out of the ledger. Where it could not be
/// continued, a record that was there is put back.
pub proof fn continued_processes_leave_the_ledger<B: SignalBackend>(
    pid: i32,
    before: B,
    after: B,
    result: Result<(), ErrorView>,
)
    requires
        continue_went(pid, before, after, result),
    ensures
        ({
            let n = before.trace().len() as int;
            let t = after.trace();
            &&& t.len() > n
            &&& t[n].call == SignalCall::Take(pid)
            &&& t[n].reply is Err ==> t.len() == n + 1 && result is Err
            &&& t[n].reply is Ok ==> t.len() > n + 1 && t[n + 1].call == SignalCall::Send(
                pid,
                SignalAction::Continue,
            )
            &&& t[n].reply is Ok && t[n + 1].reply is Ok ==> t.len() == n + 2 && result is Ok
            &&& t[n].reply is Ok && t[n + 1].reply is Err ==> result is Err
            &&& t[n].reply == Ok::<bool, ErrorView>(true) && t[n + 1].reply is Err ==> t.len() == n
                + 3 && t[n + 2].call == SignalCall::Record(pid)
            &&& t[n].reply == Ok::<bool, ErrorView>(false) ==> t.len() == n + 2
        }),
{
    let n = before.trace().len() as int;
    let t = after.trace();
    assert(t.len() > n);
    assert(t[n].call == SignalCall::Take(pid));
    if t[n].reply is Ok {
        assert(t[n + 1].call == SignalCall::Send(pid, SignalAction::Continue));
        if t[n + 1].reply is Err && t[n].reply == Ok::<bool, ErrorView>(true) {
            assert(t[n + 2].call == SignalCall::Record(pid));
        }
    }
}

// ---------------------------------------------------------------------------
// Freezers
// ---------------------------------------------------------------------------

/// A thaw takes every step, whatever came of the earlier ones, and ends with the signal. It
/// succeeds exactly where every step did.
pub proof fn thaws_take_every_step<B: FreezerBackend>(
    path: Option<Seq<char>>,
    before: B,
    after: B,
    result: Result<(), ErrorView>,
)
    requires
        thaw_went(path, before, after, result),
    ensures
        ({
            let n = before.trace().len() as int;
            let t = after.trace();
            &&& path matches Some(p) ==> {
                &&& t.len() == n + 3
                &&& t[n].step == StepView::ThawCgroup(p)
                &&& t[n + 1].step == StepView::UnfreezeBinder
                &&& t[n + 2].step == StepView::Resume
                &&& result is Ok <==> t[n].reply is Ok && t[n + 1].reply is Ok && t[n
                    + 2].reply is Ok
            }
            &&& path is None ==> t.len() == n + 1 && t[n].step == StepView::Resume && (result is Ok
                <==> t[n].reply is Ok)
        }),
{
    let n = before.trace().len() as int;
    let t = after.trace();
    if let Some(p) = path {
        assert(t[n].step == StepView::ThawCgroup(p));
        assert(t[n + 1].step == StepView::UnfreezeBinder);
        assert(t[n + 2].step == StepView::Resume);
    } else {
        assert(t[n].step == StepView::Resume);
    }
}

/// A freeze freezes the binder first and then the cgroup. It succeeds exactly where both were
/// frozen; a binder that was frozen alone is thawed again.
pub proof fn freezes_freeze_both_or_none<B: FreezerBackend>(
    path: Seq<char>,
    before: B,
    after: B,
    result: Result<(), ErrorView>,
)
    requires
        freeze_went(path, before, after, result),
    ensures
        ({
            let n = before.trace().len() as int;
            let t = after.trace();
            &&& t.len() > n
            &&& t[n].step == StepView::FreezeBinder
            &&& t[n].reply is Err ==> t.len() == n + 1 && result is Err
            &&& t[n].reply is Ok ==> t.len() > n + 1 && t[n + 1].step == StepView::FreezeCgroup(path)
            &&& t[n].reply is Ok && t[n + 1].reply is Ok ==> t.len() == n + 2 && result is Ok
            &&& t[n].reply is Ok && t[n + 1].reply is Err ==> t.len() == n + 3 && result is Err
                && t[n + 2].step == StepView::UnfreezeBinder
        }),
{
    let n = before.trace().len() as int;
    let t = after.trace();
    assert(t.len() > n);
    assert(t[n].step == StepView::FreezeBinder);
    if t[n].reply is Ok {
        assert(t[n + 1].step == StepView::FreezeCgroup(path));
        if t[n + 1].reply is Err {
            assert(t[n + 2].step == StepView::UnfreezeBinder);
        }
    }
}

/// A probe shows that the kernel knows the binder freezer: it succeeded, or was refused for want of
/// a process with that pid, which is error three.
pub open spec fn is_recognized(reply: Result<(), (Option<i32>, Seq<char>)>) -> bool {
    match reply {
        Ok(_) => true,
        Err((number, _)) => number == Some(3i32),
    }
}

/// The binder freezer is available exactly where a probe shows that the kernel knows it, and then
/// on the first device of which that is so.
pub proof fn the_first_device_that_is_recognized_is_used(
    paths: Seq<Seq<char>>,
    replies: Seq<Result<(), (Option<i32>, Seq<char>)>>,
)
    ensures
        probed(paths, replies, 0) matches Some(c) ==> {
            &&& c.status == CapabilityStatus::Available <==> exists|k: int|
                0 <= k < paths.len() && k < replies.len() && is_recognized(#[trigger] replies[k])
            &&& c.status == CapabilityStatus::Available ==> exists|k: int|
                {
                    &&& 0 <= k < paths.len() && k < replies.len()
                    &&& is_recognized(#[trigger] replies[k])
                    &&& c.device_path == Some(paths[k])
                    &&& forall|m: int| 0 <= m < k ==> !is_recognized(#[trigger] replies[m])
                }
            &&& c.status == CapabilityStatus::Missing <==> paths.len() == 0
            &&& c.status == CapabilityStatus::Missing ==> c.device_path is None
        },
{
    probing_from(paths, replies, 0);
}

proof fn probing_from(
    paths: Seq<Seq<char>>,
    replies: Seq<Result<(), (Option<i32>, Seq<char>)>>,
    i: int,
)
    requires
        0 <= i <= paths.len(),
        forall|m: int| 0 <= m < i ==> m < replies.len() && !is_recognized(#[trigger] replies[m]),
    ensures
        probed(paths, replies, i) matches Some(c) ==> {
            &&& c.status == CapabilityStatus::Available <==> exists|k: int|
                0 <= k < paths.len() && k < replies.len() && is_recognized(#[trigger] replies[k])
            &&& c.status == CapabilityStatus::Available ==> exists|k: int|
                {
                    &&& 0 <= k < paths.len() && k < replies.len()
                    &&& is_recognized(#[trigger] replies[k])
                    &&& c.device_path == Some(paths[k])
                    &&& forall|m: int| 0 <= m < k ==> !is_recognized(#[trigger] replies[m])
                }
            &&& c.status == CapabilityStatus::Missing <==> paths.len() == 0
            &&& c.status == CapabilityStatus::Missing ==> c.device_path is None
        },
    decreases paths.len() - i,
{
    if i < paths.len() && i < replies.len() {
        if is_recognized(replies[i]) {
            assert(is_recognized(replies[i]));
        } else {
            probing_from(paths, replies, i + 1);
        }
    }
}

/// A file for freezing that can be written lies in a part of the hierarchy.
pub open spec fn can_freeze_in(files: Seq<FreezeFile>, root: Seq<char>, part: Seq<char>) -> bool {
    exists|k: int|
        0 <= k < files.len() && (#[trigger] files[k]).writable && lies_in(
            files[k].path@,
            join_path(root, part),
        )
}

proof fn members_at(
    files: Seq<FreezeFile>,
    root: Seq<char>,
    place: CgroupFreezerPreference,
    path: Seq<char>,
)
    ensures
        writable_paths(files_at(files, root, place)).contains(path) <==> exists|k: int|
            0 <= k < files.len() && (#[trigger] files[k]).writable && files[k].path@ == path
                && place_of(files[k].path@, root) == place,
    decreases files.len(),
{
    if files.len() > 0 {
        let rest = files.drop_last();
        let last = files.last();
        members_at(rest, root, place, path);
        let a = writable_paths(files_at(rest, root, place));
        let b = writable_paths(files_at(files, root, place));
        let counts = place_of(last.path@, root) == place && last.writable;
        if place_of(last.path@, root) == place {
            assert(files_at(rest, root, place).push(last).drop_last() =~= files_at(
                rest,
                root,
                place,
            ));
        }
        assert(b == if counts { a.push(last.path@) } else { a });
        crate::domain::identity::push_members(a, last.path@, path);
        if b.contains(path) {
            if a.contains(path) {
                let k = choose|k: int|
                    0 <= k < rest.len() && (#[trigger] rest[k]).writable && rest[k].path@ == path
                        && place_of(rest[k].path@, root) == place;
                assert(files[k] == rest[k]);
            } else {
                assert(files[files.len() - 1] == last);
            }
        }
        if exists|k: int|
            0 <= k < files.len() && (#[trigger] files[k]).writable && files[k].path@ == path
                && place_of(files[k].path@, root) == place {
            let k = choose|k: int|
                0 <= k < files.len() && (#[trigger] files[k]).writable && files[k].path@ == path
                    && place_of(files[k].path@, root) == place;
            if k < rest.len() {
                assert(rest[k] == files[k]);
            }
        }
    }
}

proof fn some_at(files: Seq<FreezeFile>, root: Seq<char>, place: CgroupFreezerPreference)
    ensures
        writable_paths(files_at(files, root, place)).len() > 0 <==> exists|k: int|
            0 <= k < files.len() && (#[trigger] files[k]).writable && place_of(
                files[k].path@,
                root,
            ) == place,
{
    let w = writable_paths(files_at(files, root, place));
    if w.len() > 0 {
        assert(w.contains(w[0]));
        members_at(files, root, place, w[0]);
    }
    if exists|k: int|
        0 <= k < files.len() && (#[trigger] files[k]).writable && place_of(files[k].path@, root)
            == place {
        let k = choose|k: int|
            0 <= k < files.len() && (#[trigger] files[k]).writable && place_of(
                files[k].path@,
                root,
            ) == place;
        members_at(files, root, place, files[k].path@);
    }
}

/// The files for applications come first, then those for the system, then any others; and only
/// files that can be written are used.
pub proof fn application_files_come_first(files: Seq<FreezeFile>, root: Seq<char>, path: Seq<char>)
    ensures
        ({
            let c = chosen(files, root);
            let writable = exists|k: int|
                0 <= k < files.len() && (#[trigger] files[k]).writable;
            &&& c.status == CapabilityStatus::Available <==> writable
            &&& can_freeze_in(files, root, "apps"@) ==> c.preference
                == CgroupFreezerPreference::AndroidAppCgroupV2
            &&& c.status == CapabilityStatus::Available && c.preference
                == CgroupFreezerPreference::AndroidAppCgroupV2 ==> can_freeze_in(
                files,
                root,
                "apps"@,
            )
            &&& c.status == CapabilityStatus::Missing <==> files.len() == 0
            &&& c.paths.contains(path) ==> exists|k: int|
                0 <= k < files.len() && (#[trigger] files[k]).writable && files[k].path@ == path
            &&& c.status == CapabilityStatus::Available && c.preference
                == CgroupFreezerPreference::SystemCgroupV2 ==> !can_freeze_in(
                files,
                root,
                "apps"@,
            ) && can_freeze_in(files, root, "system"@)
            &&& can_freeze_in(files, root, "system"@) && !can_freeze_in(files, root, "apps"@)
                ==> c.preference == CgroupFreezerPreference::SystemCgroupV2
        }),
{
    let apps = CgroupFreezerPreference::AndroidAppCgroupV2;
    let system = CgroupFreezerPreference::SystemCgroupV2;
    let generic = CgroupFreezerPreference::GenericCgroupV2;
    some_at(files, root, apps);
    some_at(files, root, system);
    some_at(files, root, generic);
    members_at(files, root, apps, path);
    members_at(files, root, system, path);
    members_at(files, root, generic, path);
    parts_cover(files, root);
    if can_freeze_in(files, root, "apps"@) {
        let k = choose|k: int|
            0 <= k < files.len() && (#[trigger] files[k]).writable && lies_in(
                files[k].path@,
                join_path(root, "apps"@),
            );
        assert(place_of(files[k].path@, root) == apps);
    }
    if can_freeze_in(files, root, "system"@) {
        let k = choose|k: int|
            0 <= k < files.len() && (#[trigger] files[k]).writable && lies_in(
                files[k].path@,
                join_path(root, "system"@),
            );
        assert(place_of(files[k].path@, root) == apps || place_of(files[k].path@, root) == system);
    }
}

proof fn parts_cover(files: Seq<FreezeFile>, root: Seq<char>)
    ensures
        files.len() == files_at(files, root, CgroupFreezerPreference::AndroidAppCgroupV2).len()
            + files_at(files, root, CgroupFreezerPreference::SystemCgroupV2).len() + files_at(
            files,
            root,
            CgroupFreezerPreference::GenericCgroupV2,
        ).len(),
    decreases files.len(),
{
    if files.len() > 0 {
        parts_cover(files.drop_last(), root);
    }
}

// ---------------------------------------------------------------------------
// The hook
// ---------------------------------------------------------------------------

/// The hook accepted a request: its answer begins with the number two in four bytes.
pub open spec fn is_accepted(reply: Result<Seq<u8>, ErrorView>) -> bool {
    reply matches Ok(b) && b.len() >= 4 && b[0] == 2 && b[1] == 0 && b[2] == 0 && b[3] == 0
}

proof fn two_is_accepted(command: XposedCommand, reply: Result<Seq<u8>, ErrorView>)
    ensures
        request_fault(command, reply) is None <==> is_accepted(reply),
{
}

/// Of the uids whose network is to be restricted, those are left over whose request the hook did
/// not accept, in their order.
pub proof fn refused_uids_are_left_over(
    uids: Seq<u32>,
    replies: Seq<Result<Seq<u8>, ErrorView>>,
    uid: u32,
)
    requires
        replies.len() == uids.len(),
    ensures
        failed_uids(uids, replies).contains(uid) <==> exists|k: int|
            0 <= k < uids.len() && #[trigger] uids[k] == uid && !is_accepted(replies[k]),
        failed_uids(uids, replies).len() <= uids.len(),
        (forall|k: int| 0 <= k < uids.len() ==> !is_accepted(#[trigger] replies[k])) ==> failed_uids(
            uids,
            replies,
        ) == uids,
    decreases uids.len(),
{
    if uids.len() > 0 {
        let u = uids.drop_last();
        let r = replies.drop_last();
        refused_uids_are_left_over(u, r, uid);
        two_is_accepted(XposedCommand::BreakNetwork, replies.last());
        let a = failed_uids(u, r);
        crate::domain::identity::push_members(a, uids.last(), uid);
        if a.contains(uid) {
            let k = choose|k: int|
                0 <= k < u.len() && #[trigger] u[k] == uid && !is_accepted(r[k]);
            assert(uids[k] == uid && replies[k] == r[k]);
        }
        if exists|k: int|
            0 <= k < uids.len() && #[trigger] uids[k] == uid && !is_accepted(replies[k]) {
            let k = choose|k: int|
                0 <= k < uids.len() && #[trigger] uids[k] == uid && !is_accepted(replies[k]);
            if k < u.len() {
                assert(u[k] == uid && r[k] == replies[k]);
            }
        }
        if forall|k: int| 0 <= k < uids.len() ==> !is_accepted(#[trigger] replies[k]) {
            assert forall|k: int| 0 <= k < u.len() implies !is_accepted(#[trigger] r[k]) by {
                assert(r[k] == replies[k]);
            }
            assert(!is_accepted(replies[uids.len() - 1]));
            assert(failed_uids(uids, replies) =~= uids);
        }
    }
}

/// The hook is told all uids that wait to be frozen in one request, each in four bytes, and then
/// each uid whose network is to be restricted in a request of its own.
pub proof fn the_hook_is_told_what_waits(pending: Seq<u32>, network: Seq<u32>, k: int, m: int)
    requires
        0 <= k < pending.len(),
        0 <= m < network.len(),
    ensures
        sync_requests(pending, network).len() == 1 + network.len(),
        sync_requests(pending, network)[0] matches HookCall::Request(command, b) && command
            == XposedCommand::UpdatePending && b.len() == 4 * pending.len() && le_u32(b, 4 * k)
            == pending[k],
        sync_requests(pending, network)[m + 1] matches HookCall::Request(command, b) && command
            == XposedCommand::BreakNetwork && b.len() == 4 && le_u32(b, 0) == network[m],
{
    uids_have_four_bytes(pending, k);
    crate::protocol::bytes::le_reads_back(network[m]);
}

proof fn uids_have_four_bytes(uids: Seq<u32>, k: int)
    requires
        0 <= k < uids.len(),
    ensures
        uid_bytes(uids).len() == 4 * uids.len(),
        le_u32(uid_bytes(uids), 4 * k) == uids[k],
    decreases uids.len(),
{
    let rest = uids.drop_last();
    if rest.len() > 0 {
        uids_have_four_bytes(rest, if k < rest.len() { k } else { 0 });
    }
    let all = uid_bytes(uids);
    assert(all == uid_bytes(rest) + le_bytes(uids.last()));
    if k < rest.len() {
        assert(le_u32(all, 4 * k) == le_u32(uid_bytes(rest), 4 * k));
    } else {
        crate::protocol::bytes::le_reads_back(uids.last());
        assert(le_u32(all, 4 * k) == le_u32(le_bytes(uids.last()), 0));
    }
}

// ---------------------------------------------------------------------------
// Downloads
// ---------------------------------------------------------------------------

/// The name of a package marks it, in any case of letters, as one that downloads.
pub open spec fn may_download(package: Seq<char>) -> bool {
    bears(package, "baidu.netdisk"@) || bears(package, "quark.clouddrive"@) || bears(
        package,
        "com.google.android.apps.docs"@,
    ) || bears(package, "pikpak"@) || bears(package, "com.trim.app"@)
}

/// Names are recognized in any case of letters.
pub proof fn downloads_are_known_by_name(package: Seq<char>)
    ensures
        is_candidate(package) == may_download(package),
{
    reveal_strlit("baidu.netdisk");
    reveal_strlit("quark.clouddrive");
    reveal_strlit("com.google.android.apps.docs");
    reveal_strlit("pikpak");
    reveal_strlit("com.trim.app");
    crate::laws::discovery::marks_are_found(package, "baidu.netdisk"@);
    crate::laws::discovery::marks_are_found(package, "quark.clouddrive"@);
    crate::laws::discovery::marks_are_found(package, "com.google.android.apps.docs"@);
    crate::laws::discovery::marks_are_found(package, "pikpak"@);
    crate::laws::discovery::marks_are_found(package, "com.trim.app"@);
    let p = candidate_patterns();
    assert(p.len() == 5);
    assert(p[0] == "baidu.netdisk"@ && p[1] == "quark.clouddrive"@ && p[2]
        == "com.google.android.apps.docs"@ && p[3] == "pikpak"@ && p[4] == "com.trim.app"@);
}

/// An application that downloads is frozen only after two readings between which it received at
/// most five mebibytes a second; any other application is not held up.
pub proof fn downloads_hold_up_a_freeze(
    samples: Map<u32, Sample>,
    uid: u32,
    package: Seq<char>,
    sample: UidRxSample,
    at: u128,
)
    ensures
        ({
            let (after, action) = deferral(samples, uid, package, sample, at);
            &&& !may_download(package) ==> action == DownloadDeferralAction::Proceed
                && !after.contains_key(uid)
            &&& may_download(package) ==> (action == DownloadDeferralAction::Proceed <==> (
            sample matches UidRxSample::Value(rx) && samples.contains_key(uid) && {
                let last = samples[uid];
                &&& last.sampled_at_ms < at
                &&& last.rx_bytes <= rx
                &&& (rx - last.rx_bytes) * 1000 < (5 * 1024 * 1024 + 1) * (at - last.sampled_at_ms)
            }))
            &&& may_download(package) ==> (sample matches UidRxSample::Value(rx)
                ==> after.contains_key(uid) && after[uid].rx_bytes == rx && after[uid].sampled_at_ms
                == at)
        }),
{
    downloads_are_known_by_name(package);
    if let UidRxSample::Value(rx) = sample {
        if samples.contains_key(uid) && samples[uid].sampled_at_ms < at {
            let last = samples[uid];
            let n = (rx - last.rx_bytes) * 1000;
            let d = at - last.sampled_at_ms;
            vstd::arithmetic::div_mod::lemma_fundamental_div_mod(n, d);
            let q = n / d;
            let r = n % d;
            assert(q <= 5_242_880 <==> n < 5_242_881 * d) by (nonlinear_arith)
                requires
                    n == d * q + r,
                    0 <= r < d,
            ;
        }
    }
}

} // verus!
