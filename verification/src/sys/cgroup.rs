//! The cgroup freezer.

use vstd::prelude::*;
use vstd::string::*;

use crate::app::error::{DaemonError, ErrorView};
use crate::domain::capability::CapabilityStatus;
use crate::sys::paths::{is_in, join_path, joined_path, lies_in};
use crate::text::{
    copy, decimal, number, same, split_words, text, texts, trim, trimmed, words,
};

verus! {

/// The file with which a group is frozen.
pub const CGROUP_FREEZE_FILE: &'static str = "cgroup.freeze";

/// Where the files for freezing were found.
#[derive(Debug, Clone, Copy, PartialEq, Eq, Structural)]
pub enum CgroupFreezerPreference {
    AndroidAppCgroupV2,
    SystemCgroupV2,
    GenericCgroupV2,
    Missing,
}

/// What the cgroup freezer can do.
#[derive(Debug, PartialEq, Eq)]
pub struct CgroupFreezerCapability {
    pub status: CapabilityStatus,
    pub preference: CgroupFreezerPreference,
    pub freeze_files: Vec<String>,
    pub evidence: String,
}

/// The state of a cgroup freezer.
#[derive(Debug, Clone, Copy, PartialEq, Eq, Structural)]
pub enum FreezeState {
    Frozen,
    Thawed,
}

/// The content of the file for a state.
pub open spec fn state_text(state: FreezeState) -> Seq<char> {
    match state {
        FreezeState::Thawed => "0"@,
        FreezeState::Frozen => "1"@,
    }
}

impl FreezeState {
    /// The content of the file for the state.
    pub fn as_str(self) -> (r: &'static str)
        ensures
            r@ == state_text(self),
    {
        match self {
            FreezeState::Thawed => "0",
            FreezeState::Frozen => "1",
        }
    }
}

/// Reads the state from the content of the file.
pub fn parse_freeze_state(content: &str) -> (r: Result<FreezeState, DaemonError>)
    ensures
        match r {
            Ok(state) => trim(content@) == state_text(state),
            Err(e) => trim(content@) != "0"@ && trim(content@) != "1"@ && e@ == ErrorView::System(
                "unknown cgroup.freeze state "@ + trim(content@),
            ),
        },
{
    let value = trimmed(content);
    if same(value.as_str(), "0") {
        Ok(FreezeState::Thawed)
    } else if same(value.as_str(), "1") {
        Ok(FreezeState::Frozen)
    } else {
        let mut message = text("unknown cgroup.freeze state ");
        message.append(value.as_str());
        Err(DaemonError::system(message.as_str()))
    }
}

/// A state that was written reads back, and only that one.
pub proof fn freeze_state_reads_back(state: FreezeState, other: FreezeState)
    ensures
        trim(state_text(state)) == state_text(state),
        state_text(state) == state_text(other) ==> state == other,
{
    reveal_strlit("0");
    reveal_strlit("1");
    assert("0"@[0] == '0');
    assert("1"@[0] == '1');
    let s = state_text(state);
    assert(s.len() == 1);
    assert(!crate::text::is_space('0'));
    assert(!crate::text::is_space('1'));
    assert(crate::text::trim_start(s) == s);
    assert(crate::text::trim_end(s) == s);
}

/// What an entry of a directory is for the search of files for freezing.
#[derive(Debug, Clone, Copy, PartialEq, Eq, Structural)]
pub enum CgroupEntry {
    FreezeFile,
    Subdirectory,
    Other,
}

/// Sorts an entry of a directory.
pub fn classify_cgroup_entry(name: &str, is_dir: bool) -> (r: CgroupEntry)
    ensures
        r == if name@ == CGROUP_FREEZE_FILE@ {
            CgroupEntry::FreezeFile
        } else if is_dir {
            CgroupEntry::Subdirectory
        } else {
            CgroupEntry::Other
        },
{
    if same(name, CGROUP_FREEZE_FILE) {
        CgroupEntry::FreezeFile
    } else if is_dir {
        CgroupEntry::Subdirectory
    } else {
        CgroupEntry::Other
    }
}

/// Where a path lies.
pub open spec fn place_of(path: Seq<char>, root: Seq<char>) -> CgroupFreezerPreference {
    if lies_in(path, join_path(root, "apps"@)) {
        CgroupFreezerPreference::AndroidAppCgroupV2
    } else if lies_in(path, join_path(root, "system"@)) {
        CgroupFreezerPreference::SystemCgroupV2
    } else {
        CgroupFreezerPreference::GenericCgroupV2
    }
}

fn find_place(path: &str, root: &str) -> (r: CgroupFreezerPreference)
    ensures
        r == place_of(path@, root@),
{
    let apps = joined_path(root, "apps");
    let system = joined_path(root, "system");
    if is_in(path, apps.as_str()) {
        CgroupFreezerPreference::AndroidAppCgroupV2
    } else if is_in(path, system.as_str()) {
        CgroupFreezerPreference::SystemCgroupV2
    } else {
        CgroupFreezerPreference::GenericCgroupV2
    }
}

/// A file for freezing, and whether it can be written.
#[derive(Debug, Clone, PartialEq, Eq)]
pub struct FreezeFile {
    pub path: String,
    pub writable: bool,
}

/// The files at a place.
pub open spec fn files_at(
    files: Seq<FreezeFile>,
    root: Seq<char>,
    place: CgroupFreezerPreference,
) -> Seq<FreezeFile>
    decreases files.len(),
{
    if files.len() == 0 {
        seq![]
    } else {
        let rest = files_at(files.drop_last(), root, place);
        if place_of(files.last().path@, root) == place {
            rest.push(files.last())
        } else {
            rest
        }
    }
}

/// The paths of files that can be written.
pub open spec fn writable_paths(files: Seq<FreezeFile>) -> Seq<Seq<char>>
    decreases files.len(),
{
    if files.len() == 0 {
        seq![]
    } else {
        let rest = writable_paths(files.drop_last());
        if files.last().writable {
            rest.push(files.last().path@)
        } else {
            rest
        }
    }
}

/// A choice among places: what can be done there, and with which files.
#[verifier::ext_equal]
pub ghost struct Choice {
    pub status: CapabilityStatus,
    pub preference: CgroupFreezerPreference,
    pub paths: Seq<Seq<char>>,
    pub found: nat,
}

/// The first place with files that can be written; else the first place with files.
pub open spec fn chosen(files: Seq<FreezeFile>, root: Seq<char>) -> Choice {
    let apps = files_at(files, root, CgroupFreezerPreference::AndroidAppCgroupV2);
    let system = files_at(files, root, CgroupFreezerPreference::SystemCgroupV2);
    let generic = files_at(files, root, CgroupFreezerPreference::GenericCgroupV2);
    if writable_paths(apps).len() > 0 {
        usable(CgroupFreezerPreference::AndroidAppCgroupV2, apps)
    } else if writable_paths(system).len() > 0 {
        usable(CgroupFreezerPreference::SystemCgroupV2, system)
    } else if writable_paths(generic).len() > 0 {
        usable(CgroupFreezerPreference::GenericCgroupV2, generic)
    } else if apps.len() > 0 {
        unusable(CgroupFreezerPreference::AndroidAppCgroupV2, apps)
    } else if system.len() > 0 {
        unusable(CgroupFreezerPreference::SystemCgroupV2, system)
    } else if generic.len() > 0 {
        unusable(CgroupFreezerPreference::GenericCgroupV2, generic)
    } else {
        Choice {
            status: CapabilityStatus::Missing,
            preference: CgroupFreezerPreference::Missing,
            paths: seq![],
            found: 0,
        }
    }
}

/// A place whose files can be written.
pub open spec fn usable(preference: CgroupFreezerPreference, files: Seq<FreezeFile>) -> Choice {
    Choice {
        status: CapabilityStatus::Available,
        preference,
        paths: writable_paths(files),
        found: files.len(),
    }
}

/// A place whose files cannot be written.
pub open spec fn unusable(preference: CgroupFreezerPreference, files: Seq<FreezeFile>) -> Choice {
    Choice { status: CapabilityStatus::Degraded, preference, paths: seq![], found: files.len() }
}

/// The freezer is available only with a file that can be written.
pub proof fn available_freezer_is_writable(files: Seq<FreezeFile>, root: Seq<char>)
    ensures
        chosen(files, root).status == CapabilityStatus::Available <==> chosen(
            files,
            root,
        ).paths.len() > 0,
{
}

/// The files at a place: how many there are, and those that can be written.
fn select_at(files: &[FreezeFile], root: &str, place: CgroupFreezerPreference) -> (r: (
    usize,
    Vec<String>,
))
    ensures
        r.0 == files_at(files@, root@, place).len(),
        texts(r.1@) == writable_paths(files_at(files@, root@, place)),
{
    let mut found: usize = 0;
    let mut paths: Vec<String> = Vec::new();
    let mut i: usize = 0;
    assert(texts(paths@) =~= writable_paths(files_at(files@.take(0), root@, place)));
    while i < files.len()
        invariant
            i <= files@.len(),
            found <= i,
            found == files_at(files@.take(i as int), root@, place).len(),
            texts(paths@) == writable_paths(files_at(files@.take(i as int), root@, place)),
        decreases files@.len() - i,
    {
        assert(files@.take(i + 1).drop_last() =~= files@.take(i as int));
        if find_place(files[i].path.as_str(), root) == place {
            let ghost before = files_at(files@.take(i as int), root@, place);
            assert(before.push(files@[i as int]).drop_last() =~= before);
            found += 1;
            if files[i].writable {
                let ghost done = texts(paths@);
                let path = copy(files[i].path.as_str());
                paths.push(path);
                assert(texts(paths@) =~= done.push(path@));
            }
        }
        i += 1;
    }
    assert(files@.take(i as int) =~= files@);
    (found, paths)
}

/// The evidence for what the freezer can do.
pub open spec fn freezer_evidence(
    root: Seq<char>,
    has_freezer: bool,
    found: nat,
    writable: nat,
) -> Seq<char> {
    join_path(root, "cgroup.controllers"@) + " contains freezer="@ + (if has_freezer {
        "true"@
    } else {
        "false"@
    }) + "; freeze_files="@ + decimal(found) + "; writable_freeze_files="@ + decimal(writable)
}

fn has_word(s: &str, word: &str) -> (r: bool)
    ensures
        r == words(s@).contains(word@),
{
    let parts = split_words(s);
    let ghost all = texts(parts@);
    let mut i: usize = 0;
    while i < parts.len()
        invariant
            i <= parts@.len(),
            all == texts(parts@),
            all == words(s@),
            forall|k: int| 0 <= k < i ==> all[k] != word@,
        decreases parts@.len() - i,
    {
        assert(all[i as int] == parts@[i as int]@);
        if same(parts[i].as_str(), word) {
            return true;
        }
        i += 1;
    }
    false
}

/// Decides what the cgroup freezer can do, from the files found under its root.
pub fn detect_cgroup_v2_freezer_capability(
    cgroup_root: &str,
    controllers: &str,
    files: &[FreezeFile],
) -> (r: CgroupFreezerCapability)
    ensures
        ({
            let c = chosen(files@, cgroup_root@);
            &&& r.status == c.status
            &&& r.preference == c.preference
            &&& texts(r.freeze_files@) == c.paths
            &&& r.evidence@ == freezer_evidence(
                cgroup_root@,
                words(controllers@).contains("freezer"@),
                c.found,
                c.paths.len(),
            )
        }),
{
    let has_freezer = has_word(controllers, "freezer");
    let (apps_found, apps) = select_at(
        files,
        cgroup_root,
        CgroupFreezerPreference::AndroidAppCgroupV2,
    );
    let (system_found, system) = select_at(
        files,
        cgroup_root,
        CgroupFreezerPreference::SystemCgroupV2,
    );
    let (generic_found, generic) = select_at(
        files,
        cgroup_root,
        CgroupFreezerPreference::GenericCgroupV2,
    );
    assert(texts(apps@).len() == apps@.len());
    assert(texts(system@).len() == system@.len());
    assert(texts(generic@).len() == generic@.len());
    let (status, preference, freeze_files, found) = if apps.len() > 0 {
        (
            CapabilityStatus::Available,
            CgroupFreezerPreference::AndroidAppCgroupV2,
            apps,
            apps_found,
        )
    } else if system.len() > 0 {
        (
            CapabilityStatus::Available,
            CgroupFreezerPreference::SystemCgroupV2,
            system,
            system_found,
        )
    } else if generic.len() > 0 {
        (
            CapabilityStatus::Available,
            CgroupFreezerPreference::GenericCgroupV2,
            generic,
            generic_found,
        )
    } else if apps_found > 0 {
        (
            CapabilityStatus::Degraded,
            CgroupFreezerPreference::AndroidAppCgroupV2,
            apps,
            apps_found,
        )
    } else if system_found > 0 {
        (
            CapabilityStatus::Degraded,
            CgroupFreezerPreference::SystemCgroupV2,
            apps,
            system_found,
        )
    } else if generic_found > 0 {
        (
            CapabilityStatus::Degraded,
            CgroupFreezerPreference::GenericCgroupV2,
            apps,
            generic_found,
        )
    } else {
        (CapabilityStatus::Missing, CgroupFreezerPreference::Missing, apps, 0)
    };
    assert(texts(freeze_files@).len() == freeze_files@.len());
    assert(texts(freeze_files@) =~= chosen(files@, cgroup_root@).paths);
    let mut evidence = joined_path(cgroup_root, "cgroup.controllers");
    evidence.append(" contains freezer=");
    evidence.append(
        if has_freezer {
            "true"
        } else {
            "false"
        },
    );
    evidence.append("; freeze_files=");
    let part = number(found as u128);
    evidence.append(part.as_str());
    evidence.append("; writable_freeze_files=");
    let part = number(freeze_files.len() as u128);
    evidence.append(part.as_str());
    CgroupFreezerCapability { status, preference, freeze_files, evidence }
}

} // verus!
