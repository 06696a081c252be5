//! The text format of policies and labels.

use vstd::prelude::*;

use crate::app::error::DaemonError;

use crate::domain::policy::{legacy_policy, FreezePolicy, PolicyView};
use crate::text::{
    all_digits, begins, copy, lines, only_digits, parse_i32, parse_signed, parse_u32,
    parse_unsigned, same, split_at_text, split_lines, split_text, split_words, starts_with, texts,
    trim, trimmed, words,
};

verus! {

/// Brings the configuration to the current form; it is read as it is, so nothing changes.
pub fn migrate_legacy_config() -> (r: Result<(), DaemonError>)
    ensures
        r is Ok,
{
    Ok(())
}

/// The content of a line: nothing for a blank line or a comment.
pub open spec fn normal_line(line: Seq<char>) -> Option<Seq<char>> {
    let t = trim(line);
    if t.len() == 0 || starts_with(t, "#"@) {
        None
    } else {
        Some(t)
    }
}

/// The content of a line without the white space around it; nothing for a blank line or a
/// comment.
pub fn normalize_legacy_line(line: &str) -> (r: Option<String>)
    ensures
        match r {
            Some(s) => normal_line(line@) == Some(s@),
            None => normal_line(line@) is None,
        },
{
    let t = trimmed(line);
    if t.as_str().is_empty() || begins(t.as_str(), "#") {
        None
    } else {
        Some(t)
    }
}

/// One line of the policy file.
#[derive(Debug, Clone, PartialEq, Eq)]
pub struct LegacyPolicyRecord {
    pub package_or_uid: String,
    pub mode: i32,
    pub permissive: bool,
}

/// One line of the policy file as a value.
#[verifier::ext_equal]
pub ghost struct PolicyLine {
    pub package_or_uid: Seq<char>,
    pub mode: i32,
    pub permissive: bool,
}

impl View for LegacyPolicyRecord {
    type V = PolicyLine;

    open spec fn view(&self) -> PolicyLine {
        PolicyLine {
            package_or_uid: self.package_or_uid@,
            mode: self.mode,
            permissive: self.permissive,
        }
    }
}

/// What a policy applies to.
#[derive(Debug, Clone, PartialEq, Eq)]
pub enum LegacyPolicyTarget {
    Uid(u32),
    PackageName(String),
}

/// What a policy applies to, as a value.
#[verifier::ext_equal]
pub ghost enum TargetView {
    Uid(u32),
    PackageName(Seq<char>),
}

impl View for LegacyPolicyTarget {
    type V = TargetView;

    open spec fn view(&self) -> TargetView {
        match self {
            LegacyPolicyTarget::Uid(uid) => TargetView::Uid(*uid),
            LegacyPolicyTarget::PackageName(name) => TargetView::PackageName(name@),
        }
    }
}

/// One line of the label file.
#[derive(Debug, Clone, PartialEq, Eq)]
pub struct LegacyLabelRecord {
    pub package_name: String,
    pub label: String,
}

/// The package name and the label of a line.
pub open spec fn label_view(r: LegacyLabelRecord) -> (Seq<char>, Seq<char>) {
    (r.package_name@, r.label@)
}

/// The content of the configuration files.
#[derive(Debug, Clone, PartialEq, Eq)]
pub struct MigratedLegacyConfig {
    pub policies: Vec<(LegacyPolicyRecord, FreezePolicy)>,
    pub labels: Vec<LegacyLabelRecord>,
    pub settings: Vec<u8>,
}

/// The record on a line: a target, a mode, and whether the policy is permissive. It is, unless
/// a third word is `0`.
pub open spec fn policy_line(line: Seq<char>) -> Option<PolicyLine> {
    match normal_line(line) {
        None => None,
        Some(t) => {
            let parts = words(t);
            if parts.len() < 2 {
                None
            } else {
                match parse_signed(parts[1], i32::MIN as int, i32::MAX as int) {
                    None => None,
                    Some(mode) => Some(
                        PolicyLine {
                            package_or_uid: parts[0],
                            mode: mode as i32,
                            permissive: parts.len() < 3 || parts[2] != "0"@,
                        },
                    ),
                }
            }
        },
    }
}

/// Reads the record on a line of the policy file.
pub fn parse_legacy_policy_line(line: &str) -> (r: Option<LegacyPolicyRecord>)
    ensures
        match r {
            Some(record) => policy_line(line@) == Some(record@),
            None => policy_line(line@) is None,
        },
{
    let t = match normalize_legacy_line(line) {
        Some(t) => t,
        None => {
            return None;
        },
    };
    let parts = split_words(t.as_str());
    assert(texts(parts@).len() == parts@.len());
    assert(forall|i: int| 0 <= i < parts@.len() ==> texts(parts@)[i] == parts@[i]@);
    if parts.len() < 2 {
        return None;
    }
    let mode = match parse_i32(parts[1].as_str()) {
        Some(mode) => mode,
        None => {
            return None;
        },
    };
    let permissive = parts.len() < 3 || !same(parts[2].as_str(), "0");
    Some(LegacyPolicyRecord { package_or_uid: copy(parts[0].as_str()), mode, permissive })
}

/// The target that a token stands for: a uid as a number or as `NuidN` with the same number
/// twice, else a package name.
pub open spec fn policy_target(token: Seq<char>) -> Option<TargetView> {
    let t = trim(token);
    if t.len() == 0 {
        None
    } else {
        match parse_unsigned(t, u32::MAX as nat) {
            Some(uid) => Some(TargetView::Uid(uid as u32)),
            None => match split_text(t, "uid"@) {
                None => Some(TargetView::PackageName(t)),
                Some((a, b)) => if !all_digits(a) {
                    Some(TargetView::PackageName(t))
                } else {
                    match (
                        parse_unsigned(a, u32::MAX as nat),
                        parse_unsigned(b, u32::MAX as nat),
                    ) {
                        (Some(x), Some(y)) => if x == y {
                            Some(TargetView::Uid(x as u32))
                        } else {
                            None
                        },
                        _ => None,
                    }
                },
            },
        }
    }
}

/// Reads the target that a token stands for.
pub fn parse_legacy_policy_target(token: &str) -> (r: Option<LegacyPolicyTarget>)
    ensures
        match r {
            Some(target) => policy_target(token@) == Some(target@),
            None => policy_target(token@) is None,
        },
{
    let t = trimmed(token);
    if t.as_str().is_empty() {
        return None;
    }
    match parse_u32(t.as_str()) {
        Some(uid) => {
            return Some(LegacyPolicyTarget::Uid(uid));
        },
        None => {},
    }
    match split_at_text(t.as_str(), "uid") {
        None => Some(LegacyPolicyTarget::PackageName(t)),
        Some((legacy_uid, encoded_uid)) => {
            if !only_digits(legacy_uid.as_str()) {
                return Some(LegacyPolicyTarget::PackageName(t));
            }
            match (parse_u32(legacy_uid.as_str()), parse_u32(encoded_uid.as_str())) {
                (Some(a), Some(b)) => if a == b {
                    Some(LegacyPolicyTarget::Uid(a))
                } else {
                    None
                },
                _ => None,
            }
        },
    }
}

impl LegacyPolicyRecord {
    /// What this record applies to.
    pub fn target(&self) -> (r: Option<LegacyPolicyTarget>)
        ensures
            match r {
                Some(target) => policy_target(self@.package_or_uid) == Some(target@),
                None => policy_target(self@.package_or_uid) is None,
            },
    {
        parse_legacy_policy_target(self.package_or_uid.as_str())
    }
}

/// The label on a line: a package name and a label around `####`.
pub open spec fn label_line(line: Seq<char>) -> Option<(Seq<char>, Seq<char>)> {
    match normal_line(line) {
        None => None,
        Some(t) => match split_text(t, "####"@) {
            None => None,
            Some((a, b)) => if trim(a).len() == 0 || trim(b).len() == 0 {
                None
            } else {
                Some((trim(a), trim(b)))
            },
        },
    }
}

/// Reads the label on a line of the label file.
pub fn parse_legacy_label_line(line: &str) -> (r: Option<LegacyLabelRecord>)
    ensures
        match r {
            Some(record) => label_line(line@) == Some(label_view(record)),
            None => label_line(line@) is None,
        },
{
    let t = match normalize_legacy_line(line) {
        Some(t) => t,
        None => {
            return None;
        },
    };
    match split_at_text(t.as_str(), "####") {
        None => None,
        Some((a, b)) => {
            let package_name = trimmed(a.as_str());
            let label = trimmed(b.as_str());
            if package_name.as_str().is_empty() || label.as_str().is_empty() {
                None
            } else {
                Some(LegacyLabelRecord { package_name, label })
            }
        },
    }
}

/// The policy of a record.
pub fn migrate_legacy_policy(record: &LegacyPolicyRecord) -> (r: FreezePolicy)
    ensures
        r@ == legacy_policy(record@.mode, record@.permissive),
{
    FreezePolicy::from_legacy_mode(record.mode, record.permissive)
}

/// The records of the policy file that have a target, each with its policy.
pub open spec fn migrated_policies(rows: Seq<Seq<char>>) -> Seq<(PolicyLine, PolicyView)>
    decreases rows.len(),
{
    if rows.len() == 0 {
        seq![]
    } else {
        let rest = migrated_policies(rows.drop_last());
        match policy_line(rows.last()) {
            Some(record) => if policy_target(record.package_or_uid) is Some {
                rest.push((record, legacy_policy(record.mode, record.permissive)))
            } else {
                rest
            },
            None => rest,
        }
    }
}

/// The labels of the label file.
pub open spec fn migrated_labels(rows: Seq<Seq<char>>) -> Seq<(Seq<char>, Seq<char>)>
    decreases rows.len(),
{
    if rows.len() == 0 {
        seq![]
    } else {
        let rest = migrated_labels(rows.drop_last());
        match label_line(rows.last()) {
            Some(label) => rest.push(label),
            None => rest,
        }
    }
}

/// Policies as values.
pub open spec fn policy_pairs(v: Seq<(LegacyPolicyRecord, FreezePolicy)>) -> Seq<
    (PolicyLine, PolicyView),
> {
    v.map_values(|p: (LegacyPolicyRecord, FreezePolicy)| (p.0@, p.1@))
}

/// Labels as values.
pub open spec fn label_pairs(v: Seq<LegacyLabelRecord>) -> Seq<(Seq<char>, Seq<char>)> {
    v.map_values(|r: LegacyLabelRecord| label_view(r))
}

/// Reads the configuration files.
pub fn migrate_legacy_files(app_config: &str, app_label: &str, settings: &[u8]) -> (r:
    MigratedLegacyConfig)
    ensures
        policy_pairs(r.policies@) == migrated_policies(lines(app_config@)),
        label_pairs(r.labels@) == migrated_labels(lines(app_label@)),
        r.settings@ == settings@,
{
    let rows = split_lines(app_config);
    let ghost all = texts(rows@);
    let mut policies: Vec<(LegacyPolicyRecord, FreezePolicy)> = Vec::new();
    let mut i: usize = 0;
    assert(policy_pairs(policies@) =~= migrated_policies(all.take(0)));
    while i < rows.len()
        invariant
            i <= rows@.len(),
            all == texts(rows@),
            policy_pairs(policies@) == migrated_policies(all.take(i as int)),
        decreases rows@.len() - i,
    {
        assert(all.take(i + 1).drop_last() =~= all.take(i as int));
        assert(all.take(i + 1).last() == rows@[i as int]@);
        match parse_legacy_policy_line(rows[i].as_str()) {
            Some(record) => {
                if record.target().is_some() {
                    let policy = migrate_legacy_policy(&record);
                    let ghost done = policy_pairs(policies@);
                    policies.push((record, policy));
                    assert(policy_pairs(policies@) =~= done.push((record@, policy@)));
                }
            },
            None => {},
        }
        i += 1;
    }
    assert(all.take(i as int) =~= all);
    let label_rows = split_lines(app_label);
    let ghost all_labels = texts(label_rows@);
    let mut labels: Vec<LegacyLabelRecord> = Vec::new();
    let mut k: usize = 0;
    assert(label_pairs(labels@) =~= migrated_labels(all_labels.take(0)));
    while k < label_rows.len()
        invariant
            k <= label_rows@.len(),
            all_labels == texts(label_rows@),
            label_pairs(labels@) == migrated_labels(all_labels.take(k as int)),
        decreases label_rows@.len() - k,
    {
        assert(all_labels.take(k + 1).drop_last() =~= all_labels.take(k as int));
        assert(all_labels.take(k + 1).last() == label_rows@[k as int]@);
        match parse_legacy_label_line(label_rows[k].as_str()) {
            Some(record) => {
                let ghost done = label_pairs(labels@);
                labels.push(record);
                assert(label_pairs(labels@) =~= done.push(label_view(record)));
            },
            None => {},
        }
        k += 1;
    }
    assert(all_labels.take(k as int) =~= all_labels);
    MigratedLegacyConfig { policies, labels, settings: copy_bytes(settings) }
}

/// A copy of some bytes.
pub fn copy_bytes(bytes: &[u8]) -> (r: Vec<u8>)
    ensures
        r@ == bytes@,
{
    let mut out: Vec<u8> = Vec::new();
    let mut i: usize = 0;
    while i < bytes.len()
        invariant
            i <= bytes@.len(),
            out@ == bytes@.take(i as int),
        decreases bytes@.len() - i,
    {
        out.push(bytes[i]);
        assert(bytes@.take(i + 1) =~= bytes@.take(i as int).push(bytes@[i as int]));
        i += 1;
    }
    assert(bytes@.take(i as int) =~= bytes@);
    out
}

} // verus!
