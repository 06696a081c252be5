//! The packages that are installed.

use vstd::prelude::*;
use vstd::string::*;

use crate::app::command_runner::CommandOutput;
use crate::domain::policy::{AppView, ManagedApp};
use crate::text::{
    after_prefix, decimal, lines, lossy, lossy_text, number, parse_u32, parse_unsigned, same,
    split_at_char, split_lines, split_once, split_words, strip_prefix, text, texts, words,
};

verus! {

/// An installed package and its uid.
#[derive(Debug, Clone, PartialEq, Eq)]
pub struct PackageRecord {
    pub package_name: String,
    pub uid: u32,
}

impl View for PackageRecord {
    type V = (Seq<char>, u32);

    open spec fn view(&self) -> (Seq<char>, u32) {
        (self.package_name@, self.uid)
    }
}

/// Packages as values.
pub open spec fn package_views(v: Seq<PackageRecord>) -> Seq<(Seq<char>, u32)> {
    v.map_values(|p: PackageRecord| p@)
}

/// The text before a comma, or all of it.
pub open spec fn first_item(s: Seq<char>) -> Seq<char> {
    match split_once(s, ',') {
        Some((head, _)) => head,
        None => s,
    }
}

/// The package on a line of the package manager: `package:NAME uid:UID`.
pub open spec fn package_line(line: Seq<char>) -> Option<(Seq<char>, u32)> {
    let parts = words(line);
    if parts.len() < 2 {
        None
    } else {
        match (strip_prefix(parts[0], "package:"@), strip_prefix(parts[1], "uid:"@)) {
            (Some(name), Some(uid)) => match parse_unsigned(first_item(uid), u32::MAX as nat) {
                Some(n) => if name.len() > 0 {
                    Some((name, n as u32))
                } else {
                    None
                },
                None => None,
            },
            _ => None,
        }
    }
}

/// The packages on lines.
pub open spec fn packages_of(rows: Seq<Seq<char>>) -> Seq<(Seq<char>, u32)>
    decreases rows.len(),
{
    if rows.len() == 0 {
        seq![]
    } else {
        let rest = packages_of(rows.drop_last());
        match package_line(rows.last()) {
            Some(p) => rest.push(p),
            None => rest,
        }
    }
}

fn read_package_line(line: &str) -> (r: Option<PackageRecord>)
    ensures
        match r {
            Some(p) => package_line(line@) == Some(p@),
            None => package_line(line@) is None,
        },
{
    let parts = split_words(line);
    assert(texts(parts@).len() == parts@.len());
    if parts.len() < 2 {
        return None;
    }
    assert(texts(parts@)[0] == parts@[0]@);
    assert(texts(parts@)[1] == parts@[1]@);
    match (after_prefix(parts[0].as_str(), "package:"), after_prefix(parts[1].as_str(), "uid:")) {
        (Some(package_name), Some(uid)) => {
            let item = match split_at_char(uid.as_str(), ',') {
                Some((head, _)) => head,
                None => uid,
            };
            match parse_u32(item.as_str()) {
                Some(uid) => if package_name.as_str().is_empty() {
                    None
                } else {
                    Some(PackageRecord { package_name, uid })
                },
                None => None,
            }
        },
        _ => None,
    }
}

/// Reads the list of the package manager.
pub fn parse_cmd_package_list(output: &str) -> (r: Vec<PackageRecord>)
    ensures
        package_views(r@) == packages_of(lines(output@)),
{
    let rows = split_lines(output);
    let ghost all = texts(rows@);
    let mut out: Vec<PackageRecord> = Vec::new();
    let mut i: usize = 0;
    assert(package_views(out@) =~= packages_of(all.take(0)));
    while i < rows.len()
        invariant
            i <= rows@.len(),
            all == texts(rows@),
            package_views(out@) == packages_of(all.take(i as int)),
        decreases rows@.len() - i,
    {
        assert(all.take(i + 1).drop_last() =~= all.take(i as int));
        assert(all.take(i + 1).last() == rows@[i as int]@);
        match read_package_line(rows[i].as_str()) {
            Some(p) => {
                let ghost done = package_views(out@);
                out.push(p);
                assert(package_views(out@) =~= done.push(p@));
            },
            None => {},
        }
        i += 1;
    }
    assert(all.take(i as int) =~= all);
    out
}

/// The uid of the first package with a name.
pub open spec fn first_uid(packages: Seq<(Seq<char>, u32)>, name: Seq<char>) -> Option<u32>
    decreases packages.len(),
{
    if packages.len() == 0 {
        None
    } else if packages[0].0 == name {
        Some(packages[0].1)
    } else {
        first_uid(packages.skip(1), name)
    }
}

/// The uid of the last package with a name.
pub open spec fn last_uid(packages: Seq<(Seq<char>, u32)>, name: Seq<char>) -> Option<u32>
    decreases packages.len(),
{
    if packages.len() == 0 {
        None
    } else if packages.last().0 == name {
        Some(packages.last().1)
    } else {
        last_uid(packages.drop_last(), name)
    }
}

/// Finds the uid of the first package with a name.
pub fn find_first_uid(packages: &[PackageRecord], name: &str) -> (r: Option<u32>)
    ensures
        r == first_uid(package_views(packages@), name@),
{
    let ghost all = package_views(packages@);
    let mut i: usize = 0;
    assert(all.skip(0) =~= all);
    while i < packages.len()
        invariant
            i <= packages@.len(),
            all == package_views(packages@),
            first_uid(all, name@) == first_uid(all.skip(i as int), name@),
        decreases packages@.len() - i,
    {
        assert(all.skip(i as int)[0] == packages@[i as int]@);
        assert(all.skip(i as int).skip(1) =~= all.skip(i + 1));
        if same(packages[i].package_name.as_str(), name) {
            return Some(packages[i].uid);
        }
        i += 1;
    }
    None
}

/// Finds the uid of the last package with a name.
pub fn find_last_uid(packages: &[PackageRecord], name: &str) -> (r: Option<u32>)
    ensures
        r == last_uid(package_views(packages@), name@),
{
    let ghost all = package_views(packages@);
    let mut n: usize = packages.len();
    assert(all.take(n as int) =~= all);
    while n > 0
        invariant
            n <= packages@.len(),
            all == package_views(packages@),
            last_uid(all, name@) == last_uid(all.take(n as int), name@),
        decreases n,
    {
        assert(all.take(n as int).last() == packages@[n - 1]@);
        assert(all.take(n as int).drop_last() =~= all.take(n - 1));
        if same(packages[n - 1].package_name.as_str(), name) {
            return Some(packages[n - 1].uid);
        }
        n -= 1;
    }
    None
}

/// Why an application is not the installed package that it was.
pub open spec fn mismatch(app: AppView, package: (Seq<char>, u32)) -> Option<Seq<char>> {
    if app.package_name != package.0 {
        Some(
            "package identity changed: "@ + app.package_name + " is now "@ + package.0,
        )
    } else if app.uid != package.1 {
        Some(
            "uid changed for "@ + app.package_name + ": "@ + decimal(app.uid as nat) + " is now "@
                + decimal(package.1 as nat),
        )
    } else {
        None
    }
}

/// Refuses an application that is not the installed package that it was.
pub fn reconcile_uid(app: &ManagedApp, current: &PackageRecord) -> (r: Result<(), String>)
    ensures
        match mismatch(app@, current@) {
            None => r is Ok,
            Some(why) => r matches Err(s) && s@ == why,
        },
{
    if !same(app.package_name.as_str(), current.package_name.as_str()) {
        let mut why = text("package identity changed: ");
        why.append(app.package_name.as_str());
        why.append(" is now ");
        why.append(current.package_name.as_str());
        return Err(why);
    }
    if app.uid != current.uid {
        let mut why = text("uid changed for ");
        why.append(app.package_name.as_str());
        why.append(": ");
        let part = number(app.uid as u128);
        why.append(part.as_str());
        why.append(" is now ");
        let part = number(current.uid as u128);
        why.append(part.as_str());
        return Err(why);
    }
    Ok(())
}

/// The packages in the output of a command, if it has any.
pub fn packages_from_output(output: &CommandOutput) -> (r: Option<Vec<PackageRecord>>)
    ensures
        match r {
            Some(v) => output.status.success && package_views(v@) == packages_of(
                lines(lossy_text(output.stdout@)),
            ) && v@.len() > 0,
            None => !output.status.success || packages_of(
                lines(lossy_text(output.stdout@)),
            ).len() == 0,
        },
{
    if !output.status.success {
        return None;
    }
    let listing = lossy(output.stdout.as_slice());
    let packages = parse_cmd_package_list(listing.as_str());
    assert(package_views(packages@).len() == packages@.len());
    if packages.len() == 0 {
        None
    } else {
        Some(packages)
    }
}

} // verus!
