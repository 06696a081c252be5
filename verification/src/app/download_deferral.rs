//! Postponing the freeze of applications that are downloading.

use std::collections::BTreeMap;
use vstd::prelude::*;
use vstd::string::*;

use crate::app::command_runner::CommandOutput;
use crate::app::error::{DaemonError, ErrorView};
use crate::text::{
    chars_of, contains, has, lines, lossy, lossy_text, lower, parse_u32, parse_u64, parse_unsigned,
    same, split_lines, split_words, text, texts, to_lower_char, trim, trimmed, words,
};

verus! {

broadcast use {
    vstd::std_specs::btree::group_btree_axioms,
    vstd::laws_cmp::group_laws_cmp,
};

/// Receive rates above this postpone a freeze.
pub const DOWNLOAD_THRESHOLD_BYTES_PER_SEC: u64 = 5_242_880;

/// Delay until the next attempt after a failed sample.
pub const DOWNLOAD_RETRY_DELAY_MS: u64 = 30_000;

/// Delay until the next attempt after a sample.
pub const INITIAL_SAMPLE_DELAY_MS: u64 = 1_000;

/// Whether a freeze may proceed.
#[derive(Debug, Clone, Copy, PartialEq, Eq, Structural)]
pub enum DownloadDeferralAction {
    Proceed,
    Postpone,
}

/// The received bytes of a uid, as far as they could be read.
#[derive(Debug, Clone, Copy, PartialEq, Eq, Structural)]
pub enum UidRxSample {
    Value(u64),
    Missing,
    Failed,
}

/// A reading of the received bytes.
#[derive(Debug, Clone, Copy, PartialEq, Eq, Structural)]
pub struct Sample {
    pub rx_bytes: u64,
    pub sampled_at_ms: u128,
}

/// The last readings by uid.
#[derive(Debug, PartialEq, Eq)]
pub struct DownloadDeferral {
    samples: BTreeMap<u32, Sample>,
}

impl View for DownloadDeferral {
    type V = Map<u32, Sample>;

    closed spec fn view(&self) -> Map<u32, Sample> {
        self.samples@
    }
}

/// The package name patterns of download applications.
pub open spec fn candidate_patterns() -> Seq<Seq<char>> {
    seq![
        "baidu.netdisk"@,
        "quark.clouddrive"@,
        "com.google.android.apps.docs"@,
        "pikpak"@,
        "com.trim.app"@,
    ]
}

/// A package whose lower-case name contains one of the patterns.
pub open spec fn is_candidate(package: Seq<char>) -> bool {
    exists|i: int|
        0 <= i < candidate_patterns().len() && contains(
            lower(package),
            #[trigger] candidate_patterns()[i],
        )
}

/// The mean receive rate between two readings, in bytes per second.
pub open spec fn rate(previous: Sample, now: Sample) -> int {
    (now.rx_bytes - previous.rx_bytes) * 1000 / (now.sampled_at_ms - previous.sampled_at_ms)
}

/// Whether the reading after `previous` shows that the download is over: time has passed, the
/// counter did not go back and the rate is not above the threshold.
pub open spec fn idle(previous: Sample, now: Sample) -> bool {
    &&& now.sampled_at_ms > previous.sampled_at_ms
    &&& now.rx_bytes >= previous.rx_bytes
    &&& rate(previous, now) <= DOWNLOAD_THRESHOLD_BYTES_PER_SEC
}

/// The decision for one attempt to freeze, and the readings kept after it.
pub open spec fn deferral(
    samples: Map<u32, Sample>,
    uid: u32,
    package: Seq<char>,
    sample: UidRxSample,
    at: u128,
) -> (Map<u32, Sample>, DownloadDeferralAction) {
    if !is_candidate(package) {
        (samples.remove(uid), DownloadDeferralAction::Proceed)
    } else {
        match sample {
            UidRxSample::Value(rx_bytes) => {
                let now = Sample { rx_bytes, sampled_at_ms: at };
                (
                    samples.insert(uid, now),
                    if samples.contains_key(uid) && idle(samples[uid], now) {
                        DownloadDeferralAction::Proceed
                    } else {
                        DownloadDeferralAction::Postpone
                    },
                )
            },
            _ => (samples, DownloadDeferralAction::Postpone),
        }
    }
}

/// A download application is never frozen without a reading: a failed or missing sample
/// postpones and keeps the readings.
pub proof fn sampling_failure_is_fail_safe(
    samples: Map<u32, Sample>,
    uid: u32,
    package: Seq<char>,
    sample: UidRxSample,
    at: u128,
)
    requires
        is_candidate(package),
        !(sample is Value),
    ensures
        deferral(samples, uid, package, sample, at) == (samples, DownloadDeferralAction::Postpone),
{
}

/// The first reading of a download application never lets it be frozen.
pub proof fn first_sample_postpones(
    samples: Map<u32, Sample>,
    uid: u32,
    package: Seq<char>,
    sample: UidRxSample,
    at: u128,
)
    requires
        is_candidate(package),
        !samples.contains_key(uid),
    ensures
        deferral(samples, uid, package, sample, at).1 == DownloadDeferralAction::Postpone,
{
}

impl Default for DownloadDeferral {
    fn default() -> (r: Self)
        ensures
            r@ == Map::<u32, Sample>::empty(),
    {
        DownloadDeferral { samples: BTreeMap::new() }
    }
}

impl DownloadDeferral {
    /// Forgets the reading of a uid.
    pub fn clear_uid(&mut self, uid: u32)
        ensures
            final(self)@ == old(self)@.remove(uid),
    {
        self.samples.remove(&uid);
    }

    /// Decides whether the freeze of a package may proceed, and keeps the reading.
    pub fn evaluate(
        &mut self,
        uid: u32,
        package_name: &str,
        sample: UidRxSample,
        sampled_at_ms: u128,
    ) -> (r: DownloadDeferralAction)
        ensures
            (final(self)@, r) == deferral(old(self)@, uid, package_name@, sample, sampled_at_ms),
    {
        if !is_candidate_package(package_name) {
            self.samples.remove(&uid);
            return DownloadDeferralAction::Proceed;
        }
        let rx_bytes = match sample {
            UidRxSample::Value(rx_bytes) => rx_bytes,
            _ => {
                return DownloadDeferralAction::Postpone;
            },
        };
        let previous = match self.samples.insert(uid, Sample { rx_bytes, sampled_at_ms }) {
            Some(previous) => previous,
            None => {
                return DownloadDeferralAction::Postpone;
            },
        };
        if sampled_at_ms <= previous.sampled_at_ms || rx_bytes < previous.rx_bytes {
            return DownloadDeferralAction::Postpone;
        }
        let elapsed_ms: u128 = sampled_at_ms - previous.sampled_at_ms;
        let received: u128 = (rx_bytes - previous.rx_bytes) as u128;
        let bytes_per_second: u128 = received * 1_000 / elapsed_ms;
        if bytes_per_second > DOWNLOAD_THRESHOLD_BYTES_PER_SEC as u128 {
            DownloadDeferralAction::Postpone
        } else {
            DownloadDeferralAction::Proceed
        }
    }
}

/// Whether a package is a download application.
pub fn is_candidate_package(package_name: &str) -> (r: bool)
    ensures
        r == is_candidate(package_name@),
{
    let x = chars_of(package_name);
    let mut name = String::new();
    let mut i: usize = 0;
    while i < x.len()
        invariant
            i <= x@.len(),
            x@ == package_name@,
            name@ == lower(x@).take(i as int),
        decreases x@.len() - i,
    {
        name.push(to_lower_char(x[i]));
        assert(lower(x@).take(i + 1) =~= lower(x@).take(i as int).push(lower(x@)[i as int]));
        i += 1;
    }
    assert(name@ =~= lower(package_name@));
    let patterns = [
        "baidu.netdisk",
        "quark.clouddrive",
        "com.google.android.apps.docs",
        "pikpak",
        "com.trim.app",
    ];
    let mut k: usize = 0;
    while k < 5
        invariant
            k <= 5,
            name@ == lower(package_name@),
            candidate_patterns().len() == 5,
            forall|j: int| 0 <= j < 5 ==> patterns@[j]@ == #[trigger] candidate_patterns()[j],
            forall|j: int|
                0 <= j < k ==> !contains(lower(package_name@), #[trigger] candidate_patterns()[j]),
        decreases 5 - k,
    {
        if has(name.as_str(), patterns[k]) {
            assert(contains(lower(package_name@), candidate_patterns()[k as int]));
            return true;
        }
        k += 1;
    }
    false
}

/// The uid and received bytes that a row of the table gives.
pub open spec fn rx_row(line: Seq<char>) -> Option<(u32, u64)> {
    let fields = words(line);
    if fields.len() < 2 {
        None
    } else {
        match (
            parse_unsigned(fields[0], u32::MAX as nat),
            parse_unsigned(fields[1], u64::MAX as nat),
        ) {
            (Some(uid), Some(rx)) => Some((uid as u32, rx as u64)),
            _ => None,
        }
    }
}

/// The table read from trimmed lines: rows count between the `mAppUidStatsMap:` heading and
/// the `mStatsMapA:` heading, later rows replace earlier ones.
pub open spec fn rx_table(
    rows: Seq<Seq<char>>,
    inside: bool,
    values: Map<u32, u64>,
) -> Map<u32, u64>
    decreases rows.len(),
{
    if rows.len() == 0 {
        values
    } else {
        let line = trim(rows[0]);
        let rest = rows.skip(1);
        if line == "mAppUidStatsMap:"@ {
            rx_table(rest, true, values)
        } else if inside && line == "mStatsMapA:"@ {
            values
        } else if !inside {
            rx_table(rest, inside, values)
        } else {
            match rx_row(line) {
                Some((uid, rx)) => rx_table(rest, inside, values.insert(uid, rx)),
                None => rx_table(rest, inside, values),
            }
        }
    }
}

/// The received bytes by uid in a network statistics report.
pub open spec fn uid_rx_bytes(report: Seq<char>) -> Map<u32, u64> {
    rx_table(lines(report), false, Map::empty())
}

/// Reads the received bytes by uid from a network statistics report.
pub fn parse_uid_rx_bytes(netstats: &str) -> (r: Result<BTreeMap<u32, u64>, DaemonError>)
    ensures
        match r {
            Ok(values) => values@ == uid_rx_bytes(netstats@) && !values@.is_empty(),
            Err(e) => uid_rx_bytes(netstats@).is_empty() && e@ == ErrorView::System(
                "Android netstats UID rx table unavailable"@,
            ),
        },
{
    let rows = split_lines(netstats);
    let ghost all = texts(rows@);
    let mut values: BTreeMap<u32, u64> = BTreeMap::new();
    let mut in_uid_table = false;
    let mut i: usize = 0;
    let mut ended = false;
    assert(all.skip(0) =~= all);
    while i < rows.len() && !ended
        invariant
            i <= rows@.len(),
            all == texts(rows@),
            !ended ==> rx_table(all, false, Map::empty()) == rx_table(
                all.skip(i as int),
                in_uid_table,
                values@,
            ),
            ended ==> rx_table(all, false, Map::empty()) == values@,
        decreases rows@.len() - i, if ended { 0int } else { 1int },
    {
        let line = trimmed(rows[i].as_str());
        let ghost rest = all.skip(i as int);
        assert(rest[0] == rows@[i as int]@);
        assert(rest.skip(1) =~= all.skip(i + 1));
        if same(line.as_str(), "mAppUidStatsMap:") {
            in_uid_table = true;
            i += 1;
            continue;
        }
        if in_uid_table && same(line.as_str(), "mStatsMapA:") {
            ended = true;
            continue;
        }
        if !in_uid_table {
            i += 1;
            continue;
        }
        let fields = split_words(line.as_str());
        assert(texts(fields@).len() == fields@.len());
        if fields.len() >= 2 {
            let uid = parse_u32(fields[0].as_str());
            let rx_bytes = parse_u64(fields[1].as_str());
            if let Some(uid) = uid {
                if let Some(rx_bytes) = rx_bytes {
                    values.insert(uid, rx_bytes);
                }
            }
        }
        i += 1;
    }
    assert(!ended ==> all.skip(i as int).len() == 0);
    if values.is_empty() {
        Err(DaemonError::system("Android netstats UID rx table unavailable"))
    } else {
        Ok(values)
    }
}

/// The received bytes by uid that the network statistics command tells.
pub open spec fn rx_sample(success: bool, stdout: Seq<u8>, stderr: Seq<u8>) -> Result<
    Map<u32, u64>,
    ErrorView,
> {
    if !success {
        Err(ErrorView::System("dumpsys netstats failed: "@ + trim(lossy_text(stderr))))
    } else if uid_rx_bytes(lossy_text(stdout)).is_empty() {
        Err(ErrorView::System("Android netstats UID rx table unavailable"@))
    } else {
        Ok(uid_rx_bytes(lossy_text(stdout)))
    }
}

/// Reads the output of the network statistics command.
pub fn sample_uid_rx_bytes_map(output: &CommandOutput) -> (r: Result<
    BTreeMap<u32, u64>,
    DaemonError,
>)
    ensures
        match rx_sample(output.status.success, output.stdout@, output.stderr@) {
            Ok(values) => r matches Ok(v) && v@ == values,
            Err(error) => r matches Err(e) && e@ == error,
        },
{
    if !output.status.success {
        let stderr = lossy(output.stderr.as_slice());
        let why = trimmed(stderr.as_str());
        let mut message = text("dumpsys netstats failed: ");
        message.append(why.as_str());
        return Err(DaemonError::system(message.as_str()));
    }
    let stdout = lossy(output.stdout.as_slice());
    parse_uid_rx_bytes(stdout.as_str())
}

/// The received bytes of one uid in the output of the network statistics command.
pub fn sample_uid_rx_bytes(output: &CommandOutput, uid: u32) -> (r: Result<
    Option<u64>,
    DaemonError,
>)
    ensures
        match rx_sample(output.status.success, output.stdout@, output.stderr@) {
            Ok(values) => r matches Ok(v) && v == if values.contains_key(uid) {
                Some(values[uid])
            } else {
                None
            },
            Err(error) => r matches Err(e) && e@ == error,
        },
{
    match sample_uid_rx_bytes_map(output) {
        Ok(values) => match values.get(&uid) {
            Some(n) => Ok(Some(*n)),
            None => Ok(None),
        },
        Err(e) => Err(e),
    }
}

} // verus!
