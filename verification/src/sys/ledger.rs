//! The ledger of processes stopped by signal.
//!
//! The main ledger names every process that was stopped, by pid and start time. A sidecar names
//! the ones that only a signal holds, and binds each claim to the generation of the main ledger
//! file: a claim made for another generation proves nothing.

use vstd::prelude::*;
use vstd::string::*;

use crate::app::error::{outcome, DaemonError, ErrorView};
use crate::domain::identity::push_members;
use crate::domain::ordered::{
    ascending, ascending_has_no_repeats, finite_set_has_order, in_order, views, MapKey, OrderedMap,
};
use crate::sys::procfs::{
    parse_proc_state_char, parse_process_pid, parse_process_start_time, stat_pid,
    stat_start_time, stat_state, SignalStopOwnership,
};
use crate::text::{
    decimal, index_is, is_digit, is_space, is_word, line_block, lines, lines_read_back, number,
    parse_i32, plain_row, signed_reads_back, unsigned_reads_back, words_of_word,
    words_of_word_and_rest, parse_signed, parse_u64,
    parse_unsigned, same, signed_decimal, signed_number, split_at_char, split_lines, split_once,
    split_words, texts, words, write_lines,
};

verus! {

/// A stopped process: pid and start time.
pub type SignalStopIdentity = (i32, u64);

impl MapKey for SignalStopIdentity {
    open spec fn precedes(a: (i32, u64), b: (i32, u64)) -> bool {
        a.0 < b.0 || (a.0 == b.0 && a.1 < b.1)
    }

    proof fn order_laws(a: (i32, u64), b: (i32, u64), c: (i32, u64)) {
    }

    fn stands_before(&self, other: &Self) -> (r: bool) {
        self.0 < other.0 || (self.0 == other.0 && self.1 < other.1)
    }

    fn same_as(&self, other: &Self) -> (r: bool) {
        self.0 == other.0 && self.1 == other.1
    }

    fn duplicate(&self) -> (r: Self) {
        (self.0, self.1)
    }
}

/// How a process stands in the main ledger. Only a single entry of exactly two fields can
/// support a claim of the sidecar.
#[derive(Debug, Clone, Copy, PartialEq, Eq, Structural)]
pub enum SignalStopLedgerRecord {
    Canonical,
    ResidualUnknown,
}

/// What identifies one version of the main ledger file.
#[derive(Debug, Clone, Copy, PartialEq, Eq, Structural)]
pub struct SignalStopLedgerGeneration {
    pub device: u64,
    pub inode: u64,
}

/// A claim of the sidecar.
#[derive(Debug, Clone, Copy, PartialEq, Eq, Structural)]
pub enum SignalStopProvenanceRecord {
    SignalOnly(SignalStopLedgerGeneration),
    Invalid,
}

/// The content of a file, as far as it could be read.
#[derive(Debug)]
pub enum FileText {
    Missing,
    Text(String),
    Unreadable(DaemonError),
}

// ---------------------------------------------------------------------------
// The main ledger
// ---------------------------------------------------------------------------

/// The entry that a line of the main ledger makes.
pub open spec fn ledger_line(line: Seq<char>) -> Option<((i32, u64), SignalStopLedgerRecord)> {
    let fields = words(line);
    if fields.len() < 2 {
        None
    } else {
        match (
            parse_signed(fields[0], i32::MIN as int, i32::MAX as int),
            parse_unsigned(fields[1], u64::MAX as nat),
        ) {
            (Some(pid), Some(start)) => Some(
                (
                    (pid as i32, start as u64),
                    if fields.len() == 2 {
                        SignalStopLedgerRecord::Canonical
                    } else {
                        SignalStopLedgerRecord::ResidualUnknown
                    },
                ),
            ),
            _ => None,
        }
    }
}

/// The entries after a line: a second entry for a process makes it unclear.
pub open spec fn with_ledger_line(
    m: Map<(i32, u64), SignalStopLedgerRecord>,
    line: Seq<char>,
) -> Map<(i32, u64), SignalStopLedgerRecord> {
    match ledger_line(line) {
        None => m,
        Some((id, record)) => m.insert(
            id,
            if m.contains_key(id) {
                SignalStopLedgerRecord::ResidualUnknown
            } else {
                record
            },
        ),
    }
}

/// The entries of lines of the main ledger.
pub open spec fn ledger_entries(rows: Seq<Seq<char>>) -> Map<(i32, u64), SignalStopLedgerRecord>
    decreases rows.len(),
{
    if rows.len() == 0 {
        Map::empty()
    } else {
        with_ledger_line(ledger_entries(rows.drop_last()), rows.last())
    }
}

/// The entries of the main ledger. A missing file is an empty one.
pub open spec fn ledger_of(file: FileText) -> Result<
    Map<(i32, u64), SignalStopLedgerRecord>,
    ErrorView,
> {
    match file {
        FileText::Missing => Ok(Map::empty()),
        FileText::Text(t) => Ok(ledger_entries(lines(t@))),
        FileText::Unreadable(e) => Err(e@),
    }
}

fn read_ledger_line(line: &str) -> (r: Option<(SignalStopIdentity, SignalStopLedgerRecord)>)
    ensures
        r == ledger_line(line@),
{
    let fields = split_words(line);
    assert(texts(fields@).len() == fields@.len());
    if fields.len() < 2 {
        return None;
    }
    assert(texts(fields@)[0] == fields@[0]@);
    assert(texts(fields@)[1] == fields@[1]@);
    match (parse_i32(fields[0].as_str()), parse_u64(fields[1].as_str())) {
        (Some(pid), Some(start)) => Some(
            (
                (pid, start),
                if fields.len() == 2 {
                    SignalStopLedgerRecord::Canonical
                } else {
                    SignalStopLedgerRecord::ResidualUnknown
                },
            ),
        ),
        _ => None,
    }
}

fn parse_ledger(content: &str) -> (r: OrderedMap<SignalStopIdentity, SignalStopLedgerRecord>)
    ensures
        r@ == ledger_entries(lines(content@)),
{
    let rows = split_lines(content);
    let ghost all = texts(rows@);
    let mut records: OrderedMap<SignalStopIdentity, SignalStopLedgerRecord> = OrderedMap::new();
    let mut i: usize = 0;
    while i < rows.len()
        invariant
            i <= rows@.len(),
            all == texts(rows@),
            records@ == ledger_entries(all.take(i as int)),
        decreases rows@.len() - i,
    {
        assert(all.take(i + 1).drop_last() =~= all.take(i as int));
        assert(all.take(i + 1).last() == rows@[i as int]@);
        match read_ledger_line(rows[i].as_str()) {
            None => {},
            Some((id, record)) => {
                let known = records.contains(&id);
                let record = if known {
                    SignalStopLedgerRecord::ResidualUnknown
                } else {
                    record
                };
                records.insert(id, record);
            },
        }
        i += 1;
    }
    assert(all.take(i as int) =~= all);
    records
}

/// Reads the main ledger.
pub fn read_signal_stop_ledger(file: &FileText) -> (r: Result<
    OrderedMap<SignalStopIdentity, SignalStopLedgerRecord>,
    DaemonError,
>)
    ensures
        match r {
            Ok(m) => ledger_of(*file) == Ok::<
                Map<(i32, u64), SignalStopLedgerRecord>,
                ErrorView,
            >(m@),
            Err(e) => ledger_of(*file) == Err::<
                Map<(i32, u64), SignalStopLedgerRecord>,
                ErrorView,
            >(e@),
        },
{
    match file {
        FileText::Missing => Ok(OrderedMap::new()),
        FileText::Text(t) => Ok(parse_ledger(t.as_str())),
        FileText::Unreadable(e) => Err(copy_error(e)),
    }
}

/// A copy of an error.
pub fn copy_error(e: &DaemonError) -> (r: DaemonError)
    ensures
        r@ == e@,
{
    match e {
        DaemonError::Io(f) => DaemonError::io(f.kind, f.message.as_str()),
        DaemonError::Config(m) => DaemonError::config(m.as_str()),
        DaemonError::Protocol(m) => DaemonError::protocol(m.as_str()),
        DaemonError::System(m) => DaemonError::system(m.as_str()),
    }
}

// ---------------------------------------------------------------------------
// The sidecar
// ---------------------------------------------------------------------------

/// The generation that a token `device:inode` stands for.
pub open spec fn token_generation(token: Seq<char>) -> Option<SignalStopLedgerGeneration> {
    match split_once(token, ':') {
        None => None,
        Some((device, inode)) => match (
            parse_unsigned(device, u64::MAX as nat),
            parse_unsigned(inode, u64::MAX as nat),
        ) {
            (Some(d), Some(i)) => Some(
                SignalStopLedgerGeneration { device: d as u64, inode: i as u64 },
            ),
            _ => None,
        },
    }
}

/// The token of a generation.
pub open spec fn generation_token(g: SignalStopLedgerGeneration) -> Seq<char> {
    decimal(g.device as nat) + ":"@ + decimal(g.inode as nat)
}

impl SignalStopLedgerGeneration {
    /// The token of this generation.
    pub fn sidecar_token(self) -> (r: String)
        ensures
            r@ == generation_token(self),
    {
        let mut out = number(self.device as u128);
        out.append(":");
        let inode = number(self.inode as u128);
        out.append(inode.as_str());
        out
    }

    /// Reads a token.
    pub fn from_sidecar_token(token: &str) -> (r: Option<Self>)
        ensures
            r == token_generation(token@),
    {
        match split_at_char(token, ':') {
            None => None,
            Some((device, inode)) => match (
                parse_u64(device.as_str()),
                parse_u64(inode.as_str()),
            ) {
                (Some(device), Some(inode)) => Some(SignalStopLedgerGeneration { device, inode }),
                _ => None,
            },
        }
    }
}

/// The sidecar as a value.
#[verifier::ext_equal]
pub ghost struct ProvenanceView {
    pub records: Map<(i32, u64), SignalStopProvenanceRecord>,
    pub untrusted: bool,
}

/// The claims of the sidecar.
#[derive(Debug)]
pub struct SignalStopProvenanceLedger {
    pub records: OrderedMap<SignalStopIdentity, SignalStopProvenanceRecord>,
    /// A line could not even be attributed to a process.
    pub globally_untrusted: bool,
}

impl View for SignalStopProvenanceLedger {
    type V = ProvenanceView;

    open spec fn view(&self) -> ProvenanceView {
        ProvenanceView { records: self.records@, untrusted: self.globally_untrusted }
    }
}

/// The process of a sidecar line, and its claim.
pub open spec fn claim_line(line: Seq<char>) -> Option<((i32, u64), SignalStopProvenanceRecord)> {
    let fields = words(line);
    if fields.len() < 2 {
        None
    } else {
        match (
            parse_signed(fields[0], i32::MIN as int, i32::MAX as int),
            parse_unsigned(fields[1], u64::MAX as nat),
        ) {
            (Some(pid), Some(start)) => Some(
                (
                    (pid as i32, start as u64),
                    if fields.len() == 4 && fields[2] == "SignalOnly"@ {
                        match token_generation(fields[3]) {
                            Some(g) => SignalStopProvenanceRecord::SignalOnly(g),
                            None => SignalStopProvenanceRecord::Invalid,
                        }
                    } else {
                        SignalStopProvenanceRecord::Invalid
                    },
                ),
            ),
            _ => None,
        }
    }
}

/// The sidecar after a line: a second claim for a process invalidates both.
pub open spec fn with_claim_line(p: ProvenanceView, line: Seq<char>) -> ProvenanceView {
    match claim_line(line) {
        None => ProvenanceView { untrusted: true, ..p },
        Some((id, record)) => ProvenanceView {
            records: p.records.insert(
                id,
                if p.records.contains_key(id) {
                    SignalStopProvenanceRecord::Invalid
                } else {
                    record
                },
            ),
            ..p
        },
    }
}

/// The sidecar of some lines.
pub open spec fn claims(rows: Seq<Seq<char>>) -> ProvenanceView
    decreases rows.len(),
{
    if rows.len() == 0 {
        ProvenanceView { records: Map::empty(), untrusted: false }
    } else {
        with_claim_line(claims(rows.drop_last()), rows.last())
    }
}

/// The sidecar in a file. A file that cannot be read is not trusted.
pub open spec fn provenance_of(file: FileText) -> ProvenanceView {
    match file {
        FileText::Missing => ProvenanceView { records: Map::empty(), untrusted: false },
        FileText::Text(t) => claims(lines(t@)),
        FileText::Unreadable(_) => ProvenanceView { records: Map::empty(), untrusted: true },
    }
}

fn read_claim_line(line: &str) -> (r: Option<(SignalStopIdentity, SignalStopProvenanceRecord)>)
    ensures
        r == claim_line(line@),
{
    let fields = split_words(line);
    assert(texts(fields@).len() == fields@.len());
    if fields.len() < 2 {
        return None;
    }
    assert(forall|i: int| 0 <= i < fields@.len() ==> texts(fields@)[i] == fields@[i]@);
    match (parse_i32(fields[0].as_str()), parse_u64(fields[1].as_str())) {
        (Some(pid), Some(start)) => {
            let record = if fields.len() == 4 && same(fields[2].as_str(), "SignalOnly") {
                match SignalStopLedgerGeneration::from_sidecar_token(fields[3].as_str()) {
                    Some(g) => SignalStopProvenanceRecord::SignalOnly(g),
                    None => SignalStopProvenanceRecord::Invalid,
                }
            } else {
                SignalStopProvenanceRecord::Invalid
            };
            Some(((pid, start), record))
        },
        _ => None,
    }
}

/// Reads the sidecar.
pub fn read_signal_stop_provenance(file: &FileText) -> (r: SignalStopProvenanceLedger)
    ensures
        r@ == provenance_of(*file),
{
    let content = match file {
        FileText::Missing => {
            return SignalStopProvenanceLedger {
                records: OrderedMap::new(),
                globally_untrusted: false,
            };
        },
        FileText::Unreadable(_) => {
            return SignalStopProvenanceLedger {
                records: OrderedMap::new(),
                globally_untrusted: true,
            };
        },
        FileText::Text(t) => t.as_str(),
    };
    let rows = split_lines(content);
    let ghost all = texts(rows@);
    let mut ledger = SignalStopProvenanceLedger {
        records: OrderedMap::new(),
        globally_untrusted: false,
    };
    let mut i: usize = 0;
    assert(ledger@ =~= claims(all.take(0)));
    while i < rows.len()
        invariant
            i <= rows@.len(),
            all == texts(rows@),
            ledger@ == claims(all.take(i as int)),
        decreases rows@.len() - i,
    {
        assert(all.take(i + 1).drop_last() =~= all.take(i as int));
        assert(all.take(i + 1).last() == rows@[i as int]@);
        match read_claim_line(rows[i].as_str()) {
            None => {
                ledger.globally_untrusted = true;
            },
            Some((id, record)) => {
                let known = ledger.records.contains(&id);
                let record = if known {
                    SignalStopProvenanceRecord::Invalid
                } else {
                    record
                };
                ledger.records.insert(id, record);
            },
        }
        assert(ledger@ =~= claims(all.take(i + 1)));
        i += 1;
    }
    assert(all.take(i as int) =~= all);
    ledger
}

/// Whether the sidecar proves that only a signal holds a process, for a generation of the
/// main ledger.
pub open spec fn proves_signal_only(
    p: ProvenanceView,
    id: (i32, u64),
    generation: SignalStopLedgerGeneration,
) -> bool {
    !p.untrusted && p.records.contains_key(id) && p.records[id]
        == SignalStopProvenanceRecord::SignalOnly(generation)
}

/// The claims that hold for a generation of the main ledger; none of an untrusted sidecar.
pub open spec fn current_claims(
    p: ProvenanceView,
    generation: Option<SignalStopLedgerGeneration>,
) -> ProvenanceView {
    ProvenanceView {
        records: Map::new(
            |id: (i32, u64)|
                !p.untrusted && p.records.contains_key(id) && (generation matches Some(g)
                    && p.records[id] == SignalStopProvenanceRecord::SignalOnly(g)),
            |id: (i32, u64)| p.records[id],
        ),
        untrusted: false,
    }
}

/// The claims about processes that stand in the main ledger in canonical form.
pub open spec fn canonical_claims(
    p: ProvenanceView,
    m: Map<(i32, u64), SignalStopLedgerRecord>,
) -> ProvenanceView {
    ProvenanceView {
        records: Map::new(
            |id: (i32, u64)|
                p.records.contains_key(id) && m.contains_key(id) && m[id]
                    == SignalStopLedgerRecord::Canonical,
            |id: (i32, u64)| p.records[id],
        ),
        ..p
    }
}

/// The claims bound to another generation.
pub open spec fn rebound(
    records: Map<(i32, u64), SignalStopProvenanceRecord>,
    generation: SignalStopLedgerGeneration,
) -> Map<(i32, u64), SignalStopProvenanceRecord> {
    Map::new(
        |id: (i32, u64)| records.contains_key(id),
        |id: (i32, u64)|
            match records[id] {
                SignalStopProvenanceRecord::SignalOnly(_) => SignalStopProvenanceRecord::SignalOnly(
                    generation,
                ),
                SignalStopProvenanceRecord::Invalid => SignalStopProvenanceRecord::Invalid,
            },
    )
}

impl SignalStopProvenanceLedger {
    /// Whether the sidecar proves that only a signal holds a process.
    pub fn is_signal_only(
        &self,
        identity: SignalStopIdentity,
        generation: SignalStopLedgerGeneration,
    ) -> (r: bool)
        ensures
            r == proves_signal_only(self@, identity, generation),
    {
        if self.globally_untrusted {
            return false;
        }
        match self.records.get(&identity) {
            Some(SignalStopProvenanceRecord::SignalOnly(g)) => *g == generation,
            _ => false,
        }
    }

    /// Keeps the claims that hold for a generation.
    pub fn retain_current_generation(&mut self, generation: Option<SignalStopLedgerGeneration>)
        ensures
            final(self)@ == current_claims(old(self)@, generation),
    {
        let ghost p = self@;
        if self.globally_untrusted {
            self.records = OrderedMap::new();
            self.globally_untrusted = false;
            assert(self@ =~= current_claims(p, generation));
            return;
        }
        let keys = self.records.keys();
        let ghost ids = views(keys@);
        let mut dropped: Vec<SignalStopIdentity> = Vec::new();
        let mut i: usize = 0;
        while i < keys.len()
            invariant
                i <= keys@.len(),
                self@ == p,
                ids == views(keys@),
                ids.to_set() == p.records.dom(),
                forall|id: (i32, u64)| #[trigger]
                    views(dropped@).contains(id) <==> ids.take(i as int).contains(id)
                        && !(generation matches Some(g) && p.records[id]
                        == SignalStopProvenanceRecord::SignalOnly(g)),
            decreases keys@.len() - i,
        {
            let id = keys[i];
            assert(ids[i as int] == id);
            assert(ids.to_set().contains(ids[i as int]));
            let keep = match (self.records.get(&id), generation) {
                (Some(SignalStopProvenanceRecord::SignalOnly(g)), Some(current)) => *g == current,
                _ => false,
            };
            let ghost done = views(dropped@);
            assert(ids.take(i + 1) =~= ids.take(i as int).push(id));
            if !keep {
                dropped.push(id);
                assert(views(dropped@) =~= done.push(id));
            }
            proof {
                assert forall|x: (i32, u64)| #[trigger]
                    views(dropped@).contains(x) <==> ids.take(i + 1).contains(x) && !(generation
                        matches Some(g) && p.records[x]
                        == SignalStopProvenanceRecord::SignalOnly(g)) by {
                    push_members(ids.take(i as int), id, x);
                    push_members(done, id, x);
                }
            }
            i += 1;
        }
        self.records.remove_all(dropped.as_slice());
        proof {
            assert(ids.take(i as int) =~= ids);
            let target = current_claims(p, generation);
            assert forall|id: (i32, u64)| #[trigger]
                self@.records.contains_key(id) == target.records.contains_key(id) by {
                assert(views(dropped@).to_set().contains(id) == views(dropped@).contains(id));
                assert(ids.to_set().contains(id) == ids.contains(id));
            }
            assert(self@.records =~= target.records);
            assert(self@ =~= target);
        }
    }

    /// Keeps the claims about processes that stand in the main ledger in canonical form.
    pub fn retain_canonical(
        &mut self,
        records: &OrderedMap<SignalStopIdentity, SignalStopLedgerRecord>,
    )
        ensures
            final(self)@ == canonical_claims(old(self)@, records@),
    {
        let ghost p = self@;
        let keys = self.records.keys();
        let ghost ids = views(keys@);
        let mut dropped: Vec<SignalStopIdentity> = Vec::new();
        let mut i: usize = 0;
        while i < keys.len()
            invariant
                i <= keys@.len(),
                self@ == p,
                ids == views(keys@),
                ids.to_set() == p.records.dom(),
                forall|id: (i32, u64)| #[trigger]
                    views(dropped@).contains(id) <==> ids.take(i as int).contains(id) && !(
                    records@.contains_key(id) && records@[id]
                        == SignalStopLedgerRecord::Canonical),
            decreases keys@.len() - i,
        {
            let id = keys[i];
            assert(ids[i as int] == id);
            let keep = match records.get(&id) {
                Some(SignalStopLedgerRecord::Canonical) => true,
                _ => false,
            };
            let ghost done = views(dropped@);
            assert(ids.take(i + 1) =~= ids.take(i as int).push(id));
            if !keep {
                dropped.push(id);
                assert(views(dropped@) =~= done.push(id));
            }
            proof {
                assert forall|x: (i32, u64)| #[trigger]
                    views(dropped@).contains(x) <==> ids.take(i + 1).contains(x) && !(
                    records@.contains_key(x) && records@[x]
                        == SignalStopLedgerRecord::Canonical) by {
                    push_members(ids.take(i as int), id, x);
                    push_members(done, id, x);
                }
            }
            i += 1;
        }
        self.records.remove_all(dropped.as_slice());
        proof {
            assert(ids.take(i as int) =~= ids);
            let target = canonical_claims(p, records@);
            assert forall|id: (i32, u64)| #[trigger]
                self@.records.contains_key(id) == target.records.contains_key(id) by {
                assert(views(dropped@).to_set().contains(id) == views(dropped@).contains(id));
                assert(ids.to_set().contains(id) == ids.contains(id));
            }
            assert(self@.records =~= target.records);
            assert(self@ =~= target);
        }
    }

    /// Binds every claim to a generation.
    pub fn rebind_to_generation(&mut self, generation: SignalStopLedgerGeneration)
        ensures
            final(self)@ == (ProvenanceView {
                records: rebound(old(self)@.records, generation),
                ..old(self)@
            }),
    {
        let ghost p = self@;
        let keys = self.records.keys();
        let ghost ids = views(keys@);
        let mut i: usize = 0;
        while i < keys.len()
            invariant
                i <= keys@.len(),
                ids == views(keys@),
                ids.to_set() == p.records.dom(),
                self@.untrusted == p.untrusted,
                self@.records.dom() == p.records.dom(),
                forall|id: (i32, u64)|
                    p.records.contains_key(id) ==> #[trigger] self@.records[id] == (if ids.take(
                        i as int,
                    ).contains(id) {
                        rebound(p.records, generation)[id]
                    } else {
                        p.records[id]
                    }),
            decreases keys@.len() - i,
        {
            let id = keys[i];
            assert(ids[i as int] == id);
            assert(ids.to_set().contains(ids[i as int]));
            assert(p.records.contains_key(id));
            let ghost before = self@.records;
            let bound = match self.records.get(&id) {
                Some(SignalStopProvenanceRecord::SignalOnly(_)) => true,
                _ => false,
            };
            if bound {
                self.records.insert(id, SignalStopProvenanceRecord::SignalOnly(generation));
            }
            assert(self@.records.dom() =~= p.records.dom());
            proof {
                assert(ids.take(i + 1) =~= ids.take(i as int).push(id));
                assert forall|x: (i32, u64)| p.records.contains_key(x) implies #[trigger]
                self@.records[x] == (if ids.take(i + 1).contains(x) {
                    rebound(p.records, generation)[x]
                } else {
                    p.records[x]
                }) by {
                    push_members(ids.take(i as int), id, x);
                    assert(before[x] == (if ids.take(i as int).contains(x) {
                        rebound(p.records, generation)[x]
                    } else {
                        p.records[x]
                    }));
                }
            }
            i += 1;
        }
        proof {
            assert(ids.take(i as int) =~= ids);
            assert forall|id: (i32, u64)| p.records.contains_key(id) implies self@.records[id]
                == rebound(p.records, generation)[id] by {
                assert(ids.to_set().contains(id));
                assert(self@.records[id] == self@.records[id]);
            }
            assert(self@.records =~= rebound(p.records, generation));
        }
    }
}

// ---------------------------------------------------------------------------
// Ownership
// ---------------------------------------------------------------------------

/// The files of the ledger, as far as they could be read, and the generation of the main one.
#[derive(Debug)]
pub struct LedgerFiles {
    pub ledger: FileText,
    pub provenance: FileText,
    pub generation: Option<SignalStopLedgerGeneration>,
}

/// What the ledger says about a process.
pub open spec fn ownership_in(
    m: Map<(i32, u64), SignalStopLedgerRecord>,
    p: ProvenanceView,
    generation: Option<SignalStopLedgerGeneration>,
    id: (i32, u64),
) -> Option<SignalStopOwnership> {
    if !m.contains_key(id) {
        None
    } else if m[id] == SignalStopLedgerRecord::Canonical && (generation matches Some(g)
        && proves_signal_only(p, id, g)) {
        Some(SignalStopOwnership::SignalOnly)
    } else {
        Some(SignalStopOwnership::ResidualUnknown)
    }
}

/// What the ledger files say about a process.
pub open spec fn recorded_ownership(files: LedgerFiles, id: (i32, u64)) -> Result<
    Option<SignalStopOwnership>,
    ErrorView,
> {
    match ledger_of(files.ledger) {
        Err(e) => Err(e),
        Ok(m) => Ok(ownership_in(m, provenance_of(files.provenance), files.generation, id)),
    }
}

/// Reads what the ledger says about a process.
pub fn recorded_freezeit_signal_stop_ownership(
    files: &LedgerFiles,
    pid: i32,
    start_time_ticks: u64,
) -> (r: Result<Option<SignalStopOwnership>, DaemonError>)
    ensures
        outcome(r) == recorded_ownership(*files, (pid, start_time_ticks)),
{
    let identity: SignalStopIdentity = (pid, start_time_ticks);
    let records = match read_signal_stop_ledger(&files.ledger) {
        Ok(records) => records,
        Err(e) => {
            return Err(e);
        },
    };
    let canonical = match records.get(&identity) {
        None => {
            return Ok(None);
        },
        Some(SignalStopLedgerRecord::Canonical) => true,
        Some(SignalStopLedgerRecord::ResidualUnknown) => false,
    };
    if canonical {
        match files.generation {
            Some(generation) => {
                let provenance = read_signal_stop_provenance(&files.provenance);
                if provenance.is_signal_only(identity, generation) {
                    return Ok(Some(SignalStopOwnership::SignalOnly));
                }
            },
            None => {},
        }
    }
    Ok(Some(SignalStopOwnership::ResidualUnknown))
}

/// Whether a process is stopped by this daemon: it is stopped, not traced, and the ledger
/// holds its pid and start time.
pub open spec fn stop_ownership(stat: Seq<char>, files: LedgerFiles) -> Option<
    SignalStopOwnership,
> {
    match (stat_state(stat), stat_pid(stat), stat_start_time(stat)) {
        (Some(c), Some(pid), Some(start)) if c == 'T' => match recorded_ownership(
            files,
            (pid as i32, start as u64),
        ) {
            Ok(o) => o,
            Err(_) => None,
        },
        _ => None,
    }
}

/// Decides whether a process is stopped by this daemon, and by what.
pub fn freezeit_signal_stop_ownership(stat_text: &str, files: &LedgerFiles) -> (r: Option<
    SignalStopOwnership,
>)
    ensures
        r == stop_ownership(stat_text@, *files),
{
    match parse_proc_state_char(stat_text) {
        Ok('T') => {},
        _ => {
            return None;
        },
    }
    let pid = match parse_process_pid(stat_text) {
        Some(pid) => pid,
        None => {
            return None;
        },
    };
    let start = match parse_process_start_time(stat_text) {
        Ok(start) => start,
        Err(_) => {
            return None;
        },
    };
    match recorded_freezeit_signal_stop_ownership(files, pid, start) {
        Ok(o) => o,
        Err(_) => None,
    }
}

/// Whether a process is stopped by this daemon.
pub fn proc_state_is_stopped(stat_text: &str, files: &LedgerFiles) -> (r: bool)
    ensures
        r == (stop_ownership(stat_text@, *files) is Some),
{
    freezeit_signal_stop_ownership(stat_text, files).is_some()
}

/// A process that is not in the main ledger is never taken for one that this daemon stopped,
/// whatever the sidecar says.
pub proof fn unlisted_process_is_not_owned(
    m: Map<(i32, u64), SignalStopLedgerRecord>,
    p: ProvenanceView,
    generation: Option<SignalStopLedgerGeneration>,
    id: (i32, u64),
)
    requires
        !m.contains_key(id),
    ensures
        ownership_in(m, p, generation, id) is None,
{
}

/// A claim of the sidecar for another generation of the main ledger proves nothing.
pub proof fn claim_for_another_generation_is_unknown(
    m: Map<(i32, u64), SignalStopLedgerRecord>,
    p: ProvenanceView,
    claimed: SignalStopLedgerGeneration,
    current: SignalStopLedgerGeneration,
    id: (i32, u64),
)
    requires
        m.contains_key(id),
        p.records.contains_key(id),
        p.records[id] == SignalStopProvenanceRecord::SignalOnly(claimed),
        claimed != current,
    ensures
        ownership_in(m, p, Some(current), id) == Some(SignalStopOwnership::ResidualUnknown),
{
}

// ---------------------------------------------------------------------------
// Writing
// ---------------------------------------------------------------------------

/// A line of the main ledger.
pub open spec fn ledger_row(id: (i32, u64)) -> Seq<char> {
    signed_decimal(id.0 as int) + " "@ + decimal(id.1 as nat)
}

/// The lines of the main ledger: one for each process, in order.
pub open spec fn ledger_rows(ids: Set<(i32, u64)>) -> Seq<Seq<char>> {
    in_order::<SignalStopIdentity>(ids).map_values(|id: (i32, u64)| ledger_row(id))
}

/// The content of a file of rows; no file where there are none.
pub open spec fn file_content(rows: Seq<Seq<char>>) -> Option<Seq<char>> {
    if rows.len() == 0 {
        None
    } else {
        Some(line_block(rows))
    }
}

/// A line of the sidecar.
pub open spec fn claim_row(id: (i32, u64), generation: SignalStopLedgerGeneration) -> Seq<char> {
    signed_decimal(id.0 as int) + " "@ + (decimal(id.1 as nat) + " "@ + ("SignalOnly"@ + " "@
        + generation_token(generation)))
}

/// The lines of the sidecar from the `k`-th process on.
pub open spec fn claim_rows_from(
    ids: Seq<(i32, u64)>,
    records: Map<(i32, u64), SignalStopProvenanceRecord>,
) -> Seq<Seq<char>>
    decreases ids.len(),
{
    if ids.len() == 0 {
        seq![]
    } else {
        let rows = claim_rows_from(ids.drop_last(), records);
        match records[ids.last()] {
            SignalStopProvenanceRecord::SignalOnly(g) => rows.push(claim_row(ids.last(), g)),
            SignalStopProvenanceRecord::Invalid => rows,
        }
    }
}

/// The lines of the sidecar: one for each claim, in order.
pub open spec fn claim_rows(records: Map<(i32, u64), SignalStopProvenanceRecord>) -> Seq<
    Seq<char>,
> {
    claim_rows_from(in_order::<SignalStopIdentity>(records.dom()), records)
}

/// The content of an optional file as a value.
pub open spec fn content_view(o: Option<String>) -> Option<Seq<char>> {
    match o {
        Some(s) => Some(s@),
        None => None,
    }
}

/// Writes the main ledger.
pub fn ledger_content(records: &OrderedMap<SignalStopIdentity, SignalStopLedgerRecord>) -> (r:
    Option<String>)
    ensures
        content_view(r) == file_content(ledger_rows(records@.dom())),
{
    let keys = records.keys();
    let ghost ids = views(keys@);
    let ghost all = ids.map_values(|id: (i32, u64)| ledger_row(id));
    let mut rows: Vec<String> = Vec::new();
    let mut i: usize = 0;
    while i < keys.len()
        invariant
            i <= keys@.len(),
            ids == views(keys@),
            all == ids.map_values(|id: (i32, u64)| ledger_row(id)),
            rows@.len() == i,
            texts(rows@) == all.take(i as int),
        decreases keys@.len() - i,
    {
        let mut row = signed_number(keys[i].0 as i64);
        row.append(" ");
        let start = number(keys[i].1 as u128);
        row.append(start.as_str());
        let ghost done = texts(rows@);
        rows.push(row);
        assert(ids[i as int] == keys@[i as int]);
        assert(texts(rows@) =~= done.push(row@));
        assert(all.take(i + 1) =~= all.take(i as int).push(all[i as int]));
        i += 1;
    }
    assert(all.take(i as int) =~= all);
    if rows.len() == 0 {
        None
    } else {
        Some(write_lines(rows.as_slice()))
    }
}

/// Writes the sidecar.
pub fn provenance_content(
    records: &OrderedMap<SignalStopIdentity, SignalStopProvenanceRecord>,
) -> (r: Option<String>)
    ensures
        content_view(r) == file_content(claim_rows(records@)),
        ascending::<SignalStopIdentity>(in_order::<SignalStopIdentity>(records@.dom())),
        in_order::<SignalStopIdentity>(records@.dom()).to_set() == records@.dom(),
{
    let keys = records.keys();
    let ghost ids = views(keys@);
    let mut rows: Vec<String> = Vec::new();
    let mut i: usize = 0;
    assert(texts(rows@) =~= claim_rows_from(ids.take(0), records@));
    while i < keys.len()
        invariant
            i <= keys@.len(),
            ids == views(keys@),
            ids.to_set() == records@.dom(),
            texts(rows@) == claim_rows_from(ids.take(i as int), records@),
        decreases keys@.len() - i,
    {
        let id = keys[i];
        assert(ids[i as int] == id);
        assert(ids.to_set().contains(ids[i as int]));
        assert(ids.take(i + 1).drop_last() =~= ids.take(i as int));
        assert(ids.take(i + 1).last() == id);
        match records.get(&id) {
            Some(SignalStopProvenanceRecord::SignalOnly(g)) => {
                let mut row = signed_number(id.0 as i64);
                row.append(" ");
                let start = number(id.1 as u128);
                row.append(start.as_str());
                row.append(" ");
                row.append("SignalOnly");
                row.append(" ");
                let token = g.sidecar_token();
                row.append(token.as_str());
                let ghost done = texts(rows@);
                assert(row@ =~= claim_row(id, *g));
                rows.push(row);
                assert(texts(rows@) =~= done.push(row@));
            },
            _ => {},
        }
        i += 1;
    }
    assert(ids.take(i as int) =~= ids);
    assert(texts(rows@).len() == rows@.len());
    if rows.len() == 0 {
        None
    } else {
        Some(write_lines(rows.as_slice()))
    }
}

/// A change of both files. The sidecar is removed first and the main ledger replaced; then the
/// remaining claims are bound to the generation of the new file.
#[derive(Debug)]
pub struct LedgerRewrite {
    /// The new main ledger; no file where there is no content.
    pub ledger: Option<String>,
    /// The claims that outlive the change.
    pub claims: SignalStopProvenanceLedger,
}

impl LedgerRewrite {
    /// The sidecar for the generation that the new main ledger got.
    pub fn provenance_for(self, generation: SignalStopLedgerGeneration) -> (r: Option<String>)
        ensures
            content_view(r) == file_content(
                claim_rows(rebound(self.claims@.records, generation)),
            ),
    {
        let mut claims = self.claims;
        claims.rebind_to_generation(generation);
        provenance_content(&claims.records)
    }
}

/// The entries and claims after a process was stopped: it is listed, and any earlier claim
/// about it is void.
pub open spec fn after_stop(
    m: Map<(i32, u64), SignalStopLedgerRecord>,
    p: ProvenanceView,
    generation: Option<SignalStopLedgerGeneration>,
    id: (i32, u64),
) -> (Map<(i32, u64), SignalStopLedgerRecord>, ProvenanceView) {
    let m1 = m.insert(id, SignalStopLedgerRecord::Canonical);
    let p1 = canonical_claims(current_claims(p, generation), m1);
    (m1, ProvenanceView { records: p1.records.remove(id), ..p1 })
}

/// The entries and claims after a process was taken out.
pub open spec fn after_take(
    m: Map<(i32, u64), SignalStopLedgerRecord>,
    p: ProvenanceView,
    generation: Option<SignalStopLedgerGeneration>,
    id: (i32, u64),
) -> (Map<(i32, u64), SignalStopLedgerRecord>, ProvenanceView) {
    let m1 = m.remove(id);
    let p1 = canonical_claims(current_claims(p, generation), m1);
    (m1, ProvenanceView { records: p1.records.remove(id), ..p1 })
}

/// Notes in the ledger that a process was stopped.
pub fn record_freezeit_signal_stop(
    files: &LedgerFiles,
    pid: i32,
    start_time_ticks: u64,
) -> (r: Result<LedgerRewrite, DaemonError>)
    ensures
        match ledger_of(files.ledger) {
            Err(e) => r matches Err(x) && x@ == e,
            Ok(m) => {
                let (m1, p1) = after_stop(
                    m,
                    provenance_of(files.provenance),
                    files.generation,
                    (pid, start_time_ticks),
                );
                r matches Ok(w) && content_view(w.ledger) == file_content(ledger_rows(m1.dom()))
                    && w.claims@ == p1
            },
        },
{
    let identity: SignalStopIdentity = (pid, start_time_ticks);
    let mut records = match read_signal_stop_ledger(&files.ledger) {
        Ok(records) => records,
        Err(e) => {
            return Err(e);
        },
    };
    let mut claims = read_signal_stop_provenance(&files.provenance);
    claims.retain_current_generation(files.generation);
    records.insert(identity, SignalStopLedgerRecord::Canonical);
    claims.retain_canonical(&records);
    claims.records.remove(&identity);
    Ok(LedgerRewrite { ledger: ledger_content(&records), claims })
}

/// Takes a process out of the ledger, and says whether it was listed.
pub fn take_freezeit_signal_stop(
    files: &LedgerFiles,
    pid: i32,
    start_time_ticks: u64,
) -> (r: Result<(bool, LedgerRewrite), DaemonError>)
    ensures
        match ledger_of(files.ledger) {
            Err(e) => r matches Err(x) && x@ == e,
            Ok(m) => {
                let (m1, p1) = after_take(
                    m,
                    provenance_of(files.provenance),
                    files.generation,
                    (pid, start_time_ticks),
                );
                r matches Ok((listed, w)) && listed == m.contains_key((pid, start_time_ticks))
                    && content_view(w.ledger) == file_content(ledger_rows(m1.dom())) && w.claims@
                    == p1
            },
        },
{
    let identity: SignalStopIdentity = (pid, start_time_ticks);
    let mut records = match read_signal_stop_ledger(&files.ledger) {
        Ok(records) => records,
        Err(e) => {
            return Err(e);
        },
    };
    let mut claims = read_signal_stop_provenance(&files.provenance);
    let removed = records.remove(&identity).is_some();
    claims.retain_current_generation(files.generation);
    claims.retain_canonical(&records);
    claims.records.remove(&identity);
    Ok((removed, LedgerRewrite { ledger: ledger_content(&records), claims }))
}

/// Removes a process from the ledger, whether or not it was listed.
pub fn clear_freezeit_signal_stop(files: &LedgerFiles, pid: i32, start_time_ticks: u64) -> (r:
    Result<LedgerRewrite, DaemonError>)
    ensures
        match ledger_of(files.ledger) {
            Err(e) => r matches Err(x) && x@ == e,
            Ok(m) => {
                let (m1, p1) = after_take(
                    m,
                    provenance_of(files.provenance),
                    files.generation,
                    (pid, start_time_ticks),
                );
                r matches Ok(w) && content_view(w.ledger) == file_content(ledger_rows(m1.dom()))
                    && w.claims@ == p1
            },
        },
{
    match take_freezeit_signal_stop(files, pid, start_time_ticks) {
        Ok((_listed, rewrite)) => Ok(rewrite),
        Err(e) => Err(e),
    }
}

/// Whether a process may be promoted: it is listed once, in canonical form, the sidecar is
/// trusted and holds no other claim about it.
pub open spec fn promotable(
    m: Map<(i32, u64), SignalStopLedgerRecord>,
    p: ProvenanceView,
    generation: Option<SignalStopLedgerGeneration>,
    id: (i32, u64),
) -> bool {
    &&& m.contains_key(id) && m[id] == SignalStopLedgerRecord::Canonical
    &&& generation is Some
    &&& !p.untrusted
    &&& p.records.contains_key(id) ==> (generation matches Some(g) && p.records[id]
        == SignalStopProvenanceRecord::SignalOnly(g))
}

/// The claims after a promotion.
pub open spec fn after_promotion(
    m: Map<(i32, u64), SignalStopLedgerRecord>,
    p: ProvenanceView,
    generation: SignalStopLedgerGeneration,
    id: (i32, u64),
) -> Map<(i32, u64), SignalStopProvenanceRecord> {
    canonical_claims(current_claims(p, Some(generation)), m).records.insert(
        id,
        SignalStopProvenanceRecord::SignalOnly(generation),
    )
}

/// Promotes a listed process to one that only a signal holds. Gives the new sidecar, or
/// nothing where the process may not be promoted.
pub fn promote_freezeit_signal_stop(
    files: &LedgerFiles,
    pid: i32,
    start_time_ticks: u64,
) -> (r: Result<Option<String>, DaemonError>)
    ensures
        match ledger_of(files.ledger) {
            Err(e) => r matches Err(x) && x@ == e,
            Ok(m) => {
                let p = provenance_of(files.provenance);
                let id = (pid, start_time_ticks);
                if promotable(m, p, files.generation, id) {
                    r matches Ok(Some(text)) && (files.generation matches Some(g) && Some(text@)
                        == file_content(claim_rows(after_promotion(m, p, g, id))))
                } else {
                    r matches Ok(None)
                }
            },
        },
{
    let identity: SignalStopIdentity = (pid, start_time_ticks);
    let records = match read_signal_stop_ledger(&files.ledger) {
        Ok(records) => records,
        Err(e) => {
            return Err(e);
        },
    };
    match records.get(&identity) {
        Some(SignalStopLedgerRecord::Canonical) => {},
        _ => {
            return Ok(None);
        },
    }
    let generation = match files.generation {
        Some(generation) => generation,
        None => {
            return Ok(None);
        },
    };
    let mut claims = read_signal_stop_provenance(&files.provenance);
    if claims.globally_untrusted {
        return Ok(None);
    }
    match claims.records.get(&identity) {
        Some(SignalStopProvenanceRecord::Invalid) => {
            return Ok(None);
        },
        Some(SignalStopProvenanceRecord::SignalOnly(g)) => {
            if *g != generation {
                return Ok(None);
            }
        },
        None => {},
    }
    claims.retain_current_generation(Some(generation));
    claims.retain_canonical(&records);
    claims.records.insert(identity, SignalStopProvenanceRecord::SignalOnly(generation));
    let content = provenance_content(&claims.records);
    proof {
        claim_is_written(claims@.records, identity, generation);
    }
    Ok(content)
}

proof fn claim_is_written(
    records: Map<(i32, u64), SignalStopProvenanceRecord>,
    id: (i32, u64),
    g: SignalStopLedgerGeneration,
)
    requires
        records.contains_key(id),
        records[id] == SignalStopProvenanceRecord::SignalOnly(g),
        in_order::<SignalStopIdentity>(records.dom()).to_set() == records.dom(),
    ensures
        claim_rows(records).len() > 0,
{
    let ids = in_order::<SignalStopIdentity>(records.dom());
    assert(ids.to_set().contains(id));
    let j = choose|j: int| 0 <= j < ids.len() && ids[j] == id;
    row_is_written(ids, records, j);
}

proof fn row_is_written(
    ids: Seq<(i32, u64)>,
    records: Map<(i32, u64), SignalStopProvenanceRecord>,
    j: int,
)
    requires
        0 <= j < ids.len(),
        records[ids[j]] is SignalOnly,
    ensures
        claim_rows_from(ids, records).len() > 0,
    decreases ids.len(),
{
    if j < ids.len() - 1 {
        assert(ids.drop_last()[j] == ids[j]);
        row_is_written(ids.drop_last(), records, j);
    }
}

// ---------------------------------------------------------------------------
// Reading back what was written
// ---------------------------------------------------------------------------

/// All listed processes, in canonical form.
pub open spec fn all_canonical(ids: Set<(i32, u64)>) -> Map<(i32, u64), SignalStopLedgerRecord> {
    Map::new(|id: (i32, u64)| ids.contains(id), |id: (i32, u64)| SignalStopLedgerRecord::Canonical)
}

proof fn ledger_row_reads_back(id: (i32, u64))
    ensures
        ledger_line(ledger_row(id)) == Some((id, SignalStopLedgerRecord::Canonical)),
        plain_row(ledger_row(id)),
{
    reveal_strlit(" ");
    let a = signed_decimal(id.0 as int);
    let b = decimal(id.1 as nat);
    signed_reads_back(id.0 as int, i32::MIN as int, i32::MAX as int);
    unsigned_reads_back(id.1 as nat, u64::MAX as nat);
    words_of_word_and_rest(a, b);
    words_of_word(b);
    let fields = words(ledger_row(id));
    assert(fields =~= seq![a, b]);
    let row = ledger_row(id);
    assert forall|i: int| 0 <= i < row.len() implies #[trigger] row[i] != '\n' by {
        if i < a.len() {
            assert(row[i] == a[i]);
        } else if i > a.len() {
            assert(row[i] == b[i - a.len() - 1]);
        }
    }
    assert(row.last() == b.last());
}

proof fn ledger_rows_read_back(ids: Seq<(i32, u64)>)
    requires
        ascending::<SignalStopIdentity>(ids),
    ensures
        ledger_entries(ids.map_values(|id: (i32, u64)| ledger_row(id))) == all_canonical(
            ids.to_set(),
        ),
    decreases ids.len(),
{
    let rows = ids.map_values(|id: (i32, u64)| ledger_row(id));
    if ids.len() == 0 {
        assert(ledger_entries(rows) =~= all_canonical(ids.to_set()));
    } else {
        let front = ids.drop_last();
        let id = ids.last();
        assert(rows.drop_last() =~= front.map_values(|id: (i32, u64)| ledger_row(id)));
        ledger_rows_read_back(front);
        ledger_row_reads_back(id);
        assert(!front.to_set().contains(id)) by {
            if front.contains(id) {
                let j = choose|j: int| 0 <= j < front.len() && front[j] == id;
                ascending_has_no_repeats::<SignalStopIdentity>(ids, j, ids.len() - 1);
                assert(ids[j] == front[j]);
            }
        }
        assert forall|x: (i32, u64)| ids.to_set().contains(x) <==> front.to_set().contains(x) || x
            == id by {
            push_members(front, id, x);
            assert(front.push(id) =~= ids);
        }
        assert(ledger_entries(rows) =~= all_canonical(ids.to_set()));
    }
}

/// The main ledger that was written is the one that is read: every listed process, in
/// canonical form, and no other.
pub proof fn written_ledger_reads_back(ids: Set<(i32, u64)>)
    requires
        ids.finite(),
    ensures
        ledger_entries(lines(line_block(ledger_rows(ids)))) == all_canonical(ids),
{
    let q = in_order::<SignalStopIdentity>(ids);
    finite_set_has_order::<SignalStopIdentity>(ids);
    let rows = ledger_rows(ids);
    assert forall|i: int| 0 <= i < rows.len() implies plain_row(#[trigger] rows[i]) by {
        ledger_row_reads_back(q[i]);
    }
    lines_read_back(rows);
    ledger_rows_read_back(q);
}

proof fn token_reads_back(g: SignalStopLedgerGeneration)
    ensures
        token_generation(generation_token(g)) == Some(g),
        is_word(generation_token(g)),
        plain_row(generation_token(g)),
{
    reveal_strlit(":");
    let d = decimal(g.device as nat);
    let n = decimal(g.inode as nat);
    let t = generation_token(g);
    unsigned_reads_back(g.device as nat, u64::MAX as nat);
    unsigned_reads_back(g.inode as nat, u64::MAX as nat);
    assert(t[d.len() as int] == ':');
    assert forall|k: int| 0 <= k < d.len() implies t[k] != ':' by {
        assert(t[k] == d[k]);
        assert(is_digit(d[k]));
    }
    index_is(t, ':', 0, d.len() as int);
    assert(t.take(d.len() as int) =~= d);
    assert(t.skip(d.len() as int + 1) =~= n);
    assert forall|i: int| 0 <= i < t.len() implies !is_space(#[trigger] t[i]) && t[i] != '\n' by {
        if i < d.len() {
            assert(t[i] == d[i]);
        } else if i > d.len() {
            assert(t[i] == n[i - d.len() - 1]);
        }
    }
    assert(t.last() == n.last());
}

proof fn claim_row_reads_back(id: (i32, u64), g: SignalStopLedgerGeneration)
    ensures
        claim_line(claim_row(id, g)) == Some((id, SignalStopProvenanceRecord::SignalOnly(g))),
        plain_row(claim_row(id, g)),
{
    reveal_strlit(" ");
    reveal_strlit("SignalOnly");
    let a = signed_decimal(id.0 as int);
    let b = decimal(id.1 as nat);
    let c = "SignalOnly"@;
    let t = generation_token(g);
    signed_reads_back(id.0 as int, i32::MIN as int, i32::MAX as int);
    unsigned_reads_back(id.1 as nat, u64::MAX as nat);
    token_reads_back(g);
    assert(is_word(c));
    words_of_word(t);
    words_of_word_and_rest(c, t);
    words_of_word_and_rest(b, c + " "@ + t);
    words_of_word_and_rest(a, b + " "@ + (c + " "@ + t));
    let row = claim_row(id, g);
    let fields = words(row);
    assert(fields =~= seq![a, b, c, t]);
    assert(row =~= a + seq![' '] + b + seq![' '] + c + seq![' '] + t);
    assert forall|i: int| 0 <= i < row.len() implies #[trigger] row[i] != '\n' by {
        let na = a.len() as int;
        let nb = na + 1 + b.len();
        let nc = nb + 1 + c.len();
        if i < na {
            assert(row[i] == a[i]);
        } else if na < i < nb {
            assert(row[i] == b[i - na - 1]);
        } else if nb < i < nc {
            assert(row[i] == c[i - nb - 1]);
        } else if nc < i {
            assert(row[i] == t[i - nc - 1]);
        }
    }
    assert(row.last() == t.last());
}

/// Every claim says that only a signal holds the process.
pub open spec fn only_claims(records: Map<(i32, u64), SignalStopProvenanceRecord>) -> bool {
    forall|id: (i32, u64)| #[trigger] records.contains_key(id) ==> records[id] is SignalOnly
}

proof fn claim_rows_read_back(
    ids: Seq<(i32, u64)>,
    records: Map<(i32, u64), SignalStopProvenanceRecord>,
)
    requires
        ascending::<SignalStopIdentity>(ids),
        forall|i: int| 0 <= i < ids.len() ==> records[#[trigger] ids[i]] is SignalOnly,
    ensures
        claims(claim_rows_from(ids, records)) == (ProvenanceView {
            records: Map::new(
                |id: (i32, u64)| ids.to_set().contains(id),
                |id: (i32, u64)| records[id],
            ),
            untrusted: false,
        }),
        forall|i: int|
            0 <= i < claim_rows_from(ids, records).len() ==> plain_row(
                #[trigger] claim_rows_from(ids, records)[i],
            ),
    decreases ids.len(),
{
    let rows = claim_rows_from(ids, records);
    if ids.len() == 0 {
        assert(claims(rows) =~= (ProvenanceView {
            records: Map::new(
                |id: (i32, u64)| ids.to_set().contains(id),
                |id: (i32, u64)| records[id],
            ),
            untrusted: false,
        }));
    } else {
        let front = ids.drop_last();
        let id = ids.last();
        assert forall|i: int| 0 <= i < front.len() implies records[#[trigger] front[i]] is SignalOnly by {
            assert(front[i] == ids[i]);
        }
        claim_rows_read_back(front, records);
        assert(records[ids[ids.len() - 1]] is SignalOnly);
        let g = match records[id] {
            SignalStopProvenanceRecord::SignalOnly(g) => g,
            SignalStopProvenanceRecord::Invalid => arbitrary(),
        };
        claim_row_reads_back(id, g);
        assert(rows.drop_last() =~= claim_rows_from(front, records));
        assert(!front.to_set().contains(id)) by {
            if front.contains(id) {
                let j = choose|j: int| 0 <= j < front.len() && front[j] == id;
                ascending_has_no_repeats::<SignalStopIdentity>(ids, j, ids.len() - 1);
                assert(ids[j] == front[j]);
            }
        }
        assert forall|x: (i32, u64)| ids.to_set().contains(x) <==> front.to_set().contains(x) || x
            == id by {
            push_members(front, id, x);
            assert(front.push(id) =~= ids);
        }
        assert(claims(rows) =~= (ProvenanceView {
            records: Map::new(
                |id: (i32, u64)| ids.to_set().contains(id),
                |id: (i32, u64)| records[id],
            ),
            untrusted: false,
        }));
        assert forall|i: int| 0 <= i < rows.len() implies plain_row(#[trigger] rows[i]) by {
            if i < rows.len() - 1 {
                assert(rows[i] == claim_rows_from(front, records)[i]);
            }
        }
    }
}

/// The claims that were written are the ones that are read.
pub proof fn written_claims_read_back(records: Map<(i32, u64), SignalStopProvenanceRecord>)
    requires
        only_claims(records),
        records.dom().finite(),
    ensures
        claims(lines(line_block(claim_rows(records)))) == (ProvenanceView {
            records,
            untrusted: false,
        }),
{
    let q = in_order::<SignalStopIdentity>(records.dom());
    finite_set_has_order::<SignalStopIdentity>(records.dom());
    assert forall|i: int| 0 <= i < q.len() implies records[#[trigger] q[i]] is SignalOnly by {
        assert(q.to_set().contains(q[i]));
        assert(records.contains_key(q[i]));
    }
    claim_rows_read_back(q, records);
    lines_read_back(claim_rows(records));
    assert(Map::new(|id: (i32, u64)| q.to_set().contains(id), |id: (i32, u64)| records[id])
        =~= records);
}

/// A promoted process is read as one that only a signal holds, for as long as the main ledger
/// keeps its generation.
pub proof fn promotion_reads_back(
    m: Map<(i32, u64), SignalStopLedgerRecord>,
    p: ProvenanceView,
    g: SignalStopLedgerGeneration,
    id: (i32, u64),
)
    requires
        promotable(m, p, Some(g), id),
        p.records.dom().finite(),
    ensures
        ownership_in(
            m,
            claims(lines(line_block(claim_rows(after_promotion(m, p, g, id))))),
            Some(g),
            id,
        ) == Some(SignalStopOwnership::SignalOnly),
{
    let after = after_promotion(m, p, g, id);
    assert(after.dom().subset_of(p.records.dom().insert(id)));
    vstd::set_lib::lemma_len_subset(after.dom(), p.records.dom().insert(id));
    written_claims_read_back(after);
}

/// A process that is stopped again is read as one whose holders are unknown, whatever was
/// claimed about it before.
pub proof fn new_stop_reads_back_as_unknown(
    m: Map<(i32, u64), SignalStopLedgerRecord>,
    p: ProvenanceView,
    old_generation: Option<SignalStopLedgerGeneration>,
    new_generation: SignalStopLedgerGeneration,
    id: (i32, u64),
)
    requires
        m.dom().finite(),
        p.records.dom().finite(),
    ensures
        ({
            let (m1, p1) = after_stop(m, p, old_generation, id);
            ownership_in(
                ledger_entries(lines(line_block(ledger_rows(m1.dom())))),
                claims(lines(line_block(claim_rows(rebound(p1.records, new_generation))))),
                Some(new_generation),
                id,
            ) == Some(SignalStopOwnership::ResidualUnknown)
        }),
{
    let (m1, p1) = after_stop(m, p, old_generation, id);
    assert(m1.dom() =~= m.dom().insert(id));
    assert(p1.records.dom().subset_of(p.records.dom()));
    vstd::set_lib::lemma_len_subset(p1.records.dom(), p.records.dom());
    written_ledger_reads_back(m1.dom());
    let r = rebound(p1.records, new_generation);
    assert(r.dom() =~= p1.records.dom());
    written_claims_read_back(r);
    assert(!r.contains_key(id));
}

} // verus!
