//! The append-only relational store and its atomic, idempotent commit.
//!
//! Four relations hold the pipeline's output: one processing record per
//! file, and per polity one snapshot row, zero or more event rows and zero
//! or more annual income rows. The store is a verified in-memory model of
//! the persistent schema: commits are all-or-nothing, a file's checksum is
//! recorded at most once, and rows are never updated or deleted. A real
//! database behind it only has to replay the same appends inside one
//! transaction.
use vstd::prelude::*;

use crate::errors::ProcessError;
use crate::events::{HistoricalEvent, HistoricalEventM};
use crate::snapshot::{CurrentState, CurrentStateM};
use crate::text::{amounts_in_range, amounts_ok, amounts_to_json, spec_amounts_json};

verus! {

/// The idempotency marker: one row per fully processed file.
pub struct ProcessedFileRow {
    pub checksum: String,
    pub file_name: String,
    pub uploaded_at: String,
}

/// One polity's snapshot at the document's current date. The income
/// components are serialized into a single JSON text field so the snapshot
/// stays one row.
pub struct SnapshotRow {
    pub checksum: String,
    pub tag: String,
    pub date: String,
    pub income_json: String,
    pub manpower: i64,
    pub max_manpower: i64,
    pub trade_income: i64,
}

/// One normalized historical event of one polity.
pub struct EventRow {
    pub checksum: String,
    pub tag: String,
    pub date: String,
    pub event_type: String,
    pub details: String,
}

/// One year of one polity's annual income series.
pub struct AnnualIncomeRow {
    pub checksum: String,
    pub tag: String,
    pub year: u16,
    pub total: i64,
}

/// Mathematical image of a processing record.
pub ghost struct ProcessedFileRowM {
    pub checksum: Seq<char>,
    pub file_name: Seq<char>,
    pub uploaded_at: Seq<char>,
}

/// Mathematical image of a snapshot row.
pub ghost struct SnapshotRowM {
    pub checksum: Seq<char>,
    pub tag: Seq<char>,
    pub date: Seq<char>,
    pub income_json: Seq<char>,
    pub manpower: i64,
    pub max_manpower: i64,
    pub trade_income: i64,
}

/// Mathematical image of an event row.
pub ghost struct EventRowM {
    pub checksum: Seq<char>,
    pub tag: Seq<char>,
    pub date: Seq<char>,
    pub event_type: Seq<char>,
    pub details: Seq<char>,
}

/// Mathematical image of an annual income row.
pub ghost struct AnnualIncomeRowM {
    pub checksum: Seq<char>,
    pub tag: Seq<char>,
    pub year: u16,
    pub total: i64,
}

impl View for ProcessedFileRow {
    type V = ProcessedFileRowM;

    open spec fn view(&self) -> ProcessedFileRowM {
        ProcessedFileRowM {
            checksum: self.checksum@,
            file_name: self.file_name@,
            uploaded_at: self.uploaded_at@,
        }
    }
}

impl DeepView for ProcessedFileRow {
    type V = ProcessedFileRowM;

    open spec fn deep_view(&self) -> ProcessedFileRowM {
        self.view()
    }
}

impl View for SnapshotRow {
    type V = SnapshotRowM;

    open spec fn view(&self) -> SnapshotRowM {
        SnapshotRowM {
            checksum: self.checksum@,
            tag: self.tag@,
            date: self.date@,
            income_json: self.income_json@,
            manpower: self.manpower,
            max_manpower: self.max_manpower,
            trade_income: self.trade_income,
        }
    }
}

impl DeepView for SnapshotRow {
    type V = SnapshotRowM;

    open spec fn deep_view(&self) -> SnapshotRowM {
        self.view()
    }
}

impl View for EventRow {
    type V = EventRowM;

    open spec fn view(&self) -> EventRowM {
        EventRowM {
            checksum: self.checksum@,
            tag: self.tag@,
            date: self.date@,
            event_type: self.event_type@,
            details: self.details@,
        }
    }
}

impl DeepView for EventRow {
    type V = EventRowM;

    open spec fn deep_view(&self) -> EventRowM {
        self.view()
    }
}

impl View for AnnualIncomeRow {
    type V = AnnualIncomeRowM;

    open spec fn view(&self) -> AnnualIncomeRowM {
        AnnualIncomeRowM {
            checksum: self.checksum@,
            tag: self.tag@,
            year: self.year,
            total: self.total,
        }
    }
}

impl DeepView for AnnualIncomeRow {
    type V = AnnualIncomeRowM;

    open spec fn deep_view(&self) -> AnnualIncomeRowM {
        self.view()
    }
}

/// Everything staged for one polity of one file: its tag, its snapshot, and
/// its normalized events. The annual income series rides inside the
/// snapshot.
pub struct PolityOutput {
    pub tag: String,
    pub state: CurrentState,
    pub events: Vec<HistoricalEvent>,
}

/// Mathematical image of a polity's staged output.
pub ghost struct PolityOutputM {
    pub tag: Seq<char>,
    pub state: CurrentStateM,
    pub events: Seq<HistoricalEventM>,
}

impl View for PolityOutput {
    type V = PolityOutputM;

    open spec fn view(&self) -> PolityOutputM {
        PolityOutputM { tag: self.tag@, state: self.state@, events: self.events.deep_view() }
    }
}

impl DeepView for PolityOutput {
    type V = PolityOutputM;

    open spec fn deep_view(&self) -> PolityOutputM {
        self.view()
    }
}

/// The store: four append-only relations.
pub struct Store {
    pub processed: Vec<ProcessedFileRow>,
    pub snapshots: Vec<SnapshotRow>,
    pub events: Vec<EventRow>,
    pub annual: Vec<AnnualIncomeRow>,
}

/// Mathematical image of the whole store.
pub ghost struct StoreM {
    pub processed: Seq<ProcessedFileRowM>,
    pub snapshots: Seq<SnapshotRowM>,
    pub events: Seq<EventRowM>,
    pub annual: Seq<AnnualIncomeRowM>,
}

impl View for Store {
    type V = StoreM;

    open spec fn view(&self) -> StoreM {
        StoreM {
            processed: self.processed.deep_view(),
            snapshots: self.snapshots.deep_view(),
            events: self.events.deep_view(),
            annual: self.annual.deep_view(),
        }
    }
}

/// Whether the store records `checksum` as fully processed.
pub open spec fn store_contains(m: StoreM, checksum: Seq<char>) -> bool {
    exists|i: int| 0 <= i < m.processed.len() && m.processed[i].checksum == checksum
}

/// The snapshot row staged for one polity.
pub open spec fn spec_snapshot_row(checksum: Seq<char>, p: PolityOutputM) -> SnapshotRowM {
    SnapshotRowM {
        checksum,
        tag: p.tag,
        date: p.state.date,
        income_json: spec_amounts_json(p.state.income),
        manpower: p.state.manpower,
        max_manpower: p.state.max_manpower,
        trade_income: p.state.trade_income,
    }
}

/// The event rows staged for one polity, in history order.
pub open spec fn spec_event_rows(checksum: Seq<char>, p: PolityOutputM) -> Seq<EventRowM> {
    p.events.map_values(
        |e: HistoricalEventM| EventRowM {
            checksum,
            tag: p.tag,
            date: e.date,
            event_type: e.event_type,
            details: e.details,
        },
    )
}

/// The annual income rows staged for one polity, in year order.
pub open spec fn spec_annual_rows(checksum: Seq<char>, p: PolityOutputM) -> Seq<AnnualIncomeRowM> {
    p.state.annual_income.map_values(
        |yt: crate::income::YearTotal| AnnualIncomeRowM {
            checksum,
            tag: p.tag,
            year: yt.year,
            total: yt.total,
        },
    )
}

/// All snapshot rows staged for a file, one per polity, in order.
pub open spec fn spec_all_snapshot_rows(checksum: Seq<char>, ps: Seq<PolityOutputM>) -> Seq<
    SnapshotRowM,
>
    decreases ps.len(),
{
    if ps.len() == 0 {
        Seq::empty()
    } else {
        spec_all_snapshot_rows(checksum, ps.drop_last()).push(spec_snapshot_row(
            checksum,
            ps.last(),
        ))
    }
}

/// All event rows staged for a file, grouped by polity, in order.
pub open spec fn spec_all_event_rows(checksum: Seq<char>, ps: Seq<PolityOutputM>) -> Seq<EventRowM>
    decreases ps.len(),
{
    if ps.len() == 0 {
        Seq::empty()
    } else {
        spec_all_event_rows(checksum, ps.drop_last()) + spec_event_rows(checksum, ps.last())
    }
}

/// All annual income rows staged for a file, grouped by polity, in order.
pub open spec fn spec_all_annual_rows(checksum: Seq<char>, ps: Seq<PolityOutputM>) -> Seq<
    AnnualIncomeRowM,
>
    decreases ps.len(),
{
    if ps.len() == 0 {
        Seq::empty()
    } else {
        spec_all_annual_rows(checksum, ps.drop_last()) + spec_annual_rows(checksum, ps.last())
    }
}

/// The store after committing a file whole: the processing record and every
/// polity's rows appended, nothing else touched.
pub open spec fn spec_committed(
    m: StoreM,
    checksum: Seq<char>,
    file_name: Seq<char>,
    uploaded_at: Seq<char>,
    ps: Seq<PolityOutputM>,
) -> StoreM {
    StoreM {
        processed: m.processed.push(ProcessedFileRowM { checksum, file_name, uploaded_at }),
        snapshots: m.snapshots + spec_all_snapshot_rows(checksum, ps),
        events: m.events + spec_all_event_rows(checksum, ps),
        annual: m.annual + spec_all_annual_rows(checksum, ps),
    }
}

/// Well-formedness of one polity's staged output: representable amounts in
/// the income components, and no repeated year in the annual series.
pub open spec fn wf_polity_output(p: PolityOutputM) -> bool {
    &&& amounts_in_range(p.state.income)
    &&& forall|i: int, j: int|
        0 <= i < j < p.state.annual_income.len() ==> p.state.annual_income[i].year
            != p.state.annual_income[j].year
}

/// Well-formedness of a whole per-polity input: each polity well formed and
/// no tag repeated.
pub open spec fn wf_polity_inputs(ps: Seq<PolityOutputM>) -> bool {
    &&& forall|i: int| 0 <= i < ps.len() ==> wf_polity_output(#[trigger] ps[i])
    &&& forall|i: int, j: int| 0 <= i < j < ps.len() ==> ps[i].tag != ps[j].tag
}

/// The store's invariants: a checksum is recorded at most once; every data
/// row belongs to a recorded file; a file has at most one snapshot per
/// polity; and no polity of a file has two annual entries for one year.
pub open spec fn wf_store(m: StoreM) -> bool {
    &&& forall|i: int, j: int|
        0 <= i < j < m.processed.len() ==> m.processed[i].checksum != m.processed[j].checksum
    &&& forall|i: int|
        0 <= i < m.snapshots.len() ==> store_contains(m, #[trigger] m.snapshots[i].checksum)
    &&& forall|i: int|
        0 <= i < m.events.len() ==> store_contains(m, #[trigger] m.events[i].checksum)
    &&& forall|i: int|
        0 <= i < m.annual.len() ==> store_contains(m, #[trigger] m.annual[i].checksum)
    &&& forall|i: int, j: int|
        0 <= i < j < m.snapshots.len() ==> !(m.snapshots[i].checksum == m.snapshots[j].checksum
            && m.snapshots[i].tag == m.snapshots[j].tag)
    &&& forall|i: int, j: int|
        0 <= i < j < m.annual.len() ==> !(m.annual[i].checksum == m.annual[j].checksum
            && m.annual[i].tag == m.annual[j].tag && m.annual[i].year == m.annual[j].year)
}

/// What a successful commit wrote: summary counts for the caller.
#[derive(PartialEq, Eq, Structural, Clone, Copy, Debug)]
pub struct CommitSummary {
    pub polities: usize,
    pub events_written: usize,
    pub income_entries: usize,
}

/// How a commit ended without failing: rows written, or a recorded
/// checksum found, which is a deliberate no-op, not an error.
#[derive(PartialEq, Eq, Structural, Clone, Copy, Debug)]
pub enum CommitOutcome {
    Committed(CommitSummary),
    AlreadyProcessed,
}

fn years_unique(v: &Vec<crate::income::YearTotal>) -> (b: bool)
    ensures
        b == (forall|i: int, j: int| 0 <= i < j < v@.len() ==> v@[i].year != v@[j].year),
{
    let n = v.len();
    let mut i: usize = 0;
    while i < n
        invariant
            0 <= i <= n,
            n == v@.len(),
            forall|p: int, q: int| 0 <= p < q < i ==> v@[p].year != v@[q].year,
            forall|p: int, q: int| 0 <= p < i && i <= q < n ==> v@[p].year != v@[q].year,
        decreases n - i,
    {
        let mut j: usize = i + 1;
        while j < n
            invariant
                0 <= i < j <= n,
                n == v@.len(),
                forall|q: int| i < q < j ==> v@[i as int].year != v@[q].year,
            decreases n - j,
        {
            if v[i].year == v[j].year {
                return false;
            }
            j = j + 1;
        }
        i = i + 1;
    }
    true
}

fn polity_ok(p: &PolityOutput) -> (b: bool)
    ensures
        b == wf_polity_output(p@),
{
    let a = amounts_ok(&p.state.income);
    let y = years_unique(&p.state.annual_income);
    assert(p@.state.income == p.state.income@);
    assert(p@.state.annual_income == p.state.annual_income@);
    a && y
}

fn inputs_ok(ps: &Vec<PolityOutput>) -> (b: bool)
    ensures
        b == wf_polity_inputs(ps.deep_view()),
{
    let n = ps.len();
    let mut i: usize = 0;
    while i < n
        invariant
            0 <= i <= n,
            n == ps@.len(),
            forall|j: int| 0 <= j < i ==> wf_polity_output(#[trigger] ps.deep_view()[j]),
            forall|p: int, q: int| 0 <= p < q < i ==> ps.deep_view()[p].tag != ps.deep_view()[q].tag,
        decreases n - i,
    {
        assert(ps.deep_view()[i as int] == ps@[i as int]@);
        if !polity_ok(&ps[i]) {
            return false;
        }
        let mut j: usize = 0;
        while j < i
            invariant
                0 <= j <= i < n,
                n == ps@.len(),
                forall|q: int| 0 <= q < j ==> ps.deep_view()[q].tag != ps.deep_view()[i as int].tag,
            decreases i - j,
        {
            assert(ps.deep_view()[j as int] == ps@[j as int]@);
            assert(ps.deep_view()[i as int] == ps@[i as int]@);
            if ps[j].tag == ps[i].tag {
                return false;
            }
            j = j + 1;
        }
        i = i + 1;
    }
    true
}

/// Every staged snapshot row belongs to its polity, in order.
proof fn lemma_all_snapshot_rows_index(checksum: Seq<char>, ps: Seq<PolityOutputM>)
    ensures
        spec_all_snapshot_rows(checksum, ps).len() == ps.len(),
        forall|i: int|
            0 <= i < ps.len() ==> #[trigger] spec_all_snapshot_rows(checksum, ps)[i]
                == spec_snapshot_row(checksum, ps[i]),
    decreases ps.len(),
{
    if ps.len() > 0 {
        lemma_all_snapshot_rows_index(checksum, ps.drop_last());
    }
}

/// Every staged event row carries the file's checksum.
proof fn lemma_all_event_rows_checksum(checksum: Seq<char>, ps: Seq<PolityOutputM>)
    ensures
        forall|k: int|
            0 <= k < spec_all_event_rows(checksum, ps).len() ==> #[trigger] spec_all_event_rows(
                checksum,
                ps,
            )[k].checksum == checksum,
    decreases ps.len(),
{
    if ps.len() > 0 {
        lemma_all_event_rows_checksum(checksum, ps.drop_last());
        let prev = spec_all_event_rows(checksum, ps.drop_last());
        let newr = spec_event_rows(checksum, ps.last());
        let all = spec_all_event_rows(checksum, ps);
        assert forall|k: int| 0 <= k < all.len() implies #[trigger] all[k].checksum == checksum by {
            if k < prev.len() {
                assert(all[k] == prev[k]);
            } else {
                assert(all[k] == newr[k - prev.len()]);
            }
        }
    }
}

/// Every staged annual row carries the file's checksum and one of its
/// polities' tags; under well-formed input, no two staged annual rows share
/// both tag and year.
proof fn lemma_all_annual_rows_shape(checksum: Seq<char>, ps: Seq<PolityOutputM>)
    requires
        wf_polity_inputs(ps),
    ensures
        forall|k: int|
            0 <= k < spec_all_annual_rows(checksum, ps).len() ==> #[trigger] spec_all_annual_rows(
                checksum,
                ps,
            )[k].checksum == checksum,
        forall|k1: int, k2: int|
            0 <= k1 < k2 < spec_all_annual_rows(checksum, ps).len() ==> !(spec_all_annual_rows(
                checksum,
                ps,
            )[k1].tag == spec_all_annual_rows(checksum, ps)[k2].tag && spec_all_annual_rows(
                checksum,
                ps,
            )[k1].year == spec_all_annual_rows(checksum, ps)[k2].year),
    decreases ps.len(),
{
    if ps.len() > 0 {
        let dl = ps.drop_last();
        let last = ps.last();
        assert(wf_polity_inputs(dl));
        lemma_all_annual_rows_shape(checksum, dl);
        lemma_annual_rows_tag_membership(checksum, dl);
        let prev = spec_all_annual_rows(checksum, dl);
        let newr = spec_annual_rows(checksum, last);
        let all = spec_all_annual_rows(checksum, ps);
        assert(all == prev + newr);
        assert(wf_polity_output(last));
        // Rows of the last polity: same tag, pairwise distinct years.
        assert(forall|j: int| 0 <= j < newr.len() ==> #[trigger] newr[j].tag == last.tag);
        assert(forall|j: int|
            0 <= j < newr.len() ==> #[trigger] newr[j].year == last.state.annual_income[j].year);
        // Rows of earlier polities carry earlier tags, all distinct from the
        // last polity's tag.
        assert forall|k: int| 0 <= k < prev.len() implies #[trigger] prev[k].tag != last.tag by {
            let i = choose|i: int| 0 <= i < dl.len() && prev[k].tag == #[trigger] dl[i].tag;
            assert(ps[i].tag != ps[ps.len() - 1].tag);
        }
    }
}

/// Every staged annual row's tag is one of the polities' tags.
proof fn lemma_annual_rows_tag_membership(checksum: Seq<char>, ps: Seq<PolityOutputM>)
    ensures
        forall|k: int|
            0 <= k < spec_all_annual_rows(checksum, ps).len() ==> exists|i: int|
                0 <= i < ps.len() && #[trigger] spec_all_annual_rows(checksum, ps)[k].tag
                    == #[trigger] ps[i].tag,
    decreases ps.len(),
{
    if ps.len() > 0 {
        let dl = ps.drop_last();
        lemma_annual_rows_tag_membership(checksum, dl);
        let prev = spec_all_annual_rows(checksum, dl);
        let all = spec_all_annual_rows(checksum, ps);
        assert forall|k: int| 0 <= k < all.len() implies exists|i: int|
            0 <= i < ps.len() && #[trigger] all[k].tag == #[trigger] ps[i].tag by {
            if k < prev.len() {
                let i = choose|i: int| 0 <= i < dl.len() && prev[k].tag == #[trigger] dl[i].tag;
                assert(all[k].tag == ps[i].tag);
            } else {
                assert(all[k].tag == ps[ps.len() - 1].tag);
            }
        }
    }
}

/// A commit of a fresh, well-formed file preserves every store invariant
/// and records the checksum.
proof fn lemma_committed_wf(
    m: StoreM,
    checksum: Seq<char>,
    file_name: Seq<char>,
    uploaded_at: Seq<char>,
    ps: Seq<PolityOutputM>,
)
    requires
        wf_store(m),
        !store_contains(m, checksum),
        wf_polity_inputs(ps),
    ensures
        wf_store(spec_committed(m, checksum, file_name, uploaded_at, ps)),
        store_contains(spec_committed(m, checksum, file_name, uploaded_at, ps), checksum),
    decreases ps.len(),
{
    let c = spec_committed(m, checksum, file_name, uploaded_at, ps);
    let np = m.processed.len() as int;
    assert(c.processed[np].checksum == checksum);
    assert(store_contains(c, checksum));
    // A checksum recorded in the old store is still recorded.
    assert forall|cs: Seq<char>| store_contains(m, cs) implies store_contains(c, cs) by {
        let i = choose|i: int| 0 <= i < m.processed.len() && m.processed[i].checksum == cs;
        assert(c.processed[i].checksum == cs);
    }
    // No old row belongs to the fresh checksum.
    assert forall|cs: Seq<char>| store_contains(m, cs) implies cs != checksum by {}
    lemma_all_snapshot_rows_index(checksum, ps);
    lemma_all_event_rows_checksum(checksum, ps);
    lemma_all_annual_rows_shape(checksum, ps);
    lemma_annual_rows_tag_membership(checksum, ps);
    assert forall|i: int| 0 <= i < c.snapshots.len() implies store_contains(
        c,
        #[trigger] c.snapshots[i].checksum,
    ) by {
        if i < m.snapshots.len() {
            assert(c.snapshots[i] == m.snapshots[i]);
            assert(store_contains(m, m.snapshots[i].checksum));
        } else {
            assert(c.snapshots[i].checksum == checksum);
        }
    }
    assert forall|i: int| 0 <= i < c.events.len() implies store_contains(
        c,
        #[trigger] c.events[i].checksum,
    ) by {
        if i < m.events.len() {
            assert(c.events[i] == m.events[i]);
            assert(store_contains(m, m.events[i].checksum));
        } else {
            assert(c.events[i].checksum == checksum);
        }
    }
    assert forall|i: int| 0 <= i < c.annual.len() implies store_contains(
        c,
        #[trigger] c.annual[i].checksum,
    ) by {
        if i < m.annual.len() {
            assert(c.annual[i] == m.annual[i]);
            assert(store_contains(m, m.annual[i].checksum));
        } else {
            assert(c.annual[i].checksum == checksum);
        }
    }
    // Snapshot rows: at most one per (checksum, tag).
    assert forall|i: int, j: int| 0 <= i < j < c.snapshots.len() implies !(c.snapshots[i].checksum
        == c.snapshots[j].checksum && c.snapshots[i].tag == c.snapshots[j].tag) by {
        let ns = m.snapshots.len() as int;
        if j < ns {
        } else if i < ns {
            assert(store_contains(m, m.snapshots[i].checksum));
            assert(c.snapshots[j].checksum == checksum);
        } else {
            assert(c.snapshots[i].tag == ps[i - ns].tag);
            assert(c.snapshots[j].tag == ps[j - ns].tag);
        }
    }
    // Annual rows: at most one per (checksum, tag, year).
    assert forall|i: int, j: int| 0 <= i < j < c.annual.len() implies !(c.annual[i].checksum
        == c.annual[j].checksum && c.annual[i].tag == c.annual[j].tag && c.annual[i].year
        == c.annual[j].year) by {
        let na = m.annual.len() as int;
        if j < na {
        } else if i < na {
            assert(store_contains(m, m.annual[i].checksum));
            assert(c.annual[j].checksum == checksum);
        } else {
            assert(!(c.annual[i].tag == c.annual[j].tag && c.annual[i].year == c.annual[j].year));
        }
    }
}

/// Commits only append: every row of the old store is still there, at its
/// old position, after a commit; nothing is ever updated or deleted.
pub proof fn lemma_commit_append_only(
    m: StoreM,
    checksum: Seq<char>,
    file_name: Seq<char>,
    uploaded_at: Seq<char>,
    ps: Seq<PolityOutputM>,
)
    ensures
        spec_committed(m, checksum, file_name, uploaded_at, ps).processed.take(
            m.processed.len() as int,
        ) == m.processed,
        spec_committed(m, checksum, file_name, uploaded_at, ps).snapshots.take(
            m.snapshots.len() as int,
        ) == m.snapshots,
        spec_committed(m, checksum, file_name, uploaded_at, ps).events.take(
            m.events.len() as int,
        ) == m.events,
        spec_committed(m, checksum, file_name, uploaded_at, ps).annual.take(
            m.annual.len() as int,
        ) == m.annual,
{
    let c = spec_committed(m, checksum, file_name, uploaded_at, ps);
    assert(c.processed.take(m.processed.len() as int) =~= m.processed);
    assert(c.snapshots.take(m.snapshots.len() as int) =~= m.snapshots);
    assert(c.events.take(m.events.len() as int) =~= m.events);
    assert(c.annual.take(m.annual.len() as int) =~= m.annual);
}

/// A file whose checksum is not recorded has no rows at all: failed or
/// rolled-back processing leaves nothing behind to query.
pub proof fn lemma_unrecorded_file_has_no_rows(m: StoreM, checksum: Seq<char>)
    requires
        wf_store(m),
        !store_contains(m, checksum),
    ensures
        forall|i: int| 0 <= i < m.snapshots.len() ==> #[trigger] m.snapshots[i].checksum != checksum,
        forall|i: int| 0 <= i < m.events.len() ==> #[trigger] m.events[i].checksum != checksum,
        forall|i: int| 0 <= i < m.annual.len() ==> #[trigger] m.annual[i].checksum != checksum,
{
}

/// In a well-formed store, no two annual income rows of one file and one
/// polity share a year.
pub proof fn lemma_annual_income_years_unique(m: StoreM)
    requires
        wf_store(m),
    ensures
        forall|i: int, j: int|
            0 <= i < m.annual.len() && 0 <= j < m.annual.len() && i != j && #[trigger] m.annual[i].checksum
                == #[trigger] m.annual[j].checksum && m.annual[i].tag == m.annual[j].tag
                ==> m.annual[i].year != m.annual[j].year,
{
}

impl Store {
    /// An empty store.
    pub fn new() -> (s: Store)
        ensures
            s@.processed.len() == 0,
            s@.snapshots.len() == 0,
            s@.events.len() == 0,
            s@.annual.len() == 0,
            wf_store(s@),
    {
        let s = Store {
            processed: Vec::new(),
            snapshots: Vec::new(),
            events: Vec::new(),
            annual: Vec::new(),
        };
        proof {
            assert(s@.processed =~= Seq::<ProcessedFileRowM>::empty());
            assert(s@.snapshots =~= Seq::<SnapshotRowM>::empty());
            assert(s@.events =~= Seq::<EventRowM>::empty());
            assert(s@.annual =~= Seq::<AnnualIncomeRowM>::empty());
        }
        s
    }

    /// Whether a file with this checksum has already been fully processed.
    pub fn contains_checksum(&self, checksum: &String) -> (b: bool)
        ensures
            b == store_contains(self@, checksum@),
    {
        let n = self.processed.len();
        let mut i: usize = 0;
        while i < n
            invariant
                0 <= i <= n,
                n == self@.processed.len(),
                forall|j: int| 0 <= j < i ==> self@.processed[j].checksum != checksum@,
            decreases n - i,
        {
            if self.processed[i].checksum == *checksum {
                assert(self@.processed[i as int].checksum == checksum@);
                return true;
            }
            i = i + 1;
        }
        false
    }

    /// Whether the store holds any data row for this checksum. In a
    /// well-formed store this can only be true of a recorded file: a failed
    /// commit leaves nothing to find.
    pub fn has_rows_for(&self, checksum: &String) -> (b: bool)
        ensures
            b == ((exists|i: int|
                0 <= i < self@.snapshots.len() && self@.snapshots[i].checksum == checksum@)
                || (exists|i: int|
                0 <= i < self@.events.len() && self@.events[i].checksum == checksum@) || (
            exists|i: int|
                0 <= i < self@.annual.len() && self@.annual[i].checksum == checksum@)),
    {
        let mut i: usize = 0;
        while i < self.snapshots.len()
            invariant
                0 <= i <= self@.snapshots.len(),
                forall|j: int| 0 <= j < i ==> self@.snapshots[j].checksum != checksum@,
            decreases self@.snapshots.len() - i,
        {
            if self.snapshots[i].checksum == *checksum {
                assert(self@.snapshots[i as int].checksum == checksum@);
                return true;
            }
            i = i + 1;
        }
        let mut j: usize = 0;
        while j < self.events.len()
            invariant
                0 <= j <= self@.events.len(),
                forall|k: int| 0 <= k < self@.snapshots.len()
                    ==> self@.snapshots[k].checksum != checksum@,
                forall|k: int| 0 <= k < j ==> self@.events[k].checksum != checksum@,
            decreases self@.events.len() - j,
        {
            if self.events[j].checksum == *checksum {
                assert(self@.events[j as int].checksum == checksum@);
                return true;
            }
            j = j + 1;
        }
        let mut k: usize = 0;
        while k < self.annual.len()
            invariant
                0 <= k <= self@.annual.len(),
                forall|q: int| 0 <= q < self@.snapshots.len()
                    ==> self@.snapshots[q].checksum != checksum@,
                forall|q: int| 0 <= q < self@.events.len()
                    ==> self@.events[q].checksum != checksum@,
                forall|q: int| 0 <= q < k ==> self@.annual[q].checksum != checksum@,
            decreases self@.annual.len() - k,
        {
            if self.annual[k].checksum == *checksum {
                assert(self@.annual[k as int].checksum == checksum@);
                return true;
            }
            k = k + 1;
        }
        false
    }

    /// Commits one file as a unit: the processing record, and for each
    /// polity one snapshot row, its event rows and its annual income rows —
    /// all of it, or, on a recorded checksum (a concurrent or repeated
    /// submission) or rejected input, nothing at all. The store is never
    /// left with part of a file.
    pub fn commit(
        &mut self,
        checksum: &String,
        file_name: &String,
        uploaded_at: &String,
        polities: &Vec<PolityOutput>,
    ) -> (r: Result<CommitOutcome, ProcessError>)
        requires
            wf_store(old(self)@),
        ensures
            wf_store(final(self)@),
            r is Err ==> final(self)@ == old(self)@ && r->Err_0 is Persistence,
            (r matches Ok(CommitOutcome::AlreadyProcessed)) <==> store_contains(
                old(self)@,
                checksum@,
            ),
            r matches Ok(CommitOutcome::AlreadyProcessed) ==> final(self)@ == old(self)@,
            r is Err <==> (!store_contains(old(self)@, checksum@) && !wf_polity_inputs(
                polities.deep_view(),
            )),
            r matches Ok(CommitOutcome::Committed(s)) ==> ({
                &&& !store_contains(old(self)@, checksum@)
                &&& wf_polity_inputs(polities.deep_view())
                &&& final(self)@ == spec_committed(
                    old(self)@,
                    checksum@,
                    file_name@,
                    uploaded_at@,
                    polities.deep_view(),
                )
                &&& store_contains(final(self)@, checksum@)
                &&& s.polities == polities.deep_view().len()
                &&& s.events_written == spec_all_event_rows(checksum@, polities.deep_view()).len()
                &&& s.income_entries == spec_all_annual_rows(
                    checksum@,
                    polities.deep_view(),
                ).len()
            }),
    {
        if self.contains_checksum(checksum) {
            return Ok(CommitOutcome::AlreadyProcessed);
        }
        if !inputs_ok(polities) {
            return Err(
                ProcessError::Persistence(String::from_str("per-polity rows failed validation")),
            );
        }
        let ghost m0 = self@;
        let ghost ps = polities.deep_view();
        let ghost prow = ProcessedFileRowM {
            checksum: checksum@,
            file_name: file_name@,
            uploaded_at: uploaded_at@,
        };
        let events0 = self.events.len();
        let annual0 = self.annual.len();
        self.processed.push(
            ProcessedFileRow {
                checksum: checksum.clone(),
                file_name: file_name.clone(),
                uploaded_at: uploaded_at.clone(),
            },
        );
        proof {
            assert(self@.processed =~= m0.processed.push(prow));
            assert(ps.take(0) =~= Seq::<PolityOutputM>::empty());
            assert(self@.snapshots =~= m0.snapshots + spec_all_snapshot_rows(
                checksum@,
                ps.take(0),
            ));
            assert(self@.events =~= m0.events + spec_all_event_rows(checksum@, ps.take(0)));
            assert(self@.annual =~= m0.annual + spec_all_annual_rows(checksum@, ps.take(0)));
        }
        let n = polities.len();
        let mut i: usize = 0;
        while i < n
            invariant
                0 <= i <= n,
                n == ps.len(),
                ps == polities.deep_view(),
                wf_polity_inputs(ps),
                self@.processed == m0.processed.push(prow),
                self@.snapshots == m0.snapshots + spec_all_snapshot_rows(
                    checksum@,
                    ps.take(i as int),
                ),
                self@.events == m0.events + spec_all_event_rows(checksum@, ps.take(i as int)),
                self@.annual == m0.annual + spec_all_annual_rows(checksum@, ps.take(i as int)),
            decreases n - i,
        {
            let p = &polities[i];
            proof {
                assert(ps[i as int] == polities@[i as int]@);
                assert(wf_polity_output(ps[i as int]));
            }
            let income_json = amounts_to_json(&p.state.income);
            let srow = SnapshotRow {
                checksum: checksum.clone(),
                tag: p.tag.clone(),
                date: p.state.date.clone(),
                income_json,
                manpower: p.state.manpower,
                max_manpower: p.state.max_manpower,
                trade_income: p.state.trade_income,
            };
            assert(srow@ == spec_snapshot_row(checksum@, ps[i as int]));
            let ghost pre_vec = self.snapshots@;
            let ghost pre_deep = self@.snapshots;
            let ghost srow_m = srow@;
            self.snapshots.push(srow);
            proof {
                assert(self.snapshots@ == pre_vec.push(srow));
                assert forall|idx: int| 0 <= idx < pre_vec.len() implies #[trigger] self@.snapshots[idx]
                    == pre_deep[idx] by {
                    assert(self.snapshots@[idx] == pre_vec[idx]);
                }
                assert(self@.snapshots[pre_vec.len() as int] == srow_m);
                assert(self@.snapshots =~= pre_deep.push(srow_m));
                let t = ps.take(i as int + 1);
                assert(t.drop_last() =~= ps.take(i as int));
                assert(t.last() == ps[i as int]);
                assert(self@.snapshots =~= m0.snapshots + spec_all_snapshot_rows(checksum@, t));
            }
            let ghost ev_base = self@.events;
            let ghost snap_now = self@.snapshots;
            let ghost ann_now = self@.annual;
            let mut j: usize = 0;
            while j < p.events.len()
                invariant
                    0 <= j <= p.events@.len(),
                    0 <= i < n,
                    n == ps.len(),
                    ps == polities.deep_view(),
                    ps[i as int] == polities@[i as int]@,
                    p == &polities@[i as int],
                    self@.processed == m0.processed.push(prow),
                    self@.snapshots == snap_now,
                    self@.annual == ann_now,
                    self@.events == ev_base + spec_event_rows(checksum@, ps[i as int]).take(
                        j as int,
                    ),
                decreases p.events@.len() - j,
            {
                let e = &p.events[j];
                let erow = EventRow {
                    checksum: checksum.clone(),
                    tag: p.tag.clone(),
                    date: e.date.clone(),
                    event_type: e.event_type.clone(),
                    details: e.details.clone(),
                };
                proof {
                    let rows = spec_event_rows(checksum@, ps[i as int]);
                    assert(ps[i as int].events[j as int] == p.events@[j as int]@);
                    assert(rows[j as int] == EventRowM {
                        checksum: checksum@,
                        tag: ps[i as int].tag,
                        date: ps[i as int].events[j as int].date,
                        event_type: ps[i as int].events[j as int].event_type,
                        details: ps[i as int].events[j as int].details,
                    });
                    assert(erow@ == rows[j as int]);
                }
                let ghost pre_vec = self.events@;
                let ghost pre_deep = self@.events;
                let ghost erow_m = erow@;
                self.events.push(erow);
                proof {
                    let rows = spec_event_rows(checksum@, ps[i as int]);
                    assert(self.events@ == pre_vec.push(erow));
                    assert forall|idx: int| 0 <= idx < pre_vec.len() implies #[trigger] self@.events[idx]
                        == pre_deep[idx] by {
                        assert(self.events@[idx] == pre_vec[idx]);
                    }
                    assert(self@.events[pre_vec.len() as int] == erow_m);
                    assert(self@.events =~= pre_deep.push(erow_m));
                    assert(rows.take(j as int + 1) =~= rows.take(j as int).push(rows[j as int]));
                    assert(self@.events =~= ev_base + rows.take(j as int + 1));
                }
                j = j + 1;
            }
            proof {
                let rows = spec_event_rows(checksum@, ps[i as int]);
                assert(rows.take(p.events@.len() as int) =~= rows);
            }
            let mut k: usize = 0;
            while k < p.state.annual_income.len()
                invariant
                    0 <= k <= p.state.annual_income@.len(),
                    0 <= i < n,
                    n == ps.len(),
                    ps == polities.deep_view(),
                    ps[i as int] == polities@[i as int]@,
                    p == &polities@[i as int],
                    self@.processed == m0.processed.push(prow),
                    self@.snapshots == snap_now,
                    self@.events == ev_base + spec_event_rows(checksum@, ps[i as int]),
                    self@.annual == ann_now + spec_annual_rows(checksum@, ps[i as int]).take(
                        k as int,
                    ),
                decreases p.state.annual_income@.len() - k,
            {
                let yt = p.state.annual_income[k];
                let arow = AnnualIncomeRow {
                    checksum: checksum.clone(),
                    tag: p.tag.clone(),
                    year: yt.year,
                    total: yt.total,
                };
                proof {
                    let rows = spec_annual_rows(checksum@, ps[i as int]);
                    assert(ps[i as int].state.annual_income[k as int] == p.state.annual_income@[k as int]);
                    assert(rows[k as int] == AnnualIncomeRowM {
                        checksum: checksum@,
                        tag: ps[i as int].tag,
                        year: ps[i as int].state.annual_income[k as int].year,
                        total: ps[i as int].state.annual_income[k as int].total,
                    });
                    assert(arow@ == rows[k as int]);
                }
                let ghost pre_vec = self.annual@;
                let ghost pre_deep = self@.annual;
                let ghost arow_m = arow@;
                self.annual.push(arow);
                proof {
                    let rows = spec_annual_rows(checksum@, ps[i as int]);
                    assert(self.annual@ == pre_vec.push(arow));
                    assert forall|idx: int| 0 <= idx < pre_vec.len() implies #[trigger] self@.annual[idx]
                        == pre_deep[idx] by {
                        assert(self.annual@[idx] == pre_vec[idx]);
                    }
                    assert(self@.annual[pre_vec.len() as int] == arow_m);
                    assert(self@.annual =~= pre_deep.push(arow_m));
                    assert(rows.take(k as int + 1) =~= rows.take(k as int).push(rows[k as int]));
                    assert(self@.annual =~= ann_now + rows.take(k as int + 1));
                }
                k = k + 1;
            }
            proof {
                let rows = spec_annual_rows(checksum@, ps[i as int]);
                assert(rows.take(p.state.annual_income@.len() as int) =~= rows);
                let t = ps.take(i as int + 1);
                assert(t.drop_last() =~= ps.take(i as int));
                assert(t.last() == ps[i as int]);
                assert(self@.events =~= m0.events + spec_all_event_rows(checksum@, t));
                assert(self@.annual =~= m0.annual + spec_all_annual_rows(checksum@, t));
            }
            i = i + 1;
        }
        proof {
            assert(ps.take(n as int) =~= ps);
            lemma_committed_wf(m0, checksum@, file_name@, uploaded_at@, ps);
            assert(self@ == spec_committed(m0, checksum@, file_name@, uploaded_at@, ps));
        }
        let events_written = self.events.len() - events0;
        let income_entries = self.annual.len() - annual0;
        let summary = CommitSummary { polities: n, events_written, income_entries };
        Ok(CommitOutcome::Committed(summary))
    }
}

} // verus!
