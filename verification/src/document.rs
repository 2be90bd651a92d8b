//! The pipeline's view of a decoded save document.
//!
//! The save container itself is decoded by an outside collaborator; this
//! module models what the pipeline reads from it as plain values: per-polity
//! records, tag lineages reconstructed from the document's identity data,
//! and the sparse income ledger. Monetary quantities are fixed-point
//! amounts (see `text`).
use vstd::prelude::*;

use crate::events::{wf_event_variant, EventVariant, RawEvent};
use crate::income::{samples_in_range, LedgerSample};
use crate::text::{amount_in_range, amounts_in_range, amounts_ok, AMOUNT_LIMIT};

verus! {

/// The current-date record of one polity in the document.
pub struct CountryRecord {
    pub tag: String,
    /// Ordered monthly income components of the polity's ledger.
    pub income: Vec<i64>,
    pub manpower: i64,
    pub max_manpower: i64,
    /// The trade component of the polity's income breakdown.
    pub trade_income: i64,
    /// The polity's recorded history, in document order.
    pub events: Vec<RawEvent>,
}

/// The identity record of one lineage: the ordered chain of tags a polity
/// has carried, and who played it.
pub struct TagLineage {
    /// The tags in historical order; the first is the lineage's initial
    /// identity, the last its identity at the document's current date.
    pub tags: Vec<String>,
    /// Whether a human player controls this lineage.
    pub is_human: bool,
    /// Display names of the players who controlled the lineage.
    pub player_names: Vec<String>,
}

/// Everything the pipeline reads from one decoded save document.
pub struct DocumentModel {
    pub current_date: String,
    pub records: Vec<CountryRecord>,
    pub lineages: Vec<TagLineage>,
    pub ledger: Vec<LedgerSample>,
}

/// Well-formedness of a record: every amount representable, every
/// unrecognized event variant carrying its raw rendering.
pub open spec fn wf_record(r: CountryRecord) -> bool {
    &&& amounts_in_range(r.income@)
    &&& amount_in_range(r.manpower as int)
    &&& amount_in_range(r.max_manpower as int)
    &&& amount_in_range(r.trade_income as int)
    &&& forall|i: int| 0 <= i < r.events@.len() ==> wf_event_variant(#[trigger] r.events@[i].variant)
}

/// Well-formedness of a whole document model.
pub open spec fn wf_document(doc: DocumentModel) -> bool {
    &&& forall|i: int| 0 <= i < doc.records@.len() ==> wf_record(#[trigger] doc.records@[i])
    &&& samples_in_range(doc.ledger@)
}

/// Checks at run time that a decoded document meets the pipeline's
/// assumptions, so an unverified boundary can test before handing one in.
pub fn document_ok(doc: &DocumentModel) -> (b: bool)
    ensures
        b == wf_document(*doc),
{
    let mut i: usize = 0;
    while i < doc.records.len()
        invariant
            0 <= i <= doc.records@.len(),
            forall|q: int| 0 <= q < i ==> wf_record(#[trigger] doc.records@[q]),
        decreases doc.records@.len() - i,
    {
        let r = &doc.records[i];
        assert(*r == doc.records@[i as int]);
        if !amounts_ok(&r.income) {
            return false;
        }
        if r.manpower < -AMOUNT_LIMIT || r.manpower > AMOUNT_LIMIT {
            return false;
        }
        if r.max_manpower < -AMOUNT_LIMIT || r.max_manpower > AMOUNT_LIMIT {
            return false;
        }
        if r.trade_income < -AMOUNT_LIMIT || r.trade_income > AMOUNT_LIMIT {
            return false;
        }
        let mut j: usize = 0;
        while j < r.events.len()
            invariant
                0 <= j <= r.events@.len(),
                0 <= i < doc.records@.len(),
                *r == doc.records@[i as int],
                forall|q: int| 0 <= q < i ==> wf_record(#[trigger] doc.records@[q]),
                amounts_in_range(r.income@),
                amount_in_range(r.manpower as int),
                amount_in_range(r.max_manpower as int),
                amount_in_range(r.trade_income as int),
                forall|k: int| 0 <= k < j ==> wf_event_variant(#[trigger] r.events@[k].variant),
            decreases r.events@.len() - j,
        {
            match &r.events[j].variant {
                EventVariant::Other(raw) => {
                    if raw.as_str().is_empty() {
                        assert(!wf_event_variant(doc.records@[i as int].events@[j as int].variant));
                        return false;
                    }
                },
                _ => {},
            }
            j = j + 1;
        }
        assert(wf_record(doc.records@[i as int]));
        i = i + 1;
    }
    let mut k: usize = 0;
    while k < doc.ledger.len()
        invariant
            0 <= k <= doc.ledger@.len(),
            forall|q: int| 0 <= q < doc.records@.len() ==> wf_record(#[trigger] doc.records@[q]),
            forall|q: int| 0 <= q < k ==> amount_in_range(#[trigger] doc.ledger@[q].value as int),
        decreases doc.ledger@.len() - k,
    {
        let v = doc.ledger[k].value;
        if v < -AMOUNT_LIMIT || v > AMOUNT_LIMIT {
            assert(!samples_in_range(doc.ledger@));
            return false;
        }
        k = k + 1;
    }
    true
}

/// The first record carrying `tag`, if any.
pub open spec fn spec_find_record(s: Seq<CountryRecord>, tag: Seq<char>) -> Option<CountryRecord>
    decreases s.len(),
{
    if s.len() == 0 {
        None
    } else if s.first().tag@ == tag {
        Some(s.first())
    } else {
        spec_find_record(s.drop_first(), tag)
    }
}

/// Looks a polity's current record up by tag.
pub fn find_record<'a>(doc: &'a DocumentModel, tag: &String) -> (r: Option<&'a CountryRecord>)
    ensures
        r is Some <==> spec_find_record(doc.records@, tag@) is Some,
        r matches Some(rec) ==> spec_find_record(doc.records@, tag@) == Some(*rec),
{
    let n = doc.records.len();
    let mut i: usize = 0;
    assert(doc.records@.skip(0) =~= doc.records@);
    while i < n
        invariant
            0 <= i <= n,
            n == doc.records@.len(),
            spec_find_record(doc.records@.skip(i as int), tag@) == spec_find_record(
                doc.records@,
                tag@,
            ),
        decreases n - i,
    {
        proof {
            let s = doc.records@.skip(i as int);
            assert(s.first() == doc.records@[i as int]);
            assert(s.drop_first() =~= doc.records@.skip(i as int + 1));
        }
        if doc.records[i].tag == *tag {
            return Some(&doc.records[i]);
        }
        i = i + 1;
    }
    assert(doc.records@.skip(n as int) =~= Seq::<CountryRecord>::empty());
    None
}

} // verus!
