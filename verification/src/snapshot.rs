//! Extraction of a polity's point-in-time state.
//!
//! A snapshot gathers, for one polity at the document's current date, the
//! ordered income components, manpower figures, trade income, and the
//! annual income series reduced from the ledger. A tag with no matching
//! record yields a recoverable not-found error: the caller skips that
//! polity and continues with the others.
use vstd::prelude::*;

use crate::document::{spec_find_record, wf_document, CountryRecord, DocumentModel};
use crate::errors::ProcessError;
use crate::income::{aggregate_annual, spec_annual_entries, YearTotal};

verus! {

/// The point-in-time state of one polity at the document's current date.
pub struct CurrentState {
    pub date: String,
    /// Ordered monthly income components, as fixed-point amounts.
    pub income: Vec<i64>,
    pub manpower: i64,
    pub max_manpower: i64,
    pub trade_income: i64,
    /// The annual income series: one entry per sampled year, sorted.
    pub annual_income: Vec<YearTotal>,
}

/// Mathematical image of a snapshot.
pub ghost struct CurrentStateM {
    pub date: Seq<char>,
    pub income: Seq<i64>,
    pub manpower: i64,
    pub max_manpower: i64,
    pub trade_income: i64,
    pub annual_income: Seq<YearTotal>,
}

impl View for CurrentState {
    type V = CurrentStateM;

    open spec fn view(&self) -> CurrentStateM {
        CurrentStateM {
            date: self.date@,
            income: self.income@,
            manpower: self.manpower,
            max_manpower: self.max_manpower,
            trade_income: self.trade_income,
            annual_income: self.annual_income@,
        }
    }
}

impl DeepView for CurrentState {
    type V = CurrentStateM;

    open spec fn deep_view(&self) -> CurrentStateM {
        self.view()
    }
}

/// The snapshot a record extracts to, given the document it came from.
pub open spec fn spec_current_state_of(doc: DocumentModel, rec: CountryRecord) -> CurrentStateM {
    CurrentStateM {
        date: doc.current_date@,
        income: rec.income@,
        manpower: rec.manpower,
        max_manpower: rec.max_manpower,
        trade_income: rec.trade_income,
        annual_income: spec_annual_entries(doc.ledger@, rec.tag@),
    }
}

/// Extracts the current state of the polity carrying `tag`. Succeeds
/// exactly when the document holds a record for the tag; otherwise the
/// polity is reported as not found.
pub fn extract_current_state(doc: &DocumentModel, tag: &String) -> (r: Result<
    CurrentState,
    ProcessError,
>)
    requires
        wf_document(*doc),
    ensures
        r is Ok <==> spec_find_record(doc.records@, tag@) is Some,
        r matches Ok(cs) ==> (spec_find_record(doc.records@, tag@) matches Some(rec)
            && cs@ == spec_current_state_of(*doc, rec)),
        r is Err ==> r->Err_0 is NotFound,
{
    match crate::document::find_record(doc, tag) {
        Some(rec) => {
            let income = rec.income.clone();
            assert(income@ =~= rec.income@);
            let annual_income = aggregate_annual(&doc.ledger, &rec.tag);
            let cs = CurrentState {
                date: doc.current_date.clone(),
                income,
                manpower: rec.manpower,
                max_manpower: rec.max_manpower,
                trade_income: rec.trade_income,
                annual_income,
            };
            assert(cs@ == spec_current_state_of(*doc, spec_find_record(doc.records@, tag@)->0));
            Ok(cs)
        },
        None => Err(ProcessError::NotFound(tag.clone())),
    }
}

} // verus!
