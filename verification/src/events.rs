//! Normalization of a polity's historical events.
//!
//! A save document records history as a tagged union of event variants. The
//! normalizer maps each variant to a flat record `(date, kind, detail)`. The
//! variant set is closed but carries a mandatory catch-all: an unrecognized
//! variant arrives as `Other` holding a generic textual rendering of the
//! original data, and normalizes to the kind `"Unknown"` — no event is ever
//! silently dropped.
use vstd::prelude::*;

use crate::text::{spec_dec_nat, u64_to_string};

verus! {

/// Name and skill scores of a monarch, heir or queen.
pub struct RulerInfo {
    pub name: String,
    pub dip: u16,
    pub adm: u16,
    pub mil: u16,
}

/// One historical event of a polity, as the document records it.
pub enum EventVariant {
    Monarch(RulerInfo),
    Heir(RulerInfo),
    Queen(RulerInfo),
    Leader { name: String, kind: String },
    Capital { province_id: u32 },
    ChangedCountryNameFrom(String),
    ChangedCountryAdjectiveFrom(String),
    ChangedCountryMapColorFrom { red: u8, green: u8, blue: u8 },
    NationalFocus(String),
    AddAcceptedCulture(String),
    /// Any variant this pipeline does not recognize, carried as a generic
    /// textual rendering of the original data.
    Other(String),
}

/// A dated raw event.
pub struct RawEvent {
    pub date: String,
    pub variant: EventVariant,
}

/// A normalized event record, ready for persistence.
pub struct HistoricalEvent {
    pub date: String,
    pub event_type: String,
    pub details: String,
}

/// Mathematical image of a normalized event record.
pub ghost struct HistoricalEventM {
    pub date: Seq<char>,
    pub event_type: Seq<char>,
    pub details: Seq<char>,
}

impl View for HistoricalEvent {
    type V = HistoricalEventM;

    open spec fn view(&self) -> HistoricalEventM {
        HistoricalEventM { date: self.date@, event_type: self.event_type@, details: self.details@ }
    }
}

impl DeepView for HistoricalEvent {
    type V = HistoricalEventM;

    open spec fn deep_view(&self) -> HistoricalEventM {
        self.view()
    }
}

/// A raw event is well formed when an unrecognized variant carries a
/// non-empty rendering of the original data.
pub open spec fn wf_event_variant(v: EventVariant) -> bool {
    v matches EventVariant::Other(s) ==> s@.len() > 0
}

/// The detail text of a ruler event.
pub open spec fn spec_ruler_detail(r: RulerInfo) -> Seq<char> {
    "Name: "@ + r.name@ + ", Dip: "@ + spec_dec_nat(r.dip as nat) + ", Adm: "@ + spec_dec_nat(
        r.adm as nat,
    ) + ", Mil: "@ + spec_dec_nat(r.mil as nat)
}

/// The canonical kind label of an event variant.
pub open spec fn spec_event_kind(v: EventVariant) -> Seq<char> {
    match v {
        EventVariant::Monarch(_) => "Monarch"@,
        EventVariant::Heir(_) => "Heir"@,
        EventVariant::Queen(_) => "Queen"@,
        EventVariant::Leader { .. } => "Leader"@,
        EventVariant::Capital { .. } => "Capital"@,
        EventVariant::ChangedCountryNameFrom(_) => "ChangedCountryNameFrom"@,
        EventVariant::ChangedCountryAdjectiveFrom(_) => "ChangedCountryAdjectiveFrom"@,
        EventVariant::ChangedCountryMapColorFrom { .. } => "ChangedCountryMapColorFrom"@,
        EventVariant::NationalFocus(_) => "NationalFocus"@,
        EventVariant::AddAcceptedCulture(_) => "AddAcceptedCulture"@,
        EventVariant::Other(_) => "Unknown"@,
    }
}

/// The detail text of an event variant.
pub open spec fn spec_event_detail(v: EventVariant) -> Seq<char> {
    match v {
        EventVariant::Monarch(r) => spec_ruler_detail(r),
        EventVariant::Heir(r) => spec_ruler_detail(r),
        EventVariant::Queen(r) => spec_ruler_detail(r),
        EventVariant::Leader { name, kind } => "Name: "@ + name@ + ", Kind: "@ + kind@,
        EventVariant::Capital { province_id } => "Province ID: "@ + spec_dec_nat(
            province_id as nat,
        ),
        EventVariant::ChangedCountryNameFrom(n) => "From: "@ + n@,
        EventVariant::ChangedCountryAdjectiveFrom(a) => "From: "@ + a@,
        EventVariant::ChangedCountryMapColorFrom { red, green, blue } => "From: ["@ + spec_dec_nat(
            red as nat,
        ) + ", "@ + spec_dec_nat(green as nat) + ", "@ + spec_dec_nat(blue as nat) + "]"@,
        EventVariant::NationalFocus(f) => "Focus: "@ + f@,
        EventVariant::AddAcceptedCulture(c) => "Culture: "@ + c@,
        EventVariant::Other(raw) => raw@,
    }
}

/// The normalized record of one raw event.
pub open spec fn spec_normalize_event(e: RawEvent) -> HistoricalEventM {
    HistoricalEventM {
        date: e.date@,
        event_type: spec_event_kind(e.variant),
        details: spec_event_detail(e.variant),
    }
}

/// The normalized records of a whole history, in input order.
pub open spec fn spec_normalize(events: Seq<RawEvent>) -> Seq<HistoricalEventM> {
    events.map_values(|e: RawEvent| spec_normalize_event(e))
}

fn ruler_detail(r: &RulerInfo) -> (s: String)
    ensures
        s@ == spec_ruler_detail(*r),
{
    let mut s = String::from_str("Name: ");
    s.append(r.name.as_str());
    s.append(", Dip: ");
    s.append(u64_to_string(r.dip as u64).as_str());
    s.append(", Adm: ");
    s.append(u64_to_string(r.adm as u64).as_str());
    s.append(", Mil: ");
    s.append(u64_to_string(r.mil as u64).as_str());
    assert(s@ =~= spec_ruler_detail(*r));
    s
}

/// Normalizes one raw event to its flat record.
pub fn normalize_event(e: &RawEvent) -> (r: HistoricalEvent)
    ensures
        r@ == spec_normalize_event(*e),
{
    let date = e.date.clone();
    match &e.variant {
        EventVariant::Monarch(ruler) => HistoricalEvent {
            date,
            event_type: String::from_str("Monarch"),
            details: ruler_detail(ruler),
        },
        EventVariant::Heir(ruler) => HistoricalEvent {
            date,
            event_type: String::from_str("Heir"),
            details: ruler_detail(ruler),
        },
        EventVariant::Queen(ruler) => HistoricalEvent {
            date,
            event_type: String::from_str("Queen"),
            details: ruler_detail(ruler),
        },
        EventVariant::Leader { name, kind } => {
            let mut details = String::from_str("Name: ");
            details.append(name.as_str());
            details.append(", Kind: ");
            details.append(kind.as_str());
            assert(details@ =~= spec_event_detail(e.variant));
            HistoricalEvent { date, event_type: String::from_str("Leader"), details }
        },
        EventVariant::Capital { province_id } => {
            let mut details = String::from_str("Province ID: ");
            details.append(u64_to_string(*province_id as u64).as_str());
            assert(details@ =~= spec_event_detail(e.variant));
            HistoricalEvent { date, event_type: String::from_str("Capital"), details }
        },
        EventVariant::ChangedCountryNameFrom(n) => {
            let mut details = String::from_str("From: ");
            details.append(n.as_str());
            assert(details@ =~= spec_event_detail(e.variant));
            HistoricalEvent {
                date,
                event_type: String::from_str("ChangedCountryNameFrom"),
                details,
            }
        },
        EventVariant::ChangedCountryAdjectiveFrom(a) => {
            let mut details = String::from_str("From: ");
            details.append(a.as_str());
            assert(details@ =~= spec_event_detail(e.variant));
            HistoricalEvent {
                date,
                event_type: String::from_str("ChangedCountryAdjectiveFrom"),
                details,
            }
        },
        EventVariant::ChangedCountryMapColorFrom { red, green, blue } => {
            let mut details = String::from_str("From: [");
            details.append(u64_to_string(*red as u64).as_str());
            details.append(", ");
            details.append(u64_to_string(*green as u64).as_str());
            details.append(", ");
            details.append(u64_to_string(*blue as u64).as_str());
            details.append("]");
            assert(details@ =~= spec_event_detail(e.variant));
            HistoricalEvent {
                date,
                event_type: String::from_str("ChangedCountryMapColorFrom"),
                details,
            }
        },
        EventVariant::NationalFocus(f) => {
            let mut details = String::from_str("Focus: ");
            details.append(f.as_str());
            assert(details@ =~= spec_event_detail(e.variant));
            HistoricalEvent { date, event_type: String::from_str("NationalFocus"), details }
        },
        EventVariant::AddAcceptedCulture(c) => {
            let mut details = String::from_str("Culture: ");
            details.append(c.as_str());
            assert(details@ =~= spec_event_detail(e.variant));
            HistoricalEvent { date, event_type: String::from_str("AddAcceptedCulture"), details }
        },
        EventVariant::Other(raw) => HistoricalEvent {
            date,
            event_type: String::from_str("Unknown"),
            details: raw.clone(),
        },
    }
}

/// Normalizes a polity's whole event history, preserving order: one output
/// record for every input event.
pub fn extract_historical_events(events: &Vec<RawEvent>) -> (r: Vec<HistoricalEvent>)
    ensures
        r.deep_view() == spec_normalize(events@),
        r@.len() == events@.len(),
{
    let mut r: Vec<HistoricalEvent> = Vec::new();
    let mut i: usize = 0;
    while i < events.len()
        invariant
            0 <= i <= events@.len(),
            r@.len() == i,
            forall|j: int| 0 <= j < i ==> r@[j]@ == spec_normalize_event(#[trigger] events@[j]),
        decreases events@.len() - i,
    {
        r.push(normalize_event(&events[i]));
        i = i + 1;
    }
    assert(r.deep_view() =~= spec_normalize(events@));
    r
}

/// Normalization is total and order-preserving: every input event, however
/// unfamiliar its variant, yields exactly one record, in input order, whose
/// kind and detail are both non-empty; an unrecognized variant yields the
/// kind "Unknown" with the original data preserved in the detail.
pub proof fn lemma_normalization_total(events: Seq<RawEvent>)
    requires
        forall|i: int| 0 <= i < events.len() ==> wf_event_variant(#[trigger] events[i].variant),
    ensures
        spec_normalize(events).len() == events.len(),
        forall|i: int| 0 <= i < events.len() ==> #[trigger] spec_normalize(events)[i]
            == spec_normalize_event(events[i]),
        forall|i: int| 0 <= i < events.len() ==> (#[trigger] spec_normalize(
            events,
        )[i].event_type.len() > 0 && spec_normalize(events)[i].details.len() > 0),
        forall|i: int|
            0 <= i < events.len() && !(events[i].variant matches EventVariant::Other(_))
                ==> #[trigger] spec_normalize(events)[i].event_type != "Unknown"@,
        forall|i: int|
            0 <= i < events.len() ==> (#[trigger] events[i].variant matches EventVariant::Other(
                raw,
            ) ==> (spec_normalize(events)[i].event_type == "Unknown"@ && spec_normalize(
                events,
            )[i].details == raw@)),
{
    reveal_strlit("Monarch");
    reveal_strlit("Heir");
    reveal_strlit("Queen");
    reveal_strlit("Leader");
    reveal_strlit("Capital");
    reveal_strlit("ChangedCountryNameFrom");
    reveal_strlit("ChangedCountryAdjectiveFrom");
    reveal_strlit("ChangedCountryMapColorFrom");
    reveal_strlit("NationalFocus");
    reveal_strlit("AddAcceptedCulture");
    reveal_strlit("Unknown");
    reveal_strlit("Name: ");
    reveal_strlit("Province ID: ");
    reveal_strlit("From: ");
    reveal_strlit("From: [");
    reveal_strlit("Focus: ");
    reveal_strlit("Culture: ");
    assert forall|i: int| 0 <= i < events.len() implies #[trigger] spec_normalize(
        events,
    )[i].event_type.len() > 0 && spec_normalize(events)[i].details.len() > 0 by {
        let v = events[i].variant;
        assert(wf_event_variant(v));
        assert(spec_event_kind(v).len() > 0);
        assert(spec_event_detail(v).len() > 0);
    }
    assert forall|i: int|
        0 <= i < events.len() && !(events[i].variant matches EventVariant::Other(_)) implies #[trigger] spec_normalize(
        events,
    )[i].event_type != "Unknown"@ by {
        let v = events[i].variant;
        assert("Unknown"@[0] == 'U');
        assert(spec_event_kind(v)[0] != 'U');
        assert(spec_event_kind(v) != "Unknown"@);
    }
}

} // verus!
