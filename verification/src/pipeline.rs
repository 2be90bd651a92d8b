//! The extraction-normalization-persistence pipeline for one save blob.
//!
//! Control flow: the checksum gate decides whether to proceed; the resolver
//! enumerates the player-controlled polities; for each, the snapshot,
//! normalized events and annual income series are derived independently;
//! and the whole result is committed as one unit. A polity whose resolved
//! tag has no record in the document is skipped — the file and the other
//! polities still go through. An already-recorded checksum makes the whole
//! run a deliberate no-op.
use vstd::prelude::*;

use crate::digest::{calculate_checksum, spec_checksum_of};
use crate::document::{find_record, spec_find_record, wf_document, CountryRecord, DocumentModel};
use crate::errors::ProcessError;
use crate::events::{extract_historical_events, spec_normalize};
use crate::resolver::{resolve_player_polities, spec_resolve, PolityTimelineM};
use crate::snapshot::{extract_current_state, spec_current_state_of};
use crate::store::{
    spec_all_annual_rows, spec_all_event_rows, spec_committed, store_contains, wf_polity_inputs,
    wf_store, CommitOutcome, CommitSummary, PolityOutput, PolityOutputM, Store, StoreM,
};

verus! {

/// The checksum gate's decision for a blob.
pub enum GateDecision {
    /// The store already records this content: stop without side effects.
    Skip,
    /// Fresh content; the hash is carried through to persistence.
    Proceed(String),
}

/// How processing one file ended without failing.
#[derive(PartialEq, Eq, Structural, Clone, Copy, Debug)]
pub enum ProcessOutcome {
    /// Extraction and commit went through; the counts say what was
    /// written.
    Processed(CommitSummary),
    /// The file had already been fully processed: nothing was written.
    Skipped,
}

/// Decides whether a blob needs processing: computes its content checksum
/// and looks it up among the recorded files.
pub fn should_process(store: &Store, data: &[u8]) -> (r: GateDecision)
    ensures
        r is Skip <==> store_contains(store@, spec_checksum_of(data@)),
        r matches GateDecision::Proceed(h) ==> h@ == spec_checksum_of(data@) && h@.len() == 64,
{
    let h = calculate_checksum(data);
    if store.contains_checksum(&h) {
        GateDecision::Skip
    } else {
        GateDecision::Proceed(h)
    }
}

/// The staged output of one resolved polity whose record was found.
pub open spec fn spec_polity_output_of(
    doc: DocumentModel,
    tl: PolityTimelineM,
    rec: CountryRecord,
) -> PolityOutputM {
    PolityOutputM {
        tag: tl.latest_tag,
        state: spec_current_state_of(doc, rec),
        events: spec_normalize(rec.events@),
    }
}

/// The staged outputs of a run over the given timelines: one per timeline
/// whose latest tag has a record, in order; the others are skipped.
pub open spec fn spec_outputs_of(doc: DocumentModel, tls: Seq<PolityTimelineM>) -> Seq<
    PolityOutputM,
>
    decreases tls.len(),
{
    if tls.len() == 0 {
        Seq::empty()
    } else {
        let prev = spec_outputs_of(doc, tls.drop_last());
        let tl = tls.last();
        match spec_find_record(doc.records@, tl.latest_tag) {
            Some(rec) => prev.push(spec_polity_output_of(doc, tl, rec)),
            None => prev,
        }
    }
}

/// Everything a document stages for persistence.
pub open spec fn spec_polity_outputs(doc: DocumentModel) -> Seq<PolityOutputM> {
    spec_outputs_of(doc, spec_resolve(doc.lineages@))
}

/// The store after a full, fresh processing of a document.
pub open spec fn spec_processed_store(
    m: StoreM,
    checksum: Seq<char>,
    file_name: Seq<char>,
    uploaded_at: Seq<char>,
    doc: DocumentModel,
) -> StoreM {
    spec_committed(m, checksum, file_name, uploaded_at, spec_polity_outputs(doc))
}

/// States the idempotence of processing: a committed run records the
/// checksum, and the contract of `process_document` then makes every
/// later run over byte-identical content a harmless no-op.
pub proof fn lemma_processing_idempotent(
    m: StoreM,
    checksum: Seq<char>,
    file_name: Seq<char>,
    uploaded_at: Seq<char>,
    doc: DocumentModel,
)
    ensures
        store_contains(spec_processed_store(m, checksum, file_name, uploaded_at, doc), checksum),
{
    let c = spec_processed_store(m, checksum, file_name, uploaded_at, doc);
    assert(c.processed[m.processed.len() as int].checksum == checksum);
}

/// Runs extraction, normalization and aggregation for one document under an
/// already-computed checksum, and commits the result as one unit.
pub fn process_document(
    store: &mut Store,
    checksum: &String,
    file_name: &String,
    uploaded_at: &String,
    doc: &DocumentModel,
) -> (r: Result<ProcessOutcome, ProcessError>)
    requires
        wf_store(old(store)@),
        wf_document(*doc),
    ensures
        wf_store(final(store)@),
        store_contains(old(store)@, checksum@) ==> (r matches Ok(ProcessOutcome::Skipped)
            && final(store)@ == old(store)@),
        r is Err ==> final(store)@ == old(store)@ && r->Err_0 is Persistence,
        r is Err <==> (!store_contains(old(store)@, checksum@) && !wf_polity_inputs(
            spec_polity_outputs(*doc),
        )),
        r matches Ok(ProcessOutcome::Processed(s)) ==> ({
            &&& !store_contains(old(store)@, checksum@)
            &&& final(store)@ == spec_processed_store(
                old(store)@,
                checksum@,
                file_name@,
                uploaded_at@,
                *doc,
            )
            &&& store_contains(final(store)@, checksum@)
            &&& s.polities == spec_polity_outputs(*doc).len()
            &&& s.events_written == spec_all_event_rows(checksum@, spec_polity_outputs(*doc)).len()
            &&& s.income_entries == spec_all_annual_rows(
                checksum@,
                spec_polity_outputs(*doc),
            ).len()
        }),
        (!store_contains(old(store)@, checksum@) && wf_polity_inputs(spec_polity_outputs(*doc)))
            ==> r matches Ok(ProcessOutcome::Processed(_)),
{
    if store.contains_checksum(checksum) {
        return Ok(ProcessOutcome::Skipped);
    }
    let timelines = resolve_player_polities(doc);
    let ghost tls = spec_resolve(doc.lineages@);
    let mut polities: Vec<PolityOutput> = Vec::new();
    let mut i: usize = 0;
    proof {
        assert(tls.take(0) =~= Seq::<PolityTimelineM>::empty());
        assert(polities.deep_view() =~= spec_outputs_of(*doc, tls.take(0)));
    }
    while i < timelines.len()
        invariant
            0 <= i <= timelines@.len(),
            timelines.deep_view() == tls,
            tls == spec_resolve(doc.lineages@),
            wf_document(*doc),
            polities.deep_view() == spec_outputs_of(*doc, tls.take(i as int)),
        decreases timelines@.len() - i,
    {
        let tl = &timelines[i];
        proof {
            assert(tl@ == timelines.deep_view()[i as int]);
            let t = tls.take(i as int + 1);
            assert(t.drop_last() =~= tls.take(i as int));
            assert(t.last() == tls[i as int]);
        }
        match find_record(doc, &tl.latest_tag) {
            Some(rec) => {
                match extract_current_state(doc, &tl.latest_tag) {
                    Ok(state) => {
                        let events = extract_historical_events(&rec.events);
                        let ghost pre = polities.deep_view();
                        let out = PolityOutput { tag: tl.latest_tag.clone(), state, events };
                        proof {
                            let srec = spec_find_record(doc.records@, tls[i as int].latest_tag)->0;
                            assert(out@ == spec_polity_output_of(*doc, tls[i as int], srec));
                        }
                        polities.push(out);
                        proof {
                            assert forall|idx: int| 0 <= idx < pre.len() implies #[trigger] polities.deep_view()[idx]
                                == pre[idx] by {}
                            assert(polities.deep_view() =~= spec_outputs_of(
                                *doc,
                                tls.take(i as int + 1),
                            ));
                        }
                    },
                    Err(_) => {
                        proof {
                            assert(false);
                        }
                    },
                }
            },
            None => {
                // This polity has no extractable record: it is skipped and
                // the run continues with the others.
                proof {
                    assert(polities.deep_view() =~= spec_outputs_of(*doc, tls.take(i as int + 1)));
                }
            },
        }
        i = i + 1;
    }
    proof {
        assert(tls.take(timelines@.len() as int) =~= tls);
        assert(polities.deep_view() == spec_polity_outputs(*doc));
    }
    match store.commit(checksum, file_name, uploaded_at, &polities) {
        Ok(CommitOutcome::Committed(summary)) => Ok(ProcessOutcome::Processed(summary)),
        Ok(CommitOutcome::AlreadyProcessed) => {
            proof {
                assert(false);
            }
            Ok(ProcessOutcome::Skipped)
        },
        Err(e) => {
            proof {
                assert(e is Persistence);
            }
            Err(e)
        },
    }
}

/// Processes one raw save blob end to end: hashes the bytes, skips the file
/// if its content is already recorded, and otherwise extracts and commits
/// every player polity's output as one unit.
pub fn process_blob(
    store: &mut Store,
    data: &[u8],
    file_name: &String,
    uploaded_at: &String,
    doc: &DocumentModel,
) -> (r: Result<ProcessOutcome, ProcessError>)
    requires
        wf_store(old(store)@),
        wf_document(*doc),
    ensures
        wf_store(final(store)@),
        store_contains(old(store)@, spec_checksum_of(data@)) ==> (r matches Ok(
            ProcessOutcome::Skipped,
        ) && final(store)@ == old(store)@),
        r is Err ==> final(store)@ == old(store)@ && r->Err_0 is Persistence,
        r matches Ok(ProcessOutcome::Processed(s)) ==> ({
            &&& !store_contains(old(store)@, spec_checksum_of(data@))
            &&& final(store)@ == spec_processed_store(
                old(store)@,
                spec_checksum_of(data@),
                file_name@,
                uploaded_at@,
                *doc,
            )
            &&& store_contains(final(store)@, spec_checksum_of(data@))
        }),
        (!store_contains(old(store)@, spec_checksum_of(data@)) && wf_polity_inputs(
            spec_polity_outputs(*doc),
        )) ==> r matches Ok(ProcessOutcome::Processed(_)),
{
    let checksum = calculate_checksum(data);
    process_document(store, &checksum, file_name, uploaded_at, doc)
}

} // verus!
