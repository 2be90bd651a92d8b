use eu4_parser::digest::calculate_checksum;
use eu4_parser::document::{CountryRecord, DocumentModel, TagLineage};
use eu4_parser::events::{EventVariant, RawEvent, RulerInfo};
use eu4_parser::income::LedgerSample;
use eu4_parser::errors::ProcessError;
use eu4_parser::pipeline::{process_blob, should_process, GateDecision, ProcessOutcome};
use eu4_parser::snapshot::CurrentState;
use eu4_parser::store::Store;

#[test]
fn test_calculate_checksum() {
    let data = b"test data";
    let checksum = calculate_checksum(data);
    assert_eq!(checksum.len(), 64);
}

#[test]
fn test_extract_current_state_minimal() {
    // Amounts are fixed-point thousandths: 10_000 stands for 10.0.
    let result = CurrentState {
        date: "1444.11.11".to_string(),
        income: vec![10_000, 20_000],
        manpower: 1_000_000,
        max_manpower: 1_500_000,
        trade_income: 50_000,
        annual_income: vec![eu4_parser::income::YearTotal { year: 1444, total: 120_000 }],
    };
    assert_eq!(result.date, "1444.11.11");
    assert_eq!(result.income.len(), 2);
}

#[test]
fn checksum_is_deterministic_and_content_sensitive() {
    assert_eq!(calculate_checksum(b"abc"), calculate_checksum(b"abc"));
    // Flipping a single byte changes the digest.
    assert_ne!(calculate_checksum(b"abc"), calculate_checksum(b"abd"));
    assert_ne!(calculate_checksum(b""), calculate_checksum(b"\0"));
    // The well-known digest of the empty input.
    assert_eq!(
        calculate_checksum(b""),
        "e3b0c44298fc1c149afbf4c8996fb92427ae41e4649b934ca495991b7852b855"
    );
}

/// The document of the end-to-end scenario: one player-controlled polity
/// whose latest tag is SCO, two historical events (one recognized, one
/// not), and three ledger samples with a repeated year.
fn scenario_document() -> DocumentModel {
    DocumentModel {
        current_date: "1474.07.04".to_string(),
        records: vec![CountryRecord {
            tag: "SCO".to_string(),
            income: vec![1_000, 2_000, 3_000],
            manpower: 1_000_000,
            max_manpower: 1_500_000,
            trade_income: 5_000,
            events: vec![
                RawEvent {
                    date: "1460.2.3".to_string(),
                    variant: EventVariant::Monarch(RulerInfo {
                        name: "James".to_string(),
                        dip: 4,
                        adm: 5,
                        mil: 6,
                    }),
                },
                RawEvent {
                    date: "1465.6.7".to_string(),
                    variant: EventVariant::Other("MonarchConsort { .. }".to_string()),
                },
            ],
        }],
        lineages: vec![TagLineage {
            tags: vec!["SCO".to_string()],
            is_human: true,
            player_names: vec!["frank".to_string()],
        }],
        ledger: vec![
            LedgerSample { tag: "SCO".to_string(), year: 1470, value: 10_000 },
            LedgerSample { tag: "SCO".to_string(), year: 1470, value: 12_000 },
            LedgerSample { tag: "SCO".to_string(), year: 1471, value: 8_000 },
        ],
    }
}

#[test]
fn end_to_end_scenario() {
    let mut store = Store::new();
    let doc = scenario_document();
    let data = b"scenario save bytes";
    let r = process_blob(
        &mut store,
        data,
        &"mp_Scotland1474_07_04.eu4".to_string(),
        &"2026-02-03".to_string(),
        &doc,
    )
    .unwrap();
    match r {
        ProcessOutcome::Processed(s) => {
            assert_eq!(s.polities, 1);
            assert_eq!(s.events_written, 2);
            assert_eq!(s.income_entries, 2);
        }
        ProcessOutcome::Skipped => panic!("fresh file skipped"),
    }
    let checksum = calculate_checksum(data);
    assert_eq!(store.processed.len(), 1);
    assert_eq!(store.processed[0].checksum, checksum);
    assert_eq!(store.processed[0].file_name, "mp_Scotland1474_07_04.eu4");

    assert_eq!(store.snapshots.len(), 1);
    let snap = &store.snapshots[0];
    assert_eq!(snap.tag, "SCO");
    assert_eq!(snap.date, "1474.07.04");
    assert_eq!(snap.income_json, "[1.000,2.000,3.000]");
    assert_eq!(snap.manpower, 1_000_000);
    assert_eq!(snap.max_manpower, 1_500_000);
    assert_eq!(snap.trade_income, 5_000);

    assert_eq!(store.events.len(), 2);
    assert_eq!(store.events[0].event_type, "Monarch");
    assert_eq!(store.events[0].details, "Name: James, Dip: 4, Adm: 5, Mil: 6");
    assert_eq!(store.events[1].event_type, "Unknown");
    assert_eq!(store.events[1].details, "MonarchConsort { .. }");

    // Last-wins for the repeated year: 12.0 x 12 = 144.0, and 8.0 x 12 = 96.0.
    assert_eq!(store.annual.len(), 2);
    assert_eq!(store.annual[0].tag, "SCO");
    assert_eq!(store.annual[0].year, 1470);
    assert_eq!(store.annual[0].total, 144_000);
    assert_eq!(store.annual[1].year, 1471);
    assert_eq!(store.annual[1].total, 96_000);
}

#[test]
fn processing_is_idempotent() {
    let mut store = Store::new();
    let doc = scenario_document();
    let data = b"the same bytes twice";
    let name = "a.eu4".to_string();
    let when = "2026-02-03".to_string();
    let first = process_blob(&mut store, data, &name, &when, &doc).unwrap();
    assert!(matches!(first, ProcessOutcome::Processed(_)));
    let processed = store.processed.len();
    let snapshots = store.snapshots.len();
    let events = store.events.len();
    let annual = store.annual.len();

    let second = process_blob(&mut store, data, &name, &when, &doc).unwrap();
    assert!(matches!(second, ProcessOutcome::Skipped));
    assert_eq!(store.processed.len(), processed);
    assert_eq!(store.snapshots.len(), snapshots);
    assert_eq!(store.events.len(), events);
    assert_eq!(store.annual.len(), annual);
}

#[test]
fn gate_skips_only_recorded_content() {
    let mut store = Store::new();
    let doc = scenario_document();
    let data = b"gated bytes";
    match should_process(&store, data) {
        GateDecision::Proceed(h) => assert_eq!(h, calculate_checksum(data)),
        GateDecision::Skip => panic!("fresh content skipped"),
    }
    process_blob(&mut store, data, &"x.eu4".to_string(), &"t".to_string(), &doc).unwrap();
    assert!(matches!(should_process(&store, data), GateDecision::Skip));
    // A different blob still proceeds.
    assert!(matches!(should_process(&store, b"other bytes"), GateDecision::Proceed(_)));
}

#[test]
fn document_without_players_still_records_the_file() {
    let mut store = Store::new();
    let doc = DocumentModel {
        current_date: "1444.11.11".to_string(),
        records: vec![],
        lineages: vec![],
        ledger: vec![],
    };
    let r = process_blob(
        &mut store,
        b"empty-ish save",
        &"n.eu4".to_string(),
        &"t".to_string(),
        &doc,
    )
    .unwrap();
    match r {
        ProcessOutcome::Processed(s) => {
            assert_eq!(s.polities, 0);
            assert_eq!(s.events_written, 0);
            assert_eq!(s.income_entries, 0);
        }
        ProcessOutcome::Skipped => panic!("fresh file skipped"),
    }
    assert_eq!(store.processed.len(), 1);
    assert_eq!(store.snapshots.len(), 0);
}

#[test]
fn unresolvable_polity_is_skipped_not_fatal() {
    let mut store = Store::new();
    let mut doc = scenario_document();
    // A second player lineage whose latest tag has no record in the
    // document: that polity is skipped, the file still goes through.
    doc.lineages.push(TagLineage {
        tags: vec!["IRE".to_string(), "GBR".to_string()],
        is_human: true,
        player_names: vec![],
    });
    let r = process_blob(
        &mut store,
        b"partial resolve",
        &"p.eu4".to_string(),
        &"t".to_string(),
        &doc,
    )
    .unwrap();
    match r {
        ProcessOutcome::Processed(s) => assert_eq!(s.polities, 1),
        ProcessOutcome::Skipped => panic!("fresh file skipped"),
    }
    assert_eq!(store.snapshots.len(), 1);
    assert_eq!(store.snapshots[0].tag, "SCO");
}

#[test]
fn non_player_lineages_are_not_extracted() {
    let mut store = Store::new();
    let mut doc = scenario_document();
    doc.lineages[0].is_human = false;
    let r = process_blob(
        &mut store,
        b"ai only",
        &"q.eu4".to_string(),
        &"t".to_string(),
        &doc,
    )
    .unwrap();
    match r {
        ProcessOutcome::Processed(s) => assert_eq!(s.polities, 0),
        ProcessOutcome::Skipped => panic!("fresh file skipped"),
    }
    assert_eq!(store.snapshots.len(), 0);
    assert_eq!(store.processed.len(), 1);
}

#[test]
fn document_check_accepts_and_rejects() {
    assert!(eu4_parser::document::document_ok(&scenario_document()));

    let mut empty_catch_all = scenario_document();
    empty_catch_all.records[0].events.push(RawEvent {
        date: "1470.1.1".to_string(),
        variant: EventVariant::Other(String::new()),
    });
    assert!(!eu4_parser::document::document_ok(&empty_catch_all));

    let mut oversized_sample = scenario_document();
    oversized_sample.ledger[0].value = i64::MAX;
    assert!(!eu4_parser::document::document_ok(&oversized_sample));

    let mut oversized_manpower = scenario_document();
    oversized_manpower.records[0].manpower = i64::MIN;
    assert!(!eu4_parser::document::document_ok(&oversized_manpower));
}

#[test]
fn process_errors_describe_themselves() {
    assert_eq!(
        ProcessError::NotFound("SCO".to_string()).describe(),
        "not found: SCO"
    );
    assert_eq!(
        ProcessError::Persistence("row".to_string()).describe(),
        "persistence error: row"
    );
    assert_eq!(
        ProcessError::Validation("empty".to_string()).describe(),
        "validation error: empty"
    );
    assert_eq!(
        ProcessError::Decode("bad container".to_string()).describe(),
        "decode error: bad container"
    );
    assert_eq!(
        ProcessError::Auth("token".to_string()).describe(),
        "auth error: token"
    );
}
