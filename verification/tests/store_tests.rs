use eu4_parser::events::HistoricalEvent;
use eu4_parser::income::YearTotal;
use eu4_parser::snapshot::CurrentState;
use eu4_parser::store::{CommitOutcome, PolityOutput, Store};

fn polity(tag: &str, years: Vec<YearTotal>) -> PolityOutput {
    PolityOutput {
        tag: tag.to_string(),
        state: CurrentState {
            date: "1474.07.04".to_string(),
            income: vec![1_000, 2_000],
            manpower: 1_000_000,
            max_manpower: 1_500_000,
            trade_income: 5_000,
            annual_income: years,
        },
        events: vec![HistoricalEvent {
            date: "1470.1.1".to_string(),
            event_type: "Monarch".to_string(),
            details: "Name: A, Dip: 1, Adm: 1, Mil: 1".to_string(),
        }],
    }
}

#[test]
fn commit_writes_every_row_of_a_file() {
    let mut store = Store::new();
    let polities = vec![
        polity("SCO", vec![YearTotal { year: 1470, total: 144_000 }]),
        polity("FRA", vec![]),
    ];
    let r = store
        .commit(
            &"c1".to_string(),
            &"a.eu4".to_string(),
            &"2026-01-01".to_string(),
            &polities,
        )
        .unwrap();
    match r {
        CommitOutcome::Committed(s) => {
            assert_eq!(s.polities, 2);
            assert_eq!(s.events_written, 2);
            assert_eq!(s.income_entries, 1);
        }
        CommitOutcome::AlreadyProcessed => panic!("fresh checksum reported as processed"),
    }
    assert_eq!(store.processed.len(), 1);
    assert_eq!(store.processed[0].checksum, "c1");
    assert_eq!(store.processed[0].file_name, "a.eu4");
    assert_eq!(store.snapshots.len(), 2);
    assert_eq!(store.snapshots[0].tag, "SCO");
    assert_eq!(store.snapshots[0].income_json, "[1.000,2.000]");
    assert_eq!(store.events.len(), 2);
    assert_eq!(store.annual.len(), 1);
    assert_eq!(store.annual[0].year, 1470);
    assert_eq!(store.annual[0].total, 144_000);
}

#[test]
fn second_commit_of_same_checksum_is_a_no_op() {
    let mut store = Store::new();
    let polities = vec![polity("SCO", vec![])];
    let first = store
        .commit(
            &"c1".to_string(),
            &"a.eu4".to_string(),
            &"t".to_string(),
            &polities,
        )
        .unwrap();
    assert!(matches!(first, CommitOutcome::Committed(_)));
    let snapshots_before = store.snapshots.len();
    let second = store
        .commit(
            &"c1".to_string(),
            &"a.eu4".to_string(),
            &"t".to_string(),
            &polities,
        )
        .unwrap();
    assert!(matches!(second, CommitOutcome::AlreadyProcessed));
    assert_eq!(store.processed.len(), 1);
    assert_eq!(store.snapshots.len(), snapshots_before);
}

#[test]
fn rejected_commit_leaves_no_rows_at_all() {
    let mut store = Store::new();
    // The second polity repeats the first one's tag, which would break the
    // one-snapshot-per-polity rule: the whole file must be rolled back,
    // including the rows already staged for the first polity.
    let polities = vec![
        polity("SCO", vec![YearTotal { year: 1470, total: 1_000 }]),
        polity("SCO", vec![]),
    ];
    let r = store.commit(
        &"c9".to_string(),
        &"b.eu4".to_string(),
        &"t".to_string(),
        &polities,
    );
    assert!(r.is_err());
    assert_eq!(store.processed.len(), 0);
    assert_eq!(store.snapshots.len(), 0);
    assert_eq!(store.events.len(), 0);
    assert_eq!(store.annual.len(), 0);
    assert!(!store.contains_checksum(&"c9".to_string()));
    assert!(!store.has_rows_for(&"c9".to_string()));
}

#[test]
fn duplicate_years_in_a_series_are_rejected() {
    let mut store = Store::new();
    let polities = vec![polity(
        "SCO",
        vec![
            YearTotal { year: 1470, total: 1_000 },
            YearTotal { year: 1470, total: 2_000 },
        ],
    )];
    let r = store.commit(
        &"c2".to_string(),
        &"c.eu4".to_string(),
        &"t".to_string(),
        &polities,
    );
    assert!(r.is_err());
    assert_eq!(store.processed.len(), 0);
    assert_eq!(store.annual.len(), 0);
}
