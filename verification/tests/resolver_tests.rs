use eu4_parser::document::{CountryRecord, DocumentModel, TagLineage};
use eu4_parser::resolver::resolve_player_polities;
use eu4_parser::snapshot::extract_current_state;

fn doc_with_lineages(lineages: Vec<TagLineage>) -> DocumentModel {
    DocumentModel {
        current_date: "1444.11.11".to_string(),
        records: vec![],
        lineages,
        ledger: vec![],
    }
}

#[test]
fn tag_chain_resolves_to_initial_and_latest() {
    let doc = doc_with_lineages(vec![TagLineage {
        tags: vec!["TYR".to_string(), "IRE".to_string(), "GBR".to_string()],
        is_human: true,
        player_names: vec!["frank".to_string()],
    }]);
    let r = resolve_player_polities(&doc);
    assert_eq!(r.len(), 1);
    assert_eq!(r[0].initial_tag, "TYR");
    assert_eq!(r[0].latest_tag, "GBR");
    assert!(r[0].is_human);
    assert_eq!(r[0].player_names, vec!["frank".to_string()]);
}

#[test]
fn non_human_and_empty_lineages_are_dropped() {
    let doc = doc_with_lineages(vec![
        TagLineage {
            tags: vec!["FRA".to_string()],
            is_human: false,
            player_names: vec![],
        },
        TagLineage {
            tags: vec![],
            is_human: true,
            player_names: vec![],
        },
        TagLineage {
            tags: vec!["SCO".to_string()],
            is_human: true,
            player_names: vec![],
        },
    ]);
    let r = resolve_player_polities(&doc);
    assert_eq!(r.len(), 1);
    assert_eq!(r[0].latest_tag, "SCO");
}

#[test]
fn no_player_lineages_yield_an_empty_resolution() {
    let doc = doc_with_lineages(vec![]);
    assert!(resolve_player_polities(&doc).is_empty());
}

#[test]
fn extracting_a_missing_tag_is_not_found() {
    let doc = doc_with_lineages(vec![]);
    let r = extract_current_state(&doc, &"SCO".to_string());
    assert!(r.is_err());
}

#[test]
fn extracting_an_existing_tag_builds_the_snapshot() {
    let mut doc = doc_with_lineages(vec![]);
    doc.records.push(CountryRecord {
        tag: "SCO".to_string(),
        income: vec![500],
        manpower: 10_000,
        max_manpower: 20_000,
        trade_income: 300,
        events: vec![],
    });
    doc.ledger.push(eu4_parser::income::LedgerSample {
        tag: "SCO".to_string(),
        year: 1440,
        value: 100,
    });
    let cs = extract_current_state(&doc, &"SCO".to_string()).unwrap();
    assert_eq!(cs.date, "1444.11.11");
    assert_eq!(cs.income, vec![500]);
    assert_eq!(cs.manpower, 10_000);
    assert_eq!(cs.max_manpower, 20_000);
    assert_eq!(cs.trade_income, 300);
    assert_eq!(cs.annual_income.len(), 1);
    assert_eq!(cs.annual_income[0].year, 1440);
    assert_eq!(cs.annual_income[0].total, 1_200);
}
