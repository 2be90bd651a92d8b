use eu4_parser::income::{aggregate_annual, LedgerSample, YearTotal};

fn sample(tag: &str, year: u16, value: i64) -> LedgerSample {
    LedgerSample {
        tag: tag.to_string(),
        year,
        value,
    }
}

#[test]
fn annualizes_by_twelve() {
    let samples = vec![sample("SCO", 1471, 8_000)];
    let r = aggregate_annual(&samples, &"SCO".to_string());
    assert_eq!(r, vec![YearTotal { year: 1471, total: 96_000 }]);
}

#[test]
fn last_sample_of_a_year_wins() {
    let samples = vec![
        sample("SCO", 1470, 10_000),
        sample("SCO", 1470, 12_000),
        sample("SCO", 1471, 8_000),
    ];
    let r = aggregate_annual(&samples, &"SCO".to_string());
    assert_eq!(
        r,
        vec![
            YearTotal { year: 1470, total: 144_000 },
            YearTotal { year: 1471, total: 96_000 },
        ]
    );
}

#[test]
fn filters_by_tag() {
    let samples = vec![
        sample("FRA", 1470, 50_000),
        sample("SCO", 1470, 10_000),
        sample("ENG", 1471, 7_000),
    ];
    let r = aggregate_annual(&samples, &"SCO".to_string());
    assert_eq!(r, vec![YearTotal { year: 1470, total: 120_000 }]);
}

#[test]
fn empty_ledger_yields_empty_series() {
    let samples = vec![];
    let r = aggregate_annual(&samples, &"SCO".to_string());
    assert!(r.is_empty());
}

#[test]
fn out_of_order_years_come_out_sorted_and_unique() {
    let samples = vec![
        sample("SCO", 1473, 1_000),
        sample("SCO", 1470, 2_000),
        sample("SCO", 1472, 3_000),
        sample("SCO", 1470, 4_000),
    ];
    let r = aggregate_annual(&samples, &"SCO".to_string());
    assert_eq!(
        r,
        vec![
            YearTotal { year: 1470, total: 48_000 },
            YearTotal { year: 1472, total: 36_000 },
            YearTotal { year: 1473, total: 12_000 },
        ]
    );
    for w in r.windows(2) {
        assert!(w[0].year < w[1].year);
    }
}

#[test]
fn negative_values_annualize_too() {
    let samples = vec![sample("SCO", 1470, -500)];
    let r = aggregate_annual(&samples, &"SCO".to_string());
    assert_eq!(r, vec![YearTotal { year: 1470, total: -6_000 }]);
}
