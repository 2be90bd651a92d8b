use eu4_parser::events::{extract_historical_events, normalize_event, EventVariant, RawEvent, RulerInfo};

fn monarch_event(date: &str, name: &str, dip: u16, adm: u16, mil: u16) -> RawEvent {
    RawEvent {
        date: date.to_string(),
        variant: EventVariant::Monarch(RulerInfo {
            name: name.to_string(),
            dip,
            adm,
            mil,
        }),
    }
}

#[test]
fn test_extract_historical_events_empty() {
    let events = vec![];
    let result = extract_historical_events(&events);
    assert!(result.is_empty());
}

#[test]
fn test_extract_historical_events_monarch() {
    let events = vec![monarch_event("1444.1.1", "Test", 3, 3, 3)];
    let result = extract_historical_events(&events);
    assert_eq!(result.len(), 1);
    assert_eq!(result[0].event_type, "Monarch");
    assert!(result[0].details.contains("Name: Test"));
}

#[test]
fn monarch_detail_is_exact() {
    let r = normalize_event(&monarch_event("1444.1.1", "Mary", 5, 4, 3));
    assert_eq!(r.date, "1444.1.1");
    assert_eq!(r.event_type, "Monarch");
    assert_eq!(r.details, "Name: Mary, Dip: 5, Adm: 4, Mil: 3");
}

#[test]
fn every_variant_normalizes_to_one_record() {
    let events = vec![
        monarch_event("1450.1.1", "A", 1, 2, 3),
        RawEvent {
            date: "1451.1.1".to_string(),
            variant: EventVariant::Heir(RulerInfo {
                name: "B".to_string(),
                dip: 0,
                adm: 0,
                mil: 6,
            }),
        },
        RawEvent {
            date: "1452.1.1".to_string(),
            variant: EventVariant::Queen(RulerInfo {
                name: "C".to_string(),
                dip: 2,
                adm: 2,
                mil: 2,
            }),
        },
        RawEvent {
            date: "1453.1.1".to_string(),
            variant: EventVariant::Leader {
                name: "D".to_string(),
                kind: "General".to_string(),
            },
        },
        RawEvent {
            date: "1454.1.1".to_string(),
            variant: EventVariant::Capital { province_id: 151 },
        },
        RawEvent {
            date: "1455.1.1".to_string(),
            variant: EventVariant::ChangedCountryNameFrom("Byzantium".to_string()),
        },
        RawEvent {
            date: "1456.1.1".to_string(),
            variant: EventVariant::ChangedCountryAdjectiveFrom("Byzantine".to_string()),
        },
        RawEvent {
            date: "1457.1.1".to_string(),
            variant: EventVariant::ChangedCountryMapColorFrom {
                red: 12,
                green: 34,
                blue: 56,
            },
        },
        RawEvent {
            date: "1458.1.1".to_string(),
            variant: EventVariant::NationalFocus("ADM".to_string()),
        },
        RawEvent {
            date: "1459.1.1".to_string(),
            variant: EventVariant::AddAcceptedCulture("greek".to_string()),
        },
        RawEvent {
            date: "1460.1.1".to_string(),
            variant: EventVariant::Other("MonarchConsort { name: \"E\" }".to_string()),
        },
    ];
    let result = extract_historical_events(&events);
    assert_eq!(result.len(), events.len());
    let kinds: Vec<&str> = result.iter().map(|e| e.event_type.as_str()).collect();
    assert_eq!(
        kinds,
        vec![
            "Monarch",
            "Heir",
            "Queen",
            "Leader",
            "Capital",
            "ChangedCountryNameFrom",
            "ChangedCountryAdjectiveFrom",
            "ChangedCountryMapColorFrom",
            "NationalFocus",
            "AddAcceptedCulture",
            "Unknown",
        ]
    );
    for e in &result {
        assert!(!e.details.is_empty());
    }
    assert_eq!(result[3].details, "Name: D, Kind: General");
    assert_eq!(result[4].details, "Province ID: 151");
    assert_eq!(result[5].details, "From: Byzantium");
    assert_eq!(result[7].details, "From: [12, 34, 56]");
    assert_eq!(result[8].details, "Focus: ADM");
    assert_eq!(result[9].details, "Culture: greek");
    assert_eq!(result[10].details, "MonarchConsort { name: \"E\" }");
}

#[test]
fn unknown_variant_keeps_original_data() {
    let r = normalize_event(&RawEvent {
        date: "1500.1.1".to_string(),
        variant: EventVariant::Other("Union(44)".to_string()),
    });
    assert_eq!(r.event_type, "Unknown");
    assert_eq!(r.details, "Union(44)");
    assert!(!r.details.is_empty());
}
