use rl_core::events::{
    event_field_selector, event_row, event_rows, format_events_text, sort_events_by_age,
    EventInfo, EventRow,
};

fn row(t: &str, r: &str, m: &str, a: &str) -> EventRow {
    EventRow { type_: t.into(), reason: r.into(), message: m.into(), age: a.into() }
}

#[test]
fn events_text_lines() {
    assert_eq!(format_events_text(&[]), "No events for this resource.");
    let text = format_events_text(&[
        row("Normal", "Pulled", "image pulled", "5m"),
        row("Warning", "BackOff", "restarting", "1m"),
    ]);
    assert_eq!(
        text,
        "[Normal] Pulled — image pulled (5m)\n[Warning] BackOff — restarting (1m)"
    );
}

#[test]
fn event_defaults() {
    let e = EventInfo { type_: None, reason: None, message: None, last_timestamp: None };
    let r = event_row(&e, 0);
    assert_eq!((r.type_.as_str(), r.reason.as_str(), r.message.as_str(), r.age.as_str()), ("Normal", "-", "", "-"));
    let e = EventInfo {
        type_: Some("Warning".into()),
        reason: Some("Failed".into()),
        message: Some("boom".into()),
        last_timestamp: Some(1_000),
    };
    let r = event_row(&e, 1_000 + 7_200);
    assert_eq!(r.age, "2h");
}

#[test]
fn events_sorted_by_age_text_descending_and_stable() {
    let sorted = sort_events_by_age(&[
        row("A", "", "", "10m"),
        row("B", "", "", "5m"),
        row("C", "", "", "2h"),
        row("D", "", "", "5m"),
    ]);
    let order: Vec<&str> = sorted.iter().map(|r| r.type_.as_str()).collect();
    // Age texts compare as strings: "5m" > "2h" > "10m".
    assert_eq!(order, vec!["B", "D", "C", "A"]);
    let rows = event_rows(
        &[
            EventInfo { type_: None, reason: None, message: None, last_timestamp: Some(0) },
            EventInfo { type_: None, reason: None, message: None, last_timestamp: Some(90) },
        ],
        100,
    );
    // "1m" sorts after "10s" as text.
    assert_eq!(rows[0].age, "1m");
    assert_eq!(rows[1].age, "10s");
}

#[test]
fn field_selector_names_the_object() {
    assert_eq!(
        event_field_selector("Pod", "web-1", "prod"),
        "involvedObject.kind=Pod,involvedObject.name=web-1,involvedObject.namespace=prod"
    );
}
