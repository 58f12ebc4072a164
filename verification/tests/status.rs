use klaay::json::{Json, JsonNumber};
use klaay::response::{ApiResponse, BodyKind, Rendered};
use klaay::status::{print_status, StatusReport, StatusTable, TallyWarning};

fn obj(fields: Vec<(&str, Json)>) -> Json {
    Json::Object(fields.into_iter().map(|(k, v)| (k.to_string(), v)).collect())
}

fn s(t: &str) -> Json {
    Json::Text(t.to_string())
}

fn n(n: u64) -> Json {
    Json::Number(JsonNumber::Unsigned(n))
}

fn area(name: &str, total: u64, states: &[&str], tally: Vec<(&str, Json)>) -> Json {
    obj(vec![(
        "meta",
        obj(vec![
            ("area", s(name)),
            ("total", n(total)),
            ("compliant_states", Json::Array(states.iter().map(|t| s(t)).collect())),
            ("tally", obj(tally)),
        ]),
    )])
}

fn rendered() -> Rendered {
    Rendered { compact: "COMPACT".to_string(), pretty: "PRETTY".to_string() }
}

fn table(items: Vec<Json>) -> StatusTable {
    let body = obj(vec![("data", Json::Array(items))]);
    match print_status(&ApiResponse::new(200, body, BodyKind::Json), false, "klaay", &rendered()) {
        Ok(StatusReport::Table(t)) => t,
        _ => panic!("expected a table"),
    }
}

#[test]
fn the_areas_come_in_their_fixed_order() {
    let t = table(vec![
        area("controls", 10, &["done", "ok"], vec![("done", n(3)), ("ok", n(4)), ("open", n(3))]),
        area("unknown", 5, &[], vec![]),
    ]);
    let labels: Vec<&str> = t.rows.iter().map(|r| r.label.as_str()).collect();
    assert_eq!(
        labels,
        vec![
            "Company information",
            "People",
            "Vendors",
            "Add Assets",
            "Review Policies",
            "Add & Review Risks",
            "Add & Review Controls",
        ]
    );
    assert_eq!(
        t.rows.iter().map(|r| r.counted).collect::<Vec<bool>>(),
        vec![true, true, false, false, true, true, true]
    );
    assert_eq!((t.rows[6].compliant, t.rows[6].total), (7, 10));
    assert_eq!((t.rows[0].compliant, t.rows[0].total), (0, 0));
    assert_eq!(t.overall.len(), 1);
    assert_eq!(t.overall[0].area, "controls");
    assert_eq!(t.overall_count, 5);
    assert_eq!(
        t.missing_areas.unwrap(),
        "Warning: compliance_stats response is missing areas: employees, policies, account_information, risk_scenarios - overall % may be understated."
    );
}

#[test]
fn a_state_counts_once_and_the_last_area_stands() {
    let t = table(vec![
        area("vendors", 4, &["a"], vec![("a", n(1))]),
        area("vendors", 4, &["a", "a"], vec![("a", n(2))]),
        obj(vec![("meta", obj(vec![("total", n(3))]))]),
        obj(vec![]),
    ]);
    assert_eq!((t.rows[2].compliant, t.rows[2].total), (2, 4));
    assert!(t.odd_figures.is_empty());
}

#[test]
fn odd_figures_are_told_of() {
    let t = table(vec![area(
        "devices",
        5,
        &["a", "b", "c", "d", "gone"],
        vec![("a", s("x")), ("b", n(6)), ("c", n(3)), ("d", n(4))],
    )]);
    assert_eq!((t.rows[3].compliant, t.rows[3].total), (5, 5));
    assert_eq!(
        t.odd_figures.iter().map(|w| w.message("\"x\"")).collect::<Vec<String>>(),
        vec![
            "Warning: tally bucket for area 'devices' has non-integer value \"x\" - ignoring it.",
            "Warning: tally bucket for area 'devices' has value 6 exceeding total 5 - ignoring it.",
            "Warning: tally buckets for area 'devices' sum past total 5 - capping at 100%.",
        ]
    );
    assert!(matches!(&t.odd_figures[0], TallyWarning::NotInteger { value: Json::Text(v), .. } if v == "x"));
}

#[test]
fn nothing_is_missing_where_every_area_is_there() {
    let t = table(
        ["employees", "policies", "account_information", "controls", "risk_scenarios"]
            .iter()
            .map(|a| area(a, 1, &["x"], vec![("x", n(1))]))
            .collect(),
    );
    assert!(t.missing_areas.is_none());
    assert_eq!(t.overall.len(), 5);
}

#[test]
fn a_status_can_be_printed_as_it_came() {
    let r = ApiResponse::new(200, Json::Null, BodyKind::Json);
    assert!(matches!(
        print_status(&r, true, "klaay", &rendered()),
        Ok(StatusReport::Json(t)) if t == "PRETTY"
    ));
    let err = |status: u16| {
        let r = ApiResponse::new(status, Json::Null, BodyKind::Json);
        print_status(&r, true, "klaay", &rendered()).err().unwrap()
    };
    assert_eq!(err(403), "Error 403: COMPACT");
    assert_eq!(err(500), "Error 500: COMPACT");
}
