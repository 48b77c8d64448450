use oxy_geo::event::{EventRecord, Property, RawFeature, RawGeometry};
use oxy_geo::export::Cell;
use oxy_geo::store::{BoundingBox, FilterRequest, GeoProcessor, LoadError};

fn b(v: f64) -> u64 {
    v.to_bits()
}

fn prop(key: &str, text: &str) -> Property {
    Property {
        key: key.to_string(),
        text: text.to_string(),
        number: text.parse::<f64>().ok().map(f64::to_bits),
    }
}

fn point_feature(id: &str, org: &str, date: f64, sentiment: f64, x: f64, y: f64) -> RawFeature {
    RawFeature {
        id: id.to_string(),
        properties: vec![
            prop("org", org),
            prop("date", &date.to_string()),
            prop("sentiment", &sentiment.to_string()),
            prop("momentum", "0.25"),
        ],
        geometry: RawGeometry::Point(vec![b(x), b(y)]),
    }
}

fn other_feature(id: &str) -> RawFeature {
    RawFeature { id: id.to_string(), properties: vec![], geometry: RawGeometry::Other }
}

fn request(org: Option<&str>, date: (f64, f64), sentiment: (f64, f64)) -> FilterRequest {
    FilterRequest {
        org: org.map(|s| s.to_string()),
        date_range: (b(date.0), b(date.1)),
        sentiment_range: (b(sentiment.0), b(sentiment.1)),
        bounding_box: None,
    }
}

fn scenario_store() -> GeoProcessor {
    let mut p = GeoProcessor::new();
    let fs = vec![
        point_feature("a", "X", 1.0, 0.5, 10.0, 20.0),
        point_feature("b", "Y", 2.0, -0.2, 11.0, 21.0),
        point_feature("c", "X", 3.0, 0.9, -5.0, 7.5),
    ];
    assert!(p.load_data(Ok(fs)).is_ok());
    p
}

fn ids(p: &GeoProcessor, view: &[usize]) -> Vec<String> {
    view.iter().map(|&i| p.records()[i].id.clone()).collect()
}

#[test]
fn filter_by_org_and_ranges_keeps_input_order() {
    let p = scenario_store();
    let r = p.apply_filters(&request(Some("X"), (0.0, 3.0), (0.0, 1.0)));
    assert_eq!(ids(&p, &r), vec!["a".to_string(), "c".to_string()]);
}

#[test]
fn footprint_of_empty_store_is_zero() {
    let p = GeoProcessor::new();
    assert_eq!(p.memory_footprint(), 0);
}

#[test]
fn footprint_counts_records() {
    let p = scenario_store();
    assert_eq!(p.memory_footprint(), 3 * std::mem::size_of::<EventRecord>() as u64);
}

#[test]
fn inverted_sentiment_range_is_empty() {
    let p = scenario_store();
    let r = p.apply_filters(&request(None, (f64::NEG_INFINITY, f64::INFINITY), (5.0, 1.0)));
    assert!(r.is_empty());
}

#[test]
fn failed_load_leaves_store_unchanged() {
    let mut p = scenario_store();
    let bad = vec![
        point_feature("d", "Z", 4.0, 0.1, 1.0, 1.0),
        RawFeature {
            id: "e".to_string(),
            properties: vec![],
            geometry: RawGeometry::Point(vec![b(1.0)]),
        },
    ];
    assert!(matches!(p.load_data(Ok(bad)), Err(LoadError::Malformed { .. })));
    assert_eq!(p.len(), 3);
    assert_eq!(ids(&p, &[0, 1, 2]), vec!["a".to_string(), "b".to_string(), "c".to_string()]);
}

#[test]
fn decode_failure_is_reported_with_its_reason() {
    let mut p = scenario_store();
    match p.load_data(Err("bad header".to_string())) {
        Err(LoadError::Malformed { reason }) => assert_eq!(reason, "bad header"),
        Ok(()) => panic!("load succeeded"),
    }
    assert_eq!(p.len(), 3);
}

#[test]
fn empty_load_succeeds_and_empties_the_store() {
    let mut p = scenario_store();
    assert!(p.load_data(Ok(vec![])).is_ok());
    assert_eq!(p.len(), 0);
    assert!(p.apply_filters(&request(None, (f64::NEG_INFINITY, f64::INFINITY), (f64::NEG_INFINITY, f64::INFINITY))).is_empty());
}

#[test]
fn non_point_geometries_are_skipped() {
    let mut p = GeoProcessor::new();
    let fs = vec![
        other_feature("l1"),
        point_feature("a", "X", 1.0, 0.5, 1.0, 2.0),
        other_feature("l2"),
        point_feature("b", "Y", 2.0, 0.5, 3.0, 4.0),
    ];
    assert!(p.load_data(Ok(fs)).is_ok());
    assert_eq!(p.len(), 2);
    assert_eq!(ids(&p, &[0, 1]), vec!["a".to_string(), "b".to_string()]);
}

#[test]
fn point_box_query_finds_each_record() {
    let p = scenario_store();
    for (i, e) in p.records().iter().enumerate() {
        let bx = BoundingBox { min_x: e.x, min_y: e.y, max_x: e.x, max_y: e.y };
        assert!(p.query_box(&bx).contains(&i));
    }
}

#[test]
fn box_query_selects_points_inside() {
    let p = scenario_store();
    let bx = BoundingBox { min_x: b(0.0), min_y: b(0.0), max_x: b(10.5), max_y: b(30.0) };
    assert_eq!(p.query_box(&bx), vec![0]);
    let all = BoundingBox {
        min_x: b(f64::NEG_INFINITY),
        min_y: b(f64::NEG_INFINITY),
        max_x: b(f64::INFINITY),
        max_y: b(f64::INFINITY),
    };
    assert_eq!(p.query_box(&all), vec![0, 1, 2]);
    let none = BoundingBox { min_x: b(100.0), min_y: b(100.0), max_x: b(200.0), max_y: b(200.0) };
    assert!(p.query_box(&none).is_empty());
}

#[test]
fn box_with_negative_coordinates() {
    let p = scenario_store();
    let bx = BoundingBox { min_x: b(-6.0), min_y: b(-0.0), max_x: b(-4.0), max_y: b(8.0) };
    assert_eq!(p.query_box(&bx), vec![2]);
}

#[test]
fn filter_with_box_combines_predicates() {
    let p = scenario_store();
    let mut req = request(Some("X"), (0.0, 3.0), (0.0, 1.0));
    req.bounding_box = Some(BoundingBox { min_x: b(-10.0), min_y: b(0.0), max_x: b(0.0), max_y: b(10.0) });
    assert_eq!(ids(&p, &p.apply_filters(&req)), vec!["c".to_string()]);
}

#[test]
fn relaxing_predicates_never_shrinks() {
    let p = scenario_store();
    let strict = p.apply_filters(&request(Some("X"), (0.0, 2.0), (0.0, 1.0)));
    assert_eq!(strict, vec![0]);
    let no_org = p.apply_filters(&request(None, (0.0, 2.0), (0.0, 1.0)));
    assert_eq!(no_org, vec![0]);
    let any_date = p.apply_filters(&request(Some("X"), (f64::NEG_INFINITY, f64::INFINITY), (0.0, 1.0)));
    assert_eq!(any_date, vec![0, 2]);
    let any_sentiment = p.apply_filters(&request(None, (0.0, 2.0), (f64::NEG_INFINITY, f64::INFINITY)));
    assert_eq!(any_sentiment, vec![0, 1]);
}

#[test]
fn ranges_are_inclusive() {
    let p = scenario_store();
    let r = p.apply_filters(&request(None, (2.0, 2.0), (-0.2, -0.2)));
    assert_eq!(r, vec![1]);
}

#[test]
fn nan_sentiment_never_matches() {
    let mut p = GeoProcessor::new();
    let mut f = point_feature("n", "X", 1.0, 0.0, 0.0, 0.0);
    f.properties[2] = Property { key: "sentiment".to_string(), text: "NaN".to_string(), number: Some(b(f64::NAN)) };
    assert!(p.load_data(Ok(vec![f])).is_ok());
    assert!(p.apply_filters(&request(None, (f64::NEG_INFINITY, f64::INFINITY), (f64::NEG_INFINITY, f64::INFINITY))).is_empty());
}

#[test]
fn missing_or_unparsable_attributes_default() {
    let mut p = GeoProcessor::new();
    let f = RawFeature {
        id: "z".to_string(),
        properties: vec![prop("date", "soon"), prop("momentum", "2.5")],
        geometry: RawGeometry::Point(vec![b(1.0), b(2.0), b(3.0)]),
    };
    assert!(p.load_data(Ok(vec![f])).is_ok());
    let e = &p.records()[0];
    assert_eq!(e.org, "");
    assert_eq!(e.date, 0);
    assert_eq!(e.sentiment, 0);
    assert_eq!(e.momentum, b(2.5));
    assert_eq!((e.x, e.y), (b(1.0), b(2.0)));
}

#[test]
fn first_property_with_a_key_wins() {
    let mut p = GeoProcessor::new();
    let f = RawFeature {
        id: "z".to_string(),
        properties: vec![prop("org", "first"), prop("org", "second")],
        geometry: RawGeometry::Point(vec![b(0.0), b(0.0)]),
    };
    assert!(p.load_data(Ok(vec![f])).is_ok());
    assert_eq!(p.records()[0].org, "first");
}

fn text(c: &Cell) -> String {
    match c {
        Cell::Text(s) => s.clone(),
        _ => panic!("not text"),
    }
}

#[test]
fn export_has_header_and_one_row_per_record() {
    let p = scenario_store();
    let view = p.apply_filters(&request(Some("X"), (0.0, 3.0), (0.0, 1.0)));
    let t = p.export_csv(&view);
    assert_eq!(t.len(), 3);
    let header: Vec<String> = t[0].iter().map(text).collect();
    assert_eq!(header, vec!["id", "org", "date", "sentiment", "momentum", "geometry"]);
    assert_eq!(text(&t[1][0]), "a");
    assert_eq!(text(&t[2][0]), "c");
    assert_eq!(text(&t[2][1]), "X");
    assert!(matches!(t[2][2], Cell::Number(v) if v == b(3.0)));
    assert!(matches!(t[2][3], Cell::Number(v) if v == b(0.9)));
    assert!(matches!(t[2][4], Cell::Number(v) if v == b(0.25)));
    assert!(matches!(t[2][5], Cell::Point(x, y) if x == b(-5.0) && y == b(7.5)));
}

#[test]
fn export_of_empty_view_is_header_only() {
    let p = scenario_store();
    let t = p.export_csv(&vec![]);
    assert_eq!(t.len(), 1);
    assert_eq!(t[0].len(), 6);
}

#[test]
fn inverted_box_is_empty() {
    let p = scenario_store();
    let bx = BoundingBox { min_x: b(20.0), min_y: b(0.0), max_x: b(-20.0), max_y: b(30.0) };
    assert!(p.query_box(&bx).is_empty());
    let by = BoundingBox { min_x: b(-20.0), min_y: b(30.0), max_x: b(20.0), max_y: b(0.0) };
    assert!(p.query_box(&by).is_empty());
    let mut req = request(None, (f64::NEG_INFINITY, f64::INFINITY), (f64::NEG_INFINITY, f64::INFINITY));
    req.bounding_box = Some(bx);
    assert!(p.apply_filters(&req).is_empty());
}

#[test]
fn point_box_filter_finds_each_record() {
    let p = scenario_store();
    for (i, e) in p.records().iter().enumerate() {
        let mut req = request(None, (f64::NEG_INFINITY, f64::INFINITY), (f64::NEG_INFINITY, f64::INFINITY));
        req.bounding_box = Some(BoundingBox { min_x: e.x, min_y: e.y, max_x: e.x, max_y: e.y });
        assert_eq!(p.apply_filters(&req), vec![i]);
    }
}
