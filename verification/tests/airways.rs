use vatsim_parser::airways::{AirwayFix, AirwayGraph, AirwayType, Fix};

const DEG: i64 = 1_000_000;

fn fix(designator: &str, lng: i64, lat: i64) -> AirwayFix {
    AirwayFix {
        fix: Fix { designator: designator.to_string(), coordinate: (lng * DEG, lat * DEG) },
        valid_direction: true,
        minimum_level: None,
    }
}

fn build_graph() -> AirwayGraph {
    let mut graph = AirwayGraph::new();

    // linear airway UL997: FIXA - FIXB - FIXC
    graph.insert_or_update_segment(
        "UL997",
        "FIXA",
        (DEG, DEG),
        &AirwayFix { minimum_level: Some(5000), ..fix("FIXB", 2, 2) },
        AirwayType::High,
    );
    graph.insert_or_update_segment("UL997", "FIXB", (2 * DEG, 2 * DEG), &fix("FIXC", 3, 3), AirwayType::High);

    // separate airway L601 with a single segment
    graph.insert_or_update_segment("L601", "FIXD", (4 * DEG, 4 * DEG), &fix("FIXE", 5, 5), AirwayType::Low);

    graph
}

fn names(v: &[AirwayFix]) -> Vec<String> {
    v.iter().map(|f| f.fix.designator.clone()).collect()
}

#[test]
fn expansion_follows_the_airway() {
    let graph = build_graph();
    let start = fix("FIXA", 1, 1).fix;
    let expanded = graph.expand_airway_segment(&start, "FIXC", "UL997").unwrap();
    assert_eq!(names(&expanded), vec!["FIXB", "FIXC"]);
    assert_eq!(expanded[0].minimum_level, Some(5000));
    assert!(expanded[0].valid_direction);
    assert_eq!(expanded[1].minimum_level, None);
    assert_eq!(expanded[1].fix.coordinate, (3 * DEG, 3 * DEG));
}

#[test]
fn expansion_against_the_direction() {
    let graph = build_graph();
    let start = fix("FIXC", 3, 3).fix;
    let expanded = graph.expand_airway_segment(&start, "FIXA", "UL997").unwrap();
    assert_eq!(names(&expanded), vec!["FIXB", "FIXA"]);
    // the segments were recorded as not valid in this direction
    assert!(!expanded[0].valid_direction);
    assert!(!expanded[1].valid_direction);
    assert_eq!(expanded[1].minimum_level, Some(5000));
}

#[test]
fn expansion_refusals() {
    let graph = build_graph();
    let a = fix("FIXA", 1, 1).fix;
    // unknown airway, end not on the airway, start not on the airway
    assert!(graph.expand_airway_segment(&a, "FIXC", "Z999").is_none());
    assert!(graph.expand_airway_segment(&a, "FIXE", "UL997").is_none());
    let d = fix("FIXD", 4, 4).fix;
    assert!(graph.expand_airway_segment(&d, "FIXC", "UL997").is_none());
    // a start fix found by name on the airway when its place differs
    let moved = fix("FIXA", 1, 7).fix;
    let expanded = graph.expand_airway_segment(&moved, "FIXB", "UL997").unwrap();
    assert_eq!(names(&expanded), vec!["FIXB"]);
}

#[test]
fn segments_merge_levels() {
    let mut graph = AirwayGraph::new();
    graph.insert_or_update_segment(
        "T1",
        "P",
        (0, 0),
        &AirwayFix { minimum_level: Some(7000), ..fix("Q", 0, 1) },
        AirwayType::Both,
    );
    graph.insert_or_update_segment(
        "T1",
        "P",
        (0, 0),
        &AirwayFix { minimum_level: Some(3000), valid_direction: false, ..fix("Q", 0, 1) },
        AirwayType::Both,
    );
    let expanded = graph.expand_airway_segment(&fix("P", 0, 0).fix, "Q", "T1").unwrap();
    assert_eq!(expanded.len(), 1);
    assert_eq!(expanded[0].minimum_level, Some(3000));
    assert!(expanded[0].valid_direction);
    assert_eq!(AirwayType::default(), AirwayType::Unknown);
    assert_eq!(AirwayType::High.as_str(), "H");
    assert_eq!(AirwayType::Unknown.as_str(), "");
}

fn steps(v: &[AirwayFix]) -> Vec<(String, (i64, i64), bool, Option<u32>)> {
    v.iter()
        .map(|f| (f.fix.designator.clone(), f.fix.coordinate, f.valid_direction, f.minimum_level))
        .collect()
}

#[test]
fn serializes_keyed_by_airway_name() {
    let graph = build_graph();
    let view = graph.to_view();

    assert!(view.iter().any(|(name, _)| name == "UL997"));
    assert!(view.iter().any(|(name, _)| name == "L601"));

    let ul997 = &view.iter().find(|(name, _)| name == "UL997").unwrap().1;
    let names: Vec<&str> = ul997.iter().map(|w| w.fix.as_str()).collect();
    assert_eq!(names, ["FIXA", "FIXB", "FIXC"]);
}

#[test]
fn round_trips_through_json() {
    let graph = build_graph();

    let before = graph
        .expand_airway_segment(&fix("FIXA", 1, 1).fix, "FIXC", "UL997")
        .unwrap();

    let round_tripped = AirwayGraph::from_view(&graph.to_view());

    let after = round_tripped
        .expand_airway_segment(&fix("FIXA", 1, 1).fix, "FIXC", "UL997")
        .unwrap();

    assert_eq!(steps(&before), steps(&after));
}

#[test]
fn view_waypoints_carry_incoming_segments() {
    let view = build_graph().to_view();
    let ul997 = &view.iter().find(|(name, _)| name == "UL997").unwrap().1;
    // the first waypoint has no incoming segment
    assert!(ul997[0].valid_direction);
    assert_eq!(ul997[0].minimum_level, None);
    assert_eq!(ul997[0].airway_type, AirwayType::Unknown);
    assert_eq!(ul997[1].minimum_level, Some(5000));
    assert_eq!(ul997[1].airway_type, AirwayType::High);
    assert_eq!(ul997[2].coordinate, (3 * DEG, 3 * DEG));
    let l601 = &view.iter().find(|(name, _)| name == "L601").unwrap().1;
    assert_eq!(l601.len(), 2);
    assert_eq!(l601[1].airway_type, AirwayType::Low);
}
