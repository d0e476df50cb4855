use geo::{Destination, Geodesic, Point};

use vatsim_parser::airways::AirwayGraph;
use vatsim_parser::locations::{Airport, Designated, Locations};
use vatsim_parser::sct::{Beacon, Coordinate, Fix, Runway};

// Places are kept in thousandths of a second of arc; these tests write them, and
// hold the results against, decimal degrees.

fn mas(deg: f64) -> i64 {
    (deg * 3_600_000.0).round() as i64
}

fn c(x: f64, y: f64) -> Coordinate {
    Coordinate { lat: mas(y), lng: mas(x) }
}

fn close(a: &Fix, designator: &str, x: f64, y: f64) -> bool {
    a.designator == designator
        && (a.coordinate.lng as f64 / 3_600_000.0 - x).abs() < 1e-9
        && (a.coordinate.lat as f64 / 3_600_000.0 - y).abs() < 1e-9
}

/// The place that a designator names, where it names a place.
fn place(d: Option<Designated>) -> Fix {
    match d {
        Some(Designated::Place(f)) => f,
        other => panic!("not a place: {:?}", other),
    }
}

/// Where the point that a bearing and range designator names lies: the geodesic
/// step on what the library resolves the designator to.
fn range_bearing_point(d: Option<Designated>, designator: &str) -> (f64, f64) {
    match d {
        Some(Designated::RangeBearing { designator: n, from, bearing, range }) => {
            assert_eq!(n, designator);
            let origin = Point::new(
                from.coordinate.lng as f64 / 3_600_000.0,
                from.coordinate.lat as f64 / 3_600_000.0,
            );
            let p = Geodesic.destination(origin, bearing as f64, range as f64 * 1852.0);
            (p.x(), p.y())
        },
        other => panic!("not a bearing and range: {:?}", other),
    }
}

fn locations() -> Locations {
    Locations {
        fixes: vec![Fix {
            designator: "ARMUT".to_string(),
            coordinate: c(12.323_332_777_777_777, 49.722_499_722_222_224),
        }],
        ndbs: vec![
            Beacon {
                designator: "MIQ".to_string(),
                frequency: "426.000".to_string(),
                coordinate: c(11.597_502_777_777_779, 48.570_225),
            },
            Beacon {
                designator: "SI".to_string(),
                frequency: "410.000".to_string(),
                coordinate: c(12.987_674_722_222_222, 47.818_607_777_777_78),
            },
        ],
        vors: vec![Beacon {
            designator: "OTT".to_string(),
            frequency: "112.300".to_string(),
            coordinate: c(11.816_535_833_333_335, 48.180_393_888_888_89),
        }],
        airports: vec![Airport {
            designator: "EDDM".to_string(),
            runways: vec![
                Runway {
                    designators: ("08R".to_string(), "26L".to_string()),
                    headings: (80, 260),
                    location: (
                        c(11.751_016_944_444_444, 48.340_668_888_888_89),
                        c(11.804_613_888_888_89, 48.344_796_944_444_45),
                    ),
                    aerodrome: "EDDM".to_string(),
                },
                Runway {
                    designators: ("08L".to_string(), "26R".to_string()),
                    headings: (80, 260),
                    location: (
                        c(11.767_549_722_222_222, 48.362_766_944_444_445),
                        c(11.821_171_944_444_444, 48.366_885_833_333_335),
                    ),
                    aerodrome: "EDDM".to_string(),
                },
            ],
            coordinate: c(11.786_085_833_333_333, 48.353_782_777_777_78),
        }],
        airways: AirwayGraph::new(),
        sids: vec![],
        stars: vec![],
    }
}

#[test]
fn test_get_by_wpt() {
    let locs = locations();

    assert!(close(&place(locs.convert_designator("MIQ")), "MIQ", 11.597_502_777_777_779, 48.570_225));
    assert!(close(
        &place(locs.convert_designator("OTT")),
        "OTT",
        11.816_535_833_333_335,
        48.180_393_888_888_89
    ));
    assert!(close(
        &place(locs.convert_designator("EDDM")),
        "EDDM",
        11.786_085_833_333_333,
        48.353_782_777_777_78
    ));
    assert!(close(
        &place(locs.convert_designator("EDDM26R")),
        "EDDM26R",
        11.821_171_944_444_444,
        48.366_885_833_333_335
    ));
    assert!(close(
        &place(locs.convert_designator("ARMUT")),
        "ARMUT",
        12.323_332_777_777_777,
        49.722_499_722_222_224
    ));
    assert!(locs.convert_designator("OZE").is_none());
    assert!(close(&place(locs.convert_designator("46N078W")), "46N078W", -78.0, 46.0));
    assert!(close(
        &place(locs.convert_designator("4620N05805W")),
        "4620N05805W",
        -58.083_333_333_333_336,
        46.333_333_333_333_336
    ));
    assert!(close(
        &place(locs.convert_designator("462013N0580503W")),
        "462013N0580503W",
        -58.084_166_666_666_67,
        46.336_944_444_444_45
    ));
    assert!(close(&place(locs.convert_designator("4N40W")), "04N040W", -40.0, 4.0));
    assert!(close(&place(locs.convert_designator("04N40W")), "04N040W", -40.0, 4.0));
    assert!(locs.convert_designator("4N04W").is_none());
    assert!(locs.convert_designator("04N04W").is_none());
    assert!(close(&place(locs.convert_designator("400N4000W")), "0400N04000W", -40.0, 4.0));
    assert!(close(&place(locs.convert_designator("0400N4000W")), "0400N04000W", -40.0, 4.0));
    assert!(locs.convert_designator("400N0400W").is_none());
    assert!(locs.convert_designator("0400N0400W").is_none());

    match locs.convert_designator("ARMUT070005") {
        Some(Designated::RangeBearing { from, bearing, range, .. }) => {
            assert_eq!(from.designator, "ARMUT");
            assert_eq!((bearing, range), (70, 5));
        },
        other => panic!("not a bearing and range: {:?}", other),
    }
    let (x, y) = range_bearing_point(locs.convert_designator("ARMUT070005"), "ARMUT070005");
    assert!((x - 12.444_077_899_400_547).abs() < 1e-9 && (y - 49.750_911_853_173).abs() < 1e-9);
    let (x, y) = range_bearing_point(locs.convert_designator("MIQ270060"), "MIQ270060");
    assert!((x - 10.091_991_772_311_63).abs() < 1e-9 && (y - 48.560_381_643_538_1).abs() < 1e-9);
    let (x, y) = range_bearing_point(locs.convert_designator("SI123456"), "SI123456");
    assert!((x - 21.728_708_973_319_613).abs() < 1e-9 && (y - 43.327_844_333_714_84).abs() < 1e-9);
}

#[test]
fn range_bearing_splits_the_designator() {
    let locs = locations();
    let (base, bearing, range) = locs.range_bearing("MIQ270060").unwrap();
    assert_eq!(base.designator, "MIQ");
    assert_eq!(bearing, 270);
    assert_eq!(range, 60);
    // the place must be known
    assert!(locs.range_bearing("OZE270060").is_none());
    // no other form is taken for a bearing and range
    assert!(locs.range_bearing("MIQ27006").is_none());
    assert!(locs.range_bearing("miq270060").is_none());
    // a designator of that form whose place is unknown names nothing
    assert!(locs.convert_designator("OZE270060").is_none());
}

#[test]
fn runway_ends_are_found_by_either_designator() {
    let locs = locations();
    let f = place(locs.convert_designator("EDDM08L"));
    assert!(close(&f, "EDDM08L", 11.767_549_722_222_222, 48.362_766_944_444_445));
    assert!(locs.convert_designator("EDDM09").is_none());
    assert!(locs.contains_designator("EDDM26L"));
    assert!(!locs.contains_designator("46N078W"));
}

#[test]
fn coordinates_in_the_southern_and_eastern_hemispheres() {
    let locs = locations();
    let f = place(locs.convert_designator("3330S15110E"));
    assert_eq!(f.designator, "3330S15110E");
    assert_eq!(f.coordinate.lat, -(33 * 3_600_000 + 30 * 60_000));
    assert_eq!(f.coordinate.lng, 151 * 3_600_000 + 10 * 60_000);
    // latitude and longitude of different precision
    assert!(locs.convert_designator("4620N058W").is_none());
}

#[test]
fn procedure_waypoints_keep_bearing_and_range_designators() {
    let sct = vatsim_parser::sct::Sct::parse(b"[FIXES]\nARMUT N049.43.21.000 E012.19.24.000\n").unwrap();
    let ese = vatsim_parser::ese::Ese::parse(b"[SIDSSTARS]\nSID:EDDM:26R:ARMUT1N:ARMUT ARMUT070005 NOWHERE\n").unwrap();
    let locs = Locations::from_euroscope(sct, ese, AirwayGraph::new());
    assert_eq!(locs.sids.len(), 1);
    let wps = &locs.sids[0].waypoints;
    // the unknown designator is left out
    assert_eq!(wps.len(), 2);
    match &wps[0] {
        Designated::Place(f) => assert_eq!(f.designator, "ARMUT"),
        other => panic!("not a place: {:?}", other),
    }
    match &wps[1] {
        Designated::RangeBearing { designator, from, bearing, range } => {
            assert_eq!(designator, "ARMUT070005");
            assert_eq!(from.designator, "ARMUT");
            assert_eq!((*bearing, *range), (70, 5));
        },
        other => panic!("not a bearing and range: {:?}", other),
    }
}

