use vatsim_parser::ese::Ese;
use vatsim_parser::sectors::{euler_ring, polygon_from_ese, vertex, Sectors, Volume, VolumeId};
use vatsim_parser::sct::Coordinate;

/// Whether `ring` is closed and passes along each segment exactly once.
fn passes_each_once(ring: &[(i64, i64)], segs: &[((i64, i64), (i64, i64))]) -> bool {
    if ring.len() != segs.len() + 1 || ring[0] != ring[ring.len() - 1] {
        return false;
    }
    let mut taken = vec![false; segs.len()];
    for w in ring.windows(2) {
        let found = segs.iter().enumerate().position(|(i, s)| {
            !taken[i] && ((s.0 == w[0] && s.1 == w[1]) || (s.0 == w[1] && s.1 == w[0]))
        });
        match found {
            Some(i) => taken[i] = true,
            None => return false,
        }
    }
    true
}

#[test]
fn square_border_is_one_ring() {
    let a = (0, 0);
    let b = (10, 0);
    let c = (10, 10);
    let d = (0, 10);
    // segments in any order and direction
    let segs = vec![(a, b), (c, b), (c, d), (a, d)];
    let ring = euler_ring(&segs).unwrap();
    assert_eq!(ring.len(), 5);
    assert_eq!(ring[0], a);
    assert!(passes_each_once(&ring, &segs));
}

#[test]
fn figure_eight_is_walked_whole() {
    let o = (0, 0);
    let segs = vec![(o, (1, 0)), ((1, 0), (1, 1)), ((1, 1), o), (o, (-1, 0)), ((-1, 0), (-1, -1)), ((-1, -1), o)];
    let ring = euler_ring(&segs).unwrap();
    assert!(passes_each_once(&ring, &segs));
}

#[test]
fn open_border_has_no_ring() {
    let segs = vec![((0, 0), (1, 0)), ((1, 0), (1, 1))];
    assert!(euler_ring(&segs).is_none());
    assert!(euler_ring(&vec![]).is_none());
}

#[test]
fn two_separate_rings_are_refused() {
    let segs = vec![
        ((0, 0), (1, 0)),
        ((1, 0), (0, 1)),
        ((0, 1), (0, 0)),
        ((5, 5), (6, 5)),
        ((6, 5), (5, 6)),
        ((5, 6), (5, 5)),
    ];
    assert!(euler_ring(&segs).is_none());
}

#[test]
fn quantizes_to_micro_degrees() {
    // 48.6675 degrees north, 11.794166... east
    let p = vertex(Coordinate { lat: 175_203_000, lng: 42_459_000 });
    assert_eq!(p, (11_794_167, 48_667_500));
    // halves are rounded away from zero
    assert_eq!(vertex(Coordinate { lat: 9, lng: -9 }), (-3, 3));
}

#[test]
fn sector_border_from_ese() {
    let ese = Ese::parse(
        b"[AIRSPACE]
SECTORLINE:1
COORD:N048.00.00.000:E011.00.00.000
COORD:N048.00.00.000:E012.00.00.000
SECTORLINE:2
COORD:N048.00.00.000:E012.00.00.000
COORD:N049.00.00.000:E012.00.00.000
COORD:N049.00.00.000:E011.00.00.000
SECTORLINE:3
COORD:N049.00.00.000:E011.00.00.000
COORD:N048.00.00.000:E011.00.00.000
SECTOR:TEST:0:10000
OWNER:A:B
BORDER:1:2:3
",
    )
    .unwrap();
    let sector = ese.sector("TEST").unwrap();
    assert_eq!(sector.border.len(), 3);
    let ring = polygon_from_ese(sector).unwrap();
    assert_eq!(ring.len(), 5);
    assert_eq!(ring[0], ring[4]);
    for p in &ring {
        assert!(p.0 == 11_000_000 || p.0 == 12_000_000);
        assert!(p.1 == 48_000_000 || p.1 == 49_000_000);
    }
}

#[test]
fn volumes_of_the_same_owners_make_one_sector() {
    let ese = Ese::parse(
        b"[AIRSPACE]
SECTORLINE:1
COORD:N048.00.00.000:E011.00.00.000
COORD:N048.00.00.000:E012.00.00.000
COORD:N049.00.00.000:E012.00.00.000
COORD:N048.00.00.000:E011.00.00.000
SECTORLINE:2
COORD:N048.00.00.000:E011.00.00.000
COORD:N048.00.00.000:E012.00.00.000
SECTOR:LOW:0:10000
OWNER:A:B
BORDER:1
DEPAPT:EDDM:EDMO
SECTOR:HIGH:10000:20000
OWNER:A:B
BORDER:1
DEPAPT:EDDM:EDMA
SECTOR:OTHER:0:10000
OWNER:C
BORDER:1
SECTOR:OPEN:0:10000
OWNER:A:B
BORDER:2
",
    )
    .unwrap();
    let (volumes, sectors) = Sectors::from_ese(&ese);
    let ids: Vec<&str> = volumes.iter().map(|v| v.id.as_str()).collect();
    assert_eq!(ids, vec!["LOW", "HIGH", "OTHER"]);
    assert_eq!(volumes[1].lower_level, 10000);
    assert_eq!(volumes[1].upper_level, 20000);
    assert_eq!(volumes[0].lateral_border.len(), 4);
    assert_eq!(sectors.0.len(), 2);
    assert_eq!(sectors.0[0].id.as_str(), "LOW");
    let vols: Vec<&str> = sectors.0[0].volumes.iter().map(|v| v.as_str()).collect();
    assert_eq!(vols, vec!["LOW", "HIGH"]);
    assert_eq!(sectors.0[0].departure_aerodromes, vec!["EDDM", "EDMO", "EDMA"]);
    assert_eq!(sectors.0[1].position_priority, vec!["C"]);
    assert_eq!(
        sectors.find_id_by_volume(&VolumeId("HIGH".to_string())).map(|id| id.as_str()),
        Some("LOW")
    );
    assert!(sectors.find_id_by_volume(&VolumeId("OPEN".to_string())).is_none());
}

#[test]
fn volume_border_is_wound_counter_clockwise() {
    // clockwise square (x east, y north)
    let ring = vec![(0, 0), (0, 10), (10, 10), (10, 0), (0, 0)];
    let v = Volume::new(VolumeId("V".to_string()), 0, 100, ring.clone());
    let mut reversed = ring.clone();
    reversed.reverse();
    assert_eq!(v.lateral_border, reversed);
    let w = Volume::new(VolumeId("W".to_string()), 0, 100, reversed.clone());
    assert_eq!(w.lateral_border, reversed);
}
