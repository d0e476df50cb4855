use vatsim_parser::sector_index::SectorVolumeIndex;
use vatsim_parser::sectors::{Sector, SectorId, Sectors, Volume, VolumeId};

// Points are kept in micro-degrees, (longitude, latitude); these tests write them
// in degrees.

fn pt(x: f64, y: f64) -> (i64, i64) {
    ((x * 1_000_000.0).round() as i64, (y * 1_000_000.0).round() as i64)
}

fn square_volume(id: &str, min: (f64, f64), max: (f64, f64), lower: u32, upper: u32) -> Volume {
    let border = vec![
        pt(min.0, min.1),
        pt(max.0, min.1),
        pt(max.0, max.1),
        pt(min.0, max.1),
        pt(min.0, min.1),
    ];
    Volume::new(VolumeId(id.to_string()), lower, upper, border)
}

fn sector(id: &str, volumes: &[&str]) -> Sector {
    Sector {
        id: SectorId(id.to_string()),
        position_priority: vec!["POS".to_string()],
        runway_filter: vec![],
        volumes: volumes.iter().map(|v| VolumeId((*v).to_string())).collect(),
        departure_aerodromes: vec![],
        arrival_aerodromes: vec![],
    }
}

fn built(entries: Vec<(Sector, Volume)>) -> (Sectors, Vec<Volume>, SectorVolumeIndex) {
    let mut sectors = Vec::new();
    let mut volumes = Vec::new();
    for (sector, volume) in entries {
        volumes.push(volume);
        sectors.push(sector);
    }
    let sectors = Sectors(sectors);
    let index = SectorVolumeIndex::new(&sectors, &volumes);
    (sectors, volumes, index)
}

#[test]
fn point_inside_volume_returns_sector() {
    let vol = square_volume("VOL1", (0.0, 0.0), (10.0, 10.0), 0, 20_000);
    let (_sectors, _volumes, index) = built(vec![(sector("SEC1", &["VOL1"]), vol)]);

    assert_eq!(index.find_sector(pt(5.0, 5.0), 5000).as_deref(), Some("SEC1"));
}

#[test]
fn point_outside_volume_returns_none() {
    let vol = square_volume("VOL1", (0.0, 0.0), (10.0, 10.0), 0, 20_000);
    let (_sectors, _volumes, index) = built(vec![(sector("SEC1", &["VOL1"]), vol)]);

    assert_eq!(index.find_sector(pt(50.0, 50.0), 5000), None);
}

#[test]
fn level_outside_range_returns_none() {
    let vol = square_volume("VOL1", (0.0, 0.0), (10.0, 10.0), 10_000, 20_000);
    let (_sectors, _volumes, index) = built(vec![(sector("SEC1", &["VOL1"]), vol)]);

    assert_eq!(index.find_sector(pt(5.0, 5.0), 5000), None);
    assert_eq!(index.find_sector(pt(5.0, 5.0), 15_000).as_deref(), Some("SEC1"));
    // upper_level is exclusive
    assert_eq!(index.find_sector(pt(5.0, 5.0), 20_000), None);
}

#[test]
fn sector_without_position_priority_is_not_indexed() {
    let vol = square_volume("VOL1", (0.0, 0.0), (10.0, 10.0), 0, 20_000);
    let mut sec = sector("SEC1", &["VOL1"]);
    sec.position_priority = vec![];
    let (_sectors, _volumes, index) = built(vec![(sec, vol)]);

    assert_eq!(index.find_sector(pt(5.0, 5.0), 5000), None);
}

#[test]
fn volumes_near_line_finds_crossing_candidate() {
    let vol = square_volume("VOL1", (5.0, -5.0), (15.0, 5.0), 0, 20_000);
    let (_sectors, _volumes, index) = built(vec![(sector("SEC1", &["VOL1"]), vol)]);

    let candidates = index.volumes_near_line(pt(0.0, 0.0), pt(20.0, 0.0));
    assert_eq!(candidates.len(), 1);
    assert_eq!(candidates[0].0, "SEC1");

    assert_eq!(index.volumes_near_line(pt(100.0, 100.0), pt(200.0, 100.0)).len(), 0);
}

#[test]
fn rebuild_overwrites_a_stale_cached_tree() {
    let vol = square_volume("VOL1", (0.0, 0.0), (10.0, 10.0), 0, 20_000);
    let (_sectors, _volumes, mut index) = built(vec![(sector("SEC1", &["VOL1"]), vol)]);
    assert_eq!(index.find_sector(pt(5.0, 5.0), 5000).as_deref(), Some("SEC1"));

    let vol2 = square_volume("VOL2", (0.0, 0.0), (10.0, 10.0), 0, 20_000);
    let (sectors2, volumes2, _) = built(vec![(sector("SEC2", &["VOL2"]), vol2)]);
    index.rebuild(&sectors2, &volumes2);

    assert_eq!(index.find_sector(pt(5.0, 5.0), 5000).as_deref(), Some("SEC2"));
}

#[test]
fn overlapping_volumes_give_the_first_sector_id() {
    let a = square_volume("VA", (0.0, 0.0), (10.0, 10.0), 0, 20_000);
    let b = square_volume("VB", (0.0, 0.0), (10.0, 10.0), 0, 20_000);
    let (_s, _v, index) = built(vec![(sector("SEC_B", &["VB"]), b), (sector("SEC_A", &["VA"]), a)]);
    assert_eq!(index.volumes_at(pt(5.0, 5.0)).len(), 2);
    assert_eq!(index.find_sector(pt(5.0, 5.0), 100).as_deref(), Some("SEC_A"));
    // a point on the border is not inside
    assert_eq!(index.volumes_at(pt(0.0, 5.0)).len(), 0);
}
