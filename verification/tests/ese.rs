use std::collections::HashMap;

use vatsim_parser::ese::{Ese, EseError};

// The library keeps coordinates exactly, in thousandths of a second of arc; these
// tests hold them against decimal degrees.

#[derive(Clone, Copy, Debug)]
struct Coord {
    x: f64,
    y: f64,
}

impl PartialEq for Coord {
    fn eq(&self, other: &Self) -> bool {
        (self.x - other.x).abs() < 1e-9 && (self.y - other.y).abs() < 1e-9
    }
}

#[derive(Debug, PartialEq)]
struct Position {
    name: String,
    callsign: String,
    frequency: String,
    identifier: String,
    prefix: String,
    middle: String,
    suffix: String,
    squawk_range: Option<(u16, u16)>,
    visibility_points: Vec<Coord>,
}

#[derive(Debug, PartialEq)]
struct SectorLine {
    points: Vec<Coord>,
}

#[derive(Debug, PartialEq)]
struct Sector {
    id: String,
    bottom: u32,
    top: u32,
    border: Vec<SectorLine>,
}

#[derive(Debug, PartialEq)]
struct Agreement {
    previous_fix: Option<String>,
    departure_runway: Option<String>,
    subsequent_fix: Option<String>,
    arrival_runway: Option<String>,
    fix: Option<String>,
    exit_sector: String,
    entry_sector: String,
    climb_level: Option<u32>,
    descent_level: Option<u32>,
    description: String,
}

#[derive(Debug, PartialEq)]
struct SID {
    name: String,
    airport: String,
    runway: Option<String>,
    waypoints: Vec<String>,
}

#[derive(Debug, PartialEq)]
struct STAR {
    name: String,
    airport: String,
    runway: Option<String>,
    waypoints: Vec<String>,
}

#[derive(Debug, PartialEq)]
enum SidStar {
    Sid(SID),
    Star(STAR),
}

#[derive(Debug)]
struct Mirror {
    positions: HashMap<String, Position>,
    sectors: HashMap<String, Sector>,
    agreements: Vec<Agreement>,
    sids_stars: Vec<SidStar>,
}

fn coord(c: &vatsim_parser::sct::Coordinate) -> Coord {
    Coord { y: c.lat as f64 / 3_600_000.0, x: c.lng as f64 / 3_600_000.0 }
}

fn mirror(e: &Ese) -> Mirror {
    Mirror {
        positions: e
            .positions
            .iter()
            .map(|p| {
                (
                    p.identifier.clone(),
                    Position {
                        name: p.name.clone(),
                        callsign: p.callsign.clone(),
                        frequency: p.frequency.clone(),
                        identifier: p.identifier.clone(),
                        prefix: p.prefix.clone(),
                        middle: p.middle.clone(),
                        suffix: p.suffix.clone(),
                        squawk_range: p.squawk_range,
                        visibility_points: p.visibility_points.iter().map(coord).collect(),
                    },
                )
            })
            .collect(),
        sectors: e
            .sectors
            .iter()
            .map(|s| {
                (
                    s.id.clone(),
                    Sector {
                        id: s.id.clone(),
                        bottom: s.bottom,
                        top: s.top,
                        border: s
                            .border
                            .iter()
                            .map(|l| SectorLine { points: l.points.iter().map(coord).collect() })
                            .collect(),
                    },
                )
            })
            .collect(),
        agreements: e
            .agreements
            .iter()
            .map(|a| Agreement {
                previous_fix: a.previous_fix.clone(),
                departure_runway: a.departure_runway.clone(),
                subsequent_fix: a.subsequent_fix.clone(),
                arrival_runway: a.arrival_runway.clone(),
                fix: a.fix.clone(),
                exit_sector: a.exit_sector.clone(),
                entry_sector: a.entry_sector.clone(),
                climb_level: a.climb_level,
                descent_level: a.descent_level,
                description: a.description.clone(),
            })
            .collect(),
        sids_stars: e
            .sids_stars
            .iter()
            .map(|s| match s {
                vatsim_parser::ese::SidStar::Sid(p) => SidStar::Sid(SID {
                    name: p.name.clone(),
                    airport: p.airport.clone(),
                    runway: p.runway.clone(),
                    waypoints: p.waypoints.clone(),
                }),
                vatsim_parser::ese::SidStar::Star(p) => SidStar::Star(STAR {
                    name: p.name.clone(),
                    airport: p.airport.clone(),
                    runway: p.runway.clone(),
                    waypoints: p.waypoints.clone(),
                }),
            })
            .collect(),
    }
}

fn parse(bytes: &[u8]) -> Result<Mirror, EseError> {
    Ese::parse(bytes).map(|e| mirror(&e))
}

#[test]
fn test_ese_positions() {
        let ese_bytes = b"
[POSITIONS]
EDDM_ATIS:Muenchen ATIS:123.130:MX::EDDM:ATIS:::0000:0000
EDMM_ALB_CTR:Muenchen Radar:129.100:ALB:ALB:EDMM:CTR:::2354:2367:N049.02.24.501:E012.31.35.850
EDMM_TEG_CTR:Muenchen Radar:133.680:TEG:TEG:EDMM:CTR:::2354:2367:N048.10.49.419:E011.48.59.530
EDXX_FIS_CTR:Langen Information:128.950:GIXX:FIS:EDXX:CTR:::2001:2577:N049.26.51.334:E010.13.06.336:N052.28.08.891:E010.52.12.796
EGBB_ATIS:Birmingham ATIS:136.030:BBI:B:EGBB:ATIS:-:-::

[SIDSSTARS]
STAR:EDDN:28:UPALA1V:UPALA DN463 DN462 DN461 DN452 DN453 DN454 DN455 DN456 DN457 DN458 DN459 DN439 DN438 DN437 OSNUB NGD32
STAR:EDMO:22:MAHxRNP:MAH MO220 MO221 EDIMO
SID:EDDM:26R:GIVMI1N:DM060 DM063 GIVMI
        ";
        let ese = parse(ese_bytes);
        assert_eq!(
            ese.as_ref().unwrap().positions,
            HashMap::from([
                (
                    "MX".to_string(),
                    Position {
                        name: "EDDM_ATIS".to_string(),
                        callsign: "Muenchen ATIS".to_string(),
                        frequency: "123.130".to_string(),
                        identifier: "MX".to_string(),
                        prefix: "EDDM".to_string(),
                        middle: String::new(),
                        suffix: "ATIS".to_string(),
                        squawk_range: Some((0, 0)),
                        visibility_points: vec![],
                    }
                ),
                (
                    "ALB".to_string(),
                    Position {
                        name: "EDMM_ALB_CTR".to_string(),
                        callsign: "Muenchen Radar".to_string(),
                        frequency: "129.100".to_string(),
                        identifier: "ALB".to_string(),
                        prefix: "EDMM".to_string(),
                        middle: "ALB".to_string(),
                        suffix: "CTR".to_string(),
                        squawk_range: Some((2354, 2367)),
                        visibility_points: vec![Coord {
                            y: 49.040_139_166_666_66,
                            x: 12.526_625_000_000_001
                        }],
                    }
                ),
                (
                    "TEG".to_string(),
                    Position {
                        name: "EDMM_TEG_CTR".to_string(),
                        callsign: "Muenchen Radar".to_string(),
                        frequency: "133.680".to_string(),
                        identifier: "TEG".to_string(),
                        prefix: "EDMM".to_string(),
                        middle: "TEG".to_string(),
                        suffix: "CTR".to_string(),
                        squawk_range: Some((2354, 2367)),
                        visibility_points: vec![Coord {
                            y: 48.180_394_166_666_666,
                            x: 11.816_536_111_111_112
                        }],
                    }
                ),
                (
                    "GIXX".to_string(),
                    Position {
                        name: "EDXX_FIS_CTR".to_string(),
                        callsign: "Langen Information".to_string(),
                        frequency: "128.950".to_string(),
                        identifier: "GIXX".to_string(),
                        prefix: "EDXX".to_string(),
                        middle: "FIS".to_string(),
                        suffix: "CTR".to_string(),
                        squawk_range: Some((2001, 2577)),
                        visibility_points: vec![
                            Coord {
                                y: 49.447_592_777_777_77,
                                x: 10.218_426_666_666_668
                            },
                            Coord {
                                y: 52.469_136_388_888_89,
                                x: 10.870_221_111_111_112
                            }
                        ],
                    }
                ),
                (
                    "BBI".to_string(),
                    Position {
                        name: "EGBB_ATIS".to_string(),
                        callsign: "Birmingham ATIS".to_string(),
                        frequency: "136.030".to_string(),
                        identifier: "BBI".to_string(),
                        prefix: "EGBB".to_string(),
                        middle: "B".to_string(),
                        suffix: "ATIS".to_string(),
                        squawk_range: None,
                        visibility_points: vec![]
                    }
                )
            ])
        );
}

#[test]
fn test_ese_sectors() {
        let ese_bytes = b"
[AIRSPACE]

SECTORLINE:109
COORD:N049.08.17.000:E011.07.57.000 ; inline comment
COORD:N049.10.00.000:E011.58.00.000
DISPLAY:EDMM\xb7ETSIA\xb7000\xb7075:EDMM\xb7ETSIA\xb7000\xb7075:EDMM\xb7EDMMALB\xb7000\xb7105
DISPLAY:EDMM\xb7ETSIA\xb7000\xb7075:EDMM\xb7ETSIA\xb7000\xb7075:EDMM\xb7EDMMFRK\xb7000\xb7135
DISPLAY:EDMM\xb7EDMMALB\xb7000\xb7105:EDMM\xb7EDMMALB\xb7000\xb7105:EDMM\xb7ETSIA\xb7000\xb7075
DISPLAY:EDMM\xb7EDMMALB\xb7000\xb7105:EDMM\xb7EDMMALB\xb7000\xb7105:EDMM\xb7EDMMFRK\xb7000\xb7135
DISPLAY:EDMM\xb7EDMMFRK\xb7000\xb7135:EDMM\xb7EDMMFRK\xb7000\xb7135:EDMM\xb7ETSIA\xb7000\xb7075
DISPLAY:EDMM\xb7EDMMFRK\xb7000\xb7135:EDMM\xb7EDMMFRK\xb7000\xb7135:EDMM\xb7EDMMALB\xb7000\xb7105
DISPLAY:EDMM\xb7EDMMFRK\xb7000\xb7135:EDMM\xb7EDMMFRK\xb7000\xb7135:EDMM\xb7EDMMALB\xb7105\xb7135
DISPLAY:EDMM\xb7EDMMALB\xb7105\xb7135:EDMM\xb7EDMMALB\xb7105\xb7135:EDMM\xb7EDMMFRK\xb7000\xb7135

SECTORLINE:152
COORD:N048.40.03.000:E011.47.39.000
COORD:N049.10.00.000:E011.58.00.000
DISPLAY:EDMM\xb7EDMMALB\xb7000\xb7105:EDMM\xb7EDMMALB\xb7000\xb7105:EDMM\xb7EDMMRDG\xb7000\xb7135
DISPLAY:EDMM\xb7EDMMALB\xb7105\xb7135:EDMM\xb7EDMMALB\xb7105\xb7135:EDMM\xb7EDMMRDG\xb7000\xb7135
DISPLAY:EDMM\xb7EDMMALB\xb7135\xb7245:EDMM\xb7EDMMALB\xb7135\xb7245:EDMM\xb7EDMMRDG\xb7135\xb7245
DISPLAY:EDMM\xb7EDMMALB\xb7245\xb7315:EDMM\xb7EDMMALB\xb7245\xb7315:EDMM\xb7EDMMRDG\xb7245\xb7315
DISPLAY:EDMM\xb7EDMMRDG\xb7000\xb7135:EDMM\xb7EDMMRDG\xb7000\xb7135:EDMM\xb7EDMMALB\xb7000\xb7105
DISPLAY:EDMM\xb7EDMMRDG\xb7000\xb7135:EDMM\xb7EDMMRDG\xb7000\xb7135:EDMM\xb7EDMMALB\xb7105\xb7135
DISPLAY:EDMM\xb7EDMMRDG\xb7135\xb7245:EDMM\xb7EDMMRDG\xb7135\xb7245:EDMM\xb7EDMMALB\xb7135\xb7245
DISPLAY:EDMM\xb7EDMMRDG\xb7245\xb7315:EDMM\xb7EDMMRDG\xb7245\xb7315:EDMM\xb7EDMMALB\xb7245\xb7315

SECTORLINE:153
COORD:N048.40.03.000:E011.47.39.000
COORD:N048.40.04.000:E011.30.42.000
COORD:N048.40.04.000:E011.19.15.000
DISPLAY:EDMM\xb7EDMMALB\xb7000\xb7105:EDMM\xb7EDMMALB\xb7000\xb7105:EDMM\xb7EDMMTMANH\xb7095\xb7195
DISPLAY:EDMM\xb7EDMMALB\xb7000\xb7105:EDMM\xb7EDMMALB\xb7000\xb7105:EDMM\xb7EDMMTMANL\xb7000\xb7095
DISPLAY:EDMM\xb7EDMMTMANH\xb7095\xb7195:EDMM\xb7EDMMTMANH\xb7095\xb7195:EDMM\xb7EDMMALB\xb7000\xb7105
DISPLAY:EDMM\xb7EDMMTMANH\xb7095\xb7195:EDMM\xb7EDMMTMANH\xb7095\xb7195:EDMM\xb7EDMMALB\xb7105\xb7135
DISPLAY:EDMM\xb7EDMMTMANH\xb7095\xb7195:EDMM\xb7EDMMTMANH\xb7095\xb7195:EDMM\xb7EDMMALB\xb7135\xb7245
DISPLAY:EDMM\xb7EDMMTMANL\xb7000\xb7095:EDMM\xb7EDMMTMANL\xb7000\xb7095:EDMM\xb7EDMMALB\xb7000\xb7105
DISPLAY:EDMM\xb7EDMMALB\xb7105\xb7135:EDMM\xb7EDMMALB\xb7105\xb7135:EDMM\xb7EDMMTMANH\xb7095\xb7195
DISPLAY:EDMM\xb7EDMMALB\xb7135\xb7245:EDMM\xb7EDMMALB\xb7135\xb7245:EDMM\xb7EDMMTMANH\xb7095\xb7195
DISPLAY:EDMM\xb7EDMMALB\xb7135\xb7245:EDMM\xb7EDMMALB\xb7135\xb7245:EDMM\xb7EDMMNDG\xb7195\xb7245
DISPLAY:EDMM\xb7EDMMALB\xb7245\xb7315:EDMM\xb7EDMMALB\xb7245\xb7315:EDMM\xb7EDMMNDG\xb7245\xb7315
DISPLAY:EDMM\xb7EDMMNDG\xb7195\xb7245:EDMM\xb7EDMMNDG\xb7195\xb7245:EDMM\xb7EDMMALB\xb7135\xb7245
DISPLAY:EDMM\xb7EDMMNDG\xb7245\xb7315:EDMM\xb7EDMMNDG\xb7245\xb7315:EDMM\xb7EDMMALB\xb7245\xb7315

SECTORLINE:154
COORD:N048.40.04.000:E011.19.15.000
COORD:N049.07.10.000:E010.40.25.000
DISPLAY:EDMM\xb7EDMMALB\xb7000\xb7105:EDMM\xb7EDMMALB\xb7000\xb7105:EDMM\xb7EDMMWLD\xb7000\xb7105
DISPLAY:EDMM\xb7EDMMWLD\xb7000\xb7105:EDMM\xb7EDMMWLD\xb7000\xb7105:EDMM\xb7EDMMALB\xb7000\xb7105
DISPLAY:EDMM\xb7EDMMALB\xb7105\xb7135:EDMM\xb7EDMMALB\xb7105\xb7135:EDMM\xb7EDMMWLD\xb7105\xb7245
DISPLAY:EDMM\xb7EDMMALB\xb7135\xb7245:EDMM\xb7EDMMALB\xb7135\xb7245:EDMM\xb7EDMMWLD\xb7105\xb7245
DISPLAY:EDMM\xb7EDMMALB\xb7245\xb7315:EDMM\xb7EDMMALB\xb7245\xb7315:EDMM\xb7EDMMWLD\xb7245\xb7315
DISPLAY:EDMM\xb7EDMMWLD\xb7105\xb7245:EDMM\xb7EDMMWLD\xb7105\xb7245:EDMM\xb7EDMMALB\xb7105\xb7135
DISPLAY:EDMM\xb7EDMMWLD\xb7105\xb7245:EDMM\xb7EDMMWLD\xb7105\xb7245:EDMM\xb7EDMMALB\xb7135\xb7245
DISPLAY:EDMM\xb7EDMMWLD\xb7245\xb7315:EDMM\xb7EDMMWLD\xb7245\xb7315:EDMM\xb7EDMMALB\xb7245\xb7315

SECTORLINE:155
COORD:N049.07.10.000:E010.40.25.000
COORD:N049.08.17.000:E011.07.57.000
DISPLAY:EDMM\xb7EDMMALB\xb7000\xb7105:EDMM\xb7EDMMALB\xb7000\xb7105:EDMM\xb7EDMMFRK\xb7000\xb7135
DISPLAY:EDMM\xb7EDMMFRK\xb7000\xb7135:EDMM\xb7EDMMFRK\xb7000\xb7135:EDMM\xb7EDMMALB\xb7000\xb7105
DISPLAY:EDMM\xb7EDMMFRK\xb7000\xb7135:EDMM\xb7EDMMFRK\xb7000\xb7135:EDMM\xb7EDMMALB\xb7105\xb7135
DISPLAY:EDMM\xb7EDMMALB\xb7105\xb7135:EDMM\xb7EDMMALB\xb7105\xb7135:EDMM\xb7EDMMFRK\xb7000\xb7135

SECTORLINE:167
COORD:N049.07.10.000:E010.40.25.000
COORD:N049.10.43.000:E010.35.16.000
DISPLAY:EDMM\xb7EDMMFRK\xb7000\xb7135:EDMM\xb7EDMMFRK\xb7000\xb7135:EDMM\xb7EDMMWLD\xb7000\xb7105
DISPLAY:EDMM\xb7EDMMFRK\xb7000\xb7135:EDMM\xb7EDMMFRK\xb7000\xb7135:EDMM\xb7EDMMWLD\xb7105\xb7245
DISPLAY:EDMM\xb7EDMMWLD\xb7000\xb7105:EDMM\xb7EDMMWLD\xb7000\xb7105:EDMM\xb7EDMMFRK\xb7000\xb7135
DISPLAY:EDMM\xb7EDMMALB\xb7135\xb7245:EDMM\xb7EDMMALB\xb7135\xb7245:EDMM\xb7EDMMWLD\xb7105\xb7245
DISPLAY:EDMM\xb7EDMMALB\xb7245\xb7315:EDMM\xb7EDMMALB\xb7245\xb7315:EDMM\xb7EDMMWLD\xb7245\xb7315
DISPLAY:EDMM\xb7EDMMWLD\xb7105\xb7245:EDMM\xb7EDMMWLD\xb7105\xb7245:EDMM\xb7EDMMFRK\xb7000\xb7135
DISPLAY:EDMM\xb7EDMMWLD\xb7105\xb7245:EDMM\xb7EDMMWLD\xb7105\xb7245:EDMM\xb7EDMMALB\xb7135\xb7245
DISPLAY:EDMM\xb7EDMMWLD\xb7245\xb7315:EDMM\xb7EDMMWLD\xb7245\xb7315:EDMM\xb7EDMMALB\xb7245\xb7315
DISPLAY:EDMM\xb7EDUUDON14\xb7315\xb7355:EDMM\xb7EDUUDON14\xb7315\xb7355:EDMM\xb7EDUUISA14\xb7315\xb7355
DISPLAY:EDMM\xb7EDUUDON24\xb7355\xb7365:EDMM\xb7EDUUDON24\xb7355\xb7365:EDMM\xb7EDUUISA24\xb7355\xb7365
DISPLAY:EDMM\xb7EDUUDON34\xb7365\xb7375:EDMM\xb7EDUUDON34\xb7365\xb7375:EDMM\xb7EDUUISA34\xb7365\xb7375
DISPLAY:EDMM\xb7EDUUDON44\xb7375\xb7660:EDMM\xb7EDUUDON44\xb7375\xb7660:EDMM\xb7EDUUISA44\xb7375\xb7660
DISPLAY:EDMM\xb7EDUUISA14\xb7315\xb7355:EDMM\xb7EDUUISA14\xb7315\xb7355:EDMM\xb7EDUUDON14\xb7315\xb7355
DISPLAY:EDMM\xb7EDUUISA24\xb7355\xb7365:EDMM\xb7EDUUISA24\xb7355\xb7365:EDMM\xb7EDUUDON24\xb7355\xb7365
DISPLAY:EDMM\xb7EDUUISA34\xb7365\xb7375:EDMM\xb7EDUUISA34\xb7365\xb7375:EDMM\xb7EDUUDON34\xb7365\xb7375
DISPLAY:EDMM\xb7EDUUISA44\xb7375\xb7660:EDMM\xb7EDUUISA44\xb7375\xb7660:EDMM\xb7EDUUDON44\xb7375\xb7660

SECTORLINE:180
COORD:N049.26.04.000:E011.49.08.000
COORD:N049.26.30.000:E010.58.00.000
DISPLAY:EDMM\xb7EDMMFRK\xb7135\xb7195:EDMM\xb7EDMMFRK\xb7135\xb7195:EDMM\xb7EDMMALB\xb7135\xb7245
DISPLAY:EDMM\xb7EDMMALB\xb7135\xb7245:EDMM\xb7EDMMALB\xb7135\xb7245:EDMM\xb7EDMMFRK\xb7135\xb7195
DISPLAY:EDMM\xb7EDMMALB\xb7135\xb7245:EDMM\xb7EDMMALB\xb7135\xb7245:EDMM\xb7EDMMBBG\xb7195\xb7245
DISPLAY:EDMM\xb7EDMMALB\xb7245\xb7315:EDMM\xb7EDMMALB\xb7245\xb7315:EDMM\xb7EDMMBBG\xb7245\xb7295
DISPLAY:EDMM\xb7EDMMALB\xb7245\xb7315:EDMM\xb7EDMMALB\xb7245\xb7315:EDMM\xb7EDMMBBG\xb7295\xb7315
DISPLAY:EDMM\xb7EDMMBBG\xb7195\xb7245:EDMM\xb7EDMMBBG\xb7195\xb7245:EDMM\xb7EDMMALB\xb7135\xb7245
DISPLAY:EDMM\xb7EDMMBBG\xb7245\xb7295:EDMM\xb7EDMMBBG\xb7245\xb7295:EDMM\xb7EDMMALB\xb7245\xb7315
DISPLAY:EDMM\xb7EDMMBBG\xb7295\xb7315:EDMM\xb7EDMMBBG\xb7295\xb7315:EDMM\xb7EDMMALB\xb7245\xb7315
DISPLAY:EDMM\xb7EDUUDON14\xb7315\xb7355:EDMM\xb7EDUUDON14\xb7315\xb7355:EDMM\xb7EDUUERL12\xb7315\xb7365
DISPLAY:EDMM\xb7EDUUDON24\xb7355\xb7365:EDMM\xb7EDUUDON24\xb7355\xb7365:EDMM\xb7EDUUERL12\xb7315\xb7365
DISPLAY:EDMM\xb7EDUUDON34\xb7365\xb7375:EDMM\xb7EDUUDON34\xb7365\xb7375:EDMM\xb7EDUUERL22\xb7365\xb7660
DISPLAY:EDMM\xb7EDUUDON44\xb7375\xb7660:EDMM\xb7EDUUDON44\xb7375\xb7660:EDMM\xb7EDUUERL22\xb7365\xb7660
DISPLAY:EDMM\xb7EDUUERL12\xb7315\xb7365:EDMM\xb7EDUUERL12\xb7315\xb7365:EDMM\xb7EDUUDON14\xb7315\xb7355
DISPLAY:EDMM\xb7EDUUERL12\xb7315\xb7365:EDMM\xb7EDUUERL12\xb7315\xb7365:EDMM\xb7EDUUDON24\xb7355\xb7365
DISPLAY:EDMM\xb7EDUUERL22\xb7365\xb7660:EDMM\xb7EDUUERL22\xb7365\xb7660:EDMM\xb7EDUUDON34\xb7365\xb7375
DISPLAY:EDMM\xb7EDUUERL22\xb7365\xb7660:EDMM\xb7EDUUERL22\xb7365\xb7660:EDMM\xb7EDUUDON44\xb7375\xb7660

SECTORLINE:352
COORD:N049.10.43.000:E010.35.16.000
COORD:N049.26.30.000:E010.58.00.000
DISPLAY:EDGG\xb7KTG1\xb7135\xb7245:EDGG\xb7KTG1\xb7135\xb7245:EDMM\xb7EDMMALB\xb7135\xb7245
DISPLAY:EDGG\xb7WUR141\xb7305\xb7325:EDGG\xb7WUR141\xb7305\xb7325:EDMM\xb7EDMMALB\xb7245\xb7315
DISPLAY:EDGG\xb7WUR141\xb7305\xb7325:EDGG\xb7WUR141\xb7305\xb7325:EDMM\xb7EDUUDON14\xb7315\xb7355
DISPLAY:EDGG\xb7WUR24\xb7325\xb7355:EDGG\xb7WUR24\xb7325\xb7355:EDMM\xb7EDUUDON14\xb7315\xb7355
DISPLAY:EDGG\xb7WUR34\xb7355\xb7375:EDGG\xb7WUR34\xb7355\xb7375:EDMM\xb7EDUUDON24\xb7355\xb7365
DISPLAY:EDGG\xb7WUR34\xb7355\xb7375:EDGG\xb7WUR34\xb7355\xb7375:EDMM\xb7EDUUDON34\xb7365\xb7375
DISPLAY:EDGG\xb7WUR44\xb7375\xb7660:EDGG\xb7WUR44\xb7375\xb7660:EDMM\xb7EDUUDON44\xb7375\xb7660
DISPLAY:EDMM\xb7EDMMALB\xb7135\xb7245:EDMM\xb7EDMMALB\xb7135\xb7245:EDGG\xb7KTG1\xb7135\xb7245
DISPLAY:EDMM\xb7EDMMALB\xb7245\xb7305:EDMM\xb7EDMMALB\xb7245\xb7305:EDMM\xb7EDMMALB\xb7245\xb7315
DISPLAY:EDMM\xb7EDMMALB\xb7245\xb7315:EDMM\xb7EDMMALB\xb7245\xb7315:EDGG\xb7WUR141\xb7305\xb7325
DISPLAY:EDMM\xb7EDMMALB\xb7245\xb7315:EDMM\xb7EDMMALB\xb7245\xb7315:EDMM\xb7EDMMALB\xb7245\xb7305
DISPLAY:EDMM\xb7EDUUDON14\xb7315\xb7355:EDMM\xb7EDUUDON14\xb7315\xb7355:EDGG\xb7WUR141\xb7305\xb7325
DISPLAY:EDMM\xb7EDUUDON14\xb7315\xb7355:EDMM\xb7EDUUDON14\xb7315\xb7355:EDGG\xb7WUR24\xb7325\xb7355
DISPLAY:EDMM\xb7EDUUDON24\xb7355\xb7365:EDMM\xb7EDUUDON24\xb7355\xb7365:EDGG\xb7WUR34\xb7355\xb7375
DISPLAY:EDMM\xb7EDUUDON34\xb7365\xb7375:EDMM\xb7EDUUDON34\xb7365\xb7375:EDGG\xb7WUR34\xb7355\xb7375
DISPLAY:EDMM\xb7EDUUDON44\xb7375\xb7660:EDMM\xb7EDUUDON44\xb7375\xb7660:EDGG\xb7WUR44\xb7375\xb7660

SECTORLINE:363
COORD:N049.26.30.000:E010.58.00.000
COORD:N049.39.17.000:E010.45.56.000
DISPLAY:EDGG\xb7WUR141\xb7305\xb7325:EDGG\xb7WUR141\xb7305\xb7325:EDMM\xb7EDMMBBG\xb7295\xb7315
DISPLAY:EDGG\xb7WUR141\xb7305\xb7325:EDGG\xb7WUR141\xb7305\xb7325:EDMM\xb7EDUUERL12\xb7315\xb7365
DISPLAY:EDGG\xb7WUR24\xb7325\xb7355:EDGG\xb7WUR24\xb7325\xb7355:EDMM\xb7EDUUERL12\xb7315\xb7365
DISPLAY:EDGG\xb7WUR34\xb7355\xb7375:EDGG\xb7WUR34\xb7355\xb7375:EDMM\xb7EDUUERL12\xb7315\xb7365
DISPLAY:EDGG\xb7WUR34\xb7355\xb7375:EDGG\xb7WUR34\xb7355\xb7375:EDMM\xb7EDUUERL22\xb7365\xb7660
DISPLAY:EDGG\xb7WUR44\xb7375\xb7660:EDGG\xb7WUR44\xb7375\xb7660:EDMM\xb7EDUUERL22\xb7365\xb7660
DISPLAY:EDMM\xb7EDMMALB\xb7245\xb7305:EDMM\xb7EDMMALB\xb7245\xb7305:EDMM\xb7EDMMBBG\xb7245\xb7295
DISPLAY:EDMM\xb7EDMMALB\xb7245\xb7305:EDMM\xb7EDMMALB\xb7245\xb7305:EDMM\xb7EDMMBBG\xb7295\xb7315
DISPLAY:EDMM\xb7EDMMBBG\xb7245\xb7295:EDMM\xb7EDMMBBG\xb7245\xb7295:EDMM\xb7EDMMALB\xb7245\xb7305
DISPLAY:EDMM\xb7EDMMBBG\xb7295\xb7315:EDMM\xb7EDMMBBG\xb7295\xb7315:EDGG\xb7WUR141\xb7305\xb7325
DISPLAY:EDMM\xb7EDMMBBG\xb7295\xb7315:EDMM\xb7EDMMBBG\xb7295\xb7315:EDMM\xb7EDMMALB\xb7245\xb7305
DISPLAY:EDMM\xb7EDUUERL12\xb7315\xb7365:EDMM\xb7EDUUERL12\xb7315\xb7365:EDGG\xb7WUR141\xb7305\xb7325
DISPLAY:EDMM\xb7EDUUERL12\xb7315\xb7365:EDMM\xb7EDUUERL12\xb7315\xb7365:EDGG\xb7WUR24\xb7325\xb7355
DISPLAY:EDMM\xb7EDUUERL12\xb7315\xb7365:EDMM\xb7EDUUERL12\xb7315\xb7365:EDGG\xb7WUR34\xb7355\xb7375
DISPLAY:EDMM\xb7EDUUERL22\xb7365\xb7660:EDMM\xb7EDUUERL22\xb7365\xb7660:EDGG\xb7WUR34\xb7355\xb7375
DISPLAY:EDMM\xb7EDUUERL22\xb7365\xb7660:EDMM\xb7EDUUERL22\xb7365\xb7660:EDGG\xb7WUR44\xb7375\xb7660

SECTORLINE:365
COORD:N049.10.43.000:E010.35.16.000
COORD:N049.17.00.000:E010.27.30.000
COORD:N049.23.54.000:E010.21.22.000
COORD:N049.30.40.000:E010.30.12.000
COORD:N049.39.17.000:E010.45.56.000
DISPLAY:EDGG\xb7WUR142\xb7245\xb7305:EDGG\xb7WUR142\xb7245\xb7305:EDMM\xb7EDMMALB\xb7245\xb7305
DISPLAY:EDMM\xb7EDMMALB\xb7245\xb7305:EDMM\xb7EDMMALB\xb7245\xb7305:EDGG\xb7WUR142\xb7245\xb7305

SECTORLINE:366
COORD:N049.10.00.000:E011.58.00.000
COORD:N049.26.04.000:E011.49.08.000
DISPLAY:EDMM\xb7EDMMALB\xb7135\xb7245:EDMM\xb7EDMMALB\xb7135\xb7245:EDMM\xb7EDMMRDG\xb7135\xb7245
DISPLAY:EDMM\xb7EDMMALB\xb7245\xb7315:EDMM\xb7EDMMALB\xb7245\xb7315:EDMM\xb7EDMMRDG\xb7245\xb7315
DISPLAY:EDMM\xb7EDMMRDG\xb7135\xb7245:EDMM\xb7EDMMRDG\xb7135\xb7245:EDMM\xb7EDMMALB\xb7135\xb7245
DISPLAY:EDMM\xb7EDMMRDG\xb7245\xb7315:EDMM\xb7EDMMRDG\xb7245\xb7315:EDMM\xb7EDMMALB\xb7245\xb7315

SECTOR:EDMM\xb7EDMMALB\xb7000\xb7105:00000:10500
OWNER:SWA:ALB:WLD:RDG:EGG:ZUG:MMC
BORDER:152:153:154:155:109
DEPAPT:ETSN:ETSI
ARRAPT:ETSN:ETSI

SECTOR:EDMM\xb7EDMMALB\xb7105\xb7135:10500:13500
OWNER:ALB:WLD:RDG:EGG:ZUG:MMC
BORDER:152:153:154:155:109

SECTOR:EDMM\xb7EDMMALB\xb7135\xb7245:13500:24500
OWNER:ALB:WLD:RDG:EGG:ZUG:MMC
BORDER:352:180:366:152:153:154:167

SECTOR:EDMM\xb7EDMMALB\xb7245\xb7305:24500:30500
OWNER:ALB:WLD:RDG:EGG:ZUG:MMC:WUR:SLN:DKB:KTG:BAD
BORDER:365:363:352

SECTOR:EDMM\xb7EDMMALB\xb7245\xb7315:24500:31500
OWNER:ALB:WLD:RDG:EGG:ZUG:MMC
BORDER:352:180:366:152:153:154:167

COPX:*:*:RUDNO:ETSI:*:EDMM\xb7EDMMRDG\xb7000\xb7135:EDMM\xb7EDMMALB\xb7000\xb7105:*:9000:RUDNO
COPX:*:*:*:EDMO:*:EDMM\xb7EDMMALB\xb7000\xb7105:EDMM\xb7EDMMTMANL\xb7000\xb7095:*:9300:INDIV
COPX:EDMA:*:MIQ:*:*:EDMM\xb7EDMMTMANH\xb7095\xb7195:EDMM\xb7EDMMALB\xb7135\xb7245:19000:*:MIQ
COPX:*:*:UPALA:EDDN:*:EDMM\xb7EDMMALB\xb7105\xb7135:EDMM\xb7EDMMFRK\xb7000\xb7135:*:13300:UPALA|
COPX:*:*:UPALA:EDDE:*:EDMM\xb7EDMMALB\xb7245\xb7315:EDMM\xb7EDMMBBG\xb7245\xb7295:*:25000:UPALA
COPX:EDDM:*:UPALA:TENLO:*:EDMM\xb7EDMMALB\xb7245\xb7315:EDMM\xb7EDMMBBG\xb7245\xb7295:25000:*:UPALA
COPX:EDDM:*:UPALA:RODOG:*:EDMM\xb7EDMMALB\xb7245\xb7315:EDMM\xb7EDMMBBG\xb7245\xb7295:25000:*:UPALA
COPX:EDDM:*:UPALA:KEMES:*:EDMM\xb7EDMMALB\xb7245\xb7315:EDMM\xb7EDMMBBG\xb7245\xb7295:25000:*:UPALA
COPX:EDDM:*:DOSIS:*:*:EDMM\xb7EDMMALB\xb7245\xb7315:EDMM\xb7EDMMBBG\xb7245\xb7295:25000:*:DOSIS
COPX:EDDM:*:EVIVA:*:*:EDMM\xb7EDMMTMANL\xb7000\xb7095:EDMM\xb7EDMMALB\xb7135\xb7245:19000:*:EVIVA
COPX:EDDM:*:GIVMI:*:*:EDMM\xb7EDMMTMANL\xb7000\xb7095:EDMM\xb7EDMMALB\xb7135\xb7245:19000:*:GIVMI
COPX:EDDM:*:INPUD:*:*:EDMM\xb7EDMMTMANL\xb7000\xb7095:EDMM\xb7EDMMALB\xb7135\xb7245:19000:*:INPUD
COPX:*:*:MIQ:EDMA:*:EDMM\xb7EDMMALB\xb7000\xb7105:EDMM\xb7EDMMTMANL\xb7000\xb7095:*:8000:MIQ
COPX:EDDM:*:GOLMO:*:*:EDMM\xb7EDMMALB\xb7135\xb7245:EDMM\xb7EDMMWLD\xb7105\xb7245:24000:*:GOLMO
COPX:*:*:STAUB:ETSI:*:EDMM\xb7EDMMRDG\xb7000\xb7135:EDMM\xb7EDMMALB\xb7000\xb7105:*:10000:STAUB
COPX:*:*:EVIVA:EDDN:*:EDMM\xb7EDMMNDG\xb7195\xb7245:EDMM\xb7EDMMALB\xb7135\xb7245:*:20000:EVIVA
COPX:*:*:DOSIS:EDDN:*:EDMM\xb7EDMMALB\xb7135\xb7245:EDMM\xb7EDMMFRK\xb7000\xb7135:*:13300:DOSIS|
COPX:EDDM:*:MIQ:*:*:EDMM\xb7EDMMTMANL\xb7000\xb7095:EDMM\xb7EDMMALB\xb7135\xb7245:19000:*:MIQ
COPX:*:*:UPALA:EDDN:*:EDMM\xb7EDMMALB\xb7135\xb7245:EDMM\xb7EDMMFRK\xb7135\xb7195:*:14000:UPALA|
COPX:*:*:*:EDMO:*:EDMM\xb7EDMMALB\xb7135\xb7245:EDMM\xb7EDMMTMANH\xb7095\xb7195:*:19300:INDIV
COPX:ETSI:*:UPALA:*:*:EDMM\xb7EDMMALB\xb7135\xb7245:EDMM\xb7EDMMBBG\xb7195\xb7245:20000:*:UPALA
COPX:EDMO:*:BESNI:*:*:EDMM\xb7EDMMNDG\xb7195\xb7245:EDMM\xb7EDMMALB\xb7135\xb7245:20000:*:BESNI
COPX:*:*:MAH:EDDN:*:EDMM\xb7EDMMNDG\xb7195\xb7245:EDMM\xb7EDMMALB\xb7135\xb7245:*:20000:MAH
COPX:*:*:AKINI:EDDN:*:EDMM\xb7EDMMRDG\xb7135\xb7245:EDMM\xb7EDMMALB\xb7135\xb7245:*:21000:AKINI
FIR_COPX:*:*:DAMJA:EDDF:*:EDMM\xb7EDMMALB\xb7135\xb7245:EDGG\xb7KTG1\xb7135\xb7245:*:24000:DAMJA
FIR_COPX:*:*:ASPAT:EDDF:*:EDMM\xb7EDMMALB\xb7135\xb7245:EDGG\xb7KTG1\xb7135\xb7245:*:24000:DEBHI@
COPX:*:*:UPALA:EDDE:*:EDMM\xb7EDMMALB\xb7245\xb7305:EDMM\xb7EDMMBBG\xb7245\xb7295:*:25000:UPALA
COPX:EDDM:*:DOSIS:*:*:EDMM\xb7EDMMALB\xb7245\xb7305:EDMM\xb7EDMMBBG\xb7245\xb7295:25000:*:DOSIS
COPX:EDDM:*:UPALA:*:*:EDMM\xb7EDMMALB\xb7245\xb7305:EDMM\xb7EDMMBBG\xb7245\xb7295:25000:*:UPALA
FIR_COPX:LKKV:*:ALAXA:*:*:EDMM\xb7EDMMALB\xb7245\xb7305:EDGG\xb7WUR142\xb7245\xb7305:26000:*:ALAXA
FIR_COPX:EDQD:*:ALAXA:*:*:EDMM\xb7EDMMALB\xb7245\xb7305:EDGG\xb7WUR142\xb7245\xb7305:26000:*:ALAXA
FIR_COPX:EDQM:*:ALAXA:*:*:EDMM\xb7EDMMALB\xb7245\xb7305:EDGG\xb7WUR142\xb7245\xb7305:26000:*:ALAXA
FIR_COPX:LKKV:*:AMOSA:*:*:EDMM\xb7EDMMALB\xb7245\xb7305:EDGG\xb7WUR142\xb7245\xb7305:26000:*:AMOSA
FIR_COPX:EDQD:*:AMOSA:*:*:EDMM\xb7EDMMALB\xb7245\xb7305:EDGG\xb7WUR142\xb7245\xb7305:26000:*:AMOSA
FIR_COPX:EDQM:*:AMOSA:*:*:EDMM\xb7EDMMALB\xb7245\xb7305:EDGG\xb7WUR142\xb7245\xb7305:26000:*:AMOSA
FIR_COPX:*:*:PETIX:EDSB:*:EDMM\xb7EDMMALB\xb7245\xb7305:EDGG\xb7WUR142\xb7245\xb7305:*:28000:PETIX
FIR_COPX:*:*:PETIX: EDDR:*:EDMM\xb7EDMMALB\xb7245\xb7305:EDGG\xb7WUR142\xb7245\xb7305:*:28000:PETIX
FIR_COPX:*:*:PETIX: EDRZ:*:EDMM\xb7EDMMALB\xb7245\xb7305:EDGG\xb7WUR142\xb7245\xb7305:*:28000:PETIX
COPX:*:*:UPALA:EDDP:*:EDMM\xb7EDMMALB\xb7245\xb7305:EDMM\xb7EDMMBBG\xb7245\xb7295:*:29000:UPALA
FIR_COPX:EDDM:*:INBED:*:*:EDMM\xb7EDMMALB\xb7245\xb7305:EDGG\xb7WUR142\xb7245\xb7305:30000:*:INBED^
FIR_COPX:EDMA:*:INBED:*:*:EDMM\xb7EDMMALB\xb7245\xb7305:EDGG\xb7WUR142\xb7245\xb7305:30000:*:INBED^
FIR_COPX:EDMO:*:INBED:*:*:EDMM\xb7EDMMALB\xb7245\xb7305:EDGG\xb7WUR142\xb7245\xb7305:30000:*:INBED^
FIR_COPX:EDMS:*:INBED:*:*:EDMM\xb7EDMMALB\xb7245\xb7305:EDGG\xb7WUR142\xb7245\xb7305:30000:*:INBED 
COPX:LOWL:*:AKINI:*:*:EDMM\xb7EDMMRDG\xb7245\xb7315:EDMM\xb7EDMMALB\xb7245\xb7305:30000:*:AKINI
COPX:LOWS:*:AKINI:*:*:EDMM\xb7EDMMRDG\xb7245\xb7315:EDMM\xb7EDMMALB\xb7245\xb7305:30000:*:AKINI
COPX:AKINI:*:TALAL:EDDF:*:EDMM\xb7EDUUDON14\xb7315\xb7355:EDMM\xb7EDMMALB\xb7245\xb7315:*:31300:TALAL
COPX:AKINI:*:TALAL:ETOU:*:EDMM\xb7EDUUDON14\xb7315\xb7355:EDMM\xb7EDMMALB\xb7245\xb7315:*:31300:TALAL
COPX:AKINI:*:TALAL:EDFE:*:EDMM\xb7EDUUDON14\xb7315\xb7355:EDMM\xb7EDMMALB\xb7245\xb7315:*:31300:TALAL
COPX:AKINI:*:TALAL:EDFZ :*:EDMM\xb7EDUUDON14\xb7315\xb7355:EDMM\xb7EDMMALB\xb7245\xb7315:*:31300:TALAL
COPX:ERNAS:*:TALAL:EDDF:*:EDMM\xb7EDUUDON14\xb7315\xb7355:EDMM\xb7EDMMALB\xb7245\xb7315:*:31300:TALAL
COPX:ERNAS:*:TALAL:ETOU:*:EDMM\xb7EDUUDON14\xb7315\xb7355:EDMM\xb7EDMMALB\xb7245\xb7315:*:31300:TALAL
COPX:ERNAS:*:TALAL:EDFE:*:EDMM\xb7EDUUDON14\xb7315\xb7355:EDMM\xb7EDMMALB\xb7245\xb7315:*:31300:TALAL
COPX:ERNAS:*:TALAL:EDFZ :*:EDMM\xb7EDUUDON14\xb7315\xb7355:EDMM\xb7EDMMALB\xb7245\xb7315:*:31300:TALAL
COPX:*:*:UPALA:EDDP:*:EDMM\xb7EDUUDON14\xb7315\xb7355:EDMM\xb7EDMMALB\xb7245\xb7315:*:31300:10UPALA
COPX:*:*:UPALA:EDAC:*:EDMM\xb7EDUUDON14\xb7315\xb7355:EDMM\xb7EDMMALB\xb7245\xb7315:*:31300:10UPALA
COPX:*:*:UPALA:EDDE:*:EDMM\xb7EDUUDON14\xb7315\xb7355:EDMM\xb7EDMMALB\xb7245\xb7315:*:31300:10UPALA
COPX:*:*:UPALA:EDFQ:*:EDMM\xb7EDUUDON14\xb7315\xb7355:EDMM\xb7EDMMALB\xb7245\xb7315:*:31300:10UPALA
COPX:*:*:UPALA:EDVK:*:EDMM\xb7EDUUDON14\xb7315\xb7355:EDMM\xb7EDMMALB\xb7245\xb7315:*:31300:10UPALA
COPX:*:*:UNKUL:EDSB:*:EDMM\xb7EDUUDON14\xb7315\xb7355:EDMM\xb7EDMMALB\xb7245\xb7315:*:31300:UPALA
COPX:*:*:UNKUL:EDDR:*:EDMM\xb7EDUUDON14\xb7315\xb7355:EDMM\xb7EDMMALB\xb7245\xb7315:*:31300:UPALA
COPX:*:*:UNKUL:EDRZ:*:EDMM\xb7EDUUDON14\xb7315\xb7355:EDMM\xb7EDMMALB\xb7245\xb7315:*:31300:UPALA
COPX:*:*:ERMEL:EDDF:*:EDMM\xb7EDUUDON14\xb7315\xb7355:EDMM\xb7EDMMALB\xb7245\xb7315:*:31300:10ERMEL
COPX:*:*:ERNAS:EDDF:*:EDMM\xb7EDUUDON14\xb7315\xb7355:EDMM\xb7EDMMALB\xb7245\xb7315:*:31300:GOLMO
        ";

        let ese = parse(ese_bytes).unwrap();
        let alb_0_105 = ese
            .sectors
            .get("EDMM\u{b7}EDMMALB\u{b7}000\u{b7}105")
            .unwrap();
        assert_eq!(
            alb_0_105.id,
            "EDMM\u{b7}EDMMALB\u{b7}000\u{b7}105".to_string()
        );
        assert_eq!(alb_0_105.top, 10500);
        assert_eq!(alb_0_105.bottom, 0);
        assert_eq!(
            ese.agreements
                .iter()
                .filter(|agreement| agreement.entry_sector
                    == *"EDMM\u{b7}EDMMALB\u{b7}000\u{b7}105")
                .collect::<Vec<_>>(),
            vec![
                &Agreement {
                    previous_fix: None,
                    departure_runway: None,
                    fix: Some("RUDNO".to_string()),
                    subsequent_fix: Some("ETSI".to_string()),
                    arrival_runway: None,
                    exit_sector: "EDMM\u{b7}EDMMRDG\u{b7}000\u{b7}135".to_string(),
                    entry_sector: "EDMM\u{b7}EDMMALB\u{b7}000\u{b7}105".to_string(),
                    climb_level: None,
                    descent_level: Some(9000),
                    description: "RUDNO".to_string(),
                },
                &Agreement {
                    previous_fix: None,
                    departure_runway: None,
                    fix: Some("STAUB".to_string()),
                    subsequent_fix: Some("ETSI".to_string()),
                    arrival_runway: None,
                    exit_sector: "EDMM\u{b7}EDMMRDG\u{b7}000\u{b7}135".to_string(),
                    entry_sector: "EDMM\u{b7}EDMMALB\u{b7}000\u{b7}105".to_string(),
                    climb_level: None,
                    descent_level: Some(10000),
                    description: "STAUB".to_string(),
                },
            ]
        );
        assert_eq!(
            ese.agreements
                .iter()
                .filter(|agreement| agreement.exit_sector == *"EDMM\u{b7}EDMMALB\u{b7}000\u{b7}105")
                .collect::<Vec<_>>(),
            vec![
                &Agreement {
                    previous_fix: None,
                    departure_runway: None,
                    fix: None,
                    subsequent_fix: Some("EDMO".to_string()),
                    arrival_runway: None,
                    exit_sector: "EDMM\u{b7}EDMMALB\u{b7}000\u{b7}105".to_string(),
                    entry_sector: "EDMM\u{b7}EDMMTMANL\u{b7}000\u{b7}095".to_string(),
                    climb_level: None,
                    descent_level: Some(9300),
                    description: "INDIV".to_string(),
                },
                &Agreement {
                    previous_fix: None,
                    departure_runway: None,
                    fix: Some("MIQ".to_string()),
                    subsequent_fix: Some("EDMA".to_string()),
                    arrival_runway: None,
                    exit_sector: "EDMM\u{b7}EDMMALB\u{b7}000\u{b7}105".to_string(),
                    entry_sector: "EDMM\u{b7}EDMMTMANL\u{b7}000\u{b7}095".to_string(),
                    climb_level: None,
                    descent_level: Some(8000),
                    description: "MIQ".to_string(),
                },
            ]
        );
        assert_eq!(
            alb_0_105.border,
            vec![
                SectorLine {
                    points: vec![
                        Coord { x: 11.794_166_666_666_667, y: 48.6675 },
                        Coord { x: 11.966_666_666_666_667, y: 49.166_666_666_666_664 }
                    ]
                },
                SectorLine {
                    points: vec![
                        Coord { x: 11.794_166_666_666_667, y: 48.6675 },
                        Coord { x: 11.511_666_666_666_667, y: 48.667_777_777_777_77 },
                        Coord { x: 11.320_833_333_333_333, y: 48.667_777_777_777_77 }
                    ]
                },
                SectorLine {
                    points: vec![
                        Coord { x: 11.320_833_333_333_333, y: 48.667_777_777_777_77 },
                        Coord { x: 10.673_611_111_111_11, y: 49.119_444_444_444_45 }
                    ]
                },
                SectorLine {
                    points: vec![
                        Coord { x: 10.673_611_111_111_11, y: 49.119_444_444_444_45 },
                        Coord { x: 11.1325, y: 49.138_055_555_555_55 }
                    ]
                },
                SectorLine {
                    points: vec![
                        Coord { x: 11.1325, y: 49.138_055_555_555_55 },
                        Coord { x: 11.966_666_666_666_667, y: 49.166_666_666_666_664 }
                    ]
                }
            ]
        );
}

#[test]
fn test_ese_sids_stars() {
        let ese_bytes = b"
[POSITIONS]
EDDM_ATIS:Muenchen ATIS:123.130:MX::EDDM:ATIS:::0000:0000
EDMM_ALB_CTR:Muenchen Radar:129.100:ALB:ALB:EDMM:CTR:::2354:2367:N049.02.24.501:E012.31.35.850
EDMM_TEG_CTR:Muenchen Radar:133.680:TEG:TEG:EDMM:CTR:::2354:2367:N048.10.49.419:E011.48.59.530
EDXX_FIS_CTR:Langen Information:128.950:GIXX:FIS:EDXX:CTR:::2001:2577:N049.26.51.334:E010.13.06.336:N052.28.08.891:E010.52.12.796
EGBB_ATIS:Birmingham ATIS:136.030:BBI:B:EGBB:ATIS:-:-::

[SIDSSTARS]
STAR:EDJA:06:KPT1C:KPT JA450 JA430 JA060 FIMPE
SID:EDDM:26R:GIVMI1N:DM060 DM063 GIVMI
";

        let ese = parse(ese_bytes).unwrap();
        assert_eq!(
            *ese.sids_stars,
            vec![
                SidStar::Star(STAR {
                    name: "KPT1C".to_string(),
                    airport: "EDJA".to_string(),
                    runway: Some("06".to_string()),
                    waypoints: vec![
                        "KPT".to_string(),
                        "JA450".to_string(),
                        "JA430".to_string(),
                        "JA060".to_string(),
                        "FIMPE".to_string()
                    ]
                }),
                SidStar::Sid(SID {
                    name: "GIVMI1N".to_string(),
                    airport: "EDDM".to_string(),
                    runway: Some("26R".to_string()),
                    waypoints: vec![
                        "DM060".to_string(),
                        "DM063".to_string(),
                        "GIVMI".to_string()
                    ]
                })
            ]
        );
}
