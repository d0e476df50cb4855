use vatsim_parser::adaptation::{Adaptation, AdaptationError, Position};
use vatsim_parser::sct::{Coordinate, SctError};
use vatsim_parser::topsky::Topsky;

const SCT: &[u8] = b"[INFO]
Test Sector
TST_CTR
EDDM
N048.21.13.618
E011.47.09.909
60
39
-3
1

#define red 255

[FIXES]
ALPHA N048.00.00.000 E011.00.00.000
";

#[test]
fn an_adaptation_gathers_its_files() {
    let topsky = Topsky::from_files(
        b"Setup_COOPANS=0\n",
        None,
        b"MAP:M\nFOLDER:F\nCOLOR:red\nLINE:ALPHA:ALPHA\n",
    )
    .unwrap();
    let a = Adaptation::from_contents(SCT, b"", b"", b"", Some(topsky), None, b"", b"", b"").unwrap();
    assert_eq!(a.name, "Test Sector");
    assert_eq!(a.locations.fixes.len(), 1);
    assert_eq!(a.locations.fixes[0].designator, "ALPHA");
    assert!(!a.settings.coopans);
    assert_eq!(a.maps.len(), 1);
    assert_eq!(a.maps[0].name, "F");
    assert_eq!(
        a.maps[0].maps[0].map_groups[0].lines,
        vec![vec![Coordinate {
            lat: 172_800_000,
            lng: 39_600_000
        }]]
    );
    assert!(a.positions.is_empty());
    assert!(a.volumes.is_empty());
    assert_eq!(a.line_styles.len(), 6);
}

#[test]
fn the_first_invalid_file_is_reported() {
    let r = Adaptation::from_contents(b"[INFO]\nX\n[VOR]\nbad\n", b"", b"", b"", None, None, b"", b"", b"");
    assert!(matches!(r, Err(AdaptationError::Sct(SctError::Parse { .. }))));
    let ok = Adaptation::from_contents(SCT, b"", b"", b"", None, None, b"", b"", b"").unwrap();
    assert!(ok.maps.is_empty());
    assert!(ok.settings.coopans);
    let _: Vec<Position> = ok.positions;
}
