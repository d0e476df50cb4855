use vatsim_parser::airways::AirwayGraph;
use vatsim_parser::colours::{Colour, Colours};
use vatsim_parser::ese::Ese;
use vatsim_parser::locations::Locations;
use vatsim_parser::sct::Sct;
use vatsim_parser::sct_items::{airway_to_multi_line_string, SctItems};

#[test]
fn test_airway_to_multi_line_string() {
    let a = (0, 0);
    let b = (1, 0);
    let c = (2, 0);
    let d = (5, 5);
    let e = (6, 6);
    // A-B, B-C chain; D-E is separate
    let lines = vec![(a, b), (b, c), (d, e)];
    let strings = airway_to_multi_line_string(&lines);
    // each segment not yet passed starts a string at its first point; it is marked
    // passed before the walk, so the walk from there only takes other segments
    assert_eq!(strings, vec![vec![a], vec![b], vec![d]]);
}

#[test]
fn airway_strings_follow_shared_points() {
    let p = (0, 0);
    let q = (1, 0);
    let r = (2, 0);
    let s = (3, 0);
    // segments given out of order: the walk from B follows C-B then C-D
    let lines = vec![(q, p), (r, q), (r, s)];
    assert_eq!(
        airway_to_multi_line_string(&lines),
        vec![vec![q, r, s]]
    );
    assert!(airway_to_multi_line_string(&vec![]).is_empty());
}

#[test]
fn airway_strings_skip_repeated_segments() {
    let p = (0, 0);
    let q = (1, 1);
    let lines = vec![(p, q), (p, q), (q, p)];
    // the repeat is already visited; the reverse is walked from P
    assert_eq!(airway_to_multi_line_string(&lines), vec![vec![p, q]]);
}

#[test]
fn sector_file_items_resolve_names_and_colours() {
    let sct = Sct::parse(
        b"#define red 255
[FIXES]
AAA N048.00.00.000 E011.00.00.000
BBB N048.30.00.000 E011.30.00.000
[SID]
EDDM SID 26L AAA1A                       AAA AAA BBB BBB red
                                         BBB BBB ZZZ ZZZ
[REGIONS]
REGIONNAME Apron
red N048.00.00.000 E011.00.00.000
 N048.00.01.000 E011.00.00.000
[HIGH AIRWAY]
UL1 AAA AAA BBB BBB
UL2 ZZZ ZZZ AAA AAA
",
    )
    .unwrap();
    let locations = Locations::from_euroscope(
        Sct::parse(b"[FIXES]\nAAA N048.00.00.000 E011.00.00.000\nBBB N048.30.00.000 E011.30.00.000\n")
            .unwrap(),
        Ese::parse(b"").unwrap(),
        AirwayGraph::new(),
    );
    let mut colours = Colours::default();
    colours.other = sct.colours.clone();
    let items = SctItems::from_sct(&sct, &locations, &colours, false);

    // one coloured string per segment; the unknown place is left out
    assert_eq!(items.sids.len(), 2);
    assert_eq!(items.sids[0].0, "EDDM SID 26L AAA1A");
    assert_eq!(items.sids[0].1.colour, Colour { r: 255, g: 0, b: 0, a: 255 });
    assert_eq!(items.sids[0].1.lines, vec![vec![(11_000_000, 48_000_000), (11_500_000, 48_500_000)]]);
    assert_eq!(items.sids[1].1.colour, colours.map.sid);
    assert_eq!(items.sids[1].1.lines, vec![vec![(11_500_000, 48_500_000)]]);
    // an airway segment is drawn at its start point; one with an unknown start is
    // left out
    assert_eq!(items.high_airways.len(), 2);
    assert_eq!(items.high_airways[0].0, "UL1");
    assert_eq!(items.high_airways[0].1, vec![vec![(11_000_000, 48_000_000)]]);
    assert!(items.high_airways[1].1.is_empty());
    assert_eq!(items.regions.len(), 1);
    assert_eq!(items.regions[0].0, "Apron");
    assert_eq!(items.regions[0].1.polygon.len(), 2);
}
