use vatsim_parser::colours::{
    Colour, Colours, MapColours, SectorColours, TrackColours, UIColours,
};
use vatsim_parser::symbology::Symbology;

#[test]
fn euroscope_colour_unpacks_channels() {
    assert_eq!(Colour::from_euroscope(32768).unwrap(), Colour::from_rgb(0, 128, 0));
    assert_eq!(
        Colour::from_euroscope(13158600).unwrap(),
        Colour::from_rgb(200, 200, 200)
    );
    assert_eq!(
        Colour::from_euroscope(0x00ff_8001).unwrap(),
        Colour::from_rgb(1, 128, 255)
    );
}

#[test]
fn euroscope_colour_out_of_range_is_refused() {
    assert!(Colour::from_euroscope(-1).is_err());
    assert!(Colour::from_euroscope(16_777_216).is_err());
    assert!(Colour::from_euroscope(i32::MAX).is_err());
}

#[test]
fn euroscope_colour_roundtrip() {
    let c = Colour::from_rgb(12, 34, 56);
    let n = c.to_euroscope();
    assert_eq!(n, 12 + 34 * 256 + 56 * 65536);
    assert_eq!(Colour::from_euroscope(n).unwrap(), c);
    // alpha is not packed; unpacking makes the colour opaque
    let translucent = Colour { r: 1, g: 2, b: 3, a: 4 };
    assert_eq!(
        Colour::from_euroscope(translucent.to_euroscope()).unwrap(),
        Colour::from_rgb(1, 2, 3)
    );
}

#[test]
fn hash_rgb_reads_six_hex_digits() {
    assert_eq!(Colour::from_hash_rgb("#ff8000"), Some(Colour::from_rgb(255, 128, 0)));
    assert_eq!(Colour::from_hash_rgb("#FF8000"), Some(Colour::from_rgb(255, 128, 0)));
    assert_eq!(Colour::from_hash_rgb("#0a0B0c"), Some(Colour::from_rgb(10, 11, 12)));
    assert_eq!(Colour::from_hash_rgb("ff8000"), None);
    assert_eq!(Colour::from_hash_rgb("#ff800"), None);
    assert_eq!(Colour::from_hash_rgb("#ff80000"), None);
    assert_eq!(Colour::from_hash_rgb("#gg0000"), None);
    assert_eq!(Colour::from_hash_rgb(""), None);
}

#[test]
fn topsky_default_colours_by_scheme() {
    assert_eq!(
        Colour::from_topsky_default(false, "Assumed"),
        Some(Colour::from_rgb(1, 0, 1))
    );
    assert_eq!(
        Colour::from_topsky_default(true, "Assumed"),
        Some(Colour::from_rgb(220, 220, 220))
    );
    assert_eq!(Colour::from_topsky_default(false, "CARD_Mark_All"), None);
    assert_eq!(
        Colour::from_topsky_default(true, "CARD_Mark_All"),
        Some(Colour::from_rgb(255, 125, 125))
    );
    assert_eq!(
        Colour::from_topsky_default(false, "WM_Frame"),
        Some(Colour::from_rgb(1, 1, 0))
    );
    assert_eq!(Colour::from_topsky_default(false, "No_Such_Colour"), None);
    assert_eq!(Colour::from_topsky_default(true, "assumed"), None);
}

fn symbology() -> Symbology {
    let bytes = b"SYMBOLOGY\nSYMBOLSIZE\nFixes:symbol:255:3.5:1:0:7\nGeo:line:65280:3.5:2:DOT:7\nSector:active sector background:16711680:3.5:0:0:7\nFixes:symbol:65535:3.5:1:0:7\nEND\n";
    Symbology::parse(bytes).unwrap()
}

#[test]
fn map_colours_from_symbology_items() {
    let map = MapColours::from_euroscope(&symbology());
    // the later of two items with the same folder and name counts
    assert_eq!(map.fix_symbol, Colour::from_rgb(255, 255, 0));
    assert_eq!(map.geo, Colour::from_rgb(0, 255, 0));
    // not given: the default
    assert_eq!(map.fix_name, Colour::from_rgb(0, 0, 0));
    assert_eq!(map.runway_name, Colour::from_rgb(0, 0, 0));
    let sector = SectorColours::from_euroscope(&symbology());
    assert_eq!(sector.active_background, Colour::from_rgb(0, 0, 255));
    assert_eq!(sector.inactive_background, Colour::from_rgb(200, 200, 200));
}

#[test]
fn empty_symbology_gives_default_colours() {
    let empty = Symbology::parse(b"SYMBOLOGY\nEND\n").unwrap();
    assert_eq!(MapColours::from_euroscope(&empty), MapColours::default());
    assert_eq!(SectorColours::from_euroscope(&empty), SectorColours::default());
}

#[test]
fn track_colours_fall_back_to_topsky_defaults() {
    let given = vec![("Assumed".to_string(), Colour::from_rgb(9, 9, 9))];
    let standard = TrackColours::from_euroscope(&given, false);
    assert_eq!(standard.assumed, Colour::from_rgb(9, 9, 9));
    assert_eq!(standard.advanced, Colour::from_rgb(124, 1, 124));
    assert_eq!(standard.vfr, Colour::from_rgb(110, 1, 10));
    let coopans = TrackColours::from_euroscope(&vec![], true);
    assert_eq!(coopans.assumed, Colour::from_rgb(220, 220, 220));
    assert_eq!(coopans.cleared, Colour::from_rgb(41, 210, 41));
    let ui = UIColours::from_euroscope(&vec![], false);
    assert_eq!(ui.text_input, Colour::from_rgb(209, 207, 211));
    assert_eq!(ui.background, Colour::from_rgb(162, 163, 156));
    assert_eq!(ui.window_title_background_selected, Colour::from_rgb(162, 163, 156));
}

#[test]
fn defaults_of_track_and_ui_colours() {
    let t = TrackColours::default();
    assert_eq!(t.cleared, Colour::from_rgb(34, 139, 34));
    assert_eq!(t.reaction, Colour::from_rgb(230, 185, 184));
    let u = UIColours::default();
    assert_eq!(u.text_input, Colour::from_rgb(170, 224, 224));
}

#[test]
fn named_colours_prefer_topsky_over_sector_file() {
    let sct = vec![
        ("colour_APP".to_string(), Colour::from_rgb(1, 2, 3)),
        ("shared".to_string(), Colour::from_rgb(4, 5, 6)),
    ];
    let topsky = vec![("shared".to_string(), Colour::from_rgb(7, 8, 9))];
    let colours = Colours::from_euroscope(&symbology(), &sct, &topsky, false);
    assert_eq!(colours.get("colour_APP", false), Some(Colour::from_rgb(1, 2, 3)));
    assert_eq!(colours.get("shared", false), Some(Colour::from_rgb(7, 8, 9)));
    // not given by the files: TopSky's default for the scheme
    assert_eq!(colours.get("Runway", true), Some(Colour::from_rgb(116, 200, 71)));
    assert_eq!(colours.get("nothing", true), None);
    assert_eq!(colours.map.geo, Colour::from_rgb(0, 255, 0));
    let default = Colours::default();
    assert_eq!(default.get("colour_APP", false), None);
}
