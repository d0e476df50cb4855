use vatsim_parser::airways::AirwayGraph;
use vatsim_parser::colours::{Colour, Colours};
use vatsim_parser::line_styles::{line_styles_from_topsky, Dash};
use vatsim_parser::locations::Locations;
use vatsim_parser::maps::{
    from_topsky, Active, Alignment, Folder, LineStyle, LineStyleType, Symbol,
};
use vatsim_parser::sct::{Coordinate, Fix};
use vatsim_parser::settings::{MapsSettings, Settings, TrackSettings};
use vatsim_parser::symbology::Symbology;
use vatsim_parser::topsky::Topsky;

const M: i64 = 1_000_000;

fn locations() -> Locations {
    Locations {
        fixes: vec![
            Fix {
                designator: "ALPHA".to_string(),
                coordinate: Coordinate { lat: 1000, lng: 2000 },
            },
            Fix {
                designator: "BRAVO".to_string(),
                coordinate: Coordinate { lat: 3000, lng: 4000 },
            },
        ],
        vors: vec![],
        ndbs: vec![],
        airports: vec![],
        airways: AirwayGraph::new(),
        sids: vec![],
        stars: vec![],
    }
}

fn setup(maps: &[u8]) -> (Topsky, Settings, Colours) {
    let topsky = Topsky::from_files(
        b"Color_Red=255,0,0\nSetup_COOPANS=0\nMaps_FontSize=10\n",
        None,
        maps,
    )
    .unwrap();
    let symbology = Symbology::parse(b"").unwrap();
    let settings = Settings::from_euroscope(&symbology, Some(&topsky), None);
    let topsky_colours: Vec<(String, Colour)> = topsky
        .colours
        .iter()
        .map(|c| (c.name.clone(), c.colour))
        .collect();
    let colours = Colours::from_euroscope(&symbology, &vec![], &topsky_colours, false);
    (topsky, settings, colours)
}

fn folder<'a>(folders: &'a [Folder], name: &str) -> &'a Folder {
    folders.iter().find(|f| f.name == name).unwrap()
}

#[test]
fn maps_are_grouped_into_folders() {
    let (topsky, settings, colours) = setup(
        b"OVERRIDE_SCT_MAP:GEO\nMAP:A\nFOLDER:GEO\nCOLOR:Red\nLINE:ALPHA:BRAVO\nLINE:BRAVO:NOWHERE\n\
MAP:A\nFOLDER:GEO\nCOLOR:Red\nACTIVE:1\nAND_ACTIVE:AREA:X\n\
MAP:A\nFOLDER:GEO\nCOLOR:Red\n\
MAP:B\nCOLOR:NoSuchColour\n\
MAP:C\nCOLOR:NoSuchColour\nCOLOR:Red\nSYMBOL:VOR:ALPHA\nTEXT:BRAVO:Hello\nTEXT:NOWHERE:Lost\n",
    );
    let folders = from_topsky(&topsky, &settings, &colours, &locations());
    // map B has no colour that can be found and is left out
    assert_eq!(folders.len(), 2);
    let geo = folder(&folders, "GEO");
    assert!(geo.hidden);
    let names: Vec<&str> = geo.maps.iter().map(|m| m.name.as_str()).collect();
    assert_eq!(names, vec!["A", "A_2", "A_3"]);
    let a = &geo.maps[0];
    assert_eq!(a.map_groups.len(), 1);
    assert_eq!(a.map_groups[0].colour, Colour::from_rgb(255, 0, 0));
    assert_eq!(a.map_groups[0].font_size, 10 * M);
    assert_eq!(
        a.map_groups[0].lines,
        vec![vec![
            Coordinate { lat: 1000, lng: 2000 },
            Coordinate { lat: 3000, lng: 4000 }
        ]]
    );
    assert_eq!(geo.maps[1].active.len(), 1);
    assert_eq!(geo.maps[1].active[0].len(), 2);
    assert_eq!(geo.maps[1].active[0][0], Active::True);

    let auto = folder(&folders, "AUTO");
    assert!(auto.hidden);
    let c = &auto.maps[0];
    assert_eq!(c.name, "C");
    assert_eq!(
        c.map_groups[0].symbols,
        vec![Symbol {
            name: "VOR".to_string(),
            coordinate: Coordinate { lat: 1000, lng: 2000 },
            label: None,
            label_alignment: Alignment::default(),
            label_offset: (3 * M, 3 * M),
        }]
    );
    assert_eq!(c.map_groups[0].labels.len(), 1);
    assert_eq!(c.map_groups[0].labels[0].text, "Hello");
}

#[test]
fn drawing_changes_start_new_groups() {
    let (topsky, settings, colours) = setup(
        b"MAP:M\nFOLDER:F\nCOLOR:Red\nSTYLE:Dash:2\nLAYER:3\nLINE:ALPHA:BRAVO\nZOOM:2.5\nFONTSIZE:*:1.5\nFONTSIZE:+:1\nLINE:ALPHA:BRAVO\nFONTSIZE:0\n",
    );
    let folders = from_topsky(&topsky, &settings, &colours, &locations());
    let f = folder(&folders, "F");
    assert!(!f.hidden);
    let groups = &f.maps[0].map_groups;
    assert_eq!(groups.len(), 3);
    assert_eq!(
        groups[0].line_style,
        LineStyle {
            width: 2,
            style: LineStyleType::Dash
        }
    );
    assert_eq!(groups[0].layer, 3 * M);
    assert_eq!(groups[0].zoom, None);
    assert_eq!(groups[1].zoom, Some(2_500_000));
    assert_eq!(groups[1].font_size, 16 * M);
    assert_eq!(groups[1].layer, 3 * M);
    assert_eq!(groups[2].font_size, 10 * M);
    assert!(groups[2].lines.is_empty());
}

#[test]
fn named_line_styles_follow_builtins() {
    let (topsky, _, _) = setup(b"LINESTYLE:dotted:SOLID:NONE:2:1:4\nLINESTYLE:DOT:SOLID:NONE:9:9\n");
    let styles = line_styles_from_topsky(&Some(topsky));
    assert_eq!(styles[0], ("DOTTED".to_string(), Some(vec![Dash { length: 2 * M, gap: M }])));
    assert_eq!(styles[1].0, "DOT");
    // the built-in DOT comes later and counts
    let last_dot = styles.iter().rev().find(|(n, _)| n == "DOT").unwrap();
    assert_eq!(last_dot.1, Some(vec![Dash { length: M, gap: M }]));
    let none = line_styles_from_topsky(&None);
    assert_eq!(none.len(), 6);
    assert_eq!(none[0], ("SOLID".to_string(), None));
    assert_eq!(
        none[5].1,
        Some(vec![
            Dash { length: 3 * M, gap: 3 * M },
            Dash { length: M, gap: 3 * M },
            Dash { length: M, gap: 3 * M }
        ])
    );
}

#[test]
fn map_and_track_settings() {
    let (topsky, settings, _) = setup(b"");
    assert_eq!(settings.maps.font_size, 10 * M);
    assert!(!settings.coopans);
    let defaults = MapsSettings::default();
    assert_eq!(defaults.font_size, 12 * M);
    assert_eq!(defaults.auto_folder, "AUTO");
    let track = TrackSettings::from_topsky(&topsky);
    assert_eq!(track.vector.length, M);
    assert!(track.vector.enabled);
    assert_eq!(track.history_dots.count, 6);
    let symbology = Symbology::parse(b"").unwrap();
    let plain = Settings::from_euroscope(&symbology, None, None);
    assert_eq!(plain.maps.font_size, 12 * M);
    assert!(plain.coopans);
    assert!(!plain.track.vector.enabled);
    assert!(plain.ssr.special_use_codes.is_empty());
}
