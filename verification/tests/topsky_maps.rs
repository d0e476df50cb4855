use vatsim_parser::colours::Colour;
use vatsim_parser::maps::{
    Active, ActiveIds, ActiveMapOperator, ActiveRunways, LineStyle, LineStyleType, OverrideSct,
    Runway,
};
use vatsim_parser::sct::{Coordinate, Location};
use vatsim_parser::topsky::{Topsky, TopskyError};
use vatsim_parser::topsky_maps::{
    parse_topsky_maps, FontSize, Label, LineStyleDef, MapLine, MapRule, MapSymbol, Text,
    TopskyMapsError,
};
use vatsim_parser::topsky_symbols::{find_symbol, SymbolRule};

const MAPS: &[u8] = br"
MAP:SYMBOLS
FOLDER:FIXES
COLOR:Active_Map_Type_20
ACTIVE:1

MAP:AOR ALTMUEHL
FOLDER:SECTORLINES
COLOR:Active_Map_Type_20
ASRDATA:CTR,EDDM_APP
STYLE:Dot:1
LAYER:-2
ACTIVE:ID:*:*:IGL:*
ACTIVE:ID:IGL:*:*:*

MAP:EDMO_RNP22
ASRDATA:APP,CTR
ZOOM:9
COLOR:Active_Map_Type_20
ACTIVE:RWY:ARR:EDMO22:DEP:*
";

fn actives<'a>(maps: &'a [vatsim_parser::topsky_maps::MapDef], name: &str) -> Vec<&'a MapRule> {
    maps.iter()
        .find(|map| map.name == name)
        .unwrap()
        .rules
        .iter()
        .filter(|rule| matches!(rule, MapRule::Active(_)))
        .collect()
}

fn asr_data<'a>(maps: &'a [vatsim_parser::topsky_maps::MapDef], name: &str) -> Vec<&'a MapRule> {
    maps.iter()
        .find(|map| map.name == name)
        .unwrap()
        .rules
        .iter()
        .filter(|rule| matches!(rule, MapRule::AsrData(_)))
        .collect()
}

#[test]
fn test_active() {
    let maps = parse_topsky_maps(MAPS).unwrap().maps;

    assert_eq!(actives(&maps, "SYMBOLS"), vec![&MapRule::Active(Active::True)]);

    assert_eq!(
        actives(&maps, "AOR ALTMUEHL"),
        vec![
            &MapRule::Active(Active::Id(ActiveIds {
                own: None,
                own_excludes: None,
                online: Some(vec!["IGL".to_string()]),
                online_excludes: None,
            })),
            &MapRule::Active(Active::Id(ActiveIds {
                own: Some(vec!["IGL".to_string()]),
                own_excludes: None,
                online: None,
                online_excludes: None,
            }))
        ]
    );

    assert_eq!(
        actives(&maps, "EDMO_RNP22"),
        vec![&MapRule::Active(Active::Runway(ActiveRunways {
            arrival: Some(vec![Runway {
                icao: "EDMO".to_string(),
                designator: "22".to_string()
            }]),
            arrival_excludes: None,
            departure: None,
            departure_excludes: None,
        }))]
    );
}

#[test]
fn test_asrdata() {
    let maps = parse_topsky_maps(MAPS).unwrap().maps;

    let empty_rules: Vec<&MapRule> = vec![];
    assert_eq!(asr_data(&maps, "SYMBOLS"), empty_rules);

    assert_eq!(
        asr_data(&maps, "AOR ALTMUEHL"),
        vec![&MapRule::AsrData(Some(vec![
            "CTR".to_string(),
            "EDDM_APP".to_string()
        ]))]
    );

    assert_eq!(
        asr_data(&maps, "EDMO_RNP22"),
        vec![&MapRule::AsrData(Some(vec![
            "APP".to_string(),
            "CTR".to_string()
        ]))]
    );
}

#[test]
fn map_rules_are_read_in_order() {
    let maps = parse_topsky_maps(MAPS).unwrap().maps;
    let aor = &maps[1];
    assert_eq!(aor.name, "AOR ALTMUEHL");
    assert_eq!(aor.rules[0], MapRule::Folder("SECTORLINES".to_string()));
    assert_eq!(aor.rules[1], MapRule::Colour("Active_Map_Type_20".to_string()));
    assert_eq!(
        aor.rules[3],
        MapRule::LineStyle(LineStyle {
            width: 1,
            style: LineStyleType::Dot
        })
    );
    assert_eq!(aor.rules[4], MapRule::Layer(-2_000_000));
    assert_eq!(maps[2].rules[1], MapRule::Zoom(9_000_000));
}

fn fix(name: &str) -> Location {
    Location::Fix(name.to_string())
}

#[test]
fn consecutive_lines_join_into_polylines() {
    let text = b"MAP:M\nCOLOR:X\nLINE:A:B\nLINE:B:C\nLINE:C:C\nLINE:D:E\nFONTSIZE:+:2\nLINE:E:F\n";
    let maps = parse_topsky_maps(text).unwrap().maps;
    assert_eq!(
        maps[0].rules,
        vec![
            MapRule::Colour("X".to_string()),
            MapRule::Line(vec![
                MapLine {
                    points: vec![fix("A"), fix("B"), fix("C")]
                },
                MapLine {
                    points: vec![fix("D"), fix("E")]
                },
            ]),
            MapRule::FontSize(FontSize::Add(2_000_000)),
            MapRule::Line(vec![MapLine {
                points: vec![fix("E"), fix("F")]
            }]),
        ]
    );
}

#[test]
fn places_are_fixes_or_coordinates() {
    let text = b"MAP:M\nLINE:N048.21.00.000:E011.47.00.000:MIQ\nTEXT:48.5:-11.25:Hello\nSYMBOL:VOR:MIQ:MIQ:3.5:-2\nCOORD:N048.00.00.000:E011.00.00.000\nCOORDPOLY:Fill\nCIRCLE:whatever:1\n";
    let maps = parse_topsky_maps(text).unwrap().maps;
    let rules = &maps[0].rules;
    assert_eq!(
        rules[0],
        MapRule::Line(vec![MapLine {
            points: vec![
                Location::Coordinate(Coordinate {
                    lat: 174_060_000,
                    lng: 42_420_000
                }),
                fix("MIQ")
            ]
        }])
    );
    // decimal degrees: 48.5 * 3 600 000 and -11.25 * 3 600 000
    assert_eq!(
        rules[1],
        MapRule::Text(Text {
            location: Location::Coordinate(Coordinate {
                lat: 174_600_000,
                lng: -40_500_000
            }),
            content: "Hello".to_string(),
            alignment: None,
        })
    );
    assert_eq!(
        rules[2],
        MapRule::Symbol(MapSymbol {
            name: "VOR".to_string(),
            location: fix("MIQ"),
            label: Some(Label {
                text: "MIQ".to_string(),
                pos: (3_500_000, -2_000_000)
            }),
            label_alignment: None,
        })
    );
    assert_eq!(
        rules[3],
        MapRule::Coord(Location::Coordinate(Coordinate {
            lat: 172_800_000,
            lng: 39_600_000
        }))
    );
    assert_eq!(rules[4], MapRule::CoordPoly("Fill".to_string()));
    assert_eq!(rules.len(), 5);
}

#[test]
fn top_level_definitions() {
    let text = b"// defs\nCOLORDEF:Grey:128:128:128\nLINESTYLE:Dashed:SOLID:NONE:4:2.5\nOVERRIDE_SCT_MAP:Geo\\Coast\nOVERRIDE_SCT_MAP:Stars\nSCTFILEPATH:x.sct\nSYMBOLDEF:DOT\nSETPIXEL:0:0\nMAP:After\nHIDDEN\nAND_ACTIVE:MAP:!:F:N\n";
    let m = parse_topsky_maps(text).unwrap();
    assert_eq!(m.colours.len(), 1);
    assert_eq!(m.colours[0].name, "Grey");
    assert_eq!(m.colours[0].colour, Colour::from_rgb(128, 128, 128));
    assert_eq!(
        m.line_styles,
        vec![LineStyleDef {
            name: "Dashed".to_string(),
            brush: "SOLID".to_string(),
            hatch: "NONE".to_string(),
            dash_lengths: vec![4_000_000, 2_500_000],
        }]
    );
    assert_eq!(
        m.overrides,
        vec![
            OverrideSct {
                folder: "Geo".to_string(),
                name: Some("Coast".to_string())
            },
            OverrideSct {
                folder: "Stars".to_string(),
                name: None
            },
        ]
    );
    assert_eq!(m.symbols.len(), 1);
    assert_eq!(m.symbols[0].rules, vec![SymbolRule::Pixel((0, 0))]);
    assert_eq!(
        m.maps[0].rules,
        vec![
            MapRule::Hidden,
            MapRule::AndActive(Active::MapState(
                ActiveMapOperator::Opposite,
                "F".to_string(),
                "N".to_string()
            )),
        ]
    );
}

#[test]
fn invalid_map_lines_are_reported() {
    assert_eq!(
        parse_topsky_maps(b"FOLDER:X\n").unwrap_err(),
        TopskyMapsError::Parse { line: 1 }
    );
    assert_eq!(
        parse_topsky_maps(b"MAP:A\nACTIVE:RWY:ARR:ED:DEP:*\n").unwrap_err(),
        TopskyMapsError::Parse { line: 2 }
    );
    assert_eq!(
        parse_topsky_maps(b"MAP:A\nCOLORDEF:X:1:2:3\nLINE:A:B\n").unwrap_err(),
        TopskyMapsError::Parse { line: 3 }
    );
    assert_eq!(
        parse_topsky_maps(b"MAP:A\nSETPIXEL:1:1\n").unwrap_err(),
        TopskyMapsError::Parse { line: 2 }
    );
    assert_eq!(
        parse_topsky_maps(b"MAP:A\nLINE:N048.00.00.000:11.5:B\n").unwrap_err(),
        TopskyMapsError::Parse { line: 2 }
    );
}

#[test]
fn topsky_files_combine_symbols_and_colours() {
    let settings = b"Color_Own=1,2,3\nSetup_COOPANS=0\n";
    let symbols = b"SYMBOL:A\nSETPIXEL:1:1\n";
    let maps = b"SYMBOLDEF:A\nSETPIXEL:2:2\nCOLORDEF:Own:4:5:6\n";
    let t = Topsky::from_files(settings, Some(symbols), maps).unwrap();
    assert_eq!(t.symbols.len(), 2);
    assert_eq!(
        find_symbol(&t.symbols, "A").unwrap().rules,
        vec![SymbolRule::Pixel((2_000_000, 2_000_000))]
    );
    assert_eq!(t.colours.len(), 2);
    assert_eq!(t.colours[1].colour, Colour::from_rgb(4, 5, 6));
    assert!(matches!(
        Topsky::from_files(settings, Some(b"MOVETO:1:1\n"), maps),
        Err(TopskyError::Symbols(_))
    ));
    assert!(matches!(
        Topsky::from_files(settings, None, b"LINE:A:B\n"),
        Err(TopskyError::Maps(_))
    ));
    assert_eq!(Topsky::from_files(settings, None, b"").unwrap().symbols.len(), 0);
}
