use vatsim_parser::symbology::Symbology;
use vatsim_parser::symbols::{SymbolRule as Rule, Symbols};
use vatsim_parser::topsky::Topsky;
use vatsim_parser::topsky_settings::Settings;
use vatsim_parser::topsky_symbols::{
    find_symbol, parse_topsky_symbols, SymbolDef, SymbolRule, SymbolsError,
};

const M: i64 = 1_000_000;

#[test]
fn test_symbols() {
    let symbols_str = br#"
SYMBOL:AIRPORT
MOVETO:-3.2:-3
LINETO:3:-3
LINETO:3:3
LINETO:-3:3
LINETO:-3:-3
MOVETO:5:0
LINETO:-6:0
MOVETO:0:5
LINETO:0:-6

SYMBOL:NDB
SETPIXEL:0:0
ARC:0:0:1:0:360
ARC:0:0:3:0:360
ARC:0:0:5:0:360

SYMBOL:HISTORY
FILLARC:0:0:1:0:360

SYMBOL:APPFix
ARC:0:0:2:6:0:360
ARC:0:0:6:2:0:360

SYMBOL:NODAPS_DIV
POLYGON:-4:0:0:-4:4:0:0:4
ARC:0:0:8:0:0"#;
    let symbols = parse_topsky_symbols(symbols_str).unwrap();

    assert_eq!(
        find_symbol(&symbols, "AIRPORT").unwrap(),
        &SymbolDef {
            name: "AIRPORT".to_string(),
            rules: vec![
                SymbolRule::Move((-3_200_000, -3 * M)),
                SymbolRule::Line((3 * M, -3 * M)),
                SymbolRule::Line((3 * M, 3 * M)),
                SymbolRule::Line((-3 * M, 3 * M)),
                SymbolRule::Line((-3 * M, -3 * M)),
                SymbolRule::Move((5 * M, 0)),
                SymbolRule::Line((-6 * M, 0)),
                SymbolRule::Move((0, 5 * M)),
                SymbolRule::Line((0, -6 * M)),
            ]
        }
    );

    assert_eq!(
        find_symbol(&symbols, "NDB").unwrap(),
        &SymbolDef {
            name: "NDB".to_string(),
            rules: vec![
                SymbolRule::Pixel((0, 0)),
                SymbolRule::Arc((0, 0), M, 0, 0),
                SymbolRule::Arc((0, 0), 3 * M, 0, 0),
                SymbolRule::Arc((0, 0), 5 * M, 0, 0),
            ]
        }
    );

    assert_eq!(
        find_symbol(&symbols, "HISTORY").unwrap(),
        &SymbolDef {
            name: "HISTORY".to_string(),
            rules: vec![SymbolRule::FilledArc((0, 0), M, 0, 0),]
        }
    );

    assert_eq!(
        find_symbol(&symbols, "APPFix").unwrap(),
        &SymbolDef {
            name: "APPFix".to_string(),
            rules: vec![
                SymbolRule::EllipticArc((0, 0), 2 * M, 6 * M, 0, 0),
                SymbolRule::EllipticArc((0, 0), 6 * M, 2 * M, 0, 0),
            ]
        }
    );

    assert_eq!(
        find_symbol(&symbols, "NODAPS_DIV").unwrap(),
        &SymbolDef {
            name: "NODAPS_DIV".to_string(),
            rules: vec![
                SymbolRule::Polygon(vec![(-4 * M, 0), (0, -4 * M), (4 * M, 0), (0, 4 * M)]),
                SymbolRule::Arc((0, 0), 8 * M, 0, 0),
            ]
        }
    );
}

#[test]
fn symbol_definitions_comments_and_circles() {
    let text = b"// symbols\r\nSYMBOLDEF:DOT\r\n  ELLIPSE_CIRCLE:0:0:1.5  \r\nELLIPSE:1:-1:2:3\r\nFILLARC:0:0:2:3:-45:405\r\n";
    let symbols = parse_topsky_symbols(text).unwrap();
    assert_eq!(symbols.len(), 1);
    assert_eq!(
        symbols[0].rules,
        vec![
            SymbolRule::FilledArc((0, 0), 1_500_000, 0, 0),
            SymbolRule::FilledEllipticArc((M, -M), 2 * M, 3 * M, 0, 0),
            SymbolRule::FilledEllipticArc((0, 0), 2 * M, 3 * M, -45, 45),
        ]
    );
}

#[test]
fn the_last_symbol_of_a_name_counts() {
    let text = b"SYMBOL:A\nSETPIXEL:1:1\nSYMBOL:A\nSETPIXEL:2:2\n";
    let symbols = parse_topsky_symbols(text).unwrap();
    assert_eq!(symbols.len(), 2);
    assert_eq!(
        find_symbol(&symbols, "A").unwrap().rules,
        vec![SymbolRule::Pixel((2 * M, 2 * M))]
    );
    assert!(find_symbol(&symbols, "B").is_none());
}

#[test]
fn invalid_symbol_lines_are_reported() {
    assert_eq!(
        parse_topsky_symbols(b"MOVETO:1:1\n"),
        Err(SymbolsError::Parse { line: 1 })
    );
    assert_eq!(
        parse_topsky_symbols(b"SYMBOL:A\nMOVETO:1\n"),
        Err(SymbolsError::Parse { line: 2 })
    );
    assert_eq!(
        parse_topsky_symbols(b"SYMBOL:A\nARC:0:0:1:0.5:360\n"),
        Err(SymbolsError::Parse { line: 2 })
    );
    assert_eq!(
        parse_topsky_symbols(b"SYMBOL:A\n\nPOLYGON:1:2:3\n"),
        Err(SymbolsError::Parse { line: 3 })
    );
    assert_eq!(
        parse_topsky_symbols(b"SYMBOL:\n"),
        Err(SymbolsError::Parse { line: 1 })
    );
}

fn topsky_with(symbols: &[u8]) -> Option<Topsky> {
    Some(Topsky {
        symbols: parse_topsky_symbols(symbols).unwrap(),
        maps: vec![],
        colours: vec![],
        settings: Settings(vec![]),
        line_styles: vec![],
        overrides: vec![],
    })
}

#[test]
fn topsky_symbols_win_over_symbology_and_defaults() {
    let symbology = Symbology::parse(b"SYMBOL:3\nSYMBOLITEM:SETPIXEL 1 2\nSYMBOL:1\nSYMBOLITEM:SETPIXEL 3 4\n").unwrap();
    let topsky = topsky_with(b"SYMBOL:NDB\nMOVETO:0.5:0\nSYMBOL:OTHER\nLINETO:1:1\n");
    let symbols = Symbols::from_euroscope(&symbology, &topsky);
    // TopSky's NDB
    assert_eq!(symbols.ndb, vec![Rule::Move((500_000, 0))]);
    // Symbology's fix (type 3), scaled to millionths
    assert_eq!(symbols.fix, vec![Rule::Pixel((1_000_000, 2_000_000))]);
    // built-in airport
    assert_eq!(symbols.airport, Symbols::default().airport);
    assert_eq!(symbols.get("OTHER").unwrap(), &[Rule::Line((1_000_000, 1_000_000))][..]);
    assert!(symbols.get("MISSING").is_none());
}

#[test]
fn vor_falls_back_to_the_builtin_ndb() {
    let symbology = Symbology::parse(b"").unwrap();
    let symbols = Symbols::from_euroscope(&symbology, &None);
    let defaults = Symbols::default();
    assert_eq!(symbols.vor, defaults.ndb);
    assert_ne!(defaults.vor, defaults.ndb);
    assert_eq!(defaults.vor.len(), 12);
    assert_eq!(symbols.history_dot, defaults.history_dot);
    assert!(symbols.other.is_empty());
}
