use vatsim_parser::colours::Colour;
use vatsim_parser::symbology::{SymbolRule, SymbolType, Symbology, SymbologyError};

fn rules(symbology: &Symbology, t: SymbolType) -> Vec<String> {
    symbology
        .symbol(t)
        .unwrap()
        .iter()
        .map(|r| format!("{r:?}"))
        .collect()
}

#[test]
fn test_symbology() {
    let symbology_bytes = br"
SYMBOLOGY
SYMBOLSIZE
Sector:msaw:32768:2.0:0:2:7
Sector:inactive sector background:13158600:3.5:0:0:7
SYMBOL:0
SYMBOLITEM:MOVETO -3 -3
SYMBOLITEM:LINETO 3 -3
SYMBOLITEM:LINETO 3 3
SYMBOLITEM:LINETO -3 3
SYMBOLITEM:LINETO -3 -3
SYMBOLITEM:MOVETO 5 0
SYMBOLITEM:LINETO -6 0
SYMBOLITEM:MOVETO 0 5
SYMBOLITEM:LINETO 0 -6
SYMBOL:1
SYMBOLITEM:MOVETO -4 3
SYMBOLITEM:LINETO 0 -4
SYMBOLITEM:LINETO 4 3
SYMBOLITEM:LINETO -4 3
m_ClipArea:0
END
        ";
    let symbology = Symbology::parse(symbology_bytes).unwrap();
    let msaw = symbology.item("Sector", "msaw").unwrap();
    assert_eq!(msaw.folder, "Sector");
    assert_eq!(msaw.name, "msaw");
    assert_eq!(msaw.colour, Colour::from_rgb(0, 128, 0));
    assert_eq!(msaw.font_size, "2.0");
    let inactive = symbology.item("Sector", "inactive sector background").unwrap();
    assert_eq!(inactive.colour, Colour::from_rgb(200, 200, 200));
    assert_eq!(inactive.font_size, "3.5");
    let airport: Vec<String> = [
        SymbolRule::Move((-3, -3)),
        SymbolRule::Line((3, -3)),
        SymbolRule::Line((3, 3)),
        SymbolRule::Line((-3, 3)),
        SymbolRule::Line((-3, -3)),
        SymbolRule::Move((5, 0)),
        SymbolRule::Line((-6, 0)),
        SymbolRule::Move((0, 5)),
        SymbolRule::Line((0, -6)),
    ]
    .iter()
    .map(|r| format!("{r:?}"))
    .collect();
    assert_eq!(rules(&symbology, SymbolType::Airport), airport);
    let ndb: Vec<String> = [
        SymbolRule::Move((-4, 3)),
        SymbolRule::Line((0, -4)),
        SymbolRule::Line((4, 3)),
        SymbolRule::Line((-4, 3)),
    ]
    .iter()
    .map(|r| format!("{r:?}"))
    .collect();
    assert_eq!(rules(&symbology, SymbolType::NDB), ndb);
}

#[test]
fn symbology_item_fields() {
    let s = Symbology::parse(b"Geo:line:255:3.5:2:DOT:7\n").unwrap();
    let item = s.item("Geo", "line").unwrap();
    assert_eq!(item.line_weight, 2);
    assert_eq!(item.line_style, "DOT");
    assert!(s.item("Geo", "name").is_none());
}

#[test]
fn symbology_arcs_and_shapes() {
    let s = Symbology::parse(
        b"SYMBOL:2\nSYMBOLITEM:ARC 0 0 5 370 -370\nSYMBOLITEM:FILLARC 1 2 3 4 5 6\nSYMBOLITEM:ELLIPSE_CIRCLE 0 0 4\nSYMBOLITEM:FILLRECT -1 -2 3 4\nSYMBOLITEM:POLYGON 0 0 1 0 1 1\nSYMBOLITEM:SETPIXEL 7 8\n",
    )
    .unwrap();
    let got = rules(&s, SymbolType::VOR);
    let want: Vec<String> = [
        SymbolRule::Arc((0, 0), 5, 10, -10),
        SymbolRule::FilledEllipticArc((1, 2), 3, 4, 5, 6),
        SymbolRule::FilledArc((0, 0), 4, 0, 0),
        SymbolRule::Polygon(vec![(-1, -2), (3, -2), (3, 4), (-1, 4)]),
        SymbolRule::Polygon(vec![(0, 0), (1, 0), (1, 1)]),
        SymbolRule::Pixel((7, 8)),
    ]
    .iter()
    .map(|r| format!("{r:?}"))
    .collect();
    assert_eq!(got, want);
}

#[test]
fn symbology_later_symbol_counts_and_unknown_types_are_dropped() {
    let s = Symbology::parse(
        b"SYMBOL:3\nSYMBOLITEM:MOVETO 1 1\nSYMBOL:99\nSYMBOLITEM:MOVETO 5 5\nSYMBOL:3\nSYMBOLITEM:LINETO 2 2\n",
    )
    .unwrap();
    assert_eq!(rules(&s, SymbolType::Fix), vec![format!("{:?}", SymbolRule::Line((2, 2)))]);
    assert!(s.symbol(SymbolType::Airport).is_none());
    assert_eq!(SymbolType::from_u32(23), Some(SymbolType::GroundRotorcraft));
    assert_eq!(SymbolType::from_u32(24), None);
}

#[test]
fn symbology_errors_name_the_line() {
    assert_eq!(
        Symbology::parse(b"SYMBOLOGY\nSYMBOLITEM:MOVETO 1 1\n").unwrap_err(),
        SymbologyError::Parse { line: 2 }
    );
    assert_eq!(
        Symbology::parse(b"Fixes:symbol:notacolour:3.5:1:0:7\n").unwrap_err(),
        SymbologyError::Parse { line: 1 }
    );
    assert_eq!(
        Symbology::parse(b"\nFixes:symbol:16777216:3.5:1:0:7\n").unwrap_err(),
        SymbologyError::Parse { line: 2 }
    );
    assert_eq!(
        Symbology::parse(b"SYMBOL:1\nSYMBOLITEM:CIRCLE 1 1\n").unwrap_err(),
        SymbologyError::Parse { line: 2 }
    );
}
