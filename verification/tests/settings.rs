use vatsim_parser::colours::Colour;
use vatsim_parser::line_styles::LineStyle;
use vatsim_parser::settings::{format_octal4, LineSettings, SsrSettings};
use vatsim_parser::squawks::{Range, SquawkDef, SquawksJson};
use vatsim_parser::symbology::Symbology;

fn def(code: Option<&str>, range: Option<(&str, &str)>, message: &str) -> SquawkDef {
    SquawkDef {
        code: code.map(str::to_string),
        range: range.map(|(s, e)| Range { start: s.to_string(), end: e.to_string() }),
        message: message.to_string(),
        color: Colour::from_rgb(0, 0, 0),
    }
}

#[test]
fn ssr_codes_from_squawks_json() {
    let json = SquawksJson {
        non_discrete_color: Colour::from_rgb(1, 1, 1),
        non_discrete_message: "ND".to_string(),
        non_discrete: vec!["2000".to_string()],
        squawks: vec![
            def(Some("7500"), None, "HIJACK"),
            def(None, Some(("0020", "0023")), "RANGE"),
            def(Some("7"), None, "SHORT"),
            def(Some("7500"), Some(("1", "2")), "BOTH"),
            def(None, None, "NEITHER"),
            def(Some("8"), None, "NOT OCTAL"),
            def(None, Some(("0030", "0027")), "BACKWARDS"),
        ],
    };
    let ssr = SsrSettings::from_squawks_json(&json);
    let codes: Vec<(&str, &str)> = ssr
        .special_use_codes
        .iter()
        .map(|(c, m)| (c.as_str(), m.as_str()))
        .collect();
    assert_eq!(
        codes,
        vec![
            ("7500", "HIJACK"),
            ("0020", "RANGE"),
            ("0021", "RANGE"),
            ("0022", "RANGE"),
            ("0023", "RANGE"),
            ("0007", "SHORT"),
        ]
    );
    assert_eq!(ssr.get("0022"), Some("RANGE".to_string()));
    assert_eq!(ssr.get("7000"), None);
}

#[test]
fn octal_codes_have_four_digits() {
    assert_eq!(format_octal4(0), "0000");
    assert_eq!(format_octal4(8), "0010");
    assert_eq!(format_octal4(0o7777), "7777");
    assert_eq!(format_octal4(0o17777), "17777");
    assert_eq!(format_octal4(u16::MAX), "177777");
}

#[test]
fn line_settings_from_symbology() {
    let s = Symbology::parse(b"Geo:line:255:3.5:2:DOT:7\nRunways:centerline:255:3.5:3:SOLID:7\n").unwrap();
    let l = LineSettings::from_euroscope(&s);
    assert_eq!((l.geo.width, l.geo.style.as_str()), (2, "DOT"));
    assert_eq!((l.runway_centreline.width, l.runway_centreline.style.as_str()), (3, "SOLID"));
    assert_eq!((l.sid.width, l.sid.style.as_str()), (1, "SOLID"));
    let d = LineSettings::default();
    assert_eq!((d.artcc.width, d.artcc.style.as_str()), (1, "SOLID"));
    let ls = LineStyle::default();
    assert_eq!((ls.width, ls.style.as_str()), (1, "SOLID"));
}
