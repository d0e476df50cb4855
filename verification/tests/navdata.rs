use std::collections::HashMap;

use vatsim_parser::airway::{parse_airway_txt, AirwayError};
use vatsim_parser::airways::Fix;
use vatsim_parser::decimal::{format_micro, parse_micro};
use vatsim_parser::isec::{parse_isec_txt, IsecError};
use vatsim_parser::navdata_airports::parse_navdata_airports;

fn micro(deg: f64) -> i64 {
    (deg * 1_000_000.0).round() as i64
}

#[test]
fn test_isec() {
    let isec_str = "8900E	 89.000000	   0.000000	15
8900E	 89.000000	   0.000000	15
ASPAT	 49.196175	  10.725828	15
DEBHI	 49.360833	  10.466111	15
ERNAS	 48.844669	  11.219353	15
GIVMI	 48.701094	  11.364803	15
";

    let parsed = parse_isec_txt(isec_str.as_bytes());

    assert!(parsed.is_ok());
    assert_eq!(isec_str, parsed.as_ref().unwrap().to_text());

    let fixes: Vec<(String, (i64, i64))> = parsed
        .unwrap()
        .0
        .into_iter()
        .map(|f| (f.designator, f.coordinate))
        .collect();
    assert_eq!(
        fixes,
        vec![
            ("8900E".to_string(), (micro(0.), micro(89.))),
            ("8900E".to_string(), (micro(0.), micro(89.))),
            ("ASPAT".to_string(), (micro(10.725_828), micro(49.196_175))),
            ("DEBHI".to_string(), (micro(10.466_111), micro(49.360_833))),
            ("ERNAS".to_string(), (micro(11.219_353), micro(48.844_669))),
            ("GIVMI".to_string(), (micro(11.364_803), micro(48.701_094))),
        ]
    );
}

#[test]
fn isec_text_is_sorted_by_name() {
    let parsed = parse_isec_txt(b"ZULU\t-1.5\t-120.25\t15\nALFA\t2\t3.0000005\t15\n").unwrap();
    assert_eq!(
        parsed.to_text(),
        "ALFA\t  2.000000\t   3.000001\t15\nZULU\t -1.500000\t-120.250000\t15\n"
    );
    assert_eq!(
        parse_isec_txt(b"ALFA\t2\t3\t15\nbroken line\n").unwrap_err(),
        IsecError::Parse { line: 2 }
    );
}

#[test]
fn test_navdata_airports() {
    let content = b"EDDB    52.3622470    13.5006720    BERLIN BRANDENBURG
EDDC    51.1343440    13.7680000    DRESDEN
EDDE    50.9798110    10.9581060    ERFURT-WEIMAR
EDDF    50.0333060    8.5704560    FRANKFURT/MAIN
EDDG    52.1346420    7.6848310    MUENSTER/OSNABRUECK";

    let parsed: HashMap<String, (String, (i64, i64))> = parse_navdata_airports(content)
        .into_iter()
        .map(|a| (a.designator.clone(), (a.name, a.location)))
        .collect();

    assert_eq!(
        parsed,
        HashMap::from([
            (
                "EDDB".to_string(),
                ("BERLIN BRANDENBURG".to_string(), (micro(13.500_672), micro(52.362_247)))
            ),
            ("EDDC".to_string(), ("DRESDEN".to_string(), (micro(13.768), micro(51.134_344)))),
            (
                "EDDE".to_string(),
                ("ERFURT-WEIMAR".to_string(), (micro(10.958_106), micro(50.979_811)))
            ),
            (
                "EDDF".to_string(),
                ("FRANKFURT/MAIN".to_string(), (micro(8.570_456), micro(50.033_306)))
            ),
            (
                "EDDG".to_string(),
                ("MUENSTER/OSNABRUECK".to_string(), (micro(7.684_831), micro(52.134_642)))
            ),
        ])
    );
}

#[test]
fn micro_degrees_round_on_the_seventh_decimal() {
    let c = |s: &str| s.chars().collect::<Vec<char>>();
    assert_eq!(parse_micro(&c("52.3622470")), Some(52_362_247));
    assert_eq!(parse_micro(&c("-0.0000005")), Some(-1));
    assert_eq!(parse_micro(&c("0.0000004")), Some(0));
    assert_eq!(parse_micro(&c("+7")), Some(7_000_000));
    assert_eq!(parse_micro(&c("999.5")), Some(999_500_000));
    assert_eq!(parse_micro(&c("1.")), None);
    assert_eq!(parse_micro(&c(".5")), None);
    assert_eq!(parse_micro(&c("1e5")), None);
    assert_eq!(parse_micro(&c("1234567890")), None);
    let s = |v: i64| format_micro(v).into_iter().collect::<String>();
    assert_eq!(s(-1_500_000), "-1.500000");
    assert_eq!(s(10_725_828), "10.725828");
    assert_eq!(s(7), "0.000007");
}

#[test]
fn airway_txt_builds_the_graph() {
    let content = "ABB\t50.000000\t1.000000\t15\tUN859\tH\t\t\t\t\t\tREMBA\t49.000000\t2.000000\t24500\tY\n\
REMBA\t49.000000\t2.000000\t15\tUN859\tH\tABB\t50.000000\t1.000000\t24500\tN\tXYZ\t48.000000\t3.000000\t\tY\n\
;comment\n\n";
    let graph = parse_airway_txt(content.as_bytes()).unwrap();
    let start = Fix { designator: "ABB".to_string(), coordinate: (1_000_000, 50_000_000) };
    let expanded = graph.expand_airway_segment(&start, "XYZ", "UN859").unwrap();
    let names: Vec<&str> = expanded.iter().map(|f| f.fix.designator.as_str()).collect();
    assert_eq!(names, ["REMBA", "XYZ"]);
    assert_eq!(expanded[0].minimum_level, Some(24500));
    assert!(expanded[0].valid_direction);
    assert_eq!(expanded[1].minimum_level, None);
    assert_eq!(
        parse_airway_txt(b"ABB\t50\t1\t15\tUN859\tX\t\t\t\t\t\t\t\t\t\t\n").unwrap_err(),
        AirwayError::Parse { line: 1 }
    );
    assert_eq!(
        parse_airway_txt(b"\nABB\t50\t1\n").unwrap_err(),
        AirwayError::Parse { line: 2 }
    );
}
