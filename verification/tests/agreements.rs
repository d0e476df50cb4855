use vatsim_parser::agreements::{extract_agreements, Agreement};

#[test]
fn copx_lines_are_read() {
    let a = Agreement::parse("COPX:*:*:RUDNO:ETSI:*:EDMM\u{b7}EDMMRDG\u{b7}000\u{b7}135:EDMM\u{b7}EDMMALB\u{b7}000\u{b7}105:*:9000:RUDNO").unwrap();
    assert_eq!(a.previous_fix, None);
    assert_eq!(a.departure_runway, None);
    assert_eq!(a.fix, Some("RUDNO".to_string()));
    assert_eq!(a.subsequent_fix, Some("ETSI".to_string()));
    assert_eq!(a.arrival_runway, None);
    assert_eq!(a.exit_sector, "EDMM\u{b7}EDMMRDG\u{b7}000\u{b7}135");
    assert_eq!(a.entry_sector, "EDMM\u{b7}EDMMALB\u{b7}000\u{b7}105");
    assert_eq!(a.climb_level, None);
    assert_eq!(a.descent_level, Some(9000));
    assert_eq!(a.description, "RUDNO");
    let f = Agreement::parse("FIR_COPX:EDDM:*:INBED:*:*:EDMM\u{b7}EDMMALB\u{b7}245\u{b7}305:EDGG\u{b7}WUR142\u{b7}245\u{b7}305:30000:*:INBED^").unwrap();
    assert_eq!(f.previous_fix, Some("EDDM".to_string()));
    assert_eq!(f.climb_level, Some(30000));
    assert_eq!(f.descent_level, None);
    assert_eq!(f.description, "INBED^");
}

#[test]
fn malformed_copx_lines_are_refused() {
    assert!(Agreement::parse("COPX:*:*:RUDNO").is_none());
    assert!(Agreement::parse("COPX:*:*:A:B:*:X:Y:high:*:D").is_none());
    assert!(Agreement::parse("SECTOR:A:0:100").is_none());
}

#[test]
fn agreements_split_by_level() {
    let lines = [
        "COPX:*:*:A:*:*:S1:S2:*:9000:A",
        "COPX:*:*:B:*:*:S1:S2:*:*:B",
        "COPX:*:*:C:*:*:S1:S2:19000:*:C",
        "COPX:*:*:D:*:*:S1:S2:21000:20000:D",
    ];
    let all: Vec<Agreement> = lines.iter().map(|l| Agreement::parse(l).unwrap()).collect();
    let (climb, descent) = extract_agreements(&all);
    let names = |v: &Vec<Agreement>| v.iter().map(|a| a.description.clone()).collect::<Vec<_>>();
    assert_eq!(names(&climb), vec!["C", "D"]);
    assert_eq!(names(&descent), vec!["A"]);
}
