use vatsim_parser::read_to_string;
use vatsim_parser::text::{parse_i32, parse_i64, words};

#[test]
fn read_to_string_falls_back_to_windows_1252() {
    assert_eq!(read_to_string("Aä€".as_bytes()), "Aä€");
    // 0xe4 is `ä` and 0x80 is `€` in Windows-1252; alone they are no UTF-8
    assert_eq!(read_to_string(&[0x41, 0xe4, 0x80]), "Aä€");
    assert_eq!(read_to_string(b""), "");
}

#[test]
fn signed_numbers_as_std_reads_them() {
    let c = |s: &str| s.chars().collect::<Vec<char>>();
    assert_eq!(parse_i32(&c("-2147483648")), Some(i32::MIN));
    assert_eq!(parse_i32(&c("2147483647")), Some(i32::MAX));
    assert_eq!(parse_i32(&c("2147483648")), None);
    assert_eq!(parse_i32(&c("+7")), Some(7));
    assert_eq!(parse_i32(&c("-")), None);
    assert_eq!(parse_i32(&c("")), None);
    assert_eq!(parse_i32(&c("1 2")), None);
    assert_eq!(parse_i64(&c("-9223372036854775808")), Some(i64::MIN));
    assert_eq!(parse_i64(&c("-+1")), None);
}

#[test]
fn words_drop_empty_pieces() {
    let c = |s: &str| s.chars().collect::<Vec<char>>();
    let w = words(&c("  MOVETO  -3 4 "));
    assert_eq!(w, vec![c("MOVETO"), c("-3"), c("4")]);
}

#[test]
fn windows_1252_table_above_ascii() {
    assert_eq!(read_to_string(b"M\xfcnchen \x80 \x9f\x81"), "M\u{fc}nchen \u{20ac} \u{178}\u{81}");
}
