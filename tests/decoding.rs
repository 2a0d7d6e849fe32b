use pg_replicate::decode::{decode_cell_text, parse_hex, parse_int};
use pg_replicate::model::{Cell, CellKind};

#[test]
fn integers_round_trip_through_text() {
    for v in [0i64, 7, -7, 10, 100, -1000, i64::MAX, i64::MIN] {
        let text = v.to_string();
        assert_eq!(decode_cell_text(CellKind::I64, &text), Some(Cell::I64(v)));
    }
    assert_eq!(decode_cell_text(CellKind::I16, "-32768"), Some(Cell::I16(i16::MIN)));
    assert_eq!(decode_cell_text(CellKind::I32, "2147483647"), Some(Cell::I32(i32::MAX)));
}

#[test]
fn non_canonical_integers_are_refused() {
    assert_eq!(parse_int("", i64::MIN, i64::MAX), None);
    assert_eq!(parse_int("-", i64::MIN, i64::MAX), None);
    assert_eq!(parse_int("-0", i64::MIN, i64::MAX), None);
    assert_eq!(parse_int("007", i64::MIN, i64::MAX), None);
    assert_eq!(parse_int("1a", i64::MIN, i64::MAX), None);
    assert_eq!(parse_int("+1", i64::MIN, i64::MAX), None);
    assert_eq!(parse_int("9223372036854775808", i64::MIN, i64::MAX), None);
    assert_eq!(parse_int("99999999999999999999999", i64::MIN, i64::MAX), None);
    assert_eq!(decode_cell_text(CellKind::I16, "32768"), None);
}

#[test]
fn booleans_and_bytes_round_trip() {
    assert_eq!(decode_cell_text(CellKind::Bool, "true"), Some(Cell::Bool(true)));
    assert_eq!(decode_cell_text(CellKind::Bool, "false"), Some(Cell::Bool(false)));
    assert_eq!(decode_cell_text(CellKind::Bool, "TRUE"), None);
    assert_eq!(decode_cell_text(CellKind::Bytes, "00ab7f"), Some(Cell::Bytes(vec![0, 0xab, 0x7f])));
    assert_eq!(parse_hex(""), Some(vec![]));
    assert_eq!(parse_hex("abc"), None);
    assert_eq!(parse_hex("AB"), None);
    assert_eq!(decode_cell_text(CellKind::Date, "2020-01-01"), None);
}
