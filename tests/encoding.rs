use pg_replicate::model::{Cell, Date, TableRow};
use pg_replicate::proto::{cell_encoded_len, encode_cell};

fn encode(values: Vec<Cell>) -> (Vec<u8>, usize) {
    let row = TableRow { values };
    let mut buf = Vec::new();
    row.encode_raw(&mut buf);
    (buf, row.encoded_len())
}

#[test]
fn encodes_fields_by_position() {
    let (buf, len) = encode(vec![Cell::I32(1), Cell::String("a".to_string())]);
    assert_eq!(buf, vec![0x08, 0x01, 0x12, 0x01, b'a']);
    assert_eq!(len, buf.len());
}

#[test]
fn null_cells_are_skipped() {
    let (buf, len) = encode(vec![Cell::Null, Cell::Bool(true)]);
    assert_eq!(buf, vec![0x10, 0x01]);
    assert_eq!(len, 2);
}

#[test]
fn negative_integers_take_ten_bytes() {
    let (buf, len) = encode(vec![Cell::I16(-1)]);
    assert_eq!(buf, vec![0x08, 0xff, 0xff, 0xff, 0xff, 0xff, 0xff, 0xff, 0xff, 0xff, 0x01]);
    assert_eq!(len, 11);
    let (buf64, _) = encode(vec![Cell::I64(300)]);
    assert_eq!(buf64, vec![0x08, 0xac, 0x02]);
}

#[test]
fn floats_are_fixed_width() {
    let (buf, len) = encode(vec![Cell::F32(1.0f32.to_bits()), Cell::F64(2.0f64.to_bits())]);
    let mut expected = vec![0x0d];
    expected.extend_from_slice(&1.0f32.to_le_bytes());
    expected.push(0x11);
    expected.extend_from_slice(&2.0f64.to_le_bytes());
    assert_eq!(buf, expected);
    assert_eq!(len, 14);
}

#[test]
fn text_cells_travel_as_strings() {
    let (buf, len) = encode(vec![Cell::Date(Date { year: 2020, month: 1, day: 2 })]);
    let mut expected = vec![0x0a, 10];
    expected.extend_from_slice(b"2020-01-02");
    assert_eq!(buf, expected);
    assert_eq!(len, buf.len());
    let (bytes, _) = encode(vec![Cell::Bytes(vec![1, 2, 3])]);
    assert_eq!(bytes, vec![0x0a, 3, 1, 2, 3]);
}

#[test]
fn large_tags_use_longer_keys() {
    let mut buf = Vec::new();
    encode_cell(16, &Cell::Bool(true), &mut buf);
    assert_eq!(buf, vec![0x80, 0x01, 0x01]);
}

#[test]
fn clear_resets_cells() {
    let mut row = TableRow {
        values: vec![Cell::I32(5), Cell::String("x".to_string()), Cell::Null, Cell::Bytes(vec![1])],
    };
    row.clear();
    assert_eq!(
        row.values,
        vec![Cell::I32(0), Cell::String(String::new()), Cell::Null, Cell::Bytes(vec![])]
    );
}

#[test]
fn encoded_len_counts_long_keys() {
    assert_eq!(cell_encoded_len(16, &Cell::Bool(true)), 3);
    assert_eq!(cell_encoded_len(1, &Cell::I64(300)), 3);
    assert_eq!(cell_encoded_len(2, &Cell::String("héllo".to_string())), 8);
    assert_eq!(cell_encoded_len(1, &Cell::Null), 0);
}
