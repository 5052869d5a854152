use net_sniff::hexdump::{parse_hex_dump, to_hex_string};

#[test]
fn empty_input_gives_empty_dump() {
    assert_eq!(to_hex_string(&[]), "");
    assert_eq!(parse_hex_dump(""), Vec::<u8>::new());
}

#[test]
fn short_line_is_padded_before_gutter() {
    let expected = format!("48 65 6C 6C 6F {}|Hello|", " ".repeat(33));
    assert_eq!(to_hex_string(b"Hello"), expected);
}

#[test]
fn non_printable_bytes_show_as_dots() {
    let expected = format!("00 7F 41 0A {}|..A.|", " ".repeat(36));
    assert_eq!(to_hex_string(&[0x00, 0x7f, 0x41, 0x0a]), expected);
}

#[test]
fn sixteen_bytes_per_line() {
    let bytes: Vec<u8> = (0u8..17).collect();
    let dump = to_hex_string(&bytes);
    let lines: Vec<&str> = dump.split('\n').collect();
    assert_eq!(lines.len(), 2);
    assert_eq!(
        lines[0],
        "00 01 02 03 04 05 06 07 08 09 0A 0B 0C 0D 0E 0F |................|"
    );
    assert_eq!(lines[1], format!("10 {}|.|", " ".repeat(45)));
}

#[test]
fn round_trip_various_lengths() {
    for n in [0usize, 1, 15, 16, 17, 31, 32, 33, 100, 257] {
        let bytes: Vec<u8> = (0..n).map(|i| (i * 37 % 256) as u8).collect();
        assert_eq!(parse_hex_dump(&to_hex_string(&bytes)), bytes);
    }
}

#[test]
fn round_trip_all_byte_values() {
    let bytes: Vec<u8> = (0u16..256).map(|b| b as u8).collect();
    assert_eq!(parse_hex_dump(&to_hex_string(&bytes)), bytes);
}

#[test]
fn reader_accepts_lower_case_digits() {
    assert_eq!(parse_hex_dump("ab 0f"), vec![0xab, 0x0f]);
    assert_eq!(parse_hex_dump("01 02\n03"), vec![1, 2, 3]);
}
