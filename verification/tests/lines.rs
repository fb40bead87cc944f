use kitty::line::{content_end, is_blank, is_whitespace};
use kitty::number::{write_decimal, write_number_prefix};
use kitty::LineSource;

#[test]
fn white_space_is_six_bytes() {
    for byte in 0..=255u8 {
        let expected = matches!(byte, b'\t' | b'\n' | 0x0b | 0x0c | b'\r' | b' ');
        assert_eq!(is_whitespace(byte), expected);
    }
}

#[test]
fn blank_lines_hold_white_space_only() {
    assert!(is_blank(b""));
    assert!(is_blank(b"\n"));
    assert!(is_blank(b" \t\r\n"));
    assert!(is_blank(b"\x0b\x0c"));
    assert!(!is_blank(b"a\n"));
    assert!(!is_blank(b"   a   \n"));
    assert!(!is_blank(b"\x00\n"));
    assert!(!is_blank(b"\xa0\n"));
    assert!(!is_blank(b"\x85"));
}

#[test]
fn content_ends_at_the_first_line_feed() {
    assert_eq!(content_end(b""), 0);
    assert_eq!(content_end(b"\n"), 0);
    assert_eq!(content_end(b"abc"), 3);
    assert_eq!(content_end(b"abc\n"), 3);
    assert_eq!(content_end(b"ab\ncd\n"), 2);
    assert_eq!(content_end(b"a\r\n"), 2);
}

#[test]
fn a_source_hands_out_lines_with_their_terminators() {
    let mut source = LineSource::new(b"one\n\ntwo\r\nlast");
    assert_eq!(source.next_line(), Some(&b"one\n"[..]));
    assert_eq!(source.next_line(), Some(&b"\n"[..]));
    assert_eq!(source.next_line(), Some(&b"two\r\n"[..]));
    assert_eq!(source.next_line(), Some(&b"last"[..]));
    assert_eq!(source.next_line(), None);
    assert_eq!(source.next_line(), None);
}

#[test]
fn a_source_over_terminated_input_ends_after_the_last_terminator() {
    let mut source = LineSource::new(b"a\nb\n");
    assert_eq!(source.next_line(), Some(&b"a\n"[..]));
    assert_eq!(source.next_line(), Some(&b"b\n"[..]));
    assert_eq!(source.next_line(), None);
}

#[test]
fn a_source_over_nothing_has_no_line() {
    let mut source = LineSource::new(b"");
    assert_eq!(source.next_line(), None);
}

#[test]
fn the_lines_of_a_source_join_to_its_input() {
    let input = b"\n\nalpha\n\xff\x00\n\n beta \ngamma";
    let mut source = LineSource::new(input);
    let mut joined = Vec::new();
    let mut count = 0;
    while let Some(line) = source.next_line() {
        assert!(!line.is_empty());
        assert!(!line[..line.len() - 1].contains(&b'\n'));
        joined.extend_from_slice(line);
        count += 1;
    }
    assert_eq!(count, 7);
    assert_eq!(joined, input.to_vec());
}

#[test]
fn numbers_are_written_in_decimal() {
    let cases: [(u64, &[u8]); 8] = [
        (0, b"0"),
        (1, b"1"),
        (9, b"9"),
        (10, b"10"),
        (99, b"99"),
        (100, b"100"),
        (1234567890, b"1234567890"),
        (u64::MAX, b"18446744073709551615"),
    ];
    for (n, digits) in cases {
        let mut writer = Vec::new();
        write_decimal(n, &mut writer);
        assert_eq!(writer, digits.to_vec());
    }
}

#[test]
fn a_number_prefix_is_a_tab_the_number_and_a_space() {
    let mut writer = b"|".to_vec();
    write_number_prefix(7, &mut writer);
    write_number_prefix(120, &mut writer);
    assert_eq!(writer, b"|\t7 \t120 ".to_vec());
}
