use lcd_lib::codec::{build_line_plan, hex_cmd, init_sequence, row_addresses};
use lcd_lib::driver::{Lcd, LcdError};

fn open_lcd() -> Lcd {
    let mut lcd = Lcd::default();
    lcd.init(false).unwrap();
    lcd
}

#[test]
fn encoder_emits_six_writes_for_a_command_byte() {
    // cmd = 0xC0, mode = command: high nibble 0xC0, low nibble 0x00,
    // backlight bit 0x08 on every byte, enable bit 0x04 pulsed.
    assert_eq!(hex_cmd(0xC0, 0), vec![0xC8, 0xCC, 0xC8, 0x08, 0x0C, 0x08]);
}

#[test]
fn encoder_emits_six_writes_for_a_data_byte() {
    // cmd = 'h' = 0x68, mode = data (0x01).
    assert_eq!(hex_cmd(0x68, 1), vec![0x69, 0x6D, 0x69, 0x89, 0x8D, 0x89]);
    // cmd = ' ' = 0x20, mode = data.
    assert_eq!(hex_cmd(0x20, 1), vec![0x29, 0x2D, 0x29, 0x09, 0x0D, 0x09]);
}

#[test]
fn encoder_shape_matches_the_nibble_formulas() {
    let cmd: u8 = 0x5A;
    let mode: u8 = 1;
    let first = mode | (cmd & 0xF0);
    let second = mode | ((cmd << 4) & 0xF0);
    let expected = vec![
        first | 0x08,
        first | 0x04 | 0x08,
        (first & !0x04) | 0x08,
        second | 0x08,
        second | 0x04 | 0x08,
        (second & !0x04) | 0x08,
    ];
    assert_eq!(hex_cmd(cmd, mode), expected);
}

#[test]
fn row_address_tables_for_supported_geometries() {
    assert_eq!(row_addresses(1, 16), vec![0x80]);
    assert_eq!(row_addresses(2, 16), vec![0x80, 0xC0]);
    assert_eq!(row_addresses(4, 20), vec![0x80, 0xC0, 0x80 + 20, 0xC0 + 20]);
    assert_eq!(row_addresses(4, 16), vec![0x80, 0xC0, 0x90, 0xD0]);
}

#[test]
fn row_address_table_empty_for_unsupported_geometries() {
    assert_eq!(row_addresses(0, 16), Vec::<u8>::new());
    assert_eq!(row_addresses(3, 16), Vec::<u8>::new());
    assert_eq!(row_addresses(5, 16), Vec::<u8>::new());
    // A four-row display wider than 0x3F columns has no address table.
    assert_eq!(row_addresses(4, 0x40), Vec::<u8>::new());
}

#[test]
fn long_message_is_truncated_to_the_column_count() {
    let plan = build_line_plan(0x80, b"abcdef", 4);
    assert_eq!(plan.len(), 6 * (1 + 4));
    assert_eq!(&plan[0..6], &hex_cmd(0x80, 0)[..]);
    for (c, byte) in [b'a', b'b', b'c', b'd'].into_iter().enumerate() {
        let block = &plan[6 + 6 * c..12 + 6 * c];
        assert_eq!(block, &hex_cmd(byte, 1)[..]);
    }
    // Nothing of 'e' or 'f' appears: the plan ends after column 4.
    assert_eq!(plan.len(), 30);
}

#[test]
fn short_message_is_padded_with_spaces() {
    let plan = build_line_plan(0x80, b"hi", 4);
    assert_eq!(plan.len(), 6 * (1 + 4));
    assert_eq!(&plan[6..12], &hex_cmd(b'h', 1)[..]);
    assert_eq!(&plan[12..18], &hex_cmd(b'i', 1)[..]);
    assert_eq!(&plan[18..24], &hex_cmd(0x20, 1)[..]);
    assert_eq!(&plan[24..30], &hex_cmd(0x20, 1)[..]);
}

#[test]
fn empty_message_fills_the_row_with_spaces() {
    let plan = build_line_plan(0xC0, b"", 3);
    assert_eq!(plan.len(), 24);
    assert_eq!(&plan[0..6], &hex_cmd(0xC0, 0)[..]);
    for c in 0..3 {
        assert_eq!(&plan[6 + 6 * c..12 + 6 * c], &hex_cmd(0x20, 1)[..]);
    }
}

#[test]
fn exact_fit_message_is_neither_truncated_nor_padded() {
    let plan = build_line_plan(0x80, b"ab", 2);
    assert_eq!(plan.len(), 18);
    assert_eq!(&plan[6..12], &hex_cmd(b'a', 1)[..]);
    assert_eq!(&plan[12..18], &hex_cmd(b'b', 1)[..]);
}

#[test]
fn one_line_costs_six_writes_per_logical_byte() {
    for cols in [1usize, 2, 8, 16, 20, 40] {
        let plan = build_line_plan(0x80, b"xyz", cols);
        assert_eq!(plan.len(), 6 * (1 + cols));
    }
}

#[test]
fn write_line_on_a_two_row_display_end_to_end() {
    let lcd = open_lcd();
    let plan = lcd.write_line("hi", 2, 16, 2).unwrap();
    // Row 2 of a two-row display starts at 0xC0, sent as a command byte.
    assert_eq!(&plan[0..6], &[0xC8, 0xCC, 0xC8, 0x08, 0x0C, 0x08]);
    // Then 'h', 'i', then 14 spaces, all as data bytes.
    assert_eq!(&plan[6..12], &[0x69, 0x6D, 0x69, 0x89, 0x8D, 0x89]);
    assert_eq!(&plan[12..18], &hex_cmd(b'i', 1)[..]);
    for c in 2..16 {
        assert_eq!(&plan[6 + 6 * c..12 + 6 * c], &[0x29, 0x2D, 0x29, 0x09, 0x0D, 0x09]);
    }
    // Sixteen data bytes, each expanded six-fold, make 96 data writes;
    // the row-address command byte adds its own six on top.
    assert_eq!(plan.len() - 6, 96);
    assert_eq!(plan.len(), 6 * (1 + 16));
}

#[test]
fn handshake_plan_matches_the_documented_table() {
    let seq = init_sequence();
    let expected: Vec<u8> = [
        [0x08, 0x0c, 0x08, 0x38, 0x3c, 0x38],
        [0x08, 0x0c, 0x08, 0x38, 0x3c, 0x38],
        [0x08, 0x0c, 0x08, 0x38, 0x3c, 0x38],
        [0x08, 0x0c, 0x08, 0x28, 0x2c, 0x28],
        [0x28, 0x2c, 0x28, 0x88, 0x8c, 0x88],
        [0x08, 0x0c, 0x08, 0xc8, 0xcc, 0xc8],
        [0x08, 0x0c, 0x08, 0x18, 0x1c, 0x18],
        [0x08, 0x0c, 0x08, 0x68, 0x6c, 0x68],
        [0x08, 0x0c, 0x08, 0x18, 0x1c, 0x18],
        [0x08, 0x0c, 0x08, 0x28, 0x2c, 0x28],
    ]
    .concat();
    assert_eq!(seq, expected);
}

#[test]
fn init_returns_the_handshake_only_when_requested() {
    let mut lcd = Lcd::default();
    let plan = lcd.init(true).unwrap();
    assert_eq!(plan, init_sequence());

    let mut quiet = Lcd::default();
    assert_eq!(quiet.init(false).unwrap(), Vec::<u8>::new());
}

#[test]
fn init_is_refused_on_a_used_instance() {
    let mut lcd = Lcd::default();
    lcd.init(false).unwrap();
    assert_eq!(lcd.init(true).unwrap_err(), LcdError::AlreadyInitialized);

    let mut closed = Lcd::default();
    closed.init(false).unwrap();
    closed.close().unwrap();
    assert_eq!(closed.init(false).unwrap_err(), LcdError::AlreadyInitialized);
}

#[test]
fn writes_are_rejected_unless_open() {
    let fresh = Lcd::default();
    assert_eq!(fresh.write_line("hi", 2, 16, 1).unwrap_err(), LcdError::NotOpen);

    let mut lcd = open_lcd();
    lcd.close().unwrap();
    assert_eq!(lcd.write_line("hi", 2, 16, 1).unwrap_err(), LcdError::NotOpen);
}

#[test]
fn close_is_guarded() {
    let mut fresh = Lcd::default();
    assert_eq!(fresh.close().unwrap_err(), LcdError::NotOpen);

    let mut lcd = open_lcd();
    lcd.close().unwrap();
    assert_eq!(lcd.close().unwrap_err(), LcdError::NotOpen);
}

#[test]
fn unsupported_geometry_is_a_configuration_error() {
    let lcd = open_lcd();
    assert_eq!(lcd.write_line("hi", 3, 16, 1).unwrap_err(), LcdError::InvalidGeometry);
    assert_eq!(lcd.write_line("hi", 0, 16, 1).unwrap_err(), LcdError::InvalidGeometry);
    assert_eq!(lcd.write_line("hi", 4, 0x40, 1).unwrap_err(), LcdError::InvalidGeometry);
}

#[test]
fn target_row_outside_the_display_is_rejected() {
    let lcd = open_lcd();
    assert_eq!(lcd.write_line("hi", 2, 16, 0).unwrap_err(), LcdError::RowOutOfRange);
    assert_eq!(lcd.write_line("hi", 2, 16, 3).unwrap_err(), LcdError::RowOutOfRange);
    assert_eq!(lcd.write_line("hi", 1, 16, 2).unwrap_err(), LcdError::RowOutOfRange);
    assert!(lcd.write_line("hi", 4, 20, 4).is_ok());
}

#[test]
fn four_row_display_uses_offset_addresses() {
    let lcd = open_lcd();
    let plan = lcd.write_line("x", 4, 20, 3).unwrap();
    // Row 3 starts at 0x80 + 20 = 0x94.
    assert_eq!(&plan[0..6], &hex_cmd(0x94, 0)[..]);
    assert_eq!(plan.len(), 6 * (1 + 20));
}
