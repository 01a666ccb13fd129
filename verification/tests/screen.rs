use oxid_os::vga::Color;
use oxid_os::vga::ColorCode;
use oxid_os::vga::Writer;
use oxid_os::vga::BLANK_BYTE;
use oxid_os::vga::NEWLINE_BYTE;
use oxid_os::vga::PLACEHOLDER_BYTE;

fn fresh_writer() -> Writer {
    Writer::new(ColorCode::new(Color::Yellow, Color::Black))
}

#[test]
fn color_code_packs_foreground_and_background() {
    assert_eq!(ColorCode::new(Color::Yellow, Color::Black).0, 0x0e);
    assert_eq!(ColorCode::new(Color::White, Color::Blue).0, 0x1f);
    assert_eq!(ColorCode::new(Color::Black, Color::Black).0, 0x00);
}

#[test]
fn short_line_reads_back_left_aligned() {
    let mut w = fresh_writer();
    w.write_string(b"Hello");
    assert_eq!(w.column(), 5);
    let expected = b"Hello";
    for (i, &b) in expected.iter().enumerate() {
        let cell = w.cell(24, i);
        assert_eq!(cell.ascii_character, b);
        assert_eq!(cell.color_code, 0x0e);
    }
    for col in 5..80 {
        let cell = w.cell(24, col);
        assert_eq!(cell.ascii_character, BLANK_BYTE);
        assert_eq!(cell.color_code, 0x0e);
    }
}

#[test]
fn newline_resets_column_and_carries_nothing() {
    let mut w = fresh_writer();
    w.write_string(b"ab\ncd");
    assert_eq!(w.column(), 2);
    assert_eq!(w.cell(23, 0).ascii_character, b'a');
    assert_eq!(w.cell(23, 1).ascii_character, b'b');
    assert_eq!(w.cell(24, 0).ascii_character, b'c');
    assert_eq!(w.cell(24, 1).ascii_character, b'd');
    for col in 2..80 {
        assert_eq!(w.cell(24, col).ascii_character, BLANK_BYTE);
    }
}

#[test]
fn scrolling_discards_earliest_lines_first() {
    let mut w = fresh_writer();
    // 26 one-character lines into a 25-row buffer: 'A' and 'B' must be gone.
    for i in 0..26u8 {
        w.write_byte(0x41 + i);
        w.write_byte(NEWLINE_BYTE);
    }
    assert_eq!(w.cell(0, 0).ascii_character, b'C');
    assert_eq!(w.cell(23, 0).ascii_character, b'Z');
    for col in 0..80 {
        assert_eq!(w.cell(24, col).ascii_character, BLANK_BYTE);
    }
    for row in 0..25 {
        assert_ne!(w.cell(row, 0).ascii_character, b'A');
        assert_ne!(w.cell(row, 0).ascii_character, b'B');
    }
}

#[test]
fn full_row_fills_last_cell_then_wraps() {
    let mut w = fresh_writer();
    for _ in 0..80 {
        w.write_byte(b'x');
    }
    assert_eq!(w.column(), 80);
    assert_eq!(w.cell(24, 79).ascii_character, b'x');
    w.write_byte(b'y');
    assert_eq!(w.column(), 1);
    assert_eq!(w.cell(24, 0).ascii_character, b'y');
    // The filled row moved up intact, its final cell included.
    assert_eq!(w.cell(23, 0).ascii_character, b'x');
    assert_eq!(w.cell(23, 79).ascii_character, b'x');
}

#[test]
fn non_printable_byte_renders_placeholder() {
    let mut w = fresh_writer();
    w.write_byte(0x01);
    w.write_byte(0x7f);
    w.write_byte(b' ');
    w.write_byte(b'~');
    assert_eq!(w.cell(24, 0).ascii_character, PLACEHOLDER_BYTE);
    assert_eq!(w.cell(24, 1).ascii_character, PLACEHOLDER_BYTE);
    assert_eq!(w.cell(24, 2).ascii_character, b' ');
    assert_eq!(w.cell(24, 3).ascii_character, b'~');
}

#[test]
fn clear_row_blanks_every_cell() {
    let mut w = fresh_writer();
    w.write_string(b"something");
    w.clear_row(24);
    for col in 0..80 {
        assert_eq!(w.cell(24, col).ascii_character, BLANK_BYTE);
    }
    // Clearing does not move the cursor.
    assert_eq!(w.column(), 9);
}

#[test]
fn empty_write_changes_nothing() {
    let mut w = fresh_writer();
    w.write_string(b"");
    assert_eq!(w.column(), 0);
    for col in 0..80 {
        assert_eq!(w.cell(24, col).ascii_character, BLANK_BYTE);
    }
}

#[test]
fn write_string_is_byte_by_byte_in_order() {
    let mut a = fresh_writer();
    let mut b = fresh_writer();
    let text = b"one line\nand exactly another, somewhat longer one\nplus a third";
    a.write_string(text);
    for &byte in text.iter() {
        b.write_byte(byte);
    }
    assert_eq!(a.column(), b.column());
    for row in 0..25 {
        for col in 0..80 {
            assert_eq!(a.cell(row, col), b.cell(row, col));
        }
    }
}

#[test]
fn color_value_is_palette_index() {
    assert_eq!(Color::Black.value(), 0);
    assert_eq!(Color::LightGray.value(), 7);
    assert_eq!(Color::White.value(), 15);
    assert_eq!(fresh_writer().color().0, 0x0e);
}
