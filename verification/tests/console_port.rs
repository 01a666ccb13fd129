use oxid_os::console::Console;
use oxid_os::fmt::fmt_dec;
use oxid_os::fmt::fmt_hex;
use oxid_os::vga::Color;
use oxid_os::vga::ColorCode;

fn fresh_console() -> Console {
    Console::new(ColorCode::new(Color::LightGray, Color::Black))
}

#[test]
fn consecutive_prints_appear_as_contiguous_blocks() {
    let mut c = fresh_console();
    c.print(b"ab");
    c.print(b"cd");
    // Whole-call serialization: the combined output is the two calls one
    // after the other, never a byte-level interleaving.
    assert_eq!(c.cell(24, 0).ascii_character, b'a');
    assert_eq!(c.cell(24, 1).ascii_character, b'b');
    assert_eq!(c.cell(24, 2).ascii_character, b'c');
    assert_eq!(c.cell(24, 3).ascii_character, b'd');
    assert_eq!(c.column(), 4);
}

#[test]
fn print_dec_renders_decimal_digits() {
    let mut c = fresh_console();
    c.print_dec(1234);
    assert_eq!(c.cell(24, 0).ascii_character, b'1');
    assert_eq!(c.cell(24, 1).ascii_character, b'2');
    assert_eq!(c.cell(24, 2).ascii_character, b'3');
    assert_eq!(c.cell(24, 3).ascii_character, b'4');
}

#[test]
fn print_hex_renders_hex_digits() {
    let mut c = fresh_console();
    c.print_hex(0xf4);
    assert_eq!(c.cell(24, 0).ascii_character, b'f');
    assert_eq!(c.cell(24, 1).ascii_character, b'4');
}

#[test]
fn fmt_dec_exact_values() {
    assert_eq!(fmt_dec(0), vec![b'0']);
    assert_eq!(fmt_dec(7), vec![b'7']);
    assert_eq!(fmt_dec(10), vec![b'1', b'0']);
    assert_eq!(fmt_dec(65535), vec![b'6', b'5', b'5', b'3', b'5']);
}

#[test]
fn fmt_hex_exact_values() {
    assert_eq!(fmt_hex(0), vec![b'0']);
    assert_eq!(fmt_hex(0x10), vec![b'1', b'0']);
    assert_eq!(fmt_hex(0xdeadbeef), vec![b'd', b'e', b'a', b'd', b'b', b'e', b'e', b'f']);
    assert_eq!(fmt_hex(u64::MAX), vec![b'f'; 16]);
}
