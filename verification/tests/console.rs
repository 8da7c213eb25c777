use fusarium::armv6a::console::{QEMUOutput, Statistics};

#[test]
fn newline_becomes_carriage_return_newline() {
    let mut out = QEMUOutput::new();
    assert_eq!(out.serial_write("a\nb"), vec![b'a', b'\r', b'\n', b'b']);
    assert_eq!(out.serial_write(""), Vec::<u8>::new());
    assert_eq!(out.serial_write("\n\n"), vec![13, 10, 13, 10]);
}

#[test]
fn characters_keep_their_low_byte() {
    let mut out = QEMUOutput::new();
    assert_eq!(out.serial_write("é"), vec![0xE9]);
    assert_eq!(out.serial_write("Ā"), vec![0x00]);
}

#[test]
fn written_characters_are_counted() {
    let mut out = QEMUOutput::new();
    assert_eq!(out.chars_written(), 0);
    out.serial_write("hi\n");
    assert_eq!(out.chars_written(), 4);
    out.serial_write("");
    assert_eq!(out.chars_written(), 4);
    out.serial_write("\n");
    assert_eq!(out.chars_written(), 6);
}

#[test]
fn new_output_has_written_nothing() {
    assert_eq!(QEMUOutput::new().chars_written(), 0);
    assert_eq!(QEMUOutput::default().chars_written(), 0);
}

struct Silent;

impl Statistics for Silent {}

#[test]
fn statistics_default_is_zero() {
    assert_eq!(Silent.chars_written(), 0);
}
