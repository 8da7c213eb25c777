use core::fmt::Write;
use fusarium::armv6a::vga_buffer::{Writer, BUFFER, BUFFER_HEIGHT, BUFFER_WIDTH};

#[test]
fn written_text_accumulates() {
    let mut w = Writer::new();
    assert_eq!(w.to_str(), "");
    w.write_string("Hello");
    w.write_string(", world\n");
    assert_eq!(w.to_str(), "Hello, world\n");
}

#[test]
fn a_string_longer_than_a_line_is_dropped() {
    let mut w = Writer::new();
    let long: String = core::iter::repeat('x').take(BUFFER_WIDTH + 1).collect();
    w.write_string(&long);
    assert_eq!(w.to_str(), "");
    let exact: String = core::iter::repeat('y').take(BUFFER_WIDTH).collect();
    w.write_string(&exact);
    assert_eq!(w.to_str(), exact.as_str());
}

#[test]
fn the_text_stops_at_its_capacity() {
    let mut w = Writer::new();
    let line: String = core::iter::repeat('z').take(BUFFER_WIDTH).collect();
    for _ in 0..(BUFFER / BUFFER_WIDTH) {
        w.write_string(&line);
    }
    assert_eq!(w.to_str().len(), BUFFER);
    w.write_string("more");
    assert_eq!(w.to_str().len(), BUFFER);
    assert!(!w.to_str().contains("more"));
}

#[test]
fn many_lines_keep_being_accepted() {
    let mut w = Writer::new();
    for i in 0..(2 * BUFFER_HEIGHT) {
        w.write_string(if i % 2 == 0 { "a" } else { "b" });
    }
    assert_eq!(w.to_str().len(), 2 * BUFFER_HEIGHT);
    assert!(w.to_str().starts_with("abab"));
}

#[test]
fn multibyte_characters_count_in_bytes() {
    let mut w = Writer::new();
    let wide: String = core::iter::repeat('é').take(BUFFER_WIDTH / 2 + 1).collect();
    w.write_string(&wide);
    assert_eq!(w.to_str(), "");
    let fits: String = core::iter::repeat('é').take(BUFFER_WIDTH / 2).collect();
    w.write_string(&fits);
    assert_eq!(w.to_str(), fits.as_str());
}

#[test]
fn fmt_write_goes_through_write_string() {
    let mut w = Writer::new();
    assert!(w.write_str("abc").is_ok());
    assert!(w.write_str("def").is_ok());
    assert_eq!(w.to_str(), "abcdef");
}
