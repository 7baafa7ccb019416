use sheila::line_buffer::{join, LineBuffer};

#[test]
fn complete_lines_are_handed_out_and_the_rest_is_kept() {
    let mut buffer = LineBuffer::new();
    buffer.feed(b"one\ntwo\nthr");
    assert_eq!(buffer.read_line().as_deref(), Some("one"));
    assert_eq!(buffer.read_line().as_deref(), Some("two"));
    assert_eq!(buffer.read_line(), None);
    buffer.feed(b"ee\n");
    assert_eq!(buffer.read_line().as_deref(), Some("three"));
    assert_eq!(buffer.read_line(), None);
    assert!(buffer.is_empty());
}

#[test]
fn the_rest_is_handed_out_once_when_the_stream_has_ended() {
    let mut buffer = LineBuffer::new();
    buffer.push_str("partial");
    assert_eq!(buffer.read_line(), None);
    buffer.close();
    assert_eq!(buffer.read_line().as_deref(), Some("partial"));
    assert_eq!(buffer.read_line(), None);
}

#[test]
fn empty_lines_are_lines() {
    let mut buffer = LineBuffer::new();
    buffer.push_str("\n\nx\n");
    assert_eq!(buffer.read_line().as_deref(), Some(""));
    assert_eq!(buffer.read_line().as_deref(), Some(""));
    assert_eq!(buffer.read_line().as_deref(), Some("x"));
    assert_eq!(buffer.read_line(), None);
}

#[test]
fn bytes_that_are_no_text_are_replaced() {
    let mut buffer = LineBuffer::new();
    buffer.feed(&[b'a', 0xff, b'\n']);
    assert_eq!(buffer.read_line().as_deref(), Some("a\u{fffd}"));
}

#[test]
fn flush_hands_out_what_is_left() {
    let mut buffer = LineBuffer::new();
    assert_eq!(buffer.flush_remaining(), None);
    buffer.push_str("a\nb");
    assert_eq!(buffer.flush_remaining().as_deref(), Some("a\nb"));
    assert_eq!(buffer.flush_remaining(), None);
}

#[test]
fn take_lines_hands_out_as_many_as_there_are() {
    let mut buffer = LineBuffer::new();
    buffer.push_str("a\nb\nc\n");
    assert_eq!(buffer.take_lines(2), vec!["a".to_string(), "b".to_string()]);
    assert_eq!(buffer.take_lines(2), vec!["c".to_string()]);
    assert!(buffer.take_lines(2).is_empty());
    assert!(buffer.take_lines(0).is_empty());
}

#[test]
fn read_pair_needs_two_lines() {
    let mut buffer = LineBuffer::new();
    buffer.push_str("a\nb\nc\n");
    assert_eq!(buffer.read_pair(), Some(("a".to_string(), "b".to_string())));
    assert_eq!(buffer.read_pair(), None);
    assert_eq!(buffer.read_line(), None);
}

#[test]
fn panic_group_is_header_and_message() {
    let mut buffer = LineBuffer::new();
    buffer.push_str("\nthread 'a' panicked at src/lib.rs:1:2:\nboom\nnote: run with `RUST_BACKTRACE=1` environment variable\n");
    assert_eq!(
        buffer.read_panic_group().as_deref(),
        Some("thread 'a' panicked at src/lib.rs:1:2:\nboom")
    );
    assert_eq!(buffer.read_panic_group(), None);
    assert_eq!(buffer.read_line(), None);
}

#[test]
fn panic_group_needs_a_header() {
    let mut buffer = LineBuffer::new();
    buffer.push_str("a\nb\nc\nd\ne\n");
    assert_eq!(buffer.read_panic_group(), None);
    assert_eq!(buffer.read_line().as_deref(), Some("e"));
}

#[test]
fn panic_group_stops_at_noise() {
    let mut buffer = LineBuffer::new();
    buffer.push_str("thread 'a' panicked at x.rs:1:2:\nstack backtrace:\nrest\n");
    assert_eq!(buffer.read_panic_group(), None);
    assert_eq!(buffer.read_line().as_deref(), Some("rest"));
}

#[test]
fn panic_group_may_start_with_another_line() {
    let mut buffer = LineBuffer::new();
    buffer.push_str("warning\nthread 'a' panicked at x.rs:1:2:\nboom\n");
    assert_eq!(
        buffer.read_panic_group().as_deref(),
        Some("warning\nthread 'a' panicked at x.rs:1:2:")
    );
}

#[test]
fn lines_are_joined_by_line_breaks() {
    assert_eq!(join(&vec![]), "");
    assert_eq!(join(&vec!["a".to_string()]), "a");
    assert_eq!(join(&vec!["a".to_string(), "".to_string(), "b".to_string()]), "a\n\nb");
}
