//! Tests for the UTF-8 boundary scanner and the output coalescer.

use ptykit::coalesce::Coalescer;
use ptykit::utf8::utf8_boundary;

#[test]
fn empty_buffer_is_zero() {
    assert_eq!(utf8_boundary(&[]), 0);
}

#[test]
fn pure_ascii_returns_full_length() {
    let data = b"hello, world! $ ls -la\r\n";
    assert_eq!(utf8_boundary(data), data.len());
}

#[test]
fn complete_multibyte_returns_full_length() {
    let data = "caf\u{e9} \u{20ac} \u{1f4a0}".as_bytes();
    assert_eq!(utf8_boundary(data), data.len());
}

#[test]
fn truncated_two_byte_sequence_is_cut() {
    // 0xC3 opens a two-byte sequence that never finishes.
    assert_eq!(utf8_boundary(&[b'a', b'b', 0xC3]), 2);
}

#[test]
fn truncated_three_byte_sequence_is_cut() {
    // 0xE2 0x82 is the first two bytes of a three-byte sequence.
    assert_eq!(utf8_boundary(&[b'a', b'b', 0xE2, 0x82]), 2);
}

#[test]
fn truncated_four_byte_sequence_is_cut() {
    // 0xF0 0x9F 0x92 is the first three bytes of a four-byte sequence.
    assert_eq!(utf8_boundary(&[b'a', 0xF0, 0x9F, 0x92]), 1);
}

#[test]
fn lone_leading_byte_at_end_is_cut() {
    assert_eq!(utf8_boundary(&[b'x', 0xF0]), 1);
}

#[test]
fn only_continuation_bytes_pass_through() {
    // Garbage that cannot be the start of a truncated sequence is let
    // through whole; lossy decoding replaces it downstream.
    assert_eq!(utf8_boundary(&[0x80, 0x80]), 2);
}

#[test]
fn coalescer_joins_burst_into_one_chunk() {
    let mut c = Coalescer::new();
    let out = c.push_chunks(b"a".to_vec(), vec![b"b".to_vec(), b"c".to_vec()]);
    assert_eq!(out, "abc");
}

#[test]
fn coalescer_never_splits_a_character() {
    let mut c = Coalescer::new();
    // "h\u{e9}llo" with the two-byte e-acute split across two reads.
    let out1 = c.push_chunks(vec![b'h', 0xC3], vec![]);
    assert_eq!(out1, "h");
    let out2 = c.push_chunks(vec![0xA9, b'l', b'l', b'o'], vec![]);
    assert_eq!(out2, "\u{e9}llo");
    let tail = c.finish();
    assert_eq!(tail, "");
}

#[test]
fn coalescer_conserves_bytes_in_order() {
    // Delivered chunks, concatenated in delivery order, equal the bytes
    // produced, whatever the read boundaries were.
    let text = "ls\r\n\u{1b}[2K\u{1b}[1Gcaf\u{e9} \u{20ac} \u{1f4a9}\r\n";
    let bytes = text.as_bytes();
    let mut delivered = String::new();
    let mut c = Coalescer::new();
    for piece in bytes.chunks(3) {
        delivered.push_str(&c.push_chunks(piece.to_vec(), vec![]));
    }
    delivered.push_str(&c.finish());
    assert_eq!(delivered, text);
}

#[test]
fn coalescer_flushes_leftover_lossily_at_end_of_stream() {
    let mut c = Coalescer::new();
    let out = c.push_chunks(vec![b'o', b'k', 0xE2], vec![]);
    assert_eq!(out, "ok");
    // The stream ends with a truncated sequence: flushed as U+FFFD.
    let tail = c.finish();
    assert_eq!(tail, "\u{fffd}");
}

#[test]
fn lossy_decoding_replaces_invalid_interior_bytes() {
    let mut c = Coalescer::new();
    // 0xFF can never appear in UTF-8; it survives the boundary check and
    // is replaced during decoding rather than failing.
    let out = c.push_chunks(vec![b'a', 0xFF, b'b'], vec![]);
    assert_eq!(out, "a\u{fffd}b");
}
