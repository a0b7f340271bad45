use codex_ios_platform::buffer::{
    c_string_compatible, host_message_from_output, read_buffer, write_buffer, write_ffi_buffer,
    CALLBACK_MESSAGE_CAPACITY,
};

#[test]
fn read_buffer_stops_at_first_nul() {
    assert_eq!(read_buffer(b"snapshot\0junk"), "snapshot");
}

#[test]
fn read_buffer_without_nul_reads_everything() {
    assert_eq!(read_buffer(b"abc"), "abc");
    assert_eq!(read_buffer(b""), "");
    assert_eq!(read_buffer(b"\0abc"), "");
}

#[test]
fn read_buffer_replaces_invalid_utf8() {
    assert_eq!(read_buffer(&[b'a', 0xff, b'b', 0]), "a\u{fffd}b");
}

#[test]
fn write_buffer_truncates_to_fit_terminator() {
    let mut buffer = Some(vec![9u8; 4]);
    assert_eq!(write_buffer(&mut buffer, "hello"), 3);
    assert_eq!(buffer, Some(vec![b'h', b'e', b'l', 0]));
}

#[test]
fn write_buffer_leaves_rest_of_buffer() {
    let mut buffer = Some(vec![9u8; 6]);
    assert_eq!(write_buffer(&mut buffer, "ab"), 2);
    assert_eq!(buffer, Some(vec![b'a', b'b', 0, 9, 9, 9]));
}

#[test]
fn write_buffer_ignores_null_and_empty_buffers() {
    let mut null = None;
    assert_eq!(write_buffer(&mut null, "x"), 0);
    assert_eq!(null, None);
    let mut empty = Some(Vec::new());
    assert_eq!(write_buffer(&mut empty, "x"), 0);
    assert_eq!(empty, Some(Vec::new()));
}

#[test]
fn write_then_read_gives_message_back() {
    let mut buffer = Some(vec![0xaau8; 32]);
    let message = "swift handled process.spawn";
    write_buffer(&mut buffer, message);
    assert_eq!(read_buffer(buffer.as_ref().unwrap()), message);
}

#[test]
fn write_ffi_buffer_needs_room_for_terminator() {
    let mut exact = Some(vec![7u8; 3]);
    assert!(!write_ffi_buffer(&mut exact, "abc"));
    assert_eq!(exact, Some(vec![7u8; 3]));
    let mut roomy = Some(vec![7u8; 5]);
    assert!(write_ffi_buffer(&mut roomy, "abc"));
    assert_eq!(roomy, Some(vec![b'a', b'b', b'c', 0, 7]));
    let mut null = None;
    assert!(!write_ffi_buffer(&mut null, ""));
}

#[test]
fn c_string_compatibility() {
    assert!(c_string_compatible("plain"));
    assert!(c_string_compatible(""));
    assert!(!c_string_compatible("a\0b"));
}

#[test]
fn host_message_none_when_nothing_written() {
    assert_eq!(host_message_from_output(vec![b'x'; 8], 0), None);
}

#[test]
fn host_message_cut_at_written() {
    let mut output = vec![0u8; CALLBACK_MESSAGE_CAPACITY];
    output[..10].copy_from_slice(b"swift said");
    assert_eq!(host_message_from_output(output, 5), Some("swift".to_string()));
}

#[test]
fn host_message_cut_at_last_byte_when_written_overflows() {
    let output = b"abcdef".to_vec();
    assert_eq!(host_message_from_output(output, 100), Some("abcde".to_string()));
}

#[test]
fn host_message_stops_at_embedded_nul() {
    let output = b"ab\0cdef".to_vec();
    assert_eq!(host_message_from_output(output, 5), Some("ab".to_string()));
}
