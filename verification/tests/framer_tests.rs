//! Tests of the line framer: splitting a raw byte stream into lines across
//! arbitrary read boundaries.

use logpipe::framer::LineFramer;

#[test]
fn line_split_across_two_reads_is_one_line() {
    let mut framer = LineFramer::new();
    let first = framer.push_bytes(b"hel");
    assert!(first.is_empty());
    let second = framer.push_bytes(b"lo\n");
    assert_eq!(second, vec![b"hello".to_vec()]);
    assert_eq!(framer.pending_len(), 0);
}

#[test]
fn two_lines_in_one_read_are_two_frames_in_order() {
    let mut framer = LineFramer::new();
    let lines = framer.push_bytes(b"a\nb\n");
    assert_eq!(lines, vec![b"a".to_vec(), b"b".to_vec()]);
}

#[test]
fn unterminated_content_is_retained_not_dispatched() {
    let mut framer = LineFramer::new();
    let lines = framer.push_bytes(b"abc");
    assert!(lines.is_empty());
    assert_eq!(framer.pending_len(), 3);
    let later = framer.push_bytes(b"\n");
    assert_eq!(later, vec![b"abc".to_vec()]);
    assert_eq!(framer.pending_len(), 0);
}

#[test]
fn empty_line_is_framed_as_empty() {
    let mut framer = LineFramer::new();
    let lines = framer.push_bytes(b"\n\n");
    assert_eq!(lines, vec![b"".to_vec(), b"".to_vec()]);
}

#[test]
fn reassembling_frames_restores_the_stream() {
    let chunks: [&[u8]; 4] = [b"ab", b"c\nde", b"\nf ghi\n", b"tail\n"];
    let mut framer = LineFramer::new();
    let mut rebuilt: Vec<u8> = Vec::new();
    for chunk in chunks {
        for line in framer.push_bytes(chunk) {
            rebuilt.extend_from_slice(&line);
            rebuilt.push(b'\n');
        }
    }
    assert_eq!(framer.pending_len(), 0);
    let mut original: Vec<u8> = Vec::new();
    for chunk in chunks {
        original.extend_from_slice(chunk);
    }
    assert_eq!(rebuilt, original);
}
