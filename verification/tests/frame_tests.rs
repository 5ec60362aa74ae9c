//! Framing behavior: line, folded block and body extraction over
//! arbitrarily chunked input.

use smtp_session::frame::{FrameBuffer, LineStep};

/// Feeds `input` in chunks of `chunk` bytes and returns the first line
/// extracted, or None if the input never completes a line.
fn first_line_chunked(input: &[u8], chunk: usize) -> Option<Vec<u8>> {
    let mut fb = FrameBuffer::new();
    let mut pos = 0;
    loop {
        match fb.try_line() {
            LineStep::Line(l) => return Some(l),
            LineStep::Invalid => panic!("line was not UTF-8"),
            LineStep::NeedMore => {
                if pos >= input.len() {
                    return None;
                }
                let end = (pos + chunk).min(input.len());
                fb.feed(&input[pos..end]);
                pos = end;
            }
        }
    }
}

#[test]
fn read_line_same_for_every_chunking() {
    let input = b"HELO example.com\r\nleftover";
    let whole = first_line_chunked(input, input.len());
    assert_eq!(whole.as_deref(), Some(b"HELO example.com".as_slice()));
    for chunk in 1..input.len() {
        let pieces = first_line_chunked(input, chunk);
        assert_eq!(pieces, whole, "chunk size {} changed the line", chunk);
    }
}

#[test]
fn read_line_one_byte_at_a_time() {
    let input = b"MAIL FROM:<a@b>\r\n";
    assert_eq!(
        first_line_chunked(input, 1).as_deref(),
        Some(b"MAIL FROM:<a@b>".as_slice())
    );
}

#[test]
fn read_line_leaves_trailing_bytes() {
    let mut fb = FrameBuffer::new();
    fb.feed(b"one\r\ntwo\r\n");
    match fb.try_line() {
        LineStep::Line(l) => assert_eq!(l, b"one".to_vec()),
        _ => panic!("expected a line"),
    }
    match fb.try_line() {
        LineStep::Line(l) => assert_eq!(l, b"two".to_vec()),
        _ => panic!("expected a second line"),
    }
    assert!(matches!(fb.try_line(), LineStep::NeedMore));
}

#[test]
fn read_line_rejects_bad_utf8() {
    let mut fb = FrameBuffer::new();
    fb.feed(&[0xff, 0xfe, b'\r', b'\n']);
    assert!(matches!(fb.try_line(), LineStep::Invalid));
}

#[test]
fn read_line_needs_complete_crlf() {
    let mut fb = FrameBuffer::new();
    fb.feed(b"partial\r");
    assert!(matches!(fb.try_line(), LineStep::NeedMore));
    fb.feed(b"\n");
    match fb.try_line() {
        LineStep::Line(l) => assert_eq!(l, b"partial".to_vec()),
        _ => panic!("expected the line once the LF arrived"),
    }
}

/// Feeds `input` split at `split` and returns the body, if the
/// terminator is found.
fn body_split_at(input: &[u8], split: usize) -> Option<Vec<u8>> {
    let mut fb = FrameBuffer::new();
    fb.feed(&input[..split]);
    if let Some(b) = fb.try_body() {
        return Some(b);
    }
    fb.feed(&input[split..]);
    fb.try_body()
}

#[test]
fn terminator_found_at_every_split_point() {
    let input = b"Hello there\r\n.\r\n";
    for split in 1..input.len() {
        let body = body_split_at(input, split);
        assert_eq!(
            body.as_deref(),
            Some(b"Hello there".as_slice()),
            "split at {} missed the terminator",
            split
        );
    }
}

#[test]
fn body_never_contains_terminator() {
    // The body may hold near-terminator bytes; the first full
    // terminator ends it and is not part of it.
    let input = b"x\r\n.y\r\n\r\n.\r\nafter";
    let mut fb = FrameBuffer::new();
    fb.feed(input);
    let body = fb.try_body().expect("terminator is present");
    assert_eq!(body, b"x\r\n.y\r\n".to_vec());
    let window: Vec<&[u8]> = body.windows(5).collect();
    for w in window {
        assert_ne!(w, b"\r\n.\r\n");
    }
    // The bytes after the terminator stay buffered for protocol reuse.
    assert_eq!(fb.buffered(), 5);
}

#[test]
fn body_waits_for_full_terminator() {
    let mut fb = FrameBuffer::new();
    fb.feed(b"body\r\n.\r");
    assert!(fb.try_body().is_none());
    fb.feed(b"\n");
    assert_eq!(fb.try_body().as_deref(), Some(b"body".as_slice()));
}

#[test]
fn folded_block_keeps_continuation_lines() {
    let mut fb = FrameBuffer::new();
    fb.feed(b"Subject: Hello\r\n World\r\nFrom: x\r\n");
    let block = fb.try_folded_block().expect("first block is complete");
    assert_eq!(block, b"Subject: Hello\r\n World".to_vec());
}

#[test]
fn folded_block_waits_for_next_line_start() {
    let mut fb = FrameBuffer::new();
    fb.feed(b"Subject: Hi\r\n");
    // The block cannot end until a non-continuation line begins.
    assert!(fb.try_folded_block().is_none());
    fb.feed(b"X: y\r\nZ");
    assert_eq!(
        fb.try_folded_block().as_deref(),
        Some(b"Subject: Hi".as_slice())
    );
}

#[test]
fn blank_block_ends_headers() {
    let mut fb = FrameBuffer::new();
    fb.feed(b"A: b\r\n\r\nbody\r\n.\r\n");
    assert_eq!(fb.try_folded_block().as_deref(), Some(b"A: b".as_slice()));
    assert_eq!(fb.try_folded_block().as_deref(), Some(b"".as_slice()));
    assert_eq!(fb.try_body().as_deref(), Some(b"body".as_slice()));
}

#[test]
fn block_scan_tolerates_terminator() {
    // Headers end directly at the body terminator: the block reader
    // hands the block out and leaves the terminator for the body
    // reader, which then yields an empty body.
    let mut fb = FrameBuffer::new();
    fb.feed(b"A: b\r\n.\r\nnext");
    assert_eq!(fb.try_folded_block().as_deref(), Some(b"A: b".as_slice()));
    assert_eq!(fb.try_folded_block().as_deref(), Some(b"".as_slice()));
    assert_eq!(fb.try_body().as_deref(), Some(b"".as_slice()));
    assert_eq!(fb.buffered(), 4);
}

#[test]
fn block_scan_waits_on_ambiguous_dot() {
    let mut fb = FrameBuffer::new();
    fb.feed(b"A: b\r\n.");
    // The dot could begin the terminator or an ordinary line.
    assert!(fb.try_folded_block().is_none());
    fb.feed(b"x\r\nY");
    // It was an ordinary line: the first block ends before it.
    assert_eq!(fb.try_folded_block().as_deref(), Some(b"A: b".as_slice()));
    assert_eq!(fb.try_folded_block().as_deref(), Some(b".x".as_slice()));
}
