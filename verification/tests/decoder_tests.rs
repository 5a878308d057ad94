use bytes::{BufMut, BytesMut};
use espclient::decoder::EspDecoder;
use espclient::error::EspError;
use espclient::event::{EspEvent, EspStream};

fn consume(dec: &mut EspDecoder, bytes: &mut BytesMut) -> Vec<Result<Option<EspEvent>, EspError>> {
    let mut result = Vec::new();
    loop {
        match dec.decode(bytes) {
            Ok(None) => {
                break;
            }
            output => result.push(output),
        }
    }
    result
}

fn drain_events(dec: &mut EspDecoder, bytes: &mut BytesMut) -> Vec<EspEvent> {
    consume(dec, bytes)
        .into_iter()
        .map(|r| r.unwrap().unwrap())
        .collect()
}

#[test]
fn unfinished_line() {
    let mut dec = EspDecoder::new(4096);
    let mut bytes = BytesMut::from(&*b"unfinished line".to_vec());
    let result = consume(&mut dec, &mut bytes);

    assert_eq!(result, vec![],);
}

#[test]
fn empty_buffer_returns_none() {
    let mut dec = EspDecoder::new(4096);
    let mut bytes = BytesMut::new();
    assert_eq!(dec.decode(&mut bytes), Ok(None));
    assert_eq!(dec.decode(&mut bytes), Ok(None));
}

#[test]
fn empty_lines_suppressed() {
    let mut dec = EspDecoder::new(4096);
    let mut bytes = BytesMut::from(&b"\n\n"[..]);
    assert_eq!(drain_events(&mut dec, &mut bytes), vec![]);

    let mut dec = EspDecoder::new(4096);
    let mut bytes = BytesMut::from(&b"a\n\n"[..]);
    assert_eq!(
        drain_events(&mut dec, &mut bytes),
        vec![EspEvent::Line("a".to_string())]
    );
}

#[test]
fn stream_switch_with_empty_buffer() {
    let mut dec = EspDecoder::new(4096);
    let mut bytes = BytesMut::from(&[0x84u8][..]);
    assert_eq!(
        drain_events(&mut dec, &mut bytes),
        vec![EspEvent::Stream(EspStream::Log)]
    );
    assert_eq!(dec.get_current_stream(), EspStream::Log);
}

#[test]
fn stream_switch_with_buffered_content() {
    let mut dec = EspDecoder::new(4096);
    let mut bytes = BytesMut::from(&b"hello"[..]);
    assert_eq!(dec.decode(&mut bytes), Ok(None));
    assert_eq!(dec.get_current_stream(), EspStream::Unknown);

    bytes.put(&[0x84u8][..]);
    // The call that consumes the control byte surfaces the buffered line.
    assert_eq!(
        dec.decode(&mut bytes),
        Ok(Some(EspEvent::Line("hello".to_string())))
    );
    // The update of the current stream is deferred until the queued event
    // is actually dequeued on the following call.
    assert_eq!(dec.get_current_stream(), EspStream::Unknown);
    // The next call, with no new input, surfaces the queued stream change.
    assert_eq!(
        dec.decode(&mut bytes),
        Ok(Some(EspEvent::Stream(EspStream::Log)))
    );
    assert_eq!(dec.get_current_stream(), EspStream::Log);
    assert_eq!(dec.decode(&mut bytes), Ok(None));
}

#[test]
fn overflow_truncation() {
    let mut dec = EspDecoder::new(4);
    let mut bytes = BytesMut::from(&b"abcdef\n"[..]);
    assert_eq!(
        drain_events(&mut dec, &mut bytes),
        vec![EspEvent::Line("abcd".to_string())]
    );
}

#[test]
fn lossy_decoding_replaces_invalid_bytes() {
    let mut dec = EspDecoder::new(4096);
    let mut bytes = BytesMut::from(&[0xFFu8, 0x41u8, 0x0Au8][..]);
    let events = drain_events(&mut dec, &mut bytes);
    assert_eq!(events.len(), 1);
    match &events[0] {
        EspEvent::Line(text) => {
            assert!(text.contains('\u{FFFD}'));
            assert_eq!(text, "\u{FFFD}A");
        }
        other => panic!("expected a line, got {:?}", other),
    }
}

#[test]
fn tag_mapping_is_exact() {
    let table: [(u8, EspStream); 9] = [
        (0x00, EspStream::Unknown),
        (0x80, EspStream::Prompt),
        (0x81, EspStream::Result),
        (0x82, EspStream::Output),
        (0x83, EspStream::Exception),
        (0x84, EspStream::Log),
        (0x85, EspStream::SetPrompt),
        (0x86, EspStream::StateVec),
        (0x87, EspStream::Status),
    ];
    for (byte, tag) in table {
        let mut dec = EspDecoder::new(4096);
        let mut bytes = BytesMut::from(&[byte][..]);
        assert_eq!(
            drain_events(&mut dec, &mut bytes),
            vec![EspEvent::Stream(tag)]
        );
        assert_eq!(dec.get_current_stream(), tag);
        assert_eq!(EspStream::from(byte), tag);
    }
}

#[test]
fn bytes_outside_control_set_are_ordinary() {
    // 0x7F and 0x88 sit just outside the control-byte set and must be
    // treated as line payload, never as stream switches.
    let mut dec = EspDecoder::new(4096);
    let mut bytes = BytesMut::from(&[0x79u8, 0x7Fu8, 0x88u8, 0x0Au8][..]);
    let events = drain_events(&mut dec, &mut bytes);
    assert_eq!(events.len(), 1);
    match &events[0] {
        EspEvent::Line(text) => assert_eq!(text, "y\u{7F}\u{FFFD}"),
        other => panic!("expected a line, got {:?}", other),
    }
}

#[test]
fn chunk_boundary_invariance_scenario() {
    let stream: Vec<u8> = b"ab\ncd".iter().copied()
        .chain([0x84u8])
        .chain(b"efg\n\nh\n".iter().copied())
        .collect();

    let mut dec = EspDecoder::new(4096);
    let mut whole = BytesMut::from(&stream[..]);
    let at_once = drain_events(&mut dec, &mut whole);

    let mut dec = EspDecoder::new(4096);
    let mut buf = BytesMut::new();
    let mut byte_by_byte = Vec::new();
    for b in &stream {
        buf.put(&[*b][..]);
        byte_by_byte.extend(drain_events(&mut dec, &mut buf));
    }

    assert_eq!(at_once, byte_by_byte);
    assert_eq!(
        at_once,
        vec![
            EspEvent::Line("ab".to_string()),
            EspEvent::Line("cd".to_string()),
            EspEvent::Stream(EspStream::Log),
            EspEvent::Line("efg".to_string()),
            EspEvent::Line("h".to_string()),
        ]
    );
}

#[test]
fn errors_compare_by_kind() {
    let a = EspError::Io(std::io::ErrorKind::ConnectionReset);
    let b = EspError::Io(std::io::ErrorKind::ConnectionReset);
    let c = EspError::Io(std::io::ErrorKind::TimedOut);
    assert_eq!(a, b);
    assert_ne!(a, c);
}
