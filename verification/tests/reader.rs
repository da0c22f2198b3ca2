use terminal_sessions::reader::{
    decode, Notification, OutputReader, ReadOutcome, Reading, READ_BUFFER_SIZE,
};

fn output(id: u32, data: &str, notification: Option<Notification>) {
    match notification {
        Some(Notification::Output { id: got_id, data: got }) => {
            assert_eq!(got_id, id);
            assert_eq!(got, data);
        }
        other => panic!("expected output, got {:?}", other),
    }
}

fn closed(id: u32, diagnostic: Option<&str>, notification: Option<Notification>) {
    match notification {
        Some(Notification::Closed { id: got_id, diagnostic: got }) => {
            assert_eq!(got_id, id);
            assert_eq!(got.as_deref(), diagnostic);
        }
        other => panic!("expected closure, got {:?}", other),
    }
}

#[test]
fn buffer_holds_four_kibibytes() {
    assert_eq!(READ_BUFFER_SIZE, 4096);
}

#[test]
fn bytes_are_announced_as_output() {
    let mut reader = OutputReader::new(3);
    assert_eq!(reader.id(), 3);
    output(3, "hello\r\n", reader.on_read(ReadOutcome::Bytes(b"hello\r\n".to_vec())));
    assert!(!reader.is_finished());
}

#[test]
fn malformed_bytes_are_replaced_not_fatal() {
    let mut reader = OutputReader::new(1);
    output(1, "hi\u{fffd}!", reader.on_read(ReadOutcome::Bytes(vec![0x68, 0x69, 0xff, 0x21])));
    output(1, "\u{fffd}", reader.on_read(ReadOutcome::Bytes(vec![0xc3])));
    output(1, "é", reader.on_read(ReadOutcome::Bytes(vec![0xc3, 0xa9])));
    assert!(!reader.is_finished());
}

#[test]
fn decoding_tells_end_from_text() {
    assert!(matches!(decode(ReadOutcome::Bytes(Vec::new())), Reading::End));
    match decode(ReadOutcome::Bytes(vec![0x61, 0x80])) {
        Reading::Text(text) => assert_eq!(text, "a\u{fffd}"),
        other => panic!("expected text, got {:?}", other),
    }
    match decode(ReadOutcome::Failed("EIO".to_string())) {
        Reading::Failed(detail) => assert_eq!(detail, "EIO"),
        other => panic!("expected failure, got {:?}", other),
    }
}

#[test]
fn end_of_stream_closes_the_session() {
    let mut reader = OutputReader::new(8);
    closed(8, None, reader.on_read(ReadOutcome::Bytes(Vec::new())));
    assert!(reader.is_finished());
}

#[test]
fn failed_read_closes_the_session_with_a_log_line() {
    let mut reader = OutputReader::new(12);
    closed(
        12,
        Some("Error reading from terminal 12: Input/output error"),
        reader.on_read(ReadOutcome::Failed("Input/output error".to_string())),
    );
    assert!(reader.is_finished());
}

#[test]
fn outputs_keep_the_order_of_the_reads() {
    let mut reader = OutputReader::new(2);
    let chunks = ["e", "ch", "o ", "one\n", "two\n"];
    let mut seen = String::new();
    for chunk in chunks {
        match reader.on_read(ReadOutcome::Bytes(chunk.as_bytes().to_vec())) {
            Some(Notification::Output { id, data }) => {
                assert_eq!(id, 2);
                seen.push_str(&data);
            }
            other => panic!("expected output, got {:?}", other),
        }
    }
    assert_eq!(seen, "echo one\ntwo\n");
}

#[test]
fn one_closure_and_no_output_after_it() {
    let mut reader = OutputReader::new(4);
    let mut closures = 0;
    let mut outputs_after_closure = 0;
    let reads = vec![
        ReadOutcome::Bytes(b"a".to_vec()),
        ReadOutcome::Bytes(Vec::new()),
        ReadOutcome::Bytes(b"late".to_vec()),
        ReadOutcome::Failed("gone".to_string()),
        ReadOutcome::Bytes(Vec::new()),
    ];
    for read in reads {
        match reader.on_read(read) {
            Some(Notification::Closed { id, .. }) => {
                assert_eq!(id, 4);
                closures += 1;
            }
            Some(Notification::Output { .. }) => {
                if closures > 0 {
                    outputs_after_closure += 1;
                }
            }
            None => assert!(reader.is_finished()),
        }
    }
    assert_eq!(closures, 1);
    assert_eq!(outputs_after_closure, 0);
}

#[test]
fn stopped_reader_is_silent_for_readings_too() {
    let mut reader = OutputReader::new(6);
    closed(6, None, reader.on_reading(Reading::End));
    assert!(reader.on_reading(Reading::Text("x".to_string())).is_none());
    assert!(reader.on_reading(Reading::Failed("y".to_string())).is_none());
    assert!(reader.on_reading(Reading::End).is_none());
}

#[test]
fn readings_are_passed_on_as_they_are() {
    let mut reader = OutputReader::new(10);
    output(10, "", reader.on_reading(Reading::Text(String::new())));
    output(10, "päth", reader.on_reading(Reading::Text("päth".to_string())));
}

#[test]
fn notifications_travel_under_their_event_names() {
    let out = Notification::Output { id: 1, data: "x".to_string() };
    let end = Notification::Closed { id: 1, diagnostic: None };
    assert_eq!(out.event_name(), "terminal-output");
    assert_eq!(end.event_name(), "terminal-closed");
}
