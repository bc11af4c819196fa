use exiftool::{
    decode_response, encode_request, make_sentinels, parse_u8_decimal, reader_step,
    tail_contains_terminator, ExifToolOutput, ProtocolError, ReadEvent, ReaderAction,
    STATUS_DELIM,
};

fn b(s: &str) -> Vec<u8> {
    s.as_bytes().to_vec()
}

#[test]
fn trim_removes_trailing_tabs_and_spaces() {
    let mut v = b("abc \t ");
    exiftool::trim_end(&mut v);
    assert_eq!(v, b("abc"));
}

#[test]
fn trim_keeps_trailing_newline() {
    let mut v = b("abc\n");
    exiftool::trim_end(&mut v);
    assert_eq!(v, b("abc\n"));
}

#[test]
fn trim_all_whitespace_becomes_empty() {
    let mut v = b(" \t\t  ");
    exiftool::trim_end(&mut v);
    assert_eq!(v, b(""));
}

#[test]
fn whitespace_predicates() {
    assert!(exiftool::is_whitespace(&b'\t'));
    assert!(exiftool::is_whitespace(&b' '));
    assert!(!exiftool::is_whitespace(&b'\n'));
    assert!(exiftool::is_not_whitespace(&b'x'));
    assert!(!exiftool::is_not_whitespace(&b' '));
}

#[test]
fn sentinels_layout() {
    let s = make_sentinels(b"99");
    assert_eq!(s.ready, b("{ready99}"));
    assert_eq!(s.err_post, b("post99"));
    assert_eq!(s.execute, b("-execute99"));
}

#[test]
fn sentinels_distinct_for_empty_id() {
    let s = make_sentinels(b"");
    assert_ne!(s.ready, s.err_post);
    assert_ne!(s.ready, s.execute);
    assert_ne!(s.err_post, s.execute);
}

#[test]
fn encode_request_layout() {
    let s = make_sentinels(b"7");
    let params = vec![b("-b"), b("file.jpg")];
    let msg = encode_request(&params, &s);
    assert_eq!(msg, b("-b\nfile.jpg\n-echo4\n=${status}=post7\n-execute7\n"));
}

#[test]
fn encode_request_empty_params() {
    let s = make_sentinels(b"0");
    let params: Vec<Vec<u8>> = vec![];
    let msg = encode_request(&params, &s);
    assert_eq!(msg, b("-echo4\n=${status}=post0\n-execute0\n"));
}

#[test]
fn reader_accumulates_until_terminator() {
    // Terminator "{ready99}", chunks "hello " then "{ready99}": the
    // reader must hand back "hello {ready99}" and stop after the second
    // chunk.
    let term = b("{ready99}");
    let mut acc: Vec<u8> = Vec::new();
    let a1 = reader_step(&mut acc, ReadEvent::Chunk(b("hello ")), &term);
    assert_eq!(a1, ReaderAction::Continue);
    assert_eq!(acc, b("hello "));
    let a2 = reader_step(&mut acc, ReadEvent::Chunk(b("{ready99}")), &term);
    assert_eq!(a2, ReaderAction::Done);
    assert_eq!(acc, b("hello {ready99}"));
}

#[test]
fn reader_pauses_on_empty_read() {
    let term = b("{ready1}");
    let mut acc = b("partial");
    let a = reader_step(&mut acc, ReadEvent::Chunk(Vec::new()), &term);
    assert_eq!(a, ReaderAction::Pause);
    assert_eq!(acc, b("partial"));
}

#[test]
fn reader_stops_on_failed_read() {
    let term = b("{ready1}");
    let mut acc = b("truncated data");
    let a = reader_step(&mut acc, ReadEvent::Failed, &term);
    assert_eq!(a, ReaderAction::Done);
    assert_eq!(acc, b("truncated data"));
}

#[test]
fn reader_scans_only_the_tail_window() {
    // The terminator sits at the front, outside the scanned tail window
    // of terminator length plus two: the reader must keep reading.
    let term = b("{ready99}");
    let acc = b("{ready99}0123456789ABC");
    assert!(!tail_contains_terminator(&acc, &term));
    // Near the end, within the window, it is found.
    let acc2 = b("data{ready99}x");
    assert!(tail_contains_terminator(&acc2, &term));
}

#[test]
fn decode_recovers_status_and_error_text() {
    // Error stream "warning text=5=post1234" with post-marker "post1234"
    // and delimiter '=': status 5, error text "warning text".
    let r = decode_response(Vec::new(), b("warning text=5=post1234"), &b(""), &b("post1234"),
        STATUS_DELIM);
    let out: ExifToolOutput = r.expect("well-formed error stream must decode");
    assert_eq!(out.status, 5);
    assert_eq!(out.error, b("warning text"));
    assert_eq!(out.output, b(""));
}

#[test]
fn decode_missing_final_delimiter_fails() {
    // An error stream lacking the final delimiter must fail with the
    // protocol violation, never silently yield status 0.
    let r = decode_response(Vec::new(), b("warning text 5 post1234"), &b(""), &b("post1234"),
        STATUS_DELIM);
    assert_eq!(r.err().expect("must fail"), ProtocolError::MissingStatusDelimiter);
}

#[test]
fn decode_unterminated_status_field_fails() {
    let r = decode_response(Vec::new(), b("=post9"), &b(""), &b("post9"), STATUS_DELIM);
    assert_eq!(r.err().expect("must fail"), ProtocolError::UnterminatedStatusField);
}

#[test]
fn decode_malformed_status_code_fails() {
    let r = decode_response(Vec::new(), b("x=ab=post9"), &b(""), &b("post9"), STATUS_DELIM);
    assert_eq!(r.err().expect("must fail"), ProtocolError::MalformedStatusCode);
    let r2 = decode_response(Vec::new(), b("x=256=post9"), &b(""), &b("post9"), STATUS_DELIM);
    assert_eq!(r2.err().expect("must fail"), ProtocolError::MalformedStatusCode);
    let r3 = decode_response(Vec::new(), b("x==post9"), &b(""), &b("post9"), STATUS_DELIM);
    assert_eq!(r3.err().expect("must fail"), ProtocolError::MalformedStatusCode);
}

#[test]
fn decode_short_buffers_fail() {
    let r = decode_response(b("x"), b("=0=post9"), &b("{ready9}"), &b("post9"), STATUS_DELIM);
    assert_eq!(r.err().expect("must fail"), ProtocolError::OutputShorterThanMarker);
    let r2 = decode_response(b("{ready9}"), b("ost9"), &b("{ready9}"), &b("post9"), STATUS_DELIM);
    assert_eq!(r2.err().expect("must fail"), ProtocolError::ErrorShorterThanMarker);
}

#[test]
fn decode_blank_streams_yield_empty_buffers() {
    // Streams carrying nothing but markers, status field, and trailing
    // horizontal whitespace decode to empty output and error, not to a
    // failure.
    let r = decode_response(b("{ready7} \t"), b("=0=post7  "), &b("{ready7}"), &b("post7"),
        STATUS_DELIM);
    let out = r.expect("blank response must decode");
    assert_eq!(out.status, 0);
    assert_eq!(out.output, b(""));
    assert_eq!(out.error, b(""));
}

#[test]
fn prepare_call_fixes_message_and_sentinels() {
    let params = vec![b("-S"), b("a.jpg")];
    let plan = exiftool::prepare_call(&params, b"12");
    assert_eq!(plan.message, b("-S\na.jpg\n-echo4\n=${status}=post12\n-execute12\n"));
    assert_eq!(plan.sentinels.ready, b("{ready12}"));
    assert_eq!(plan.sentinels.err_post, b("post12"));
    assert_eq!(plan.sentinels.execute, b("-execute12"));
}

#[test]
fn round_trip_recovers_texts_byte_for_byte() {
    // Encode a request, answer it as a deterministic child would, and
    // decode: the output and error texts come back unchanged.
    let s = make_sentinels(b"42");
    let params = vec![b("-S"), b("a.jpg")];
    let msg = encode_request(&params, &s);
    assert!(msg.ends_with(b"-execute42\n"));

    let mut raw_out = b("OUT DATA ");
    raw_out.extend_from_slice(&s.ready);
    let mut raw_err = b("warn");
    raw_err.extend_from_slice(b"=1=");
    raw_err.extend_from_slice(&s.err_post);

    let out = decode_response(raw_out, raw_err, &s.ready, &s.err_post, STATUS_DELIM)
        .expect("echoed response must decode");
    assert_eq!(out.status, 1);
    assert_eq!(out.output, b("OUT DATA "));
    assert_eq!(out.error, b("warn"));
}

#[test]
fn decoding_is_deterministic_across_repeated_calls() {
    // The same raw response decoded twice yields identical results, as a
    // repeated call against a deterministic child would.
    let s = make_sentinels(b"8");
    let make_raw = || (b("out{ready8}"), b("e=3=post8"));
    let (o1, e1) = make_raw();
    let (o2, e2) = make_raw();
    let r1 = decode_response(o1, e1, &s.ready, &s.err_post, STATUS_DELIM).unwrap();
    let r2 = decode_response(o2, e2, &s.ready, &s.err_post, STATUS_DELIM).unwrap();
    assert_eq!(r1.status, r2.status);
    assert_eq!(r1.output, r2.output);
    assert_eq!(r1.error, r2.error);
}

#[test]
fn parse_u8_decimal_exact_values() {
    assert_eq!(parse_u8_decimal(b"0"), Some(0));
    assert_eq!(parse_u8_decimal(b"5"), Some(5));
    assert_eq!(parse_u8_decimal(b"255"), Some(255));
    assert_eq!(parse_u8_decimal(b"007"), Some(7));
    assert_eq!(parse_u8_decimal(b"+17"), Some(17));
    assert_eq!(parse_u8_decimal(b"256"), None);
    assert_eq!(parse_u8_decimal(b""), None);
    assert_eq!(parse_u8_decimal(b"+"), None);
    assert_eq!(parse_u8_decimal(b"1a"), None);
    assert_eq!(parse_u8_decimal(b"-1"), None);
}
