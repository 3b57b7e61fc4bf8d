use openai_rust::chat::stream::frame::{
    find_delimiter, parse_frame, same_bytes, split_first, Frame, Split, CLOSING_BRACE, DATA_PREFIX,
    DELIMITER_LEN, DONE_TOKEN, LINE_BREAK, PREFIX_LEN,
};

#[test]
fn constants_spell_the_wire_format() {
    assert_eq!(&DATA_PREFIX[..], b"data: ");
    assert_eq!(&DONE_TOKEN[..], b"[DONE]");
    assert_eq!(LINE_BREAK, b'\n');
    assert_eq!(CLOSING_BRACE, b'}');
    assert_eq!(PREFIX_LEN, 6);
    assert_eq!(DELIMITER_LEN, 2);
}

#[test]
fn find_delimiter_gives_the_first() {
    assert_eq!(find_delimiter(b""), None);
    assert_eq!(find_delimiter(b"\n"), None);
    assert_eq!(find_delimiter(b"\n\n"), Some(0));
    assert_eq!(find_delimiter(b"a\nb\nc"), None);
    assert_eq!(find_delimiter(b"abc\n\n"), Some(3));
    assert_eq!(find_delimiter(b"abc\n\ndef\n\n"), Some(3));
    assert_eq!(find_delimiter(b"abc\n\n\n"), Some(3));
    assert_eq!(find_delimiter(b"a\r\n\r\nb"), None);
    assert_eq!(find_delimiter(b"a\nb\n\n"), Some(3));
}

#[test]
fn same_bytes_compares_length_and_content() {
    assert!(same_bytes(b"", b""));
    assert!(same_bytes(b"data: ", b"data: "));
    assert!(!same_bytes(b"data: ", b"data:"));
    assert!(!same_bytes(b"data: ", b"date: "));
    assert!(!same_bytes(b"", b"x"));
}

#[test]
fn parse_frame_tells_the_four_kinds_apart() {
    assert_eq!(parse_frame(b"data: {\"a\":1}"), Frame::Data(b"{\"a\":1}".to_vec()));
    assert_eq!(parse_frame(b"data: }"), Frame::Data(b"}".to_vec()));
    assert_eq!(parse_frame(b"data: [DONE]"), Frame::Done);
    assert_eq!(parse_frame(b"data: [DONE] "), Frame::MalformedPayload);
    assert_eq!(parse_frame(b"data: [done]"), Frame::MalformedPayload);
    assert_eq!(parse_frame(b"data: {\"a\":1} "), Frame::MalformedPayload);
    assert_eq!(parse_frame(b"data: {\"a\":"), Frame::MalformedPayload);
    assert_eq!(parse_frame(b"data: "), Frame::MalformedPayload);
    assert_eq!(parse_frame(b"data:{\"a\":1}"), Frame::MalformedFrame);
    assert_eq!(parse_frame(b"Data: {\"a\":1}"), Frame::MalformedFrame);
    assert_eq!(parse_frame(b" data: {\"a\":1}"), Frame::MalformedFrame);
    assert_eq!(parse_frame(b"data"), Frame::MalformedFrame);
    assert_eq!(parse_frame(b""), Frame::MalformedFrame);
}

#[test]
fn split_first_reports_frame_length_and_look_ahead() {
    assert_eq!(split_first(b""), None);
    assert_eq!(split_first(b"data: {\"a\":1}"), None);
    assert_eq!(split_first(b"data: {\"a\":1}\n"), None);
    assert_eq!(
        split_first(b"data: {\"a\":1}\n\n"),
        Some(Split { frame: Frame::Data(b"{\"a\":1}".to_vec()), consumed: 15, more: false })
    );
    assert_eq!(
        split_first(b"data: {\"a\":1}\n\ndata: {\"b\""),
        Some(Split { frame: Frame::Data(b"{\"a\":1}".to_vec()), consumed: 15, more: false })
    );
    assert_eq!(
        split_first(b"data: {\"a\":1}\n\ndata: {\"b\":2}\n\n"),
        Some(Split { frame: Frame::Data(b"{\"a\":1}".to_vec()), consumed: 15, more: true })
    );
    assert_eq!(
        split_first(b"data: [DONE]\n\ntail"),
        Some(Split { frame: Frame::Done, consumed: 14, more: false })
    );
    assert_eq!(
        split_first(b"\n\n\n\n"),
        Some(Split { frame: Frame::MalformedFrame, consumed: 2, more: true })
    );
    assert_eq!(
        split_first(b"data: {\"a\":1}\n\n\n"),
        Some(Split { frame: Frame::Data(b"{\"a\":1}".to_vec()), consumed: 15, more: false })
    );
}

#[test]
fn split_first_leaves_the_buffer_alone() {
    let buf = b"data: {\"a\":1}\n\ndata: {\"b\":2}\n\n".to_vec();
    let before = buf.clone();
    let _ = split_first(&buf);
    assert_eq!(buf, before);
}
