use openai_rust::chat::stream::transcript::{replay, Delivery};
use openai_rust::chat::stream::DecodeError;

fn frames(payloads: &[&str]) -> Vec<u8> {
    let mut wire = Vec::new();
    for payload in payloads {
        wire.extend_from_slice(b"data: ");
        wire.extend_from_slice(payload.as_bytes());
        wire.extend_from_slice(b"\n\n");
    }
    wire
}

fn events(payloads: &[&str]) -> Vec<Delivery> {
    payloads.iter().map(|payload| Delivery::Event(payload.as_bytes().to_vec())).collect()
}

fn cut(wire: &[u8], sizes: &[usize]) -> Vec<Vec<u8>> {
    let mut chunks = Vec::new();
    let mut at = 0;
    for size in sizes {
        let end = (at + size).min(wire.len());
        chunks.push(wire[at..end].to_vec());
        at = end;
    }
    chunks.push(wire[at..].to_vec());
    chunks
}

#[test]
fn no_chunks_deliver_nothing() {
    assert_eq!(replay(&[]), vec![]);
}

#[test]
fn frames_then_end_deliver_each_payload_in_order() {
    let payloads = ["{\"n\":1}", "{\"n\":2}", "{\"n\":3}", "{\"n\":4}"];
    let mut wire = frames(&payloads);
    wire.extend_from_slice(b"data: [DONE]\n\n");
    assert_eq!(replay(&[wire.clone()]), events(&payloads));
    for sizes in [&[1usize][..], &[5, 5, 5], &[15], &[14, 1, 1], &[30, 30], &[0, 7, 0, 9], &[59, 13]] {
        assert_eq!(replay(&cut(&wire, sizes)), events(&payloads), "cut at {:?}", sizes);
    }
    let bytewise: Vec<Vec<u8>> = wire.iter().map(|byte| vec![*byte]).collect();
    assert_eq!(replay(&bytewise), events(&payloads));
}

#[test]
fn end_marker_alone_delivers_nothing() {
    assert_eq!(replay(&[b"data: [DONE]\n\n".to_vec()]), vec![]);
}

#[test]
fn a_cut_anywhere_delivers_the_same() {
    let mut wire = frames(&["{\"n\":1}", "{\"a\":{\"b\":[1,2]}}"]);
    wire.extend_from_slice(b"oops\n\ndata: {bad\n\n");
    wire.extend_from_slice(&frames(&["{\"n\":3}"]));
    wire.extend_from_slice(b"data: [DONE]\n\ndata: {\"late\":1}\n\n");
    let whole = replay(&[wire.clone()]);
    assert_eq!(
        whole,
        vec![
            Delivery::Event(b"{\"n\":1}".to_vec()),
            Delivery::Event(b"{\"a\":{\"b\":[1,2]}}".to_vec()),
            Delivery::Failed(DecodeError::MalformedFrame),
            Delivery::Failed(DecodeError::MalformedPayload),
            Delivery::Event(b"{\"n\":3}".to_vec()),
        ]
    );
    for at in 0..=wire.len() {
        let halves = vec![wire[..at].to_vec(), wire[at..].to_vec()];
        assert_eq!(replay(&halves), whole, "cut at {}", at);
    }
}

#[test]
fn a_cut_between_characters_delivers_the_same() {
    let text = "data: {\"content\":\"h\u{e9}llo \u{4e16}\u{754c}\"}\n\ndata: [DONE]\n\n";
    let whole = replay(&[text.as_bytes().to_vec()]);
    assert_eq!(whole, events(&["{\"content\":\"h\u{e9}llo \u{4e16}\u{754c}\"}"]));
    for at in 0..=text.len() {
        if text.is_char_boundary(at) {
            let halves = vec![text.as_bytes()[..at].to_vec(), text.as_bytes()[at..].to_vec()];
            assert_eq!(replay(&halves), whole, "cut at {}", at);
        }
    }
}

#[test]
fn a_cut_inside_a_character_ends_the_stream() {
    let text = "data: {\"n\":1}\n\ndata: {\"content\":\"\u{e9}\"}\n\ndata: [DONE]\n\n";
    let at = text.find('\u{e9}').unwrap() + 1;
    let halves = vec![text.as_bytes()[..at].to_vec(), text.as_bytes()[at..].to_vec()];
    assert_eq!(replay(&halves), vec![Delivery::Failed(DecodeError::InvalidText)]);
    let first = text.find("data: {\"content").unwrap();
    let thirds = vec![
        text.as_bytes()[..first].to_vec(),
        text.as_bytes()[first..at].to_vec(),
        text.as_bytes()[at..].to_vec(),
    ];
    assert_eq!(
        replay(&thirds),
        vec![Delivery::Event(b"{\"n\":1}".to_vec()), Delivery::Failed(DecodeError::InvalidText)]
    );
}

#[test]
fn nothing_is_read_behind_the_end_marker() {
    let chunks = vec![
        b"data: {\"n\":1}\n\ndata: [DONE]\n\n".to_vec(),
        vec![0xff, 0xfe],
        b"data: {\"n\":2}\n\n".to_vec(),
    ];
    assert_eq!(replay(&chunks), events(&["{\"n\":1}"]));
}

#[test]
fn source_that_ends_inside_a_frame_delivers_the_whole_frames() {
    let chunks = vec![b"data: {\"n\":1}\n\ndata: {\"n\":".to_vec(), b"2}\n".to_vec()];
    assert_eq!(replay(&chunks), events(&["{\"n\":1}"]));
}

#[test]
fn source_that_ends_without_end_marker_delivers_every_frame() {
    let wire = frames(&["{\"n\":1}", "{\"n\":2}"]);
    assert_eq!(replay(&cut(&wire, &[3, 20])), events(&["{\"n\":1}", "{\"n\":2}"]));
}
