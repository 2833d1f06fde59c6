use deepcli::sse::{classify_line, decode_payload, event_from_fields, LineOutcome};
use deepcli::{SseDecoder, StreamEvent};

fn pairs(events: &[StreamEvent]) -> Vec<(String, Option<String>)> {
    events
        .iter()
        .map(|e| (e.text.clone(), e.finish_reason.clone()))
        .collect()
}

fn decode_chunks(chunks: &[&[u8]]) -> Vec<(String, Option<String>)> {
    let mut d = SseDecoder::new();
    let mut out = Vec::new();
    for c in chunks {
        out.extend(pairs(&d.feed(c)));
    }
    out
}

const TRANSCRIPT: &str = ": keep-alive\n\
data: {\"choices\":[{\"delta\":{\"content\":\"你好\"}}]}\n\
\n\
data: {\"choices\":[{\"delta\":{\"content\":\", world\"}}]}\r\n\
data: {not json\n\
data: {\"choices\":[{\"delta\":{},\"finish_reason\":\"stop\"}]}\n\
data: [DONE]\n\
data: {\"choices\":[{\"delta\":{\"content\":\"late\"}}]}\n";

#[test]
fn delta_content_line() {
    let got = decode_chunks(&[b"data: {\"choices\":[{\"delta\":{\"content\":\"hi\"}}]}\n"]);
    assert_eq!(got, vec![("hi".to_string(), None)]);
}

#[test]
fn delta_content_with_finish_reason() {
    let got = decode_chunks(&[
        b"data: {\"choices\":[{\"delta\":{\"content\":\"hi\"},\"finish_reason\":\"stop\"}]}\n",
    ]);
    assert_eq!(got, vec![("hi".to_string(), Some("stop".to_string()))]);
}

#[test]
fn malformed_line_is_skipped() {
    let got = decode_chunks(&[
        b"data: {not json\n",
        b"data: {\"choices\":[{\"delta\":{\"content\":\"ok\"}}]}\n",
    ]);
    assert_eq!(got, vec![("ok".to_string(), None)]);
}

#[test]
fn done_ends_stream() {
    let mut d = SseDecoder::new();
    let got = pairs(&d.feed(
        b"data: [DONE]\ndata: {\"choices\":[{\"delta\":{\"content\":\"x\"}}]}\n",
    ));
    assert_eq!(got, vec![(String::new(), Some("length".to_string()))]);
    assert!(d.is_finished());
    let later = d.feed(b"data: {\"choices\":[{\"delta\":{\"content\":\"y\"}}]}\n");
    assert!(later.is_empty());
}

#[test]
fn every_split_gives_same_events() {
    let bytes = TRANSCRIPT.as_bytes();
    let whole = decode_chunks(&[bytes]);
    assert_eq!(
        whole,
        vec![
            ("你好".to_string(), None),
            (", world".to_string(), None),
            (String::new(), Some("stop".to_string())),
            (String::new(), Some("length".to_string())),
        ]
    );
    for cut in 0..=bytes.len() {
        let got = decode_chunks(&[&bytes[..cut], &bytes[cut..]]);
        assert_eq!(got, whole, "split at {}", cut);
    }
    let singles: Vec<&[u8]> = bytes.chunks(1).collect();
    assert_eq!(decode_chunks(&singles), whole);
}

#[test]
fn message_content_fallback() {
    let e = decode_payload("{\"choices\":[{\"message\":{\"content\":\"whole\"}}]}").unwrap();
    assert_eq!(e.text, "whole");
    assert_eq!(e.finish_reason, None);
}

#[test]
fn delta_preferred_over_message() {
    let e = decode_payload(
        "{\"choices\":[{\"delta\":{\"content\":\"d\"},\"message\":{\"content\":\"m\"}}]}",
    )
    .unwrap();
    assert_eq!(e.text, "d");
}

#[test]
fn no_text_no_reason_gives_nothing() {
    assert!(decode_payload("{\"choices\":[{\"delta\":{}}]}").is_none());
    assert!(decode_payload("{\"choices\":[]}").is_none());
    assert!(decode_payload("[1, 2]").is_none());
}

#[test]
fn fields_make_events() {
    let e = event_from_fields(None, None, Some("stop".to_string())).unwrap();
    assert_eq!(e.text, "");
    assert_eq!(e.finish_reason, Some("stop".to_string()));
    let e = event_from_fields(None, Some("m".to_string()), None).unwrap();
    assert_eq!(e.text, "m");
    assert!(event_from_fields(None, None, None).is_none());
}

#[test]
fn lines_are_classified() {
    assert!(matches!(classify_line(b"data: [DONE]\n"), LineOutcome::Done));
    assert!(matches!(classify_line(b"  data: [DONE]  \r\n"), LineOutcome::Done));
    assert!(matches!(classify_line(b"event: ping\n"), LineOutcome::Skip));
    assert!(matches!(classify_line(b"   \n"), LineOutcome::Skip));
    assert!(matches!(classify_line(b"data:[DONE]\n"), LineOutcome::Skip));
}

#[test]
fn invalid_utf8_is_replaced() {
    let mut line = b"data: {\"choices\":[{\"delta\":{\"content\":\"a".to_vec();
    line.push(0xff);
    line.extend_from_slice(b"b\"}}]}\n");
    match classify_line(&line) {
        LineOutcome::Event(e) => assert_eq!(e.text, "a\u{fffd}b"),
        _ => panic!("expected an event"),
    }
}

#[test]
fn multibyte_char_split_across_chunks() {
    let line = "data: {\"choices\":[{\"delta\":{\"content\":\"中\"}}]}\n".as_bytes();
    let pos = line.iter().position(|&b| b >= 0x80).unwrap() + 1;
    let got = decode_chunks(&[&line[..pos], &line[pos..]]);
    assert_eq!(got, vec![("中".to_string(), None)]);
}

#[test]
fn partial_line_waits_for_newline() {
    let mut d = SseDecoder::new();
    assert!(d.feed(b"data: {\"choices\":[{\"delta\":{\"content\":\"hi\"}}]}").is_empty());
    let got = pairs(&d.feed(b"\n"));
    assert_eq!(got, vec![("hi".to_string(), None)]);
}
