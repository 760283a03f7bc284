use traylingo::decoder::{classify_line, decode_line, LineKind, ProtocolEvent, StreamDecoder};

#[test]
fn test_terminator_split_across_chunks() {
    let mut d = StreamDecoder::new();
    // The carriage return ends the line even before its mate arrives.
    let first = d.feed("data: {\"type\":\"message_stop\"}\r");
    assert_eq!(first.len(), 1);
    assert_eq!(first[0], "data: {\"type\":\"message_stop\"}");
    assert!(matches!(
        decode_line(&first[0]),
        Some(ProtocolEvent::StreamEnd)
    ));
    // The newline that follows in the next chunk only closes an empty
    // line, which carries no data: nothing is mis-parsed.
    let second = d.feed("\nrest");
    assert_eq!(second.len(), 1);
    assert_eq!(second[0], "");
    assert!(decode_line(&second[0]).is_none());
}

#[test]
fn test_bare_carriage_returns_end_lines() {
    let mut d = StreamDecoder::new();
    let lines = d.feed("a\rb\r\nc\n");
    assert_eq!(lines, vec!["a", "b", "c"]);
}

#[test]
fn test_incomplete_line_waits_in_buffer() {
    let mut d = StreamDecoder::new();
    assert_eq!(d.feed("data: {\"ty").len(), 0);
    let lines = d.feed("pe\":\"message_stop\"}\n");
    assert_eq!(lines.len(), 1);
    assert!(matches!(
        decode_line(&lines[0]),
        Some(ProtocolEvent::StreamEnd)
    ));
}

#[test]
fn test_event_and_blank_lines_carry_no_data() {
    assert!(matches!(classify_line(""), LineKind::Blank));
    assert!(matches!(classify_line("   "), LineKind::Blank));
    assert!(matches!(classify_line("event: message_start"), LineKind::EventTag));
    assert!(matches!(classify_line("data: {}"), LineKind::Data(_)));
    assert!(matches!(classify_line("noise"), LineKind::Other));
    assert!(decode_line("event: content_block_delta").is_none());
    assert!(decode_line("").is_none());
}

#[test]
fn test_content_delta_index_zero_only() {
    let line0 = "data: {\"type\":\"content_block_delta\",\"index\":0,\"delta\":{\"type\":\"text_delta\",\"text\":\"Hi\"}}";
    match decode_line(line0) {
        Some(ProtocolEvent::ContentDelta { block_index, text }) => {
            assert_eq!(block_index, 0);
            assert_eq!(text, "Hi");
        }
        other => panic!("unexpected event: {:?}", other.is_some()),
    }
    let line1 = "data: {\"type\":\"content_block_delta\",\"index\":1,\"delta\":{\"type\":\"text_delta\",\"text\":\"Hi\"}}";
    match decode_line(line1) {
        Some(ProtocolEvent::ContentDelta { block_index, .. }) => assert_eq!(block_index, 1),
        _ => panic!("index-one delta should still decode with its index"),
    }
}

#[test]
fn test_malformed_json_line_skipped() {
    assert!(decode_line("data: {not json at all").is_none());
    assert!(decode_line("data: 42").is_none());
    assert!(decode_line("data: {\"no_type\":1}").is_none());
}

#[test]
fn test_usage_delta_decodes() {
    let line = "data: {\"type\":\"message_delta\",\"delta\":{\"stop_reason\":\"end_turn\"},\"usage\":{\"input_tokens\":10,\"output_tokens\":5}}";
    match decode_line(line) {
        Some(ProtocolEvent::UsageUpdate { input_tokens, output_tokens }) => {
            assert_eq!((input_tokens, output_tokens), (10, 5));
        }
        _ => panic!("usage delta should decode"),
    }
}

#[test]
fn test_unknown_event_kind_not_fatal() {
    let line = "data: {\"type\":\"ping\"}";
    assert!(matches!(decode_line(line), Some(ProtocolEvent::Other)));
}

#[test]
fn test_closed_decoder_swallows_input() {
    let mut d = StreamDecoder::new();
    d.feed("partial");
    d.close();
    assert_eq!(d.buffer.len(), 0);
    assert_eq!(d.feed("more\nlines\n").len(), 0);
}
