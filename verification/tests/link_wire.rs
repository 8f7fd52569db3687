use posthaste::errors::{RuntimeErrorCode, Terminality};
use posthaste::link_wire::{
    engine_error_to_runtime, engine_gone, percent_encode, split_sse_blocks, sse_block_payload,
    remote_rejection, stream_request_url, TokioScheduler, NEAR_END_GONE_MESSAGE,
};

#[test]
fn sse_block_payload_reads_data_lines_and_skips_keep_alives() {
    assert_eq!(sse_block_payload("data: {\"seq\":7}\n").as_deref(), Some("{\"seq\":7}"));
    // Multi-line data concatenates; comments and field lines are dropped.
    assert_eq!(
        sse_block_payload(": keep-alive\nevent: frame\ndata: {\"a\":\ndata: 1}\n").as_deref(),
        Some("{\"a\":1}")
    );
    assert_eq!(sse_block_payload(": keep-alive\n"), None);
    assert_eq!(sse_block_payload(""), None);
}

#[test]
fn sse_block_payload_drops_the_cr_of_crlf_lines_only() {
    assert_eq!(sse_block_payload("data: one\r\ndata:two\r\n\r\n").as_deref(), Some("onetwo"));
    // A last line without a newline keeps a trailing carriage return.
    assert_eq!(sse_block_payload("data:   x\r").as_deref(), Some("x\r"));
    // Only the `data:` field counts, and only at the start of a line.
    assert_eq!(sse_block_payload(" data: no\ndatum: no\n"), None);
}

#[test]
fn percent_encode_keeps_unreserved_bytes_and_escapes_the_rest() {
    assert_eq!(percent_encode("AZaz09-._~"), "AZaz09-._~");
    assert_eq!(percent_encode("{\"kind\":\"x y\"}"), "%7B%22kind%22%3A%22x%20y%22%7D");
    assert_eq!(percent_encode("é/"), "%C3%A9%2F");
    assert_eq!(percent_encode(""), "");
}

#[test]
fn jitter_stays_in_the_unit_interval() {
    let mut scheduler = TokioScheduler::new();
    for _ in 0..1000 {
        let j = scheduler.next_jitter_bits() as f64 / (1u64 << 53) as f64;
        assert!((0.0..1.0).contains(&j), "{j}");
    }
}

#[test]
fn jitter_source_follows_xorshift64_star() {
    let mut scheduler = TokioScheduler::with_state(1);
    // One xorshift64 step from 1, then the xorshift64* output scaled to 53 bits.
    let mut x: u64 = 1;
    x ^= x >> 12;
    x ^= x << 25;
    x ^= x >> 27;
    let expected = x.wrapping_mul(0x2545_F491_4F6C_DD1D) >> 11;
    assert_eq!(scheduler.next_jitter_bits(), expected);
}

#[test]
fn event_blocks_split_across_chunk_boundaries() {
    let chunks = ["data: one", "\n\ndata: tw", "o\n\n: keep-alive\n\n"];
    let mut buffer = String::new();
    let mut payloads = Vec::new();
    for chunk in chunks {
        buffer.push_str(chunk);
        let (blocks, rest) = split_sse_blocks(&buffer);
        buffer = rest;
        payloads.extend(blocks.iter().filter_map(|b| sse_block_payload(b)));
    }
    assert_eq!(payloads, vec!["one".to_string(), "two".to_string()]);
    assert_eq!(buffer, "");
}

#[test]
fn split_keeps_the_incomplete_tail() {
    let (blocks, rest) = split_sse_blocks("data: a\n\ndata: b\n");
    assert_eq!(blocks, vec!["data: a\n\n".to_string()]);
    assert_eq!(rest, "data: b\n");
    let (blocks, rest) = split_sse_blocks("\n\n\n");
    assert_eq!(blocks, vec!["\n\n".to_string()]);
    assert_eq!(rest, "\n");
}

const SUBSCRIBE_PATH: &str = "/v1/link/subscribe";

#[test]
fn wire_stream_request_carries_the_resume_cursor() {
    assert_eq!(stream_request_url(SUBSCRIBE_PATH, None, None), SUBSCRIBE_PATH);
    assert_eq!(stream_request_url(SUBSCRIBE_PATH, None, Some(42)), format!("{SUBSCRIBE_PATH}?afterSeq=42"));
}

#[test]
fn a_partial_coverage_is_sent_percent_encoded() {
    assert_eq!(
        stream_request_url(SUBSCRIBE_PATH, Some("{\"kind\":\"a b\"}"), Some(7)),
        format!("{SUBSCRIBE_PATH}?coverage=%7B%22kind%22%3A%22a%20b%22%7D&afterSeq=7")
    );
    assert_eq!(
        stream_request_url(SUBSCRIBE_PATH, Some("x"), None),
        format!("{SUBSCRIBE_PATH}?coverage=x")
    );
}

#[test]
fn engine_verdicts_map_onto_the_link_vocabulary() {
    let rejected = engine_error_to_runtime(true, "HTTP 403");
    assert_eq!(rejected.0.code, RuntimeErrorCode::GatewayRejected);
    assert_eq!(rejected.0.terminality, Terminality::Permanent);
    assert_eq!(rejected.0.message, "remote authority server rejected link request: HTTP 403");
    let transient = engine_error_to_runtime(false, "timeout");
    assert_eq!(transient.0.code, RuntimeErrorCode::TransportDisconnected);
    assert_eq!(transient.0.terminality, Terminality::Transient);
    assert_eq!(transient.0.message, "runtime↔authority-server link transport error: timeout");
    let gone = engine_gone();
    assert_eq!(gone.0.message, NEAR_END_GONE_MESSAGE);
    assert_eq!(gone.0.terminality, Terminality::Transient);
}

#[test]
fn parse_sse_frame_ignores_keep_alive_comments() {
    assert!(sse_block_payload(": keep-alive\n").is_none());
    assert!(sse_block_payload("").is_none());
}

#[test]
fn a_failed_link_request_names_status_and_body() {
    let e = remote_rejection("403 Forbidden", "no such link");
    assert_eq!(e.0.code, RuntimeErrorCode::GatewayRejected);
    assert_eq!(e.0.message, "remote authority server rejected link request (403 Forbidden): no such link");
}

#[test]
fn percent_decoding_gives_back_the_encoded_bytes() {
    fn decode(s: &str) -> Vec<u8> {
        let b = s.as_bytes();
        let mut out = Vec::new();
        let mut i = 0;
        while i < b.len() {
            if b[i] == b'%' && i + 3 <= b.len() {
                out.push(u8::from_str_radix(&s[i + 1..i + 3], 16).unwrap());
                i += 3;
            } else {
                out.push(b[i]);
                i += 1;
            }
        }
        out
    }
    assert_eq!(percent_encode("a b/é"), "a%20b%2F%C3%A9");
    for value in ["a b/é", "%41", "~-._", "日本語 & ?=", ""] {
        assert_eq!(decode(&percent_encode(value)), value.as_bytes());
    }
}
