use moesif_extproc::config::{Config, EnvConfig};
use moesif_extproc::event::{Direction, Event};
use moesif_extproc::grpc_service::{keep_reading, on_read_error, periodic_wait_ms, StreamProcessor, LOCK_RETRY_DELAY_MS, PERIODIC_MIN_COUNT};
use moesif_extproc::protocol::{HeaderMap, HeaderValue, HttpHeaders, ProcessingResponse, ReplyPhase, StreamMessage};

fn headers(pairs: &[(&str, &str)]) -> HttpHeaders {
    HttpHeaders {
        headers: Some(HeaderMap {
            headers: pairs
                .iter()
                .map(|(k, v)| HeaderValue { key: k.to_string(), raw_value: v.as_bytes().to_vec() })
                .collect(),
        }),
    }
}

fn plain_config() -> Config {
    Config { env: EnvConfig::default() }
}

fn go_on() -> ProcessingResponse {
    ProcessingResponse { phase: ReplyPhase::RequestHeaders, mutates: false }
}

#[test]
fn request_then_close_submits_the_request_alone() {
    let config = plain_config();
    let mut stream = StreamProcessor::new();
    let message = StreamMessage::RequestHeaders(headers(&[(":path", "/foo"), (":method", "POST")]));
    let out = stream.on_message(&config, &message, &Vec::new());
    assert_eq!(out.reply, go_on());
    assert!(out.submission.is_none());
    assert!(!out.unmatched);
    let event: Event = stream.on_close().unwrap();
    assert_eq!(event.request.uri, "/foo");
    assert_eq!(event.request.verb, "POST");
    assert!(event.response.is_none());
    assert_eq!(event.direction, Direction::Incoming);
    assert!(!event.request.time.is_empty());
    assert!(stream.on_close().is_none());
}

#[test]
fn response_without_request_submits_an_unmatched_event() {
    let config = plain_config();
    let mut stream = StreamProcessor::new();
    let message = StreamMessage::ResponseHeaders(headers(&[(":status", "503")]));
    let out = stream.on_message(&config, &message, &Vec::new());
    assert_eq!(out.reply, go_on());
    assert!(out.unmatched);
    let event = out.submission.unwrap();
    assert_eq!(event.request.uri, "");
    assert_eq!(event.request.verb, "");
    assert_eq!(event.request.time, "");
    assert_eq!(event.request.headers.len(), 0);
    assert!(event.request.ip_address.is_none());
    assert!(event.user_id.is_none());
    let response = event.response.unwrap();
    assert_eq!(response.status, 503);
    assert!(response.body.is_none());
    assert!(response.ip_address.is_none());
    assert_eq!(response.headers.get(":status"), Some("503".to_string()));
    assert!(!response.time.is_empty());
    assert!(stream.on_close().is_none());
}

#[test]
fn matched_exchange_submits_once_at_the_response() {
    let config = plain_config();
    let mut stream = StreamProcessor::new();
    let request = StreamMessage::RequestHeaders(headers(&[(":path", "/a"), ("Host", "h")]));
    let response = StreamMessage::ResponseHeaders(headers(&[(":status", "200")]));
    assert!(stream.on_message_at(&config, &request, "t1".to_string(), &Vec::new()).submission.is_none());
    let out = stream.on_message_at(&config, &response, "t2".to_string(), &Vec::new());
    assert!(!out.unmatched);
    let event = out.submission.unwrap();
    assert_eq!(event.request.time, "t1");
    assert_eq!(event.request.uri, "/a");
    assert_eq!(event.request.verb, "GET");
    assert_eq!(event.request.headers.get("host"), Some("h".to_string()));
    assert_eq!(event.request.headers.get(":path"), None);
    let got = event.response.unwrap();
    assert_eq!(got.time, "t2");
    assert_eq!(got.status, 200);
    assert!(stream.on_close().is_none());
}

#[test]
fn later_messages_never_submit_again() {
    let config = plain_config();
    let mut stream = StreamProcessor::new();
    let request = StreamMessage::RequestHeaders(headers(&[(":path", "/a")]));
    let response = StreamMessage::ResponseHeaders(headers(&[(":status", "200")]));
    let mut submissions = 0;
    let mut replies = 0;
    let messages = [&request, &StreamMessage::Other, &response, &response, &request, &StreamMessage::Other, &response];
    for message in messages {
        let out = stream.on_message_at(&config, message, "t".to_string(), &Vec::new());
        assert_eq!(out.reply, go_on());
        replies += 1;
        if out.submission.is_some() {
            submissions += 1;
        }
    }
    if stream.on_close().is_some() {
        submissions += 1;
    }
    assert_eq!(submissions, 1);
    assert_eq!(replies, messages.len());
}

#[test]
fn stream_without_messages_submits_an_empty_event_at_close() {
    let mut stream = StreamProcessor::new();
    let event = stream.on_close().unwrap();
    assert_eq!(event.request.uri, "");
    assert!(event.response.is_none());
    assert!(event.user_id.is_none());
    assert!(event.company_id.is_none());
}

#[test]
fn other_messages_are_answered_and_change_nothing() {
    let config = plain_config();
    let mut stream = StreamProcessor::new();
    for _ in 0..3 {
        let out = stream.on_message(&config, &StreamMessage::Other, &Vec::new());
        assert_eq!(out.reply, go_on());
        assert!(out.submission.is_none());
        assert!(!out.unmatched);
    }
    let event = stream.on_close().unwrap();
    assert_eq!(event.request.verb, "");
}

#[test]
fn identities_come_from_the_configured_header_names() {
    let mut env = EnvConfig::default();
    env.user_id_header = Some("X-User".to_string());
    env.company_id_header = Some("X-Company".to_string());
    let config = Config { env };
    let mut stream = StreamProcessor::new();
    let request = StreamMessage::RequestHeaders(headers(&[(":path", "/a")]));
    stream.on_message(&config, &request, &Vec::new());
    let event = stream.on_close().unwrap();
    assert_eq!(event.user_id, Some("X-User".to_string()));
    assert_eq!(event.company_id, Some("X-Company".to_string()));
}

#[test]
fn stream_marks_pick_the_client_address() {
    let config = plain_config();
    let message = StreamMessage::RequestHeaders(headers(&[
        ("X-Forwarded-For", "unknown, 10.0.0.1 ,10.0.0.2"),
        ("X-Real-Ip", "10.9.9.9"),
    ]));
    let candidates = StreamProcessor::ip_candidates(&message);
    assert_eq!(candidates, vec!["unknown".to_string(), "10.0.0.1".to_string(), "10.0.0.2".to_string(), "10.9.9.9".to_string()]);
    let mut stream = StreamProcessor::new();
    stream.on_message(&config, &message, &vec![false, true, true, true]);
    let event = stream.on_close().unwrap();
    assert_eq!(event.request.ip_address, Some("10.0.0.1".to_string()));
    assert!(StreamProcessor::ip_candidates(&StreamMessage::Other).is_empty());
    let response = StreamMessage::ResponseHeaders(headers(&[("x-real-ip", "10.9.9.9")]));
    assert!(StreamProcessor::ip_candidates(&response).is_empty());
}

#[test]
fn read_error_is_answered_with_an_internal_error() {
    assert_eq!(on_read_error().message, "Error processing request");
    assert!(keep_reading(true));
    assert!(!keep_reading(false));
}

#[test]
fn periodic_flush_waits_for_the_configured_time() {
    let mut env = EnvConfig::default();
    env.batch_max_wait = 2000;
    assert_eq!(periodic_wait_ms(&Config { env }), 2000);
    assert_eq!(PERIODIC_MIN_COUNT, 1);
    assert_eq!(LOCK_RETRY_DELAY_MS, 50);
}
