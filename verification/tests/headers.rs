use bytes::Bytes;
use moesif_extproc::config::{Config, EnvConfig};
use moesif_extproc::event::Event;
use moesif_extproc::header_table::HeaderTable;
use moesif_extproc::protocol::{HeaderMap, HeaderValue, HttpHeaders, ProcessingResponse, ReplyPhase};
use moesif_extproc::utils::{
    add_env_headers_to_event, client_ip_candidates, display_log_level, extract_status,
    generate_curl_command, get_client_ip, get_header, header_list_to_map, process_request_headers,
    process_response_headers, record_response_headers, request_ip_candidates,
    set_and_display_log_level, set_level_based_on_debug, simplified_grpc_response, LogLevel,
};

fn entry(key: &str, value: &[u8]) -> HeaderValue {
    HeaderValue { key: key.to_string(), raw_value: value.to_vec() }
}

fn message(entries: Vec<HeaderValue>) -> HttpHeaders {
    HttpHeaders { headers: Some(HeaderMap { headers: entries }) }
}

fn table(pairs: &[(&str, &str)]) -> HeaderTable {
    let mut t = HeaderTable::new();
    for (k, v) in pairs {
        t.insert(k.to_string(), v.to_string());
    }
    t
}

#[test]
fn header_table_insert_replaces_the_value_of_a_name() {
    let mut t = HeaderTable::new();
    assert_eq!(t.len(), 0);
    t.insert("a".to_string(), "1".to_string());
    t.insert("b".to_string(), "2".to_string());
    t.insert("a".to_string(), "3".to_string());
    assert_eq!(t.len(), 2);
    assert_eq!(t.get("a"), Some("3".to_string()));
    assert_eq!(t.get("b"), Some("2".to_string()));
    assert_eq!(t.get("c"), None);
    assert_eq!(t.to_pairs(), vec![("a".to_string(), "3".to_string()), ("b".to_string(), "2".to_string())]);
}

#[test]
fn header_table_drops_pseudo_headers_only() {
    let mut t = table(&[(":path", "/x"), ("host", "h"), (":method", "GET"), ("a:b", "v"), ("", "e")]);
    t.remove_pseudo_headers();
    assert_eq!(
        t.to_pairs(),
        vec![("host".to_string(), "h".to_string()), ("a:b".to_string(), "v".to_string()), ("".to_string(), "e".to_string())]
    );
}

#[test]
fn header_table_clone_is_equal_and_separate() {
    let t = table(&[("a", "1")]);
    let mut c = t.clone();
    c.insert("a".to_string(), "2".to_string());
    assert_eq!(t.get("a"), Some("1".to_string()));
    assert_eq!(c.get("a"), Some("2".to_string()));
    assert_eq!(HeaderTable::default().len(), 0);
}

#[test]
fn header_names_are_lower_cased_and_later_values_win() {
    let t = header_list_to_map(&Some(HeaderMap {
        headers: vec![entry("Content-Type", b"a"), entry("X-Id", b"1"), entry("content-type", b"b")],
    }));
    assert_eq!(t.len(), 2);
    assert_eq!(t.get("content-type"), Some("b".to_string()));
    assert_eq!(t.get("x-id"), Some("1".to_string()));
    assert_eq!(t.get("Content-Type"), None);
    assert_eq!(header_list_to_map(&None).len(), 0);
}

#[test]
fn header_values_that_are_not_utf8_are_read_with_replacement() {
    let t = header_list_to_map(&Some(HeaderMap { headers: vec![entry("k", &[0x61, 0xff, 0x62]), entry("u", "é".as_bytes())] }));
    assert_eq!(t.get("k"), Some("a\u{fffd}b".to_string()));
    assert_eq!(t.get("u"), Some("é".to_string()));
}

#[test]
fn status_is_the_first_status_header() {
    assert_eq!(extract_status(&message(vec![entry("a", b"1"), entry(":status", b"404"), entry(":status", b"200")])), "404");
    assert_eq!(extract_status(&message(vec![entry(":Status", b"404")])), "0");
    assert_eq!(extract_status(&message(vec![])), "0");
    assert_eq!(extract_status(&HttpHeaders { headers: None }), "0");
    assert_eq!(extract_status(&message(vec![entry(":status", b"abc")])), "abc");
}

#[test]
fn get_header_ignores_the_case_of_ascii_letters() {
    let headers = vec![
        ("content-type".to_string(), "json".to_string()),
        ("x-moesif-config-etag".to_string(), "c1".to_string()),
        ("X-MOESIF-CONFIG-ETAG".to_string(), "c2".to_string()),
    ];
    assert_eq!(get_header(&headers, "X-Moesif-Config-Etag"), Some("c1".to_string()));
    assert_eq!(get_header(&headers, "Content-Type"), Some("json".to_string()));
    assert_eq!(get_header(&headers, "X-Moesif-Rules-Etag"), None);
    assert_eq!(get_header(&Vec::new(), "a"), None);
}

#[test]
fn client_ip_candidates_follow_the_order_of_trust() {
    let t = table(&[("x-real-ip", "1.1.1.1"), ("x-forwarded-for", " a , b"), ("x-client-ip", "c"), ("host", "h"), ("cf-pseudo-ipv4", "z,")]);
    assert_eq!(
        client_ip_candidates(&t),
        vec!["c".to_string(), "a".to_string(), "b".to_string(), "1.1.1.1".to_string(), "z".to_string(), "".to_string()]
    );
    assert!(client_ip_candidates(&HeaderTable::new()).is_empty());
}

#[test]
fn client_ip_is_the_first_marked_candidate() {
    let t = table(&[("x-forwarded-for", "a, 10.0.0.1, 10.0.0.2")]);
    assert_eq!(get_client_ip(&t, &vec![false, true, true]), Some("10.0.0.1".to_string()));
    assert_eq!(get_client_ip(&t, &vec![false, false, true]), Some("10.0.0.2".to_string()));
    assert_eq!(get_client_ip(&t, &vec![false, false, false]), None);
    assert_eq!(get_client_ip(&t, &vec![]), None);
    assert_eq!(get_client_ip(&t, &vec![false]), None);
    assert_eq!(get_client_ip(&t, &vec![true, true, true, true]), Some("a".to_string()));
    assert_eq!(get_client_ip(&HeaderTable::new(), &vec![true]), None);
}

#[test]
fn request_headers_fill_the_request_side() {
    let config = Config { env: EnvConfig::default() };
    let mut event = Event::default();
    event.request.time = "then".to_string();
    let msg = message(vec![
        entry(":path", b"/foo?x=1"),
        entry(":method", b"PUT"),
        entry(":authority", b"example.test"),
        entry("X-Api-Version", b"v2"),
        entry("Transfer-Encoding", b"chunked"),
        entry("X-Forwarded-For", b"10.1.2.3"),
    ]);
    assert_eq!(request_ip_candidates(&msg), vec!["10.1.2.3".to_string()]);
    process_request_headers(&config, &mut event, &msg, &vec![true]);
    assert_eq!(event.request.time, "then");
    assert_eq!(event.request.uri, "/foo?x=1");
    assert_eq!(event.request.verb, "PUT");
    assert_eq!(event.request.api_version, Some("v2".to_string()));
    assert_eq!(event.request.transfer_encoding, Some("chunked".to_string()));
    assert_eq!(event.request.ip_address, Some("10.1.2.3".to_string()));
    assert_eq!(event.request.headers.len(), 3);
    assert_eq!(event.request.headers.get(":authority"), None);
    assert!(event.response.is_none());
    assert!(event.user_id.is_none());
}

#[test]
fn request_without_method_or_path_takes_the_defaults() {
    let config = Config { env: EnvConfig::default() };
    let mut event = Event::default();
    process_request_headers(&config, &mut event, &HttpHeaders { headers: None }, &Vec::new());
    assert_eq!(event.request.uri, "");
    assert_eq!(event.request.verb, "GET");
    assert_eq!(event.request.headers.len(), 0);
    assert!(event.request.ip_address.is_none());
    assert!(event.request.api_version.is_none());
    assert!(event.request.transfer_encoding.is_none());
}

#[test]
fn response_status_defaults_to_zero() {
    for (raw, expected) in [(&b"200"[..], 200usize), (b"abc", 0), (b"", 0), (b"-1", 0), (b"99999999999999999999999", 0), (b" 200", 0), (&[0xff, 0x32][..], 0)] {
        let mut event = Event::default();
        record_response_headers(&mut event, &message(vec![entry(":status", raw)]), "now".to_string());
        let response = event.response.unwrap();
        assert_eq!(response.status, expected);
        assert_eq!(response.time, "now");
    }
    let mut event = Event::default();
    record_response_headers(&mut event, &message(vec![entry("Server", b"x")]), "now".to_string());
    let response = event.response.unwrap();
    assert_eq!(response.status, 0);
    assert_eq!(response.headers.get("server"), Some("x".to_string()));
}

#[test]
fn response_time_is_an_rfc3339_instant_of_now() {
    let mut event = Event::default();
    process_response_headers(&mut event, &message(vec![entry(":status", b"204")]));
    let response = event.response.unwrap();
    assert_eq!(response.status, 204);
    let time = response.time;
    assert!(time.len() >= 20);
    assert_eq!(&time[4..5], "-");
    assert_eq!(&time[10..11], "T");
    assert!(time.ends_with("+00:00"));
}

#[test]
fn configured_identity_replaces_and_missing_one_keeps() {
    let mut env = EnvConfig::default();
    env.user_id_header = Some("x-user".to_string());
    let mut event = Event::default();
    event.user_id = Some("old".to_string());
    event.company_id = Some("kept".to_string());
    add_env_headers_to_event(&Config { env }, &mut event);
    assert_eq!(event.user_id, Some("x-user".to_string()));
    assert_eq!(event.company_id, Some("kept".to_string()));
}

#[test]
fn simplified_reply_asks_for_no_change() {
    assert_eq!(simplified_grpc_response(), ProcessingResponse { phase: ReplyPhase::RequestHeaders, mutates: false });
}

#[test]
fn curl_command_lists_headers_and_body() {
    let headers = vec![
        ("content-type".to_string(), "application/json".to_string()),
        ("x-moesif-application-id".to_string(), "app".to_string()),
    ];
    let body = Bytes::from("[1]".as_bytes().to_vec());
    assert_eq!(
        generate_curl_command("POST", "https://h/v1/events/batch", &headers, Some(&body)),
        "curl -v -X POST 'https://h/v1/events/batch' -H 'content-type: application/json' -H 'x-moesif-application-id: app' --data '[1]'"
    );
    assert_eq!(generate_curl_command("GET", "u", &Vec::new(), None), "curl -v -X GET 'u'");
    let broken = Bytes::from(vec![0x61, 0xff]);
    assert_eq!(generate_curl_command("GET", "u", &Vec::new(), Some(&broken)), "curl -v -X GET 'u' --data ''");
    let accented = Bytes::from("é".as_bytes().to_vec());
    assert_eq!(generate_curl_command("GET", "u", &Vec::new(), Some(&accented)), "curl -v -X GET 'u' --data 'é'");
}

#[test]
fn log_level_follows_the_setting_then_debug() {
    let mut env = EnvConfig::default();
    assert_eq!(set_level_based_on_debug(&Config { env: env.clone() }), LogLevel::Warn);
    assert_eq!(set_and_display_log_level(&Config { env: env.clone() }), (LogLevel::Warn, "Logging level set to: WARN".to_string()));
    env.debug = true;
    assert_eq!(set_level_based_on_debug(&Config { env: env.clone() }), LogLevel::Trace);
    env.rust_log = Some("bogus".to_string());
    assert_eq!(set_and_display_log_level(&Config { env: env.clone() }).0, LogLevel::Trace);
    for (name, level, line) in [
        ("TRACE", LogLevel::Trace, "Logging level set to: TRACE"),
        ("Debug", LogLevel::Debug, "Logging level set to: DEBUG"),
        ("info", LogLevel::Info, "Logging level set to: INFO"),
        ("wArN", LogLevel::Warn, "Logging level set to: WARN"),
        ("ERROR", LogLevel::Error, "Logging level set to: ERROR"),
    ] {
        env.rust_log = Some(name.to_string());
        assert_eq!(set_and_display_log_level(&Config { env: env.clone() }), (level, line.to_string()));
    }
    assert_eq!(display_log_level(LogLevel::Off), "Logging is turned OFF");
}
