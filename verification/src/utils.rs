//! Reading header messages into events.

use crate::config::Config;
use crate::root_context::{batch_views, bytes_as_slice, bytes_of, sealed_all, Batch, EventRootContext};
use crate::text::from_utf8;
use bytes::Bytes;
use vstd::utf8::{decode_utf8, valid_utf8};
use crate::event::{opt_view, Direction, Event, EventView, RequestView, ResponseInfo, ResponseView};
use crate::header_table::{ordinary_names, pair_views, pairs_to_map, HeaderPair, HeaderTable};
use crate::protocol::{raw_list, raw_of, HeaderMap, HttpHeaders, ProcessingResponse, RawHeader, ReplyPhase};
use crate::text::{
    eq_ignore_ascii_case, eq_ignore_ascii_case_seq, from_utf8_lossy, lossy_chars, lowercase_chars,
    parse_usize, parse_usize_seq, split_on, split_seq, to_lowercase, trim, trim_seq, views_of,
};
use vstd::prelude::*;
use vstd::string::*;

verus! {

/// Each header with its name in lower case and its value read as text.
pub open spec fn lowered(raw: Seq<RawHeader>) -> Seq<HeaderPair> {
    Seq::new(raw.len(), |i: int| (lowercase_chars(raw[i].0), lossy_chars(raw[i].1)))
}

/// The headers that a message carries, by lower-cased name. Of two headers
/// with one name the later stays.
pub open spec fn header_map_of(raw: Seq<RawHeader>) -> Map<Seq<char>, Seq<char>> {
    pairs_to_map(lowered(raw))
}

/// Turns a header list into a table by lower-cased name.
pub fn header_list_to_map(header_map: &Option<HeaderMap>) -> (table: HeaderTable)
    ensures
        table@ == header_map_of(raw_of(*header_map)),
{
    let mut table = HeaderTable::new();
    match header_map {
        Some(map) => {
            let ghost raw = raw_list(map.headers@);
            let mut i: usize = 0;
            proof {
                assert(lowered(raw).take(0) =~= Seq::<HeaderPair>::empty());
            }
            while i < map.headers.len()
                invariant
                    i <= map.headers.len(),
                    raw == raw_list(map.headers@),
                    table@ == pairs_to_map(lowered(raw).take(i as int)),
                decreases map.headers.len() - i,
            {
                let key = to_lowercase(map.headers[i].key.as_str());
                let value = from_utf8_lossy(map.headers[i].raw_value.as_slice());
                proof {
                    let next = lowered(raw).take(i + 1);
                    assert(next.drop_last() =~= lowered(raw).take(i as int));
                    assert(next.last() == (key@, value@));
                }
                table.insert(key, value);
                i = i + 1;
            }
            proof {
                assert(lowered(raw).take(map.headers.len() as int) =~= lowered(raw));
            }
        },
        None => {
            assert(lowered(Seq::<RawHeader>::empty()) =~= Seq::<HeaderPair>::empty());
        },
    }
    table
}

/// The text of the first `:status` header, or `0` where there is none.
pub open spec fn status_text(raw: Seq<RawHeader>) -> Seq<char>
    decreases raw.len(),
{
    if raw.len() == 0 {
        "0"@
    } else if raw[0].0 == ":status"@ {
        lossy_chars(raw[0].1)
    } else {
        status_text(raw.drop_first())
    }
}

/// Reads the status that a response-headers message names.
pub fn extract_status(headers_msg: &HttpHeaders) -> (status: String)
    ensures
        status@ == status_text(headers_msg@),
{
    match &headers_msg.headers {
        Some(map) => {
            let ghost raw = raw_list(map.headers@);
            let wanted = ":status".to_owned();
            let mut i: usize = 0;
            proof {
                assert(raw.skip(0) =~= raw);
            }
            while i < map.headers.len()
                invariant
                    i <= map.headers.len(),
                    raw == raw_list(map.headers@),
                    wanted@ == ":status"@,
                    headers_msg@ == raw,
                    status_text(raw) == status_text(raw.skip(i as int)),
                decreases map.headers.len() - i,
            {
                proof {
                    assert(raw.skip(i as int)[0] == raw[i as int]);
                    assert(raw.skip(i as int).drop_first() =~= raw.skip(i + 1));
                }
                if map.headers[i].key == wanted {
                    return from_utf8_lossy(map.headers[i].raw_value.as_slice());
                }
                i = i + 1;
            }
            "0".to_owned()
        },
        None => "0".to_owned(),
    }
}

/// The value of the first header whose name is `name` up to the case of
/// ASCII letters.
pub open spec fn header_value(headers: Seq<HeaderPair>, name: Seq<char>) -> Option<Seq<char>>
    decreases headers.len(),
{
    if headers.len() == 0 {
        None
    } else if eq_ignore_ascii_case_seq(headers[0].0, name) {
        Some(headers[0].1)
    } else {
        header_value(headers.drop_first(), name)
    }
}

/// Looks a header up by name, without regard to the case of ASCII letters.
pub fn get_header(headers: &Vec<(String, String)>, name: &str) -> (value: Option<String>)
    ensures
        opt_view(value) == header_value(pair_views(headers@), name@),
{
    let ghost all = pair_views(headers@);
    let mut i: usize = 0;
    proof {
        assert(all.skip(0) =~= all);
    }
    while i < headers.len()
        invariant
            i <= headers.len(),
            all == pair_views(headers@),
            header_value(all, name@) == header_value(all.skip(i as int), name@),
        decreases headers.len() - i,
    {
        proof {
            assert(all.skip(i as int)[0] == all[i as int]);
            assert(all.skip(i as int).drop_first() =~= all.skip(i + 1));
        }
        if eq_ignore_ascii_case(headers[i].0.as_str(), name) {
            return Some(headers[i].1.clone());
        }
        i = i + 1;
    }
    None
}

/// The parts of a header value between commas, each without the white
/// space around it.
pub open spec fn trimmed_parts(value: Seq<char>) -> Seq<Seq<char>> {
    let parts = split_seq(value, ',');
    Seq::new(parts.len(), |i: int| trim_seq(parts[i]))
}

/// The address candidates that the header `name` gives: the trimmed parts
/// of its value, or none where the header is absent.
pub open spec fn candidates_under(headers: Map<Seq<char>, Seq<char>>, name: Seq<char>) -> Seq<
    Seq<char>,
> {
    if headers.contains_key(name) {
        trimmed_parts(headers[name])
    } else {
        Seq::empty()
    }
}

/// The texts that may name the client's address, from the likeliest header
/// to the least likely and, within a header, from left to right.
pub open spec fn ip_candidates(headers: Map<Seq<char>, Seq<char>>) -> Seq<Seq<char>> {
    candidates_under(headers, "x-client-ip"@) + candidates_under(headers, "x-forwarded-for"@)
        + candidates_under(headers, "cf-connecting-ip"@) + candidates_under(
        headers,
        "fastly-client-ip"@,
    ) + candidates_under(headers, "true-client-ip"@) + candidates_under(headers, "x-real-ip"@)
        + candidates_under(headers, "x-cluster-client-ip"@) + candidates_under(
        headers,
        "x-forwarded"@,
    ) + candidates_under(headers, "forwarded-for"@) + candidates_under(headers, "forwarded"@)
        + candidates_under(headers, "x-appengine-user-ip"@) + candidates_under(
        headers,
        "cf-pseudo-ipv4"@,
    )
}

/// The first candidate that is marked as an address. `accepted[i]` says
/// whether candidate `i` is one; a candidate without a mark is none.
pub open spec fn pick_address(candidates: Seq<Seq<char>>, accepted: Seq<bool>) -> Option<Seq<char>>
    decreases candidates.len(),
{
    if candidates.len() == 0 || accepted.len() == 0 {
        None
    } else if accepted[0] {
        Some(candidates[0])
    } else {
        pick_address(candidates.drop_first(), accepted.drop_first())
    }
}

/// Appends the candidates that the header `name` gives.
fn add_candidates(headers: &HeaderTable, name: &str, out: &mut Vec<String>)
    ensures
        views_of(final(out)@) == views_of(old(out)@) + candidates_under(headers@, name@),
{
    let ghost before = views_of(out@);
    match headers.get(name) {
        Some(value) => {
            let parts = split_on(value.as_str(), ',');
            let ghost wanted = trimmed_parts(value@);
            let mut i: usize = 0;
            proof {
                assert(before + wanted.take(0) =~= before);
            }
            while i < parts.len()
                invariant
                    i <= parts.len(),
                    views_of(parts@) == split_seq(value@, ','),
                    wanted == trimmed_parts(value@),
                    views_of(out@) == before + wanted.take(i as int),
                decreases parts.len() - i,
            {
                let piece = trim(parts[i].as_str());
                let ghost so_far = views_of(out@);
                proof {
                    assert(views_of(parts@)[i as int] == parts@[i as int]@);
                }
                out.push(piece);
                proof {
                    assert(views_of(out@) =~= so_far.push(piece@));
                    assert(before + wanted.take(i + 1) =~= (before + wanted.take(i as int)).push(
                        wanted[i as int],
                    ));
                }
                i = i + 1;
            }
            proof {
                assert(wanted.take(parts.len() as int) =~= wanted);
            }
        },
        None => {
            assert(before + Seq::<Seq<char>>::empty() =~= before);
        },
    }
}

/// Lists the texts in the headers that may name the client's address, in
/// the order in which they are to be tried.
pub fn client_ip_candidates(headers: &HeaderTable) -> (candidates: Vec<String>)
    ensures
        views_of(candidates@) == ip_candidates(headers@),
{
    let mut out: Vec<String> = Vec::new();
    proof {
        assert(views_of(out@) =~= Seq::<Seq<char>>::empty());
    }
    add_candidates(headers, "x-client-ip", &mut out);
    add_candidates(headers, "x-forwarded-for", &mut out);
    add_candidates(headers, "cf-connecting-ip", &mut out);
    add_candidates(headers, "fastly-client-ip", &mut out);
    add_candidates(headers, "true-client-ip", &mut out);
    add_candidates(headers, "x-real-ip", &mut out);
    add_candidates(headers, "x-cluster-client-ip", &mut out);
    add_candidates(headers, "x-forwarded", &mut out);
    add_candidates(headers, "forwarded-for", &mut out);
    add_candidates(headers, "forwarded", &mut out);
    add_candidates(headers, "x-appengine-user-ip", &mut out);
    add_candidates(headers, "cf-pseudo-ipv4", &mut out);
    proof {
        assert(Seq::<Seq<char>>::empty() + candidates_under(headers@, "x-client-ip"@)
            =~= candidates_under(headers@, "x-client-ip"@));
    }
    out
}

/// Picks the client's address: the first candidate of the headers that is
/// marked as an address in `is_address`, which holds one mark for each
/// candidate of `client_ip_candidates`, in its order.
pub fn get_client_ip(headers: &HeaderTable, is_address: &Vec<bool>) -> (ip: Option<String>)
    ensures
        opt_view(ip) == pick_address(ip_candidates(headers@), is_address@),
{
    let candidates = client_ip_candidates(headers);
    let ghost all = ip_candidates(headers@);
    let mut i: usize = 0;
    proof {
        assert(all.skip(0) =~= all);
        assert(is_address@.skip(0) =~= is_address@);
    }
    while i < candidates.len() && i < is_address.len()
        invariant
            i <= candidates.len(),
            i <= is_address.len(),
            views_of(candidates@) == all,
            all == ip_candidates(headers@),
            pick_address(all, is_address@) == pick_address(
                all.skip(i as int),
                is_address@.skip(i as int),
            ),
        decreases candidates.len() - i,
    {
        proof {
            assert(all.skip(i as int)[0] == all[i as int]);
            assert(is_address@.skip(i as int)[0] == is_address@[i as int]);
            assert(all.skip(i as int).drop_first() =~= all.skip(i + 1));
            assert(is_address@.skip(i as int).drop_first() =~= is_address@.skip(i + 1));
            assert(all[i as int] == candidates@[i as int]@);
        }
        if is_address[i] {
            return Some(candidates[i].clone());
        }
        i = i + 1;
    }
    None
}

/// The value under `name`, if there is one.
pub open spec fn lookup(headers: Map<Seq<char>, Seq<char>>, name: Seq<char>) -> Option<Seq<char>> {
    if headers.contains_key(name) {
        Some(headers[name])
    } else {
        None
    }
}

/// The headers that an event keeps of a request: those of the message
/// without the pseudo-headers.
pub open spec fn request_headers_of(raw: Seq<RawHeader>) -> Map<Seq<char>, Seq<char>> {
    header_map_of(raw).restrict(ordinary_names())
}

/// The request side that a request-headers message describes. The address
/// is picked among the candidates of the kept headers by the marks in
/// `accepted`.
pub open spec fn request_of(time: Seq<char>, raw: Seq<RawHeader>, accepted: Seq<bool>) -> RequestView {
    let all = header_map_of(raw);
    let headers = request_headers_of(raw);
    RequestView {
        time,
        headers,
        uri: match lookup(all, ":path"@) {
            Some(path) => path,
            None => Seq::empty(),
        },
        verb: match lookup(all, ":method"@) {
            Some(method) => method,
            None => "GET"@,
        },
        ip_address: pick_address(ip_candidates(headers), accepted),
        api_version: lookup(headers, "x-api-version"@),
        transfer_encoding: lookup(headers, "transfer-encoding"@),
    }
}

/// The event with the identities that the configuration names. A
/// configured name replaces what the event held; without one the event
/// keeps it.
pub open spec fn with_identity(event: EventView, config: Config) -> EventView {
    EventView {
        user_id: match config.env.user_id_header {
            Some(name) => Some(name@),
            None => event.user_id,
        },
        company_id: match config.env.company_id_header {
            Some(name) => Some(name@),
            None => event.company_id,
        },
        ..event
    }
}

/// The event after a request-headers message: a new request side, which
/// keeps only the time of the old one, and the configured identities.
pub open spec fn request_applied(
    event: EventView,
    config: Config,
    raw: Seq<RawHeader>,
    accepted: Seq<bool>,
) -> EventView {
    with_identity(
        EventView {
            direction: Direction::Incoming,
            request: request_of(event.request.time, raw, accepted),
            ..event
        },
        config,
    )
}

/// The status that a response names: the number that its status text
/// denotes, or 0 where that is none.
pub open spec fn status_of(raw: Seq<RawHeader>) -> nat {
    match parse_usize_seq(status_text(raw)) {
        Some(n) => n as nat,
        None => 0,
    }
}

/// The response side that a response-headers message describes.
pub open spec fn response_of(time: Seq<char>, raw: Seq<RawHeader>) -> ResponseView {
    ResponseView {
        time,
        status: status_of(raw),
        headers: header_map_of(raw),
        ip_address: None,
        body: None,
    }
}

/// The event after a response-headers message that arrived at `time`.
pub open spec fn response_applied(event: EventView, time: Seq<char>, raw: Seq<RawHeader>) -> EventView {
    EventView { response: Some(response_of(time, raw)), ..event }
}

/// Lists the address candidates of a request-headers message, in the order
/// in which `process_request_headers` expects their marks.
pub fn request_ip_candidates(headers_msg: &HttpHeaders) -> (candidates: Vec<String>)
    ensures
        views_of(candidates@) == ip_candidates(request_headers_of(headers_msg@)),
{
    let mut headers = header_list_to_map(&headers_msg.headers);
    headers.remove_pseudo_headers();
    client_ip_candidates(&headers)
}

/// Fills the identities of an event from the configuration.
pub fn add_env_headers_to_event(config: &Config, event: &mut Event)
    ensures
        final(event)@ == with_identity(old(event)@, *config),
{
    if let Some(user_id_header) = &config.env.user_id_header {
        event.user_id = Some(user_id_header.clone());
    }
    if let Some(company_id_header) = &config.env.company_id_header {
        event.company_id = Some(company_id_header.clone());
    }
}

/// Reads a request-headers message into the event: URI, verb, headers
/// without pseudo-headers, client address, API version, transfer encoding
/// and the configured identities. `is_address` marks, for each candidate
/// of `request_ip_candidates`, whether it is an IP address.
pub fn process_request_headers(
    config: &Config,
    event: &mut Event,
    headers_msg: &HttpHeaders,
    is_address: &Vec<bool>,
)
    ensures
        final(event)@ == request_applied(old(event)@, *config, headers_msg@, is_address@),
{
    event.direction = Direction::Incoming;
    let mut headers = header_list_to_map(&headers_msg.headers);
    event.request.uri = match headers.get(":path") {
        Some(path) => path,
        None => String::new(),
    };
    event.request.verb = match headers.get(":method") {
        Some(method) => method,
        None => "GET".to_owned(),
    };
    headers.remove_pseudo_headers();
    event.request.ip_address = get_client_ip(&headers, is_address);
    event.request.api_version = headers.get("x-api-version");
    event.request.transfer_encoding = headers.get("transfer-encoding");
    event.request.headers = headers;
    add_env_headers_to_event(config, event);
}

/// Reads a response-headers message that arrived at `time` into the event.
pub fn record_response_headers(event: &mut Event, response_headers_msg: &HttpHeaders, time: String)
    ensures
        final(event)@ == response_applied(old(event)@, time@, response_headers_msg@),
{
    let status_str = extract_status(response_headers_msg);
    let status = match parse_usize(status_str.as_str()) {
        Some(n) => n,
        None => 0,
    };
    let response = ResponseInfo {
        time,
        status,
        headers: header_list_to_map(&response_headers_msg.headers),
        ip_address: None,
        body: None,
    };
    event.response = Some(response);
}

/// Calls chrono's `Utc::now` and renders the instant with
/// `DateTime::to_rfc3339`. Nothing is claimed of the text: it depends on
/// the clock. The call fails where the clock stands before 1970.
#[verifier::external_body]
pub(crate) fn now_rfc3339() -> (time: String) {
    chrono::Utc::now().to_rfc3339()
}

/// Reads a response-headers message into the event, with the current time
/// as the time of the response.
pub fn process_response_headers(event: &mut Event, response_headers_msg: &HttpHeaders)
    ensures
        final(event).response is Some,
        final(event)@ == response_applied(
            old(event)@,
            final(event).response->0.time@,
            response_headers_msg@,
        ),
{
    let time = now_rfc3339();
    record_response_headers(event, response_headers_msg, time);
}

/// Hands a finished, serialized event to the buffer and runs the check
/// that follows every push. The batches that come back are to be sent, in
/// their order.
pub fn store_and_flush_event(event_context: &mut EventRootContext, serialized: Bytes) -> (batches:
    Vec<Batch>)
    requires
        old(event_context)@.max >= 1,
    ensures
        final(event_context).settings() == old(event_context).settings(),
        final(event_context)@ == old(event_context)@.push(bytes_of(serialized)).check(),
        batch_views(batches@) == sealed_all(
            old(event_context)@.push(bytes_of(serialized)).check_batches(),
        ),
{
    event_context.push_event(serialized);
    event_context.check_and_flush_buffer()
}

/// The part of a curl command that sets the headers: ` -H 'name: value'`
/// for each, in order.
pub open spec fn header_flags(headers: Seq<HeaderPair>) -> Seq<char>
    decreases headers.len(),
{
    if headers.len() == 0 {
        Seq::empty()
    } else {
        header_flags(headers.drop_last()) + " -H '"@ + headers.last().0 + ": "@ + headers.last().1
            + "'"@
    }
}

/// The text of a body for display: what it encodes as UTF-8, or nothing
/// where it is not well-formed.
pub open spec fn body_text(body: Seq<u8>) -> Seq<char> {
    if valid_utf8(body) {
        decode_utf8(body)
    } else {
        Seq::empty()
    }
}

/// The part of a curl command that gives the body.
pub open spec fn data_flag(body: Option<Seq<u8>>) -> Seq<char> {
    match body {
        Some(b) => " --data '"@ + body_text(b) + "'"@,
        None => Seq::empty(),
    }
}

/// The curl command that makes the same request.
pub open spec fn curl_command(
    method: Seq<char>,
    url: Seq<char>,
    headers: Seq<HeaderPair>,
    body: Option<Seq<u8>>,
) -> Seq<char> {
    "curl -v -X "@ + method + " '"@ + url + "'"@ + header_flags(headers) + data_flag(body)
}

/// The bytes of an optional buffer.
pub open spec fn opt_bytes(body: Option<&Bytes>) -> Option<Seq<u8>> {
    match body {
        Some(b) => Some(bytes_of(*b)),
        None => None,
    }
}

/// Writes a request as a curl command, for a maintainer to run by hand.
pub fn generate_curl_command(
    method: &str,
    url: &str,
    headers: &Vec<(String, String)>,
    body: Option<&Bytes>,
) -> (command: String)
    ensures
        command@ == curl_command(
            method@,
            url@,
            pair_views(headers@),
            opt_bytes(body),
        ),
{
    let ghost pairs = pair_views(headers@);
    let mut command = String::from_str("curl -v -X ");
    command.append(method);
    command.append(" '");
    command.append(url);
    command.append("'");
    let ghost head = command@;
    let mut i: usize = 0;
    proof {
        assert(pairs.take(0) =~= Seq::<HeaderPair>::empty());
        assert(head + header_flags(pairs.take(0)) =~= head);
    }
    while i < headers.len()
        invariant
            i <= headers.len(),
            pairs == pair_views(headers@),
            command@ == head + header_flags(pairs.take(i as int)),
        decreases headers.len() - i,
    {
        let ghost so_far = command@;
        command.append(" -H '");
        command.append(headers[i].0.as_str());
        command.append(": ");
        command.append(headers[i].1.as_str());
        command.append("'");
        proof {
            let next = pairs.take(i + 1);
            assert(next.drop_last() =~= pairs.take(i as int));
            assert(next.last() == pairs[i as int]);
            assert(command@ =~= head + header_flags(next));
        }
        i = i + 1;
    }
    proof {
        assert(pairs.take(headers.len() as int) =~= pairs);
    }
    if let Some(body) = body {
        let text = match from_utf8(bytes_as_slice(body)) {
            Some(t) => t,
            None => String::new(),
        };
        let ghost so_far = command@;
        command.append(" --data '");
        command.append(text.as_str());
        command.append("'");
        proof {
            assert(command@ =~= so_far + (" --data '"@ + body_text(bytes_of(*body)) + "'"@));
        }
    } else {
        proof {
            assert(command@ + Seq::<char>::empty() =~= command@);
        }
    }
    command
}

/// How much the collector logs; each level includes those before it.
#[derive(Debug, Clone, Copy, PartialEq, Eq)]
pub enum LogLevel {
    Off,
    Error,
    Warn,
    Info,
    Debug,
    Trace,
}

/// The level that debugging asks for: everything with it, warnings and
/// errors without.
pub open spec fn debug_level(debug: bool) -> LogLevel {
    if debug {
        LogLevel::Trace
    } else {
        LogLevel::Warn
    }
}

/// The level with the lower-case name `name`, if it names one.
pub open spec fn level_named(name: Seq<char>) -> Option<LogLevel> {
    if name == "trace"@ {
        Some(LogLevel::Trace)
    } else if name == "debug"@ {
        Some(LogLevel::Debug)
    } else if name == "info"@ {
        Some(LogLevel::Info)
    } else if name == "warn"@ {
        Some(LogLevel::Warn)
    } else if name == "error"@ {
        Some(LogLevel::Error)
    } else {
        None
    }
}

/// The level that a configuration asks for: the one that its log setting
/// names, in any case of letters, else the one that debugging asks for.
pub open spec fn level_for(config: Config) -> LogLevel {
    match config.env.rust_log {
        Some(name) => match level_named(lowercase_chars(name@)) {
            Some(level) => level,
            None => debug_level(config.env.debug),
        },
        None => debug_level(config.env.debug),
    }
}

/// The line that tells the level.
pub open spec fn level_banner(level: LogLevel) -> Seq<char> {
    match level {
        LogLevel::Error => "Logging level set to: ERROR"@,
        LogLevel::Warn => "Logging level set to: WARN"@,
        LogLevel::Info => "Logging level set to: INFO"@,
        LogLevel::Debug => "Logging level set to: DEBUG"@,
        LogLevel::Trace => "Logging level set to: TRACE"@,
        LogLevel::Off => "Logging is turned OFF"@,
    }
}

/// The level to log at where the log setting names none.
pub fn set_level_based_on_debug(config: &Config) -> (level: LogLevel)
    ensures
        level == debug_level(config.env.debug),
{
    if config.env.debug {
        LogLevel::Trace
    } else {
        LogLevel::Warn
    }
}

/// Writes the line that tells the level.
pub fn display_log_level(level: LogLevel) -> (line: String)
    ensures
        line@ == level_banner(level),
{
    match level {
        LogLevel::Error => "Logging level set to: ERROR".to_owned(),
        LogLevel::Warn => "Logging level set to: WARN".to_owned(),
        LogLevel::Info => "Logging level set to: INFO".to_owned(),
        LogLevel::Debug => "Logging level set to: DEBUG".to_owned(),
        LogLevel::Trace => "Logging level set to: TRACE".to_owned(),
        LogLevel::Off => "Logging is turned OFF".to_owned(),
    }
}

/// Chooses the level to log at and writes the line that tells it.
pub fn set_and_display_log_level(config: &Config) -> (r: (LogLevel, String))
    ensures
        r.0 == level_for(*config),
        r.1@ == level_banner(r.0),
{
    let level = match &config.env.rust_log {
        Some(rust_log) => {
            let name = to_lowercase(rust_log.as_str());
            if name == "trace".to_owned() {
                LogLevel::Trace
            } else if name == "debug".to_owned() {
                LogLevel::Debug
            } else if name == "info".to_owned() {
                LogLevel::Info
            } else if name == "warn".to_owned() {
                LogLevel::Warn
            } else if name == "error".to_owned() {
                LogLevel::Error
            } else {
                set_level_based_on_debug(config)
            }
        },
        None => set_level_based_on_debug(config),
    };
    let line = display_log_level(level);
    (level, line)
}

/// The reply to every message: go on, with nothing to change.
pub fn simplified_grpc_response() -> (reply: ProcessingResponse)
    ensures
        reply == (ProcessingResponse { phase: ReplyPhase::RequestHeaders, mutates: false }),
{
    ProcessingResponse { phase: ReplyPhase::RequestHeaders, mutates: false }
}

} // verus!
