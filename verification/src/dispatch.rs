//! The upload of one batch: the request to send, and what the answer
//! means for the batch.

use crate::event::opt_view;
use crate::header_table::{pair_views, HeaderPair};
use crate::root_context::{Batch, EventRootContext};
use crate::utils::{get_header, header_value};
use bytes::Bytes;
use vstd::prelude::*;
use vstd::string::*;
use vstd::utf8::encode_utf8;

verus! {

/// Whether `b` may stand in a header value: any byte but a control
/// character other than the tab.
pub open spec fn header_value_byte(b: u8) -> bool {
    (b >= 32 && b != 127) || b == 9
}

/// Whether all of `bytes` may stand in a header value.
pub open spec fn header_value_ok(bytes: Seq<u8>) -> bool {
    forall|i: int| 0 <= i < bytes.len() ==> header_value_byte(#[trigger] bytes[i])
}

/// Whether `b` may stand in an HTTP method: a letter, a digit, or one of
/// the marks that a token admits.
pub open spec fn method_byte(b: u8) -> bool {
    ||| 0x30 <= b <= 0x39
    ||| 0x41 <= b <= 0x5a
    ||| 0x61 <= b <= 0x7a
    ||| b == 0x21
    ||| 0x23 <= b <= 0x27
    ||| b == 0x2a
    ||| b == 0x2b
    ||| b == 0x2d
    ||| b == 0x2e
    ||| 0x5e <= b <= 0x60
    ||| b == 0x7c
    ||| b == 0x7e
}

/// Whether `bytes` is an HTTP method: one or more method bytes.
pub open spec fn method_ok(bytes: Seq<u8>) -> bool {
    bytes.len() > 0 && forall|i: int| 0 <= i < bytes.len() ==> method_byte(#[trigger] bytes[i])
}

/// Calls reqwest's `HeaderValue::from_str` and tells whether it takes the
/// text. It does where no byte of the text is a control character other
/// than the tab.
#[verifier::external_body]
pub(crate) fn header_value_accepted(value: &str) -> (ok: bool)
    ensures
        ok == header_value_ok(encode_utf8(value@)),
{
    reqwest::header::HeaderValue::from_str(value).is_ok()
}

/// Calls reqwest's `Method::from_bytes` on the bytes of the text and tells
/// whether it takes them. It does where the text is not empty and every
/// byte is one that a method admits.
#[verifier::external_body]
pub(crate) fn method_accepted(method: &str) -> (ok: bool)
    ensures
        ok == method_ok(encode_utf8(method@)),
{
    reqwest::Method::from_bytes(method.as_bytes()).is_ok()
}

/// The path that batches are posted to.
pub open spec fn batch_path() -> Seq<char> {
    "/v1/events/batch"@
}

/// An HTTP request that is ready to be sent.
#[derive(Debug)]
pub struct DispatchRequest {
    pub method: String,
    pub url: String,
    /// The headers in the order in which they are set.
    pub headers: Vec<(String, String)>,
    pub body: Bytes,
}

/// Why no request can be made.
#[derive(Debug, Clone, Copy, PartialEq, Eq)]
pub enum DispatchError {
    /// The method is not an HTTP method.
    InvalidMethod,
    /// The application identity cannot stand in a header.
    InvalidHeaderValue,
}

/// The headers of every upload for the application `application_id`.
pub open spec fn upload_headers(application_id: Seq<char>) -> Seq<HeaderPair> {
    seq![
        ("content-type"@, "application/json"@),
        ("x-moesif-application-id"@, application_id),
    ]
}

/// The answer of the remote side, as far as the collector reads it.
#[derive(Debug)]
pub struct DispatchResponse {
    pub status: u16,
    pub headers: Vec<(String, String)>,
}

/// How an upload ended.
#[derive(Debug)]
pub enum DispatchOutcome {
    /// The remote side answered.
    Answered(DispatchResponse),
    /// The request could not be made or sent, or no answer came.
    Failed,
}

/// What is known of a batch after its upload.
#[derive(Debug)]
pub enum DispatchReport {
    /// The remote side took the batch and named these versions of its
    /// configuration and of its rules.
    Delivered { config_etag: Option<String>, rules_etag: Option<String> },
    /// The batch is lost: it is neither sent again nor put back.
    Dropped,
}

/// A report as a value.
pub enum ReportView {
    Delivered { config_etag: Option<Seq<char>>, rules_etag: Option<Seq<char>> },
    Dropped,
}

impl View for DispatchReport {
    type V = ReportView;

    open spec fn view(&self) -> ReportView {
        match self {
            DispatchReport::Delivered { config_etag, rules_etag } => ReportView::Delivered {
                config_etag: opt_view(*config_etag),
                rules_etag: opt_view(*rules_etag),
            },
            DispatchReport::Dropped => ReportView::Dropped,
        }
    }
}

/// Whether a status tells that the remote side took the request: 200 to
/// 299.
pub open spec fn is_success(status: u16) -> bool {
    200 <= status <= 299
}

/// What an outcome means for the batch. An answer with a status of
/// success delivers it, with the two version tags that the answer's
/// headers hold; anything else drops it.
pub open spec fn report_of(outcome: DispatchOutcome) -> ReportView {
    match outcome {
        DispatchOutcome::Answered(response) => if is_success(response.status) {
            ReportView::Delivered {
                config_etag: header_value(pair_views(response.headers@), "X-Moesif-Config-Etag"@),
                rules_etag: header_value(pair_views(response.headers@), "X-Moesif-Rules-Etag"@),
            }
        } else {
            ReportView::Dropped
        },
        DispatchOutcome::Failed => ReportView::Dropped,
    }
}

/// Reads the outcome of an upload.
pub fn interpret_outcome(outcome: &DispatchOutcome) -> (report: DispatchReport)
    ensures
        report@ == report_of(*outcome),
{
    match outcome {
        DispatchOutcome::Answered(response) => {
            if 200 <= response.status && response.status <= 299 {
                let config_etag = get_header(&response.headers, "X-Moesif-Config-Etag");
                let rules_etag = get_header(&response.headers, "X-Moesif-Rules-Etag");
                DispatchReport::Delivered { config_etag, rules_etag }
            } else {
                DispatchReport::Dropped
            }
        },
        DispatchOutcome::Failed => DispatchReport::Dropped,
    }
}

impl EventRootContext {
    /// Makes the request that carries `body` to `path` under the
    /// configured base address.
    pub fn dispatch_request(&self, method: &str, path: &str, body: Bytes) -> (r: Result<
        DispatchRequest,
        DispatchError,
    >)
        ensures
            !method_ok(encode_utf8(method@)) ==> r == Err::<DispatchRequest, DispatchError>(
                DispatchError::InvalidMethod,
            ),
            method_ok(encode_utf8(method@)) && !header_value_ok(
                encode_utf8(self.settings().env.moesif_application_id@),
            ) ==> r == Err::<DispatchRequest, DispatchError>(DispatchError::InvalidHeaderValue),
            method_ok(encode_utf8(method@)) && header_value_ok(
                encode_utf8(self.settings().env.moesif_application_id@),
            ) ==> {
                &&& r is Ok
                &&& r->Ok_0.method@ == method@
                &&& r->Ok_0.url@ == self.settings().env.base_uri@ + path@
                &&& pair_views(r->Ok_0.headers@) == upload_headers(
                    self.settings().env.moesif_application_id@,
                )
                &&& r->Ok_0.body == body
            },
    {
        if !method_accepted(method) {
            return Err(DispatchError::InvalidMethod);
        }
        let config = self.config();
        if !header_value_accepted(config.env.moesif_application_id.as_str()) {
            return Err(DispatchError::InvalidHeaderValue);
        }
        let url = config.env.base_uri.clone().concat(path);
        let mut headers: Vec<(String, String)> = Vec::new();
        headers.push(("content-type".to_owned(), "application/json".to_owned()));
        headers.push(
            ("x-moesif-application-id".to_owned(), config.env.moesif_application_id.clone()),
        );
        assert(pair_views(headers@) =~= upload_headers(config.env.moesif_application_id@));
        Ok(DispatchRequest { method: method.to_owned(), url, headers, body })
    }

    /// Makes the request that uploads a batch: a `POST` of its JSON array.
    pub fn batch_request(&self, batch: Batch) -> (r: Result<DispatchRequest, DispatchError>)
        ensures
            !header_value_ok(encode_utf8(self.settings().env.moesif_application_id@)) ==> r == Err::<
                DispatchRequest,
                DispatchError,
            >(DispatchError::InvalidHeaderValue),
            header_value_ok(encode_utf8(self.settings().env.moesif_application_id@)) ==> {
                &&& r is Ok
                &&& r->Ok_0.method@ == "POST"@
                &&& r->Ok_0.url@ == self.settings().env.base_uri@ + batch_path()
                &&& pair_views(r->Ok_0.headers@) == upload_headers(
                    self.settings().env.moesif_application_id@,
                )
                &&& r->Ok_0.body == batch.body
            },
    {
        proof {
            lemma_post_is_a_method();
        }
        self.dispatch_request("POST", "/v1/events/batch", batch.body)
    }

    /// Takes note of how the upload of a batch ended. The buffer stays as
    /// it is whatever the outcome: a batch that was not delivered is not
    /// put back.
    pub fn record_dispatch(&mut self, outcome: &DispatchOutcome) -> (report: DispatchReport)
        ensures
            *final(self) == *old(self),
            report@ == report_of(*outcome),
    {
        interpret_outcome(outcome)
    }
}

/// `POST` is an HTTP method.
pub proof fn lemma_post_is_a_method()
    ensures
        method_ok(encode_utf8("POST"@)),
{
    reveal_strlit("POST");
    let s = "POST";
    assert(is_ascii(s)) by {
        assert(s@.len() == 4);
        assert(s@[0] == 'P' && s@[1] == 'O' && s@[2] == 'S' && s@[3] == 'T');
        assert forall|i: int| 0 <= i < s@.len() implies (s@[i] as u32) < 128 by {}
    }
    is_ascii_spec_bytes(s);
    let bytes = encode_utf8(s@);
    assert(bytes.len() == 4);
    assert(bytes[0] == 0x50 && bytes[1] == 0x4f && bytes[2] == 0x53 && bytes[3] == 0x54);
}

} // verus!
