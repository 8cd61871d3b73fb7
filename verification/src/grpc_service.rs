//! The per-stream state machine: what each inbound message does to the
//! stream's event, what is replied, and when the event is handed on.

use crate::config::Config;
use crate::event::{Event, EventView, RequestView};
use crate::protocol::{MessageView, ProcessingResponse, ReplyPhase, StreamMessage};
use crate::root_context::{batch_views, batches_of, sealed_all, Batch, BufferModel, EventRootContext};
use crate::text::views_of;
use crate::utils::{
    ip_candidates, now_rfc3339, process_request_headers, record_response_headers, request_applied,
    request_headers_of, request_ip_candidates, response_applied, simplified_grpc_response,
};
use vstd::prelude::*;

verus! {

/// A stream as a value: its event so far, whether request headers were
/// seen, and whether the event was handed on.
pub struct StreamModel {
    pub event: EventView,
    pub request_seen: bool,
    pub submitted: bool,
}

/// One arrival on a stream: the message, the time at which it came, and
/// the marks that say which of its address candidates are IP addresses.
pub struct Arrival {
    pub message: MessageView,
    pub time: Seq<char>,
    pub accepted: Seq<bool>,
}

impl StreamModel {
    /// A stream that has received nothing.
    pub open spec fn start() -> StreamModel {
        StreamModel { event: EventView::empty(), request_seen: false, submitted: false }
    }

    /// The event after the arrival. Request headers stamp the request with
    /// their time and fill it in; response headers fill in the response;
    /// other messages leave the event alone.
    pub open spec fn event_after(self, config: Config, arrival: Arrival) -> EventView {
        match arrival.message {
            MessageView::RequestHeaders(raw) => request_applied(
                EventView {
                    request: RequestView { time: arrival.time, ..self.event.request },
                    ..self.event
                },
                config,
                raw,
                arrival.accepted,
            ),
            MessageView::ResponseHeaders(raw) => response_applied(self.event, arrival.time, raw),
            MessageView::Other => self.event,
        }
    }

    /// The stream after the arrival.
    pub open spec fn after(self, config: Config, arrival: Arrival) -> StreamModel {
        StreamModel {
            event: self.event_after(config, arrival),
            request_seen: self.request_seen || arrival.message is RequestHeaders,
            submitted: self.submitted || arrival.message is ResponseHeaders,
        }
    }

    /// The event that the arrival hands on: the stream's event as the first
    /// response headers leave it. Nothing is handed on twice.
    pub open spec fn submission(self, config: Config, arrival: Arrival) -> Option<EventView> {
        if arrival.message is ResponseHeaders && !self.submitted {
            Some(self.event_after(config, arrival))
        } else {
            None
        }
    }

    /// Whether the arrival hands on a response that no request preceded.
    pub open spec fn unmatched(self, arrival: Arrival) -> bool {
        arrival.message is ResponseHeaders && !self.submitted && !self.request_seen
    }

    /// The event that the end of the stream hands on: the event as it
    /// stands, unless it was handed on before.
    pub open spec fn submission_at_close(self) -> Option<EventView> {
        if self.submitted {
            None
        } else {
            Some(self.event)
        }
    }

    /// The stream after its end.
    pub open spec fn closed(self) -> StreamModel {
        StreamModel { submitted: true, ..self }
    }

    /// The stream after a run of arrivals.
    pub open spec fn after_all(self, config: Config, arrivals: Seq<Arrival>) -> StreamModel
        decreases arrivals.len(),
    {
        if arrivals.len() == 0 {
            self
        } else {
            self.after(config, arrivals[0]).after_all(config, arrivals.drop_first())
        }
    }

    /// The events that a run of arrivals hands on, in order.
    pub open spec fn submissions(self, config: Config, arrivals: Seq<Arrival>) -> Seq<EventView>
        decreases arrivals.len(),
    {
        if arrivals.len() == 0 {
            Seq::empty()
        } else {
            let rest = self.after(config, arrivals[0]).submissions(config, arrivals.drop_first());
            match self.submission(config, arrivals[0]) {
                Some(event) => seq![event] + rest,
                None => rest,
            }
        }
    }

    /// The events that a whole stream hands on: those of its arrivals and
    /// that of its end.
    pub open spec fn all_submissions(self, config: Config, arrivals: Seq<Arrival>) -> Seq<EventView> {
        let during = self.submissions(config, arrivals);
        match self.after_all(config, arrivals).submission_at_close() {
            Some(event) => during.push(event),
            None => during,
        }
    }
}

/// The reply that answers a message.
pub open spec fn reply_to(message: MessageView) -> ProcessingResponse {
    ProcessingResponse { phase: ReplyPhase::RequestHeaders, mutates: false }
}

/// The replies to a run of arrivals: one for each, in the order of the
/// arrivals.
pub open spec fn replies(arrivals: Seq<Arrival>) -> Seq<ProcessingResponse> {
    Seq::new(arrivals.len(), |i: int| reply_to(arrivals[i].message))
}

/// A stream hands on exactly one event, however many messages it carries:
/// none once it has handed one on, else one.
pub proof fn lemma_one_event_per_stream(stream: StreamModel, config: Config, arrivals: Seq<Arrival>)
    ensures
        stream.all_submissions(config, arrivals).len() == if stream.submitted {
            0nat
        } else {
            1nat
        },
        StreamModel::start().all_submissions(config, arrivals).len() == 1,
{
    lemma_submissions_count(stream, config, arrivals);
    lemma_submissions_count(StreamModel::start(), config, arrivals);
}

/// The count of the events that a stream hands on, from any state.
proof fn lemma_submissions_count(stream: StreamModel, config: Config, arrivals: Seq<Arrival>)
    ensures
        stream.all_submissions(config, arrivals).len() == if stream.submitted {
            0nat
        } else {
            1nat
        },
    decreases arrivals.len(),
{
    if arrivals.len() > 0 {
        let next = stream.after(config, arrivals[0]);
        lemma_submissions_count(next, config, arrivals.drop_first());
    }
}

/// The event that a stream hands on is the one that its first response
/// headers complete; a stream without response headers hands on, at its
/// end, the event as its last message left it.
pub proof fn lemma_submission_moment(
    stream: StreamModel,
    config: Config,
    arrivals: Seq<Arrival>,
    first: int,
)
    requires
        !stream.submitted,
        0 <= first <= arrivals.len(),
        forall|i: int| 0 <= i < first ==> !((#[trigger] arrivals[i]).message is ResponseHeaders),
        first < arrivals.len() ==> arrivals[first].message is ResponseHeaders,
    ensures
        stream.all_submissions(config, arrivals) == seq![
            if first < arrivals.len() {
                stream.after_all(config, arrivals.take(first)).event_after(config, arrivals[first])
            } else {
                stream.after_all(config, arrivals).event
            },
        ],
    decreases arrivals.len(),
{
    if arrivals.len() == 0 {
        assert(stream.all_submissions(config, arrivals) =~= seq![stream.event]);
    } else if first == 0 {
        let next = stream.after(config, arrivals[0]);
        lemma_submissions_count(next, config, arrivals.drop_first());
        assert(next.all_submissions(config, arrivals.drop_first()).len() == 0);
        assert(next.submissions(config, arrivals.drop_first()).len() == 0);
        assert(arrivals.take(0) =~= Seq::<Arrival>::empty());
        assert(stream.all_submissions(config, arrivals) =~= seq![
            stream.event_after(config, arrivals[0]),
        ]);
    } else {
        let next = stream.after(config, arrivals[0]);
        let rest = arrivals.drop_first();
        assert forall|i: int| 0 <= i < first - 1 implies !((#[trigger] rest[i]).message is ResponseHeaders) by {
            assert(rest[i] == arrivals[i + 1]);
        }
        lemma_submission_moment(next, config, rest, first - 1);
        assert(arrivals.take(first).drop_first() =~= rest.take(first - 1));
        assert(arrivals.take(first)[0] == arrivals[0]);
        assert(stream.after_all(config, arrivals.take(first)) == next.after_all(
            config,
            rest.take(first - 1),
        ));
        if first < arrivals.len() {
            assert(rest[first - 1] == arrivals[first]);
        }
    }
}

/// Every arrival is answered by exactly one reply, the replies stand in
/// the order of the arrivals, and each tells the gateway to go on without
/// a change.
pub proof fn lemma_reply_parity(arrivals: Seq<Arrival>)
    ensures
        replies(arrivals).len() == arrivals.len(),
        forall|i: int|
            0 <= i < arrivals.len() ==> #[trigger] replies(arrivals)[i] == reply_to(
                arrivals[i].message,
            ) && !replies(arrivals)[i].mutates,
{
}

/// What one message brings about.
#[derive(Debug)]
pub struct StepOutput {
    /// The reply to send for the message.
    pub reply: ProcessingResponse,
    /// The event to hand to the buffer, if the message completes one.
    pub submission: Option<Event>,
    /// Whether the event is handed on without request headers before it.
    pub unmatched: bool,
}

/// The view of an optional event.
pub open spec fn opt_event_view(event: Option<Event>) -> Option<EventView> {
    match event {
        Some(e) => Some(e@),
        None => None,
    }
}

/// The state of one stream.
#[derive(Debug)]
pub struct StreamProcessor {
    event: Event,
    request_headers_received: bool,
    submitted: bool,
}

impl View for StreamProcessor {
    type V = StreamModel;

    closed spec fn view(&self) -> StreamModel {
        StreamModel {
            event: self.event@,
            request_seen: self.request_headers_received,
            submitted: self.submitted,
        }
    }
}

impl StreamProcessor {
    /// The state of a stream that has received nothing.
    pub fn new() -> (stream: Self)
        ensures
            stream@ == StreamModel::start(),
    {
        StreamProcessor {
            event: Event::default(),
            request_headers_received: false,
            submitted: false,
        }
    }

    /// The stream's event as it stands.
    pub fn event(&self) -> (event: &Event)
        ensures
            event@ == self@.event,
    {
        &self.event
    }

    /// Lists the address candidates of a message: those of its headers if
    /// it is a request-headers message, else none. The marks that
    /// `on_message` takes stand in this order.
    pub fn ip_candidates(message: &StreamMessage) -> (candidates: Vec<String>)
        ensures
            views_of(candidates@) == match message@ {
                MessageView::RequestHeaders(raw) => ip_candidates(request_headers_of(raw)),
                _ => Seq::empty(),
            },
    {
        match message {
            StreamMessage::RequestHeaders(headers_msg) => request_ip_candidates(headers_msg),
            _ => {
                let none: Vec<String> = Vec::new();
                assert(views_of(none@) =~= Seq::<Seq<char>>::empty());
                none
            },
        }
    }

    /// Takes in a message that arrived at `now`.
    pub fn on_message_at(
        &mut self,
        config: &Config,
        message: &StreamMessage,
        now: String,
        is_address: &Vec<bool>,
    ) -> (out: StepOutput)
        ensures
            ({
                let arrival = Arrival { message: message@, time: now@, accepted: is_address@ };
                &&& final(self)@ == old(self)@.after(*config, arrival)
                &&& out.reply == reply_to(message@)
                &&& opt_event_view(out.submission) == old(self)@.submission(*config, arrival)
                &&& out.unmatched == old(self)@.unmatched(arrival)
            }),
    {
        let mut submission: Option<Event> = None;
        let mut unmatched = false;
        match message {
            StreamMessage::RequestHeaders(headers_msg) => {
                self.request_headers_received = true;
                self.event.request.time = now;
                process_request_headers(config, &mut self.event, headers_msg, is_address);
            },
            StreamMessage::ResponseHeaders(headers_msg) => {
                record_response_headers(&mut self.event, headers_msg, now);
                if !self.submitted {
                    unmatched = !self.request_headers_received;
                    submission = Some(self.event.clone());
                    self.submitted = true;
                }
            },
            StreamMessage::Other => {},
        }
        StepOutput { reply: simplified_grpc_response(), submission, unmatched }
    }

    /// Takes in a message that arrives now.
    pub fn on_message(&mut self, config: &Config, message: &StreamMessage, is_address: &Vec<bool>) -> (out:
        StepOutput)
        ensures
            out.reply == reply_to(message@),
            exists|arrival: Arrival|
                {
                    &&& arrival.message == message@
                    &&& arrival.accepted == is_address@
                    &&& final(self)@ == #[trigger] old(self)@.after(*config, arrival)
                    &&& opt_event_view(out.submission) == old(self)@.submission(*config, arrival)
                    &&& out.unmatched == old(self)@.unmatched(arrival)
                },
    {
        let now = now_rfc3339();
        let ghost arrival = Arrival { message: message@, time: now@, accepted: is_address@ };
        let out = self.on_message_at(config, message, now, is_address);
        assert(self@ == old(self)@.after(*config, arrival));
        out
    }

    /// Ends the stream: hands on the event as it stands, unless the stream
    /// handed it on before.
    pub fn on_close(&mut self) -> (submission: Option<Event>)
        ensures
            opt_event_view(submission) == old(self)@.submission_at_close(),
            final(self)@ == old(self)@.closed(),
    {
        if self.submitted {
            None
        } else {
            self.submitted = true;
            Some(self.event.clone())
        }
    }
}

/// What is sent to the gateway after a message could not be read.
#[derive(Debug)]
pub struct ErrorReply {
    pub message: String,
}

/// The reply to a read error: an internal error that names no cause.
pub fn on_read_error() -> (reply: ErrorReply)
    ensures
        reply.message@ == "Error processing request"@,
{
    ErrorReply { message: "Error processing request".to_owned() }
}

/// Whether the stream is read further after a read error: only if the
/// error reply could be sent.
pub fn keep_reading(error_reply_sent: bool) -> (go_on: bool)
    ensures
        go_on == error_reply_sent,
{
    error_reply_sent
}

/// The number of events that the periodic flush needs in the buffer: it
/// sends whatever is there.
pub const PERIODIC_MIN_COUNT: usize = 1;

/// Milliseconds to wait before asking again for a buffer that is in use.
pub const LOCK_RETRY_DELAY_MS: u64 = 50;

/// The milliseconds between two periodic flushes.
pub fn periodic_wait_ms(config: &Config) -> (ms: u64)
    ensures
        ms == config.env.batch_max_wait,
{
    config.env.batch_max_wait as u64
}

/// The periodic flush: sends all that the buffer holds, however little.
pub fn periodic_flush(event_context: &mut EventRootContext) -> (batches: Vec<Batch>)
    requires
        old(event_context)@.max >= 1,
    ensures
        final(event_context).settings() == old(event_context).settings(),
        final(event_context)@ == (BufferModel {
            events: Seq::empty(),
            ..old(event_context)@
        }),
        batch_views(batches@) == sealed_all(
            batches_of(old(event_context)@.events, 1, old(event_context)@.max),
        ),
{
    proof {
        crate::root_context::lemma_periodic_flush_empties(event_context@);
    }
    event_context.drain_and_send(PERIODIC_MIN_COUNT)
}

} // verus!
