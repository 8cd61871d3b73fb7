//! The shared buffer of serialized events: when it flushes, and how it is
//! cut into size-bounded batches.

use crate::config::Config;
use bytes::Bytes;
use vstd::prelude::*;

verus! {

/// `bytes::Bytes`, a buffer of bytes that is cheap to hand on. Nothing of
/// its inside is known here but what `bytes_of` names.
#[verifier::external_type_specification]
#[verifier::external_body]
pub struct ExBytes(bytes::Bytes);

/// The bytes that a `Bytes` holds, in order.
pub uninterp spec fn bytes_of(b: Bytes) -> Seq<u8>;

/// Calls `Bytes::from` on a vector. The result holds the vector's bytes.
#[verifier::external_body]
pub(crate) fn bytes_from_vec(v: Vec<u8>) -> (b: Bytes)
    ensures
        bytes_of(b) == v@,
{
    Bytes::from(v)
}

/// Calls `Bytes::as_ref`. The slice is the bytes that `b` holds.
#[verifier::external_body]
pub(crate) fn bytes_as_slice(b: &Bytes) -> (s: &[u8])
    ensures
        s@ == bytes_of(*b),
{
    b.as_ref()
}

/// The byte `[`, which opens a JSON array.
pub const ARRAY_OPEN: u8 = 0x5b;

/// The byte `]`, which closes a JSON array.
pub const ARRAY_CLOSE: u8 = 0x5d;

/// The byte `,`, which separates the items of a JSON array.
pub const ITEM_SEPARATOR: u8 = 0x2c;

/// The items in order with a comma between neighbours.
pub open spec fn joined(items: Seq<Seq<u8>>) -> Seq<u8>
    decreases items.len(),
{
    if items.len() == 0 {
        Seq::empty()
    } else if items.len() == 1 {
        items[0]
    } else {
        joined(items.drop_last()) + seq![ITEM_SEPARATOR] + items.last()
    }
}

/// The JSON array whose items are the given serialized values, in order.
pub open spec fn json_array(items: Seq<Seq<u8>>) -> Seq<u8> {
    seq![ARRAY_OPEN] + joined(items) + seq![ARRAY_CLOSE]
}

/// The array lists its items in their order: an array of one item is the
/// item in brackets, and a further item goes behind a comma at the end.
pub proof fn lemma_json_array_grows(items: Seq<Seq<u8>>, item: Seq<u8>)
    ensures
        json_array(seq![item]) == seq![ARRAY_OPEN] + item + seq![ARRAY_CLOSE],
        items.len() > 0 ==> json_array(items.push(item)) == json_array(items).drop_last() + seq![
            ITEM_SEPARATOR,
        ] + item + seq![ARRAY_CLOSE],
{
    if items.len() > 0 {
        let more = items.push(item);
        assert(more.drop_last() =~= items);
        assert(json_array(more) =~= json_array(items).drop_last() + seq![ITEM_SEPARATOR] + item
            + seq![ARRAY_CLOSE]);
    }
}

/// What each of the buffers holds.
pub open spec fn contents(events: Seq<Bytes>) -> Seq<Seq<u8>> {
    Seq::new(events.len(), |i: int| bytes_of(events[i]))
}

/// Writes serialized events as one JSON array, in their order.
pub fn write_events_json(events: &Vec<Bytes>) -> (body: Bytes)
    ensures
        bytes_of(body) == json_array(contents(events@)),
{
    let ghost items = contents(events@);
    let mut out: Vec<u8> = Vec::new();
    out.push(ARRAY_OPEN);
    let mut i: usize = 0;
    proof {
        assert(items.take(0).len() == 0);
        assert(out@ =~= seq![ARRAY_OPEN] + joined(items.take(0)));
    }
    while i < events.len()
        invariant
            i <= events.len(),
            items == contents(events@),
            out@ == seq![ARRAY_OPEN] + joined(items.take(i as int)),
        decreases events.len() - i,
    {
        let ghost before = out@;
        if i > 0 {
            out.push(ITEM_SEPARATOR);
        }
        let ghost mid = out@;
        let piece = bytes_as_slice(&events[i]);
        out.extend_from_slice(piece);
        proof {
            assert(out@ =~= mid + piece@);
            let t = items.take(i + 1);
            assert(t.drop_last() =~= items.take(i as int));
            assert(t.last() == piece@);
            if i == 0 {
                assert(t[0] == piece@);
                assert(joined(t) == piece@);
                assert(before =~= seq![ARRAY_OPEN]);
            } else {
                assert(out@ =~= seq![ARRAY_OPEN] + (joined(items.take(i as int)) + seq![
                    ITEM_SEPARATOR,
                ] + piece@));
            }
        }
        i = i + 1;
    }
    out.push(ARRAY_CLOSE);
    proof {
        assert(items.take(events.len() as int) =~= items);
    }
    bytes_from_vec(out)
}

/// The number of events in the next batch of a buffer of `len` events:
/// all of them, up to `max`.
pub open spec fn batch_len(len: nat, max: nat) -> nat {
    if len < max {
        len
    } else {
        max
    }
}

/// The batches that a flush cuts from `events`: prefixes of at most `max`
/// events, one after another, for as long as at least `min_count` events
/// are left.
pub open spec fn batches_of(events: Seq<Seq<u8>>, min_count: nat, max: nat) -> Seq<Seq<Seq<u8>>>
    decreases events.len(),
{
    if max > 0 && min_count > 0 && events.len() >= min_count {
        let k = batch_len(events.len(), max) as int;
        seq![events.take(k)] + batches_of(events.skip(k), min_count, max)
    } else {
        Seq::empty()
    }
}

/// The events that such a flush leaves behind.
pub open spec fn left_after(events: Seq<Seq<u8>>, min_count: nat, max: nat) -> Seq<Seq<u8>>
    decreases events.len(),
{
    if max > 0 && min_count > 0 && events.len() >= min_count {
        left_after(events.skip(batch_len(events.len(), max) as int), min_count, max)
    } else {
        events
    }
}

/// The buffer as a value: the serialized events in the order of their
/// arrival, whether a flush is still owed for the first event, and the
/// size threshold.
pub struct BufferModel {
    pub events: Seq<Seq<u8>>,
    pub is_start: bool,
    pub max: nat,
}

impl BufferModel {
    /// The buffer with `event` at its end.
    pub open spec fn push(self, event: Seq<u8>) -> BufferModel {
        BufferModel { events: self.events.push(event), ..self }
    }

    /// Whether a push is followed by a flush: always the first time, and
    /// then whenever the buffer has reached the threshold.
    pub open spec fn flush_due(self) -> bool {
        self.is_start || self.events.len() >= self.max
    }

    /// The buffer after a flush that needs `min_count` events to go on.
    pub open spec fn drain(self, min_count: nat) -> BufferModel {
        BufferModel { events: left_after(self.events, min_count, self.max), ..self }
    }

    /// The buffer after the check that follows a push.
    pub open spec fn check(self) -> BufferModel {
        if self.flush_due() {
            BufferModel { is_start: false, ..self.drain(1) }
        } else {
            self
        }
    }

    /// The batches that the check after a push sends.
    pub open spec fn check_batches(self) -> Seq<Seq<Seq<u8>>> {
        if self.flush_due() {
            batches_of(self.events, 1, self.max)
        } else {
            Seq::empty()
        }
    }
}

/// A flush neither loses, repeats nor reorders events: its batches one after
/// another, followed by what it leaves behind, are the buffer as it was.
pub proof fn lemma_flush_keeps_order(events: Seq<Seq<u8>>, min_count: nat, max: nat)
    ensures
        batches_of(events, min_count, max).flatten() + left_after(events, min_count, max) == events,
    decreases events.len(),
{
    if max > 0 && min_count > 0 && events.len() >= min_count {
        let k = batch_len(events.len(), max) as int;
        let rest = batches_of(events.skip(k), min_count, max);
        let all = seq![events.take(k)] + rest;
        lemma_flush_keeps_order(events.skip(k), min_count, max);
        assert(all.first() == events.take(k));
        assert(all.drop_first() =~= rest);
        assert(all.flatten() == events.take(k) + rest.flatten());
        assert(events.take(k) + rest.flatten() + left_after(events.skip(k), min_count, max)
            =~= events.take(k) + events.skip(k));
        assert(events.take(k) + events.skip(k) =~= events);
    } else {
        assert(Seq::<Seq<Seq<u8>>>::empty().flatten() =~= Seq::<Seq<u8>>::empty());
        assert(Seq::<Seq<u8>>::empty() + events =~= events);
    }
}

/// No batch of a flush is empty, and none holds more events than the size
/// threshold.
pub proof fn lemma_batches_bounded(events: Seq<Seq<u8>>, min_count: nat, max: nat)
    ensures
        forall|i: int|
            0 <= i < batches_of(events, min_count, max).len() ==> 1 <= (#[trigger] batches_of(
                events,
                min_count,
                max,
            )[i]).len() <= max,
    decreases events.len(),
{
    if max > 0 && min_count > 0 && events.len() >= min_count {
        let k = batch_len(events.len(), max) as int;
        let rest = batches_of(events.skip(k), min_count, max);
        lemma_batches_bounded(events.skip(k), min_count, max);
        assert forall|i: int| 0 <= i < batches_of(events, min_count, max).len() implies 1 <= (
        #[trigger] batches_of(events, min_count, max)[i]).len() <= max by {
            if i > 0 {
                assert(batches_of(events, min_count, max)[i] == rest[i - 1]);
            }
        }
    }
}

/// A flush that can run to its end leaves fewer than `min_count` events.
pub proof fn lemma_flush_leaves_few(events: Seq<Seq<u8>>, min_count: nat, max: nat)
    requires
        min_count >= 1,
        max >= 1,
    ensures
        left_after(events, min_count, max).len() < min_count,
    decreases events.len(),
{
    if events.len() >= min_count {
        lemma_flush_leaves_few(events.skip(batch_len(events.len(), max) as int), min_count, max);
    }
}

/// A buffer that holds at least one event and no more than the size
/// threshold goes out whole, as one batch.
pub proof fn lemma_single_batch(events: Seq<Seq<u8>>, max: nat)
    requires
        1 <= events.len() <= max,
    ensures
        batches_of(events, 1, max) == seq![events],
        left_after(events, 1, max) == Seq::<Seq<u8>>::empty(),
{
    let k = batch_len(events.len(), max) as int;
    assert(events.take(k) =~= events);
    assert(events.skip(k) =~= Seq::<Seq<u8>>::empty());
    assert(batches_of(events.skip(k), 1, max) =~= Seq::empty());
    assert(batches_of(events, 1, max) =~= seq![events]);
    assert(left_after(events.skip(k), 1, max) =~= Seq::<Seq<u8>>::empty());
}

/// The periodic flush, which goes on while a single event is left, empties
/// the buffer.
pub proof fn lemma_periodic_flush_empties(buffer: BufferModel)
    requires
        buffer.max >= 1,
    ensures
        buffer.drain(1).events == Seq::<Seq<u8>>::empty(),
        batches_of(buffer.events, 1, buffer.max).flatten() == buffer.events,
{
    lemma_flush_leaves_few(buffer.events, 1, buffer.max);
    lemma_flush_keeps_order(buffer.events, 1, buffer.max);
    assert(buffer.drain(1).events =~= Seq::<Seq<u8>>::empty());
    assert(batches_of(buffer.events, 1, buffer.max).flatten() + Seq::<Seq<u8>>::empty()
        =~= batches_of(buffer.events, 1, buffer.max).flatten());
}

/// The first event that a new buffer gets is flushed at once and alone,
/// whatever the size threshold.
pub proof fn lemma_cold_start_flush(max: nat, event: Seq<u8>)
    requires
        max >= 1,
    ensures
        ({
            let fresh = BufferModel { events: Seq::empty(), is_start: true, max };
            let pushed = fresh.push(event);
            &&& pushed.flush_due()
            &&& pushed.check_batches() == seq![seq![event]]
            &&& pushed.check() == (BufferModel { events: Seq::empty(), is_start: false, max })
        }),
{
    let fresh = BufferModel { events: Seq::<Seq<u8>>::empty(), is_start: true, max };
    let pushed = fresh.push(event);
    let events = pushed.events;
    assert(events =~= seq![event]);
    let k = batch_len(events.len(), max) as int;
    assert(k == 1);
    assert(events.take(1) =~= events);
    assert(events.skip(1) =~= Seq::<Seq<u8>>::empty());
    assert(batches_of(events.skip(1), 1, max) =~= Seq::empty());
    assert(batches_of(events, 1, max) =~= seq![seq![event]]);
    assert(left_after(events.skip(1), 1, max) =~= Seq::<Seq<u8>>::empty());
}

/// After the first check the flush that the first event was owed is used
/// up for good: from then on a push is followed by a flush only at the
/// size threshold.
pub proof fn lemma_cold_start_once(buffer: BufferModel, event: Seq<u8>)
    ensures
        !buffer.check().is_start,
        buffer.check().push(event).flush_due() <==> buffer.check().events.len() + 1 >= buffer.max,
{
}

/// One upload: the JSON array to send and the number of events in it.
#[derive(Debug)]
pub struct Batch {
    pub count: usize,
    pub body: Bytes,
}

/// What a batch made of `chunk` holds.
pub open spec fn sealed(chunk: Seq<Seq<u8>>) -> (nat, Seq<u8>) {
    (chunk.len(), json_array(chunk))
}

/// The size and the payload of each batch.
pub open spec fn batch_views(batches: Seq<Batch>) -> Seq<(nat, Seq<u8>)> {
    Seq::new(batches.len(), |i: int| (batches[i].count as nat, bytes_of(batches[i].body)))
}

/// The same for chunks of events that are yet to be written.
pub open spec fn sealed_all(chunks: Seq<Seq<Seq<u8>>>) -> Seq<(nat, Seq<u8>)> {
    Seq::new(chunks.len(), |i: int| sealed(chunks[i]))
}

/// The buffer that all streams push their finished events into, with the
/// configuration that governs its flushes.
#[derive(Debug)]
pub struct EventRootContext {
    config: Config,
    /// Serialized events in the order of their arrival.
    event_byte_buffer: Vec<Bytes>,
    /// True until the first check after a push.
    is_start: bool,
}

impl Default for EventRootContext {
    /// An empty buffer with the default configuration, which owes no
    /// flush to its first event.
    fn default() -> (ctx: Self)
        ensures
            ctx@ == (BufferModel { events: Seq::empty(), is_start: false, max: 0 }),
    {
        let ctx = EventRootContext {
            config: Config::default(),
            event_byte_buffer: Vec::new(),
            is_start: false,
        };
        assert(ctx@.events =~= Seq::empty());
        ctx
    }
}

impl View for EventRootContext {
    type V = BufferModel;

    closed spec fn view(&self) -> BufferModel {
        BufferModel {
            events: contents(self.event_byte_buffer@),
            is_start: self.is_start,
            max: self.config.env.batch_max_size as nat,
        }
    }
}

impl EventRootContext {
    /// The configuration that the buffer was made with.
    pub closed spec fn settings(&self) -> Config {
        self.config
    }

    /// The size threshold is the configured batch size.
    pub proof fn lemma_threshold(&self)
        ensures
            self@.max == self.settings().env.batch_max_size,
    {
    }

    /// The configuration that the buffer was made with.
    pub fn config(&self) -> (c: &Config)
        ensures
            *c == self.settings(),
    {
        &self.config
    }

    /// The number of events that wait in the buffer.
    pub fn len(&self) -> (n: usize)
        ensures
            n == self@.events.len(),
    {
        self.event_byte_buffer.len()
    }

    /// An empty buffer that still owes the flush of its first event.
    pub fn new(config: Config) -> (ctx: Self)
        ensures
            ctx.settings() == config,
            ctx@ == (BufferModel {
                events: Seq::empty(),
                is_start: true,
                max: config.env.batch_max_size as nat,
            }),
    {
        let ctx = EventRootContext { config, event_byte_buffer: Vec::new(), is_start: true };
        assert(ctx@.events =~= Seq::empty());
        ctx
    }

    /// Appends a serialized event.
    pub fn push_event(&mut self, serialized: Bytes)
        ensures
            final(self)@ == old(self)@.push(bytes_of(serialized)),
            final(self).settings() == old(self).settings(),
    {
        self.event_byte_buffer.push(serialized);
        assert(self@.events =~= old(self)@.events.push(bytes_of(serialized)));
    }

    /// Takes the next batch off the front of the buffer, if the buffer holds
    /// at least `min_count` events: its first events, up to the size
    /// threshold, written as one JSON array.
    pub fn next_batch(&mut self, min_count: usize) -> (r: Option<Batch>)
        ensures
            final(self).settings() == old(self).settings(),
            final(self)@.is_start == old(self)@.is_start,
            final(self)@.max == old(self)@.max,
            old(self)@.events.len() < min_count ==> r is None && final(self)@ == old(self)@,
            old(self)@.events.len() >= min_count ==> {
                let k = batch_len(old(self)@.events.len(), old(self)@.max) as int;
                &&& r is Some
                &&& r->0.count == k
                &&& bytes_of(r->0.body) == json_array(old(self)@.events.take(k))
                &&& final(self)@.events == old(self)@.events.skip(k)
            },
    {
        let len = self.event_byte_buffer.len();
        if len < min_count {
            return None;
        }
        let max = self.config.env.batch_max_size;
        let end = if len < max {
            len
        } else {
            max
        };
        let rest = self.event_byte_buffer.split_off(end);
        let mut chunk = rest;
        std::mem::swap(&mut self.event_byte_buffer, &mut chunk);
        let body = write_events_json(&chunk);
        proof {
            let before = old(self)@.events;
            assert(contents(chunk@) =~= before.take(end as int));
            assert(self@.events =~= before.skip(end as int));
        }
        Some(Batch { count: end, body })
    }

    /// Flushes the buffer: cuts batches off its front for as long as it
    /// holds at least `drain_at_least` events, and returns them in the
    /// order in which they are to be sent.
    pub fn drain_and_send(&mut self, drain_at_least: usize) -> (batches: Vec<Batch>)
        requires
            drain_at_least >= 1,
            old(self)@.max >= 1,
        ensures
            final(self).settings() == old(self).settings(),
            final(self)@ == old(self)@.drain(drain_at_least as nat),
            batch_views(batches@) == sealed_all(
                batches_of(old(self)@.events, drain_at_least as nat, old(self)@.max),
            ),
    {
        let mut batches: Vec<Batch> = Vec::new();
        let ghost start = self@.events;
        let ghost max = self@.max;
        let ghost min_count = drain_at_least as nat;
        proof {
            assert(batch_views(batches@) + sealed_all(batches_of(start, min_count, max))
                =~= sealed_all(batches_of(start, min_count, max)));
        }
        while self.event_byte_buffer.len() >= drain_at_least
            invariant
                drain_at_least >= 1,
                min_count == drain_at_least,
                max >= 1,
                self@.max == max,
                self@.is_start == old(self)@.is_start,
                self.settings() == old(self).settings(),
                self@.events == contents(self.event_byte_buffer@),
                sealed_all(batches_of(start, min_count, max)) == batch_views(batches@) + sealed_all(
                    batches_of(self@.events, min_count, max),
                ),
                left_after(start, min_count, max) == left_after(self@.events, min_count, max),
            decreases self@.events.len(),
        {
            let ghost current = self@.events;
            let ghost sent = batch_views(batches@);
            if let Some(batch) = self.next_batch(drain_at_least) {
                batches.push(batch);
            }
            proof {
                let k = batch_len(current.len(), max) as int;
                let rest = batches_of(current.skip(k), min_count, max);
                assert(batches_of(current, min_count, max) == seq![current.take(k)] + rest);
                assert(sealed_all(seq![current.take(k)] + rest) =~= seq![sealed(current.take(k))]
                    + sealed_all(rest));
                assert(batch_views(batches@) =~= sent.push(sealed(current.take(k))));
                assert(sent + (seq![sealed(current.take(k))] + sealed_all(rest)) =~= sent.push(
                    sealed(current.take(k)),
                ) + sealed_all(rest));
            }
        }
        proof {
            assert(self@.events.len() == self.event_byte_buffer@.len());
            assert(batches_of(self@.events, min_count, max) =~= Seq::empty());
            assert(batch_views(batches@) + sealed_all(Seq::empty()) =~= batch_views(batches@));
        }
        batches
    }

    /// Decides whether the push that just happened is followed by a flush,
    /// and uses up the flush that the very first event is owed.
    pub fn flush_is_due(&mut self) -> (due: bool)
        ensures
            due == old(self)@.flush_due(),
            final(self)@ == (BufferModel { is_start: false, ..old(self)@ }),
            final(self).settings() == old(self).settings(),
    {
        let due = self.is_start || self.event_byte_buffer.len() >= self.config.env.batch_max_size;
        self.is_start = false;
        due
    }

    /// The check that follows every push: flushes the buffer if this is the
    /// first event ever or the buffer has reached the size threshold.
    pub fn check_and_flush_buffer(&mut self) -> (batches: Vec<Batch>)
        requires
            old(self)@.max >= 1,
        ensures
            final(self).settings() == old(self).settings(),
            final(self)@ == old(self)@.check(),
            batch_views(batches@) == sealed_all(old(self)@.check_batches()),
    {
        if self.flush_is_due() {
            self.drain_and_send(1)
        } else {
            let batches: Vec<Batch> = Vec::new();
            assert(batch_views(batches@) =~= sealed_all(Seq::empty()));
            batches
        }
    }
}

} // verus!
