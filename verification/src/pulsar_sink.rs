//! A sink that sends log events to a topic of Apache Pulsar.

use pulsar::producer::Message;
use pulsar::ProducerOptions;
use std::collections::HashSet;
use vstd::prelude::*;
use vstd::utf8::decode_utf8;
use vstd::utf8::encode_utf8;
use vstd::utf8::encode_utf8_decode_utf8;
use vstd::utf8::encode_utf8_valid_utf8;
use vstd::utf8::valid_utf8;

use crate::delivery::first_gap;
use crate::delivery::is_first_gap;
use crate::delivery::lemma_first_gap_unique;
use crate::delivery::lemma_ordered_finished;
use crate::delivery::Happening;
use crate::delivery::OrderedAcks;
use crate::delivery::PollStep;
use crate::delivery::Polled;
use crate::event::law_text_is_first_message;
use crate::event::law_text_without_message_is_empty;
use crate::event::DataType;
use crate::event::LogEvent;
use crate::json::json_text;
use crate::json::to_vec;
use crate::pulsar_types::is_plain_message;
use crate::pulsar_types::is_plain_producer;
use crate::pulsar_types::message_default;
use crate::pulsar_types::producer_options_default;
use crate::text::lemma_encode_utf8_len;

verus! {

broadcast use vstd::std_specs::hash::group_hash_axioms;

/// How an event is written.
#[derive(Clone, Copy, Debug, PartialEq, Eq)]
pub enum Encoding {
    /// The message of the event.
    Text,
    /// The event as JSON.
    Json,
}

/// The configuration of the sink.
#[derive(Debug)]
pub struct PulsarSinkConfig {
    pub address: String,
    pub topic: String,
    pub encoding: Encoding,
    pub batch_size: Option<u32>,
}

impl Clone for PulsarSinkConfig {
    fn clone(&self) -> (r: Self)
        ensures
            r.address@ == self.address@,
            r.topic@ == self.topic@,
            r.encoding == self.encoding,
            r.batch_size == self.batch_size,
    {
        PulsarSinkConfig {
            address: self.address.clone(),
            topic: self.topic.clone(),
            encoding: self.encoding,
            batch_size: self.batch_size,
        }
    }
}

impl PulsarSinkConfig {
    /// The kind of events that the sink takes.
    pub fn input_type(&self) -> (r: DataType)
        ensures
            r == DataType::Log,
    {
        DataType::Log
    }

    /// The name of the sink.
    pub fn sink_type(&self) -> (r: &'static str)
        ensures
            r@ == "pulsar"@,
    {
        "pulsar"
    }

    /// How the sink's producer sends messages: in batches of the configured size.
    pub fn producer_options(&self) -> (r: ProducerOptions)
        ensures
            r.batch_size == self.batch_size,
            is_plain_producer(r),
    {
        ProducerOptions { batch_size: self.batch_size, ..producer_options_default() }
    }
}

/// The bytes that an event is sent as.
pub open spec fn encoded(event: LogEvent, encoding: Encoding) -> Seq<u8> {
    match encoding {
        Encoding::Json => encode_utf8(json_text(event.unflattened)),
        Encoding::Text => event.text(),
    }
}

/// The bytes that an event is sent as: its JSON text, or its message, empty where it has none.
pub fn encode_event(item: &LogEvent, enc: Encoding) -> (r: Result<Vec<u8>, serde_json::Error>)
    ensures
        r is Ok,
        r->Ok_0@ == encoded(*item, enc),
        match enc {
            Encoding::Json => r->Ok_0@ == encode_utf8(json_text(item.unflattened)),
            Encoding::Text => r->Ok_0@ == item.text(),
        },
{
    match enc {
        Encoding::Json => to_vec(&item.unflattened),
        Encoding::Text => Ok(item.to_text()),
    }
}

/// In text encoding the payload is the bytes of the first field called `message`, at whatever index
/// it stands.
pub proof fn law_text_payload_is_first_message(event: LogEvent, i: int)
    requires
        0 <= i < event.fields@.len(),
        event.fields@[i].name@ == "message"@,
        forall|j: int| 0 <= j < i ==> (#[trigger] event.fields@[j]).name@ != "message"@,
    ensures
        encoded(event, Encoding::Text) == event.fields@[i].bytes@,
{
    law_text_is_first_message(event, i);
}

/// In text encoding the payload is empty where no field is called `message`.
pub proof fn law_text_payload_without_message_is_empty(event: LogEvent)
    requires
        forall|j: int|
            0 <= j < event.fields@.len() ==> (#[trigger] event.fields@[j]).name@ != "message"@,
    ensures
        encoded(event, Encoding::Text) == Seq::<u8>::empty(),
{
    law_text_without_message_is_empty(event);
}

/// In JSON encoding the payload reads back as the JSON text of the event, whichever fields the event
/// has; it is empty only where that text is.
pub proof fn law_json_payload_reads_back(event: LogEvent)
    ensures
        valid_utf8(encoded(event, Encoding::Json)),
        decode_utf8(encoded(event, Encoding::Json)) == json_text(event.unflattened),
        encoded(event, Encoding::Json).len() >= json_text(event.unflattened).len(),
{
    encode_utf8_valid_utf8(json_text(event.unflattened));
    encode_utf8_decode_utf8(json_text(event.unflattened));
    lemma_encode_utf8_len(json_text(event.unflattened));
}

/// In JSON encoding events with different JSON texts have different payloads.
pub proof fn law_json_payload_tells_event(a: LogEvent, b: LogEvent)
    requires
        encoded(a, Encoding::Json) == encoded(b, Encoding::Json),
    ensures
        json_text(a.unflattened) == json_text(b.unflattened),
{
    law_json_payload_reads_back(a);
    law_json_payload_reads_back(b);
}

/// The payload of a message.
pub struct PulsarSend(pub Vec<u8>);

impl PulsarSend {
    /// The message with this payload and nothing else set.
    pub fn serialize_message(input: &Self) -> (r: Result<Message, pulsar::Error>)
        ensures
            r is Ok,
            r->Ok_0.payload@ == input.0@,
            is_plain_message(r->Ok_0),
    {
        let payload = input.0.clone();
        assert(payload@ =~= input.0@);
        Ok(Message { payload, ..message_default() })
    }
}

/// A message to send.
pub struct SendRequest {
    pub topic: String,
    pub message: PulsarSend,
    /// The number by which the sink knows the message.
    pub seqno: usize,
}

/// What happens while the sink is set up.
pub enum SetupEvent<E> {
    /// Nothing yet.
    Started,
    /// The connection is open.
    Connected,
    /// The address is none, or the connection could not be opened.
    Failed(E),
}

/// What to do to set up the sink.
pub enum SetupAction<E> {
    /// Open a connection to this address, without authentication.
    Connect(String),
    /// Start a producer with these options on the connection: the sink is set up.
    Finish(ProducerOptions, PulsarSink),
    /// Give up.
    Abort(E),
}

/// The sink, with its messages in flight.
pub struct PulsarSink {
    topic: String,
    encoding: Encoding,
    seq_head: usize,
    seq_tail: usize,
    pending_acks: HashSet<usize>,
}

/// What a [`PulsarSink`] holds.
pub struct PulsarSinkView {
    pub topic: Seq<char>,
    pub encoding: Encoding,
    pub acks: OrderedAcks,
}

impl View for PulsarSink {
    type V = PulsarSinkView;

    closed spec fn view(&self) -> PulsarSinkView {
        PulsarSinkView {
            topic: self.topic@,
            encoding: self.encoding,
            acks: OrderedAcks {
                head: self.seq_head,
                tail: self.seq_tail,
                pending: self.pending_acks@,
            },
        }
    }
}

impl PulsarSink {
    /// The next action to set up the sink: connect, then start a producer with nothing sent. A
    /// failure ends the setup.
    pub fn new<E>(config: &PulsarSinkConfig, event: SetupEvent<E>) -> (r: SetupAction<E>)
        ensures
            match event {
                SetupEvent::Started => r is Connect && r->Connect_0@ == config.address@,
                SetupEvent::Connected => {
                    &&& r is Finish
                    &&& r->Finish_0.batch_size == config.batch_size
                    &&& is_plain_producer(r->Finish_0)
                    &&& r->Finish_1@ == (PulsarSinkView {
                        topic: config.topic@,
                        encoding: config.encoding,
                        acks: OrderedAcks::initial(),
                    })
                },
                SetupEvent::Failed(error) => r == SetupAction::Abort(error),
            },
    {
        match event {
            SetupEvent::Started => SetupAction::Connect(config.address.clone()),
            SetupEvent::Connected => SetupAction::Finish(
                config.producer_options(),
                PulsarSink {
                    topic: config.topic.clone(),
                    encoding: config.encoding,
                    seq_head: 0,
                    seq_tail: 0,
                    pending_acks: HashSet::new(),
                },
            ),
            SetupEvent::Failed(error) => SetupAction::Abort(error),
        }
    }

    /// The sequence number of the next message.
    pub fn next_seqno(&self) -> (r: usize)
        ensures
            r == self@.acks.head,
    {
        self.seq_head
    }

    /// The message to send for an event. It is in flight from then on, under the next sequence
    /// number.
    pub fn start_send(&mut self, item: &LogEvent) -> (r: Result<SendRequest, ()>)
        requires
            old(self)@.acks.head < usize::MAX,
        ensures
            r is Ok,
            r->Ok_0.topic@ == old(self)@.topic,
            r->Ok_0.message.0@ == encoded(*item, old(self)@.encoding),
            r->Ok_0.seqno == old(self)@.acks.head,
            final(self)@ == (PulsarSinkView {
                acks: old(self)@.acks.after(Happening::Sent),
                ..old(self)@
            }),
            old(self)@.acks.wf() ==> final(self)@.acks.wf(),
    {
        let message = match encode_event(item, self.encoding) {
            Ok(message) => message,
            Err(_) => return Err(()),
        };
        let seqno = self.seq_head;
        self.seq_head = self.seq_head + 1;
        Ok(SendRequest { topic: self.topic.clone(), message: PulsarSend(message), seqno })
    }

    /// What to do about one poll of the messages in flight: when a message finishes, all the
    /// messages up to the first that has not finished are acknowledged.
    pub fn poll_complete(&mut self, polled: Polled) -> (r: PollStep)
        requires
            old(self)@.acks.wf(),
            polled matches Polled::Finished(seqno) ==> seqno < old(self)@.acks.head,
        ensures
            final(self)@.acks.wf(),
            final(self)@ == (PulsarSinkView {
                acks: old(self)@.acks.after(Happening::Polled(polled)),
                ..old(self)@
            }),
            r.acked() == old(self)@.acks.acks(Happening::Polled(polled)),
            match polled {
                Polled::NotReady => r == PollStep::NotReady,
                Polled::Drained => r == PollStep::Ready,
                Polled::Finished(seqno) => {
                    &&& r == PollStep::Ack(
                        (final(self)@.acks.tail - old(self)@.acks.tail) as usize,
                    )
                    &&& is_first_gap(
                        old(self)@.acks.pending.insert(seqno),
                        old(self)@.acks.tail,
                        final(self)@.acks.tail,
                    )
                },
                Polled::Failed => r == PollStep::Failed,
            },
    {
        match polled {
            Polled::NotReady => PollStep::NotReady,
            Polled::Drained => PollStep::Ready,
            Polled::Finished(seqno) => {
                let ghost done = self.pending_acks@.insert(seqno);
                let ghost tail = self.seq_tail;
                proof {
                    lemma_ordered_finished(self@.acks, seqno);
                }
                self.pending_acks.insert(seqno);
                let mut num_to_ack: usize = 0;
                let mut found = self.pending_acks.remove(&self.seq_tail);
                while found
                    invariant
                        tail <= self.seq_tail,
                        num_to_ack == self.seq_tail - tail,
                        self.seq_head == old(self).seq_head,
                        self.topic == old(self).topic,
                        self.encoding == old(self).encoding,
                        forall|s: usize| #[trigger] done.contains(s) ==> s < self.seq_head,
                        forall|s: usize| tail <= s < self.seq_tail ==> #[trigger] done.contains(s),
                        found == done.contains(self.seq_tail),
                        self.pending_acks@ == done.filter(
                            |s: usize| !(tail <= s < self.seq_tail),
                        ).remove(self.seq_tail),
                    decreases self.seq_head - self.seq_tail,
                {
                    num_to_ack = num_to_ack + 1;
                    self.seq_tail = self.seq_tail + 1;
                    found = self.pending_acks.remove(&self.seq_tail);
                }
                proof {
                    assert(is_first_gap(done, tail, self.seq_tail));
                    lemma_first_gap_unique(done, tail, self.seq_tail, first_gap(done, tail));
                    assert(self@.acks =~= old(self)@.acks.finished(seqno));
                }
                PollStep::Ack(num_to_ack)
            },
            Polled::Failed => PollStep::Failed,
        }
    }
}

} // verus!
