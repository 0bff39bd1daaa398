//! A sink that publishes log events to a queue of RabbitMQ.

use lapin_futures::auth::SASLMechanism;
use lapin_futures::options::BasicPublishOptions;
use lapin_futures::options::QueueDeclareOptions;
use lapin_futures::types::FieldTable;
use lapin_futures::BasicProperties;
use lapin_futures::ConnectionProperties;
use std::collections::HashSet;
use vstd::prelude::*;
use vstd::utf8::decode_utf8;
use vstd::utf8::encode_utf8;
use vstd::utf8::encode_utf8_decode_utf8;
use vstd::utf8::encode_utf8_valid_utf8;
use vstd::utf8::valid_utf8;

use crate::amqp::connection_properties;
use crate::amqp::connection_view;
use crate::amqp::properties_default;
use crate::amqp::property_names;
use crate::amqp::table_clone;
use crate::amqp::table_default;
use crate::amqp::table_names;
use crate::amqp::ConnectionView;
use crate::delivery::lemma_independent_wf;
use crate::delivery::Happening;
use crate::delivery::IndependentAcks;
use crate::delivery::PollStep;
use crate::delivery::Polled;
use crate::event::law_text_is_first_message;
use crate::event::law_text_without_message_is_empty;
use crate::event::DataType;
use crate::event::LogEvent;
use crate::json::json_text;
use crate::json::to_vec;
use crate::text::lemma_encode_utf8_len;

verus! {

broadcast use vstd::std_specs::hash::group_hash_axioms;

/// How the sink authenticates.
#[derive(Clone, Copy, Debug, PartialEq, Eq)]
pub enum SASLMechanismDef {
    AMQPlain,
    External,
    Plain,
    RabbitCrDemo,
}

impl SASLMechanismDef {
    /// The client's name for the mechanism.
    pub open spec fn mechanism(self) -> SASLMechanism {
        match self {
            SASLMechanismDef::AMQPlain => SASLMechanism::AMQPlain,
            SASLMechanismDef::External => SASLMechanism::External,
            SASLMechanismDef::Plain => SASLMechanism::Plain,
            SASLMechanismDef::RabbitCrDemo => SASLMechanism::RabbitCrDemo,
        }
    }

    /// The client's name for the mechanism.
    pub fn to_sasl_mechanism(&self) -> (r: SASLMechanism)
        ensures
            r == self.mechanism(),
            match self {
                SASLMechanismDef::AMQPlain => r == SASLMechanism::AMQPlain,
                SASLMechanismDef::External => r == SASLMechanism::External,
                SASLMechanismDef::Plain => r == SASLMechanism::Plain,
                SASLMechanismDef::RabbitCrDemo => r == SASLMechanism::RabbitCrDemo,
            },
    {
        match self {
            SASLMechanismDef::AMQPlain => SASLMechanism::AMQPlain,
            SASLMechanismDef::External => SASLMechanism::External,
            SASLMechanismDef::Plain => SASLMechanism::Plain,
            SASLMechanismDef::RabbitCrDemo => SASLMechanism::RabbitCrDemo,
        }
    }
}

/// How the sink connects.
#[derive(Debug)]
pub struct ConnectionPropertiesDef {
    pub mechanism: SASLMechanismDef,
    pub locale: String,
    pub client_properties: FieldTable,
    pub max_executor_threads: usize,
}

impl Default for ConnectionPropertiesDef {
    fn default() -> (r: Self)
        ensures
            r.mechanism == SASLMechanismDef::Plain,
            r.locale@ == "en_US"@,
            table_names(r.client_properties) == Set::<Seq<char>>::empty(),
            r.max_executor_threads == 1,
    {
        ConnectionPropertiesDef {
            mechanism: SASLMechanismDef::Plain,
            locale: "en_US".to_owned(),
            client_properties: table_default(),
            max_executor_threads: 1,
        }
    }
}

impl Clone for ConnectionPropertiesDef {
    fn clone(&self) -> (r: Self)
        ensures
            r.mechanism == self.mechanism,
            r.locale@ == self.locale@,
            r.client_properties == self.client_properties,
            r.max_executor_threads == self.max_executor_threads,
    {
        ConnectionPropertiesDef {
            mechanism: self.mechanism,
            locale: self.locale.clone(),
            client_properties: table_clone(&self.client_properties),
            max_executor_threads: self.max_executor_threads,
        }
    }
}

/// How the sink declares its queue.
#[derive(Clone, Copy, Debug, PartialEq, Eq)]
pub struct QueueDeclareOptionsDef {
    pub passive: bool,
    pub durable: bool,
    pub exclusive: bool,
    pub auto_delete: bool,
    pub nowait: bool,
}

impl Default for QueueDeclareOptionsDef {
    fn default() -> (r: Self)
        ensures
            r == (QueueDeclareOptionsDef {
                passive: false,
                durable: false,
                exclusive: false,
                auto_delete: false,
                nowait: false,
            }),
    {
        QueueDeclareOptionsDef {
            passive: false,
            durable: false,
            exclusive: false,
            auto_delete: false,
            nowait: false,
        }
    }
}

/// How the sink publishes messages.
#[derive(Clone, Copy, Debug, PartialEq, Eq)]
pub struct BasicPublishOptionsDef {
    pub mandatory: bool,
    pub immediate: bool,
}

impl Default for BasicPublishOptionsDef {
    fn default() -> (r: Self)
        ensures
            r == (BasicPublishOptionsDef { mandatory: false, immediate: false }),
    {
        BasicPublishOptionsDef { mandatory: false, immediate: false }
    }
}

/// How an event is written.
#[derive(Clone, Copy, Debug, PartialEq, Eq)]
pub enum Encoding {
    /// The message of the event.
    Text,
    /// The event as JSON.
    Json,
}

/// The configuration of the sink.
#[derive(Debug)]
pub struct RabbitMQSinkConfig {
    pub addr: String,
    pub basic_publish_options: BasicPublishOptionsDef,
    pub connection_properties: ConnectionPropertiesDef,
    pub encoding: Encoding,
    pub exchange: String,
    pub field_table: FieldTable,
    pub queue_name: String,
    pub queue_declare_options: QueueDeclareOptionsDef,
}

impl Clone for RabbitMQSinkConfig {
    fn clone(&self) -> (r: Self)
        ensures
            r.addr@ == self.addr@,
            r.basic_publish_options == self.basic_publish_options,
            r.connection() == self.connection(),
            r.encoding == self.encoding,
            r.exchange@ == self.exchange@,
            r.field_table == self.field_table,
            r.queue_name@ == self.queue_name@,
            r.queue_declare_options == self.queue_declare_options,
    {
        RabbitMQSinkConfig {
            addr: self.addr.clone(),
            basic_publish_options: self.basic_publish_options,
            connection_properties: self.connection_properties.clone(),
            encoding: self.encoding,
            exchange: self.exchange.clone(),
            field_table: table_clone(&self.field_table),
            queue_name: self.queue_name.clone(),
            queue_declare_options: self.queue_declare_options,
        }
    }
}

/// A connection to open.
pub struct ConnectRequest {
    pub addr: String,
    pub properties: ConnectionProperties,
}

/// A queue to declare.
pub struct DeclareRequest {
    pub queue_name: String,
    pub options: QueueDeclareOptions,
    pub arguments: FieldTable,
}

impl RabbitMQSinkConfig {
    /// What the sink connects with.
    pub open spec fn connection(self) -> ConnectionView {
        ConnectionView {
            mechanism: self.connection_properties.mechanism.mechanism(),
            locale: self.connection_properties.locale@,
            client_properties: self.connection_properties.client_properties,
            has_executor: false,
            max_executor_threads: self.connection_properties.max_executor_threads,
        }
    }

    /// How the sink declares its queue.
    pub open spec fn declaration(self) -> QueueDeclareOptions {
        QueueDeclareOptions {
            passive: self.queue_declare_options.passive,
            durable: self.queue_declare_options.durable,
            exclusive: self.queue_declare_options.exclusive,
            auto_delete: self.queue_declare_options.auto_delete,
            nowait: self.queue_declare_options.nowait,
        }
    }

    /// How the sink publishes messages. The configured `mandatory` decides both options.
    pub open spec fn publication(self) -> BasicPublishOptions {
        BasicPublishOptions {
            immediate: self.basic_publish_options.mandatory,
            mandatory: self.basic_publish_options.mandatory,
        }
    }

    /// What the sink connects with.
    pub fn connection_properties(&self) -> (r: ConnectionProperties)
        ensures
            connection_view(r) == self.connection(),
    {
        connection_properties(
            self.connection_properties.mechanism.to_sasl_mechanism(),
            self.connection_properties.locale.clone(),
            table_clone(&self.connection_properties.client_properties),
            self.connection_properties.max_executor_threads,
        )
    }

    /// How the sink declares its queue.
    pub fn queue_declare_options(&self) -> (r: QueueDeclareOptions)
        ensures
            r == self.declaration(),
    {
        QueueDeclareOptions {
            passive: self.queue_declare_options.passive,
            durable: self.queue_declare_options.durable,
            exclusive: self.queue_declare_options.exclusive,
            auto_delete: self.queue_declare_options.auto_delete,
            nowait: self.queue_declare_options.nowait,
        }
    }

    /// How the sink publishes messages. The configured `mandatory` decides both options.
    pub fn basic_publish_options(&self) -> (r: BasicPublishOptions)
        ensures
            r == self.publication(),
    {
        BasicPublishOptions {
            immediate: self.basic_publish_options.mandatory,
            mandatory: self.basic_publish_options.mandatory,
        }
    }

    /// The connection that the sink opens.
    pub fn connect_request(&self) -> (r: ConnectRequest)
        ensures
            r.addr@ == self.addr@,
            connection_view(r.properties) == self.connection(),
    {
        ConnectRequest { addr: self.addr.clone(), properties: self.connection_properties() }
    }

    /// The kind of events that the sink takes.
    pub fn input_type(&self) -> (r: DataType)
        ensures
            r == DataType::Log,
    {
        DataType::Log
    }

    /// The name of the sink.
    pub fn sink_type(&self) -> (r: &'static str)
        ensures
            r@ == "rabbitmq"@,
    {
        "rabbitmq"
    }
}

/// The connection that a health check tries to open: the one that the sink opens.
pub fn healthcheck(config: &RabbitMQSinkConfig) -> (r: ConnectRequest)
    ensures
        r.addr@ == config.addr@,
        connection_view(r.properties) == config.connection(),
{
    config.connect_request()
}

/// What comes of a health check: the check passes when the attempt to connect could be made, and
/// the connection was opened; else it fails with the error of the one or the other.
pub fn healthcheck_outcome<T, E>(attempt: Result<Result<T, E>, E>) -> (r: Result<(), E>)
    ensures
        match attempt {
            Ok(Ok(_)) => r is Ok,
            Ok(Err(error)) => r == Err::<(), _>(error),
            Err(error) => r == Err::<(), _>(error),
        },
{
    match attempt {
        Ok(Ok(_)) => Ok(()),
        Ok(Err(error)) => Err(error),
        Err(error) => Err(error),
    }
}

/// The bytes that an event is sent as.
pub open spec fn encoded(event: LogEvent, encoding: Encoding) -> Seq<u8> {
    match encoding {
        Encoding::Json => encode_utf8(json_text(event.unflattened)),
        Encoding::Text => event.text(),
    }
}

/// The bytes that an event is sent as: its JSON text, or its message, empty where it has none.
pub fn encode_event(event: &LogEvent, encoding: &Encoding) -> (r: Vec<u8>)
    ensures
        r@ == encoded(*event, *encoding),
        match encoding {
            Encoding::Json => r@ == encode_utf8(json_text(event.unflattened)),
            Encoding::Text => r@ == event.text(),
        },
{
    match encoding {
        Encoding::Json => to_vec(&event.unflattened).unwrap(),
        Encoding::Text => event.to_text(),
    }
}

/// In text encoding the payload is the bytes of the first field called `message`, at whatever index
/// it stands.
pub proof fn law_text_payload_is_first_message(event: LogEvent, i: int)
    requires
        0 <= i < event.fields@.len(),
        event.fields@[i].name@ == "message"@,
        forall|j: int| 0 <= j < i ==> (#[trigger] event.fields@[j]).name@ != "message"@,
    ensures
        encoded(event, Encoding::Text) == event.fields@[i].bytes@,
{
    law_text_is_first_message(event, i);
}

/// In text encoding the payload is empty where no field is called `message`.
pub proof fn law_text_payload_without_message_is_empty(event: LogEvent)
    requires
        forall|j: int|
            0 <= j < event.fields@.len() ==> (#[trigger] event.fields@[j]).name@ != "message"@,
    ensures
        encoded(event, Encoding::Text) == Seq::<u8>::empty(),
{
    law_text_without_message_is_empty(event);
}

/// In JSON encoding the payload reads back as the JSON text of the event, whichever fields the event
/// has; it is empty only where that text is.
pub proof fn law_json_payload_reads_back(event: LogEvent)
    ensures
        valid_utf8(encoded(event, Encoding::Json)),
        decode_utf8(encoded(event, Encoding::Json)) == json_text(event.unflattened),
        encoded(event, Encoding::Json).len() >= json_text(event.unflattened).len(),
{
    encode_utf8_valid_utf8(json_text(event.unflattened));
    encode_utf8_decode_utf8(json_text(event.unflattened));
    lemma_encode_utf8_len(json_text(event.unflattened));
}

/// In JSON encoding events with different JSON texts have different payloads.
pub proof fn law_json_payload_tells_event(a: LogEvent, b: LogEvent)
    requires
        encoded(a, Encoding::Json) == encoded(b, Encoding::Json),
    ensures
        json_text(a.unflattened) == json_text(b.unflattened),
{
    law_json_payload_reads_back(a);
    law_json_payload_reads_back(b);
}

/// The sink connects with what is configured, each property for itself, and without an executor.
pub proof fn law_connection_has_each_property(config: RabbitMQSinkConfig)
    ensures
        ({
            let (set, got) = (config.connection_properties, config.connection());
            &&& set.mechanism is AMQPlain <==> got.mechanism is AMQPlain
            &&& set.mechanism is External <==> got.mechanism is External
            &&& set.mechanism is Plain <==> got.mechanism is Plain
            &&& set.mechanism is RabbitCrDemo <==> got.mechanism is RabbitCrDemo
            &&& got.locale == set.locale@
            &&& got.client_properties == set.client_properties
            &&& !got.has_executor
            &&& got.max_executor_threads == set.max_executor_threads
        }),
{
}

/// The queue is declared with what is configured, each option for itself.
pub proof fn law_declaration_has_each_option(config: RabbitMQSinkConfig)
    ensures
        config.declaration().passive == config.queue_declare_options.passive,
        config.declaration().durable == config.queue_declare_options.durable,
        config.declaration().exclusive == config.queue_declare_options.exclusive,
        config.declaration().auto_delete == config.queue_declare_options.auto_delete,
        config.declaration().nowait == config.queue_declare_options.nowait,
{
}

/// Whether a message is mandatory, and whether it is immediate, is decided by the configured
/// `mandatory`; nothing else in the configuration matters.
pub proof fn law_mandatory_decides_publication(a: RabbitMQSinkConfig, b: RabbitMQSinkConfig)
    ensures
        a.publication().mandatory == a.basic_publish_options.mandatory,
        a.publication().immediate == a.basic_publish_options.mandatory,
        a.basic_publish_options.mandatory == b.basic_publish_options.mandatory
            ==> a.publication() == b.publication(),
{
}

/// A message to publish.
pub struct Publish {
    pub exchange: String,
    pub routing_key: String,
    pub payload: Vec<u8>,
    pub options: BasicPublishOptions,
    pub properties: BasicProperties,
    /// The number by which the sink knows the message.
    pub seqno: usize,
}

/// What happens while the sink is set up.
pub enum SetupEvent<E> {
    /// Nothing yet.
    Started,
    /// The connection is open, and a channel in it.
    ChannelOpened,
    /// The queue is declared.
    QueueDeclared,
    /// The last action failed.
    Failed(E),
}

/// What to do to set up the sink.
pub enum SetupAction<E> {
    /// Open a connection, and a channel in it.
    Connect(ConnectRequest),
    /// Declare a queue on the channel.
    DeclareQueue(DeclareRequest),
    /// The sink is set up.
    Finish(RabbitMQSink),
    /// Give up.
    Abort(E),
}

/// The sink, with its messages in flight.
pub struct RabbitMQSink {
    basic_publish_options: BasicPublishOptions,
    encoding: Encoding,
    exchange: String,
    queue_name: String,
    seqno: usize,
    pending_acks: HashSet<usize>,
}

/// What a [`RabbitMQSink`] holds.
pub struct RabbitMQSinkView {
    pub options: BasicPublishOptions,
    pub encoding: Encoding,
    pub exchange: Seq<char>,
    pub queue_name: Seq<char>,
    pub acks: IndependentAcks,
}

impl View for RabbitMQSink {
    type V = RabbitMQSinkView;

    closed spec fn view(&self) -> RabbitMQSinkView {
        RabbitMQSinkView {
            options: self.basic_publish_options,
            encoding: self.encoding,
            exchange: self.exchange@,
            queue_name: self.queue_name@,
            acks: IndependentAcks { next: self.seqno, pending: self.pending_acks@ },
        }
    }
}

impl RabbitMQSink {
    /// The next action to set up the sink: connect, then declare the queue, then start with
    /// nothing sent. A failure ends the setup.
    pub fn new<E>(config: &RabbitMQSinkConfig, event: SetupEvent<E>) -> (r: SetupAction<E>)
        ensures
            match event {
                SetupEvent::Started => {
                    &&& r is Connect
                    &&& r->Connect_0.addr@ == config.addr@
                    &&& connection_view(r->Connect_0.properties) == config.connection()
                },
                SetupEvent::ChannelOpened => {
                    &&& r is DeclareQueue
                    &&& r->DeclareQueue_0.queue_name@ == config.queue_name@
                    &&& r->DeclareQueue_0.options == config.declaration()
                    &&& r->DeclareQueue_0.arguments == config.field_table
                },
                SetupEvent::QueueDeclared => {
                    &&& r is Finish
                    &&& r->Finish_0@ == (RabbitMQSinkView {
                        options: config.publication(),
                        encoding: config.encoding,
                        exchange: config.exchange@,
                        queue_name: config.queue_name@,
                        acks: IndependentAcks::initial(),
                    })
                },
                SetupEvent::Failed(error) => r == SetupAction::Abort(error),
            },
    {
        match event {
            SetupEvent::Started => SetupAction::Connect(config.connect_request()),
            SetupEvent::ChannelOpened => SetupAction::DeclareQueue(
                DeclareRequest {
                    queue_name: config.queue_name.clone(),
                    options: config.queue_declare_options(),
                    arguments: table_clone(&config.field_table),
                },
            ),
            SetupEvent::QueueDeclared => SetupAction::Finish(
                RabbitMQSink {
                    basic_publish_options: config.basic_publish_options(),
                    encoding: config.encoding,
                    exchange: config.exchange.clone(),
                    queue_name: config.queue_name.clone(),
                    seqno: 0,
                    pending_acks: HashSet::new(),
                },
            ),
            SetupEvent::Failed(error) => SetupAction::Abort(error),
        }
    }

    /// The sequence number of the next message.
    pub fn next_seqno(&self) -> (r: usize)
        ensures
            r == self@.acks.next,
    {
        self.seqno
    }

    /// The message to publish for an event, with no properties set. It is in flight from then on,
    /// under the next sequence number.
    pub fn start_send(&mut self, item: &LogEvent) -> (r: Publish)
        requires
            old(self)@.acks.next < usize::MAX,
        ensures
            final(self)@ == (RabbitMQSinkView {
                acks: old(self)@.acks.after(Happening::Sent),
                ..old(self)@
            }),
            r.exchange@ == old(self)@.exchange,
            r.routing_key@ == old(self)@.queue_name,
            r.payload@ == encoded(*item, old(self)@.encoding),
            r.options == old(self)@.options,
            property_names(r.properties) == Set::<Seq<char>>::empty(),
            r.seqno == old(self)@.acks.next,
            old(self)@.acks.wf() ==> final(self)@.acks.wf(),
    {
        let payload = encode_event(item, &self.encoding);
        let publish = Publish {
            exchange: self.exchange.clone(),
            routing_key: self.queue_name.clone(),
            payload,
            options: BasicPublishOptions {
                mandatory: self.basic_publish_options.mandatory,
                immediate: self.basic_publish_options.immediate,
            },
            properties: properties_default(),
            seqno: self.seqno,
        };
        self.pending_acks.insert(self.seqno);
        self.seqno = self.seqno + 1;
        proof {
            assert(self@.acks =~= old(self)@.acks.sent());
            if old(self)@.acks.wf() {
                lemma_independent_wf(old(self)@.acks, 0);
            }
        }
        publish
    }

    /// What to do about one poll of the messages in flight: a message that finishes is
    /// acknowledged, once.
    pub fn poll_complete(&mut self, polled: Polled) -> (r: PollStep)
        ensures
            final(self)@ == (RabbitMQSinkView {
                acks: old(self)@.acks.after(Happening::Polled(polled)),
                ..old(self)@
            }),
            r.acked() == old(self)@.acks.acks(Happening::Polled(polled)),
            match polled {
                Polled::NotReady => r == PollStep::NotReady,
                Polled::Drained => r == PollStep::Ready,
                Polled::Finished(seqno) => r == if old(self)@.acks.pending.contains(seqno) {
                    PollStep::Ack(1)
                } else {
                    PollStep::AlreadyPublished
                },
                Polled::Failed => r == PollStep::Failed,
            },
            old(self)@.acks.wf() ==> final(self)@.acks.wf(),
    {
        match polled {
            Polled::NotReady => PollStep::NotReady,
            Polled::Drained => PollStep::Ready,
            Polled::Finished(seqno) => {
                if self.pending_acks.remove(&seqno) {
                    PollStep::Ack(1)
                } else {
                    PollStep::AlreadyPublished
                }
            },
            Polled::Failed => PollStep::Failed,
        }
    }
}

} // verus!
