use std::collections::HashMap;

use lapin_futures::auth::SASLMechanism;
use lapin_futures::types::AMQPValue;
use lapin_futures::types::FieldTable;
use lapin_futures::BasicProperties;
use message_sinks::delivery::PollStep;
use message_sinks::delivery::Polled;
use message_sinks::event::DataType;
use message_sinks::event::Field;
use message_sinks::event::LogEvent;
use message_sinks::event::MESSAGE;
use message_sinks::rabbitmq::encode_event;
use message_sinks::rabbitmq::healthcheck;
use message_sinks::rabbitmq::healthcheck_outcome;
use message_sinks::rabbitmq::BasicPublishOptionsDef;
use message_sinks::rabbitmq::ConnectionPropertiesDef;
use message_sinks::rabbitmq::Encoding;
use message_sinks::rabbitmq::QueueDeclareOptionsDef;
use message_sinks::rabbitmq::RabbitMQSink;
use message_sinks::rabbitmq::RabbitMQSinkConfig;
use message_sinks::rabbitmq::SASLMechanismDef;
use message_sinks::rabbitmq::SetupAction;
use message_sinks::rabbitmq::SetupEvent;
use serde_json::Value;

fn log_event(name: &str, value: &str) -> LogEvent {
    let mut object = serde_json::Map::new();
    object.insert(name.to_string(), Value::String(value.to_string()));
    LogEvent {
        fields: vec![Field { name: name.to_string(), bytes: value.as_bytes().to_vec() }],
        unflattened: Value::Object(object),
    }
}

fn table(name: &str) -> FieldTable {
    let mut table = FieldTable::default();
    table.insert(name.into(), AMQPValue::Boolean(true));
    table
}

fn config() -> RabbitMQSinkConfig {
    RabbitMQSinkConfig {
        addr: "amqp://127.0.0.1:5672/%2f".to_string(),
        basic_publish_options: BasicPublishOptionsDef::default(),
        connection_properties: ConnectionPropertiesDef::default(),
        encoding: Encoding::Text,
        exchange: "exchange".to_string(),
        field_table: table("argument"),
        queue_name: "queue".to_string(),
        queue_declare_options: QueueDeclareOptionsDef::default(),
    }
}

fn sink(config: &RabbitMQSinkConfig) -> RabbitMQSink {
    match RabbitMQSink::new::<()>(config, SetupEvent::QueueDeclared) {
        SetupAction::Finish(sink) => sink,
        _ => panic!("the sink is not set up"),
    }
}

#[test]
fn rabbitmq_encode_event_text() {
    let message = "hello world".to_string();
    let bytes = encode_event(&log_event("message", &message), &Encoding::Text);
    assert_eq!(&bytes[..], message.as_bytes());
}

#[test]
fn rabbitmq_encode_event_json() {
    let message = "hello world".to_string();
    let event = log_event("message", &message);
    let bytes = encode_event(&event, &Encoding::Json);
    let map: HashMap<String, String> = serde_json::from_slice(&bytes[..]).unwrap();
    assert_eq!(map[&MESSAGE.to_string()], message);
}

#[test]
fn json_is_compact() {
    let bytes = encode_event(&log_event("message", "caf\u{e9} \"x\""), &Encoding::Json);
    assert_eq!(bytes, "{\"message\":\"caf\u{e9} \\\"x\\\"\"}".as_bytes().to_vec());
}

#[test]
fn text_of_an_event_without_message_is_empty() {
    let event = log_event("host", "localhost");
    assert!(encode_event(&event, &Encoding::Text).is_empty());
}

#[test]
fn text_keeps_bytes_that_are_no_utf8() {
    let mut event = log_event("message", "");
    event.fields[0].bytes = vec![0xff, 0x00];
    assert_eq!(encode_event(&event, &Encoding::Text), vec![0xff, 0x00]);
}

#[test]
fn fields_are_found_by_name() {
    let mut event = log_event("host", "localhost");
    event.fields.push(Field { name: "message".to_string(), bytes: b"first".to_vec() });
    event.fields.push(Field { name: "message".to_string(), bytes: b"second".to_vec() });
    assert_eq!(event.get("host"), Some(&b"localhost".to_vec()));
    assert_eq!(event.get("message"), Some(&b"first".to_vec()));
    assert_eq!(event.get("messages"), None);
}

#[test]
fn mechanisms_have_their_names() {
    for (def, name) in [
        (SASLMechanismDef::AMQPlain, SASLMechanism::AMQPlain),
        (SASLMechanismDef::External, SASLMechanism::External),
        (SASLMechanismDef::Plain, SASLMechanism::Plain),
        (SASLMechanismDef::RabbitCrDemo, SASLMechanism::RabbitCrDemo),
    ] {
        assert_eq!(def.to_sasl_mechanism(), name);
    }
}

#[test]
fn connection_has_defaults() {
    let properties = config().connection_properties();
    assert_eq!(properties.mechanism, SASLMechanism::Plain);
    assert_eq!(properties.locale, "en_US");
    assert_eq!(properties.client_properties, FieldTable::default());
    assert!(properties.executor.is_none());
    assert_eq!(properties.max_executor_threads, 1);
}

#[test]
fn connection_follows_configuration() {
    let config = RabbitMQSinkConfig {
        connection_properties: ConnectionPropertiesDef {
            mechanism: SASLMechanismDef::External,
            locale: "de_DE".to_string(),
            client_properties: table("product"),
            max_executor_threads: 4,
        },
        ..config()
    };
    let request = healthcheck(&config);
    assert_eq!(request.addr, "amqp://127.0.0.1:5672/%2f");
    assert_eq!(request.properties.mechanism, SASLMechanism::External);
    assert_eq!(request.properties.locale, "de_DE");
    assert_eq!(request.properties.client_properties, table("product"));
    assert!(request.properties.executor.is_none());
    assert_eq!(request.properties.max_executor_threads, 4);
}

#[test]
fn healthcheck_needs_a_connection() {
    assert_eq!(healthcheck_outcome::<u8, &str>(Ok(Ok(1))), Ok(()));
    assert_eq!(healthcheck_outcome::<u8, &str>(Ok(Err("refused"))), Err("refused"));
    assert_eq!(healthcheck_outcome::<u8, &str>(Err("no thread")), Err("no thread"));
}

#[test]
fn queue_options_are_carried_over() {
    for set in 0..5 {
        let config = RabbitMQSinkConfig {
            queue_declare_options: QueueDeclareOptionsDef {
                passive: set == 0,
                durable: set == 1,
                exclusive: set == 2,
                auto_delete: set == 3,
                nowait: set == 4,
            },
            ..config()
        };
        let options = config.queue_declare_options();
        assert_eq!(options.passive, set == 0);
        assert_eq!(options.durable, set == 1);
        assert_eq!(options.exclusive, set == 2);
        assert_eq!(options.auto_delete, set == 3);
        assert_eq!(options.nowait, set == 4);
    }
}

#[test]
fn mandatory_decides_both_publish_options() {
    for mandatory in [false, true] {
        for immediate in [false, true] {
            let config = RabbitMQSinkConfig {
                basic_publish_options: BasicPublishOptionsDef { mandatory, immediate },
                ..config()
            };
            let options = config.basic_publish_options();
            assert_eq!(options.mandatory, mandatory);
            assert_eq!(options.immediate, mandatory);
        }
    }
}

#[test]
fn rabbitmq_configuration_is_cloned() {
    let mut config = config();
    config.connection_properties.client_properties = table("client");
    let copy = config.clone();
    assert_eq!(copy.addr, config.addr);
    assert_eq!(copy.basic_publish_options, config.basic_publish_options);
    assert_eq!(copy.connection_properties.mechanism, SASLMechanismDef::Plain);
    assert_eq!(copy.connection_properties.locale, "en_US");
    assert_eq!(copy.connection_properties.client_properties, table("client"));
    assert_eq!(copy.connection_properties.max_executor_threads, 1);
    assert_eq!(copy.encoding, Encoding::Text);
    assert_eq!(copy.exchange, "exchange");
    assert_eq!(copy.field_table, table("argument"));
    assert_eq!(copy.queue_name, "queue");
    assert_eq!(copy.queue_declare_options, config.queue_declare_options);
}

#[test]
fn rabbitmq_sink_takes_logs() {
    assert_eq!(config().input_type(), DataType::Log);
    assert_eq!(config().sink_type(), "rabbitmq");
}

#[test]
fn setup_connects_then_declares() {
    let config = config();
    match RabbitMQSink::new::<&str>(&config, SetupEvent::Started) {
        SetupAction::Connect(request) => assert_eq!(request.addr, config.addr),
        _ => panic!("expected to connect"),
    }
    match RabbitMQSink::new::<&str>(&config, SetupEvent::ChannelOpened) {
        SetupAction::DeclareQueue(request) => {
            assert_eq!(request.queue_name, "queue");
            assert_eq!(request.options, config.queue_declare_options());
            assert_eq!(request.arguments, table("argument"));
        }
        _ => panic!("expected to declare the queue"),
    }
    match RabbitMQSink::new(&config, SetupEvent::Failed("refused")) {
        SetupAction::Abort(error) => assert_eq!(error, "refused"),
        _ => panic!("expected to give up"),
    }
}

#[test]
fn messages_are_published_and_numbered() {
    let config = RabbitMQSinkConfig {
        basic_publish_options: BasicPublishOptionsDef { mandatory: true, immediate: false },
        ..config()
    };
    let mut sink = sink(&config);
    for seqno in 0..3 {
        let publish = sink.start_send(&log_event("message", "hello world"));
        assert_eq!(publish.exchange, "exchange");
        assert_eq!(publish.routing_key, "queue");
        assert_eq!(publish.payload, b"hello world".to_vec());
        assert!(publish.options.mandatory);
        assert_eq!(publish.properties, BasicProperties::default());
        assert_eq!(publish.properties.content_type(), &None);
        assert_eq!(publish.properties.delivery_mode(), &None);
        assert_eq!(publish.seqno, seqno);
    }
    assert_eq!(sink.next_seqno(), 3);
}

#[test]
fn each_message_is_acknowledged_once() {
    let mut sink = sink(&config());
    for _ in 0..2 {
        sink.start_send(&log_event("message", "hello world"));
    }
    assert_eq!(sink.poll_complete(Polled::NotReady), PollStep::NotReady);
    assert_eq!(sink.poll_complete(Polled::Finished(1)), PollStep::Ack(1));
    assert_eq!(sink.poll_complete(Polled::Finished(1)), PollStep::AlreadyPublished);
    assert_eq!(sink.poll_complete(Polled::Finished(7)), PollStep::AlreadyPublished);
    assert_eq!(sink.poll_complete(Polled::Failed), PollStep::Failed);
    assert_eq!(sink.poll_complete(Polled::Finished(0)), PollStep::Ack(1));
    assert_eq!(sink.poll_complete(Polled::Drained), PollStep::Ready);
}

#[test]
fn all_messages_are_acknowledged() {
    let number_of_events = 1000;
    let mut sink = sink(&config());
    for _ in 0..number_of_events {
        sink.start_send(&log_event("message", "hello world"));
    }
    let mut acks = 0;
    for i in 0..number_of_events {
        let seqno = (i * 7 + 3) % number_of_events;
        match sink.poll_complete(Polled::Finished(seqno)) {
            PollStep::Ack(n) => acks += n,
            step => panic!("unexpected step {:?}", step),
        }
    }
    assert_eq!(acks, number_of_events);
    assert_eq!(sink.next_seqno(), number_of_events);
}
