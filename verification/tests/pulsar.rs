use message_sinks::delivery::PollStep;
use message_sinks::delivery::Polled;
use message_sinks::event::DataType;
use message_sinks::event::Field;
use message_sinks::event::LogEvent;
use message_sinks::pulsar_sink::encode_event;
use message_sinks::pulsar_sink::Encoding;
use message_sinks::pulsar_sink::PulsarSend;
use message_sinks::pulsar_sink::PulsarSink;
use message_sinks::pulsar_sink::PulsarSinkConfig;
use message_sinks::pulsar_sink::SetupAction;
use message_sinks::pulsar_sink::SetupEvent;
use serde_json::Value;

fn log_event(name: &str, value: &str) -> LogEvent {
    let mut object = serde_json::Map::new();
    object.insert(name.to_string(), Value::String(value.to_string()));
    LogEvent {
        fields: vec![Field { name: name.to_string(), bytes: value.as_bytes().to_vec() }],
        unflattened: Value::Object(object),
    }
}

fn config(encoding: Encoding) -> PulsarSinkConfig {
    PulsarSinkConfig {
        address: "127.0.0.1:6650".to_string(),
        topic: "topic".to_string(),
        encoding,
        batch_size: Some(12),
    }
}

fn sink(encoding: Encoding) -> PulsarSink {
    match PulsarSink::new::<()>(&config(encoding), SetupEvent::Connected) {
        SetupAction::Finish(_, sink) => sink,
        _ => panic!("the sink is not set up"),
    }
}

fn sink_with_sent(count: usize) -> PulsarSink {
    let mut sink = sink(Encoding::Text);
    for _ in 0..count {
        sink.start_send(&log_event("message", "hello world")).unwrap();
    }
    sink
}

#[test]
fn event_is_encoded_as_text() {
    let event = log_event("message", "hello world");
    assert_eq!(encode_event(&event, Encoding::Text).unwrap(), b"hello world".to_vec());
    let event = log_event("host", "localhost");
    assert!(encode_event(&event, Encoding::Text).unwrap().is_empty());
}

#[test]
fn event_is_encoded_as_json() {
    let event = log_event("message", "hello world");
    let bytes = encode_event(&event, Encoding::Json).unwrap();
    assert_eq!(bytes, b"{\"message\":\"hello world\"}".to_vec());
    let value: Value = serde_json::from_slice(&bytes).unwrap();
    assert_eq!(value, event.unflattened);
}

#[test]
fn message_holds_the_payload_only() {
    let message = PulsarSend::serialize_message(&PulsarSend(vec![1, 2, 3])).unwrap();
    assert_eq!(message.payload, vec![1, 2, 3]);
    assert!(message.properties.is_empty());
    assert_eq!(message.partition_key, None);
    assert!(message.replicate_to.is_empty());
    assert_eq!(message.compression, None);
    assert_eq!(message.uncompressed_size, None);
    assert_eq!(message.num_messages_in_batch, None);
    assert_eq!(message.event_time, None);
    assert!(message.encryption_keys.is_empty());
    assert_eq!(message.encryption_algo, None);
    assert_eq!(message.encryption_param, None);
    assert_eq!(message.schema_version, None);
}

#[test]
fn setup_connects_then_starts_a_producer() {
    let config = config(Encoding::Json);
    match PulsarSink::new::<&str>(&config, SetupEvent::Started) {
        SetupAction::Connect(address) => assert_eq!(address, "127.0.0.1:6650"),
        _ => panic!("expected to connect"),
    }
    match PulsarSink::new::<&str>(&config, SetupEvent::Connected) {
        SetupAction::Finish(options, mut sink) => {
            assert_eq!(options.batch_size, Some(12));
            assert_eq!(options.encrypted, None);
            assert!(options.metadata.is_empty());
            assert!(options.schema.is_none());
            assert_eq!(sink.next_seqno(), 0);
            let send = sink.start_send(&log_event("message", "hello world")).unwrap();
            assert_eq!(send.topic, "topic");
            assert_eq!(send.message.0, b"{\"message\":\"hello world\"}".to_vec());
        }
        _ => panic!("expected to finish"),
    }
    match PulsarSink::new(&config, SetupEvent::Failed("refused")) {
        SetupAction::Abort(error) => assert_eq!(error, "refused"),
        _ => panic!("expected to give up"),
    }
}

#[test]
fn pulsar_configuration_is_cloned() {
    let copy = config(Encoding::Json).clone();
    assert_eq!(copy.address, "127.0.0.1:6650");
    assert_eq!(copy.topic, "topic");
    assert_eq!(copy.encoding, Encoding::Json);
    assert_eq!(copy.batch_size, Some(12));
}

#[test]
fn pulsar_sink_takes_logs() {
    assert_eq!(config(Encoding::Text).input_type(), DataType::Log);
    assert_eq!(config(Encoding::Text).sink_type(), "pulsar");
}

#[test]
fn messages_are_sent_and_numbered() {
    let mut sink = sink(Encoding::Json);
    for seqno in 0..3 {
        let send = sink.start_send(&log_event("message", "hello world")).unwrap();
        assert_eq!(send.topic, "topic");
        assert_eq!(send.message.0, b"{\"message\":\"hello world\"}".to_vec());
        assert_eq!(send.seqno, seqno);
    }
    assert_eq!(sink.next_seqno(), 3);
}

#[test]
fn messages_are_acknowledged_in_order() {
    let mut sink = sink_with_sent(5);
    assert_eq!(sink.poll_complete(Polled::NotReady), PollStep::NotReady);
    assert_eq!(sink.poll_complete(Polled::Finished(2)), PollStep::Ack(0));
    assert_eq!(sink.poll_complete(Polled::Finished(0)), PollStep::Ack(1));
    assert_eq!(sink.poll_complete(Polled::Finished(1)), PollStep::Ack(2));
    assert_eq!(sink.poll_complete(Polled::Finished(4)), PollStep::Ack(0));
    assert_eq!(sink.poll_complete(Polled::Finished(3)), PollStep::Ack(2));
    assert_eq!(sink.poll_complete(Polled::Drained), PollStep::Ready);
    assert_eq!(sink.next_seqno(), 5);
}

#[test]
fn failed_message_holds_back_later_ones() {
    let mut sink = sink_with_sent(4);
    assert_eq!(sink.poll_complete(Polled::Finished(0)), PollStep::Ack(1));
    assert_eq!(sink.poll_complete(Polled::Failed), PollStep::Failed);
    assert_eq!(sink.poll_complete(Polled::Finished(2)), PollStep::Ack(0));
    assert_eq!(sink.poll_complete(Polled::Finished(3)), PollStep::Ack(0));
    assert_eq!(sink.poll_complete(Polled::Finished(1)), PollStep::Ack(3));
}

#[test]
fn all_messages_are_acknowledged_in_any_order() {
    let count = 1000;
    let mut sink = sink_with_sent(count);
    let mut acks = 0;
    for i in 0..count {
        match sink.poll_complete(Polled::Finished((i * 7 + 3) % count)) {
            PollStep::Ack(n) => acks += n,
            step => panic!("unexpected step {:?}", step),
        }
    }
    assert_eq!(acks, count);
    assert_eq!(sink.next_seqno(), count);
}
