# message_sinks

The decisions behind three sinks of a log pipeline, verified with Verus: Google Cloud Pub/Sub,
RabbitMQ and Apache Pulsar. The library says what to send, where to and with which options, and when
to acknowledge; the code around it does the input and output.

## Layout

- `src/gcp_pubsub/`: requests to Pub/Sub: the body of a batch (`body`), credentials and tokens
  (`creds`), addresses, requests and the health check (`config`, `request`).
- `src/rabbitmq.rs`, `src/pulsar_sink.rs`: the RabbitMQ and Pulsar sinks: setting up, encoding,
  sending and acknowledging.
- `src/delivery.rs`: acknowledgement as a state machine, with its laws over every order in which
  requests can finish.
- `src/event.rs`, `src/settings.rs`, `src/base64_format.rs`, `src/text.rs`: log events, shared
  settings, the base64 encoding and facts about UTF-8.
- `src/json.rs`, `src/buffer.rs`, `src/http_types.rs`, `src/oauth.rs`, `src/amqp.rs`,
  `src/pulsar_types.rs`: what the library takes on trust from other crates, with the contract of
  each call.
- `app/`: clients, timers and configuration files.

## What is proved

- A publish request lists exactly the events of its batch, in order, and its body determines them
  (`law_body_lists_messages`, `law_body_determines_events`). However a run is cut into batches, its
  requests carry exactly its events, in order (`law_run_reads_back`).
- Requests carry the token of the last renewal that succeeded (`law_last_renewal_decides`).
- The Pulsar sink has always acknowledged the longest run of messages, from the first on, that have
  all finished (`law_ordered_acks_are_longest_finished_prefix`).
- The RabbitMQ sink acknowledges each message once, when it finishes
  (`law_independent_acks_count_each_message_once`).
- Each message that was sent and not acknowledged is in flight, lost, or waits for one before it
  (`law_ordered_acks_account_for_every_message`, `law_independent_pending_is_in_flight_or_lost`).
- Once every message has finished, both have acknowledged as many as they sent
  (`law_ordered_acks_complete`, `law_independent_acks_complete`).
