//! Message sinks: what the Google Pub/Sub, Apache Pulsar and RabbitMQ outputs of a log pipeline
//! decide, encode and acknowledge, with every decision proved against its contract.

pub mod amqp;
pub mod base64_format;
pub mod buffer;
pub mod delivery;
pub mod event;
pub mod gcp_pubsub;
pub mod http_types;
pub mod json;
pub mod oauth;
pub mod pulsar_sink;
pub mod pulsar_types;
pub mod rabbitmq;
pub mod settings;
pub mod text;
