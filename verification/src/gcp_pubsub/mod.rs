//! A sink that publishes log events to a topic of Google Cloud Pub/Sub.

pub mod body;
pub mod config;
pub mod creds;
pub mod request;

pub use body::encode_event;
pub use body::encode_json;
pub use body::frame_payload;
pub use body::make_body;
pub use body::try_encode_event;
pub use config::healthcheck_outcome;
pub use config::BuildError;
pub use config::BuildStep;
pub use config::CheckError;
pub use config::HealthcheckError;
pub use config::PubsubConfig;
pub use config::PubsubService;
pub use config::ServiceError;
pub use config::UriParseError;
pub use creds::jwt_with_key;
pub use creds::make_jwt;
pub use creds::try_make_jwt;
pub use creds::PubsubCreds;
pub use creds::Token;
pub use request::Method;
pub use request::PubsubRequest;
