use std::str::FromStr;

use goauth::credentials::Credentials;
use goauth::error::GOErr;
use message_sinks::event::DataType;
use message_sinks::event::Field;
use message_sinks::event::LogEvent;
use message_sinks::gcp_pubsub::encode_event;
use message_sinks::gcp_pubsub::encode_json;
use message_sinks::gcp_pubsub::frame_payload;
use message_sinks::gcp_pubsub::healthcheck_outcome;
use message_sinks::gcp_pubsub::jwt_with_key;
use message_sinks::gcp_pubsub::make_body;
use message_sinks::gcp_pubsub::make_jwt;
use message_sinks::gcp_pubsub::try_encode_event;
use message_sinks::gcp_pubsub::try_make_jwt;
use message_sinks::gcp_pubsub::BuildError;
use message_sinks::gcp_pubsub::BuildStep;
use message_sinks::gcp_pubsub::CheckError;
use message_sinks::gcp_pubsub::HealthcheckError;
use message_sinks::gcp_pubsub::Method;
use message_sinks::gcp_pubsub::PubsubConfig;
use message_sinks::gcp_pubsub::PubsubCreds;
use message_sinks::gcp_pubsub::PubsubService;
use message_sinks::gcp_pubsub::ServiceError;
use message_sinks::gcp_pubsub::Token;
use message_sinks::settings::BatchConfig;
use message_sinks::settings::TlsOptions;
use message_sinks::settings::TowerRequestConfig;
use openssl::rsa::Rsa;
use serde_json::Value;

fn log_event(name: &str, value: &str) -> LogEvent {
    let mut object = serde_json::Map::new();
    object.insert(name.to_string(), Value::String(value.to_string()));
    LogEvent {
        fields: vec![Field { name: name.to_string(), bytes: value.as_bytes().to_vec() }],
        unflattened: Value::Object(object),
    }
}

fn config() -> PubsubConfig {
    PubsubConfig {
        project: "project".to_string(),
        topic: "topic".to_string(),
        ..Default::default()
    }
}

fn token(text: &str, expires_in: u32) -> Token {
    Token { access_token: text.to_string(), token_type: "Bearer".to_string(), expires_in }
}

fn private_key() -> String {
    let key = Rsa::generate(2048).unwrap();
    String::from_utf8(key.private_key_to_pem().unwrap()).unwrap()
}

fn credentials(private_key: &str) -> Credentials {
    let mut object = serde_json::Map::new();
    for (name, value) in [
        ("type", "service_account"),
        ("project_id", "project"),
        ("private_key_id", "1"),
        ("private_key", private_key),
        ("client_email", "sink@project.example"),
        ("client_id", "2"),
        ("auth_uri", "https://auth.example/"),
        ("token_uri", "https://token.example/"),
        ("auth_provider_x509_cert_url", "https://certs.example/"),
        ("client_x509_cert_url", "https://cert.example/"),
    ] {
        object.insert(name.to_string(), Value::String(value.to_string()));
    }
    Credentials::from_str(&Value::Object(object).to_string()).unwrap()
}

fn pubsub_creds(text: &str, expires_in: u32) -> PubsubCreds {
    PubsubCreds::new(credentials(""), Ok(token(text, expires_in))).unwrap()
}

fn service(config: &PubsubConfig) -> PubsubService<()> {
    config.service(Ok::<(), ()>(())).unwrap()
}

#[test]
fn encode_valid1() {
    let log = log_event("message", "hello world");
    let body = make_body(encode_event(&log));
    let body = String::from_utf8_lossy(&body);
    assert_eq!(
        body,
        "{\"messages\":[{\"data\":\"eyJtZXNzYWdlIjoiaGVsbG8gd29ybGQifQ==\"}]}"
    );
}

#[test]
fn encode_valid2() {
    let log1 = log_event("message", "hello world");
    let log2 = log_event("message", "killroy was here");
    let mut event = encode_event(&log1);
    event.extend(encode_event(&log2));
    let body = make_body(event);
    let body = String::from_utf8_lossy(&body);
    assert_eq!(
        body,
        "{\"messages\":[{\"data\":\"eyJtZXNzYWdlIjoiaGVsbG8gd29ybGQifQ==\"},{\"data\":\"eyJtZXNzYWdlIjoia2lsbHJveSB3YXMgaGVyZSJ9\"}]}"
    );
}

#[test]
fn fails_missing_creds() {
    let config = config();
    match config.build() {
        Ok(_) => panic!("config.build failed to error"),
        Err(err) => assert!(matches!(err, BuildError::MissingAuth)),
    }
}

#[test]
fn body_of_no_events_is_an_empty_list() {
    assert_eq!(make_body(Vec::new()), b"{\"messages\":[]}".to_vec());
}

#[test]
fn body_drops_the_last_byte_only() {
    assert_eq!(make_body(b"a,b,".to_vec()), b"{\"messages\":[a,b]}".to_vec());
    assert_eq!(make_body(b",".to_vec()), b"{\"messages\":[]}".to_vec());
}

#[test]
fn bodies_of_different_batches_differ() {
    let one = encode_json("{}");
    let mut two = encode_json("{}");
    two.extend(encode_json("[]"));
    let mut swapped = encode_json("[]");
    swapped.extend(encode_json("{}"));
    assert_ne!(make_body(one), make_body(two.clone()));
    assert_ne!(make_body(two), make_body(swapped));
}

#[test]
fn payloads_are_framed() {
    assert_eq!(frame_payload("e30="), b"{\"data\":\"e30=\"},".to_vec());
    assert_eq!(frame_payload(""), b"{\"data\":\"\"},".to_vec());
}

#[test]
fn base64_pads_and_uses_every_digit() {
    assert_eq!(encode_json("a"), frame_payload("YQ=="));
    assert_eq!(encode_json("ab"), frame_payload("YWI="));
    assert_eq!(encode_json("abc"), frame_payload("YWJj"));
    assert_eq!(encode_json("\u{fff}\u{3ff}~~~"), frame_payload("4L+/z79+fn4="));
    assert_eq!(encode_json("???>>>"), frame_payload("Pz8/Pj4+"));
}

#[test]
fn json_is_encoded_in_base64() {
    assert_eq!(encode_json("{}"), b"{\"data\":\"e30=\"},".to_vec());
    assert_eq!(encode_json(""), b"{\"data\":\"\"},".to_vec());
    assert_eq!(encode_json("\u{e9}"), b"{\"data\":\"w6k=\"},".to_vec());
}

#[test]
fn encoded_data_decodes_to_the_event() {
    let log = log_event("message", "hello world");
    let encoded = String::from_utf8(encode_event(&log)).unwrap();
    let data = &encoded["{\"data\":\"".len()..encoded.len() - "\"},".len()];
    let json = base64::decode(data).unwrap();
    let value: Value = serde_json::from_slice(&json).unwrap();
    assert_eq!(value, log.unflattened);
}

#[test]
fn ordinary_events_can_be_encoded() {
    let log = log_event("message", "hello world");
    assert_eq!(try_encode_event(&log), Some(encode_event(&log)));
}

#[test]
fn build_loads_credentials_only_for_the_service() {
    let with_path = PubsubConfig {
        credentials_path: Some("/creds.json".to_string()),
        ..config()
    };
    match with_path.build() {
        Ok(BuildStep::LoadCredentials(path)) => assert_eq!(path, "/creds.json"),
        other => panic!("unexpected step {:?}", other),
    }

    let with_both = PubsubConfig { api_key: Some("key".to_string()), ..with_path };
    assert!(matches!(with_both.build(), Ok(BuildStep::LoadCredentials(_))));

    let with_key = PubsubConfig { api_key: Some("key".to_string()), ..config() };
    assert!(matches!(with_key.build(), Ok(BuildStep::Assemble)));

    let emulated = PubsubConfig {
        emulator_host: Some("localhost:8681".to_string()),
        ..with_both
    };
    assert!(matches!(emulated.build(), Ok(BuildStep::Assemble)));
}

#[test]
fn errors_have_messages() {
    assert_eq!(
        BuildError::MissingAuth.message(),
        "GCP pubsub sink requires one of api_key or credentials_path to be defined"
    );
    assert_eq!(
        BuildError::InvalidCredentials { source: GOErr::Unknown }.message(),
        "Invalid GCP credentials"
    );
    assert_eq!(
        BuildError::InvalidRsaKey { source: GOErr::Unknown }.message(),
        "Invalid RSA key in GCP credentials"
    );
    assert_eq!(
        BuildError::GetTokenFailed { source: GOErr::Unknown }.message(),
        "Failed to get OAuth token"
    );
}

#[test]
fn address_names_project_and_topic() {
    assert_eq!(
        config().uri_text(":publish"),
        "https://pubsub.googleapis.com/v1/projects/project/topics/topic:publish"
    );
    let emulated = PubsubConfig {
        emulator_host: Some("localhost:8681".to_string()),
        ..config()
    };
    assert_eq!(
        emulated.uri_text(""),
        "http://localhost:8681/v1/projects/project/topics/topic"
    );
    let with_key = PubsubConfig { api_key: Some("secret".to_string()), ..config() };
    assert_eq!(
        with_key.uri_text(":publish"),
        "https://pubsub.googleapis.com/v1/projects/project/topics/topic:publish?key=secret"
    );
    assert_eq!(
        with_key.uri_text(""),
        "https://pubsub.googleapis.com/v1/projects/project/topics/topic?key=secret"
    );
}

#[test]
fn uri_is_parsed() {
    let with_key = PubsubConfig { api_key: Some("secret".to_string()), ..config() };
    let uri = with_key.uri(":publish").unwrap();
    assert_eq!(uri.scheme_str(), Some("https"));
    assert_eq!(uri.host(), Some("pubsub.googleapis.com"));
    assert_eq!(uri.path(), "/v1/projects/project/topics/topic:publish");
    assert_eq!(uri.query(), Some("key=secret"));
}

#[test]
fn invalid_uri_is_an_error() {
    let config = PubsubConfig { topic: "to pic".to_string(), ..config() };
    let error = config.uri("").unwrap_err();
    assert_eq!(error.source.to_string(), "invalid uri character");
    assert!(matches!(config.service(Ok::<(), ()>(())), Err(ServiceError::Uri(_))));
    assert!(config.healthcheck(&None).is_err());
}

#[test]
fn pubsub_sink_takes_logs() {
    assert_eq!(config().input_type(), DataType::Log);
    assert_eq!(config().sink_type(), "gcp_pubsub");
}

#[test]
fn service_has_defaults() {
    let service = service(&config());
    assert_eq!(service.batch.size, 10 * 1024 * 1024);
    assert_eq!(service.batch.timeout_secs, 1);
    assert_eq!(service.request.request_timeout_secs, None);
    assert_eq!(
        service.uri.to_string(),
        "https://pubsub.googleapis.com/v1/projects/project/topics/topic:publish"
    );
}

#[test]
fn service_follows_settings() {
    let config = PubsubConfig {
        batch: BatchConfig { batch_size: Some(7), batch_timeout: Some(9) },
        request: TowerRequestConfig {
            request_retry_attempts: Some(3),
            ..Default::default()
        },
        ..config()
    };
    let service = service(&config);
    assert_eq!(service.batch.size, 7);
    assert_eq!(service.batch.timeout_secs, 9);
    assert_eq!(service.request.request_retry_attempts, Some(3));
    assert_eq!(service.request.request_in_flight_limit, None);
}

#[test]
fn unset_settings_come_from_defaults() {
    let defaults = TowerRequestConfig {
        request_in_flight_limit: Some(1),
        request_timeout_secs: Some(2),
        request_rate_limit_duration_secs: Some(3),
        request_rate_limit_num: Some(4),
        request_retry_attempts: Some(5),
        request_retry_backoff_secs: Some(6),
    };
    let own = TowerRequestConfig { request_timeout_secs: Some(20), ..Default::default() };
    let both = own.unwrap_with(&defaults);
    assert_eq!(both.request_in_flight_limit, Some(1));
    assert_eq!(both.request_timeout_secs, Some(20));
    assert_eq!(both.request_rate_limit_duration_secs, Some(3));
    assert_eq!(both.request_rate_limit_num, Some(4));
    assert_eq!(both.request_retry_attempts, Some(5));
    assert_eq!(both.request_retry_backoff_secs, Some(6));
}

#[test]
fn publish_request_posts_json() {
    let service = service(&config());
    let request = service.publish(&None, encode_json("{}"));
    assert_eq!(request.method, Method::Post);
    assert_eq!(request.uri, service.uri);
    assert_eq!(request.headers.len(), 1);
    assert_eq!(request.headers["content-type"], "application/json");
    assert_eq!(request.body, b"{\"messages\":[{\"data\":\"e30=\"}]}".to_vec());
}

#[test]
fn publish_request_carries_the_token() {
    let service = service(&config());
    let creds = Some(pubsub_creds("abc", 3600));
    let request = service.publish(&creds, Vec::new());
    assert_eq!(request.headers.len(), 2);
    assert_eq!(request.headers["content-type"], "application/json");
    assert_eq!(request.headers["authorization"], "Bearer abc");
}

#[test]
fn healthcheck_gets_the_topic() {
    let creds = Some(pubsub_creds("abc", 3600));
    let request = config().healthcheck(&creds).unwrap();
    assert_eq!(request.method, Method::Get);
    assert_eq!(request.uri.path(), "/v1/projects/project/topics/topic");
    assert_eq!(request.headers.len(), 1);
    assert_eq!(request.headers["authorization"], "Bearer abc");
    assert!(request.body.is_empty());
    assert!(config().healthcheck(&None).unwrap().headers.is_empty());
}

#[test]
fn parts_are_assembled_for_one_topic() {
    let mut config = config();
    config.api_key = Some("secret".to_string());
    let creds = Some(pubsub_creds("abc", 3600));
    let (service, check) = config.assemble(&creds, Ok::<u8, ()>(7)).unwrap();
    assert_eq!(
        service.uri.to_string(),
        "https://pubsub.googleapis.com/v1/projects/project/topics/topic:publish?key=secret"
    );
    assert_eq!(service.batch.size, 10 * 1024 * 1024);
    assert_eq!(service.batch.timeout_secs, 1);
    assert_eq!(service.tls, 7);
    assert_eq!(check.method, Method::Get);
    assert_eq!(
        check.uri.to_string(),
        "https://pubsub.googleapis.com/v1/projects/project/topics/topic?key=secret"
    );
    assert_eq!(check.headers["authorization"], "Bearer abc");
    assert!(check.body.is_empty());
}

#[test]
fn nothing_is_assembled_for_an_invalid_topic() {
    let mut config = config();
    config.topic = "a topic".to_string();
    assert!(matches!(config.assemble(&None, Ok::<(), ()>(())), Err(ServiceError::Uri(_))));
}

#[test]
fn tls_settings_have_to_load() {
    let good = config();
    assert!(matches!(good.service(Err::<(), _>("no file")), Err(ServiceError::Tls("no file"))));
    assert!(matches!(
        good.assemble(&None, Err::<(), _>("no file")),
        Err(ServiceError::Tls("no file"))
    ));
    let bad = PubsubConfig { topic: "a topic".to_string(), ..config() };
    assert!(matches!(bad.service(Err::<(), _>("no file")), Err(ServiceError::Uri(_))));
    assert!(matches!(
        bad.assemble(&None, Err::<(), _>("no file")),
        Err(ServiceError::Uri(_))
    ));
}

#[test]
fn batches_are_told_from_their_bodies() {
    let texts = ["{\"a\":1}", "", "\"quoted\"", "{\"a\":1}"];
    let mut logs = Vec::new();
    for text in texts {
        logs.extend(encode_json(text));
    }
    let body: Value = serde_json::from_slice(&make_body(logs)).unwrap();
    let messages = body["messages"].as_array().unwrap();
    assert_eq!(messages.len(), texts.len());
    for (message, text) in messages.iter().zip(texts) {
        let data = base64::decode(message["data"].as_str().unwrap()).unwrap();
        assert_eq!(data, text.as_bytes());
    }
}

#[test]
fn runs_are_read_back_from_their_bodies() {
    let texts = ["{\"a\":1}", "{}", "", "[]", "{\"b\":2}"];
    let batches = [&texts[..2], &texts[2..2], &texts[2..3], &texts[3..]];
    let mut read = Vec::new();
    for batch in batches {
        let mut logs = Vec::new();
        for text in batch {
            logs.extend(encode_json(text));
        }
        let body: Value = serde_json::from_slice(&make_body(logs)).unwrap();
        for message in body["messages"].as_array().unwrap() {
            let data = message["data"].as_str().unwrap();
            assert_eq!(data.len() % 4, 0);
            read.push(String::from_utf8(base64::decode(data).unwrap()).unwrap());
        }
    }
    assert_eq!(read, texts);
}

#[test]
fn healthcheck_passes_on_ok_only() {
    assert_eq!(healthcheck_outcome(&None, Ok::<u16, ()>(200)), Ok(None));
    let creds = Some(pubsub_creds("abc", 3599));
    assert_eq!(healthcheck_outcome(&creds, Ok::<u16, ()>(200)), Ok(Some(1799)));
    for status in [201, 204, 404, 500] {
        assert_eq!(
            healthcheck_outcome(&creds, Ok::<u16, ()>(status)),
            Err(CheckError::Unhealthy(HealthcheckError::UnexpectedStatus { status }))
        );
    }
}

#[test]
fn healthcheck_needs_an_answer() {
    assert_eq!(
        healthcheck_outcome(&Some(pubsub_creds("abc", 10)), Err("refused")),
        Err(CheckError::Transport("refused"))
    );
}

#[test]
fn token_joins_other_headers() {
    let mut request = config().healthcheck(&None).unwrap();
    for i in 0..5000 {
        let name: http::header::HeaderName = format!("x-{}", i).parse().unwrap();
        request.headers.insert(name, "1".parse().unwrap());
    }
    pubsub_creds("abc", 10).apply(&mut request);
    assert_eq!(request.headers.len(), 5001);
    assert_eq!(request.headers["authorization"], "Bearer abc");
    assert_eq!(request.headers["x-4999"], "1");
}

#[test]
fn token_is_replaced_among_as_many_headers_as_there_can_be() {
    let mut request = config().healthcheck(&None).unwrap();
    for i in 0..32767 {
        let name: http::header::HeaderName = format!("x-{}", i).parse().unwrap();
        request.headers.insert(name, "1".parse().unwrap());
    }
    pubsub_creds("old", 10).apply(&mut request);
    assert_eq!(request.headers.len(), 32768);
    pubsub_creds("new", 10).apply(&mut request);
    assert_eq!(request.headers.len(), 32768);
    assert_eq!(request.headers["authorization"], "Bearer new");
}

#[test]
fn assembling_looks_at_the_token_last() {
    let creds = Some(pubsub_creds("a\nb", 10));
    let good = config();
    assert!(good.try_assemble(&creds, Ok::<(), ()>(())).is_none());
    assert!(matches!(
        good.try_assemble(&creds, Err::<(), _>("no file")),
        Some(Err(ServiceError::Tls("no file")))
    ));
    let bad = PubsubConfig { topic: "a topic".to_string(), ..config() };
    assert!(matches!(
        bad.try_assemble(&creds, Ok::<(), ()>(())),
        Some(Err(ServiceError::Uri(_)))
    ));
    assert!(matches!(bad.assemble(&creds, Ok::<(), ()>(())), Err(ServiceError::Uri(_))));
    assert!(bad.healthcheck(&creds).is_err());
    let sendable = Some(pubsub_creds("abc", 10));
    let (_, check) = good.try_assemble(&sendable, Ok::<(), ()>(())).unwrap().unwrap();
    assert_eq!(check.headers["authorization"], "Bearer abc");
    assert!(good.try_assemble(&None, Ok::<(), ()>(())).unwrap().is_ok());
}

#[test]
fn configurations_are_cloned() {
    let config = PubsubConfig {
        api_key: Some("secret".to_string()),
        batch: BatchConfig { batch_size: Some(7), batch_timeout: None },
        tls: Some(TlsOptions {
            verify_certificate: Some(true),
            verify_hostname: None,
            ca_path: Some("/ca.pem".to_string()),
            crt_path: None,
            key_path: None,
            key_pass: None,
        }),
        ..config()
    };
    let copy = config.clone();
    assert_eq!(copy.uri_text(""), config.uri_text(""));
    assert_eq!(copy.batch.batch_size, Some(7));
    let tls = copy.tls.unwrap();
    assert_eq!(tls.verify_certificate, Some(true));
    assert_eq!(tls.ca_path, Some("/ca.pem".to_string()));
    assert_eq!(tls.crt_path, None);
}

#[test]
fn last_renewal_decides() {
    let mut creds = pubsub_creds("first", 10);
    for attempt in [
        Ok(token("second", 20)),
        Err(GOErr::Unknown),
        Ok(token("third", 30)),
        Err(GOErr::Unknown),
    ] {
        let _ = creds.regenerate_token(attempt);
    }
    assert_eq!(creds.token.access_token, "third");
    assert_eq!(creds.renewal_interval(), 15);
    assert_eq!(creds.creds.iss(), "sink@project.example");
}

#[test]
fn newest_token_wins() {
    let mut creds = pubsub_creds("old", 3600);
    let mut request = config().healthcheck(&None).unwrap();
    creds.apply(&mut request);
    creds.regenerate_token(Ok(token("new", 10))).unwrap();
    creds.apply(&mut request);
    let values: Vec<_> = request.headers.get_all("authorization").iter().collect();
    assert_eq!(values, vec!["Bearer new"]);
    assert_eq!(creds.renewal_interval(), 5);
}

#[test]
fn failed_renewal_keeps_the_token() {
    let mut creds = pubsub_creds("old", 3600);
    let result = creds.regenerate_token(Err(GOErr::Unknown));
    assert!(matches!(result, Err(GOErr::Unknown)));
    assert_eq!(creds.token.access_token, "old");
    assert_eq!(creds.token.expires_in, 3600);
}

#[test]
fn token_is_renewed_twice_in_its_lifetime() {
    assert_eq!(pubsub_creds("abc", 0).renewal_interval(), 0);
    assert_eq!(pubsub_creds("abc", 1).renewal_interval(), 0);
    assert_eq!(pubsub_creds("abc", 3601).renewal_interval(), 1800);
    assert_eq!(pubsub_creds("abc", u32::max_value()).renewal_interval(), 2147483647);
}

#[test]
fn token_with_control_characters_cannot_be_sent() {
    assert_eq!(token("abc", 1).header().unwrap(), "Bearer abc");
    assert_eq!(token("a\tb", 1).header().unwrap(), "Bearer a\tb");
    assert_eq!(token("\u{e9}", 1).header().unwrap().as_bytes(), "Bearer \u{e9}".as_bytes());
    assert!(token("a\nb", 1).header().is_err());
    assert!(token("a\u{7f}b", 1).header().is_err());
}

#[test]
fn jwt_claims_access_for_the_account() {
    let creds = credentials(&private_key());
    let jwt = make_jwt(&creds).unwrap();
    let signed = jwt.finalize().unwrap();
    let parts: Vec<&str> = signed.split('.').collect();
    assert_eq!(parts.len(), 3);
    let decode = |part: &str| -> Value {
        serde_json::from_slice(&base64::decode_config(part, base64::URL_SAFE).unwrap()).unwrap()
    };
    let header = decode(parts[0]);
    assert_eq!(header["alg"], "RS256");
    let claims = decode(parts[1]);
    assert_eq!(claims["iss"], "sink@project.example");
    assert_eq!(claims["scope"], "https://www.googleapis.com/auth/pubsub");
    assert_eq!(claims["aud"], "https://token.example/");
    assert_eq!(claims["exp"].as_i64().unwrap() - claims["iat"].as_i64().unwrap(), 3600);
}

#[test]
fn jwt_needs_a_key() {
    let creds = credentials("no key");
    assert!(matches!(make_jwt(&creds), Err(BuildError::InvalidRsaKey { .. })));
    assert!(matches!(
        jwt_with_key(&creds, Err(GOErr::Unknown)),
        Err(BuildError::InvalidRsaKey { source: GOErr::Unknown })
    ));
}

#[test]
fn credentials_are_prepared_in_order() {
    assert!(matches!(
        PubsubCreds::prepare(Err(GOErr::Unknown)),
        Err(BuildError::InvalidCredentials { source: GOErr::Unknown })
    ));
    assert!(matches!(
        PubsubCreds::prepare(Ok(credentials("no key"))),
        Err(BuildError::InvalidRsaKey { .. })
    ));
    let (creds, jwt) = PubsubCreds::prepare(Ok(credentials(&private_key()))).unwrap();
    assert_eq!(creds.iss(), "sink@project.example");
    assert!(jwt.finalize().is_ok());
    assert!(matches!(
        PubsubCreds::new(creds, Err(GOErr::Unknown)),
        Err(BuildError::GetTokenFailed { source: GOErr::Unknown })
    ));
}

#[test]
fn ordinary_keys_are_short_enough() {
    let creds = credentials(&private_key());
    assert!(matches!(try_make_jwt(&creds), Some(Ok(_))));
    assert!(matches!(
        try_make_jwt(&credentials("no key")),
        Some(Err(BuildError::InvalidRsaKey { .. }))
    ));
    match PubsubCreds::try_prepare(Ok(creds)) {
        Some(Ok((kept, jwt))) => {
            assert_eq!(kept.iss(), "sink@project.example");
            assert!(jwt.finalize().is_ok());
        }
        _ => panic!("expected a token request"),
    }
    assert!(matches!(
        PubsubCreds::try_prepare(Err(GOErr::Unknown)),
        Some(Err(BuildError::InvalidCredentials { source: GOErr::Unknown }))
    ));
}
