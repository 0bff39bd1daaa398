//! The configuration of the sink and what it is built to do.

use goauth::error::GOErr;
use http::uri::InvalidUri;
use http::Uri;
use vstd::prelude::*;
use vstd::string::StringExecFns;
use vstd::utf8::encode_utf8;
use vstd::utf8::is_ascii_chars;
use vstd::utf8::is_ascii_chars_encode_utf8;

use super::body::body_of;
use super::body::make_body;
use super::creds::PubsubCreds;
use super::request::Method;
use super::request::PubsubRequest;
use crate::buffer::mebibytes;
use crate::event::DataType;
use crate::http_types::clone_uri;
use crate::http_types::header_lines;
use crate::http_types::header_value;
use crate::http_types::headers_insert;
use crate::http_types::headers_new;
use crate::http_types::no_lines;
use crate::http_types::parse_uri;
use crate::http_types::parsed_uri;
use crate::settings::clone_text;
use crate::settings::or_default;
use crate::settings::text_of;
use crate::settings::BatchConfig;
use crate::settings::BatchSettings;
use crate::settings::TlsOptions;
use crate::settings::TowerRequestConfig;

verus! {

/// Why the sink could not be built.
#[derive(Debug)]
pub enum BuildError {
    MissingAuth,
    InvalidCredentials { source: GOErr },
    InvalidRsaKey { source: GOErr },
    GetTokenFailed { source: GOErr },
}

impl BuildError {
    /// What to tell the user.
    pub open spec fn text(self) -> Seq<char> {
        match self {
            BuildError::MissingAuth =>
                "GCP pubsub sink requires one of api_key or credentials_path to be defined"@,
            BuildError::InvalidCredentials { .. } => "Invalid GCP credentials"@,
            BuildError::InvalidRsaKey { .. } => "Invalid RSA key in GCP credentials"@,
            BuildError::GetTokenFailed { .. } => "Failed to get OAuth token"@,
        }
    }

    /// What to tell the user.
    pub fn message(&self) -> (r: String)
        ensures
            r@ == self.text(),
    {
        match self {
            BuildError::MissingAuth => {
                "GCP pubsub sink requires one of api_key or credentials_path to be defined".to_owned()
            },
            BuildError::InvalidCredentials { .. } => "Invalid GCP credentials".to_owned(),
            BuildError::InvalidRsaKey { .. } => "Invalid RSA key in GCP credentials".to_owned(),
            BuildError::GetTokenFailed { .. } => "Failed to get OAuth token".to_owned(),
        }
    }
}

/// The address of a request is no URI.
#[derive(Debug)]
pub struct UriParseError {
    pub source: InvalidUri,
}

/// Why the parts of the sink could not be made. `E` says why TLS settings could not be loaded.
#[derive(Debug)]
pub enum ServiceError<E> {
    Uri(UriParseError),
    Tls(E),
}

/// Why a health check failed. `E` says why a request got no answer.
#[derive(Debug, PartialEq, Eq)]
pub enum CheckError<E> {
    Transport(E),
    Unhealthy(HealthcheckError),
}

/// The service did not answer a health check as it should.
#[derive(Clone, Copy, Debug, PartialEq, Eq)]
pub enum HealthcheckError {
    UnexpectedStatus { status: u16 },
}

/// The configuration of the sink.
#[derive(Debug)]
pub struct PubsubConfig {
    pub project: String,
    pub topic: String,
    /// The address of an emulator to use in place of the service.
    pub emulator_host: Option<String>,
    pub api_key: Option<String>,
    pub credentials_path: Option<String>,
    pub batch: BatchConfig,
    pub request: TowerRequestConfig,
    pub tls: Option<TlsOptions>,
}

/// What has to be done before the sink can be put together.
#[derive(Debug)]
pub enum BuildStep {
    /// Load credentials from this path and get a token for them.
    LoadCredentials(String),
    /// Nothing: the sink works without credentials.
    Assemble,
}

/// What the sink needs to publish batches of events, over connections with the settings `T`.
pub struct PubsubService<T> {
    pub batch: BatchSettings,
    pub request: TowerRequestConfig,
    pub uri: Uri,
    pub tls: T,
}

impl Clone for PubsubConfig {
    fn clone(&self) -> (r: Self)
        ensures
            r.project@ == self.project@,
            r.topic@ == self.topic@,
            text_of(r.emulator_host) == text_of(self.emulator_host),
            text_of(r.api_key) == text_of(self.api_key),
            text_of(r.credentials_path) == text_of(self.credentials_path),
            r.batch == self.batch,
            r.request == self.request,
            match self.tls {
                Some(options) => r.tls is Some && r.tls->Some_0.same(options),
                None => r.tls is None,
            },
    {
        PubsubConfig {
            project: self.project.clone(),
            topic: self.topic.clone(),
            emulator_host: clone_text(&self.emulator_host),
            api_key: clone_text(&self.api_key),
            credentials_path: clone_text(&self.credentials_path),
            batch: self.batch,
            request: self.request,
            tls: match &self.tls {
                Some(options) => Some(options.clone()),
                None => None,
            },
        }
    }
}

impl Default for PubsubConfig {
    fn default() -> (r: Self)
        ensures
            r.project@ == Seq::<char>::empty(),
            r.topic@ == Seq::<char>::empty(),
            r.emulator_host is None,
            r.api_key is None,
            r.credentials_path is None,
            r.batch.batch_size is None,
            r.batch.batch_timeout is None,
            r.request == TowerRequestConfig::unset(),
            r.tls is None,
    {
        PubsubConfig {
            project: String::new(),
            topic: String::new(),
            emulator_host: None,
            api_key: None,
            credentials_path: None,
            batch: BatchConfig::default(),
            request: TowerRequestConfig::default(),
            tls: None,
        }
    }
}

/// The lines of a request, with the current token where there are credentials.
pub open spec fn authorized(
    creds: Option<PubsubCreds>,
    lines: Map<Seq<char>, Seq<Seq<u8>>>,
) -> Map<Seq<char>, Seq<Seq<u8>>> {
    match creds {
        Some(c) => c.applied(lines),
        None => lines,
    }
}

/// The token of the credentials, where there are any, can stand in a header.
pub open spec fn sendable(creds: Option<PubsubCreds>) -> bool {
    creds is Some ==> creds->Some_0.token.is_sendable()
}

impl PubsubConfig {
    /// What to do first to build the sink: against an emulator no credentials are needed, else
    /// those at `credentials_path` are loaded, and without that path an API key is needed.
    pub fn build(&self) -> (r: Result<BuildStep, BuildError>)
        ensures
            match r {
                Err(error) => {
                    &&& error is MissingAuth
                    &&& self.emulator_host is None
                    &&& self.api_key is None
                    &&& self.credentials_path is None
                },
                Ok(BuildStep::LoadCredentials(path)) => {
                    &&& self.emulator_host is None
                    &&& self.credentials_path is Some
                    &&& path@ == self.credentials_path->Some_0@
                },
                Ok(BuildStep::Assemble) => {
                    ||| self.emulator_host is Some
                    ||| self.api_key is Some && self.credentials_path is None
                },
            },
    {
        if self.emulator_host.is_none() {
            if self.api_key.is_none() && self.credentials_path.is_none() {
                return Err(BuildError::MissingAuth);
            }
            match self.credentials_path.as_ref() {
                Some(path) => Ok(BuildStep::LoadCredentials(path.clone())),
                None => Ok(BuildStep::Assemble),
            }
        } else {
            Ok(BuildStep::Assemble)
        }
    }

    /// The kind of events that the sink takes.
    pub fn input_type(&self) -> (r: DataType)
        ensures
            r == DataType::Log,
    {
        DataType::Log
    }

    /// The name of the sink.
    pub fn sink_type(&self) -> (r: &'static str)
        ensures
            r@ == "gcp_pubsub"@,
    {
        "gcp_pubsub"
    }

    /// The address of the topic, with `suffix` behind the topic's name.
    pub open spec fn address(self, suffix: Seq<char>) -> Seq<char> {
        let base = match self.emulator_host {
            Some(host) => "http://"@ + host@,
            None => "https://pubsub.googleapis.com"@,
        };
        let uri = base + "/v1/projects/"@ + self.project@ + "/topics/"@ + self.topic@ + suffix;
        match self.api_key {
            Some(key) => uri + "?key="@ + key@,
            None => uri,
        }
    }

    /// The text of the topic's address, with `suffix` behind the topic's name.
    pub fn uri_text(&self, suffix: &str) -> (r: String)
        ensures
            r@ == self.address(suffix@),
    {
        let base = match self.emulator_host.as_ref() {
            Some(host) => "http://".to_owned().concat(host.as_str()),
            None => "https://pubsub.googleapis.com".to_owned(),
        };
        let uri = base.concat("/v1/projects/").concat(self.project.as_str()).concat(
            "/topics/",
        ).concat(self.topic.as_str()).concat(suffix);
        match &self.api_key {
            Some(key) => uri.concat("?key=").concat(key.as_str()),
            None => uri,
        }
    }

    /// The topic's address, with `suffix` behind the topic's name, or an error where the `http`
    /// crate takes its text for no URI.
    pub fn uri(&self, suffix: &str) -> (r: Result<Uri, UriParseError>)
        ensures
            match parsed_uri(self.address(suffix@)) {
                Ok(uri) => r == Ok::<_, UriParseError>(uri),
                Err(source) => r == Err::<Uri, _>(UriParseError { source }),
            },
    {
        let text = self.uri_text(suffix);
        match parse_uri(text.as_str()) {
            Ok(uri) => Ok(uri),
            Err(source) => Err(UriParseError { source }),
        }
    }

    /// What the sink needs to publish to `uri`: batches of ten mebibytes or one second, unless
    /// configured otherwise.
    pub open spec fn service_at<T>(self, uri: Uri, tls: T) -> PubsubService<T> {
        PubsubService {
            batch: BatchSettings {
                size: or_default(self.batch.batch_size, 10_485_760usize),
                timeout_secs: or_default(self.batch.batch_timeout, 1u64),
            },
            request: self.request,
            uri,
            tls,
        }
    }

    /// What the sink needs to publish, given what came of loading its TLS settings. An address that
    /// is no URI is reported before settings that did not load.
    pub fn service<T, E>(&self, tls: Result<T, E>) -> (r: Result<PubsubService<T>, ServiceError<E>>)
        ensures
            match (parsed_uri(self.address(":publish"@)), tls) {
                (Err(source), _) => r == Err::<PubsubService<T>, _>(
                    ServiceError::<E>::Uri(UriParseError { source }),
                ),
                (Ok(_), Err(error)) => r == Err::<PubsubService<T>, _>(ServiceError::Tls(error)),
                (Ok(uri), Ok(settings)) => {
                    &&& r == Ok::<_, ServiceError<E>>(self.service_at(uri, settings))
                    &&& r->Ok_0.uri == uri
                    &&& r->Ok_0.tls == settings
                    &&& r->Ok_0.request.request_in_flight_limit == self.request.request_in_flight_limit
                    &&& r->Ok_0.request.request_timeout_secs == self.request.request_timeout_secs
                    &&& r->Ok_0.request.request_rate_limit_duration_secs
                        == self.request.request_rate_limit_duration_secs
                    &&& r->Ok_0.request.request_rate_limit_num == self.request.request_rate_limit_num
                    &&& r->Ok_0.request.request_retry_attempts == self.request.request_retry_attempts
                    &&& r->Ok_0.request.request_retry_backoff_secs
                        == self.request.request_retry_backoff_secs
                    &&& self.batch.batch_size is Some ==> r->Ok_0.batch.size
                        == self.batch.batch_size->Some_0
                    &&& self.batch.batch_size is None ==> r->Ok_0.batch.size == 10_485_760
                    &&& self.batch.batch_timeout is Some ==> r->Ok_0.batch.timeout_secs
                        == self.batch.batch_timeout->Some_0
                    &&& self.batch.batch_timeout is None ==> r->Ok_0.batch.timeout_secs == 1
                },
            },
    {
        let batch = self.batch.unwrap_or(mebibytes(10), 1);
        let request = self.request.unwrap_with(&TowerRequestConfig::default());
        match self.uri(":publish") {
            Ok(uri) => match tls {
                Ok(tls) => Ok(PubsubService { batch, request, uri, tls }),
                Err(error) => Err(ServiceError::Tls(error)),
            },
            Err(error) => Err(ServiceError::Uri(error)),
        }
    }

    /// The request that checks whether the topic is there, or an error where its address is no URI.
    /// A token that cannot stand in a header is left out, unless the address is no URI (see
    /// [`PubsubConfig::try_assemble`]).
    pub fn healthcheck(&self, creds: &Option<PubsubCreds>) -> (r: Result<
        PubsubRequest,
        UriParseError,
    >)
        requires
            parsed_uri(self.address(Seq::empty())) is Ok ==> sendable(*creds),
        ensures
            match parsed_uri(self.address(Seq::empty())) {
                Ok(uri) => {
                    &&& r is Ok
                    &&& r->Ok_0.method == Method::Get
                    &&& r->Ok_0.uri == uri
                    &&& header_lines(r->Ok_0.headers) == authorized(*creds, no_lines())
                    &&& r->Ok_0.body@ == Seq::<u8>::empty()
                },
                Err(source) => r == Err::<PubsubRequest, _>(UriParseError { source }),
            },
    {
        proof {
            reveal_strlit("");
            assert(""@ =~= Seq::<char>::empty());
        }
        match self.uri("") {
            Ok(uri) => {
                let mut request = PubsubRequest {
                    method: Method::Get,
                    uri,
                    headers: headers_new(),
                    body: Vec::new(),
                };
                if let Some(creds) = creds.as_ref() {
                    creds.apply(&mut request);
                }
                Ok(request)
            },
            Err(error) => Err(error),
        }
    }

    /// Nothing goes wrong before the token is applied to a request: the addresses are URIs, and the
    /// TLS settings have loaded.
    pub open spec fn applies_token<T, E>(self, tls: Result<T, E>) -> bool {
        &&& parsed_uri(self.address(":publish"@)) is Ok
        &&& tls is Ok
        &&& parsed_uri(self.address(Seq::empty())) is Ok
    }

    /// The parts of the sink, once credentials are there or not needed, and given what came of
    /// loading its TLS settings: what it needs to publish, and the request that checks whether the
    /// topic is there. A token that cannot stand in a header is left out, unless something goes
    /// wrong before (see [`PubsubConfig::try_assemble`]).
    pub fn assemble<T, E>(&self, creds: &Option<PubsubCreds>, tls: Result<T, E>) -> (r: Result<
        (PubsubService<T>, PubsubRequest),
        ServiceError<E>,
    >)
        requires
            self.applies_token(tls) ==> sendable(*creds),
        ensures
            match (
                parsed_uri(self.address(":publish"@)),
                tls,
                parsed_uri(self.address(Seq::empty())),
            ) {
                (Ok(publish), Ok(settings), Ok(check)) => {
                    &&& r is Ok
                    &&& r->Ok_0.0 == self.service_at(publish, settings)
                    &&& r->Ok_0.0.uri == publish
                    &&& r->Ok_0.0.tls == settings
                    &&& r->Ok_0.0.request.request_in_flight_limit == self.request.request_in_flight_limit
                    &&& r->Ok_0.0.request.request_timeout_secs == self.request.request_timeout_secs
                    &&& r->Ok_0.0.request.request_rate_limit_duration_secs
                        == self.request.request_rate_limit_duration_secs
                    &&& r->Ok_0.0.request.request_rate_limit_num == self.request.request_rate_limit_num
                    &&& r->Ok_0.0.request.request_retry_attempts == self.request.request_retry_attempts
                    &&& r->Ok_0.0.request.request_retry_backoff_secs
                        == self.request.request_retry_backoff_secs
                    &&& self.batch.batch_size is Some ==> r->Ok_0.0.batch.size
                        == self.batch.batch_size->Some_0
                    &&& self.batch.batch_size is None ==> r->Ok_0.0.batch.size == 10_485_760
                    &&& self.batch.batch_timeout is Some ==> r->Ok_0.0.batch.timeout_secs
                        == self.batch.batch_timeout->Some_0
                    &&& self.batch.batch_timeout is None ==> r->Ok_0.0.batch.timeout_secs == 1
                    &&& r->Ok_0.1.method == Method::Get
                    &&& r->Ok_0.1.uri == check
                    &&& header_lines(r->Ok_0.1.headers) == authorized(*creds, no_lines())
                    &&& r->Ok_0.1.body@ == Seq::<u8>::empty()
                },
                (Err(source), _, _) => r == Err::<(PubsubService<T>, PubsubRequest), _>(
                    ServiceError::<E>::Uri(UriParseError { source }),
                ),
                (Ok(_), Err(error), _) => r == Err::<(PubsubService<T>, PubsubRequest), _>(
                    ServiceError::Tls(error),
                ),
                (Ok(_), Ok(_), Err(source)) => r == Err::<(PubsubService<T>, PubsubRequest), _>(
                    ServiceError::<E>::Uri(UriParseError { source }),
                ),
            },
    {
        match self.service(tls) {
            Ok(service) => match self.healthcheck(creds) {
                Ok(check) => Ok((service, check)),
                Err(error) => Err(ServiceError::Uri(error)),
            },
            Err(error) => Err(error),
        }
    }

    /// The parts of the sink, as [`PubsubConfig::assemble`] makes them, or `None` where nothing goes
    /// wrong before the token is applied, and the token cannot stand in a header.
    pub fn try_assemble<T, E>(&self, creds: &Option<PubsubCreds>, tls: Result<T, E>) -> (r: Option<
        Result<(PubsubService<T>, PubsubRequest), ServiceError<E>>,
    >)
        ensures
            r is None <==> self.applies_token(tls) && !sendable(*creds),
            match (
                parsed_uri(self.address(":publish"@)),
                tls,
                parsed_uri(self.address(Seq::empty())),
            ) {
                (Ok(publish), Ok(settings), Ok(check)) => r is Some ==> {
                    let parts = r->Some_0;
                    &&& parts is Ok
                    &&& parts->Ok_0.0 == self.service_at(publish, settings)
                    &&& parts->Ok_0.0.uri == publish
                    &&& parts->Ok_0.0.tls == settings
                    &&& parts->Ok_0.0.request.request_in_flight_limit == self.request.request_in_flight_limit
                    &&& parts->Ok_0.0.request.request_timeout_secs == self.request.request_timeout_secs
                    &&& parts->Ok_0.0.request.request_rate_limit_duration_secs
                        == self.request.request_rate_limit_duration_secs
                    &&& parts->Ok_0.0.request.request_rate_limit_num == self.request.request_rate_limit_num
                    &&& parts->Ok_0.0.request.request_retry_attempts == self.request.request_retry_attempts
                    &&& parts->Ok_0.0.request.request_retry_backoff_secs
                        == self.request.request_retry_backoff_secs
                    &&& self.batch.batch_size is Some ==> parts->Ok_0.0.batch.size
                        == self.batch.batch_size->Some_0
                    &&& self.batch.batch_size is None ==> parts->Ok_0.0.batch.size == 10_485_760
                    &&& self.batch.batch_timeout is Some ==> parts->Ok_0.0.batch.timeout_secs
                        == self.batch.batch_timeout->Some_0
                    &&& self.batch.batch_timeout is None ==> parts->Ok_0.0.batch.timeout_secs == 1
                    &&& parts->Ok_0.1.method == Method::Get
                    &&& parts->Ok_0.1.uri == check
                    &&& header_lines(parts->Ok_0.1.headers) == authorized(*creds, no_lines())
                    &&& parts->Ok_0.1.body@ == Seq::<u8>::empty()
                },
                (Err(source), _, _) => r == Some(
                    Err::<(PubsubService<T>, PubsubRequest), _>(
                        ServiceError::<E>::Uri(UriParseError { source }),
                    ),
                ),
                (Ok(_), Err(error), _) => r == Some(
                    Err::<(PubsubService<T>, PubsubRequest), _>(ServiceError::Tls(error)),
                ),
                (Ok(_), Ok(_), Err(source)) => r == Some(
                    Err::<(PubsubService<T>, PubsubRequest), _>(
                        ServiceError::<E>::Uri(UriParseError { source }),
                    ),
                ),
            },
    {
        proof {
            reveal_strlit("");
            assert(""@ =~= Seq::<char>::empty());
        }
        let applies = self.uri(":publish").is_ok() && tls.is_ok() && self.uri("").is_ok();
        let sends = match creds.as_ref() {
            Some(creds) => creds.token.header().is_ok(),
            None => true,
        };
        if applies && !sends {
            None
        } else {
            Some(self.assemble(creds, tls))
        }
    }
}

/// What comes of a health check, given the status that it was answered with, or why there was no
/// answer. It passes on status 200 only.
///
/// On success it is the interval, in seconds, at which to renew the token of the credentials,
/// where there are any.
pub fn healthcheck_outcome<E>(creds: &Option<PubsubCreds>, answer: Result<u16, E>) -> (r: Result<
    Option<u64>,
    CheckError<E>,
>)
    ensures
        match answer {
            Ok(status) => if status == 200 {
                &&& r is Ok
                &&& r->Ok_0 is Some <==> *creds is Some
                &&& r->Ok_0 is Some ==> r->Ok_0->Some_0 == creds->Some_0.token.expires_in as int / 2
            } else {
                r == Err::<Option<u64>, _>(
                    CheckError::<E>::Unhealthy(HealthcheckError::UnexpectedStatus { status }),
                )
            },
            Err(error) => r == Err::<Option<u64>, _>(CheckError::Transport(error)),
        },
{
    match answer {
        Ok(status) => {
            if status == 200 {
                match creds.as_ref() {
                    Some(creds) => Ok(Some(creds.renewal_interval())),
                    None => Ok(None),
                }
            } else {
                Err(CheckError::Unhealthy(HealthcheckError::UnexpectedStatus { status }))
            }
        },
        Err(error) => Err(CheckError::Transport(error)),
    }
}

impl<T> PubsubService<T> {
    /// The request that publishes the encoded events `logs`.
    pub fn publish(&self, creds: &Option<PubsubCreds>, logs: Vec<u8>) -> (r: PubsubRequest)
        requires
            sendable(*creds),
            logs@.len() + 16 <= isize::MAX,
        ensures
            r.method == Method::Post,
            r.uri == self.uri,
            header_lines(r.headers) == authorized(
                *creds,
                no_lines().insert("content-type"@, seq![encode_utf8("application/json"@)]),
            ),
            r.body@ == body_of(logs@),
    {
        let mut headers = headers_new();
        proof {
            reveal_strlit("content-type");
            reveal_strlit("application/json");
            assert(is_ascii_chars("application/json"@));
            is_ascii_chars_encode_utf8("application/json"@);
        }
        match header_value("application/json") {
            Ok(content_type) => {
                let _ = headers_insert(&mut headers, "content-type", content_type);
            },
            Err(_) => {
                assert(false);
            },
        }
        let mut request = PubsubRequest {
            method: Method::Post,
            uri: clone_uri(&self.uri),
            headers,
            body: make_body(logs),
        };
        if let Some(creds) = creds.as_ref() {
            creds.apply(&mut request);
        }
        request
    }
}

/// In every address the scheme and host come first, then the whole configured project between
/// `/v1/projects/` and `/topics/`, the whole configured topic directly behind that, the suffix, and
/// the API key where there is one. Nothing else is in it.
pub proof fn law_address_places_each_part(config: PubsubConfig, suffix: Seq<char>)
    ensures
        ({
            let text = config.address(suffix);
            let path = match config.emulator_host {
                Some(host) => "http://"@.len() + host@.len(),
                None => "https://pubsub.googleapis.com"@.len(),
            } as int;
            let project = path + "/v1/projects/"@.len();
            let topics = project + config.project@.len();
            let topic = topics + "/topics/"@.len();
            let behind = topic + config.topic@.len();
            let query = behind + suffix.len();
            &&& match config.emulator_host {
                Some(host) => {
                    &&& text.subrange(0, "http://"@.len() as int) == "http://"@
                    &&& text.subrange("http://"@.len() as int, path) == host@
                },
                None => text.subrange(0, path) == "https://pubsub.googleapis.com"@,
            }
            &&& text.subrange(path, project) == "/v1/projects/"@
            &&& text.subrange(project, topics) == config.project@
            &&& text.subrange(topics, topic) == "/topics/"@
            &&& text.subrange(topic, behind) == config.topic@
            &&& text.subrange(behind, query) == suffix
            &&& match config.api_key {
                Some(key) => {
                    let value = query + "?key="@.len();
                    &&& text.subrange(query, value) == "?key="@
                    &&& text.skip(value) == key@
                    &&& text.len() == value + key@.len()
                },
                None => text.len() == query,
            }
        }),
{
    let text = config.address(suffix);
    let path = match config.emulator_host {
        Some(host) => "http://"@.len() + host@.len(),
        None => "https://pubsub.googleapis.com"@.len(),
    } as int;
    let project = path + "/v1/projects/"@.len();
    let topics = project + config.project@.len();
    let topic = topics + "/topics/"@.len();
    let behind = topic + config.topic@.len();
    let query = behind + suffix.len();
    match config.emulator_host {
        Some(host) => {
            assert(text.subrange(0, "http://"@.len() as int) =~= "http://"@);
            assert(text.subrange("http://"@.len() as int, path) =~= host@);
        },
        None => {
            assert(text.subrange(0, path) =~= "https://pubsub.googleapis.com"@);
        },
    }
    assert(text.subrange(path, project) =~= "/v1/projects/"@);
    assert(text.subrange(project, topics) =~= config.project@);
    assert(text.subrange(topics, topic) =~= "/topics/"@);
    assert(text.subrange(topic, behind) =~= config.topic@);
    assert(text.subrange(behind, query) =~= suffix);
    match config.api_key {
        Some(key) => {
            let value = query + "?key="@.len();
            assert(text.subrange(query, value) =~= "?key="@);
            assert(text.skip(value) =~= key@);
        },
        None => {},
    }
}

/// The address depends on project, topic, emulator, API key and suffix only: configurations that
/// differ in credentials or in batch, request and TLS settings have the same addresses.
pub proof fn law_address_ignores_other_settings(
    a: PubsubConfig,
    b: PubsubConfig,
    suffix: Seq<char>,
)
    requires
        a.project@ == b.project@,
        a.topic@ == b.topic@,
        text_of(a.emulator_host) == text_of(b.emulator_host),
        text_of(a.api_key) == text_of(b.api_key),
    ensures
        a.address(suffix) == b.address(suffix),
{
}

/// What the sink publishes with is what is configured, each setting for itself; sizes and ages of
/// batches that are not configured are ten mebibytes and one second.
pub proof fn law_service_has_each_setting<T>(config: PubsubConfig, uri: Uri, tls: T)
    ensures
        ({
            let service = config.service_at(uri, tls);
            &&& service.uri == uri
            &&& service.tls == tls
            &&& service.request.request_in_flight_limit == config.request.request_in_flight_limit
            &&& service.request.request_timeout_secs == config.request.request_timeout_secs
            &&& service.request.request_rate_limit_duration_secs
                == config.request.request_rate_limit_duration_secs
            &&& service.request.request_rate_limit_num == config.request.request_rate_limit_num
            &&& service.request.request_retry_attempts == config.request.request_retry_attempts
            &&& service.request.request_retry_backoff_secs
                == config.request.request_retry_backoff_secs
            &&& config.batch.batch_size is Some ==> service.batch.size
                == config.batch.batch_size->Some_0
            &&& config.batch.batch_size is None ==> service.batch.size == 10 * 1024 * 1024
            &&& config.batch.batch_timeout is Some ==> service.batch.timeout_secs
                == config.batch.batch_timeout->Some_0
            &&& config.batch.batch_timeout is None ==> service.batch.timeout_secs == 1
        }),
{
}

/// A request carries the token where there are credentials, and is left as it is where there are
/// none.
pub proof fn law_authorized_with_credentials_only(
    creds: PubsubCreds,
    lines: Map<Seq<char>, Seq<Seq<u8>>>,
    name: Seq<char>,
)
    ensures
        authorized(None, lines) == lines,
        authorized(Some(creds), lines)["authorization"@] == seq![
            encode_utf8(creds.token.token_type@ + " "@ + creds.token.access_token@),
        ],
        authorized(Some(creds), lines).dom() == lines.dom().insert("authorization"@),
        name != "authorization"@ && lines.dom().contains(name) ==> authorized(
            Some(creds),
            lines,
        )[name] == lines[name],
{
    assert(authorized(Some(creds), lines).dom() =~= lines.dom().insert("authorization"@));
}

/// Without credentials there is no token that could not be sent.
pub proof fn law_no_credentials_can_be_sent(creds: PubsubCreds)
    ensures
        sendable(None),
        sendable(Some(creds)) <==> creds.token.is_sendable(),
{
}

/// The token is applied unless one of the addresses is no URI or the TLS settings have not loaded.
pub proof fn law_token_is_applied_last<T, E>(config: PubsubConfig, settings: T, error: E)
    ensures
        !config.applies_token(Err::<T, E>(error)),
        config.applies_token(Ok::<T, E>(settings)) <==> parsed_uri(
            config.address(":publish"@),
        ) is Ok && parsed_uri(config.address(Seq::empty())) is Ok,
{
}

/// Events are published to the address that the health check asks for, with `:publish` behind the
/// topic's name and before the API key.
pub proof fn law_publish_extends_healthcheck(config: PubsubConfig)
    ensures
        config.api_key is None ==> config.address(":publish"@) == config.address(Seq::empty())
            + ":publish"@,
        config.api_key is Some ==> {
            let key = "?key="@ + config.api_key->Some_0@;
            let plain = PubsubConfig { api_key: None, ..config };
            &&& config.address(Seq::empty()) == plain.address(Seq::empty()) + key
            &&& config.address(":publish"@) == plain.address(":publish"@) + key
        },
{
    let plain = PubsubConfig { api_key: None, ..config };
    assert(plain.address(":publish"@) =~= plain.address(Seq::empty()) + ":publish"@);
    if config.api_key is Some {
        let key = "?key="@ + config.api_key->Some_0@;
        assert(config.address(Seq::empty()) =~= plain.address(Seq::empty()) + key);
        assert(config.address(":publish"@) =~= plain.address(":publish"@) + key);
    }
}

} // verus!
