//! Settings that sinks over HTTP share.

use vstd::prelude::*;

verus! {

/// How events are put together in batches; what is unset takes the default of the sink.
#[derive(Clone, Copy, Debug)]
pub struct BatchConfig {
    /// The size at which a batch is sent, in bytes.
    pub batch_size: Option<usize>,
    /// The age at which a batch is sent, in seconds.
    pub batch_timeout: Option<u64>,
}

/// How events are put together in batches.
#[derive(Clone, Copy, Debug)]
pub struct BatchSettings {
    /// The size at which a batch is sent, in bytes.
    pub size: usize,
    /// The age at which a batch is sent, in seconds.
    pub timeout_secs: u64,
}

/// `value`, or `default` where it is unset.
pub open spec fn or_default<T>(value: Option<T>, default: T) -> T {
    match value {
        Some(v) => v,
        None => default,
    }
}

/// `value`, or `default` where it is unset.
pub open spec fn or_else<T>(value: Option<T>, default: Option<T>) -> Option<T> {
    match value {
        Some(_) => value,
        None => default,
    }
}

impl Default for BatchConfig {
    fn default() -> (r: Self)
        ensures
            r.batch_size is None,
            r.batch_timeout is None,
    {
        BatchConfig { batch_size: None, batch_timeout: None }
    }
}

impl BatchConfig {
    /// The settings of a sink whose batches have this default size, in bytes, and age, in seconds.
    pub fn unwrap_or(&self, size: u64, timeout: u64) -> (r: BatchSettings)
        requires
            size <= usize::MAX,
        ensures
            r.size == or_default(self.batch_size, size as usize),
            r.timeout_secs == or_default(self.batch_timeout, timeout),
            self.batch_size is Some ==> r.size == self.batch_size->Some_0,
            self.batch_size is None ==> r.size == size,
            self.batch_timeout is Some ==> r.timeout_secs == self.batch_timeout->Some_0,
            self.batch_timeout is None ==> r.timeout_secs == timeout,
    {
        BatchSettings {
            size: match self.batch_size {
                Some(batch_size) => batch_size,
                None => size as usize,
            },
            timeout_secs: match self.batch_timeout {
                Some(batch_timeout) => batch_timeout,
                None => timeout,
            },
        }
    }
}

/// How requests are sent; what is unset takes a default.
#[derive(Clone, Copy, Debug)]
pub struct TowerRequestConfig {
    pub request_in_flight_limit: Option<usize>,
    pub request_timeout_secs: Option<u64>,
    pub request_rate_limit_duration_secs: Option<u64>,
    pub request_rate_limit_num: Option<u64>,
    pub request_retry_attempts: Option<usize>,
    pub request_retry_backoff_secs: Option<u64>,
}

impl Default for TowerRequestConfig {
    fn default() -> (r: Self)
        ensures
            r == Self::unset(),
    {
        TowerRequestConfig {
            request_in_flight_limit: None,
            request_timeout_secs: None,
            request_rate_limit_duration_secs: None,
            request_rate_limit_num: None,
            request_retry_attempts: None,
            request_retry_backoff_secs: None,
        }
    }
}

impl TowerRequestConfig {
    /// Nothing is set.
    pub open spec fn unset() -> Self {
        TowerRequestConfig {
            request_in_flight_limit: None,
            request_timeout_secs: None,
            request_rate_limit_duration_secs: None,
            request_rate_limit_num: None,
            request_retry_attempts: None,
            request_retry_backoff_secs: None,
        }
    }

    /// Each setting, taken from `defaults` where it is unset.
    pub open spec fn over(self, defaults: Self) -> Self {
        TowerRequestConfig {
            request_in_flight_limit: or_else(
                self.request_in_flight_limit,
                defaults.request_in_flight_limit,
            ),
            request_timeout_secs: or_else(self.request_timeout_secs, defaults.request_timeout_secs),
            request_rate_limit_duration_secs: or_else(
                self.request_rate_limit_duration_secs,
                defaults.request_rate_limit_duration_secs,
            ),
            request_rate_limit_num: or_else(
                self.request_rate_limit_num,
                defaults.request_rate_limit_num,
            ),
            request_retry_attempts: or_else(
                self.request_retry_attempts,
                defaults.request_retry_attempts,
            ),
            request_retry_backoff_secs: or_else(
                self.request_retry_backoff_secs,
                defaults.request_retry_backoff_secs,
            ),
        }
    }

    /// Each setting, taken from `defaults` where it is unset.
    pub fn unwrap_with(&self, defaults: &Self) -> (r: Self)
        ensures
            r == self.over(*defaults),
    {
        TowerRequestConfig {
            request_in_flight_limit: if self.request_in_flight_limit.is_some() {
                self.request_in_flight_limit
            } else {
                defaults.request_in_flight_limit
            },
            request_timeout_secs: if self.request_timeout_secs.is_some() {
                self.request_timeout_secs
            } else {
                defaults.request_timeout_secs
            },
            request_rate_limit_duration_secs: if self.request_rate_limit_duration_secs.is_some() {
                self.request_rate_limit_duration_secs
            } else {
                defaults.request_rate_limit_duration_secs
            },
            request_rate_limit_num: if self.request_rate_limit_num.is_some() {
                self.request_rate_limit_num
            } else {
                defaults.request_rate_limit_num
            },
            request_retry_attempts: if self.request_retry_attempts.is_some() {
                self.request_retry_attempts
            } else {
                defaults.request_retry_attempts
            },
            request_retry_backoff_secs: if self.request_retry_backoff_secs.is_some() {
                self.request_retry_backoff_secs
            } else {
                defaults.request_retry_backoff_secs
            },
        }
    }
}

/// A setting that is set is kept, whatever the default; one that is unset takes the default.
pub proof fn law_set_value_is_kept<T>(value: T, default: T)
    ensures
        or_default(Some(value), default) == value,
        or_default(None, default) == default,
        or_else(Some(value), Some(default)) == Some(value),
        or_else(Some(value), None) == Some(value),
        or_else(None, Some(default)) == Some(default),
        or_else(None::<T>, None) is None,
{
}

/// Each of the request settings is the configured one where it is set, and the default one where it
/// is not.
pub proof fn law_request_settings_are_kept(
    config: TowerRequestConfig,
    defaults: TowerRequestConfig,
)
    ensures
        ({
            let r = config.over(defaults);
            &&& config.request_in_flight_limit is Some ==> r.request_in_flight_limit
                == config.request_in_flight_limit
            &&& config.request_in_flight_limit is None ==> r.request_in_flight_limit
                == defaults.request_in_flight_limit
            &&& config.request_timeout_secs is Some ==> r.request_timeout_secs
                == config.request_timeout_secs
            &&& config.request_timeout_secs is None ==> r.request_timeout_secs
                == defaults.request_timeout_secs
            &&& config.request_rate_limit_duration_secs is Some
                ==> r.request_rate_limit_duration_secs == config.request_rate_limit_duration_secs
            &&& config.request_rate_limit_duration_secs is None
                ==> r.request_rate_limit_duration_secs == defaults.request_rate_limit_duration_secs
            &&& config.request_rate_limit_num is Some ==> r.request_rate_limit_num
                == config.request_rate_limit_num
            &&& config.request_rate_limit_num is None ==> r.request_rate_limit_num
                == defaults.request_rate_limit_num
            &&& config.request_retry_attempts is Some ==> r.request_retry_attempts
                == config.request_retry_attempts
            &&& config.request_retry_attempts is None ==> r.request_retry_attempts
                == defaults.request_retry_attempts
            &&& config.request_retry_backoff_secs is Some ==> r.request_retry_backoff_secs
                == config.request_retry_backoff_secs
            &&& config.request_retry_backoff_secs is None ==> r.request_retry_backoff_secs
                == defaults.request_retry_backoff_secs
        }),
{
}

/// Settings of which none is set change nothing, as configuration or as defaults.
pub proof fn law_unset_request_settings_change_nothing(config: TowerRequestConfig)
    ensures
        config.over(TowerRequestConfig::unset()) == config,
        TowerRequestConfig::unset().over(config) == config,
        config.over(config) == config,
{
}

/// Options that are the same agree in each of their fields.
pub proof fn law_same_options_agree(a: TlsOptions, b: TlsOptions)
    requires
        a.same(b),
    ensures
        a.verify_certificate == b.verify_certificate,
        a.verify_hostname == b.verify_hostname,
        a.ca_path is Some <==> b.ca_path is Some,
        a.ca_path is Some ==> a.ca_path->Some_0@ == b.ca_path->Some_0@,
        a.crt_path is Some <==> b.crt_path is Some,
        a.crt_path is Some ==> a.crt_path->Some_0@ == b.crt_path->Some_0@,
        a.key_path is Some <==> b.key_path is Some,
        a.key_path is Some ==> a.key_path->Some_0@ == b.key_path->Some_0@,
        a.key_pass is Some <==> b.key_pass is Some,
        a.key_pass is Some ==> a.key_pass->Some_0@ == b.key_pass->Some_0@,
{
}

/// Certificates and keys for encrypted connections.
#[derive(Debug)]
pub struct TlsOptions {
    pub verify_certificate: Option<bool>,
    pub verify_hostname: Option<bool>,
    pub ca_path: Option<String>,
    pub crt_path: Option<String>,
    pub key_path: Option<String>,
    pub key_pass: Option<String>,
}

/// What a text that may be unset holds.
pub open spec fn text_of(text: Option<String>) -> Option<Seq<char>> {
    match text {
        Some(t) => Some(t@),
        None => None,
    }
}

/// A text that is set is held as it is.
pub proof fn law_set_text_is_held(text: String)
    ensures
        text_of(Some(text)) == Some(text@),
        text_of(None) is None,
{
}

/// A copy of a text that may be unset.
pub(crate) fn clone_text(text: &Option<String>) -> (r: Option<String>)
    ensures
        text_of(r) == text_of(*text),
{
    match text {
        Some(t) => Some(t.clone()),
        None => None,
    }
}

impl TlsOptions {
    /// The options are those of `other`.
    pub open spec fn same(self, other: Self) -> bool {
        &&& self.verify_certificate == other.verify_certificate
        &&& self.verify_hostname == other.verify_hostname
        &&& text_of(self.ca_path) == text_of(other.ca_path)
        &&& text_of(self.crt_path) == text_of(other.crt_path)
        &&& text_of(self.key_path) == text_of(other.key_path)
        &&& text_of(self.key_pass) == text_of(other.key_pass)
    }
}

impl Clone for TlsOptions {
    fn clone(&self) -> (r: Self)
        ensures
            r.same(*self),
    {
        TlsOptions {
            verify_certificate: self.verify_certificate,
            verify_hostname: self.verify_hostname,
            ca_path: clone_text(&self.ca_path),
            crt_path: clone_text(&self.crt_path),
            key_path: clone_text(&self.key_path),
            key_pass: clone_text(&self.key_pass),
        }
    }
}

} // verus!
