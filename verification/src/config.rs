use vstd::prelude::*;

use std::time::Duration;

use crate::question::option_text;

verus! {

/// The protocol that a provider configuration speaks.
#[derive(Clone, Copy, Debug, PartialEq, Eq, Structural)]
pub enum Backend {
    /// The AI Gateway evaluation protocol.
    Vercel,
    /// The native TypeSafe protocol.
    TypeSafe,
}

/// The environment variable that holds a backend's API key.
pub open spec fn key_env_name(backend: Backend) -> Seq<char> {
    match backend {
        Backend::Vercel => "AI_GATEWAY_API_KEY"@,
        Backend::TypeSafe => "TYPESAFE_API_KEY"@,
    }
}

impl Backend {
    /// The environment variable that holds this backend's API key.
    pub fn key_env(self) -> (r: &'static str)
        ensures
            r@ == key_env_name(self),
    {
        match self {
            Backend::Vercel => "AI_GATEWAY_API_KEY",
            Backend::TypeSafe => "TYPESAFE_API_KEY",
        }
    }
}


/// The HTTP client, carried through to the request that uses it.
#[verifier::external_type_specification]
#[verifier::external_body]
pub struct ExClient(reqwest::Client);

/// Calls `reqwest::Client::clone`. The client is a shared pointer to its pool
/// (`#[derive(Clone)]` over one `Arc` field), so the clone is the same value.
#[verifier::external_body]
fn clone_client(client: &reqwest::Client) -> (r: reqwest::Client)
    ensures
        r == *client,
{
    client.clone()
}

/// The whole seconds of a duration, as `Duration::as_secs` gives them.
pub uninterp spec fn duration_secs(d: Duration) -> u64;

/// The nanoseconds of a duration beyond its whole seconds, as
/// `Duration::subsec_nanos` gives them.
pub uninterp spec fn duration_subsec_nanos(d: Duration) -> u32;

/// Calls `Duration::as_secs`: the whole seconds of `d`, a function of `d` alone.
#[verifier::external_body]
fn whole_seconds(d: &Duration) -> (r: u64)
    ensures
        r == duration_secs(*d),
{
    d.as_secs()
}

/// Calls `Duration::subsec_nanos`: the nanoseconds of `d` beyond its whole
/// seconds, a function of `d` alone, documented to be below one billion.
#[verifier::external_body]
fn fractional_nanos(d: &Duration) -> (r: u32)
    ensures
        r == duration_subsec_nanos(*d),
        r < 1_000_000_000,
{
    d.subsec_nanos()
}

/// The timeout that a duration sets.
pub open spec fn timeout_of(d: Duration) -> Timeout {
    Timeout { secs: duration_secs(d), nanos: duration_subsec_nanos(d) }
}

/// A total request timeout: whole seconds and the nanoseconds beyond them.
#[derive(Clone, Copy, Debug, PartialEq, Eq, Structural)]
pub struct Timeout {
    pub secs: u64,
    pub nanos: u32,
}

impl Timeout {
    /// The timeout of a duration.
    pub fn of(d: Duration) -> (r: Timeout)
        ensures
            r == timeout_of(d),
            r.nanos < 1_000_000_000,
    {
        Timeout { secs: whole_seconds(&d), nanos: fractional_nanos(&d) }
    }

    /// Whether the timeout is zero.
    pub fn is_zero(&self) -> (r: bool)
        ensures
            r == (self.secs == 0 && self.nanos == 0),
    {
        self.secs == 0 && self.nanos == 0
    }
}

/// What a provider configuration holds.
pub struct SettingsView {
    pub api_key: Option<Seq<char>>,
    pub endpoint: Seq<char>,
    pub model: Seq<char>,
    pub timeout: Timeout,
    pub client: Option<reqwest::Client>,
}

/// The settings of a provider configuration.
#[derive(Debug)]
pub struct Settings {
    api_key: Option<String>,
    endpoint: String,
    model: String,
    timeout: Timeout,
    client: Option<reqwest::Client>,
}

impl View for Settings {
    type V = SettingsView;

    closed spec fn view(&self) -> SettingsView {
        SettingsView {
            api_key: option_text(self.api_key),
            endpoint: self.endpoint@,
            model: self.model@,
            timeout: self.timeout,
            client: self.client,
        }
    }
}

/// The default timeout: sixty seconds.
pub open spec fn default_timeout() -> Timeout {
    Timeout { secs: 60, nanos: 0 }
}

/// The default endpoint of a backend.
pub open spec fn default_endpoint(backend: Backend) -> Seq<char> {
    match backend {
        Backend::Vercel => "https://ai-gateway.vercel.sh/v4/ai/evaluation-model"@,
        Backend::TypeSafe => "https://api.typesafe.ai/v1/systemone"@,
    }
}

/// The default model of a backend.
pub open spec fn default_model(backend: Backend) -> Seq<char> {
    match backend {
        Backend::Vercel => "typesafe-ai/jev"@,
        Backend::TypeSafe => "jev-latest"@,
    }
}

/// The settings that a backend starts from, given the key read from its environment variable.
pub open spec fn default_settings(backend: Backend, env_key: Option<Seq<char>>) -> SettingsView {
    SettingsView {
        api_key: env_key,
        endpoint: default_endpoint(backend),
        model: default_model(backend),
        timeout: default_timeout(),
        client: None,
    }
}

impl Settings {
    fn defaults(backend: Backend, env_key: Option<String>) -> (r: Settings)
        ensures
            r@ == default_settings(backend, option_text(env_key)),
    {
        let (endpoint, model) = match backend {
            Backend::Vercel => ("https://ai-gateway.vercel.sh/v4/ai/evaluation-model", "typesafe-ai/jev"),
            Backend::TypeSafe => ("https://api.typesafe.ai/v1/systemone", "jev-latest"),
        };
        Settings {
            api_key: env_key,
            endpoint: endpoint.to_owned(),
            model: model.to_owned(),
            timeout: Timeout { secs: 60, nanos: 0 },
            client: None,
        }
    }

    fn duplicate(&self) -> (r: Settings)
        ensures
            r == *self,
    {
        let api_key = match &self.api_key {
            Some(k) => Some(k.clone()),
            None => None,
        };
        let client = match &self.client {
            Some(c) => Some(clone_client(c)),
            None => None,
        };
        Settings {
            api_key,
            endpoint: self.endpoint.clone(),
            model: self.model.clone(),
            timeout: self.timeout,
            client,
        }
    }

    /// The API key, if one is set.
    pub fn api_key(&self) -> (r: Option<&str>)
        ensures
            match r {
                Some(k) => self@.api_key == Some(k@),
                None => self@.api_key is None,
            },
    {
        match &self.api_key {
            Some(k) => Some(k.as_str()),
            None => None,
        }
    }

    /// The evaluation endpoint.
    pub fn endpoint(&self) -> (r: &str)
        ensures
            r@ == self@.endpoint,
    {
        self.endpoint.as_str()
    }

    /// The model.
    pub fn model(&self) -> (r: &str)
        ensures
            r@ == self@.model,
    {
        self.model.as_str()
    }

    /// The total request timeout.
    pub fn timeout(&self) -> (r: Timeout)
        ensures
            r == self@.timeout,
    {
        self.timeout
    }

    /// The HTTP client chosen for these settings, if any; the caller's default otherwise.
    pub fn client(&self) -> (r: Option<reqwest::Client>)
        ensures
            r == self@.client,
    {
        match &self.client {
            Some(c) => Some(clone_client(c)),
            None => None,
        }
    }

    fn set_api_key(self, key: &str) -> (r: Settings)
        ensures
            r@ == (SettingsView { api_key: Some(key@), ..self@ }),
    {
        Settings { api_key: Some(key.to_owned()), ..self }
    }

    fn set_endpoint(self, endpoint: &str) -> (r: Settings)
        ensures
            r@ == (SettingsView { endpoint: endpoint@, ..self@ }),
    {
        Settings { endpoint: endpoint.to_owned(), ..self }
    }

    fn set_model(self, model: &str) -> (r: Settings)
        ensures
            r@ == (SettingsView { model: model@, ..self@ }),
    {
        Settings { model: model.to_owned(), ..self }
    }

    fn set_timeout(self, timeout: Duration) -> (r: Settings)
        ensures
            r@ == (SettingsView { timeout: timeout_of(timeout), ..self@ }),
            r@.timeout.nanos < 1_000_000_000,
    {
        Settings { timeout: Timeout::of(timeout), ..self }
    }

    fn set_client(self, client: reqwest::Client) -> (r: Settings)
        ensures
            r@ == (SettingsView { client: Some(client), ..self@ }),
    {
        Settings { client: Some(client), ..self }
    }
}


/// Configuration for Vercel AI Gateway, whose key is read from `AI_GATEWAY_API_KEY`.
///
/// Defaults to model `typesafe-ai/jev` and the Gateway v4 evaluation endpoint.
#[derive(Debug)]
pub struct VercelConfig(Settings);

/// Configuration for the direct TypeSafe API, whose key is read from `TYPESAFE_API_KEY`.
///
/// Defaults to model `jev-latest` and `https://api.typesafe.ai/v1/systemone`.
/// Boolean questions are sent as native `noul` questions.
#[derive(Debug)]
pub struct TypeSafeConfig(Settings);

impl View for VercelConfig {
    type V = SettingsView;

    closed spec fn view(&self) -> SettingsView {
        self.0@
    }
}

impl View for TypeSafeConfig {
    type V = SettingsView;

    closed spec fn view(&self) -> SettingsView {
        self.0@
    }
}

impl VercelConfig {
    /// The defaults of this provider, with the key read from its environment
    /// variable (`None` when it is unset). No other provider's key is used.
    pub fn new(env_key: Option<String>) -> (r: Self)
        ensures
            r@ == default_settings(Backend::Vercel, option_text(env_key)),
    {
        VercelConfig(Settings::defaults(Backend::Vercel, env_key))
    }

    /// Override the API key read from the environment.
    pub fn with_api_key(self, key: &str) -> (r: Self)
        ensures
            r@ == (SettingsView { api_key: Some(key@), ..self@ }),
    {
        VercelConfig(self.0.set_api_key(key))
    }

    /// Set the full HTTP(S) evaluation URL. No path is appended.
    pub fn with_endpoint(self, endpoint: &str) -> (r: Self)
        ensures
            r@ == (SettingsView { endpoint: endpoint@, ..self@ }),
    {
        VercelConfig(self.0.set_endpoint(endpoint))
    }

    /// Select a model using this provider's naming scheme.
    pub fn with_model(self, model: &str) -> (r: Self)
        ensures
            r@ == (SettingsView { model: model@, ..self@ }),
    {
        VercelConfig(self.0.set_model(model))
    }

    /// Set the total HTTP timeout, including response reading.
    pub fn with_timeout(self, timeout: Duration) -> (r: Self)
        ensures
            r@ == (SettingsView { timeout: timeout_of(timeout), ..self@ }),
            r@.timeout.nanos < 1_000_000_000,
    {
        VercelConfig(self.0.set_timeout(timeout))
    }

    /// Use a custom HTTP pool instead of the default shared pool.
    pub fn with_http_client(self, client: reqwest::Client) -> (r: Self)
        ensures
            r@ == (SettingsView { client: Some(client), ..self@ }),
    {
        VercelConfig(self.0.set_client(client))
    }

    /// The settings of this configuration.
    pub fn settings(&self) -> (r: &Settings)
        ensures
            r@ == self@,
    {
        &self.0
    }
}

impl Clone for VercelConfig {
    fn clone(&self) -> (r: Self)
        ensures
            r == *self,
    {
        VercelConfig(self.0.duplicate())
    }
}

impl From<VercelConfig> for Config {
    fn from(value: VercelConfig) -> Self {
        Config::Vercel(value)
    }
}

impl vstd::std_specs::convert::FromSpecImpl<VercelConfig> for Config {
    open spec fn obeys_from_spec() -> bool {
        true
    }

    open spec fn from_spec(v: VercelConfig) -> Config {
        Config::Vercel(v)
    }
}

impl<'a> From<&'a VercelConfig> for Config {
    fn from(value: &'a VercelConfig) -> Self {
        Config::Vercel(value.clone())
    }
}

impl<'a> vstd::std_specs::convert::FromSpecImpl<&'a VercelConfig> for Config {
    open spec fn obeys_from_spec() -> bool {
        true
    }

    open spec fn from_spec(v: &'a VercelConfig) -> Config {
        Config::Vercel(*v)
    }
}

impl TypeSafeConfig {
    /// The defaults of this provider, with the key read from its environment
    /// variable (`None` when it is unset). No other provider's key is used.
    pub fn new(env_key: Option<String>) -> (r: Self)
        ensures
            r@ == default_settings(Backend::TypeSafe, option_text(env_key)),
    {
        TypeSafeConfig(Settings::defaults(Backend::TypeSafe, env_key))
    }

    /// Override the API key read from the environment.
    pub fn with_api_key(self, key: &str) -> (r: Self)
        ensures
            r@ == (SettingsView { api_key: Some(key@), ..self@ }),
    {
        TypeSafeConfig(self.0.set_api_key(key))
    }

    /// Set the full HTTP(S) evaluation URL. No path is appended.
    pub fn with_endpoint(self, endpoint: &str) -> (r: Self)
        ensures
            r@ == (SettingsView { endpoint: endpoint@, ..self@ }),
    {
        TypeSafeConfig(self.0.set_endpoint(endpoint))
    }

    /// Select a model using this provider's naming scheme.
    pub fn with_model(self, model: &str) -> (r: Self)
        ensures
            r@ == (SettingsView { model: model@, ..self@ }),
    {
        TypeSafeConfig(self.0.set_model(model))
    }

    /// Set the total HTTP timeout, including response reading.
    pub fn with_timeout(self, timeout: Duration) -> (r: Self)
        ensures
            r@ == (SettingsView { timeout: timeout_of(timeout), ..self@ }),
            r@.timeout.nanos < 1_000_000_000,
    {
        TypeSafeConfig(self.0.set_timeout(timeout))
    }

    /// Use a custom HTTP pool instead of the default shared pool.
    pub fn with_http_client(self, client: reqwest::Client) -> (r: Self)
        ensures
            r@ == (SettingsView { client: Some(client), ..self@ }),
    {
        TypeSafeConfig(self.0.set_client(client))
    }

    /// The settings of this configuration.
    pub fn settings(&self) -> (r: &Settings)
        ensures
            r@ == self@,
    {
        &self.0
    }
}

impl Clone for TypeSafeConfig {
    fn clone(&self) -> (r: Self)
        ensures
            r == *self,
    {
        TypeSafeConfig(self.0.duplicate())
    }
}

impl From<TypeSafeConfig> for Config {
    fn from(value: TypeSafeConfig) -> Self {
        Config::TypeSafe(value)
    }
}

impl vstd::std_specs::convert::FromSpecImpl<TypeSafeConfig> for Config {
    open spec fn obeys_from_spec() -> bool {
        true
    }

    open spec fn from_spec(v: TypeSafeConfig) -> Config {
        Config::TypeSafe(v)
    }
}

impl<'a> From<&'a TypeSafeConfig> for Config {
    fn from(value: &'a TypeSafeConfig) -> Self {
        Config::TypeSafe(value.clone())
    }
}

impl<'a> vstd::std_specs::convert::FromSpecImpl<&'a TypeSafeConfig> for Config {
    open spec fn obeys_from_spec() -> bool {
        true
    }

    open spec fn from_spec(v: &'a TypeSafeConfig) -> Config {
        Config::TypeSafe(*v)
    }
}

/// A provider configuration: the backend to speak to and its settings.
#[derive(Debug)]
pub enum Config {
    /// Evaluate through Vercel AI Gateway.
    Vercel(VercelConfig),
    /// Evaluate directly through TypeSafe.
    TypeSafe(TypeSafeConfig),
}

/// What a provider configuration holds.
pub struct ConfigView {
    pub backend: Backend,
    pub settings: SettingsView,
}

impl View for Config {
    type V = ConfigView;

    open spec fn view(&self) -> ConfigView {
        match self {
            Config::Vercel(c) => ConfigView { backend: Backend::Vercel, settings: c@ },
            Config::TypeSafe(c) => ConfigView { backend: Backend::TypeSafe, settings: c@ },
        }
    }
}

impl Clone for Config {
    fn clone(&self) -> (r: Self)
        ensures
            r == *self,
    {
        match self {
            Config::Vercel(c) => Config::Vercel(c.clone()),
            Config::TypeSafe(c) => Config::TypeSafe(c.clone()),
        }
    }
}

impl<'a> From<&'a Config> for Config {
    fn from(value: &'a Config) -> Self {
        value.clone()
    }
}

impl<'a> vstd::std_specs::convert::FromSpecImpl<&'a Config> for Config {
    open spec fn obeys_from_spec() -> bool {
        true
    }

    open spec fn from_spec(v: &'a Config) -> Config {
        *v
    }
}

impl Config {
    /// Override the API key of this configuration.
    pub fn with_api_key(self, key: &str) -> (r: Config)
        ensures
            r@ == (ConfigView { settings: SettingsView { api_key: Some(key@), ..self@.settings }, ..self@ }),
    {
        match self {
            Config::Vercel(c) => Config::Vercel(c.with_api_key(key)),
            Config::TypeSafe(c) => Config::TypeSafe(c.with_api_key(key)),
        }
    }

    /// Set the full evaluation URL of this configuration.
    pub fn with_endpoint(self, endpoint: &str) -> (r: Config)
        ensures
            r@ == (ConfigView { settings: SettingsView { endpoint: endpoint@, ..self@.settings }, ..self@ }),
    {
        match self {
            Config::Vercel(c) => Config::Vercel(c.with_endpoint(endpoint)),
            Config::TypeSafe(c) => Config::TypeSafe(c.with_endpoint(endpoint)),
        }
    }

    /// Set the total HTTP timeout of this configuration.
    pub fn with_timeout(self, timeout: Duration) -> (r: Config)
        ensures
            r@ == (ConfigView { settings: SettingsView { timeout: timeout_of(timeout), ..self@.settings }, ..self@ }),
            r@.settings.timeout.nanos < 1_000_000_000,
    {
        match self {
            Config::Vercel(c) => Config::Vercel(c.with_timeout(timeout)),
            Config::TypeSafe(c) => Config::TypeSafe(c.with_timeout(timeout)),
        }
    }

    /// Use a custom HTTP pool for this configuration.
    pub fn with_http_client(self, client: reqwest::Client) -> (r: Config)
        ensures
            r@ == (ConfigView { settings: SettingsView { client: Some(client), ..self@.settings }, ..self@ }),
    {
        match self {
            Config::Vercel(c) => Config::Vercel(c.with_http_client(client)),
            Config::TypeSafe(c) => Config::TypeSafe(c.with_http_client(client)),
        }
    }

    /// The backend and the settings of this configuration.
    pub fn into_parts(self) -> (r: (Backend, Settings))
        ensures
            r.0 == self@.backend,
            r.1@ == self@.settings,
    {
        match self {
            Config::Vercel(c) => (Backend::Vercel, c.0),
            Config::TypeSafe(c) => (Backend::TypeSafe, c.0),
        }
    }

    /// The backend of this configuration.
    pub fn backend(&self) -> (r: Backend)
        ensures
            r == self@.backend,
    {
        match self {
            Config::Vercel(_) => Backend::Vercel,
            Config::TypeSafe(_) => Backend::TypeSafe,
        }
    }

    /// The settings of this configuration.
    pub fn settings(&self) -> (r: &Settings)
        ensures
            r@ == self@.settings,
    {
        match self {
            Config::Vercel(c) => &c.0,
            Config::TypeSafe(c) => &c.0,
        }
    }
}

} // verus!
