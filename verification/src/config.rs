//! Configuration of the proxy, its models and its switch policy.
//!
//! All model lifecycle management is delegated to user-provided scripts; what is configured here
//! is where each model listens, which scripts manage it, and when models are switched.
//!
//! A configuration file holds YAML or JSON, told apart by the extension of its name.

use crate::host::{check_host, render_origin};
use crate::models::ModelMap;
use crate::policy::FifoPolicy;
use crate::text::{debug_text, same_text};
use crate::uri::parse_uri;
use vstd::prelude::*;

verus! {

/// Top-level configuration.
#[derive(Debug)]
pub struct Config {
    /// Models to manage.
    pub models: ModelMap,
    /// Switch policy configuration.
    pub policy: PolicyConfig,
    /// Proxy port.
    pub port: u16,
}

/// Configuration of a single model: where its inference server listens, and three lifecycle
/// hooks. A hook is the path of an executable or an inline shell script.
#[derive(Debug)]
pub struct ModelConfig {
    /// Port on which the model's inference server listens.
    pub port: u16,
    /// Host name or address on which the model's inference server listens.
    pub host: String,
    /// Script that brings the model to a running state, from whatever state it is in.
    pub wake: String,
    /// Script that puts the model to sleep and frees its resources.
    pub sleep: String,
    /// Script that checks whether the model is healthy.
    pub alive: String,
}

/// Policy configuration.
#[derive(Debug)]
pub struct PolicyConfig {
    /// Request timeout in seconds. `None`: requests wait as long as it takes.
    pub request_timeout_secs: Option<u64>,
    /// Whether to drain requests in flight before switching.
    pub drain_before_switch: bool,
    /// Seconds that a model must stay active before it can be put to sleep.
    pub min_active_secs: u64,
}

/// Why the configuration of a model is refused.
#[derive(Debug)]
pub enum ModelConfigError {
    /// The host is neither an IP address nor a host name.
    InvalidHostname(String),
    /// The base URL of the model is not a URI; with the message of the parser.
    InvalidUri(String),
    /// Port 0 cannot be listened on.
    ReservedPort,
}

/// Why a configuration cannot be loaded.
#[derive(Debug)]
pub enum ConfigError {
    /// The file cannot be read.
    Unreadable { path: String },
    /// The file does not hold a configuration in its format.
    Unparsable { format: ConfigFormat, path: String },
    /// The configuration of a model is refused.
    InvalidModel { model: String, reason: ModelConfigError },
}

/// The format of a configuration file.
#[derive(Debug, Clone, Copy, PartialEq, Eq, Structural)]
pub enum ConfigFormat {
    Yaml,
    Json,
}

/// What became of the attempt to read and parse a configuration file.
#[derive(Debug)]
pub enum ConfigSource {
    Unreadable,
    Unparsable,
    Parsed(Config),
}

/// The proxy port where none is configured.
pub fn default_port() -> (port: u16)
    ensures
        port == 3000,
{
    3000
}

/// The host of a model where none is configured.
pub fn default_host() -> (host: String)
    ensures
        host@ == "localhost"@,
{
    "localhost".to_owned()
}

/// Whether to drain before a switch where nothing is configured.
pub fn default_drain_before_switch() -> (drain: bool)
    ensures
        drain,
{
    true
}

/// The extension marks a YAML file.
pub open spec fn is_yaml_extension(extension: Seq<char>) -> bool {
    extension == "yaml"@ || extension == "yml"@
}

impl ConfigFormat {
    /// The format of a file by the extension of its name, if that has one. Whatever is not
    /// marked as YAML is taken for JSON.
    pub fn from_extension(extension: Option<&str>) -> (format: ConfigFormat)
        ensures
            format == (if extension is Some && is_yaml_extension(extension->0@) {
                ConfigFormat::Yaml
            } else {
                ConfigFormat::Json
            }),
            format == ConfigFormat::Yaml <==> extension is Some && (extension->0@ == "yaml"@
                || extension->0@ == "yml"@),
    {
        match extension {
            Some(extension) => if same_text(extension, "yaml") || same_text(extension, "yml") {
                ConfigFormat::Yaml
            } else {
                ConfigFormat::Json
            },
            None => ConfigFormat::Json,
        }
    }

    pub open spec fn name_text(self) -> Seq<char> {
        match self {
            ConfigFormat::Yaml => "YAML"@,
            ConfigFormat::Json => "JSON"@,
        }
    }

    /// The name of the format.
    pub fn name(self) -> (name: &'static str)
        ensures
            name@ == self.name_text(),
    {
        match self {
            ConfigFormat::Yaml => "YAML",
            ConfigFormat::Json => "JSON",
        }
    }
}

impl ModelConfigError {
    /// Whether this is what there is to say against a configuration. Nothing but the host and
    /// the port can be wrong with one.
    pub open spec fn refuses(self, config: ModelConfig) -> bool {
        match self {
            ModelConfigError::InvalidHostname(host) => !crate::host::is_valid_host(config.host@)
                && host@ == config.host@,
            ModelConfigError::InvalidUri(_) => false,
            ModelConfigError::ReservedPort => crate::host::is_valid_host(config.host@)
                && config.port == 0,
        }
    }

    pub open spec fn message_text(self) -> Seq<char> {
        match self {
            ModelConfigError::InvalidHostname(host) => "invalid hostname: "@
                + crate::text::debug_quoted(host@),
            ModelConfigError::InvalidUri(message) => message@,
            ModelConfigError::ReservedPort => "port 0 is reserved"@,
        }
    }

    /// The error in words. A host of plain characters stands between quotes as it is.
    pub fn message(&self) -> (message: String)
        ensures
            message@ == self.message_text(),
            self matches ModelConfigError::InvalidHostname(host) ==> crate::text::is_plain_text(
                host@,
            ) ==> message@ == "invalid hostname: "@ + (seq!['"'] + host@ + seq!['"']),
    {
        match self {
            ModelConfigError::InvalidHostname(host) => "invalid hostname: ".to_owned().concat(
                debug_text(host.as_str()).as_str(),
            ),
            ModelConfigError::InvalidUri(message) => message.clone(),
            ModelConfigError::ReservedPort => "port 0 is reserved".to_owned(),
        }
    }
}

impl ConfigError {
    pub open spec fn message_text(self) -> Seq<char> {
        match self {
            ConfigError::Unreadable { path } => "Failed to read config file: "@ + path@,
            ConfigError::Unparsable { format, path } => "Failed to parse "@ + format.name_text()
                + " config: "@ + path@,
            ConfigError::InvalidModel { model, reason } => "model "@ + crate::text::debug_quoted(
                model@,
            ) + " failed validation"@,
        }
    }

    /// The error in words. The reason for which a model is refused has words of its own; the name
    /// of the model, where it is of plain characters, stands between quotes as it is.
    pub fn message(&self) -> (message: String)
        ensures
            message@ == self.message_text(),
            self matches ConfigError::InvalidModel { model, .. } ==> crate::text::is_plain_text(
                model@,
            ) ==> message@ == "model "@ + (seq!['"'] + model@ + seq!['"'])
                + " failed validation"@,
    {
        match self {
            ConfigError::Unreadable { path } => "Failed to read config file: ".to_owned().concat(
                path.as_str(),
            ),
            ConfigError::Unparsable { format, path } => "Failed to parse ".to_owned().concat(
                format.name(),
            ).concat(" config: ").concat(path.as_str()),
            ConfigError::InvalidModel { model, .. } => "model ".to_owned().concat(
                debug_text(model.as_str()).as_str(),
            ).concat(" failed validation"),
        }
    }
}

impl Clone for ModelConfig {
    fn clone(&self) -> (config: ModelConfig)
        ensures
            config == *self,
    {
        ModelConfig {
            port: self.port,
            host: self.host.clone(),
            wake: self.wake.clone(),
            sleep: self.sleep.clone(),
            alive: self.alive.clone(),
        }
    }
}

impl ModelConfig {
    /// The model has a valid host and a port that can be listened on.
    pub open spec fn is_valid(self) -> bool {
        crate::host::is_valid_host(self.host@) && self.port != 0
    }

    /// The base URL of the model: its origin and the root path.
    pub open spec fn base_url(self) -> Seq<char> {
        crate::host::origin_text(self.host@, self.port) + "/"@
    }

    /// Whether a host is an IP address or a host name, going by its syntax alone.
    pub fn is_valid_hostname(host: &str) -> (valid: bool)
        ensures
            valid == crate::host::is_valid_host(host@),
    {
        check_host(host)
    }

    /// Validates syntax and bounds. No network lookup is made.
    pub fn validate(&self) -> (outcome: Result<(), ModelConfigError>)
        ensures
            outcome is Ok <==> self.is_valid(),
            outcome is Ok <==> crate::host::is_valid_host(self.host@) && self.port != 0,
            outcome matches Err(error) ==> error.refuses(*self),
            outcome is Ok ==> crate::uri::uri_from_text(self.base_url()) is Ok,
    {
        if !ModelConfig::is_valid_hostname(self.host.as_str()) {
            return Err(ModelConfigError::InvalidHostname(self.host.clone()));
        }
        // Requests are forwarded below this URL: better find out now whether it parses.
        let base_url = render_origin(self.host.as_str(), self.port).concat("/");
        proof {
            let origin = crate::host::origin_text(self.host@, self.port);
            crate::host::law_origin_of_valid_host(self.host@, self.port);
            reveal_strlit("/");
            assert(base_url@ == origin + "/"@);
            vstd::utf8::is_ascii_chars_encode_utf8(base_url@);
        }
        match parse_uri(base_url.as_str()) {
            Ok(_) => self.check_endpoint(None),
            Err(message) => self.check_endpoint(Some(message)),
        }
    }

    /// What is left to decide once the host is known to be valid and the base URL was parsed:
    /// an error of the parser is reported, then a reserved port.
    pub fn check_endpoint(&self, uri_error: Option<String>) -> (outcome: Result<
        (),
        ModelConfigError,
    >)
        ensures
            match (uri_error, outcome) {
                (Some(message), Err(ModelConfigError::InvalidUri(reported))) => reported@
                    == message@,
                (None, Err(ModelConfigError::ReservedPort)) => self.port == 0,
                (None, Ok(())) => self.port != 0,
                _ => false,
            },
    {
        match uri_error {
            Some(message) => Err(ModelConfigError::InvalidUri(message)),
            None => if self.port == 0 {
                Err(ModelConfigError::ReservedPort)
            } else {
                Ok(())
            },
        }
    }
}

impl Clone for Config {
    fn clone(&self) -> (config: Config)
        ensures
            config == (Config { models: config.models, ..*self }),
            config.models@ == self.models@,
            config.models.names() == self.models.names(),
    {
        Config {
            models: self.models.clone(),
            policy: self.policy.clone(),
            port: self.port,
        }
    }
}

impl Config {
    /// Every model is valid.
    pub open spec fn is_valid(self) -> bool {
        forall|name: Seq<char>|
            self.models@.contains_key(name) ==> (#[trigger] self.models@[name]).is_valid()
    }

    /// The error names the first model that is not valid, and why it is not.
    pub open spec fn is_first_refusal(self, error: ConfigError) -> bool {
        exists|i: int|
            {
                &&& 0 <= i < self.models.names().len()
                &&& error matches ConfigError::InvalidModel { model, reason } && {
                    &&& model@ == #[trigger] self.models.names()[i]
                    &&& self.models@.contains_key(model@)
                    &&& reason.refuses(self.models@[model@])
                }
                &&& forall|j: int|
                    0 <= j < i ==> (#[trigger] self.models@[self.models.names()[j]]).is_valid()
            }
    }

    /// Validates every model.
    pub fn validate(&self) -> (outcome: Result<(), ConfigError>)
        ensures
            outcome is Ok <==> self.is_valid(),
            outcome matches Err(error) ==> self.is_first_refusal(error),
    {
        let count = self.models.len();
        for i in 0..count
            invariant
                count == self.models.names().len(),
                self.models.names().to_set() == self.models@.dom(),
                forall|j: int|
                    0 <= j < i ==> (#[trigger] self.models@[self.models.names()[j]]).is_valid(),
        {
            let (name, config) = self.models.entry(i);
            if let Err(reason) = config.validate() {
                let ghost failed = self.models.names()[i as int];
                assert(!self.models@[failed].is_valid());
                return Err(ConfigError::InvalidModel { model: name.clone(), reason });
            }
        }
        assert forall|name: Seq<char>| self.models@.contains_key(name) implies (
        #[trigger] self.models@[name]).is_valid() by {
            assert(self.models.names().to_set().contains(name));
            let j = self.models.names().index_of(name);
            assert(self.models@[self.models.names()[j]].is_valid());
        }
        Ok(())
    }

    /// Settles the loading of a configuration file: what was parsed from it is the
    /// configuration, once every model in it is validated.
    pub fn from_source(path: &str, format: ConfigFormat, source: ConfigSource) -> (loaded: Result<
        Config,
        ConfigError,
    >)
        ensures
            match source {
                ConfigSource::Unreadable => loaded matches Err(ConfigError::Unreadable { path: p })
                    && p@ == path@,
                ConfigSource::Unparsable => loaded matches Err(
                    ConfigError::Unparsable { format: f, path: p },
                ) && f == format && p@ == path@,
                ConfigSource::Parsed(config) => if config.is_valid() {
                    loaded == Ok::<Config, ConfigError>(config)
                } else {
                    loaded matches Err(error) && config.is_first_refusal(error)
                },
            },
    {
        match source {
            ConfigSource::Unreadable => Err(ConfigError::Unreadable { path: path.to_owned() }),
            ConfigSource::Unparsable => Err(
                ConfigError::Unparsable { format, path: path.to_owned() },
            ),
            ConfigSource::Parsed(config) => match config.validate() {
                Ok(()) => Ok(config),
                Err(error) => Err(error),
            },
        }
    }
}

/// A file is taken for YAML by two extensions and no other.
pub proof fn law_yaml_extensions(extension: Seq<char>)
    ensures
        is_yaml_extension(extension) <==> extension == seq!['y', 'a', 'm', 'l'] || extension
            == seq!['y', 'm', 'l'],
        ConfigFormat::Yaml.name_text() == seq!['Y', 'A', 'M', 'L'],
        ConfigFormat::Json.name_text() == seq!['J', 'S', 'O', 'N'],
{
    reveal_strlit("yaml");
    reveal_strlit("yml");
    reveal_strlit("YAML");
    reveal_strlit("JSON");
    assert("yaml"@ == seq!['y', 'a', 'm', 'l']);
    assert("yml"@ == seq!['y', 'm', 'l']);
}

/// Whether a model is valid goes by its host and its port alone: by every port but 0, on every
/// host that is a host name or an IPv6 address, it is.
pub proof fn law_validity(config: ModelConfig, other: ModelConfig)
    ensures
        config.is_valid() <==> config.port != 0 && (crate::host::is_host_name(config.host@)
            || crate::address::is_ipv6(config.host@)),
        config.host@ == other.host@ && config.port != 0 && other.port != 0 ==> config.is_valid()
            == other.is_valid(),
{
    crate::host::law_valid_hosts(config.host@);
    crate::host::law_valid_hosts(other.host@);
}

/// What is said against a configuration holds of it: it is refused for its host, which is then
/// named, or for port 0, and for the port only where the host is valid. There is something to say
/// exactly against what is not valid.
pub proof fn law_refusals(config: ModelConfig, error: ModelConfigError)
    ensures
        error.refuses(config) ==> !config.is_valid(),
        error.refuses(config) ==> (match error {
            ModelConfigError::InvalidHostname(host) => host@ == config.host@
                && !crate::host::is_valid_host(config.host@),
            ModelConfigError::ReservedPort => config.port == 0 && crate::host::is_valid_host(
                config.host@,
            ),
            ModelConfigError::InvalidUri(_) => false,
        }),
        !config.is_valid() ==> ModelConfigError::ReservedPort.refuses(config)
            || ModelConfigError::InvalidHostname(config.host).refuses(config),
{
}

/// The base URL of a model is its origin with a slash behind it.
pub proof fn law_base_url(config: ModelConfig)
    ensures
        config.base_url() == crate::host::origin_text(config.host@, config.port).push('/'),
{
    reveal_strlit("/");
}

/// A configuration is valid exactly if each of its models is, and a refusal names a model of the
/// configuration that is not, with a reason that holds of it.
pub proof fn law_configuration_validity(config: Config, error: ConfigError, name: Seq<char>)
    ensures
        config.is_valid() && config.models@.contains_key(name) ==> config.models@[name].is_valid(),
        (forall|n: Seq<char>|
            config.models@.contains_key(n) ==> (#[trigger] config.models@[n]).is_valid())
            ==> config.is_valid(),
        config.is_first_refusal(error) ==> (error matches ConfigError::InvalidModel {
            model,
            reason,
        } && {
            &&& config.models@.contains_key(model@)
            &&& !config.models@[model@].is_valid()
            &&& reason.refuses(config.models@[model@])
            &&& config.models.names().contains(model@)
        }),
        config.is_first_refusal(error) ==> !config.is_valid(),
{
    if config.is_first_refusal(error) {
        if let ConfigError::InvalidModel { model, reason } = error {
            law_refusals(config.models@[model@], reason);
        }
    }
}

/// The words of each error, with what it is about in full.
pub proof fn law_config_error_words(error: ConfigError, reason: ModelConfigError)
    ensures
        error matches ConfigError::Unreadable { path } ==> error.message_text()
            == "Failed to read config file: "@ + path@,
        error matches ConfigError::Unparsable { format, path } ==> error.message_text()
            == "Failed to parse "@ + (if format == ConfigFormat::Yaml {
            "YAML"@
        } else {
            "JSON"@
        }) + " config: "@ + path@,
        error matches ConfigError::InvalidModel { model, .. } ==> error.message_text() == "model "@
            + crate::text::debug_quoted(model@) + " failed validation"@,
        reason matches ModelConfigError::InvalidHostname(host) ==> reason.message_text()
            == "invalid hostname: "@ + crate::text::debug_quoted(host@),
        reason matches ModelConfigError::InvalidUri(message) ==> reason.message_text() == message@,
        reason is ReservedPort ==> reason.message_text() == "port 0 is reserved"@,
{
}

impl Clone for PolicyConfig {
    fn clone(&self) -> (policy: PolicyConfig)
        ensures
            policy == *self,
    {
        PolicyConfig {
            request_timeout_secs: self.request_timeout_secs,
            drain_before_switch: self.drain_before_switch,
            min_active_secs: self.min_active_secs,
        }
    }
}

impl Default for PolicyConfig {
    fn default() -> (policy: PolicyConfig)
        ensures
            policy.request_timeout_secs == None::<u64>,
            policy.drain_before_switch,
            policy.min_active_secs == 0,
    {
        PolicyConfig {
            request_timeout_secs: None,
            drain_before_switch: default_drain_before_switch(),
            min_active_secs: 0,
        }
    }
}

impl PolicyConfig {
    /// The policy that is configured.
    pub fn build_policy(&self) -> (policy: FifoPolicy)
        ensures
            policy.request_timeout_secs == self.request_timeout_secs,
            policy.drain_before_switch == self.drain_before_switch,
            policy.min_active_secs == self.min_active_secs,
    {
        FifoPolicy::new(
            self.request_timeout_secs,
            self.drain_before_switch,
            self.min_active_secs,
        )
    }
}

} // verus!
