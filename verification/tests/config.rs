use llmux::config::{
    default_drain_before_switch, default_host, default_port, Config, ConfigError, ConfigFormat,
    ConfigSource, ModelConfig, ModelConfigError, PolicyConfig,
};
use llmux::models::ModelMap;

fn model(host: &str, port: u16) -> ModelConfig {
    ModelConfig {
        host: host.to_string(),
        port,
        wake: "".to_string(),
        sleep: "".to_string(),
        alive: "".to_string(),
    }
}

fn json_text(value: &serde_json::Value, key: &str) -> String {
    value[key].as_str().expect("a string").to_string()
}

/// Reads a configuration the way the file format defines it: absent values get their defaults.
fn read_config(value: &serde_json::Value) -> Config {
    let mut models = ModelMap::new();
    for (name, entry) in value["models"].as_object().expect("models") {
        models.insert(
            name.clone(),
            ModelConfig {
                port: entry["port"].as_u64().expect("port") as u16,
                host: match entry.get("host") {
                    Some(host) => host.as_str().expect("a string").to_string(),
                    None => default_host(),
                },
                wake: json_text(entry, "wake"),
                sleep: json_text(entry, "sleep"),
                alive: json_text(entry, "alive"),
            },
        );
    }
    let mut policy = PolicyConfig::default();
    if let Some(given) = value.get("policy") {
        policy.request_timeout_secs = given["request_timeout_secs"].as_u64();
    }
    Config {
        models,
        policy,
        port: match value.get("port") {
            Some(port) => port.as_u64().expect("port") as u16,
            None => default_port(),
        },
    }
}

#[test]
fn test_invalid_port() {
    let mc = ModelConfig {
        host: "localhost".to_string(),
        port: 0,
        wake: "".to_string(),
        sleep: "".to_string(),
        alive: "".to_string(),
    };
    let err = mc.validate().expect_err("port 0 is bad");
    assert!(err.message().contains("port"));
}

#[test]
fn test_bad_hosts_are_rejected() {
    let cases = [
        ("10.0.0.2", true),
        ("example.com", true),
        ("bad host", false),
        ("  ", false),
        ("localhost:5000", false),
        ("::1", true),
        ("foo-%2D-blah", false),
        ("http://localhost", false),
        (" fat-finger.com", false),
        ("10..54", false),
        ("", false),
    ];
    for (input, expected) in cases {
        let mc = ModelConfig {
            host: input.to_string(),
            port: 8000,
            wake: "".to_string(),
            sleep: "".to_string(),
            alive: "".to_string(),
        };
        assert_eq!(mc.validate().is_ok(), expected, "input: {input:?}");
    }
}

#[test]
fn test_parse_from_file_applies_validation() {
    let json_with_bad_host = r#"{
            "models": {
                "llama": {
                    "port": 8001,
                    "host": "-bad.host-",
                    "wake": "./scripts/wake-llama.sh",
                    "sleep": "./scripts/sleep-llama.sh",
                    "alive": "./scripts/alive-llama.sh"
                }
            },
            "policy": {
                "request_timeout_secs": 30
            },
            "port": 3000
        }"#;
    let config = read_config(&serde_json::from_str(json_with_bad_host).unwrap());
    let err = Config::from_source(
        "config.json",
        ConfigFormat::from_extension(Some("json")),
        ConfigSource::Parsed(config),
    )
    .expect_err("supposed to crash on a bad host name");
    assert!(
        err.message()
            .contains("model \"llama\" failed validation"),
        "{:?}",
        err
    );
}

#[test]
fn test_parse_json() {
    let json = r#"{
            "models": {
                "llama": {
                    "port": 8001,
                    "host": "host.docker.internal",
                    "wake": "./scripts/wake-llama.sh",
                    "sleep": "./scripts/sleep-llama.sh",
                    "alive": "./scripts/alive-llama.sh"
                },
                "mistral": {
                    "port": 8002,
                    "wake": "./scripts/wake-mistral.sh",
                    "sleep": "./scripts/sleep-mistral.sh",
                    "alive": "./scripts/alive-mistral.sh"
                }
            },
            "policy": {
                "request_timeout_secs": 30
            },
            "port": 3000
        }"#;

    let config = read_config(&serde_json::from_str(json).unwrap());
    config.validate().expect("it's valid");
    assert_eq!(config.models.len(), 2);
    assert_eq!(config.models.get("llama").unwrap().port, 8001);
    assert_eq!(config.models.get("mistral").unwrap().host, "localhost");
    assert_eq!(
        config.models.get("llama").unwrap().host,
        "host.docker.internal"
    );
    assert_eq!(config.policy.request_timeout_secs, Some(30));
}

#[test]
fn test_parse_yaml() {
    let yaml = r#"
models:
  llama:
    port: 8001
    wake: ./scripts/wake-llama.sh
    sleep: |
      kill $(cat /tmp/llama.pid)
      rm /tmp/llama.pid
    alive: curl -sf http://localhost:8001/health
policy:
  request_timeout_secs: 60
port: 4000
"#;

    let config = read_config(&serde_yaml::from_str(yaml).unwrap());
    assert_eq!(config.models.len(), 1);
    let llama = config.models.get("llama").unwrap();
    assert_eq!(llama.port, 8001);
    assert_eq!(llama.host, "localhost");
    assert_eq!(llama.wake, "./scripts/wake-llama.sh");
    assert!(llama.sleep.contains("kill"));
    assert_eq!(config.policy.request_timeout_secs, Some(60));
    assert_eq!(config.port, 4000);
}

#[test]
fn test_defaults() {
    let json = r#"{
            "models": {
                "llama": {
                    "port": 8001,
                    "wake": "./wake.sh",
                    "sleep": "./sleep.sh",
                    "alive": "./alive.sh"
                }
            }
        }"#;

    let config = read_config(&serde_json::from_str(json).unwrap());
    assert_eq!(config.port, 3000);
    assert_eq!(config.policy.request_timeout_secs, None);
    assert!(config.policy.drain_before_switch);
    assert_eq!(config.policy.min_active_secs, 0);
}

#[test]
fn default_values() {
    assert_eq!(default_port(), 3000);
    assert_eq!(default_host(), "localhost");
    assert!(default_drain_before_switch());
}

#[test]
fn host_is_checked_before_port() {
    let err = model("bad host", 0).validate().unwrap_err();
    assert!(matches!(&err, ModelConfigError::InvalidHostname(host) if host == "bad host"));
    assert_eq!(err.message(), "invalid hostname: \"bad host\"");
    let err = model("localhost", 0).validate().unwrap_err();
    assert!(matches!(err, ModelConfigError::ReservedPort));
    assert_eq!(err.message(), "port 0 is reserved");
}

#[test]
fn quotes_in_a_hostname_are_escaped() {
    let err = model("a\"b\n", 80).validate().unwrap_err();
    assert_eq!(err.message(), "invalid hostname: \"a\\\"b\\n\"");
}

#[test]
fn parser_error_comes_before_the_port() {
    let config = model("localhost", 0);
    let err = config
        .check_endpoint(Some("invalid authority".to_string()))
        .unwrap_err();
    assert!(matches!(&err, ModelConfigError::InvalidUri(message) if message == "invalid authority"));
    assert_eq!(err.message(), "invalid authority");
    assert!(matches!(
        config.check_endpoint(None),
        Err(ModelConfigError::ReservedPort)
    ));
    assert!(model("localhost", 1).check_endpoint(None).is_ok());
}

#[test]
fn extreme_ports_and_hosts_are_accepted() {
    let label = "a".repeat(63);
    let longest = format!("{label}.{label}.{label}.{}", "a".repeat(61));
    assert_eq!(longest.len(), 253);
    assert!(model(&longest, 65535).validate().is_ok());
    assert!(model("1:2:3:4:5:6:7::", 1).validate().is_ok());
    assert!(model("::2:3:4:5:6:7:8", 65535).validate().is_ok());
    assert!(model("ffff:ffff:ffff:ffff:ffff:ffff:255.255.255.255", 65535)
        .validate()
        .is_ok());
}

#[test]
fn first_invalid_model_is_reported() {
    let mut models = ModelMap::new();
    models.insert("good".to_string(), model("localhost", 8001));
    models.insert("bad-port".to_string(), model("localhost", 0));
    models.insert("bad-host".to_string(), model("-", 8002));
    let config = Config {
        models,
        policy: PolicyConfig::default(),
        port: 3000,
    };
    match config.validate() {
        Err(ConfigError::InvalidModel { model, reason }) => {
            assert_eq!(model, "bad-port");
            assert!(matches!(reason, ModelConfigError::ReservedPort));
        }
        other => panic!("unexpected: {other:?}"),
    }
}

#[test]
fn a_configuration_without_models_is_valid() {
    let config = Config {
        models: ModelMap::new(),
        policy: PolicyConfig::default(),
        port: 3000,
    };
    assert!(config.validate().is_ok());
}

#[test]
fn format_goes_by_extension() {
    assert_eq!(ConfigFormat::from_extension(Some("yaml")), ConfigFormat::Yaml);
    assert_eq!(ConfigFormat::from_extension(Some("yml")), ConfigFormat::Yaml);
    assert_eq!(ConfigFormat::from_extension(Some("json")), ConfigFormat::Json);
    assert_eq!(ConfigFormat::from_extension(Some("YAML")), ConfigFormat::Json);
    assert_eq!(ConfigFormat::from_extension(Some("")), ConfigFormat::Json);
    assert_eq!(ConfigFormat::from_extension(None), ConfigFormat::Json);
}

#[test]
fn load_errors_in_words() {
    let err = Config::from_source("a/b.yaml", ConfigFormat::Yaml, ConfigSource::Unreadable);
    assert_eq!(
        err.unwrap_err().message(),
        "Failed to read config file: a/b.yaml"
    );
    let err = Config::from_source("b.yml", ConfigFormat::Yaml, ConfigSource::Unparsable);
    assert_eq!(err.unwrap_err().message(), "Failed to parse YAML config: b.yml");
    let err = Config::from_source("b", ConfigFormat::Json, ConfigSource::Unparsable);
    assert_eq!(err.unwrap_err().message(), "Failed to parse JSON config: b");
}

#[test]
fn a_valid_source_is_loaded_as_it_is() {
    let mut models = ModelMap::new();
    models.insert("llama".to_string(), model("::1", 8001));
    let config = Config {
        models,
        policy: PolicyConfig {
            request_timeout_secs: Some(7),
            drain_before_switch: false,
            min_active_secs: 5,
        },
        port: 4000,
    };
    let loaded =
        Config::from_source("c.json", ConfigFormat::Json, ConfigSource::Parsed(config.clone()))
            .unwrap();
    assert_eq!(loaded.port, 4000);
    assert_eq!(loaded.models.len(), 1);
    assert_eq!(loaded.models.get("llama").unwrap().host, "::1");
    assert_eq!(loaded.policy.min_active_secs, 5);
}

#[test]
fn policy_is_built_as_configured() {
    let policy = PolicyConfig {
        request_timeout_secs: Some(300),
        drain_before_switch: false,
        min_active_secs: 5,
    }
    .build_policy();
    assert_eq!(policy.request_timeout_secs, Some(300));
    assert!(!policy.drain_before_switch);
    assert_eq!(policy.min_active_secs, 5);

    let policy = PolicyConfig::default().build_policy();
    assert_eq!(policy.request_timeout_secs, None);
    assert!(policy.drain_before_switch);
    assert_eq!(policy.min_active_secs, 0);
}

#[test]
fn a_model_table_replaces_by_name() {
    let mut models = ModelMap::new();
    models.insert("a".to_string(), model("localhost", 1));
    models.insert("b".to_string(), model("localhost", 2));
    models.insert("a".to_string(), model("localhost", 3));
    assert_eq!(models.len(), 2);
    assert_eq!(models.get("a").unwrap().port, 3);
    assert_eq!(models.entry(0).0, "a");
    assert_eq!(models.entry(1).1.port, 2);
    assert!(models.contains_key("b"));
    assert!(!models.contains_key("c"));
    assert!(models.get("A").is_none());
    let copy = models.clone();
    assert_eq!(copy.len(), 2);
    assert_eq!(copy.get("b").unwrap().port, 2);
}

#[test]
fn plain_characters_are_quoted_as_they_are() {
    let plain: String = (' '..='~').filter(|c| *c != '"' && *c != '\\').collect();
    let err = model(&plain, 80).validate().unwrap_err();
    assert_eq!(err.message(), format!("invalid hostname: \"{plain}\""));
    let err = ConfigError::InvalidModel {
        model: plain.clone(),
        reason: ModelConfigError::ReservedPort,
    };
    assert_eq!(err.message(), format!("model \"{plain}\" failed validation"));
}
