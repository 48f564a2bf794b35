use ferrix::config::check_config;
use ferrix::config::environment_variables;
use ferrix::config::normalize_api_base;
use ferrix::config::parse_bool;
use ferrix::config::parse_bool_option;
use ferrix::config::parse_f32_range_option;
use ferrix::config::parse_prompt_cache_retention;
use ferrix::config::parse_reasoning_effort;
use ferrix::config::parse_u32;
use ferrix::config::parse_u32_option;
use ferrix::config::provider_kind;
use ferrix::config::report_faults;
use ferrix::config::responses_endpoint;
use ferrix::config::validate_ferrix_config;
use ferrix::config::Environment;
use ferrix::config::FerrixConfig;
use ferrix::config::Float32;
use ferrix::config::ModelConfig;
use ferrix::config::OpenRouterConfig;
use ferrix::config::PromptCacheRetention;
use ferrix::config::ProviderKind;
use ferrix::config::ReasoningEffort;
use ferrix::config::UiConfig;
use ferrix::config::WorkspaceModelConfig;
use ferrix::config::WorkspacePromptCacheConfig;
use ferrix::config::WorkspaceUiConfig;
use ferrix::config::DEFAULT_MODEL;
use ferrix::config::DEFAULT_PROVIDER;
use ferrix::config::FERRIX_CONFIG_PATH;
use ferrix::config::OPENAI_API_BASE;
use ferrix::config::OPENROUTER_API_BASE;
use ferrix::config::TEMPERATURE_MAX_BITS;
use ferrix::config::TOP_P_MAX_BITS;
use ferrix::failure::Failure;
use ferrix::json::Json;
use serde_json::Value;

const SCHEMA: &str = r##"{
    "$schema": "https://json-schema.org/draft/2020-12/schema",
    "title": "FerrixConfig",
    "type": "object",
    "properties": {
        "model": { "anyOf": [{ "$ref": "#/$defs/WorkspaceModelConfig" }, { "type": "null" }], "default": null },
        "ui": { "anyOf": [{ "$ref": "#/$defs/WorkspaceUiConfig" }, { "type": "null" }], "default": null }
    },
    "additionalProperties": false,
    "$defs": {
        "OpenRouterConfig": {
            "type": "object",
            "properties": {
                "referer": { "type": ["string", "null"], "default": null, "minLength": 1 },
                "title": { "type": ["string", "null"], "default": null, "minLength": 1 },
                "categories": { "type": ["string", "null"], "default": null, "minLength": 1 }
            },
            "additionalProperties": false
        },
        "WorkspaceModelConfig": {
            "type": "object",
            "properties": {
                "provider": { "type": ["string", "null"], "default": null, "minLength": 1 },
                "name": { "type": ["string", "null"], "default": null, "minLength": 1 },
                "base_url": { "type": ["string", "null"], "default": null, "minLength": 1 },
                "reasoning_effort": { "anyOf": [{ "$ref": "#/$defs/WorkspaceReasoningEffort" }, { "type": "null" }], "default": null },
                "max_output_tokens": { "type": ["integer", "null"], "default": null, "format": "uint32", "minimum": 1 },
                "temperature": { "type": ["number", "null"], "default": null, "format": "float", "minimum": 0.0, "maximum": 2.0 },
                "top_p": { "type": ["number", "null"], "default": null, "format": "float", "minimum": 0.0, "maximum": 1.0 },
                "openrouter": { "anyOf": [{ "$ref": "#/$defs/OpenRouterConfig" }, { "type": "null" }], "default": null },
                "prompt_cache": { "anyOf": [{ "$ref": "#/$defs/WorkspacePromptCacheConfig" }, { "type": "null" }], "default": null }
            },
            "additionalProperties": false
        },
        "WorkspacePromptCacheConfig": {
            "type": "object",
            "properties": {
                "retention": { "anyOf": [{ "$ref": "#/$defs/WorkspacePromptCacheRetention" }, { "type": "null" }], "default": null },
                "key": { "type": ["string", "null"], "default": null, "minLength": 1 },
                "store_responses": { "type": ["boolean", "null"], "default": null }
            },
            "additionalProperties": false
        },
        "WorkspacePromptCacheRetention": { "type": "string", "enum": ["in_memory", "24h"] },
        "WorkspaceReasoningEffort": { "type": "string", "enum": ["none", "minimal", "low", "medium", "high", "xhigh"] },
        "WorkspaceUiConfig": {
            "type": "object",
            "properties": {
                "status_line": { "type": ["boolean", "null"], "default": null },
                "color": { "type": ["boolean", "null"], "default": null }
            },
            "additionalProperties": false
        }
    }
}"##;

fn float(value: f32) -> Float32 {
    Float32 {
        bits: value.to_bits(),
        shown: format!("{value}"),
    }
}

fn as_f32(value: &Float32) -> f32 {
    f32::from_bits(value.bits)
}

fn env_from(vars: &[(&str, &str)]) -> Environment {
    let mut env = Environment::new();
    for (name, value) in vars {
        env.set(
            name,
            value,
            value
                .trim()
                .parse::<f32>()
                .map(float)
                .map_err(|error| error.to_string()),
        );
    }
    env
}

fn text(value: &Value, key: &str) -> Option<String> {
    value.get(key).and_then(Value::as_str).map(str::to_string)
}

fn number(value: &Value, key: &str) -> Option<Float32> {
    value
        .get(key)
        .and_then(Value::as_f64)
        .map(|number| float(number as f32))
}

fn decode(config: Json) -> FerrixConfig {
    let value = config.into_value();
    let model = value.get("model").map(|model| WorkspaceModelConfig {
        provider: text(model, "provider"),
        name: text(model, "name"),
        base_url: text(model, "base_url"),
        reasoning_effort: text(model, "reasoning_effort")
            .map(|effort| parse_reasoning_effort(&effort).expect("effort")),
        max_output_tokens: model
            .get("max_output_tokens")
            .and_then(Value::as_u64)
            .map(|tokens| tokens as u32),
        temperature: number(model, "temperature"),
        top_p: number(model, "top_p"),
        openrouter: model.get("openrouter").map(|openrouter| OpenRouterConfig {
            referer: text(openrouter, "referer"),
            title: text(openrouter, "title"),
            categories: text(openrouter, "categories"),
        }),
        prompt_cache: model
            .get("prompt_cache")
            .map(|cache| WorkspacePromptCacheConfig {
                retention: text(cache, "retention")
                    .map(|value| parse_prompt_cache_retention(&value).expect("retention")),
                key: text(cache, "key"),
                store_responses: cache.get("store_responses").and_then(Value::as_bool),
            }),
    });
    let ui = value.get("ui").map(|ui| WorkspaceUiConfig {
        status_line: ui.get("status_line").and_then(Value::as_bool),
        color: ui.get("color").and_then(Value::as_bool),
    });
    FerrixConfig { model, ui }
}

fn schema() -> Json {
    Json::parse(SCHEMA).expect("schema")
}

fn load(contents: &str) -> Result<FerrixConfig, Failure> {
    check_config(FERRIX_CONFIG_PATH, contents, &schema()).map(decode)
}

fn whole(failure: &Failure) -> String {
    failure.chain.join(": ")
}

#[test]
fn normalizes_responses_api_base_url() {
    let base = normalize_api_base("https://api.openai.com/v1").expect("normalize base");

    assert_eq!(base, "https://api.openai.com/v1");
    assert_eq!(
        responses_endpoint(&base),
        "https://api.openai.com/v1/responses"
    );
}

#[test]
fn normalizes_responses_endpoint_url() {
    let base =
        normalize_api_base("https://api.openai.com/v1/responses").expect("normalize endpoint");

    assert_eq!(base, "https://api.openai.com/v1");
    assert_eq!(
        responses_endpoint(&base),
        "https://api.openai.com/v1/responses"
    );
}

#[test]
fn rejects_chat_completions_endpoint_url() {
    let error = normalize_api_base("https://api.openai.com/v1/chat/completions")
        .expect_err("chat completions endpoint should be rejected");

    assert!(error
        .message()
        .contains("Responses API base URL, not a chat completions endpoint"));
}

#[test]
fn rejects_empty_responses_api_base_url() {
    let error = normalize_api_base("").expect_err("empty endpoint should be rejected");

    assert!(error.message().contains("must not be empty"));
}

#[test]
fn slashes_at_the_end_of_a_base_url_do_not_count() {
    assert_eq!(normalize_api_base("http://a/v1///").expect("base"), "http://a/v1");
    assert_eq!(
        normalize_api_base("///").expect_err("nothing left").chain,
        vec!["FERRIX_BASE_URL must not be empty".to_string()]
    );
    assert_eq!(responses_endpoint("http://a/responses/"), "http://a/responses");
    assert_eq!(normalize_api_base("http://a//responses").expect("base"), "http://a/");
    assert_eq!(normalize_api_base("/responses").expect("base"), "");
    assert_eq!(
        normalize_api_base(&responses_endpoint("http://a/v1//")).expect("base"),
        "http://a/v1"
    );
}

#[test]
fn loads_workspace_model_config_from_ferrix_config_json() {
    let config = load(
        r#"{
                "model": {
                    "provider": "openrouter",
                    "name": "openai/gpt-5.2",
                    "reasoning_effort": "low",
                    "max_output_tokens": 9000,
                    "temperature": 0.2,
                    "top_p": 0.9,
                    "openrouter": {
                        "referer": "https://example.com",
                        "title": "Ferrix",
                        "categories": "cli-agent"
                    }
                }
            }"#,
    )
    .expect("load file");

    let config = ModelConfig::from_workspace(config, &env_from(&[("OPENROUTER_API_KEY", "sk-or")]))
        .expect("load config");

    assert_eq!(config.provider, "openrouter");
    assert_eq!(config.model, "openai/gpt-5.2");
    assert_eq!(config.api_base, OPENROUTER_API_BASE);
    assert_eq!(config.endpoint, "https://openrouter.ai/api/v1/responses");
    assert_eq!(config.api_key.as_deref(), Some("sk-or"));
    assert_eq!(config.api_key_env_var, "OPENROUTER_API_KEY");
    assert_eq!(config.reasoning_effort, Some(ReasoningEffort::Low));
    assert_eq!(config.max_output_tokens, Some(9000));
    assert_eq!(config.temperature.as_ref().map(as_f32), Some(0.2));
    assert_eq!(config.top_p.as_ref().map(as_f32), Some(0.9));
    assert_eq!(
        config.openrouter.referer.as_deref(),
        Some("https://example.com")
    );
    assert_eq!(config.openrouter.title.as_deref(), Some("Ferrix"));
    assert_eq!(config.openrouter.categories.as_deref(), Some("cli-agent"));
}

#[test]
fn env_overrides_workspace_model_config() {
    let config = load(
        r#"{
                "model": {
                    "provider": "openai-compatible",
                    "name": "gpt-config",
                    "base_url": "https://api.openai.com/v1",
                    "reasoning_effort": "low",
                    "max_output_tokens": 1000,
                    "temperature": 0.3,
                    "top_p": 0.8
                }
            }"#,
    )
    .expect("load file");

    let config = ModelConfig::from_workspace(
        config,
        &env_from(&[
            ("FERRIX_MODEL_PROVIDER", "openrouter"),
            ("FERRIX_MODEL", "openai/gpt-5.2"),
            ("FERRIX_BASE_URL", "https://openrouter.ai/api/v1/responses"),
            ("FERRIX_REASONING_EFFORT", "medium"),
            ("FERRIX_MAX_OUTPUT_TOKENS", "2000"),
            ("FERRIX_TEMPERATURE", "0.5"),
            ("FERRIX_TOP_P", "0.7"),
            ("OPENROUTER_API_KEY", "sk-or"),
        ]),
    )
    .expect("load config");

    assert_eq!(config.provider, "openrouter");
    assert_eq!(config.model, "openai/gpt-5.2");
    assert_eq!(config.api_base, OPENROUTER_API_BASE);
    assert_eq!(config.reasoning_effort, Some(ReasoningEffort::Medium));
    assert_eq!(config.max_output_tokens, Some(2000));
    assert_eq!(config.temperature.as_ref().map(as_f32), Some(0.5));
    assert_eq!(config.top_p.as_ref().map(as_f32), Some(0.7));
    assert_eq!(config.api_key.as_deref(), Some("sk-or"));
}

#[test]
fn rejects_unknown_config_fields() {
    let error = load(
        r#"{
                "model": {
                    "provider": "openrouter",
                    "nam": "openai/gpt-5.2"
                }
            }"#,
    )
    .expect_err("unknown config field should fail schema validation");
    let error = whole(&error);

    assert!(error.contains("failed to validate"));
    assert!(error.contains("nam"));
}

#[test]
fn rejects_config_values_outside_schema_ranges() {
    let error = load(
        r#"{
                "model": {
                    "temperature": 3,
                    "top_p": 2,
                    "max_output_tokens": 0
                }
            }"#,
    )
    .expect_err("out-of-range config values should fail schema validation");
    let error = whole(&error);

    assert!(error.contains("temperature"));
    assert!(error.contains("top_p"));
    assert!(error.contains("max_output_tokens"));
}

#[test]
fn rejects_invalid_config_types() {
    let error = load(
        r#"{
                "model": {
                    "provider": 42,
                    "openrouter": {
                        "title": false
                    }
                }
            }"#,
    )
    .expect_err("invalid config types should fail schema validation");
    let error = whole(&error);

    assert!(error.contains("provider"));
    assert!(error.contains("title"));
}

#[test]
fn openrouter_provider_uses_openrouter_base_url() {
    let config = ModelConfig::from_parts(
        Some(WorkspaceModelConfig {
            provider: Some("openrouter".to_string()),
            ..Default::default()
        }),
        &env_from(&[]),
    )
    .expect("resolve config");

    assert_eq!(config.api_base, OPENROUTER_API_BASE);
    assert_eq!(config.endpoint, "https://openrouter.ai/api/v1/responses");
}

#[test]
fn openrouter_provider_uses_openrouter_api_key() {
    let config = ModelConfig::from_parts(
        Some(WorkspaceModelConfig {
            provider: Some("openrouter".to_string()),
            ..Default::default()
        }),
        &env_from(&[
            ("OPENROUTER_API_KEY", "sk-or"),
            ("OPENAI_API_KEY", "sk-openai"),
        ]),
    )
    .expect("resolve config");

    assert_eq!(config.api_key.as_deref(), Some("sk-or"));
    assert_eq!(config.api_key_env_var, "OPENROUTER_API_KEY");
}

#[test]
fn openai_provider_uses_openai_api_key() {
    let config = ModelConfig::from_parts(
        Some(WorkspaceModelConfig {
            provider: Some("openai".to_string()),
            ..Default::default()
        }),
        &env_from(&[
            ("OPENROUTER_API_KEY", "sk-or"),
            ("OPENAI_API_KEY", "sk-openai"),
        ]),
    )
    .expect("resolve config");

    assert_eq!(config.api_key.as_deref(), Some("sk-openai"));
    assert_eq!(config.api_key_env_var, "OPENAI_API_KEY");
}

#[test]
fn generic_provider_keeps_existing_openai_defaults() {
    let config = ModelConfig::from_parts(None, &env_from(&[])).expect("resolve config");

    assert_eq!(config.provider, DEFAULT_PROVIDER);
    assert_eq!(config.model, DEFAULT_MODEL);
    assert_eq!(config.api_base, OPENAI_API_BASE);
    assert_eq!(config.endpoint, "https://api.openai.com/v1/responses");
    assert_eq!(config.api_key_env_var, "OPENAI_API_KEY");
}

#[test]
fn parses_reasoning_effort_values() {
    assert_eq!(
        parse_reasoning_effort("none").unwrap(),
        ReasoningEffort::NoEffort
    );
    assert_eq!(
        parse_reasoning_effort("minimal").unwrap(),
        ReasoningEffort::Minimal
    );
    assert_eq!(parse_reasoning_effort("low").unwrap(), ReasoningEffort::Low);
    assert_eq!(
        parse_reasoning_effort("medium").unwrap(),
        ReasoningEffort::Medium
    );
    assert_eq!(
        parse_reasoning_effort("HIGH").unwrap(),
        ReasoningEffort::High
    );
    assert_eq!(
        parse_reasoning_effort("xhigh").unwrap(),
        ReasoningEffort::Xhigh
    );
}

#[test]
fn rejects_invalid_reasoning_effort_value() {
    let error =
        parse_reasoning_effort("maximum").expect_err("invalid reasoning effort should fail");

    assert!(error.message().contains("invalid FERRIX_REASONING_EFFORT"));
}

#[test]
fn rejects_invalid_request_options() {
    let error = ModelConfig::from_parts(
        None,
        &env_from(&[
            ("FERRIX_MAX_OUTPUT_TOKENS", "many"),
            ("FERRIX_TEMPERATURE", "0.2"),
            ("FERRIX_TOP_P", "0.9"),
        ]),
    )
    .expect_err("invalid max output tokens should fail");
    assert!(error.message().contains("FERRIX_MAX_OUTPUT_TOKENS"));

    let error = ModelConfig::from_parts(
        Some(WorkspaceModelConfig {
            max_output_tokens: Some(0),
            ..Default::default()
        }),
        &env_from(&[]),
    )
    .expect_err("zero max output tokens should fail");
    assert!(error.message().contains("FERRIX_MAX_OUTPUT_TOKENS"));

    let error = ModelConfig::from_parts(
        None,
        &env_from(&[("FERRIX_TEMPERATURE", "3"), ("FERRIX_TOP_P", "0.9")]),
    )
    .expect_err("invalid temperature should fail");
    assert!(error.message().contains("FERRIX_TEMPERATURE"));

    let error = ModelConfig::from_parts(
        None,
        &env_from(&[("FERRIX_TEMPERATURE", "0.2"), ("FERRIX_TOP_P", "2")]),
    )
    .expect_err("invalid top_p should fail");
    assert!(error.message().contains("FERRIX_TOP_P"));
}

#[test]
fn loads_prompt_cache_config_from_ferrix_config_json() {
    let config = load(
        r#"{
                "model": {
                    "prompt_cache": {
                        "retention": "24h",
                        "key": "my-session",
                        "store_responses": true
                    }
                }
            }"#,
    )
    .expect("load file");

    let config = ModelConfig::from_workspace(config, &env_from(&[])).expect("load config");

    assert_eq!(
        config.prompt_cache.retention,
        Some(PromptCacheRetention::Hours24)
    );
    assert_eq!(config.prompt_cache.key.as_deref(), Some("my-session"));
    assert!(config.prompt_cache.store_responses);
}

#[test]
fn env_overrides_prompt_cache_config() {
    let config = load(
        r#"{
                "model": {
                    "prompt_cache": {
                        "retention": "24h",
                        "key": "config-key",
                        "store_responses": false
                    }
                }
            }"#,
    )
    .expect("load file");

    let config = ModelConfig::from_workspace(
        config,
        &env_from(&[
            ("FERRIX_PROMPT_CACHE_RETENTION", "in_memory"),
            ("FERRIX_PROMPT_CACHE_KEY", "env-key"),
            ("FERRIX_STORE_RESPONSES", "true"),
        ]),
    )
    .expect("load config");

    assert_eq!(
        config.prompt_cache.retention,
        Some(PromptCacheRetention::InMemory)
    );
    assert_eq!(config.prompt_cache.key.as_deref(), Some("env-key"));
    assert!(config.prompt_cache.store_responses);
}

#[test]
fn with_prompt_cache_key_fills_missing_key_only() {
    let config = ModelConfig::from_parts(None, &env_from(&[]))
        .expect("resolve config")
        .with_prompt_cache_key(Some("session-key".to_string()));

    assert_eq!(config.prompt_cache.key.as_deref(), Some("session-key"));

    let config = ModelConfig::from_parts(
        Some(WorkspaceModelConfig {
            prompt_cache: Some(WorkspacePromptCacheConfig {
                key: Some("configured".to_string()),
                ..Default::default()
            }),
            ..Default::default()
        }),
        &env_from(&[]),
    )
    .expect("resolve config")
    .with_prompt_cache_key(Some("session-key".to_string()));

    assert_eq!(config.prompt_cache.key.as_deref(), Some("configured"));
}

#[test]
fn loads_workspace_ui_config_from_ferrix_config_json() {
    let config = load(
        r#"{
                "ui": {
                    "status_line": false,
                    "color": false
                }
            }"#,
    )
    .expect("load file");

    let config = UiConfig::from_workspace(config, &env_from(&[])).expect("load ui config");

    assert_eq!(
        config,
        UiConfig {
            status_line: false,
            color: false
        }
    );
}

#[test]
fn env_overrides_workspace_ui_config() {
    let config = load(
        r#"{
                "ui": {
                    "status_line": false,
                    "color": false
                }
            }"#,
    )
    .expect("load file");

    let config = UiConfig::from_workspace(
        config,
        &env_from(&[("FERRIX_STATUS_LINE", "true"), ("FERRIX_COLOR", "true")]),
    )
    .expect("load ui config");

    assert!(config.status_line);
    assert!(config.color);
}

#[test]
fn no_color_disables_ui_color() {
    let config =
        UiConfig::from_parts(None, &env_from(&[("NO_COLOR", "1")])).expect("resolve ui config");

    assert!(!config.color);
}

#[test]
fn rejects_invalid_prompt_cache_retention() {
    let error = parse_prompt_cache_retention("forever").expect_err("invalid retention");

    assert!(error
        .message()
        .contains("invalid FERRIX_PROMPT_CACHE_RETENTION"));
}

#[test]
fn ui_is_on_unless_it_is_turned_off() {
    let config = UiConfig::from_parts(None, &env_from(&[])).expect("resolve ui config");
    assert_eq!(
        config,
        UiConfig {
            status_line: true,
            color: true
        }
    );

    let failure = UiConfig::from_parts(None, &env_from(&[("FERRIX_COLOR", " Maybe ")]))
        .expect_err("not a truth value");
    assert_eq!(
        failure.chain,
        vec![
            "invalid FERRIX_COLOR `Maybe`".to_string(),
            "invalid boolean `maybe`; expected true or false".to_string()
        ]
    );
}

#[test]
fn blank_variables_count_as_unset() {
    let env = env_from(&[("FERRIX_MODEL", "  \t"), ("FERRIX_MODEL_PROVIDER", " OpenRouter \n")]);

    assert_eq!(env.get("FERRIX_MODEL"), None);
    assert_eq!(env.get("FERRIX_MODEL_PROVIDER").as_deref(), Some("OpenRouter"));
    let config = ModelConfig::from_parts(None, &env).expect("resolve config");
    assert_eq!(config.model, DEFAULT_MODEL);
    assert_eq!(config.provider, "OpenRouter");
    assert_eq!(config.api_base, OPENROUTER_API_BASE);
}

#[test]
fn later_variables_replace_earlier_ones() {
    let env = env_from(&[("A", "1"), ("B", "2"), ("A", "3")]);

    assert_eq!(env.get("A").as_deref(), Some("3"));
    assert_eq!(env.get("B").as_deref(), Some("2"));
    assert!(env.value("C").is_none());
}

#[test]
fn the_first_wrong_setting_is_reported() {
    let failure = ModelConfig::from_parts(
        None,
        &env_from(&[
            ("FERRIX_TOP_P", "2"),
            ("FERRIX_MAX_OUTPUT_TOKENS", "0"),
            ("FERRIX_STORE_RESPONSES", "perhaps"),
            ("FERRIX_PROMPT_CACHE_RETENTION", "week"),
            ("FERRIX_REASONING_EFFORT", "most"),
            ("FERRIX_BASE_URL", "/"),
        ]),
    )
    .expect_err("wrong settings");
    assert_eq!(failure.message(), "FERRIX_BASE_URL must not be empty");

    let failure = ModelConfig::from_parts(
        None,
        &env_from(&[("FERRIX_TOP_P", "2"), ("FERRIX_MAX_OUTPUT_TOKENS", "0")]),
    )
    .expect_err("wrong settings");
    assert_eq!(
        failure.chain,
        vec!["invalid FERRIX_MAX_OUTPUT_TOKENS `0`; expected a positive integer".to_string()]
    );
}

#[test]
fn truth_values_have_several_names() {
    for word in ["1", "true", "YES", " on "] {
        assert!(parse_bool(word).expect("true"));
    }
    for word in ["0", "False", "no", "OFF"] {
        assert!(!parse_bool(word).expect("false"));
    }
    assert_eq!(
        parse_bool_option("FERRIX_COLOR", None, None).expect("default"),
        false
    );
    assert_eq!(
        parse_bool_option("FERRIX_COLOR", None, Some(true)).expect("configured"),
        true
    );
}

#[test]
fn whole_numbers_read_as_the_standard_library_reads_them() {
    for text in [
        "", "+", "-", "0", "+7", "007", "4294967295", "4294967296", "99999999999", "12a", "a12",
        "-1", "1 ", " 1", "４2", "42949672950a", "4294967296a",
    ] {
        let expected = text.parse::<u32>().map_err(|error| error.to_string());
        assert_eq!(parse_u32(text), expected, "{text}");
    }
    let failure = parse_u32_option("N", Some("many".to_string()), None).expect_err("no number");
    assert_eq!(
        failure.chain,
        vec![
            "invalid N `many`; expected a positive integer".to_string(),
            "invalid digit found in string".to_string()
        ]
    );
    assert_eq!(
        parse_u32_option("N", None, Some(5)).expect("configured"),
        Some(5)
    );
}

#[test]
fn ranges_hold_the_numbers_between_their_bounds() {
    assert_eq!(TEMPERATURE_MAX_BITS, 2.0f32.to_bits());
    assert_eq!(TOP_P_MAX_BITS, 1.0f32.to_bits());
    for value in [
        0.0,
        -0.0,
        f32::MIN_POSITIVE,
        -f32::MIN_POSITIVE,
        0.5,
        1.0,
        1.0000001,
        2.0,
        2.0000002,
        3.0,
        -1.0,
        f32::INFINITY,
        f32::NEG_INFINITY,
        f32::NAN,
    ] {
        let inside = (0.0..=2.0).contains(&value);
        let read = parse_f32_range_option(
            "FERRIX_TEMPERATURE",
            None,
            Some(float(value)),
            TEMPERATURE_MAX_BITS,
            "2",
        );
        assert_eq!(read.is_ok(), inside, "{value}");
        if let Err(failure) = read {
            assert_eq!(
                failure.chain,
                vec![format!(
                    "invalid FERRIX_TEMPERATURE `{value}`; expected a number between {} and {}",
                    0.0f32, 2.0f32
                )]
            );
        }
    }
    let env = env_from(&[("FERRIX_TOP_P", "much")]);
    let failure =
        parse_f32_range_option("FERRIX_TOP_P", env.value("FERRIX_TOP_P"), None, TOP_P_MAX_BITS, "1")
            .expect_err("no number");
    assert_eq!(
        failure.chain,
        vec![
            format!(
                "invalid FERRIX_TOP_P `much`; expected a number between {} and {}",
                0.0f32, 1.0f32
            ),
            "invalid float literal".to_string()
        ]
    );
}

#[test]
fn providers_are_told_by_their_folded_names() {
    assert_eq!(provider_kind(" OpenRouter "), ProviderKind::OpenRouter);
    assert_eq!(provider_kind("openai"), ProviderKind::OpenAiCompatible);
    assert_eq!(provider_kind(""), ProviderKind::OpenAiCompatible);
}

#[test]
fn configurations_are_checked_against_their_schema() {
    let good = Json::parse("{}").expect("json");
    assert!(validate_ferrix_config(&good, &schema()).is_ok());

    let bad = Json::parse(r#"{"other": 1}"#).expect("json");
    let failure = validate_ferrix_config(&bad, &schema()).expect_err("unknown field");
    assert_eq!(
        failure.chain,
        vec![
            "invalid Ferrix config:\n: Additional properties are not allowed ('other' was unexpected)"
                .to_string()
        ]
    );
    let two = Json::parse(r#"{"b": 1, "a": "x"}"#).expect("json");
    let numbers = Json::parse(
        r#"{"properties": {"a": {"type": "integer"}, "b": {"type": "string"}}}"#,
    )
    .expect("json");
    let failure = validate_ferrix_config(&two, &numbers).expect_err("two faults");
    assert_eq!(
        failure.chain,
        vec![
            "invalid Ferrix config:\n/a: \"x\" is not of type \"integer\"\n/b: 1 is not of type \"string\""
                .to_string()
        ]
    );

    let no_schema = Json::parse(r#"{"type": "nothing"}"#).expect("json");
    let failure = validate_ferrix_config(&good, &no_schema).expect_err("not a schema");
    assert_eq!(failure.chain.len(), 2);
    assert_eq!(failure.message(), "failed to build config schema");

    let failure = check_config("a.json", "{", &schema()).expect_err("not json");
    assert_eq!(failure.chain.len(), 2);
    assert_eq!(failure.message(), "failed to parse `a.json`");
}

#[test]
fn errors_are_reported_a_line_each() {
    assert!(report_faults(Vec::new()).is_ok());
    let fault = |place: &str, words: &str| (place.to_string(), words.to_string());
    let failure = report_faults(vec![fault("/a", "one"), fault("/b", "two")])
        .expect_err("two faults");
    assert_eq!(
        failure.chain,
        vec!["invalid Ferrix config:\n/a: one\n/b: two".to_string()]
    );
}

#[test]
fn the_variables_that_matter_are_named() {
    let names = environment_variables();
    assert_eq!(names.len(), 18);
    for name in ["FERRIX_MODEL", "NO_COLOR", "OPENAI_API_KEY", "FERRIX_TOP_P"] {
        assert!(names.contains(&name));
    }
}
