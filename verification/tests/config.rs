use ellen_rust_backend::config::{
    apply_env_overrides, parse_port, resolve_api_key, EnvOverrides, OverridableSettings,
};

fn settings() -> OverridableSettings {
    OverridableSettings {
        llm_api_key: "from-yaml".to_string(),
        llm_provider: "deepseek".to_string(),
        tts_api_url: "http://127.0.0.1:9880".to_string(),
        ws_port: 8081,
    }
}

#[test]
fn port_parsing_follows_u16_from_str() {
    assert_eq!(parse_port("8081"), Some(8081));
    assert_eq!(parse_port("+80"), Some(80));
    assert_eq!(parse_port("0"), Some(0));
    assert_eq!(parse_port("00065535"), Some(65535));
    assert_eq!(parse_port("65536"), None);
    assert_eq!(parse_port("99999999999"), None);
    assert_eq!(parse_port(""), None);
    assert_eq!(parse_port("+"), None);
    assert_eq!(parse_port("-1"), None);
    assert_eq!(parse_port(" 80"), None);
    assert_eq!(parse_port("80a"), None);
    assert_eq!(parse_port("８０"), None);
    for s in ["8081", "+80", "65536", "", "+", "-0", "12x", "0x10"] {
        assert_eq!(parse_port(s), s.parse::<u16>().ok(), "input {s:?}");
    }
}

#[test]
fn non_empty_env_values_override() {
    let mut s = settings();
    let env = EnvOverrides {
        llm_api_key: Some("sk-env".to_string()),
        llm_provider: Some("".to_string()),
        tts_api_url: None,
        ws_port: Some("9000".to_string()),
    };
    apply_env_overrides(&mut s, &env);
    assert_eq!(s.llm_api_key, "sk-env");
    assert_eq!(s.llm_provider, "deepseek");
    assert_eq!(s.tts_api_url, "http://127.0.0.1:9880");
    assert_eq!(s.ws_port, 9000);
}

#[test]
fn bad_port_keeps_configured_one() {
    let mut s = settings();
    let env = EnvOverrides {
        llm_api_key: None,
        llm_provider: Some("openai".to_string()),
        tts_api_url: Some("http://tts:1".to_string()),
        ws_port: Some("not-a-port".to_string()),
    };
    apply_env_overrides(&mut s, &env);
    assert_eq!(s.llm_api_key, "from-yaml");
    assert_eq!(s.llm_provider, "openai");
    assert_eq!(s.tts_api_url, "http://tts:1");
    assert_eq!(s.ws_port, 8081);
    // Applying the same environment again changes nothing.
    apply_env_overrides(&mut s, &env);
    assert_eq!(s.llm_provider, "openai");
    assert_eq!(s.ws_port, 8081);
}

#[test]
fn api_key_prefers_non_empty_env() {
    let configured = "from-yaml".to_string();
    assert_eq!(resolve_api_key(&Some("sk-env".to_string()), &configured), "sk-env");
    assert_eq!(resolve_api_key(&Some(String::new()), &configured), "from-yaml");
    assert_eq!(resolve_api_key(&None, &configured), "from-yaml");
}
