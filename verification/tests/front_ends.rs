use echo_daily::ai::{build_prompt, get_ai_settings, save_ai_settings, AISettings};
use echo_daily::models::AIOpType;
use echo_daily::paths::resolve_db_path;
use echo_daily::secrets::{
    delete_tts_api_key, get_api_key, has_api_key, has_murf_api_key, has_tts_api_key,
    set_api_key, set_murf_api_key, set_tts_api_key, SecretStore,
};
use echo_daily::tts::{
    default_model_for, default_voice_for, format_to_string, is_configured,
    is_provider_configured, list_tts_providers, map_format, murf_voices, qwen_voices,
    resolve_provider, save_tts_provider_key, select_voice, select_voice_and_language,
    tts_api_key_for, validate_text_length, TTSError, TTSOutputFormat, TTSProviderType,
};

#[test]
fn op_type_names() {
    assert_eq!(AIOpType::Polish.as_str(), "polish");
    assert_eq!(AIOpType::Expand.as_str(), "expand");
    assert_eq!(AIOpType::FixGrammar.as_str(), "fix_grammar");
}

#[test]
fn prompt_for_polish_without_context() {
    let p = build_prompt("polish", "my text", &None);
    assert_eq!(
        p,
        "Polish the following text to improve clarity, grammar, and flow. Only output the polished text without explanation.\n\nmy text"
    );
}

#[test]
fn prompt_for_polish_with_context() {
    let p = build_prompt("polish", "my text", &Some("diary".to_string()));
    assert!(p.starts_with("You are a writing assistant."));
    assert!(p.ends_with("Context: diary\n\nText to polish: my text"));
}

#[test]
fn prompt_for_translate_detects_chinese() {
    let p = build_prompt("translate", "hello", &None);
    assert!(p.starts_with("Translate the following text to Chinese (Simplified)."));
    let p = build_prompt("translate", "\u{4F60}\u{597D}", &None);
    assert!(p.starts_with("Translate the following text to English."));
}

#[test]
fn prompt_for_unknown_kind_passes_through() {
    assert_eq!(build_prompt("summarize", "my text", &None), "my text");
}

#[test]
fn secret_store_round_trip() {
    let mut vault = SecretStore::new();
    assert!(!has_api_key(&vault));
    set_api_key(&mut vault, "k-123").expect("set");
    assert!(has_api_key(&vault));
    assert_eq!(get_api_key(&vault).expect("get").as_deref(), Some("k-123"));

    // an empty stored value counts as not configured
    set_api_key(&mut vault, "").expect("clear to empty");
    assert!(!has_api_key(&vault));

    set_tts_api_key(&mut vault, "t-1").expect("tts");
    set_murf_api_key(&mut vault, "m-1").expect("murf");
    assert!(has_tts_api_key(&vault));
    assert!(has_murf_api_key(&vault));
    delete_tts_api_key(&mut vault).expect("delete");
    assert!(!has_tts_api_key(&vault));
    assert!(has_murf_api_key(&vault));
}

#[test]
fn ai_settings_mask_and_update_the_key() {
    let mut vault = SecretStore::new();
    assert!(get_ai_settings(&vault).expect("none yet").is_none());

    let settings = AISettings {
        provider: "zhipu".to_string(),
        model: "glm-4-flash".to_string(),
        api_key: "  secret  ".to_string(),
    };
    save_ai_settings(&mut vault, &settings).expect("save");
    assert_eq!(get_api_key(&vault).expect("get").as_deref(), Some("secret"));

    let shown = get_ai_settings(&vault).expect("get").expect("configured");
    assert_eq!(shown.provider, "zhipu");
    assert_eq!(shown.model, "glm-4-flash");
    assert_eq!(shown.api_key, "***");

    // the masked placeholder leaves the stored key untouched
    let masked = AISettings {
        provider: "zhipu".to_string(),
        model: "glm-4-flash".to_string(),
        api_key: "***".to_string(),
    };
    save_ai_settings(&mut vault, &masked).expect("masked save");
    assert_eq!(get_api_key(&vault).expect("get").as_deref(), Some("secret"));

    // an empty key deletes the stored one
    let empty = AISettings {
        provider: "zhipu".to_string(),
        model: "glm-4-flash".to_string(),
        api_key: "   ".to_string(),
    };
    save_ai_settings(&mut vault, &empty).expect("empty save");
    assert!(get_api_key(&vault).expect("get").is_none());
}

#[test]
fn provider_names_round_trip() {
    assert_eq!(TTSProviderType::Qwen.as_str(), "qwen");
    assert_eq!(TTSProviderType::Murf.as_str(), "murf");
    assert_eq!(TTSProviderType::from_str("qwen"), Some(TTSProviderType::Qwen));
    assert_eq!(TTSProviderType::from_str("MURF"), Some(TTSProviderType::Murf));
    assert_eq!(TTSProviderType::from_str("other"), None);
    assert_eq!(
        TTSProviderType::all(),
        vec![TTSProviderType::Qwen, TTSProviderType::Murf]
    );
    assert_eq!(list_tts_providers(), vec!["qwen".to_string(), "murf".to_string()]);
}

#[test]
fn tts_errors_classify() {
    assert!(TTSError::Timeout.is_retryable());
    assert!(TTSError::NetworkError("down".to_string()).is_retryable());
    assert!(TTSError::RateLimitExceeded("slow".to_string()).is_retryable());
    assert!(!TTSError::NoApiKey.is_retryable());
    assert!(TTSError::NoApiKey.is_auth_error());
    assert!(TTSError::AuthenticationFailed("denied".to_string()).is_auth_error());
    assert!(!TTSError::Timeout.is_auth_error());
}

#[test]
fn tts_configuration_follows_the_vault() {
    let mut vault = SecretStore::new();
    assert!(!is_configured(&vault));
    set_murf_api_key(&mut vault, "m-1").expect("murf key");
    assert!(is_configured(&vault));
    assert!(is_provider_configured(&vault, TTSProviderType::Murf));
    assert!(!is_provider_configured(&vault, TTSProviderType::Qwen));
}

#[test]
fn formats_map_to_provider_names() {
    assert_eq!(map_format(&TTSOutputFormat::Mp3), "MP3");
    assert_eq!(map_format(&TTSOutputFormat::Wav), "WAV");
    assert_eq!(map_format(&TTSOutputFormat::Ogg), "OGG");
    assert_eq!(format_to_string(&TTSOutputFormat::Mp3), "mp3");
    assert_eq!(format_to_string(&TTSOutputFormat::Ogg), "ogg");
}

#[test]
fn murf_voice_selection() {
    assert_eq!(select_voice(None, Some("en-US-miles")), "en-US-miles");
    assert_eq!(select_voice(Some("fr-FR"), Some("")), "fr-FR-ad\u{e9}lie");
    assert_eq!(select_voice(Some("de"), None), "de-DE-matthias");
    assert_eq!(select_voice(None, None), "en-US-natalie");
    assert_eq!(select_voice(Some("xx"), None), "en-US-natalie");
}

#[test]
fn qwen_voice_selection() {
    assert_eq!(
        select_voice_and_language(None, Some("CHERRY")),
        ("Cherry".to_string(), None)
    );
    assert_eq!(
        select_voice_and_language(None, Some("custom")),
        ("custom".to_string(), None)
    );
    assert_eq!(
        select_voice_and_language(Some("en"), None),
        ("Ethan".to_string(), Some("English".to_string()))
    );
    assert_eq!(
        select_voice_and_language(None, None),
        ("Cherry".to_string(), Some("Chinese".to_string()))
    );
}

#[test]
fn default_voices_per_provider() {
    assert_eq!(default_voice_for(TTSProviderType::Qwen).as_deref(), Some("cherry"));
    assert_eq!(
        default_voice_for(TTSProviderType::Murf).as_deref(),
        Some("en-US-natalie")
    );
}

#[test]
fn text_length_is_validated_in_bytes() {
    assert!(validate_text_length("short", 600).is_ok());
    let long = "x".repeat(601);
    match validate_text_length(&long, 600) {
        Err(TTSError::TextTooLong(n, m)) => {
            assert_eq!(n, 601);
            assert_eq!(m, 600);
        },
        _ => panic!("expected a length rejection"),
    }
}

#[test]
fn voice_catalogs_hold_the_defaults() {
    let murf = murf_voices();
    assert_eq!(murf.len(), 37);
    assert_eq!(murf[0].id, "en-US-natalie");
    let qwen = qwen_voices();
    assert_eq!(qwen.len(), 10);
    assert_eq!(qwen[0].id, "cherry");
}

#[test]
fn database_path_resolution() {
    assert_eq!(
        resolve_db_path(Some("/home/me"), true, "/data/app"),
        "/home/me/.echo-daily/echo-daily.db"
    );
    assert_eq!(
        resolve_db_path(Some("/home/me"), false, "/data/app"),
        "/data/app/echo-daily.db"
    );
    assert_eq!(resolve_db_path(None, true, "/data/app"), "/data/app/echo-daily.db");
}

#[test]
fn provider_resolution_prefers_the_request() {
    assert_eq!(resolve_provider(Some("murf"), "qwen"), TTSProviderType::Murf);
    assert_eq!(resolve_provider(None, "murf"), TTSProviderType::Murf);
    assert_eq!(resolve_provider(None, "qwen"), TTSProviderType::Qwen);
    assert_eq!(resolve_provider(Some("unknown"), "murf"), TTSProviderType::Qwen);
}

#[test]
fn provider_keys_and_models_by_name() {
    assert_eq!(default_model_for("murf"), "GEN2");
    assert_eq!(default_model_for("qwen"), "qwen3-tts-flash");

    let mut vault = SecretStore::new();
    assert!(tts_api_key_for(&vault, "murf").is_err());
    assert!(tts_api_key_for(&vault, "qwen").is_err());

    save_tts_provider_key(&mut vault, "murf", "m-key").expect("murf key");
    save_tts_provider_key(&mut vault, "qwen", "q-key").expect("qwen key");
    assert_eq!(tts_api_key_for(&vault, "murf").expect("murf"), "m-key");
    assert_eq!(tts_api_key_for(&vault, "qwen").expect("qwen"), "q-key");

    // the masked placeholder changes nothing
    save_tts_provider_key(&mut vault, "murf", "***").expect("masked");
    assert_eq!(tts_api_key_for(&vault, "murf").expect("murf"), "m-key");
}
