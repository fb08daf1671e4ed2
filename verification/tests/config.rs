use telebot::config::{
    default_ai_api_format, default_ai_concurrency, default_ai_provider,
    default_collapse_threshold, default_fallback_timeout, default_gemini_base_url,
    default_history_turns, default_image_search_timeout, default_max_output_tokens,
    default_max_quote_messages, default_parallel_commands, default_prefixes, default_quote_api,
    default_quote_background, default_quote_history_limit, default_quote_history_max_bytes,
    default_quote_timeout, default_search_fallback_model, default_search_hedge,
    default_search_timeout, default_system_prompt, default_thinking_level, default_true,
    required_env, validate_progress_message, AiApiFormat, AiConfig, Config, MessagesConfig,
    QuoteConfig, StorageConfig, TelegramConfig,
};

fn example() -> Config {
    Config {
        telegram: TelegramConfig {
            api_id: 1,
            api_hash_env: "TELEGRAM_API_HASH".to_owned(),
            session_path: "/var/lib/telebot/telegram.session".to_owned(),
            command_prefixes: default_prefixes(),
            catch_up: false,
            max_parallel_commands: default_parallel_commands(),
        },
        storage: StorageConfig { path: "/var/lib/telebot/telebot.db".to_owned() },
        ai: AiConfig {
            enabled: default_true(),
            provider: default_ai_provider(),
            api_format: default_ai_api_format(),
            api_key_env: "AI_API_KEY".to_owned(),
            base_url: default_gemini_base_url(),
            model: "gemini-3.5-flash".to_owned(),
            search_fallback_model: default_search_fallback_model(),
            thinking_level: default_thinking_level(),
            default_search: default_true(),
            system_prompt: default_system_prompt(),
            history_turns: default_history_turns(),
            collapse_long_messages: default_true(),
            collapse_threshold_chars: default_collapse_threshold(),
            max_output_tokens: default_max_output_tokens(),
            max_concurrent: default_ai_concurrency(),
            search_timeout_seconds: default_search_timeout(),
            image_search_timeout_seconds: default_image_search_timeout(),
            search_hedge_seconds: default_search_hedge(),
            fallback_timeout_seconds: default_fallback_timeout(),
        },
        messages: MessagesConfig::default(),
        quote: QuoteConfig {
            enabled: default_true(),
            api_url: default_quote_api(),
            timeout_seconds: default_quote_timeout(),
            max_messages: default_max_quote_messages(),
            background_color: default_quote_background(),
            sticker_set_short_name: String::new(),
            history_enabled: default_true(),
            history_limit: default_quote_history_limit(),
            history_max_bytes: default_quote_history_max_bytes(),
        },
    }
}

fn refused(config: &Config) -> String {
    config.validate().unwrap_err().message
}

#[test]
fn defaults_include_requested_prefixes() {
    let prefixes = default_prefixes();
    for expected in [".", "。", ",", "，"] {
        assert!(prefixes.iter().any(|prefix| prefix == expected));
    }
}

#[test]
fn image_search_default_is_longer_than_text_search() {
    assert!(default_image_search_timeout() > default_search_timeout());
}

#[test]
fn api_formats_use_explicit_stable_names() {
    assert_eq!(
        "openai_chat_completions".parse::<AiApiFormat>().unwrap(),
        AiApiFormat::OpenaiChatCompletions
    );
    assert_eq!(
        "openai_responses".parse::<AiApiFormat>().unwrap(),
        AiApiFormat::OpenaiResponses
    );
    assert!("openrouter".parse::<AiApiFormat>().is_err());
    for format in [
        AiApiFormat::GeminiInteractions,
        AiApiFormat::OpenaiChatCompletions,
        AiApiFormat::OpenaiResponses,
    ] {
        assert_eq!(AiApiFormat::named(format.as_str()).unwrap(), format);
    }
}

#[test]
fn openai_compatible_config_does_not_require_a_named_gateway() {
    let mut parsed = example();
    parsed.ai.provider = "generic-oai".to_owned();
    parsed.ai.api_format = AiApiFormat::OpenaiChatCompletions;
    parsed.ai.base_url = "https://api.example.com/v1".to_owned();
    parsed.ai.default_search = false;
    parsed.validate().unwrap();
    assert_eq!(parsed.ai.provider, "generic-oai");
    assert_eq!(parsed.ai.api_format, AiApiFormat::OpenaiChatCompletions);
}

#[test]
fn message_defaults_are_available_without_a_toml_section() {
    let messages = MessagesConfig::default();
    assert_eq!(messages.ai_searching, "🔎 正在搜索…");
    assert_eq!(messages.ai_thinking, "💭 正在思考…");
}

#[test]
fn an_ordinary_configuration_is_accepted() {
    assert!(example().validate().is_ok());
}

#[test]
fn what_is_out_of_range_is_refused() {
    let mut c = example();
    c.telegram.api_id = 0;
    assert!(!refused(&c).is_empty());

    let mut c = example();
    c.telegram.command_prefixes = Vec::new();
    assert!(!refused(&c).is_empty());

    let mut c = example();
    c.ai.max_output_tokens = 0;
    assert!(!refused(&c).is_empty());

    let mut c = example();
    c.ai.history_turns = 21;
    assert!(!refused(&c).is_empty());

    let mut c = example();
    c.ai.search_hedge_seconds = 2;
    assert!(!refused(&c).is_empty());
    c.ai.search_hedge_seconds = 0;
    assert!(c.validate().is_ok());

    let mut c = example();
    c.messages.ai_thinking = " ".to_owned();
    assert!(!refused(&c).is_empty());

    let mut c = example();
    c.quote.history_limit = 501;
    assert!(!refused(&c).is_empty());

    let mut c = example();
    c.quote.max_messages = 0;
    assert!(!refused(&c).is_empty());
}

#[test]
fn an_empty_second_model_is_accepted_for_every_protocol() {
    for format in [
        AiApiFormat::GeminiInteractions,
        AiApiFormat::OpenaiChatCompletions,
        AiApiFormat::OpenaiResponses,
    ] {
        let mut c = example();
        c.ai.api_format = format;
        c.ai.default_search = format.supports_native_search();
        c.ai.search_fallback_model = String::new();
        assert!(c.validate().is_ok());
    }
}

#[test]
fn secrets_are_taken_from_what_is_found() {
    let c = example();
    let secrets = c.load_secrets(Ok("hash".to_owned()), Ok("key".to_owned())).unwrap();
    assert_eq!(secrets.telegram_api_hash, "hash");
    assert_eq!(secrets.ai_api_key.as_deref(), Some("key"));

    assert!(c.load_secrets(Ok("hash".to_owned()), Ok(" ".to_owned())).is_err());
    assert!(c.load_secrets(Err("not there".to_owned()), Ok("key".to_owned())).is_err());
    assert_eq!(c.load_telegram_api_hash(Ok("hash".to_owned())).unwrap(), "hash");

    let mut off = example();
    off.ai.enabled = false;
    let secrets = off.load_secrets(Ok("hash".to_owned()), Err("not there".to_owned())).unwrap();
    assert_eq!(secrets.ai_api_key, None);
}

#[test]
fn a_variable_must_be_there_and_hold_something() {
    assert_eq!(required_env("X", Ok("v".to_owned())).unwrap(), "v");
    assert!(required_env("X", Ok("  ".to_owned())).unwrap_err().message.contains("X"));
    assert!(required_env("X", Err("gone".to_owned())).unwrap_err().message.contains("X"));
}

#[test]
fn progress_messages_are_short_and_on_one_line() {
    assert!(validate_progress_message("m", "🔎 正在搜索…").is_ok());
    assert!(validate_progress_message("m", "").is_err());
    assert!(validate_progress_message("m", &"长".repeat(500)).is_err());
}
