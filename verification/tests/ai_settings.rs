use telebot::ai_config::{
    apply_writes, config_command, help_text, hides_command, reload, status_text, ConfigChange,
    ConfigOutcome,
};
use telebot::ai_context::{context_command, context_turns_of, ContextOutcome};
use telebot::ai_request::AiImage;
use telebot::ai_runtime::{
    build_provider, default_provider_name, effective_search_timeout_seconds,
    parse_bool_setting, parse_context_turns, parse_u32_setting, parse_u64_setting,
    progress_from_runtime, runtime_from_store, validate_api_key, validate_model,
    validate_provider_name, AiDefaults, AiRuntime, AiSetting,
};
use telebot::config::{
    default_ai_api_format, default_ai_concurrency, default_ai_provider,
    default_collapse_threshold, default_fallback_timeout, default_gemini_base_url,
    default_history_turns, default_image_search_timeout, default_max_output_tokens,
    default_search_fallback_model, default_search_hedge, default_search_timeout,
    default_system_prompt, AiApiFormat, AiConfig, MessagesConfig,
};
use telebot::json::Json;
use telebot::prompt::{check_mode, check_report};
use telebot::ai_reply::AiAnswer;
use telebot::settings::Settings;

fn example() -> AiConfig {
    AiConfig {
        enabled: true,
        provider: default_ai_provider(),
        api_format: default_ai_api_format(),
        api_key_env: "AI_API_KEY".to_owned(),
        base_url: default_gemini_base_url(),
        model: "gemini-3.5-flash".to_owned(),
        search_fallback_model: default_search_fallback_model(),
        thinking_level: "low".to_owned(),
        default_search: true,
        system_prompt: default_system_prompt(),
        history_turns: default_history_turns(),
        collapse_long_messages: true,
        collapse_threshold_chars: default_collapse_threshold(),
        max_output_tokens: default_max_output_tokens(),
        max_concurrent: default_ai_concurrency(),
        search_timeout_seconds: default_search_timeout(),
        image_search_timeout_seconds: default_image_search_timeout(),
        search_hedge_seconds: default_search_hedge(),
        fallback_timeout_seconds: default_fallback_timeout(),
    }
}

fn defaults() -> AiDefaults {
    AiDefaults {
        config: example(),
        messages: MessagesConfig::default(),
        env_api_key: "test-key".to_owned(),
    }
}

fn runtime() -> AiRuntime {
    runtime_from_store(&defaults(), &Settings::new()).ok().unwrap()
}

fn words(text: &str) -> Vec<String> {
    text.split_whitespace().map(str::to_owned).collect()
}

fn changed(text: &str) -> ConfigChange {
    match config_command(&words(text), true, "chat", 3, &runtime(), &defaults()) {
        Ok(ConfigOutcome::Change(change)) => change,
        Ok(_) => panic!("a change"),
        Err(e) => panic!("{}", e.message),
    }
}

fn refused(text: &str) -> String {
    match config_command(&words(text), true, "chat", 3, &runtime(), &defaults()) {
        Ok(_) => panic!("an error"),
        Err(e) => e.message,
    }
}

#[test]
fn image_requests_use_the_dedicated_search_timeout() {
    let mut config = example();
    assert_eq!(effective_search_timeout_seconds(&config, &[]), 20);

    config.image_search_timeout_seconds = 30;
    let image = AiImage {
        mime_type: "image/jpeg".to_owned(),
        base64_data: String::new(),
        byte_len: 0,
    };
    assert_eq!(effective_search_timeout_seconds(&config, &[image]), 30);
}

#[test]
fn runtime_tuning_and_progress_messages_load_from_sqlite() {
    let mut store = Settings::new();
    store.set_setting(AiSetting::DefaultSearch.key(), "false");
    store.set_setting(AiSetting::ThinkingLevel.key(), "minimal");
    store.set_setting(AiSetting::SearchingMessage.key(), "🔍 正在查找资料…");
    let runtime = runtime_from_store(&defaults(), &store).ok().unwrap();
    assert!(!runtime.config.default_search);
    assert_eq!(runtime.config.thinking_level, "minimal");
    assert_eq!(runtime.messages.ai_searching, "🔍 正在查找资料…");
    assert_eq!(progress_from_runtime(&runtime).thinking, "💭 正在思考…");
}

#[test]
fn a_setting_that_cannot_be_read_is_an_error() {
    let mut store = Settings::new();
    store.set_setting(AiSetting::MaxOutputTokens.key(), "many");
    assert!(runtime_from_store(&defaults(), &store).is_err());
    assert!(parse_bool_setting("x", "ON").unwrap());
    assert!(parse_bool_setting("x", "maybe").is_err());
    assert_eq!(parse_u64_setting("x", "7").unwrap(), 7);
    assert!(parse_u32_setting("x", "4294967296").is_err());
    assert_eq!(parse_context_turns("20").unwrap(), 20);
    assert_eq!(
        parse_context_turns("21").unwrap_err().message,
        "上下文轮数必须在 0 到 20 之间"
    );
}

#[test]
fn names_keys_and_models_are_checked() {
    assert!(validate_provider_name("my-gateway_1.0").is_ok());
    assert!(validate_provider_name("my gateway").is_err());
    assert!(validate_api_key("abc").is_ok());
    assert!(validate_api_key("a b").is_err());
    assert!(validate_api_key("").is_err());
    assert!(validate_model("主模型", "org/model:free").is_ok());
    assert_eq!(
        validate_model("主模型", "bad model").unwrap_err().message,
        "主模型名称包含不支持的字符"
    );
    assert_eq!(default_provider_name(&example()), "Gemini");
}

#[test]
fn what_is_changed_survives_a_restart() {
    for command in [
        "provider openai_responses gateway https://api.example.com/v1",
        "key new-key",
        "clear-key",
        "model main second",
        "model main off",
        "prompt 请 简短 回答",
        "thinking high",
        "search off",
        "timeout 30 40 5 20",
        "tokens 1024",
        "collapse off",
        "message searching 🔍 找 资料",
    ] {
        let change = changed(command);
        let mut store = Settings::new();
        apply_writes(&mut store, &change.writes);
        let again = runtime_from_store(&defaults(), &store).ok().unwrap();
        assert_eq!(again.provider_name, change.runtime.provider_name, "{command}");
        assert_eq!(again.api_format, change.runtime.api_format, "{command}");
        assert_eq!(again.base_url, change.runtime.base_url, "{command}");
        assert_eq!(again.api_key, change.runtime.api_key, "{command}");
        assert_eq!(again.primary_model, change.runtime.primary_model, "{command}");
        assert_eq!(
            again.search_fallback_model, change.runtime.search_fallback_model,
            "{command}"
        );
        assert_eq!(again.key_overridden, change.runtime.key_overridden, "{command}");
        assert_eq!(
            again.config.max_output_tokens, change.runtime.config.max_output_tokens,
            "{command}"
        );
        assert_eq!(
            again.messages.ai_searching, change.runtime.messages.ai_searching,
            "{command}"
        );
    }
    assert_eq!(changed("tokens 1024").runtime.config.max_output_tokens, 1024);
    assert_eq!(changed("model main off").runtime.second_search_model(), "main");
}

#[test]
fn a_reset_forgets_all_changes() {
    let mut store = Settings::new();
    apply_writes(&mut store, &changed("tokens 1024").writes);
    apply_writes(&mut store, &changed("key other").writes);
    keep(&mut store, "9", "one");
    assert_eq!(turns(&store, "one"), 9);
    store.set_setting("quote.history.limit", "5");
    apply_writes(&mut store, &changed("reset").writes);
    let again = runtime_from_store(&defaults(), &store).ok().unwrap();
    assert_eq!(again.api_key, "test-key");
    assert_eq!(turns(&store, "one"), default_history_turns());
    assert_eq!(again.config.max_output_tokens, default_max_output_tokens());
    assert_eq!(store.get_setting("quote.history.limit").map(String::as_str), Some("5"));
}

#[test]
fn changes_that_make_no_sense_are_refused() {
    assert!(!refused("tokens 0").is_empty());
    assert!(!refused("tokens").is_empty());
    assert!(!refused("thinking extreme").is_empty());
    assert!(!refused("search maybe").is_empty());
    assert!(!refused("provider openrouter x https://e.com").is_empty());
    assert!(!refused("provider openai_responses x http://e.com").is_empty());
    assert!(!refused("timeout 1 2 3").is_empty());
    assert_eq!(
        refused("timeout 30 40 2 20"),
        "备用模型启动时限必须为 0（关闭）或至少 3 秒，并且短于文字搜索总时限"
    );
    assert_eq!(changed("timeout 30 40 0 20").runtime.config.search_hedge_seconds, 0);
    assert_eq!(refused("model"), "用法：.ai config model <主模型> [搜索备用模型|off]");
    assert!(!refused("message other x").is_empty());
    assert!(!refused("nonsense").is_empty());
}

#[test]
fn settings_are_changed_in_saved_messages_only() {
    let asked = |text: &str, saved: bool| {
        config_command(&words(text), saved, "chat", 3, &runtime(), &defaults())
    };
    assert!(asked("tokens 1024", false).is_err());
    assert!(asked("reload", false).is_err());
    assert!(matches!(asked("status", false), Ok(ConfigOutcome::Markdown(_))));
    assert!(matches!(
        asked("reload", true),
        Ok(ConfigOutcome::Reload)
    ));
    assert!(hides_command(&words("KEY x")));
    assert!(!hides_command(&words("model x")));
}

fn keep(store: &mut Settings, word: &str, scope: &str) -> String {
    let before = turns(store, scope);
    match context_command(&words(word), scope, before) {
        Ok(ContextOutcome::Keep { key, value, reply }) => {
            store.set_setting(&key, &value);
            reply
        }
        Ok(ContextOutcome::Show(text)) => text,
        Err(e) => e.message,
    }
}

fn turns(store: &Settings, scope: &str) -> usize {
    context_turns_of(store, scope, default_history_turns()).ok().unwrap()
}

#[test]
fn each_chat_has_a_context_of_its_own() {
    let mut store = Settings::new();
    assert_eq!(turns(&store, "one"), default_history_turns());
    assert_eq!(keep(&mut store, "3", "one"), "✅ 自动上下文已设置为 3 轮（按聊天独立保存）");
    assert_eq!(turns(&store, "one"), 3);
    assert_eq!(turns(&store, "other"), default_history_turns());
    keep(&mut store, "ON", "other");
    assert_eq!(turns(&store, "other"), 6);
    assert_eq!(turns(&store, "one"), 3);
    assert_eq!(
        keep(&mut store, "off", "one"),
        "✅ 自动上下文已关闭；已有记录可用 .ai reset 清除"
    );
    assert_eq!(turns(&store, "one"), 0);
    assert_eq!(turns(&store, "other"), 6);
    assert_eq!(store.get_setting("ai.runtime.context_turns.one").map(String::as_str), Some("0"));
    let runtime = runtime_from_store(&defaults(), &store).ok().unwrap();
    assert_eq!(runtime.config.history_turns, default_history_turns());
}

#[test]
fn the_context_of_a_chat_is_shown_and_checked() {
    let mut store = Settings::new();
    assert_eq!(
        keep(&mut store, "", "one"),
        "🧠 自动上下文：关闭\n设置：.ai context on 或 .ai context <1-20>"
    );
    keep(&mut store, "20", "one");
    assert_eq!(
        keep(&mut store, "", "one"),
        "🧠 自动上下文：开启（20 轮）\n关闭：.ai context off"
    );
    assert_eq!(keep(&mut store, "21", "one"), "上下文轮数必须在 0 到 20 之间");
    assert_eq!(keep(&mut store, "1 2", "one"), "用法：.ai context <0-20|on|off>");
    assert_eq!(turns(&store, "one"), 20);
    store.set_setting("ai.runtime.context_turns.one", "many");
    assert!(context_turns_of(&store, "one", 0).is_err());
    assert_eq!(context_turns_of(&store, "other", 2).ok(), Some(2));
}

#[test]
fn the_context_is_set_in_any_chat() {
    for saved in [true, false] {
        let outcome =
            config_command(&words("context 4"), saved, "one", 0, &runtime(), &defaults());
        match outcome {
            Ok(ConfigOutcome::Context(ContextOutcome::Keep { key, value, .. })) => {
                assert_eq!(key, "ai.runtime.context_turns.one");
                assert_eq!(value, "4");
            }
            _ => panic!("the context is kept"),
        }
    }
    assert!(status_text(&runtime(), 4).contains("4"));
}

#[test]
fn the_key_is_not_shown() {
    let change = changed("key very-secret-key");
    assert_eq!(change.runtime.api_key, "very-secret-key");
    assert!(!change.reply.contains("very-secret-key"));
    assert!(!status_text(&change.runtime, 3).contains("very-secret-key"));
    assert!(status_text(&change.runtime, 3).contains("已设置自定义 Key"));
    assert!(!help_text(&change.runtime).contains("very-secret-key"));
    assert!(help_text(&runtime()).contains("TeleBot AI 帮助"));
}

#[test]
fn both_searches_use_the_primary_model_where_no_other_is_named() {
    let mut one = defaults();
    one.config.search_fallback_model = " ".to_owned();
    let runtime = runtime_from_store(&one, &Settings::new()).ok().unwrap();
    assert_eq!(runtime.second_search_model(), "gemini-3.5-flash");
    assert_eq!(runtime.provider().search_fallback_model, "gemini-3.5-flash");
    let change = changed("model big-model off");
    assert_eq!(change.runtime.primary_model, "big-model");
    assert_eq!(change.runtime.second_search_model(), "big-model");
    assert_eq!(change.runtime.provider().search_fallback_model, "big-model");
}

#[test]
fn both_searches_follow_the_primary_model() {
    let mut store = Settings::new();
    let off = changed("model old-model off");
    apply_writes(&mut store, &off.writes);
    let next = config_command(
        &words("model new-model"),
        true,
        "chat",
        3,
        &off.runtime,
        &defaults(),
    );
    let Ok(ConfigOutcome::Change(change)) = next else {
        panic!("a change");
    };
    apply_writes(&mut store, &change.writes);
    let again = runtime_from_store(&defaults(), &store).ok().unwrap();
    for runtime in [change.runtime, again] {
        assert_eq!(runtime.provider().primary_model, "new-model");
        assert_eq!(runtime.provider().search_fallback_model, "new-model");
    }
}

#[test]
fn the_name_of_the_provider_changes_no_request() {
    let renamed = changed("provider other https://generativelanguage.googleapis.com").runtime;
    assert_eq!(renamed.provider_name, "other");
    let (one, other) = (runtime().provider(), renamed.provider());
    assert_eq!(one.endpoint, other.endpoint);
    assert_eq!(
        one.request("m", "q", true, &[]).body,
        other.request("m", "q", true, &[]).body
    );
}

#[test]
fn reading_the_configuration_again_keeps_the_number_of_workers() {
    let mut read = example();
    read.max_concurrent = 9;
    read.max_output_tokens = 77;
    let (next, runtime) = reload(
        &read,
        &MessagesConfig::default(),
        Ok(Some("other".to_owned())),
        &defaults(),
        &Settings::new(),
    )
    .ok()
    .unwrap();
    assert_eq!(next.config.max_concurrent, default_ai_concurrency());
    assert_eq!(runtime.config.max_output_tokens, 77);
    assert_eq!(runtime.api_key, "other");
    read.enabled = false;
    assert!(reload(
        &read,
        &MessagesConfig::default(),
        Ok(Some("other".to_owned())),
        &defaults(),
        &Settings::new()
    )
    .is_err());
}

#[test]
fn a_request_goes_where_the_settings_say() {
    let provider = build_provider(
        AiApiFormat::OpenaiChatCompletions,
        &example(),
        "https://api.example.com/v1",
        "test-model",
        "test-model",
        "test-key",
    )
    .ok()
    .unwrap();
    let request = provider.request("test-model", "hello", false, &[]);
    assert_eq!(request.url, "https://api.example.com/v1/chat/completions");
    assert_eq!(request.header.to_ascii_lowercase(), "authorization");
    assert_eq!(request.header_value, "Bearer test-key");
    assert_eq!(request.body.get("model"), Some(&Json::text("test-model")));
    assert!(request.body.get("plugins").is_none());
    let gemini = runtime().provider().request("m", "q", true, &[]);
    assert_eq!(
        gemini.url,
        "https://generativelanguage.googleapis.com/v1beta/interactions"
    );
    assert_eq!(gemini.header_value, "test-key");
}

#[test]
fn a_service_is_tried_and_reported_on() {
    let mut config = example();
    assert!(check_mode(&config).unwrap());
    let answer = AiAnswer {
        text: "四个字啊".to_owned(),
        sources: Vec::new(),
        model: "m".to_owned(),
        search_calls: 2,
    };
    assert_eq!(
        check_report(&config, true, &answer, 12).unwrap(),
        "AI check passed in 12 ms (format=gemini_interactions, searched=true, model=m, calls=2, sources=0, answer=4 chars)"
    );
    let empty = AiAnswer { text: " ".to_owned(), ..answer };
    assert_eq!(
        check_report(&config, true, &empty, 12).unwrap_err().message,
        "AI provider returned an empty response"
    );
    config.api_format = AiApiFormat::OpenaiChatCompletions;
    assert!(!check_mode(&config).unwrap());
    config.enabled = false;
    assert_eq!(check_mode(&config).unwrap_err().message, "AI plugin is disabled");
}
