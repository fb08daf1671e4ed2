use telebot::ai_reply::{
    collect_url_citations, empty_interaction_error, interpret_reply, parse_chat_completions_response,
    parse_gemini_response, parse_responses_response, read_reply, size_error, AiAnswer, AiSource,
};
use telebot::ai_request::{
    api_endpoint, append_api_endpoint, build_chat_completions_body, build_gemini_body,
    build_responses_body, make_data_url, AiImage,
};
use telebot::ai_run::{
    begin_search, chat_step, hedges, search_step, timeout_error, ChatAction, ChatEvent, ChatState,
    SearchAction, SearchEvent, SearchState,
};
use telebot::base_url::normalize_base_url;
use telebot::config::AiApiFormat;
use telebot::failure::Failure;
use telebot::json::{read_json, Json};
use telebot::prompt::{
    ai_image_type, append_sources, begin_answer, chat_over, check_image_size, collect_images,
    compose_history_prompt, next_photo, photo_order, plan_command, prepare, reply_context_text,
    reset_reply, search_over, truncate_chars, truncate_history_item, AiCommand, AnswerAction,
    AnswerState, MediaKind, PhotoStep, PhotoVariant, Prepared,
};
use telebot::provider_error::{
    is_transient_status, retry_after_delay, sanitize_provider_error, ProviderError, MILLISECOND,
    SECOND,
};
use telebot::store::AiHistoryEntry;

fn parsed(text: &str) -> Json {
    read_json(text.as_bytes()).unwrap()
}

fn image() -> AiImage {
    AiImage {
        mime_type: "image/png".to_owned(),
        base64_data: "aW1hZ2U=".to_owned(),
        byte_len: 5,
    }
}

fn answer(text: &str) -> AiAnswer {
    AiAnswer {
        text: text.to_owned(),
        sources: Vec::new(),
        model: "m".to_owned(),
        search_calls: 1,
    }
}

#[test]
fn empty_interaction_is_retryable_and_keeps_step_metadata() {
    let value = parsed(
        r#"{"status": "completed", "steps": [{"type": "google_search_call"}, {"type": "thought"}]}"#,
    );
    let error = empty_interaction_error(&value);
    assert!(error.transient);
    assert!(error.message.contains("status=completed"));
    assert!(error.message.contains("google_search_call,thought"));
}

#[test]
fn native_sources_are_appended_and_sanitized() {
    let sources = vec![AiSource {
        title: "Windows local account [guide]".to_owned(),
        url: "https://example.com/guide".to_owned(),
    }];
    let mut answer = "回答".to_owned();
    append_sources(&mut answer, &sources);
    assert!(answer.contains("### 🔗 来源"));
    assert!(answer.contains("[Windows local account guide]"));
}

#[test]
fn sources_cannot_end_their_links() {
    let source = |i: usize| AiSource {
        title: format!("]({i}"),
        url: "https://example.com/a(b)c".to_owned(),
    };
    let sources: Vec<AiSource> = (0..8).map(source).collect();
    let mut text = "x".to_owned();
    append_sources(&mut text, &sources);
    assert_eq!(text.lines().filter(|line| line.starts_with("- ")).count(), 6);
    assert!(text.starts_with("x\n\n### 🔗 来源\n- [(0](https://example.com/a(b%29c)\n"));
    let mut unchanged = "x".to_owned();
    append_sources(&mut unchanged, &[]);
    assert_eq!(unchanged, "x");
}

#[test]
fn runtime_base_url_is_restricted_and_normalized() {
    assert_eq!(
        normalize_base_url("https://example.com/gemini/").unwrap(),
        "https://example.com/gemini"
    );
    assert_eq!(normalize_base_url("http://127.0.0.1:8080").unwrap(), "http://127.0.0.1:8080");
    assert!(normalize_base_url("http://example.com").is_err());
    assert!(normalize_base_url("https://user@example.com").is_err());
    assert!(normalize_base_url("https://example.com?token=secret").is_err());
}

#[test]
fn addresses_are_refused_with_a_reason() {
    let message = |value: &str| normalize_base_url(value).unwrap_err().message;
    assert!(message("no address").starts_with("BaseURL 无效: "));
    assert_eq!(message(&format!("https://e.com/{}", "x".repeat(300))), "BaseURL 过长");
    assert_eq!(
        message("ftp://example.com"),
        "BaseURL 必须使用 HTTPS；只有本机回环地址可使用 HTTP"
    );
    assert_eq!(message("https://e.com#x"), "BaseURL 不能包含账号、查询参数或片段");
    assert_eq!(normalize_base_url("  http://LocalHost/ ").unwrap(), "http://LocalHost");
}

#[test]
fn openai_endpoints_are_appended_once() {
    assert_eq!(
        append_api_endpoint("https://api.example.com/v1", "chat/completions"),
        "https://api.example.com/v1/chat/completions"
    );
    assert_eq!(
        append_api_endpoint("https://api.example.com/v1/chat/completions", "chat/completions"),
        "https://api.example.com/v1/chat/completions"
    );
}

#[test]
fn each_protocol_has_its_endpoint() {
    assert_eq!(
        api_endpoint(AiApiFormat::GeminiInteractions, "https://g.example"),
        "https://g.example/v1beta/interactions"
    );
    assert_eq!(
        api_endpoint(AiApiFormat::GeminiInteractions, "https://g.example/v1beta"),
        "https://g.example/v1beta/interactions"
    );
    assert_eq!(
        api_endpoint(AiApiFormat::OpenaiResponses, "https://o.example/v1"),
        "https://o.example/v1/responses"
    );
}

#[test]
fn chat_completions_body_uses_only_standard_fields() {
    let body = build_chat_completions_body("test-model", "system", "question", &[image()], 512);
    assert_eq!(body.get("model"), Some(&Json::text("test-model")));
    assert_eq!(body.get("max_tokens"), Some(&Json::number(512)));
    assert_eq!(body.get("stream"), Some(&Json::Bool(false)));
    assert_eq!(
        body.pointer(&["messages", "1", "content", "1", "type"]),
        Some(&Json::text("image_url"))
    );
    assert_eq!(
        body.pointer(&["messages", "1", "content", "1", "image_url", "url"]),
        Some(&Json::text("data:image/png;base64,aW1hZ2U="))
    );
    assert!(body.get("plugins").is_none());
    assert!(body.get("provider").is_none());
}

#[test]
fn responses_body_adds_only_the_standard_search_tool() {
    let body = build_responses_body("test-model", "system", "question", &[], 512, true);
    assert_eq!(body.pointer(&["tools", "0", "type"]), Some(&Json::text("web_search")));
    assert_eq!(
        body.pointer(&["input", "0", "content", "0", "type"]),
        Some(&Json::text("input_text"))
    );
    assert_eq!(body.get("store"), Some(&Json::Bool(false)));
    assert!(body.get("plugins").is_none());
    let plain = build_responses_body("test-model", "system", "question", &[], 512, false);
    assert!(plain.get("tools").is_none());
}

#[test]
fn gemini_body_puts_images_first() {
    let body = build_gemini_body("m", "s", "q", &[image()], "minimal", 64, true);
    assert_eq!(body.pointer(&["input", "0", "data"]), Some(&Json::text("aW1hZ2U=")));
    assert_eq!(body.pointer(&["input", "1", "text"]), Some(&Json::text("q")));
    assert_eq!(body.pointer(&["tools", "0", "type"]), Some(&Json::text("google_search")));
    assert_eq!(
        body.pointer(&["generation_config", "max_output_tokens"]),
        Some(&Json::number(64))
    );
}

#[test]
fn images_are_written_in_base64() {
    let made = AiImage::new("image/jpeg", b"image");
    assert_eq!(made.base64_data, "aW1hZ2U=");
    assert_eq!(made.byte_len, 5);
    assert_eq!(make_data_url("image/jpeg", &made.base64_data), "data:image/jpeg;base64,aW1hZ2U=");
}

#[test]
fn chat_completions_parser_accepts_standard_citations() {
    let value = parsed(
        r#"{"model": "returned-model", "choices": [{"message": {"content": "answer",
            "annotations": [{"type": "url_citation", "url_citation":
            {"title": "Example", "url": "https://example.com/source"}}]}}]}"#,
    );
    let answer = parse_chat_completions_response(&value, "requested-model").unwrap();
    assert_eq!(answer.text, "answer");
    assert_eq!(answer.model, "returned-model");
    assert_eq!(answer.sources.len(), 1);
    assert_eq!(answer.sources[0].url, "https://example.com/source");
}

#[test]
fn responses_parser_requires_a_real_search_call() {
    let message = r#"{"type": "message", "content": [{"type": "output_text", "text": "answer",
        "annotations": [{"type": "url_citation", "title": "Example",
        "url": "https://example.com/source"}]}]}"#;
    let value = parsed(&format!(r#"{{"model": "test-model", "output": [{message}]}}"#));
    let error = parse_responses_response(&value, "test-model", true).unwrap_err();
    assert!(error.transient);
    assert!(error.message.contains("did not call"));

    let call = r#"{"type": "web_search_call", "status": "completed"}"#;
    let searched = parsed(&format!(r#"{{"model": "test-model", "output": [{call}, {message}]}}"#));
    let answer = parse_responses_response(&searched, "test-model", true).unwrap();
    assert_eq!(answer.search_calls, 1);
    assert_eq!(answer.sources.len(), 1);
}

#[test]
fn malformed_openai_responses_fail_without_best_effort_text() {
    assert!(parse_chat_completions_response(&parsed(r#"{"choices": []}"#), "model").is_err());
    assert!(parse_responses_response(&parsed(r#"{"output": []}"#), "model", false).is_err());
}

#[test]
fn gemini_answers_are_read() {
    let value = parsed(
        r#"{"status": "completed", "model": "g", "steps": [{"type": "google_search_call"},
            {"type": "model_output", "content": [{"type": "text", "text": " hello "}]}]}"#,
    );
    let answer = parse_gemini_response(&value, "asked", true).unwrap();
    assert_eq!(answer.text, " hello ");
    assert_eq!(answer.model, "asked");
    assert_eq!(answer.search_calls, 1);
    assert!(parse_gemini_response(&parsed("{}"), "asked", false).is_err());
}

#[test]
fn a_page_is_cited_once() {
    let annotations = parsed(
        r#"[{"type": "url_citation", "title": "A", "url": "https://a"},
            {"type": "url_citation", "title": "B", "url": "https://a"},
            {"type": "other", "title": "C", "url": "https://c"}]"#,
    );
    let mut sources = Vec::new();
    collect_url_citations(Some(&annotations), &mut sources, false);
    assert_eq!(sources.len(), 1);
    assert_eq!(sources[0].title, "A");
}

#[test]
fn provider_errors_are_bounded_and_single_line() {
    let value = format!("secret-looking upstream text\n{}", "x".repeat(800));
    let error = ProviderError::http(502, &value, None, "secret-looking");
    assert!(!error.message.contains('\n'));
    assert!(!error.message.contains("secret-looking"));
    assert!(error.message.chars().count() < 550);
    assert!(error.transient);
}

#[test]
fn errors_say_whether_to_try_again() {
    assert!(is_transient_status(429));
    assert!(is_transient_status(503));
    assert!(!is_transient_status(400));
    assert_eq!(retry_after_delay(Some("2")), Some(2));
    assert_eq!(retry_after_delay(Some("soon")), None);
    assert_eq!(retry_after_delay(None), None);
    assert_eq!(sanitize_provider_error("key abc here", "abc"), "key [redacted] here");
    assert!(!ProviderError::permanent("x").transient);
    assert!(ProviderError::transient("x").transient);
    assert!(ProviderError::from_transport("x", true, false, false).transient);
}

#[test]
fn the_pause_is_what_was_asked_for_or_a_little_time() {
    let asked = ProviderError::http(429, "slow down", Some(2), "k");
    assert_eq!(asked.retry_delay(), 2 * SECOND);
    let plain = ProviderError::transient("x");
    let delay = plain.retry_delay();
    assert!(delay >= 150 * MILLISECOND && delay < 300 * MILLISECOND);
    assert_eq!(plain.delay_with(7), 157 * MILLISECOND);
}

#[test]
fn openai_transport_accepts_json_with_incorrect_content_type() {
    let body = br#"{"model": "test-model", "choices": [{"message": {"content": "transport ok"}}]}"#;
    let answer = read_reply(
        AiApiFormat::OpenaiChatCompletions,
        200,
        None,
        body,
        "test-model",
        false,
        "test-key",
    )
    .unwrap();
    assert_eq!(answer.text, "transport ok");
    assert_eq!(answer.model, "test-model");
}

#[test]
fn replies_that_are_no_answers_are_errors() {
    let format = AiApiFormat::OpenaiChatCompletions;
    let refused = read_reply(format, 401, None, b"{\"error\": {\"message\": \"bad key k\"}}", "m",
        false, "k").unwrap_err();
    assert!(!refused.transient);
    assert!(refused.message.contains("401"));
    assert!(!refused.message.contains("key k"));
    let garbage = read_reply(format, 200, None, b"<html>", "m", false, "k").unwrap_err();
    assert!(garbage.message.len() > 0);
    let no_json = interpret_reply(format, 503, None, &Err("no json".to_owned()), "m", false, "k")
        .unwrap_err();
    assert!(!no_json.transient);
    let busy =
        interpret_reply(format, 503, Some(1), &Ok(parsed("{}")), "m", false, "k").unwrap_err();
    assert!(busy.transient);
    assert_eq!(busy.retry_after, Some(1));
    assert!(size_error(format, 4 * 1024 * 1024 + 1).is_some());
    assert!(size_error(format, 4 * 1024 * 1024).is_none());
}

#[test]
fn json_is_read_as_it_stands() {
    let value = parsed(r#"{"a": [1, -2.5, "x", null, true], "a b": {"c": "d"}}"#);
    assert_eq!(value.pointer(&["a", "1"]), Some(&Json::Number("-2.5".to_owned())));
    assert_eq!(value.pointer(&["a", "2"]).and_then(Json::as_str).map(String::as_str), Some("x"));
    assert_eq!(value.pointer(&["a", "3"]), Some(&Json::Null));
    assert_eq!(value.pointer(&["a", "9"]), None);
    assert_eq!(value.get("a").and_then(Json::as_array).map(Vec::len), Some(5));
    assert!(read_json(b"{").is_err());
}

#[test]
fn the_first_answer_of_a_search_counts() {
    let format = AiApiFormat::GeminiInteractions;
    let (state, action) =
        search_step(format, true, SearchState::First, SearchEvent::FirstSlow, 5 * SECOND, "10s");
    assert!(matches!(state, SearchState::Both));
    assert!(matches!(action, SearchAction::StartSecond { limit } if limit == 5 * SECOND));
    let (state, action) = search_step(
        format,
        true,
        state,
        SearchEvent::FirstDone(Err(ProviderError::transient("busy"))),
        4 * SECOND,
        "11s",
    );
    assert!(matches!(state, SearchState::SecondLeft(_)));
    assert!(matches!(action, SearchAction::Wait));
    let (_, action) = search_step(
        format,
        true,
        state,
        SearchEvent::SecondDone(Ok(answer("found"))),
        3 * SECOND,
        "12s",
    );
    match action {
        SearchAction::Finish(Ok(found)) => assert_eq!(found.text, "found"),
        _ => panic!("the search is over"),
    }
    assert!(begin_search(AiApiFormat::OpenaiChatCompletions).is_err());
    assert!(begin_search(AiApiFormat::OpenaiResponses).is_ok());
    assert!(timeout_error(format).transient);
}

#[test]
fn no_seconds_mean_no_second_request() {
    assert!(!hedges(0));
    assert!(hedges(1));
    assert!(hedges(u64::MAX));
    let slow = |seconds: u64| {
        search_step(
            AiApiFormat::GeminiInteractions,
            hedges(seconds),
            SearchState::First,
            SearchEvent::FirstSlow,
            5 * SECOND,
            "10s",
        )
        .1
    };
    assert!(!matches!(slow(0), SearchAction::StartSecond { .. }));
    assert!(matches!(slow(3), SearchAction::StartSecond { .. }));
    let (_, action) = search_step(
        AiApiFormat::GeminiInteractions,
        hedges(0),
        SearchState::First,
        SearchEvent::FirstDone(Err(ProviderError::transient("busy"))),
        5 * SECOND,
        "1s",
    );
    assert!(matches!(action, SearchAction::Finish(Err(_))));
}

#[test]
fn an_answer_without_search_is_asked_for_twice_at_most() {
    let format = AiApiFormat::OpenaiResponses;
    let ready = || ChatEvent::Ready { remaining: 10 * SECOND };
    let failed = || ChatEvent::Failed {
        error: ProviderError::transient("busy"),
        remaining: 8 * SECOND,
        delay: SECOND,
    };
    let (state, action) = chat_step(format, ChatState::new(), ready(), "0s");
    assert!(matches!(action, ChatAction::Send { .. }));
    let (state, action) = chat_step(format, state, failed(), "1s");
    assert!(matches!(action, ChatAction::Sleep { delay } if delay == SECOND));
    let (state, action) = chat_step(format, state, ready(), "2s");
    assert!(matches!(action, ChatAction::Send { .. }));
    let (_, action) = chat_step(format, state, failed(), "3s");
    assert!(matches!(action, ChatAction::Finish(Err(_))));
}

#[test]
fn rolling_history_is_added_before_current_prompt() {
    let history = vec![
        AiHistoryEntry { role: "user".to_owned(), content: "第一问".to_owned() },
        AiHistoryEntry { role: "assistant".to_owned(), content: "第一答".to_owned() },
    ];
    let prompt = compose_history_prompt(&history, "第二问");
    assert!(prompt.contains("用户：第一问"));
    assert!(prompt.contains("助手：第一答"));
    assert!(prompt.ends_with("当前请求：\n第二问"));
}

#[test]
fn a_long_conversation_loses_its_beginning() {
    let entry = |i: usize| AiHistoryEntry {
        role: "user".to_owned(),
        content: format!("{i}{}", "x".repeat(5000)),
    };
    let history: Vec<AiHistoryEntry> = (0..9).map(entry).collect();
    let prompt = compose_history_prompt(&history, "now");
    assert!(!prompt.contains("用户：0"));
    assert!(!prompt.contains("用户：3"));
    assert!(prompt.contains("用户：4"));
    assert!(prompt.contains("用户：8"));
    assert_eq!(compose_history_prompt(&[], "now"), "now");
    assert_eq!(truncate_history_item("short"), "short");
    assert!(truncate_history_item(&"x".repeat(4001)).ends_with("\n…（历史内容已截断）"));
}

#[test]
fn commands_are_told_by_their_first_word() {
    assert!(matches!(plan_command(" HELP ", true), AiCommand::Help));
    assert!(matches!(plan_command("?", true), AiCommand::Help));
    assert!(matches!(plan_command("status", true), AiCommand::Status));
    assert!(matches!(plan_command("cfg key x", true), AiCommand::Config));
    assert!(matches!(plan_command("ctx 6", true), AiCommand::Context));
    assert!(matches!(plan_command("clear", true), AiCommand::Reset));
    match plan_command("s  why is it", false) {
        AiCommand::Ask { use_search, question } => {
            assert!(use_search);
            assert_eq!(question, "why is it");
        }
        _ => panic!("a question"),
    }
    match plan_command(" why is it ", false) {
        AiCommand::Ask { use_search, question } => {
            assert!(!use_search);
            assert_eq!(question, "why is it");
        }
        _ => panic!("a question"),
    }
    assert_eq!(reset_reply(4), "✅ 已清除当前聊天上下文（4 条记录）");
}

#[test]
fn a_question_is_put_with_what_it_is_about() {
    let ask = |raw: &str, explicit: &str, reply: &str, images: bool| {
        match prepare(raw, explicit, reply, images) {
            Ok(Prepared::Ask { question, prompt }) => (question, prompt),
            _ => panic!("a question"),
        }
    };
    assert!(matches!(prepare("", "", " ", false), Ok(Prepared::Help)));
    assert_eq!(
        prepare("search", "", "", false).err().map(|e| e.message),
        Some("请在 .ai 后输入问题，或回复一条文字消息后使用 .ai".to_owned())
    );
    assert_eq!(ask("", "", "text", false), ("text".to_owned(), "text".to_owned()));
    assert_eq!(ask("", "", "", true).0, "请分析图片内容。");
    assert_eq!(
        ask("why", "why", "text", false),
        ("why".to_owned(), "上下文：\ntext\n\n问题：\nwhy".to_owned())
    );
}

#[test]
fn the_selected_part_of_a_message_counts() {
    assert_eq!(reply_context_text(true, Some("part"), "whole"), "part");
    assert_eq!(reply_context_text(false, Some("part"), "whole"), "whole");
    assert_eq!(reply_context_text(true, None, "whole"), "whole");
    assert_eq!(truncate_chars("abc", 2), "ab\n…（被回复消息已截断）");
    let long = reply_context_text(false, None, &"x".repeat(9000));
    assert_eq!(long.chars().count(), 8000 + "\n…（被回复消息已截断）".chars().count());
}

#[test]
fn images_are_taken_if_they_can_be_looked_at() {
    assert_eq!(ai_image_type(&MediaKind::Photo).as_deref(), Some("image/jpeg"));
    assert_eq!(ai_image_type(&MediaKind::Sticker(None)).as_deref(), Some("image/webp"));
    let video = MediaKind::Sticker(Some("video/webm".to_owned()));
    assert_eq!(ai_image_type(&video), None);
    assert_eq!(ai_image_type(&MediaKind::Document(None)), None);
    let png = MediaKind::Document(Some("image/png".to_owned()));
    assert_eq!(ai_image_type(&png).as_deref(), Some("image/png"));
    assert!(check_image_size(1).is_ok());
    assert!(check_image_size(0).is_err());
    assert!(check_image_size(8 * 1024 * 1024 + 1).is_err());

    let sized = |byte_len: usize| AiImage { byte_len, ..image() };
    assert_eq!(collect_images(Some(image()), Some(image())).unwrap().len(), 2);
    assert_eq!(collect_images(None, None).unwrap().len(), 0);
    let half = 7 * 1024 * 1024;
    assert_eq!(
        collect_images(Some(sized(half)), Some(sized(half))).unwrap_err().message,
        "图片总大小超过 12 MB，请减少图片后重试"
    );
}

#[test]
fn the_largest_size_of_a_photo_is_tried_first() {
    let variant = |usable: bool, size: usize| PhotoVariant { usable, size };
    let order = photo_order(&[
        variant(true, 10),
        variant(false, 99),
        variant(true, 30),
        variant(true, 10),
    ]);
    assert_eq!(order, [2, 0, 3]);
    assert_eq!(next_photo(&order, 0, None), PhotoStep::Size(2));
    assert_eq!(next_photo(&order, 1, Some(0)), PhotoStep::Size(0));
    assert_eq!(next_photo(&order, 2, None), PhotoStep::Size(3));
    assert_eq!(next_photo(&order, 2, Some(5)), PhotoStep::Done);
    assert_eq!(next_photo(&order, 3, None), PhotoStep::Whole);
}

#[test]
fn a_failed_search_is_answered_without_it() {
    assert_eq!(begin_answer(true), AnswerState::Searching);
    assert_eq!(begin_answer(false), AnswerState::Chatting);
    let (_, action) = search_over(Ok(answer("found")));
    assert!(matches!(action, AnswerAction::Show { ref text, searched: true } if text == "found"));
    let (state, action) = search_over(Err(Failure::new("busy")));
    assert_eq!(state, AnswerState::FallingBack);
    assert!(matches!(action, AnswerAction::Chat));
    match chat_over(state, Ok("plain".to_owned())) {
        AnswerAction::Show { text, searched } => {
            assert!(!searched);
            assert_eq!(text, "⚠️ 联网检索暂时不可用，以下为无联网回答：\n\nplain");
        }
        _ => panic!("an answer"),
    }
    match chat_over(state, Err(Failure::new("busy"))) {
        AnswerAction::Fail(e) => {
            assert_eq!(e.message, "AI 服务暂时没有返回有效内容，请稍后重试")
        }
        _ => panic!("an error"),
    }
    match chat_over(AnswerState::Chatting, Err(Failure::new("busy"))) {
        AnswerAction::Fail(e) => assert_eq!(e.message, "busy"),
        _ => panic!("an error"),
    }
}
