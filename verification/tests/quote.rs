use base64::Engine;
use telebot::config::QuoteConfig;
use telebot::json::Json;
use telebot::outgoing::{EntityStyle, MessageEntity};
use telebot::prompt::MediaKind;
use telebot::quote::{
    check_count, format_byte_size, history_enabled, history_limit, parse_history_enabled,
    pick_messages, plan_archive, plan_quote, plan_quote_config, sticker_set_name,
    validate_sticker_set_name, QuoteCommand, QuoteConfigPlan, QuoteOutput,
    MAX_HISTORY_PREVIEW_CHARS,
};
use telebot::quote_archive::{
    check_sticker_set, entry_not_found, history_list, plan_history, preview_line,
    quote_history_preview, quote_preview_line, quote_settings_text, sticker_saved,
    sticker_set_exists, sticker_source, HistoryPlan, StickerSource,
};
use telebot::quote_media::{
    file_data_url, media_fits, next_avatar_step, quote_media_type, AvatarCache, AvatarStep,
};
use telebot::quote_payload::{
    build_reply_block, check_payload, convert_entity, forward_label, quote_payload, quoted_content,
    selected_reply_content, sender_view, shown_senders, stable_text_id, Content, ForwardHeader,
    QuoteItem, ReplyHeader, Sender,
};
use telebot::quote_render::{
    accept_image, can_shrink, check_photo, decode_quote_response, fits_sticker_set, is_png,
    is_webm, is_webp, next_render_step, normalize_photo_sticker, quote_endpoint, response_fits,
    sticker_shape, unwrap_image, validate_quote_format, ImageShape, RenderAction, RenderEvent,
};
use telebot::settings::Settings;
use telebot::store::QuoteHistorySummary;

const PNG_HEAD: [u8; 8] = [0x89, b'P', b'N', b'G', 0x0d, 0x0a, 0x1a, 0x0a];

fn webp() -> Vec<u8> {
    let mut webp = b"RIFF".to_vec();
    webp.extend_from_slice(&[0, 0, 0, 0]);
    webp.extend_from_slice(b"WEBPdata");
    webp
}

fn config() -> QuoteConfig {
    QuoteConfig {
        enabled: true,
        api_url: "http://127.0.0.1:3210/generate".to_owned(),
        timeout_seconds: 20,
        max_messages: 5,
        background_color: "#1b1429".to_owned(),
        sticker_set_short_name: "from_file".to_owned(),
        history_enabled: true,
        history_limit: 100,
        history_max_bytes: 1024 * 1024,
    }
}

fn words(text: &str) -> Vec<String> {
    text.split_whitespace().map(str::to_owned).collect()
}

fn entity(style: EntityStyle<String>) -> MessageEntity {
    MessageEntity { style, offset: 1, length: 2 }
}

fn content(text: &str) -> Content {
    Content { text: text.to_owned(), entities: Vec::new() }
}

fn user(id: i64, first: &str) -> Option<Sender<String>> {
    Some(Sender::User {
        id: Some(id),
        first_name: Some(first.to_owned()),
        last_name: Some("L".to_owned()),
        username: None,
    })
}

#[test]
fn validates_sticker_set_names() {
    assert!(validate_sticker_set_name("telebot_quotes_1").is_ok());
    assert!(validate_sticker_set_name("bad-name").is_err());
    assert!(validate_sticker_set_name("").is_err());
    assert!(validate_sticker_set_name(&"x".repeat(64)).is_ok());
    assert!(validate_sticker_set_name(&"x".repeat(65)).is_err());
}

#[test]
fn decodes_json_wrapped_webp() {
    let webp = webp();
    let encoded = base64::engine::general_purpose::STANDARD.encode(&webp);
    let response = format!("{{\"image\": \"{encoded}\"}}").into_bytes();
    assert_eq!(decode_quote_response(&response, QuoteOutput::Sticker).unwrap(), webp);
    let behind_comma = format!("{{\"image\": \"data:image/webp;base64,{encoded}\"}}").into_bytes();
    assert_eq!(decode_quote_response(&behind_comma, QuoteOutput::Sticker).unwrap(), webp);
    assert_eq!(decode_quote_response(&webp, QuoteOutput::Sticker).unwrap(), webp);
}

#[test]
fn selects_format_specific_local_endpoint() {
    assert_eq!(
        quote_endpoint("http://127.0.0.1:3210/generate", QuoteOutput::Sticker),
        "http://127.0.0.1:3210/generate.webp"
    );
    assert_eq!(
        quote_endpoint("http://127.0.0.1:3210/generate", QuoteOutput::Stories),
        "http://127.0.0.1:3210/generate.png"
    );
    assert_eq!(quote_endpoint("http://h/x.webp//", QuoteOutput::Image), "http://h/x.png");
    assert_eq!(quote_endpoint("http://h/x.png", QuoteOutput::Sticker), "http://h/x.webp");
    assert_eq!(quote_endpoint("http://h/other/", QuoteOutput::Sticker), "http://h/other");
}

#[test]
fn quote_history_preview_is_single_line_and_bounded() {
    let long = "一".repeat(MAX_HISTORY_PREVIEW_CHARS + 20);
    let preview = quote_history_preview(&vec![format!("名字：{long}\n第二行")]);
    assert!(!preview.contains('\n'));
    assert!(preview.chars().count() <= MAX_HISTORY_PREVIEW_CHARS + 1);
    assert!(preview.ends_with('…'));
}

#[test]
fn quote_history_output_round_trips() {
    for output in [QuoteOutput::Sticker, QuoteOutput::Image, QuoteOutput::Stories] {
        assert_eq!(QuoteOutput::from_history_kind(output.history_kind()).unwrap(), output);
    }
    assert!(QuoteOutput::from_history_kind("unknown").is_err());
}

#[test]
fn outputs_have_their_formats_and_sizes() {
    assert_eq!(QuoteOutput::Sticker.format(), "webp");
    assert_eq!(QuoteOutput::Stories.dimensions(), (360, 640));
    assert_eq!(QuoteOutput::Image.api_type(), "image");
    assert_eq!(QuoteOutput::Image.display_name(), "图片");
}

#[test]
fn arguments_say_what_is_quoted() {
    let plan = |text: &str| plan_quote(&words(text)).unwrap();
    let generate = |include_replies: bool, output: QuoteOutput, count: usize| {
        QuoteCommand::Generate { include_replies, output, count }
    };
    assert_eq!(plan(""), generate(false, QuoteOutput::Sticker, 1));
    assert_eq!(plan("3"), generate(false, QuoteOutput::Sticker, 3));
    assert_eq!(plan("R image 2"), generate(true, QuoteOutput::Image, 2));
    assert_eq!(plan("stories"), generate(false, QuoteOutput::Stories, 1));
    assert_eq!(plan("webp 4"), generate(false, QuoteOutput::Sticker, 4));
    assert_eq!(plan("CONFIG x"), QuoteCommand::Config);
    assert_eq!(plan("his"), QuoteCommand::History);
    assert_eq!(plan("s"), QuoteCommand::Save);
    assert_eq!(plan("h"), QuoteCommand::Help);
    assert_eq!(
        plan_quote(&words("r png many")).unwrap_err().message,
        "消息数必须是数字: invalid digit found in string"
    );
    assert_eq!(
        plan_quote(&words("2 3")).unwrap_err().message,
        "参数过多，请使用 .q help 查看用法"
    );
    assert!(check_count(5, 5).is_ok());
    assert_eq!(check_count(6, 5).unwrap_err().message, "消息数必须在 1-5 之间");
    assert!(check_count(0, 5).is_err());
}

#[test]
fn the_command_is_not_quoted() {
    assert_eq!(pick_messages(&[4, 9, 5, 6], 9, 2).unwrap(), [0, 2]);
    assert_eq!(
        pick_messages(&[9], 9, 2).unwrap_err().message,
        "未找到可生成语录的消息"
    );
}

#[test]
fn settings_are_read_and_changed() {
    let put = |text: &str| match plan_quote_config(&words(text)) {
        Ok(QuoteConfigPlan::Put { key, value, reply }) => (key, value, reply),
        _ => panic!("a change"),
    };
    let refused = |text: &str| match plan_quote_config(&words(text)) {
        Err(e) => e.message,
        Ok(_) => panic!("an error"),
    };
    let mut store = Settings::new();
    assert_eq!(sticker_set_name(&config(), &store), "from_file");
    assert_eq!(history_limit(&config(), &store).unwrap(), 100);
    for command in ["sticker my set", "history off", "archive limit 7"] {
        let (key, value, _) = put(command);
        store.set_setting(&key, &value);
    }
    assert_eq!(sticker_set_name(&config(), &store), "my_set");
    assert!(!history_enabled(&config(), &store).unwrap());
    assert_eq!(history_limit(&config(), &store).unwrap(), 7);
    assert_eq!(plan_archive(&config(), &store).unwrap(), None);
    store.set_setting("quote.history.enabled", "true");
    assert_eq!(plan_archive(&config(), &store).unwrap(), Some(7));
    assert_eq!(put("set a").2, "✅ 贴纸包已设置为 a\nhttps://t.me/addstickers/a");
    assert!(matches!(plan_quote_config(&[]), Ok(QuoteConfigPlan::Show)));
    assert_eq!(refused("history on now"), "用法：.q config history on|off");
    assert_eq!(refused("history limit"), "用法：.q config history limit <1-500>");
    assert_eq!(refused("history limit 501"), "语录存档数量必须在 1 到 500 之间");
    assert_eq!(refused("colour"), "未知配置项；可用：sticker、history");
    assert!(refused("sticker").contains("1-64"));
    assert!(parse_history_enabled(" YES ").unwrap());
    assert!(parse_history_enabled("perhaps").is_err());
}

#[test]
fn sizes_are_written_as_a_double_would_be() {
    for bytes in [0_usize, 1023, 1024, 1075, 1076, 1536, 1_048_575, 1_048_576, 1_153_434,
        12_582_912, 104_857_600, 9_007_199_254_740_993, usize::MAX]
    {
        let expected = if bytes >= 1024 * 1024 {
            format!("{:.1} MiB", bytes as f64 / (1024.0 * 1024.0))
        } else if bytes >= 1024 {
            format!("{:.1} KiB", bytes as f64 / 1024.0)
        } else {
            format!("{bytes} B")
        };
        assert_eq!(format_byte_size(bytes), expected);
    }
    // Just between two tenths, the even one is taken.
    assert_eq!(format_byte_size(1024 + 256), "1.2 KiB");
    assert_eq!(format_byte_size(1024 + 768), "1.8 KiB");
}

#[test]
fn the_archive_is_listed() {
    let entry = |id: i64, output: &str| QuoteHistorySummary {
        id,
        output: output.to_owned(),
        preview: "名字：话".to_owned(),
        byte_len: 2048,
        created_at: 0,
    };
    assert!(history_list(&[]).unwrap().starts_with("🗂️ 暂无语录存档"));
    assert_eq!(
        history_list(&[entry(3, "sticker"), entry(2, "image")]).unwrap(),
        "🗂️ 最近的语录存档\n\n#3 · 贴纸 · 2.0 KiB\n名字：话\n\n#2 · 图片 · 2.0 KiB\n名字：话\n\n取回：.q history <ID>"
    );
    assert_eq!(history_list(&[entry(1, "film")]).unwrap_err().message, "存档格式无效");
    assert_eq!(plan_history(&[]).unwrap(), HistoryPlan::List);
    assert_eq!(plan_history(&words("12")).unwrap(), HistoryPlan::Entry(12));
    assert_eq!(plan_history(&words("0")).unwrap_err().message, "存档 ID 必须大于 0");
    assert!(plan_history(&words("x")).unwrap_err().message.starts_with("存档 ID 必须是数字: "));
    assert_eq!(plan_history(&words("1 2")).unwrap_err().message, "用法：.q history [ID]");
    assert_eq!(entry_not_found(7).message, "未找到语录存档 #7");
    let text = quote_settings_text("a", true, 5, &[entry(1, "image")], 4096);
    assert!(text.starts_with(
        "📋 语录配置\n\n贴纸包：a\n链接：https://t.me/addstickers/a\n存档：开启\n存档数量：1/5\n存档空间：2.0 KiB/4.0 KiB\n\n"
    ));
    assert!(quote_settings_text("", false, 5, &[], 1).contains("贴纸包：（未设置）\n存档：关闭"));
}

#[test]
fn previews_stand_on_one_line() {
    assert_eq!(quote_preview_line(" a\n b\t c "), "a b c");
    assert_eq!(quote_preview_line(" \n"), "[媒体]");
    assert_eq!(preview_line("名", "a\nb"), "名：a b");
    assert_eq!(quote_history_preview(&words("a b")), "a / b");
}

#[test]
fn sticker_sets_are_found_or_made() {
    assert_eq!(sticker_source(&Some(MediaKind::Photo)).unwrap(), StickerSource::Photo);
    assert_eq!(
        sticker_source(&Some(MediaKind::Sticker(None))).unwrap(),
        StickerSource::Sticker
    );
    assert_eq!(
        sticker_source(&Some(MediaKind::Other)).unwrap_err().message,
        "仅支持贴纸或图片"
    );
    assert_eq!(
        sticker_source(&None).unwrap_err().message,
        "回复的消息不包含贴纸或图片"
    );
    assert!(check_sticker_set("a").is_ok());
    assert!(check_sticker_set(" ").is_err());
    assert!(sticker_set_exists(Ok(())).unwrap());
    assert!(!sticker_set_exists(Err("rpc: STICKERSET_INVALID".to_owned())).unwrap());
    assert_eq!(sticker_set_exists(Err("flood".to_owned())).unwrap_err().message, "flood");
    assert_eq!(sticker_saved(true, "a"), "✅ 已添加到贴纸包\nhttps://t.me/addstickers/a");
    assert!(sticker_saved(false, "a").starts_with("✅ 已创建贴纸包"));
}

#[test]
fn senders_are_named() {
    let forwarded = Some(ForwardHeader {
        from_name: None,
        saved_from_name: Some("来源".to_owned()),
        post_author: Some("作者".to_owned()),
    });
    let shown = sender_view(&forwarded, &user(5, "F"));
    assert_eq!(shown.display_name, "来源");
    assert_eq!(shown.id, stable_text_id("来源"));
    assert_eq!(sender_view(&None, &user(5, "F")).display_name, "F L");
    assert_eq!(sender_view(&None, &user(5, "F")).id, 5);
    let nobody = sender_view(&None, &None);
    assert_eq!(nobody.display_name, "未知来源");
    let channel = Some(Sender::Other { id: None, name: None, username: Some("u".to_owned()) });
    assert_eq!(sender_view(&None, &channel).id, stable_text_id("未知来源"));
    assert_eq!(sender_view(&None, &channel).username, "u");
    assert_eq!(stable_text_id("ab"), 97 * 31 + 98);
    let by_hand = "未知来源未知来源"
        .bytes()
        .fold(0_i64, |hash, byte| hash.wrapping_mul(31).wrapping_add(byte as i64));
    assert_eq!(stable_text_id("未知来源未知来源"), by_hand);
    assert_eq!(
        forward_label(&forwarded),
        Json::object().with("label", Json::text("来源"))
    );
    assert_eq!(forward_label(&None), Json::Null);
}

#[test]
fn formatting_goes_along() {
    let placed = |kind: &str| {
        Json::object()
            .with("type", Json::text(kind))
            .with("offset", Json::number(1))
            .with("length", Json::number(2))
    };
    assert_eq!(convert_entity(&entity(EntityStyle::Strike)), Some(placed("strikethrough")));
    assert_eq!(
        convert_entity(&entity(EntityStyle::TextUrl("https://e".to_owned()))),
        Some(placed("text_link").with("url", Json::text("https://e")))
    );
    assert_eq!(
        convert_entity(&entity(EntityStyle::CustomEmoji(-5))),
        Some(placed("custom_emoji").with("custom_emoji_id", Json::text("-5")))
    );
    assert_eq!(
        convert_entity(&entity(EntityStyle::MentionName(9))),
        Some(placed("text_mention").with("user", Json::object().with("id", Json::number(9))))
    );
    assert_eq!(convert_entity(&entity(EntityStyle::Blockquote { collapsed: true })), None);
}

#[test]
fn the_selected_part_is_quoted() {
    let header = |quote: bool, text: Option<&str>| {
        Some(ReplyHeader {
            quote,
            quote_text: text.map(str::to_owned),
            quote_entities: Some(vec![entity(EntityStyle::Bold)]),
        })
    };
    let part = selected_reply_content(header(true, Some("part"))).unwrap();
    assert_eq!(part.text, "part");
    assert_eq!(part.entities.len(), 1);
    assert!(selected_reply_content(header(false, Some("part"))).is_none());
    assert!(selected_reply_content(header(true, None)).is_none());
    assert!(selected_reply_content(None).is_none());
    assert_eq!(quoted_content(true, Some(part), content("own")).text, "part");
    let other = selected_reply_content(header(true, Some("part")));
    assert_eq!(quoted_content(false, other, content("own")).text, "own");

    let sender = sender_view(&None, &user(5, "F"));
    let block = build_reply_block(header(true, Some("part")), &sender, content("own")).unwrap();
    assert_eq!(block.get("text"), Some(&Json::text("part")));
    assert_eq!(block.get("chatId"), Some(&Json::number(5)));
    let own = build_reply_block(None, &sender, content("own")).unwrap();
    assert_eq!(own.get("text"), Some(&Json::text("own")));
    assert!(build_reply_block(None, &sender, content("")).is_none());
}

#[test]
fn a_writer_is_shown_once_in_a_row() {
    assert_eq!(shown_senders(&[1, 1, 2, 1]), [true, false, true, true]);
    let item = |id: i64| QuoteItem {
        sender: sender_view(&None, &user(id, "F")),
        photo: Some("data:x".to_owned()),
        media: None,
        content: content("text"),
        reply: None,
        forward: Json::Null,
    };
    let body = quote_payload(QuoteOutput::Stories, "#000", vec![item(1), item(1), item(2)]);
    assert_eq!(body.get("type"), Some(&Json::text("stories")));
    assert_eq!(body.get("format"), Some(&Json::text("png")));
    assert_eq!(body.get("width"), Some(&Json::number(360)));
    assert_eq!(body.get("backgroundColor"), Some(&Json::text("#000")));
    let from = |i: &str, key: &str| body.pointer(&["messages", i, "from", key]).cloned_text();
    assert_eq!(from("0", "name"), "F L");
    assert_eq!(from("1", "name"), "");
    assert_eq!(from("2", "name"), "F L");
    assert_eq!(body.pointer(&["messages", "1", "avatar"]), Some(&Json::Bool(false)));
    assert_eq!(body.pointer(&["messages", "1", "from", "photo"]), Some(&Json::Null));
    assert_eq!(
        body.pointer(&["messages", "2", "from", "photo", "url"]),
        Some(&Json::text("data:x"))
    );
}

trait ClonedText {
    fn cloned_text(self) -> String;
}

impl ClonedText for Option<&Json> {
    fn cloned_text(self) -> String {
        self.and_then(Json::as_str).cloned().unwrap()
    }
}

#[test]
fn the_renderer_is_tried_with_one_message() {
    let body = check_payload(true, "#123").ok().unwrap();
    assert_eq!(
        body.pointer(&["messages", "0", "text"]),
        Some(&Json::text("telebot 中文字体检查：你好，世界！"))
    );
    assert_eq!(body.get("scale"), Some(&Json::number(2)));
    assert!(check_payload(false, "#123").is_err());
}

#[test]
fn formats_are_told_by_how_they_begin() {
    assert!(is_webp(&webp()));
    assert!(!is_webp(b"RIFF"));
    assert!(is_webm(&[0x1a, 0x45, 0xdf, 0xa3, 0]));
    assert!(is_png(&PNG_HEAD));
    assert!(!is_png(&webp()));
    assert!(validate_quote_format(&PNG_HEAD, QuoteOutput::Stories).is_ok());
    assert_eq!(
        validate_quote_format(&PNG_HEAD, QuoteOutput::Sticker).unwrap_err().message,
        "quote API did not return WebP/WebM"
    );
    assert_eq!(
        validate_quote_format(&webp(), QuoteOutput::Image).unwrap_err().message,
        "quote API did not return PNG"
    );
    assert!(check_photo(&PNG_HEAD).is_ok());
    assert!(check_photo(&webp()).is_err());
}

#[test]
fn answers_of_the_renderer_are_checked() {
    let message = |bytes: &[u8]| {
        decode_quote_response(bytes, QuoteOutput::Sticker).unwrap_err().message
    };
    assert_eq!(message(b""), "quote API returned an empty or oversized response");
    assert!(message(b"<html>").starts_with("quote API returned an unsupported response: "));
    assert_eq!(message(b"{}"), "quote API JSON response did not contain an image");
    assert!(message(b"{\"image\": \"*\"}")
        .starts_with("quote API returned invalid base64 image data: "));
    assert_eq!(
        message(b"{\"image\": \"x,\"}"),
        "quote API returned an empty or oversized image"
    );
    assert_eq!(message(b"{\"image\": \"QUJD\"}"), "quote API did not return WebP/WebM");
    assert_eq!(message(&PNG_HEAD), "quote API did not return WebP/WebM");
    assert_eq!(accept_image(Ok(webp()), QuoteOutput::Sticker).unwrap(), webp());
    let wrapped = Json::object().with("image", Json::text("a,b,QUJD"));
    assert_eq!(unwrap_image(Ok(wrapped)).unwrap(), "QUJD");
}

#[test]
fn a_request_is_made_twice_at_most() {
    let output = QuoteOutput::Sticker;
    let answered = |status: u16, body: Vec<u8>| RenderEvent::Answered { status, body };
    let failed = |action: RenderAction| match action {
        RenderAction::Finish(Err(e)) => e.message,
        _ => panic!("an error"),
    };
    assert!(matches!(
        next_render_step(true, RenderEvent::TimedOut(20), output),
        RenderAction::Again
    ));
    assert!(matches!(
        next_render_step(true, answered(429, Vec::new()), output),
        RenderAction::Again
    ));
    assert_eq!(
        failed(next_render_step(true, answered(404, Vec::new()), output)),
        "quote API returned HTTP 404"
    );
    assert_eq!(
        failed(next_render_step(false, answered(503, Vec::new()), output)),
        "quote API returned HTTP 503"
    );
    assert_eq!(
        failed(next_render_step(false, RenderEvent::TimedOut(20), output)),
        "quote API timed out after 20s"
    );
    assert_eq!(
        failed(next_render_step(false, RenderEvent::TooLarge, output)),
        "quote API response is too large"
    );
    assert_eq!(
        failed(next_render_step(false, RenderEvent::Failed("x".to_owned()), output)),
        "x"
    );
    match next_render_step(true, answered(200, webp()), output) {
        RenderAction::Finish(Ok(bytes)) => assert_eq!(bytes, webp()),
        _ => panic!("a picture"),
    }
    assert!(response_fits(12 * 1024 * 1024));
    assert!(!response_fits(12 * 1024 * 1024 + 1));
}

fn in_png(image: image::DynamicImage) -> Vec<u8> {
    let mut cursor = std::io::Cursor::new(Vec::new());
    image.write_to(&mut cursor, image::ImageFormat::Png).unwrap();
    cursor.into_inner()
}

fn png(width: u32, height: u32) -> Vec<u8> {
    in_png(image::DynamicImage::new_rgb8(width, height))
}

#[test]
fn photos_are_made_to_fit_a_sticker_set() {
    let made = normalize_photo_sticker(&png(1024, 256)).ok().unwrap();
    assert_eq!((made.width, made.height), (512, 128));
    assert!(is_png(&made.bytes));
    let error = normalize_photo_sticker(b"no image").err().unwrap();
    assert!(error.message.starts_with("无法解码图片: "));
    assert!(fits_sticker_set(500 * 1024, 512));
    assert!(!fits_sticker_set(500 * 1024 + 1, 384));
    assert!(fits_sticker_set(500 * 1024 + 1, 320));
    let deep = in_png(image::DynamicImage::new_luma16(300, 1200));
    let made = normalize_photo_sticker(&deep).ok().unwrap();
    assert_eq!((made.width, made.height), (128, 512));
}

#[test]
fn images_shrink_while_their_samples_add_up() {
    let grey = |width: u32, height: u32, pixel_bytes: u8| ImageShape {
        width,
        height,
        pixel_bytes,
        channels: 1,
    };
    assert!(can_shrink(grey(6000, 4000, 2), 512));
    assert!(can_shrink(grey(6000, 4000, 2), 320));
    assert!(!can_shrink(grey(110_000, 320, 2), 512));
    assert!(!can_shrink(grey(320, 110_000, 2), 512));
    assert!(can_shrink(grey(110_000, 320, 1), 512));
    assert!(can_shrink(grey(23_000, 23_000, 1), 320));
    assert!(can_shrink(grey(1, 1, 2), 512));
    assert!(!can_shrink(grey(1, 1, 1), 1));
    assert!(!can_shrink(grey(1, 1, 1), u32::MAX));
    let color = ImageShape { width: 20_000, height: 20_000, pixel_bytes: 8, channels: 4 };
    assert!(can_shrink(color, 512));
    assert!(can_shrink(ImageShape { pixel_bytes: 16, ..color }, 512));
}

#[test]
fn stickers_are_sent_in_their_shape() {
    let video = sticker_shape(&[0x1a, 0x45, 0xdf, 0xa3]);
    assert!(video.video);
    assert_eq!((video.width, video.height), (512, 512));
    assert_eq!(video.file_name, "quote.webm");
    let unknown = sticker_shape(&webp());
    assert_eq!((unknown.width, unknown.height), (512, 768));
    assert_eq!(unknown.mime_type, "image/webp");
    let known = sticker_shape(&png(30, 20));
    assert_eq!((known.width, known.height), (30, 20));
}

#[test]
fn media_goes_into_a_quote() {
    assert_eq!(quote_media_type(&MediaKind::Photo).as_deref(), Some("image/jpeg"));
    let video = MediaKind::Document(Some("video/mp4".to_owned()));
    assert_eq!(quote_media_type(&video).as_deref(), Some("video/mp4"));
    assert_eq!(quote_media_type(&MediaKind::Document(None)), None);
    assert_eq!(quote_media_type(&MediaKind::Other), None);
    assert_eq!(
        file_data_url("image/png", b"image").as_deref(),
        Some("data:image/png;base64,aW1hZ2U=")
    );
    assert_eq!(file_data_url("image/png", b""), None);
    assert!(media_fits(12 * 1024 * 1024));
    assert!(!media_fits(12 * 1024 * 1024 + 1));
}

#[test]
fn pictures_of_people_are_looked_for_and_kept() {
    assert_eq!(next_avatar_step(AvatarStep::Inspect, false), AvatarStep::Refresh);
    assert_eq!(next_avatar_step(AvatarStep::Refresh, false), AvatarStep::List);
    assert_eq!(next_avatar_step(AvatarStep::Download, false), AvatarStep::List);
    assert_eq!(next_avatar_step(AvatarStep::DownloadListed, true), AvatarStep::Use);
    assert_eq!(next_avatar_step(AvatarStep::List, false), AvatarStep::GiveUp);
    let mut cache = AvatarCache::new();
    for peer in 0..128 {
        cache.keep(peer, "data:x");
    }
    assert_eq!(cache.get(5).as_deref(), Some("data:x"));
    cache.keep(5, "data:y");
    assert_eq!(cache.get(5).as_deref(), Some("data:y"));
    assert_eq!(cache.get(6).as_deref(), Some("data:x"));
    cache.keep(500, "data:z");
    assert_eq!(cache.get(500).as_deref(), Some("data:z"));
    assert_eq!(cache.get(5), None);
}
