use telebot::ai_runtime::AiProgressConfig;
use telebot::checks::{
    check_authorized, check_expandable, check_guide, check_image_answer, check_progress_change,
    check_quote_output, check_reply_answer, check_smoke_image, format_answer, is_quote_output,
    FORMAT_HEAD, TRIED_PROGRESS,
};
use telebot::markdown::ai_rich_response;
use telebot::outgoing::entities_for_range;
use telebot::split::split_telegram_ranges;

#[test]
fn images_are_tried_up_to_a_size() {
    assert!(check_smoke_image(1).is_ok());
    assert!(check_smoke_image(8 * 1024 * 1024).is_ok());
    assert_eq!(
        check_smoke_image(0).unwrap_err().message,
        "Telegram image smoke input must be between 1 byte and 8 MB"
    );
    assert!(check_smoke_image(8 * 1024 * 1024 + 1).is_err());
    assert!(check_authorized(true).is_ok());
    assert!(check_authorized(false).is_err());
}

#[test]
fn answers_are_judged_by_what_they_hold() {
    assert!(check_image_answer(Some("Q: x\nA: y\n🍀 Powered by Gemini")).is_ok());
    assert!(check_image_answer(Some("A: y")).is_err());
    assert!(check_image_answer(None).is_err());
    assert!(check_reply_answer(Some("7320\n🍀 Powered by Gemini")).is_ok());
    assert!(check_reply_answer(Some("联网搜索 7320\n🍀 Powered by Gemini")).is_err());
    assert!(check_reply_answer(None).is_err());
    assert!(check_guide(Some(
        "TeleBot AI 帮助 回复消息与图片 动态配置（仅限收藏夹） config reload"
    ))
    .is_ok());
    assert!(check_guide(Some("TeleBot AI 帮助")).is_err());
}

#[test]
fn a_change_must_be_said_and_be_in_force() {
    let mut progress = AiProgressConfig {
        default_search: true,
        searching: TRIED_PROGRESS.to_owned(),
        thinking: String::new(),
    };
    assert!(check_progress_change(Some("✅ 进度文案已更新"), &progress).is_ok());
    assert!(check_progress_change(None, &progress).is_err());
    progress.searching = "other".to_owned();
    assert!(check_progress_change(Some("✅ 进度文案已更新"), &progress).is_err());
}

#[test]
fn the_sticker_answers_the_message() {
    assert!(is_quote_output(12, Some(10), true, 11, 10));
    assert!(!is_quote_output(11, Some(10), true, 11, 10));
    assert!(!is_quote_output(12, Some(9), true, 11, 10));
    assert!(!is_quote_output(12, None, true, 11, 10));
    assert!(!is_quote_output(12, Some(10), false, 11, 10));
    assert!(check_quote_output(true).is_ok());
    assert!(check_quote_output(false).is_err());
}

#[test]
fn a_long_answer_can_be_folded() {
    let answer = format_answer();
    assert!(answer.starts_with(FORMAT_HEAD));
    let rich = ai_rich_response("一次性服务器验收", &answer, "telebot", 400);
    let range = split_telegram_ranges(&rich.text, 3800)[0];
    assert!(check_expandable(&entities_for_range(&rich, range)).is_ok());
    assert!(check_expandable(&Vec::new()).is_err());
}
