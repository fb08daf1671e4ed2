//! Trying the program on a live account: what is sent, and what a good outcome looks like.

use crate::ai_runtime::AiProgressConfig;
use crate::failure;
use crate::failure::Failure;
use crate::outgoing::EntityStyle;
use crate::outgoing::MessageEntity;
use crate::scan;
use crate::text;
use vstd::prelude::*;

verus! {

/// The largest image that is tried, in bytes.
pub const MAX_TELEGRAM_SMOKE_IMAGE_BYTES: u64 = 8_388_608;

pub const SIGNATURE: &'static str = "🍀 Powered by Gemini";

/// The message that a question is tried on.
pub const AI_SOURCE: &'static str = "请只回答 7319 加 1 的结果。";

/// The message that a sticker is tried on.
pub const QUOTE_SOURCE: &'static str = "telebot 中文语录验收：你好，世界！";

/// The text that is shown while searching, as it is changed and looked for.
pub const TRIED_PROGRESS: &'static str = "🔍 配置化搜索测试";

/// The answer that the formatting is tried on, but for a sentence that follows twenty times.
pub const FORMAT_HEAD: &'static str = "## 富文本检查\n\n- **粗体**、*斜体*、`代码`\n- [链接](https://example.com)\n\n";

pub const FORMAT_SENTENCE: &'static str = "这是一段用于确认 Telegram 可展开引用实体的文字。";

/// A good outcome, or what is wrong with it.
pub open spec fn judged(good: bool, message: Seq<char>) -> Result<(), Seq<char>> {
    if good {
        Ok(())
    } else {
        Err(message)
    }
}

fn judge(good: bool, message: &str) -> (r: Result<(), Failure>)
    ensures
        failure::outcome(r) == judged(good, message@),
{
    if good {
        Ok(())
    } else {
        Err(Failure::new(message))
    }
}

/// Accepts an image of so many bytes.
pub fn check_smoke_image(bytes: u64) -> (r: Result<(), Failure>)
    ensures
        failure::outcome(r) == judged(
            0 < bytes <= MAX_TELEGRAM_SMOKE_IMAGE_BYTES,
            "Telegram image smoke input must be between 1 byte and 8 MB"@,
        ),
{
    judge(
        0 < bytes && bytes <= MAX_TELEGRAM_SMOKE_IMAGE_BYTES,
        "Telegram image smoke input must be between 1 byte and 8 MB",
    )
}

pub fn check_authorized(authorized: bool) -> (r: Result<(), Failure>)
    ensures
        failure::outcome(r) == judged(authorized, "Telegram session is not authorized"@),
{
    judge(authorized, "Telegram session is not authorized")
}

/// Whether the answer about an image looks like one.
pub open spec fn is_image_answer(s: Seq<char>) -> bool {
    scan::has(s, "A:"@) && scan::ends(s, SIGNATURE@)
}

/// Judges the answer about an image, if one can be found.
pub fn check_image_answer(answer: Option<&str>) -> (r: Result<(), Failure>)
    ensures
        failure::outcome(r) == judged(
            match answer {
                Some(s) => is_image_answer(s@),
                None => false,
            },
            "AI image smoke test did not produce a Gemini answer"@,
        ),
{
    let good = match answer {
        Some(s) => scan::contains(s, "A:") && scan::ends_with(s, SIGNATURE),
        None => false,
    };
    judge(good, "AI image smoke test did not produce a Gemini answer")
}

/// Whether the answer to a question shows that the message it was about was read.
pub open spec fn is_reply_answer(s: Seq<char>) -> bool {
    scan::has(s, "7320"@) && scan::ends(s, SIGNATURE@) && !scan::has(s, "联网搜索"@) && !scan::has(
        s,
        "普通回答"@,
    )
}

/// Judges the answer to a question about a message, if one can be found.
pub fn check_reply_answer(answer: Option<&str>) -> (r: Result<(), Failure>)
    ensures
        failure::outcome(r) == judged(
            match answer {
                Some(s) => is_reply_answer(s@),
                None => false,
            },
            "AI reply smoke test did not use the replied message"@,
        ),
{
    let good = match answer {
        Some(s) => scan::contains(s, "7320") && scan::ends_with(s, SIGNATURE) && !scan::contains(
            s,
            "联网搜索",
        ) && !scan::contains(s, "普通回答"),
        None => false,
    };
    judge(good, "AI reply smoke test did not use the replied message")
}

pub open spec fn is_guide(s: Seq<char>) -> bool {
    scan::has(s, "TeleBot AI 帮助"@) && scan::has(s, "回复消息与图片"@) && scan::has(
        s,
        "动态配置（仅限收藏夹）"@,
    ) && scan::has(s, "config reload"@)
}

/// Judges the guide, if it can be found.
pub fn check_guide(answer: Option<&str>) -> (r: Result<(), Failure>)
    ensures
        failure::outcome(r) == judged(
            match answer {
                Some(s) => is_guide(s@),
                None => false,
            },
            "AI help smoke test did not contain the detailed guide"@,
        ),
{
    let good = match answer {
        Some(s) => scan::contains(s, "TeleBot AI 帮助") && scan::contains(s, "回复消息与图片")
            && scan::contains(s, "动态配置（仅限收藏夹）") && scan::contains(
            s,
            "config reload",
        ),
        None => false,
    };
    judge(good, "AI help smoke test did not contain the detailed guide")
}

/// Judges a change of the text that is shown while searching.
pub fn check_progress_change(answer: Option<&str>, progress: &AiProgressConfig) -> (r: Result<
    (),
    Failure,
>)
    ensures
        failure::outcome(r) == judged(
            (match answer {
                Some(s) => scan::has(s@, "进度文案已更新"@),
                None => false,
            }) && progress@.searching == TRIED_PROGRESS@,
            "AI dynamic message smoke test did not update the live progress configuration"@,
        ),
{
    let said = match answer {
        Some(s) => scan::contains(s, "进度文案已更新"),
        None => false,
    };
    judge(
        said && text::same(progress.searching.as_str(), TRIED_PROGRESS),
        "AI dynamic message smoke test did not update the live progress configuration",
    )
}

/// Whether a message is the sticker that was asked for: it came after the command, answers the message
/// that the command is about, and is a sticker.
pub fn is_quote_output(
    message_id: i32,
    reply_to: Option<i32>,
    sticker: bool,
    command_id: i32,
    source_id: i32,
) -> (r: bool)
    ensures
        r == (message_id > command_id && reply_to == Some(source_id) && sticker),
{
    let answers = match reply_to {
        Some(id) => id == source_id,
        None => false,
    };
    message_id > command_id && answers && sticker
}

pub fn check_quote_output(found: bool) -> (r: Result<(), Failure>)
    ensures
        failure::outcome(r) == judged(
            found,
            "quote smoke test did not produce a Telegram sticker reply"@,
        ),
{
    judge(found, "quote smoke test did not produce a Telegram sticker reply")
}

/// The answer that the formatting is tried on.
pub fn format_answer() -> (r: String)
    ensures
        r@ == FORMAT_HEAD@ + scan::repeated(FORMAT_SENTENCE@, 20),
{
    let mut out = FORMAT_HEAD.to_owned();
    out.append(scan::repeat(FORMAT_SENTENCE, 20).as_str());
    out
}

pub open spec fn is_expandable(style: EntityStyle<String>) -> bool {
    style matches EntityStyle::Blockquote { collapsed } && collapsed
}

/// Judges the formatting that came back: whether a quote in it can be folded.
pub fn check_expandable(entities: &Vec<MessageEntity>) -> (r: Result<(), Failure>)
    ensures
        failure::outcome(r) == judged(
            exists|i: int|
                0 <= i < entities@.len() && is_expandable((#[trigger] entities@[i]).style),
            "Telegram did not preserve the expandable blockquote entity"@,
        ),
{
    let n: usize = entities.len();
    let mut found: bool = false;
    let mut i: usize = 0;
    while i < n
        invariant
            i <= n,
            n == entities@.len(),
            found == exists|j: int|
                0 <= j < i && is_expandable((#[trigger] entities@[j]).style),
        decreases n - i,
    {
        if let EntityStyle::Blockquote { collapsed } = &entities[i].style {
            if *collapsed {
                proof {
                    assert(is_expandable(entities@[i as int].style));
                }
                found = true;
            }
        }
        i = i + 1;
    }
    judge(found, "Telegram did not preserve the expandable blockquote entity")
}

/// What the checks of a running assistant look for.
pub proof fn law_checked_answers(s: Seq<char>, message: Seq<char>)
    ensures
        MAX_TELEGRAM_SMOKE_IMAGE_BYTES == 8 * 1024 * 1024,
        is_image_answer(s) <==> scan::has(s, "A:"@) && scan::ends(s, "🍀 Powered by Gemini"@),
        scan::has(s, "联网搜索"@) || scan::has(s, "普通回答"@) ==> !is_reply_answer(s),
        !scan::has(s, "7320"@) || !scan::ends(s, "🍀 Powered by Gemini"@) ==> !is_reply_answer(s),
        scan::has(s, "7320"@) && scan::ends(s, "🍀 Powered by Gemini"@) && !scan::has(
            s,
            "联网搜索"@,
        ) && !scan::has(s, "普通回答"@) ==> is_reply_answer(s),
        is_guide(s) <==> scan::has(s, "TeleBot AI 帮助"@) && scan::has(s, "回复消息与图片"@)
            && scan::has(s, "动态配置（仅限收藏夹）"@) && scan::has(s, "config reload"@),
        is_expandable(EntityStyle::Blockquote { collapsed: true }),
        !is_expandable(EntityStyle::Blockquote { collapsed: false }),
        judged(true, message) == Ok::<(), Seq<char>>(()),
        judged(false, message) == Err::<(), Seq<char>>(message),
{
}

} // verus!
