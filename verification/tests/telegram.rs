use telebot::markdown::{ai_rich_response, collapse_threshold, telegram_markdown};
use telebot::outgoing::{
    entities_for_range, is_message_not_modified, range_text, response_chunks, rich_messages,
    EntityStyle,
};
use telebot::rich::{is_safe_link, RichEntityKind};
use telebot::split::{split_telegram_ranges, split_telegram_text};

#[test]
fn repeated_progress_edit_is_idempotent() {
    assert!(is_message_not_modified(
        "rpc error 400: MESSAGE_NOT_MODIFIED caused by messages.editMessage"
    ));
    assert!(!is_message_not_modified("rpc error 400: MESSAGE_ID_INVALID"));
}

#[test]
fn chunks_respect_utf16_limit() {
    let text = "😀".repeat(3000);
    let chunks = split_telegram_text(&text, 3900);
    assert!(chunks.len() > 1);
    assert!(chunks.iter().all(|chunk| chunk.encode_utf16().count() <= 3900));
    assert_eq!(chunks.concat(), text);
}

#[test]
fn markdown_keeps_common_ai_formatting() {
    let rich = telegram_markdown("# 标题\n\n- **重点**\n- `code`\n\n```rust\nfn main() {}\n```");
    assert!(rich.text.contains("标题"));
    assert!(rich.text.contains("• 重点"));
    assert!(rich.text.contains("fn main()"));
    assert!(rich.entities.iter().any(|entity| matches!(entity.kind, RichEntityKind::Bold)));
    assert!(rich
        .entities
        .iter()
        .any(|entity| matches!(entity.kind, RichEntityKind::Pre(ref lang) if lang == "rust")));
}

#[test]
fn long_ai_answer_uses_expandable_blockquote() {
    let rich = ai_rich_response("问题", &"很长".repeat(500), "Gemini", 600);
    assert!(rich.text.ends_with("🍀 Powered by Gemini"));
    assert!(!rich.text.contains("联网搜索"));
    assert!(!rich.text.contains("普通回答"));
    assert!(rich
        .entities
        .iter()
        .any(|entity| matches!(entity.kind, RichEntityKind::Blockquote { collapsed: true })));
}

#[test]
fn long_ai_question_uses_expandable_blockquote() {
    let rich = ai_rich_response(&"question ".repeat(100), "short answer", "Gemini", 600);
    let collapsed = rich
        .entities
        .iter()
        .filter(|entity| matches!(entity.kind, RichEntityKind::Blockquote { collapsed: true }))
        .count();
    assert_eq!(collapsed, 1);
}

#[test]
fn rich_chunks_clip_entities_to_utf16_boundaries() {
    let rich = ai_rich_response("问题", &"😀内容".repeat(2000), "Gemini", 100);
    let ranges = split_telegram_ranges(&rich.text, 500);
    assert!(ranges.len() > 1);
    for range in ranges {
        let chunk_len = range.utf16_end - range.utf16_start;
        assert!(chunk_len <= 500);
        for entity in entities_for_range(&rich, range) {
            match entity.style {
                EntityStyle::Bold | EntityStyle::Italic | EntityStyle::Blockquote { .. } => {}
                _ => continue,
            }
            assert!(entity.offset >= 0 && entity.length > 0);
            assert!(entity.offset as usize + entity.length as usize <= chunk_len);
        }
    }
}

#[test]
fn markdown_is_rendered_exactly() {
    let rich = telegram_markdown("**粗**和*斜* [链接](https://example.com)\n\n1. 一\n2. 二");
    assert_eq!(rich.text, "粗和斜 链接\n\n1. 一\n2. 二");
    let bold = &rich.entities[0];
    assert!(matches!(bold.kind, RichEntityKind::Bold));
    assert_eq!((bold.offset, bold.length), (0, 1));
    assert!(rich.entities.iter().any(|entity| matches!(
        entity.kind,
        RichEntityKind::TextUrl(ref url) if url == "https://example.com"
    )));
}

#[test]
fn links_lead_to_the_web_only() {
    assert!(is_safe_link("https://example.com"));
    assert!(!is_safe_link("javascript:alert(1)"));
    let rich = telegram_markdown("[x](javascript:alert(1))");
    assert!(!rich.entities.iter().any(|e| matches!(e.kind, RichEntityKind::TextUrl(_))));
}

#[test]
fn a_short_response_is_one_message() {
    let rich = ai_rich_response("问题", "答案", "Gemini", usize::MAX);
    let messages = rich_messages(&rich, 7);
    assert_eq!(messages.len(), 1);
    assert_eq!(messages[0].text, rich.text);
    assert_eq!(messages[0].reply_to, None);
    assert_eq!(response_chunks("一行").len(), 1);
}

#[test]
fn a_long_response_is_several_messages_that_make_up_the_whole() {
    let rich = ai_rich_response("问题", &"段落内容。".repeat(3000), "Gemini", 400);
    let messages = rich_messages(&rich, 7);
    assert!(messages.len() > 1);
    let all: String = messages.iter().map(|m| m.text.as_str()).collect();
    assert_eq!(all, rich.text);
    assert!(messages[1..].iter().all(|m| m.reply_to == Some(7)));
    for range in split_telegram_ranges(&rich.text, 3800) {
        let part = range_text(&rich.text, range);
        assert!(rich.text.contains(&part));
        assert!(part.encode_utf16().count() <= 3800);
    }
}

#[test]
fn chunks_break_at_lines_where_they_can() {
    let line = "x".repeat(60);
    let text = format!("{line}\n{line}\n{line}");
    let chunks = split_telegram_text(&text, 100);
    assert_eq!(chunks, [line.clone(), line.clone(), line]);
}

#[test]
fn questions_and_answers_fold_unless_switched_off() {
    let folded = |on: bool| -> Vec<(usize, usize)> {
        let rich = ai_rich_response("Hi", "Yes", "Gemini", collapse_threshold(on));
        rich.entities
            .iter()
            .filter(|entity| entity.kind == RichEntityKind::Blockquote { collapsed: true })
            .map(|entity| (entity.offset, entity.length))
            .collect()
    };
    assert_eq!(collapse_threshold(true), 1);
    assert_eq!(folded(true), [(3, 2), (10, 3)]);
    assert_eq!(collapse_threshold(false), usize::MAX);
    assert!(folded(false).is_empty());
}

#[test]
fn quotes_fold_from_a_length_on() {
    let quotes = |threshold: usize| -> Vec<(usize, usize, bool)> {
        let rich = ai_rich_response(" Hi ", "Yes😀", "Gemini", threshold);
        rich.entities
            .iter()
            .filter_map(|entity| match entity.kind {
                RichEntityKind::Blockquote { collapsed } => {
                    Some((entity.offset, entity.length, collapsed))
                }
                _ => None,
            })
            .collect()
    };
    assert_eq!(quotes(0), [(3, 2, true), (10, 5, true)]);
    assert_eq!(quotes(2), [(3, 2, true), (10, 5, true)]);
    assert_eq!(quotes(3), [(3, 2, false), (10, 5, true)]);
    assert_eq!(quotes(5), [(3, 2, false), (10, 5, true)]);
    assert_eq!(quotes(6), [(3, 2, false)]);
}

#[test]
fn headings_code_and_lists_keep_their_form() {
    let rich = telegram_markdown("## Plan\n\n3. one\n4. `two`\n\n- three\n\n```sh\nls\n```");
    assert_eq!(rich.text, "▌Plan\n\n3. one\n4. two\n\n• three\n\nls");
    let found: Vec<(usize, usize)> = rich.entities.iter().map(|e| (e.offset, e.length)).collect();
    assert_eq!(found, [(1, 4), (17, 3), (31, 2)]);
    assert_eq!(rich.entities[0].kind, RichEntityKind::Bold);
    assert_eq!(rich.entities[1].kind, RichEntityKind::Code);
    assert_eq!(rich.entities[2].kind, RichEntityKind::Pre("sh".to_owned()));
}
