use telebot::settings::Settings;
use telebot::store::{
    plan_turn, quotes_to_forget, records_of_turns, AiHistoryEntry, QuoteHistoryEntry,
};

#[test]
fn settings_round_trip() {
    let mut store = Settings::new();
    store.set_setting("quote.test", "value");
    assert_eq!(store.get_setting("quote.test").map(String::as_str), Some("value"));
    store.delete_settings_prefix("quote.");
    assert_eq!(store.get_setting("quote.test"), None);
}

#[test]
fn the_last_value_counts_and_others_stay() {
    let mut store = Settings::new();
    store.set_setting("a", "1");
    store.set_setting("b", "2");
    store.set_setting("a", "3");
    assert_eq!(store.get_setting("a").map(String::as_str), Some("3"));
    assert_eq!(store.delete_setting("a"), 1);
    assert_eq!(store.delete_setting("a"), 0);
    assert_eq!(store.get_setting("a"), None);
    assert_eq!(store.get_setting("b").map(String::as_str), Some("2"));
    assert_eq!(store.delete_settings_prefix("quote."), 0);
    assert_eq!(store.get_setting("b").map(String::as_str), Some("2"));
}

#[test]
fn settings_with_a_prefix_are_counted_once() {
    let mut store = Settings::new();
    for (key, value) in [("ai.a", "1"), ("quote.a", "2"), ("ai.a", "3"), ("ai.b", "4"), ("ai", "5")] {
        store.set_setting(key, value);
    }
    assert_eq!(store.delete_settings_prefix("ai."), 2);
    assert_eq!(store.get_setting("ai.a"), None);
    assert_eq!(store.get_setting("ai").map(String::as_str), Some("5"));
    assert_eq!(store.get_setting("quote.a").map(String::as_str), Some("2"));
}

fn said(role: &str, content: &str) -> AiHistoryEntry {
    AiHistoryEntry { role: role.to_owned(), content: content.to_owned() }
}

struct Record {
    id: i64,
    scope: String,
    entry: AiHistoryEntry,
}

fn append(table: &mut Vec<Record>, scope: &str, user: &str, assistant: &str, max_turns: usize) {
    let ids: Vec<i64> = table.iter().filter(|r| r.scope == scope).map(|r| r.id).collect();
    let plan = plan_turn(&ids, user, assistant, max_turns);
    for entry in plan.added {
        let id = table.last().map_or(1, |r| r.id + 1);
        table.push(Record { id, scope: scope.to_owned(), entry });
    }
    table.retain(|r| !plan.forgotten.contains(&r.id));
}

fn history(table: &[Record], scope: &str) -> Vec<AiHistoryEntry> {
    table.iter().filter(|r| r.scope == scope).map(|r| r.entry.clone()).collect()
}

#[test]
fn ai_history_is_ordered_and_pruned_by_turn() {
    let mut table = Vec::new();
    append(&mut table, "chat", "u1", "a1", 1);
    append(&mut table, "chat", "u2", "a2", 1);
    assert_eq!(history(&table, "chat"), vec![said("user", "u2"), said("assistant", "a2")]);
}

#[test]
fn a_conversation_keeps_its_last_turns() {
    assert_eq!(records_of_turns(6), 12);
    let mut table = Vec::new();
    append(&mut table, "chat", "u1", "a1", 2);
    append(&mut table, "chat", "u2", "a2", 2);
    append(&mut table, "chat", "u3", "a3", 2);
    let kept = vec![
        said("user", "u2"),
        said("assistant", "a2"),
        said("user", "u3"),
        said("assistant", "a3"),
    ];
    assert_eq!(history(&table, "chat"), kept);
    append(&mut table, "chat", "u4", "a4", 0);
    assert_eq!(history(&table, "chat"), kept);
    append(&mut table, "chat", "u5", "a5", usize::MAX);
    assert_eq!(history(&table, "chat").len(), 6);
}

#[test]
fn a_turn_leaves_other_conversations_alone() {
    let mut table = Vec::new();
    append(&mut table, "one", "u1", "a1", 1);
    append(&mut table, "other", "x1", "y1", 1);
    append(&mut table, "one", "u2", "a2", 1);
    append(&mut table, "one", "u3", "a3", 1);
    assert_eq!(history(&table, "one"), vec![said("user", "u3"), said("assistant", "a3")]);
    assert_eq!(history(&table, "other"), vec![said("user", "x1"), said("assistant", "y1")]);
}

fn add_quote(
    archive: &mut Vec<QuoteHistoryEntry>,
    (output, preview, media): (&str, &str, &[u8]),
    max_items: usize,
    max_bytes: usize,
) -> i64 {
    let id = archive.last().map_or(1, |entry| entry.id + 1);
    archive.push(QuoteHistoryEntry {
        id,
        output: output.to_owned(),
        preview: preview.to_owned(),
        media: media.to_vec(),
        created_at: 0,
    });
    let sizes: Vec<usize> = archive.iter().map(|entry| entry.media.len()).collect();
    archive.drain(..quotes_to_forget(&sizes, max_items, max_bytes));
    id
}

#[test]
fn quote_history_round_trip_and_count_limit() {
    let mut archive = Vec::new();
    let first = add_quote(&mut archive, ("sticker", "first", b"one"), 1, 1024);
    let second = add_quote(&mut archive, ("image", "second", b"two"), 1, 1024);
    assert!(!archive.iter().any(|entry| entry.id == first));
    let entry = archive.iter().find(|entry| entry.id == second).unwrap();
    assert_eq!(entry.output, "image");
    assert_eq!(entry.media, b"two");
    assert_eq!(archive.len(), 1);
}

#[test]
fn the_archive_forgets_the_oldest_quotes() {
    assert_eq!(quotes_to_forget(&[3, 3], 1, 1024), 1);
    assert_eq!(quotes_to_forget(&[3, 3], 2, 1024), 0);
    assert_eq!(quotes_to_forget(&[600, 600], 10, 1000), 1);
    assert_eq!(quotes_to_forget(&[], 1, 1024), 0);
}

#[test]
fn a_new_quote_stays_if_there_is_room_for_it() {
    assert_eq!(quotes_to_forget(&[600, 600, 1000], 10, 1000), 2);
    assert_eq!(quotes_to_forget(&[600, 600, 1001], 10, 1000), 3);
    assert_eq!(quotes_to_forget(&[600], 0, 1000), 1);
}
