use telebot::ai_runtime::AiProgressConfig;
use telebot::command::Command;
use telebot::failure::Failure;
use telebot::plugin::{ai_plugin, load_plugins, quote_plugin, Plugin, Router};
use telebot::updates::{
    command_belongs_to_self, command_progress_text, failure_reply, plugin_to_run,
    raw_command_candidates, user_facing_error, RawMessage, RawUpdate, RawUpdates, ShortChatMessage,
    ShortMessage, StartedCommands,
};

const SECOND: u128 = 1_000_000_000;

fn short_message(out: bool, user_id: i64, text: &str) -> RawUpdates {
    RawUpdates::ShortMessage(ShortMessage {
        outgoing: out,
        message_id: 123,
        date: 1,
        user_id,
        text: text.to_owned(),
    })
}

fn prefixes() -> Vec<String> {
    vec![".".to_owned(), "。".to_owned()]
}

fn message(outgoing: bool, peer_id: i64, from_id: Option<i64>, text: &str) -> RawMessage<String> {
    RawMessage { outgoing, message_id: 9, date: 1, peer_id, from_id, text: text.to_owned() }
}

fn command(name: &str, raw_args: &str) -> Command {
    Command {
        prefix: ".".to_owned(),
        name: name.to_owned(),
        raw_args: raw_args.to_owned(),
        args: raw_args.split_whitespace().map(str::to_owned).collect(),
    }
}

#[test]
fn accepts_self_commands_even_when_telegram_does_not_mark_them_outgoing() {
    assert!(command_belongs_to_self(false, true, false));
    assert!(command_belongs_to_self(false, false, true));
    assert!(command_belongs_to_self(true, false, false));
    assert!(!command_belongs_to_self(false, false, false));
}

#[test]
fn raw_fast_path_extracts_only_self_commands() {
    let candidates = raw_command_candidates(&short_message(true, 42, "。AI rust"), 42, &prefixes());
    assert_eq!(candidates.len(), 1);
    assert_eq!(candidates[0].command.name, "ai");
    assert_eq!(candidates[0].command.raw_args, "rust");

    assert!(
        raw_command_candidates(&short_message(false, 99, ".ai ignored"), 42, &prefixes()).is_empty()
    );
}

#[test]
fn conversations_have_the_numbers_that_telegram_gives_them() {
    let found = raw_command_candidates(&short_message(true, 77, ".ai x"), 42, &prefixes());
    assert_eq!((found[0].peer_id, found[0].message_id), (77, 123));
    assert!(raw_command_candidates(&short_message(true, 0, ".ai x"), 42, &prefixes()).is_empty());
    assert!(raw_command_candidates(&short_message(true, 1 << 40, ".ai x"), 42, &prefixes())
        .is_empty());

    let in_group = |chat_id: i64, from_id: i64, outgoing: bool| {
        RawUpdates::ShortChatMessage(ShortChatMessage {
            outgoing,
            message_id: 5,
            date: 1,
            chat_id,
            from_id,
            text: ".q 2".to_owned(),
        })
    };
    let found = raw_command_candidates(&in_group(88, 42, false), 42, &prefixes());
    assert_eq!(found[0].peer_id, -88);
    assert_eq!(found[0].command.args, ["2"]);
    assert!(raw_command_candidates(&in_group(88, 99, false), 42, &prefixes()).is_empty());
    assert_eq!(raw_command_candidates(&in_group(88, 99, true), 42, &prefixes()).len(), 1);
    assert!(raw_command_candidates(&in_group(0, 42, true), 42, &prefixes()).is_empty());
}

#[test]
fn only_messages_of_ones_own_among_many_are_taken() {
    let updates = RawUpdates::Updates(vec![
        RawUpdate::NewMessage(Some(message(false, -5, Some(99), ".ai other"))),
        RawUpdate::NewMessage(Some(message(false, -5, Some(42), ".ai mine"))),
        RawUpdate::NewMessage(None),
        RawUpdate::Other,
        RawUpdate::NewChannelMessage(Some(message(false, 42, None, ".q"))),
        RawUpdate::NewMessage(Some(message(true, -5, None, "no command"))),
    ]);
    let found = raw_command_candidates(&updates, 42, &prefixes());
    let names: Vec<&str> = found.iter().map(|c| c.command.name.as_str()).collect();
    assert_eq!(names, ["ai", "q"]);
    assert_eq!(found[0].command.raw_args, "mine");
    let one = RawUpdates::Short(RawUpdate::NewMessage(Some(message(true, -5, None, ".ai"))));
    assert_eq!(raw_command_candidates(&one, 42, &prefixes()).len(), 1);
    assert!(raw_command_candidates(&RawUpdates::Nothing, 42, &prefixes()).is_empty());
}

#[test]
fn fast_progress_redacts_keys_and_labels_history() {
    let searching = AiProgressConfig {
        default_search: true,
        searching: "🔎 自定义搜索进度".to_owned(),
        thinking: "💭 自定义思考进度".to_owned(),
    };
    let key_command = Command {
        prefix: ".".to_owned(),
        name: "ai".to_owned(),
        raw_args: "config key very-secret".to_owned(),
        args: vec!["config".to_owned(), "key".to_owned(), "very-secret".to_owned()],
    };
    assert_eq!(
        command_progress_text(&key_command, &searching),
        Some("🔐 正在安全更新 AI 配置…".to_owned())
    );

    let context_command = Command {
        prefix: ".".to_owned(),
        name: "ai".to_owned(),
        raw_args: "context 6".to_owned(),
        args: vec!["context".to_owned(), "6".to_owned()],
    };
    assert_eq!(command_progress_text(&context_command, &searching), None);

    let search_command = Command {
        prefix: ".".to_owned(),
        name: "ai".to_owned(),
        raw_args: "search rust".to_owned(),
        args: vec!["search".to_owned(), "rust".to_owned()],
    };
    assert_eq!(
        command_progress_text(&search_command, &searching),
        Some("🔎 自定义搜索进度".to_owned())
    );

    let history_command = Command {
        prefix: ".".to_owned(),
        name: "q".to_owned(),
        raw_args: "history 1".to_owned(),
        args: vec!["history".to_owned(), "1".to_owned()],
    };
    assert_eq!(
        command_progress_text(&history_command, &searching),
        Some("🗂️ 正在读取语录存档…".to_owned())
    );
}

#[test]
fn progress_follows_the_first_word() {
    let progress = AiProgressConfig {
        default_search: false,
        searching: "S".to_owned(),
        thinking: "T".to_owned(),
    };
    let shown = |name: &str, args: &str| command_progress_text(&command(name, args), &progress);
    assert_eq!(shown("ai", "why").as_deref(), Some("T"));
    assert_eq!(shown("ai", "S why").as_deref(), Some("S"));
    assert_eq!(shown("ai", "C why").as_deref(), Some("T"));
    assert_eq!(shown("ai", "CFG KEY x").as_deref(), Some("🔐 正在安全更新 AI 配置…"));
    assert_eq!(shown("ai", "config"), None);
    assert_eq!(shown("q", "S").as_deref(), Some("📦 正在保存到贴纸包…"));
    assert_eq!(shown("q", "help"), None);
    assert_eq!(shown("q", "").as_deref(), Some("🖼️ 正在生成语录贴纸…"));
    assert_eq!(shown("other", ""), None);
}

#[test]
fn a_command_that_comes_twice_runs_once() {
    let router = load_plugins(true, true).unwrap();
    let mut started = StartedCommands::new();
    assert_eq!(plugin_to_run(&router, &mut started, "ai", 1, 1, 0), Some(0));
    assert_eq!(plugin_to_run(&router, &mut started, "ai", 1, 1, 5 * SECOND), None);
    assert_eq!(plugin_to_run(&router, &mut started, "q", 1, 2, 5 * SECOND), Some(1));
    assert_eq!(plugin_to_run(&router, &mut started, "x", 1, 3, 5 * SECOND), None);
    assert_eq!(plugin_to_run(&router, &mut started, "ai", 2, 1, 6 * SECOND), Some(0));
    // The repetition was remembered too.
    assert_eq!(plugin_to_run(&router, &mut started, "ai", 1, 1, 604 * SECOND), None);
    assert_eq!(plugin_to_run(&router, &mut started, "ai", 1, 1, 1204 * SECOND), Some(0));
    assert_eq!(started.entries.len(), 1);
}

#[test]
fn errors_are_shown_in_short() {
    assert_eq!(user_facing_error(&Failure::new("x")), "x");
    assert_eq!(failure_reply(&Failure::caused("a", "b")), "❌ a: b");
    let long = user_facing_error(&Failure::of("字".repeat(900)));
    assert_eq!(long, format!("{}…", "字".repeat(800)));
}

#[test]
fn plugins_are_found_by_their_commands() {
    let router = load_plugins(true, true).unwrap();
    assert_eq!(router.plugin_for("ai"), Some(0));
    assert_eq!(router.plugin_for("q"), Some(1));
    assert_eq!(router.plugin_for("AI"), None);
    assert_eq!(router.registered_commands(), ["ai", "q"]);
    assert_eq!(load_plugins(false, true).unwrap().plugin_for("q"), Some(0));
    assert_eq!(load_plugins(false, false).unwrap().registered_commands(), Vec::<String>::new());
}

#[test]
fn a_command_has_one_plugin() {
    let mut router = Router::default();
    assert!(router.register(&quote_plugin()).is_ok());
    assert!(router.register(&ai_plugin()).is_ok());
    let other = Plugin {
        name: "other".to_owned(),
        commands: vec!["z".to_owned(), "ai".to_owned(), "never".to_owned()],
    };
    let error = router.register(&other).unwrap_err();
    assert_eq!(error.message, "command ai is registered by both ai and other");
    assert_eq!(router.registered_commands(), ["ai", "q", "z"]);
    assert_eq!(router.plugin_for("ai"), Some(2));
    assert_eq!(router.plugin_for("never"), None);
}
