use telebot::command::{name_only, parse};

fn prefixes() -> Vec<String> {
    [".", "。", ",", "，"].into_iter().map(str::to_owned).collect()
}

#[test]
fn parses_all_requested_prefixes() {
    for prefix in [".", "。", ",", "，"] {
        let parsed = parse(&format!("{prefix}AI search rust"), &prefixes()).unwrap();
        assert_eq!(parsed.name, "ai");
        assert_eq!(parsed.args, ["search", "rust"]);
    }
}

#[test]
fn ignores_normal_punctuation() {
    assert!(parse("。 这不是命令", &prefixes()).is_none());
    assert!(parse("hello.ai", &prefixes()).is_none());
}

#[test]
fn a_command_is_taken_apart() {
    let parsed = parse("  .  Q   r  image\t3 ", &prefixes()).unwrap();
    assert_eq!(parsed.prefix, ".");
    assert_eq!(parsed.name, "q");
    assert_eq!(parsed.raw_args, "r  image\t3");
    assert_eq!(parsed.args, ["r", "image", "3"]);
}

#[test]
fn the_longest_prefix_is_taken() {
    let both = vec![".".to_owned(), "..".to_owned(), "!".to_owned()];
    let parsed = parse("..ai x", &both).unwrap();
    assert_eq!(parsed.prefix, "..");
    assert_eq!(parsed.name, "ai");
    assert!(parse("..ai x", &[".".to_owned()]).is_none());
    assert!(parse("ai x", &both).is_none());
}

#[test]
fn names_are_letters_digits_and_underscores() {
    assert!(name_only("ai_2"));
    assert!(!name_only("a-i"));
    assert!(parse(".", &prefixes()).is_none());
    assert!(parse(".a-i", &prefixes()).is_none());
    assert_eq!(parse(".a_1", &prefixes()).unwrap().name, "a_1");
}
