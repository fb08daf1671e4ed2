//! How much of each chat is remembered. Every chat has a number of turns of its own, which is kept under a
//! name made of a prefix and the chat's scope.

use crate::ai_runtime;
use crate::ai_runtime::CONTEXT_SETTING_PREFIX;
use crate::failure;
use crate::failure::Failure;
use crate::number;
use crate::scan;
use crate::settings::Settings;
use crate::text;
use vstd::prelude::*;

verus! {

/// How many turns of a conversation are kept if no number is given.
pub const DEFAULT_CONTEXT_TURNS: usize = 6;

/// The name under which the number of turns of a chat is kept.
pub open spec fn context_key(scope: Seq<char>) -> Seq<char> {
    CONTEXT_SETTING_PREFIX@ + scope
}

/// How many turns are kept of a chat, given all that was set: the chat's own number, or else what stands in
/// for it.
pub open spec fn turns_of(
    m: Map<Seq<char>, Seq<char>>,
    scope: Seq<char>,
    default: usize,
) -> Result<usize, Seq<char>> {
    match m.get(context_key(scope)) {
        Some(value) => ai_runtime::turns_setting(value),
        None => Ok(default),
    }
}

/// What a command about the context of a chat leads to.
pub enum ContextOutcome {
    /// Something to show, as it is.
    Show(String),
    /// A setting is to be kept, and this is answered.
    Keep { key: String, value: String, reply: String },
}

pub enum ContextModel {
    Show(Seq<char>),
    Keep { key: Seq<char>, value: Seq<char>, reply: Seq<char> },
}

impl View for ContextOutcome {
    type V = ContextModel;

    open spec fn view(&self) -> ContextModel {
        match *self {
            ContextOutcome::Show(s) => ContextModel::Show(s@),
            ContextOutcome::Keep { key, value, reply } => ContextModel::Keep {
                key: key@,
                value: value@,
                reply: reply@,
            },
        }
    }
}

pub open spec fn context_result(r: Result<ContextOutcome, Failure>) -> Result<
    ContextModel,
    Seq<char>,
> {
    match r {
        Ok(o) => Ok(o@),
        Err(e) => Err(e@),
    }
}

/// How many turns of a conversation a command asks to keep.
pub open spec fn asked_turns(arg: Seq<char>) -> Result<usize, Seq<char>> {
    let word = scan::lowered(arg);
    if word == "on"@ {
        Ok(DEFAULT_CONTEXT_TURNS)
    } else if word == "off"@ {
        Ok(0)
    } else {
        ai_runtime::turns_setting(word)
    }
}

/// What is shown of the context of a chat.
pub open spec fn context_shown(turns: usize) -> Seq<char> {
    if turns == 0 {
        "🧠 自动上下文：关闭\n设置：.ai context on 或 .ai context <1-20>"@
    } else {
        "🧠 自动上下文：开启（"@ + number::decimal(turns as nat) + " 轮）\n关闭：.ai context off"@
    }
}

/// What is answered once the context of a chat was set.
pub open spec fn context_set(turns: usize) -> Seq<char> {
    if turns == 0 {
        "✅ 自动上下文已关闭；已有记录可用 .ai reset 清除"@
    } else {
        "✅ 自动上下文已设置为 "@ + number::decimal(turns as nat) + " 轮（按聊天独立保存）"@
    }
}

/// What a command about the context of a chat leads to, in any chat. `turns` is how many turns are kept of
/// it so far.
pub open spec fn context_outcome(
    args: Seq<Seq<char>>,
    scope: Seq<char>,
    turns: usize,
) -> Result<ContextModel, Seq<char>> {
    if args.len() == 0 {
        Ok(ContextModel::Show(context_shown(turns)))
    } else if args.len() != 1 {
        Err("用法：.ai context <0-20|on|off>"@)
    } else {
        match asked_turns(args[0]) {
            Err(e) => Err(e),
            Ok(asked) => Ok(
                ContextModel::Keep {
                    key: context_key(scope),
                    value: number::decimal(asked as nat),
                    reply: context_set(asked),
                },
            ),
        }
    }
}

// ---------------------------------------------------------------------------------------------
// Proofs
// ---------------------------------------------------------------------------------------------

/// No two chats share a name.
pub proof fn lemma_context_keys(a: Seq<char>, b: Seq<char>)
    requires
        a != b,
    ensures
        context_key(a) != context_key(b),
{
    let n = CONTEXT_SETTING_PREFIX@.len() as int;
    if context_key(a) == context_key(b) {
        assert(context_key(a).skip(n) =~= a);
        assert(context_key(b).skip(n) =~= b);
    }
}

/// The name of a chat begins with the prefix, and with what all settings begin with.
pub proof fn lemma_context_key_starts(scope: Seq<char>)
    ensures
        scan::starts(context_key(scope), CONTEXT_SETTING_PREFIX@),
        scan::starts(context_key(scope), ai_runtime::setting_prefix()),
        forall|s: ai_runtime::AiSetting| #[trigger] s.name() != context_key(scope),
{
    let p = CONTEXT_SETTING_PREFIX@;
    let all = ai_runtime::setting_prefix();
    ai_runtime::law_setting_names();
    assert(context_key(scope).subrange(0, p.len() as int) =~= p);
    assert(context_key(scope).subrange(0, all.len() as int) =~= p.subrange(0, all.len() as int));
}

proof fn lemma_lowered_digits(n: nat)
    ensures
        scan::lowered(number::decimal(n)) == number::decimal(n),
        number::decimal(n) != "on"@,
        number::decimal(n) != "off"@,
    decreases n,
{
    number::lemma_decimal_nonempty(n);
    reveal_strlit("on");
    reveal_strlit("off");
    assert("on"@[0] == 'o' && "off"@[0] == 'o');
    assert(scan::lowered(number::decimal(n)) =~= number::decimal(n));
}

/// A number that a command asks for is one that is kept of a conversation.
proof fn lemma_asked(arg: Seq<char>)
    ensures
        asked_turns(arg) matches Ok(n) ==> n <= 20,
{
}

/// What a command sets is the number of that chat from then on, and every other chat has the number that it
/// had.
pub proof fn law_context_is_per_chat(
    args: Seq<Seq<char>>,
    scope: Seq<char>,
    turns: usize,
    other: Seq<char>,
    m: Map<Seq<char>, Seq<char>>,
    default: usize,
)
    requires
        context_outcome(args, scope, turns) matches Ok(o) && o is Keep,
    ensures
        ({
            let o = context_outcome(args, scope, turns)->Ok_0;
            let after = m.insert(o->key, o->value);
            &&& asked_turns(args[0]) is Ok
            &&& turns_of(after, scope, default) == asked_turns(args[0])
            &&& other != scope ==> turns_of(after, other, default) == turns_of(m, other, default)
        }),
{
    let asked = asked_turns(args[0])->Ok_0;
    lemma_asked(args[0]);
    number::law_decimal_round_trip(asked as nat, usize::MAX as nat);
    if other != scope {
        lemma_context_keys(other, scope);
    }
}

/// In every chat the context can be switched on and off, and each number of turns up to 20 be asked for.
pub proof fn law_context_can_be_set(scope: Seq<char>, turns: usize, n: usize)
    requires
        n <= 20,
    ensures
        context_outcome(seq!["on"@], scope, turns) == Ok::<ContextModel, Seq<char>>(
            ContextModel::Keep {
                key: context_key(scope),
                value: number::decimal(DEFAULT_CONTEXT_TURNS as nat),
                reply: context_set(DEFAULT_CONTEXT_TURNS),
            },
        ),
        context_outcome(seq!["off"@], scope, turns) == Ok::<ContextModel, Seq<char>>(
            ContextModel::Keep {
                key: context_key(scope),
                value: number::decimal(0),
                reply: context_set(0),
            },
        ),
        context_outcome(seq![number::decimal(n as nat)], scope, turns) == Ok::<
            ContextModel,
            Seq<char>,
        >(
            ContextModel::Keep {
                key: context_key(scope),
                value: number::decimal(n as nat),
                reply: context_set(n),
            },
        ),
{
    reveal_strlit("on");
    reveal_strlit("off");
    assert("on"@.len() == 2 && "off"@.len() == 3);
    assert(scan::lowered("on"@) =~= "on"@);
    assert(scan::lowered("off"@) =~= "off"@);
    lemma_lowered_digits(n as nat);
    number::law_decimal_round_trip(n as nat, usize::MAX as nat);
}

// ---------------------------------------------------------------------------------------------
// Doing it
// ---------------------------------------------------------------------------------------------

fn key_of(scope: &str) -> (r: String)
    ensures
        r@ == context_key(scope@),
{
    let mut key = CONTEXT_SETTING_PREFIX.to_owned();
    key.append(scope);
    key
}

/// How many turns are kept of a chat. `default` stands in where it has no number of its own.
pub fn context_turns_of(settings: &Settings, scope: &str, default: usize) -> (r: Result<
    usize,
    Failure,
>)
    ensures
        failure::outcome(r) == turns_of(settings@, scope@, default),
{
    match settings.get_setting(key_of(scope).as_str()) {
        Some(value) => ai_runtime::parse_context_turns(value.as_str()),
        None => Ok(default),
    }
}

/// What a command about the context of a chat leads to, in any chat. `turns` is how many turns are kept of
/// it so far.
pub fn context_command(args: &[String], scope: &str, turns: usize) -> (r: Result<
    ContextOutcome,
    Failure,
>)
    ensures
        context_result(r) == context_outcome(text::texts(args@), scope@, turns),
{
    if args.len() == 0 {
        if turns == 0 {
            return Ok(
                ContextOutcome::Show(
                    "🧠 自动上下文：关闭\n设置：.ai context on 或 .ai context <1-20>".to_owned(),
                ),
            );
        }
        let mut shown = "🧠 自动上下文：开启（".to_owned();
        shown.append(number::write(turns as u64).as_str());
        shown.append(" 轮）\n关闭：.ai context off");
        return Ok(ContextOutcome::Show(shown));
    }
    if args.len() != 1 {
        return Err(Failure::new("用法：.ai context <0-20|on|off>"));
    }
    let word = scan::lower(args[0].as_str());
    let asked: usize = if text::same(word.as_str(), "on") {
        DEFAULT_CONTEXT_TURNS
    } else if text::same(word.as_str(), "off") {
        0
    } else {
        match ai_runtime::parse_context_turns(word.as_str()) {
            Ok(turns) => turns,
            Err(e) => {
                return Err(e);
            },
        }
    };
    let value = number::write(asked as u64);
    let reply = if asked == 0 {
        "✅ 自动上下文已关闭；已有记录可用 .ai reset 清除".to_owned()
    } else {
        let mut out = "✅ 自动上下文已设置为 ".to_owned();
        out.append(value.as_str());
        out.append(" 轮（按聊天独立保存）");
        out
    };
    Ok(ContextOutcome::Keep { key: key_of(scope), value, reply })
}

/// The number of turns of a chat is kept under the name of the chat; where none is kept the default holds.
pub proof fn law_kept_turns(
    m: Map<Seq<char>, Seq<char>>,
    scope: Seq<char>,
    n: usize,
    default: usize,
)
    requires
        n <= 20,
    ensures
        turns_of(
            m.insert("ai.runtime.context_turns."@ + scope, number::decimal(n as nat)),
            scope,
            default,
        ) == Ok::<usize, Seq<char>>(n),
        !m.contains_key("ai.runtime.context_turns."@ + scope) ==> turns_of(m, scope, default)
            == Ok::<usize, Seq<char>>(default),
{
    number::law_decimal_round_trip(n as nat, usize::MAX as nat);
}

/// What `on`, `off`, a number and no word at all do, in any case, and what is answered.
pub proof fn law_context_words(arg: Seq<char>, scope: Seq<char>, turns: usize, n: usize)
    requires
        1 <= n <= 20,
    ensures
        scan::lowered(arg) == "on"@ ==> context_outcome(seq![arg], scope, turns) == Ok::<
            ContextModel,
            Seq<char>,
        >(
            ContextModel::Keep {
                key: "ai.runtime.context_turns."@ + scope,
                value: number::decimal(6),
                reply: "✅ 自动上下文已设置为 "@ + number::decimal(6) + " 轮（按聊天独立保存）"@,
            },
        ),
        scan::lowered(arg) == "off"@ ==> context_outcome(seq![arg], scope, turns) == Ok::<
            ContextModel,
            Seq<char>,
        >(
            ContextModel::Keep {
                key: "ai.runtime.context_turns."@ + scope,
                value: number::decimal(0),
                reply: "✅ 自动上下文已关闭；已有记录可用 .ai reset 清除"@,
            },
        ),
        context_outcome(seq![number::decimal(n as nat)], scope, turns) == Ok::<
            ContextModel,
            Seq<char>,
        >(
            ContextModel::Keep {
                key: "ai.runtime.context_turns."@ + scope,
                value: number::decimal(n as nat),
                reply: "✅ 自动上下文已设置为 "@ + number::decimal(n as nat)
                    + " 轮（按聊天独立保存）"@,
            },
        ),
        context_outcome(Seq::empty(), scope, 0) == Ok::<ContextModel, Seq<char>>(
            ContextModel::Show(
                "🧠 自动上下文：关闭\n设置：.ai context on 或 .ai context <1-20>"@,
            ),
        ),
        context_outcome(Seq::empty(), scope, n) == Ok::<ContextModel, Seq<char>>(
            ContextModel::Show(
                "🧠 自动上下文：开启（"@ + number::decimal(n as nat)
                    + " 轮）\n关闭：.ai context off"@,
            ),
        ),
        context_outcome(seq![arg, arg], scope, turns) == Err::<ContextModel, Seq<char>>(
            "用法：.ai context <0-20|on|off>"@,
        ),
{
    reveal_strlit("on");
    reveal_strlit("off");
    assert("on"@.len() != "off"@.len());
    law_context_can_be_set(scope, turns, n);
}

} // verus!
