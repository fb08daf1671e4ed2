//! The quote command: what it asks for, its settings, and the archive of what it made.

use crate::config::QuoteConfig;
use crate::failure;
use crate::failure::Failure;
use crate::number;
use crate::scan;
use crate::settings::Settings;
use crate::text;
use vstd::prelude::*;

verus! {

pub const STICKER_SET_SETTING: &'static str = "quote.sticker_set_short_name";

pub const HISTORY_ENABLED_SETTING: &'static str = "quote.history.enabled";

pub const HISTORY_LIMIT_SETTING: &'static str = "quote.history.limit";

/// How much of what a quote says is kept with it, in characters.
pub const MAX_HISTORY_PREVIEW_CHARS: usize = 180;

/// How many entries of the archive are listed.
pub const LISTED_ENTRIES: usize = 10;

/// What a quote is made into.
#[derive(Clone, Copy, Debug, PartialEq, Eq, Structural)]
pub enum QuoteOutput {
    Sticker,
    Image,
    Stories,
}

impl QuoteOutput {
    pub open spec fn api_name(self) -> Seq<char> {
        match self {
            QuoteOutput::Sticker => "quote"@,
            QuoteOutput::Image => "image"@,
            QuoteOutput::Stories => "stories"@,
        }
    }

    pub open spec fn format_name(self) -> Seq<char> {
        match self {
            QuoteOutput::Sticker => "webp"@,
            _ => "png"@,
        }
    }

    pub open spec fn size(self) -> (u32, u32) {
        match self {
            QuoteOutput::Stories => (360, 640),
            _ => (512, 768),
        }
    }

    pub open spec fn kind_name(self) -> Seq<char> {
        match self {
            QuoteOutput::Sticker => "sticker"@,
            QuoteOutput::Image => "image"@,
            QuoteOutput::Stories => "stories"@,
        }
    }

    pub open spec fn shown_name(self) -> Seq<char> {
        match self {
            QuoteOutput::Sticker => "贴纸"@,
            QuoteOutput::Image => "图片"@,
            QuoteOutput::Stories => "故事图"@,
        }
    }

    pub fn api_type(self) -> (r: &'static str)
        ensures
            r@ == self.api_name(),
    {
        match self {
            QuoteOutput::Sticker => "quote",
            QuoteOutput::Image => "image",
            QuoteOutput::Stories => "stories",
        }
    }

    pub fn format(self) -> (r: &'static str)
        ensures
            r@ == self.format_name(),
    {
        match self {
            QuoteOutput::Sticker => "webp",
            _ => "png",
        }
    }

    pub fn dimensions(self) -> (r: (u32, u32))
        ensures
            r == self.size(),
    {
        match self {
            QuoteOutput::Stories => (360, 640),
            _ => (512, 768),
        }
    }

    pub fn history_kind(self) -> (r: &'static str)
        ensures
            r@ == self.kind_name(),
    {
        match self {
            QuoteOutput::Sticker => "sticker",
            QuoteOutput::Image => "image",
            QuoteOutput::Stories => "stories",
        }
    }

    pub fn from_history_kind(value: &str) -> (r: Result<QuoteOutput, Failure>)
        ensures
            failure::outcome(r) == kind_of(value@),
    {
        if text::same(value, "sticker") {
            Ok(QuoteOutput::Sticker)
        } else if text::same(value, "image") {
            Ok(QuoteOutput::Image)
        } else if text::same(value, "stories") {
            Ok(QuoteOutput::Stories)
        } else {
            Err(Failure::new("存档格式无效"))
        }
    }

    pub fn display_name(self) -> (r: &'static str)
        ensures
            r@ == self.shown_name(),
    {
        match self {
            QuoteOutput::Sticker => "贴纸",
            QuoteOutput::Image => "图片",
            QuoteOutput::Stories => "故事图",
        }
    }
}

/// What a name in the archive stands for.
pub open spec fn kind_of(value: Seq<char>) -> Result<QuoteOutput, Seq<char>> {
    if value == "sticker"@ {
        Ok(QuoteOutput::Sticker)
    } else if value == "image"@ {
        Ok(QuoteOutput::Image)
    } else if value == "stories"@ {
        Ok(QuoteOutput::Stories)
    } else {
        Err("存档格式无效"@)
    }
}

/// What was archived under a name is found again by that name, and no other name stands for anything.
pub proof fn law_history_kinds(output: QuoteOutput, name: Seq<char>)
    ensures
        kind_of(output.kind_name()) == Ok::<QuoteOutput, Seq<char>>(output),
        kind_of(name) is Ok ==> kind_of(name)->Ok_0.kind_name() == name,
{
    reveal_strlit("sticker");
    reveal_strlit("image");
    reveal_strlit("stories");
    assert("image"@.len() != "sticker"@.len());
    assert("stories"@[2] != "sticker"@[2]);
    assert("stories"@.len() != "image"@.len());
}

// ---------------------------------------------------------------------------------------------
// What is asked for
// ---------------------------------------------------------------------------------------------

/// What a quote command asks for.
#[derive(Clone, Copy, Debug, PartialEq, Eq, Structural)]
pub enum QuoteCommand {
    /// To look at the settings or change them; the arguments behind the first say what.
    Config,
    /// To list the archive or to get something out of it; the arguments behind the first say what.
    History,
    /// To save a sticker.
    Save,
    Help,
    Generate { include_replies: bool, output: QuoteOutput, count: usize },
}

/// An argument in lower case, if there are so many.
pub open spec fn word(args: Seq<Seq<char>>, i: int) -> Option<Seq<char>> {
    if 0 <= i < args.len() {
        Some(scan::lowered(args[i]))
    } else {
        None
    }
}

/// What a quote is made into, and how many arguments say so.
pub open spec fn asked_output(w: Option<Seq<char>>) -> (QuoteOutput, int) {
    match w {
        Some(s) => if s == "webp"@ {
            (QuoteOutput::Sticker, 1)
        } else if s == "image"@ || s == "png"@ {
            (QuoteOutput::Image, 1)
        } else if s == "stories"@ {
            (QuoteOutput::Stories, 1)
        } else {
            (QuoteOutput::Sticker, 0)
        },
        None => (QuoteOutput::Sticker, 0),
    }
}

/// How many messages are quoted, where the arguments behind the first `at` say so; one if they do not.
pub open spec fn asked_count(args: Seq<Seq<char>>, at: int) -> Result<usize, Seq<char>> {
    if at >= args.len() {
        Ok(1)
    } else {
        match number::unsigned_value(args[at], usize::MAX as nat) {
            Ok(n) => if args.len() > at + 1 {
                Err("参数过多，请使用 .q help 查看用法"@)
            } else {
                Ok(n as usize)
            },
            Err(e) => Err(failure::because("消息数必须是数字"@, e.wording())),
        }
    }
}

/// What the arguments of a quote command ask for.
pub open spec fn asked(args: Seq<Seq<char>>) -> Result<QuoteCommand, Seq<char>> {
    let first = word(args, 0);
    if first == Some("config"@) {
        Ok(QuoteCommand::Config)
    } else if first == Some("history"@) || first == Some("his"@) {
        Ok(QuoteCommand::History)
    } else if first == Some("s"@) {
        Ok(QuoteCommand::Save)
    } else if first == Some("help"@) || first == Some("h"@) {
        Ok(QuoteCommand::Help)
    } else {
        let include_replies = first == Some("r"@);
        let at: int = if include_replies {
            1
        } else {
            0
        };
        let (output, used) = asked_output(word(args, at));
        match asked_count(args, at + used) {
            Ok(count) => Ok(QuoteCommand::Generate { include_replies, output, count }),
            Err(e) => Err(e),
        }
    }
}

fn lower_arg(args: &[String], i: usize) -> (r: Option<String>)
    ensures
        match (r, word(text::texts(args@), i as int)) {
            (Some(a), Some(b)) => a@ == b,
            (None, None) => true,
            _ => false,
        },
{
    if i < args.len() {
        Some(scan::lower(args[i].as_str()))
    } else {
        None
    }
}

fn says(w: &Option<String>, s: &str) -> (r: bool)
    ensures
        r == match *w {
            Some(x) => x@ == s@,
            None => false,
        },
{
    match w {
        Some(x) => text::same(x.as_str(), s),
        None => false,
    }
}

/// What the arguments of a quote command ask for.
pub fn plan_quote(args: &[String]) -> (r: Result<QuoteCommand, Failure>)
    ensures
        failure::outcome(r) == asked(text::texts(args@)),
{
    let first = lower_arg(args, 0);
    if says(&first, "config") {
        return Ok(QuoteCommand::Config);
    }
    if says(&first, "history") || says(&first, "his") {
        return Ok(QuoteCommand::History);
    }
    if says(&first, "s") {
        return Ok(QuoteCommand::Save);
    }
    if says(&first, "help") || says(&first, "h") {
        return Ok(QuoteCommand::Help);
    }
    let include_replies = says(&first, "r");
    let mut at: usize = if include_replies {
        1
    } else {
        0
    };
    let kind = lower_arg(args, at);
    let mut output = QuoteOutput::Sticker;
    if says(&kind, "webp") {
        at = at + 1;
    } else if says(&kind, "image") || says(&kind, "png") {
        at = at + 1;
        output = QuoteOutput::Image;
    } else if says(&kind, "stories") {
        at = at + 1;
        output = QuoteOutput::Stories;
    }
    if at >= args.len() {
        return Ok(QuoteCommand::Generate { include_replies, output, count: 1 });
    }
    match number::read_unsigned(args[at].as_str(), usize::MAX as u64) {
        Ok(n) => {
            if args.len() - at > 1 {
                return Err(Failure::new("参数过多，请使用 .q help 查看用法"));
            }
            Ok(QuoteCommand::Generate { include_replies, output, count: n as usize })
        },
        Err(e) => Err(Failure::caused("消息数必须是数字", e.message().as_str())),
    }
}

pub const HELP: &'static str = "# 🖼️ 语录\n\n- `.q [1-5]` — 从回复消息开始生成 WebP 贴纸\n- `.q r [1-5]` — 同时显示消息中的回复引用\n- `.q image [1-5]` — 生成 PNG 图片\n- `.q stories [1-5]` — 生成故事比例 PNG\n- `.q r image [1-5]` — 图片中同时显示回复引用\n- `.q history` — 查看最近存档\n- `.q history <ID>` — 重新发送一条存档\n- `.q s` — 把回复的贴纸或图片保存到贴纸包\n- `.q config` — 查看配置\n\n> 支持 Telegram 的“选择部分文字后回复”。新存档从功能启用后开始，不补录旧 Q。";

/// Accepts a number of messages.
pub fn check_count(count: usize, max_messages: usize) -> (r: Result<(), Failure>)
    ensures
        failure::outcome(r) == if count == 0 || count > max_messages {
            Err::<(), Seq<char>>(
                "消息数必须在 1-"@ + number::decimal(max_messages as nat) + " 之间"@,
            )
        } else {
            Ok(())
        },
{
    if count == 0 || count > max_messages {
        let mut out = "消息数必须在 1-".to_owned();
        out.append(number::write(max_messages as u64).as_str());
        out.append(" 之间");
        return Err(Failure::of(out));
    }
    Ok(())
}

/// The messages that are quoted, by their places: the first so many that are not the command itself.
pub open spec fn picked(ids: Seq<i32>, command: i32, count: nat) -> Seq<int>
    decreases ids.len(),
{
    if ids.len() == 0 {
        Seq::empty()
    } else {
        let before = picked(ids.drop_last(), command, count);
        if ids.last() != command && before.len() < count {
            before.push(ids.len() - 1)
        } else {
            before
        }
    }
}

pub open spec fn places_of(v: Seq<usize>) -> Seq<int> {
    v.map_values(|i: usize| i as int)
}

/// The messages that are quoted, out of those that were read, by their places; an error if there are
/// none.
pub fn pick_messages(ids: &[i32], command: i32, count: usize) -> (r: Result<Vec<usize>, Failure>)
    ensures
        ({
            let p = picked(ids@, command, count as nat);
            match r {
                Ok(v) => p.len() > 0 && places_of(v@) == p,
                Err(e) => p.len() == 0 && e@ == "未找到可生成语录的消息"@,
            }
        }),
{
    let n: usize = ids.len();
    let mut out: Vec<usize> = Vec::new();
    let mut i: usize = 0;
    proof {
        assert(ids@.take(0) =~= Seq::<i32>::empty());
        assert(places_of(out@) =~= Seq::<int>::empty());
    }
    while i < n
        invariant
            i <= n,
            n == ids@.len(),
            places_of(out@) == picked(ids@.take(i as int), command, count as nat),
        decreases n - i,
    {
        proof {
            assert(ids@.take(i + 1).drop_last() =~= ids@.take(i as int));
            assert(places_of(out@.push(i)) =~= places_of(out@).push(i as int));
        }
        if ids[i] != command && out.len() < count {
            out.push(i);
        }
        i = i + 1;
    }
    proof {
        assert(ids@.take(n as int) =~= ids@);
    }
    if out.len() == 0 {
        return Err(Failure::new("未找到可生成语录的消息"));
    }
    Ok(out)
}

// ---------------------------------------------------------------------------------------------
// Settings
// ---------------------------------------------------------------------------------------------

pub open spec fn history_switch(value: Seq<char>) -> Result<bool, Seq<char>> {
    let w = scan::lowered(scan::trimmed(value));
    if w == "1"@ || w == "true"@ || w == "on"@ || w == "yes"@ {
        Ok(true)
    } else if w == "0"@ || w == "false"@ || w == "off"@ || w == "no"@ {
        Ok(false)
    } else {
        Err("存档开关必须是 on 或 off"@)
    }
}

pub fn parse_history_enabled(value: &str) -> (r: Result<bool, Failure>)
    ensures
        failure::outcome(r) == history_switch(value@),
{
    let trimmed = scan::trim(value);
    let lowered = scan::lower(trimmed.as_str());
    let w = lowered.as_str();
    if text::same(w, "1") || text::same(w, "true") || text::same(w, "on") || text::same(w, "yes") {
        Ok(true)
    } else if text::same(w, "0") || text::same(w, "false") || text::same(w, "off") || text::same(
        w,
        "no",
    ) {
        Ok(false)
    } else {
        Err(Failure::new("存档开关必须是 on 或 off"))
    }
}

/// How many quotes are kept.
pub open spec fn limit_in_range(n: nat) -> Result<usize, Seq<char>> {
    if 1 <= n <= 500 {
        Ok(n as usize)
    } else {
        Err("语录存档数量必须在 1 到 500 之间"@)
    }
}

pub open spec fn limit_setting(value: Seq<char>) -> Result<usize, Seq<char>> {
    match number::unsigned_value(value, usize::MAX as nat) {
        Ok(n) => limit_in_range(n),
        Err(e) => Err(failure::because("语录存档数量必须是数字"@, e.wording())),
    }
}

fn limit_of(n: usize) -> (r: Result<usize, Failure>)
    ensures
        failure::outcome(r) == limit_in_range(n as nat),
{
    if 1 <= n && n <= 500 {
        Ok(n)
    } else {
        Err(Failure::new("语录存档数量必须在 1 到 500 之间"))
    }
}

fn parse_limit(value: &str) -> (r: Result<usize, Failure>)
    ensures
        failure::outcome(r) == limit_setting(value@),
{
    match number::read_unsigned(value, usize::MAX as u64) {
        Ok(n) => limit_of(n as usize),
        Err(e) => Err(Failure::caused("语录存档数量必须是数字", e.message().as_str())),
    }
}

pub open spec fn sticker_set_in_force(
    m: Map<Seq<char>, Seq<char>>,
    default: Seq<char>,
) -> Seq<char> {
    match m.get(STICKER_SET_SETTING@) {
        Some(name) => name,
        None => default,
    }
}

pub open spec fn switch_in_force(m: Map<Seq<char>, Seq<char>>, default: bool) -> Result<
    bool,
    Seq<char>,
> {
    match m.get(HISTORY_ENABLED_SETTING@) {
        Some(value) => history_switch(value),
        None => Ok(default),
    }
}

pub open spec fn limit_in_force(m: Map<Seq<char>, Seq<char>>, default: usize) -> Result<
    usize,
    Seq<char>,
> {
    match m.get(HISTORY_LIMIT_SETTING@) {
        Some(value) => limit_setting(value),
        None => limit_in_range(default as nat),
    }
}

/// The name of the sticker set that is in force.
pub fn sticker_set_name(config: &QuoteConfig, store: &Settings) -> (r: String)
    ensures
        r@ == sticker_set_in_force(store@, config.sticker_set_short_name@),
{
    match store.get_setting(STICKER_SET_SETTING) {
        Some(name) => name.clone(),
        None => config.sticker_set_short_name.clone(),
    }
}

/// Whether quotes are kept.
pub fn history_enabled(config: &QuoteConfig, store: &Settings) -> (r: Result<bool, Failure>)
    ensures
        failure::outcome(r) == switch_in_force(store@, config.history_enabled),
{
    match store.get_setting(HISTORY_ENABLED_SETTING) {
        Some(value) => parse_history_enabled(value.as_str()),
        None => Ok(config.history_enabled),
    }
}

/// How many quotes are kept.
pub fn history_limit(config: &QuoteConfig, store: &Settings) -> (r: Result<usize, Failure>)
    ensures
        failure::outcome(r) == limit_in_force(store@, config.history_limit),
{
    match store.get_setting(HISTORY_LIMIT_SETTING) {
        Some(value) => parse_limit(value.as_str()),
        None => limit_of(config.history_limit),
    }
}

/// How many quotes are kept when one more comes; nothing if it is not to be kept.
pub open spec fn archive_limit(m: Map<Seq<char>, Seq<char>>, on: bool, limit: usize) -> Result<
    Option<usize>,
    Seq<char>,
> {
    match switch_in_force(m, on) {
        Ok(false) => Ok(None),
        Ok(true) => match limit_in_force(m, limit) {
            Ok(n) => Ok(Some(n)),
            Err(e) => Err(e),
        },
        Err(e) => Err(e),
    }
}

/// How many quotes are kept when one more comes; nothing if it is not to be kept.
pub fn plan_archive(config: &QuoteConfig, store: &Settings) -> (r: Result<Option<usize>, Failure>)
    ensures
        failure::outcome(r) == archive_limit(store@, config.history_enabled, config.history_limit),
{
    match history_enabled(config, store) {
        Ok(true) => match history_limit(config, store) {
            Ok(n) => Ok(Some(n)),
            Err(e) => Err(e),
        },
        Ok(false) => Ok(None),
        Err(e) => Err(e),
    }
}

pub open spec fn set_name_char(c: char) -> bool {
    text::is_alnum(c) || c == '_'
}

pub open spec fn set_name_problem(name: Seq<char>) -> Option<Seq<char>> {
    if text::utf8_len(name) == 0 || text::utf8_len(name) > 64 {
        Some("贴纸包名称长度必须在 1-64 个字符之间"@)
    } else if !(forall|i: int| 0 <= i < name.len() ==> set_name_char(#[trigger] name[i])) {
        Some("贴纸包名称只能包含英文字母、数字和下划线"@)
    } else {
        None
    }
}

pub fn validate_sticker_set_name(name: &str) -> (r: Result<(), Failure>)
    ensures
        failure::outcome(r) == failure::verdict(set_name_problem(name@)),
{
    let bytes: usize = text::byte_len(name);
    if bytes == 0 || bytes > 64 {
        return Err(Failure::new("贴纸包名称长度必须在 1-64 个字符之间"));
    }
    let v = text::chars(name);
    let n: usize = v.len();
    let mut i: usize = 0;
    while i < n
        invariant
            i <= n,
            n == v@.len(),
            v@ == name@,
            0 < text::utf8_len(name@) <= 64,
            forall|j: int| 0 <= j < i ==> set_name_char(#[trigger] v@[j]),
        decreases n - i,
    {
        if !(text::alnum(v[i]) || v[i] == '_') {
            proof {
                assert(!set_name_char(name@[i as int]));
            }
            return Err(
                Failure::new("贴纸包名称只能包含英文字母、数字和下划线"),
            );
        }
        i = i + 1;
    }
    Ok(())
}

/// What a command about the settings comes to.
pub enum QuoteConfigPlan {
    /// The settings are shown.
    Show,
    /// A setting is written, and this is answered.
    Put { key: String, value: String, reply: String },
}

pub enum QuoteConfigModel {
    Show,
    Put { key: Seq<char>, value: Seq<char>, reply: Seq<char> },
}

impl View for QuoteConfigPlan {
    type V = QuoteConfigModel;

    open spec fn view(&self) -> QuoteConfigModel {
        match *self {
            QuoteConfigPlan::Show => QuoteConfigModel::Show,
            QuoteConfigPlan::Put { key, value, reply } => QuoteConfigModel::Put {
                key: key@,
                value: value@,
                reply: reply@,
            },
        }
    }
}

pub open spec fn config_plan_outcome(r: Result<QuoteConfigPlan, Failure>) -> Result<
    QuoteConfigModel,
    Seq<char>,
> {
    match r {
        Ok(p) => Ok(p@),
        Err(e) => Err(e@),
    }
}

pub open spec fn set_change(args: Seq<Seq<char>>) -> Result<QuoteConfigModel, Seq<char>> {
    let name = scan::joined(args.skip(1), "_"@);
    match set_name_problem(name) {
        Some(e) => Err(e),
        None => Ok(
            QuoteConfigModel::Put {
                key: STICKER_SET_SETTING@,
                value: name,
                reply: "✅ 贴纸包已设置为 "@ + name + "\nhttps://t.me/addstickers/"@ + name,
            },
        ),
    }
}

pub open spec fn history_change(args: Seq<Seq<char>>) -> Result<QuoteConfigModel, Seq<char>> {
    let second = word(args, 1);
    if second == Some("on"@) || second == Some("off"@) || second == Some("true"@) || second == Some(
        "false"@,
    ) {
        if args.len() != 2 {
            Err("用法：.q config history on|off"@)
        } else {
            match history_switch(second->Some_0) {
                Err(e) => Err(e),
                Ok(true) => Ok(
                    QuoteConfigModel::Put {
                        key: HISTORY_ENABLED_SETTING@,
                        value: "true"@,
                        reply: "✅ Q 历史存档已开启；从下一张新生成的语录开始保存"@,
                    },
                ),
                Ok(false) => Ok(
                    QuoteConfigModel::Put {
                        key: HISTORY_ENABLED_SETTING@,
                        value: "false"@,
                        reply: "✅ Q 历史存档已关闭；已有存档仍可取回"@,
                    },
                ),
            }
        }
    } else if second == Some("limit"@) {
        if args.len() != 3 {
            Err("用法：.q config history limit <1-500>"@)
        } else {
            match limit_setting(args[2]) {
                Err(e) => Err(e),
                Ok(n) => Ok(
                    QuoteConfigModel::Put {
                        key: HISTORY_LIMIT_SETTING@,
                        value: number::decimal(n as nat),
                        reply: "✅ Q 历史存档上限已设置为 "@ + number::decimal(n as nat)
                            + " 条"@,
                    },
                ),
            }
        }
    } else {
        Err("用法：.q config history on|off，或 .q config history limit <1-500>"@)
    }
}

/// What a command about the settings comes to.
pub open spec fn config_plan(args: Seq<Seq<char>>) -> Result<QuoteConfigModel, Seq<char>> {
    let first = word(args, 0);
    if args.len() == 0 {
        Ok(QuoteConfigModel::Show)
    } else if first == Some("sticker"@) || first == Some("stickerset"@) || first == Some("set"@) {
        set_change(args)
    } else if first == Some("history"@) || first == Some("archive"@) {
        history_change(args)
    } else {
        Err("未知配置项；可用：sticker、history"@)
    }
}

fn change_set(args: &[String]) -> (r: Result<QuoteConfigPlan, Failure>)
    requires
        args@.len() > 0,
    ensures
        config_plan_outcome(r) == set_change(text::texts(args@)),
{
    let mut parts: Vec<String> = Vec::new();
    let n: usize = args.len();
    let mut i: usize = 1;
    while i < n
        invariant
            1 <= i <= n,
            n == args@.len(),
            parts@.len() == i - 1,
            forall|j: int| 0 <= j < i - 1 ==> (#[trigger] parts@[j])@ == args@[j + 1]@,
        decreases n - i,
    {
        parts.push(args[i].clone());
        i = i + 1;
    }
    proof {
        assert(text::texts(parts@) =~= text::texts(args@).skip(1));
    }
    let name = scan::join(&parts, "_");
    match validate_sticker_set_name(name.as_str()) {
        Err(e) => Err(e),
        Ok(()) => {
            let mut reply = "✅ 贴纸包已设置为 ".to_owned();
            reply.append(name.as_str());
            reply.append("\nhttps://t.me/addstickers/");
            reply.append(name.as_str());
            Ok(QuoteConfigPlan::Put { key: STICKER_SET_SETTING.to_owned(), value: name, reply })
        },
    }
}

fn change_history(args: &[String]) -> (r: Result<QuoteConfigPlan, Failure>)
    ensures
        config_plan_outcome(r) == history_change(text::texts(args@)),
{
    let second = lower_arg(args, 1);
    if says(&second, "on") || says(&second, "off") || says(&second, "true") || says(
        &second,
        "false",
    ) {
        if args.len() != 2 {
            return Err(Failure::new("用法：.q config history on|off"));
        }
        let value = match second {
            Some(s) => s,
            None => String::new(),
        };
        match parse_history_enabled(value.as_str()) {
            Err(e) => Err(e),
            Ok(true) => Ok(
                QuoteConfigPlan::Put {
                    key: HISTORY_ENABLED_SETTING.to_owned(),
                    value: "true".to_owned(),
                    reply: "✅ Q 历史存档已开启；从下一张新生成的语录开始保存".to_owned(),
                },
            ),
            Ok(false) => Ok(
                QuoteConfigPlan::Put {
                    key: HISTORY_ENABLED_SETTING.to_owned(),
                    value: "false".to_owned(),
                    reply: "✅ Q 历史存档已关闭；已有存档仍可取回".to_owned(),
                },
            ),
        }
    } else if says(&second, "limit") {
        if args.len() != 3 {
            return Err(Failure::new("用法：.q config history limit <1-500>"));
        }
        match parse_limit(args[2].as_str()) {
            Err(e) => Err(e),
            Ok(n) => {
                let value = number::write(n as u64);
                let mut reply = "✅ Q 历史存档上限已设置为 ".to_owned();
                reply.append(value.as_str());
                reply.append(" 条");
                Ok(QuoteConfigPlan::Put { key: HISTORY_LIMIT_SETTING.to_owned(), value, reply })
            },
        }
    } else {
        Err(Failure::new("用法：.q config history on|off，或 .q config history limit <1-500>"))
    }
}

/// What a command about the settings comes to. `args` stand behind the word that says it is one.
pub fn plan_quote_config(args: &[String]) -> (r: Result<QuoteConfigPlan, Failure>)
    ensures
        config_plan_outcome(r) == config_plan(text::texts(args@)),
{
    if args.len() == 0 {
        return Ok(QuoteConfigPlan::Show);
    }
    let first = lower_arg(args, 0);
    if says(&first, "sticker") || says(&first, "stickerset") || says(&first, "set") {
        change_set(args)
    } else if says(&first, "history") || says(&first, "archive") {
        change_history(args)
    } else {
        Err(Failure::new("未知配置项；可用：sticker、history"))
    }
}

/// A setting that a command accepts is in force from then on: the sticker set has that name, the archive
/// is on or off as was said, and keeps as many quotes as was said.
pub proof fn law_quote_settings_last(
    m: Map<Seq<char>, Seq<char>>,
    args: Seq<Seq<char>>,
    name: Seq<char>,
    on: bool,
    limit: usize,
)
    requires
        config_plan(args) is Ok,
        config_plan(args)->Ok_0 is Put,
    ensures
        ({
            let put = config_plan(args)->Ok_0;
            let next = m.insert(put->key, put->value);
            &&& put->key == STICKER_SET_SETTING@ ==> sticker_set_in_force(next, name) == put->value
            &&& put->key == HISTORY_ENABLED_SETTING@ ==> switch_in_force(next, on) == Ok::<
                bool,
                Seq<char>,
            >(history_switch(scan::lowered(args[1]))->Ok_0)
            &&& put->key == HISTORY_LIMIT_SETTING@ ==> limit_in_force(next, limit)
                == limit_setting(args[2])
        }),
{
    lemma_setting_names();
    let put = config_plan(args)->Ok_0;
    if put->key == HISTORY_ENABLED_SETTING@ {
        lemma_switch_words();
    }
    if put->key == HISTORY_LIMIT_SETTING@ {
        let n = limit_setting(args[2])->Ok_0;
        number::law_decimal_round_trip(n as nat, usize::MAX as nat);
    }
}

proof fn lemma_setting_names()
    ensures
        STICKER_SET_SETTING@ != HISTORY_ENABLED_SETTING@,
        STICKER_SET_SETTING@ != HISTORY_LIMIT_SETTING@,
        HISTORY_ENABLED_SETTING@ != HISTORY_LIMIT_SETTING@,
{
    reveal_strlit("quote.sticker_set_short_name");
    reveal_strlit("quote.history.enabled");
    reveal_strlit("quote.history.limit");
    assert(STICKER_SET_SETTING@[6] == 's');
    assert(HISTORY_ENABLED_SETTING@[6] == 'h');
    assert(HISTORY_LIMIT_SETTING@[6] == 'h');
    assert(HISTORY_ENABLED_SETTING@.len() != HISTORY_LIMIT_SETTING@.len());
}

proof fn lemma_switch_words()
    ensures
        history_switch("true"@) == Ok::<bool, Seq<char>>(true),
        history_switch("false"@) == Ok::<bool, Seq<char>>(false),
{
    reveal_strlit("true");
    reveal_strlit("false");
    reveal_strlit("1");
    reveal_strlit("on");
    reveal_strlit("yes");
    reveal_strlit("0");
    reveal_strlit("off");
    reveal_strlit("no");
    assert(scan::lowered("true"@) =~= "true"@);
    assert(scan::lowered("false"@) =~= "false"@);
    assert(scan::trimmed_start("true"@) == "true"@);
    assert(scan::trimmed_end("true"@) == "true"@);
    assert(scan::trimmed_start("false"@) == "false"@);
    assert(scan::trimmed_end("false"@) == "false"@);
}

// ---------------------------------------------------------------------------------------------
// Sizes
// ---------------------------------------------------------------------------------------------

/// A quotient rounded to the nearest whole number; of two that are as near, the even one.
pub open spec fn rounded(a: nat, b: nat) -> nat {
    let q = a / b;
    let r = a % b;
    if 2 * r < b || (2 * r == b && q % 2 == 0) {
        q
    } else {
        q + 1
    }
}

/// The least power of two, from `unit` on, in which a number has at most 53 binary digits.
pub open spec fn unit_of(n: nat, unit: nat) -> nat
    decreases n / unit,
{
    if unit == 0 || n / unit < 9_007_199_254_740_992 {
        unit
    } else {
        proof {
            lemma_half_unit(n, unit);
        }
        unit_of(n, 2 * unit)
    }
}

pub proof fn lemma_half_unit(n: nat, unit: nat)
    requires
        unit > 0,
        n / unit > 0,
    ensures
        n / (2 * unit) < n / unit,
{
    vstd::arithmetic::div_mod::lemma_div_denominator(n as int, unit as int, 2);
    assert(unit * 2 == 2 * unit);
    let q = n / unit;
    assert(n as int / (unit as int * 2) == (n as int / unit as int) / 2);
    assert(q / 2 < q);
}

/// A number as a double holds it: with 53 binary digits, the rest rounded.
pub open spec fn double_of(n: nat) -> nat {
    rounded(n, unit_of(n, 1)) * unit_of(n, 1)
}

/// A size with one digit behind the point.
pub open spec fn in_units(bytes: nat, unit: nat, name: Seq<char>) -> Seq<char> {
    let tenths = rounded(double_of(bytes) * 10, unit);
    number::decimal(tenths / 10) + "."@ + number::decimal(tenths % 10) + name
}

pub open spec fn byte_size(bytes: nat) -> Seq<char> {
    if bytes >= 1_048_576 {
        in_units(bytes, 1_048_576, " MiB"@)
    } else if bytes >= 1024 {
        in_units(bytes, 1024, " KiB"@)
    } else {
        number::decimal(bytes) + " B"@
    }
}

fn round(a: u128, b: u128) -> (r: u128)
    requires
        0 < b <= 0x1_0000_0000_0000_0000,
        a <= 0xffff_ffff_ffff_ffff_ffff,
    ensures
        r == rounded(a as nat, b as nat),
        r <= a / b + 1,
{
    let q: u128 = a / b;
    let rest: u128 = a % b;
    if 2 * rest < b || (2 * rest == b && q % 2 == 0) {
        q
    } else {
        proof {
            assert(q <= a) by (nonlinear_arith)
                requires
                    q == a / b,
                    b > 0,
            ;
        }
        q + 1
    }
}

/// A number as a double holds it.
fn double(n: u64) -> (r: u128)
    ensures
        r == double_of(n as nat),
        r <= 0x1_0000_0000_0000_0000,
{
    let a: u128 = n as u128;
    let mut unit: u128 = 1;
    while a / unit >= 9_007_199_254_740_992
        invariant
            1 <= unit <= 2048,
            a == n,
            n <= 0xffff_ffff_ffff_ffff,
            unit_of(n as nat, 1) == unit_of(n as nat, unit as nat),
            unit == 1 || unit == 2 || unit == 4 || unit == 8 || unit == 16 || unit == 32 || unit
                == 64 || unit == 128 || unit == 256 || unit == 512 || unit == 1024 || unit == 2048,
        decreases 2048 - unit,
    {
        proof {
            if unit == 2048 {
                assert(a / 2048 < 9_007_199_254_740_992);
            }
        }
        unit = 2 * unit;
    }
    let digits: u128 = round(a, unit);
    proof {
        lemma_double_bound(a as int, unit as int, digits as int);
    }
    digits * unit
}

proof fn lemma_double_bound(a: int, unit: int, digits: int)
    requires
        0 <= a <= 0xffff_ffff_ffff_ffff,
        unit == 1 || unit == 2 || unit == 4 || unit == 8 || unit == 16 || unit == 32 || unit == 64
            || unit == 128 || unit == 256 || unit == 512 || unit == 1024 || unit == 2048,
        0 <= digits <= a / unit + 1,
    ensures
        digits * unit <= 0x1_0000_0000_0000_0000,
{
    let top: int = 0x1_0000_0000_0000_0000;
    assert(a / unit + 1 <= top / unit);
    assert(digits <= top / unit);
    assert(digits * unit <= top / unit * unit) by (nonlinear_arith)
        requires
            0 <= digits <= top / unit,
            unit > 0,
    ;
    assert(top / unit * unit == top);
}

fn write_units(bytes: usize, unit: u128, name: &str) -> (r: String)
    requires
        unit == 1024 || unit == 1_048_576,
    ensures
        r@ == in_units(bytes as nat, unit as nat, name@),
{
    let d: u128 = double(bytes as u64);
    let tenths: u128 = round(d * 10, unit);
    let whole: u64 = (tenths / 10) as u64;
    let digit: u64 = (tenths % 10) as u64;
    let mut out = number::write(whole);
    out.append(".");
    out.append(number::write(digit).as_str());
    out.append(name);
    out
}

/// A size for a person to read.
pub fn format_byte_size(bytes: usize) -> (r: String)
    ensures
        r@ == byte_size(bytes as nat),
{
    if bytes >= 1_048_576 {
        write_units(bytes, 1_048_576, " MiB")
    } else if bytes >= 1024 {
        write_units(bytes, 1024, " KiB")
    } else {
        let mut out = number::write(bytes as u64);
        out.append(" B");
        out
    }
}

// ---------------------------------------------------------------------------------------------
// Laws
// ---------------------------------------------------------------------------------------------

/// What a command asks for: first whether replies are shown, then the form, then how many messages; each may
/// be left out, and one message on a sticker is what is meant.
pub proof fn law_asked_quote(r: Seq<char>, form: Seq<char>, n: nat)
    requires
        scan::lowered(r) == "r"@,
        n <= usize::MAX,
        scan::lowered(form) == "webp"@ || scan::lowered(form) == "image"@ || scan::lowered(form)
            == "png"@ || scan::lowered(form) == "stories"@,
    ensures
        ({
            let output = if scan::lowered(form) == "webp"@ {
                QuoteOutput::Sticker
            } else if scan::lowered(form) == "stories"@ {
                QuoteOutput::Stories
            } else {
                QuoteOutput::Image
            };
            let count = number::decimal(n);
            let made = |include_replies: bool, output: QuoteOutput, count: usize|
                Ok::<QuoteCommand, Seq<char>>(
                    QuoteCommand::Generate { include_replies, output, count },
                );
            &&& asked(Seq::empty()) == made(false, QuoteOutput::Sticker, 1)
            &&& asked(seq![count]) == made(false, QuoteOutput::Sticker, n as usize)
            &&& asked(seq![form]) == made(false, output, 1)
            &&& asked(seq![form, count]) == made(false, output, n as usize)
            &&& asked(seq![r]) == made(true, QuoteOutput::Sticker, 1)
            &&& asked(seq![r, count]) == made(true, QuoteOutput::Sticker, n as usize)
            &&& asked(seq![r, form]) == made(true, output, 1)
            &&& asked(seq![r, form, count]) == made(true, output, n as usize)
            &&& asked(seq![form, count, form]) is Err
            &&& asked(seq![form, form]) is Err
        }),
{
    reveal_strlit("r");
    reveal_strlit("webp");
    reveal_strlit("image");
    reveal_strlit("png");
    reveal_strlit("stories");
    reveal_strlit("config");
    reveal_strlit("history");
    reveal_strlit("his");
    reveal_strlit("s");
    reveal_strlit("help");
    reveal_strlit("h");
    assert("r"@.len() != "webp"@.len());
    assert("r"@.len() != "image"@.len());
    assert("r"@.len() != "png"@.len());
    assert("r"@.len() != "stories"@.len());
    assert("r"@.len() != "config"@.len());
    assert("r"@.len() != "history"@.len());
    assert("r"@.len() != "his"@.len());
    assert("r"@[0] != "s"@[0]);
    assert("r"@.len() != "help"@.len());
    assert("r"@[0] != "h"@[0]);
    assert("webp"@.len() != "image"@.len());
    assert("webp"@.len() != "png"@.len());
    assert("webp"@.len() != "stories"@.len());
    assert("webp"@.len() != "config"@.len());
    assert("webp"@.len() != "history"@.len());
    assert("webp"@.len() != "his"@.len());
    assert("webp"@.len() != "s"@.len());
    assert("webp"@[0] != "help"@[0]);
    assert("webp"@.len() != "h"@.len());
    assert("image"@.len() != "png"@.len());
    assert("image"@.len() != "stories"@.len());
    assert("image"@.len() != "config"@.len());
    assert("image"@.len() != "history"@.len());
    assert("image"@.len() != "his"@.len());
    assert("image"@.len() != "s"@.len());
    assert("image"@.len() != "help"@.len());
    assert("image"@.len() != "h"@.len());
    assert("png"@.len() != "stories"@.len());
    assert("png"@.len() != "config"@.len());
    assert("png"@.len() != "history"@.len());
    assert("png"@[0] != "his"@[0]);
    assert("png"@.len() != "s"@.len());
    assert("png"@.len() != "help"@.len());
    assert("png"@.len() != "h"@.len());
    assert("stories"@.len() != "config"@.len());
    assert("stories"@[0] != "history"@[0]);
    assert("stories"@.len() != "his"@.len());
    assert("stories"@.len() != "s"@.len());
    assert("stories"@.len() != "help"@.len());
    assert("stories"@.len() != "h"@.len());
    assert("config"@.len() != "history"@.len());
    assert("config"@.len() != "his"@.len());
    assert("config"@.len() != "s"@.len());
    assert("config"@.len() != "help"@.len());
    assert("config"@.len() != "h"@.len());
    assert("history"@.len() != "his"@.len());
    assert("history"@.len() != "s"@.len());
    assert("history"@.len() != "help"@.len());
    assert("history"@.len() != "h"@.len());
    assert("his"@.len() != "s"@.len());
    assert("his"@.len() != "help"@.len());
    assert("his"@.len() != "h"@.len());
    assert("s"@.len() != "help"@.len());
    assert("s"@[0] != "h"@[0]);
    assert("help"@.len() != "h"@.len());
    let count = number::decimal(n);
    number::law_decimal_round_trip(n, usize::MAX as nat);
    number::lemma_decimal_leads(n);
    lemma_no_word(count);
    lemma_no_number(form);
    let a = seq![count];
    assert(a[0] == count);
    let b = seq![form];
    assert(b[0] == form);
    let c = seq![form, count];
    assert(c[0] == form && c[1] == count);
    let d = seq![r];
    assert(d[0] == r);
    let e = seq![r, count];
    assert(e[0] == r && e[1] == count);
    let f = seq![r, form];
    assert(f[0] == r && f[1] == form);
    let g = seq![r, form, count];
    assert(g[0] == r && g[1] == form && g[2] == count);
    let h = seq![form, count, form];
    assert(h[0] == form && h[1] == count);
    let i = seq![form, form];
    assert(i[0] == form && i[1] == form);
}

/// A number in digits is none of the words that a command begins with.
proof fn lemma_no_word(count: Seq<char>)
    requires
        count.len() > 0,
        number::is_digit(count[0]),
    ensures
        scan::lowered(count)[0] == count[0],
        forall|w: Seq<char>| #![trigger w.len()]
            w.len() > 0 && !number::is_digit(w[0]) ==> scan::lowered(count) != w,
{
}

proof fn lemma_no_number(form: Seq<char>)
    requires
        scan::lowered(form) == "webp"@ || scan::lowered(form) == "image"@ || scan::lowered(form)
            == "png"@ || scan::lowered(form) == "stories"@,
    ensures
        number::unsigned_value(form, usize::MAX as nat) is Err,
{
    reveal_strlit("webp");
    reveal_strlit("image");
    reveal_strlit("png");
    reveal_strlit("stories");
    assert(scan::lowered(form).len() == form.len());
    assert(scan::lowered(form)[0] == text::lower_char(form[0]));
}

/// The other things that a command may ask for, by their words.
pub proof fn law_asked_words(first: Seq<char>, more: Seq<Seq<char>>)
    ensures
        ({
            let w = scan::lowered(first);
            let r = asked(seq![first] + more);
            &&& w == "config"@ ==> r == Ok::<QuoteCommand, Seq<char>>(QuoteCommand::Config)
            &&& w == "history"@ || w == "his"@ ==> r == Ok::<QuoteCommand, Seq<char>>(
                QuoteCommand::History,
            )
            &&& w == "s"@ ==> r == Ok::<QuoteCommand, Seq<char>>(QuoteCommand::Save)
            &&& w == "help"@ || w == "h"@ ==> r == Ok::<QuoteCommand, Seq<char>>(
                QuoteCommand::Help,
            )
        }),
{
    reveal_strlit("config");
    reveal_strlit("history");
    reveal_strlit("his");
    reveal_strlit("s");
    reveal_strlit("help");
    reveal_strlit("h");
    assert("config"@.len() != "history"@.len());
    assert("config"@.len() != "his"@.len());
    assert("config"@.len() != "s"@.len());
    assert("config"@.len() != "help"@.len());
    assert("config"@.len() != "h"@.len());
    assert("history"@.len() != "his"@.len());
    assert("history"@.len() != "s"@.len());
    assert("history"@.len() != "help"@.len());
    assert("history"@.len() != "h"@.len());
    assert("his"@.len() != "s"@.len());
    assert("his"@.len() != "help"@.len());
    assert("his"@.len() != "h"@.len());
    assert("s"@.len() != "help"@.len());
    assert("s"@[0] != "h"@[0]);
    assert("help"@.len() != "h"@.len());
    assert((seq![first] + more)[0] == first);
}

/// The messages of a quote are the first ones in their order, without the command itself, and as many as
/// were asked for, if there are so many.
pub proof fn law_picked(ids: Seq<i32>, command: i32, count: nat)
    ensures
        ({
            let p = picked(ids, command, count);
            &&& p.len() <= count
            &&& forall|i: int|
                0 <= i < p.len() ==> 0 <= (#[trigger] p[i]) < ids.len() && ids[p[i]] != command
            &&& forall|i: int, j: int| 0 <= i < j < p.len() ==> (#[trigger] p[i]) < (#[trigger] p[j])
            &&& forall|k: int|
                0 <= k < ids.len() && ids[k] != command ==> #[trigger] p.contains(k) || (p.len()
                    == count && (count > 0 ==> p[count - 1] < k))
        }),
    decreases ids.len(),
{
    if ids.len() > 0 {
        let before = picked(ids.drop_last(), command, count);
        let p = picked(ids, command, count);
        law_picked(ids.drop_last(), command, count);
        assert forall|i: int| 0 <= i < p.len() implies 0 <= (#[trigger] p[i]) < ids.len()
            && ids[p[i]] != command by {
            if i < before.len() {
                assert(p[i] == before[i]);
                assert(ids.drop_last()[before[i]] == ids[before[i]]);
            }
        }
        assert forall|i: int, j: int| 0 <= i < j < p.len() implies (#[trigger] p[i]) < (
        #[trigger] p[j]) by {
            assert(p[i] == before[i]);
            if j < before.len() {
                assert(p[j] == before[j]);
            }
        }
        assert forall|k: int| 0 <= k < ids.len() && ids[k] != command implies #[trigger] p.contains(k)
            || (p.len() == count && (count > 0 ==> p[count - 1] < k)) by {
            if k < ids.len() - 1 {
                assert(ids.drop_last()[k] == ids[k]);
                if before.contains(k) {
                    let i = choose|i: int| 0 <= i < before.len() && before[i] == k;
                    assert(p[i] == k);
                } else {
                    assert(before.len() == count);
                    assert(p == before);
                }
            } else if before.len() < count {
                assert(p[before.len() as int] == k);
            } else {
                assert(p == before);
            }
        }
    }
}

/// The archive is switched by words, and holds between 1 and 500 quotes.
pub proof fn law_archive_settings(value: Seq<char>, n: nat)
    requires
        n <= usize::MAX,
    ensures
        ({
            let w = scan::lowered(scan::trimmed(value));
            &&& w == "on"@ || w == "true"@ || w == "1"@ || w == "yes"@ ==> history_switch(value)
                == Ok::<bool, Seq<char>>(true)
            &&& w == "off"@ || w == "false"@ || w == "0"@ || w == "no"@ ==> history_switch(value)
                == Ok::<bool, Seq<char>>(false)
            &&& history_switch(value) is Ok ==> seq![
                "on"@,
                "true"@,
                "1"@,
                "yes"@,
                "off"@,
                "false"@,
                "0"@,
                "no"@,
            ].contains(w)
        }),
        1 <= n <= 500 ==> limit_setting(number::decimal(n)) == Ok::<usize, Seq<char>>(n as usize),
        n == 0 || n > 500 ==> limit_setting(number::decimal(n)) is Err,
        STICKER_SET_SETTING@ == "quote.sticker_set_short_name"@,
        HISTORY_ENABLED_SETTING@ == "quote.history.enabled"@,
        HISTORY_LIMIT_SETTING@ == "quote.history.limit"@,
{
    reveal_strlit("on");
    reveal_strlit("true");
    reveal_strlit("1");
    reveal_strlit("yes");
    reveal_strlit("off");
    reveal_strlit("false");
    reveal_strlit("0");
    reveal_strlit("no");
    assert("on"@.len() != "true"@.len());
    assert("on"@.len() != "1"@.len());
    assert("on"@.len() != "yes"@.len());
    assert("on"@.len() != "off"@.len());
    assert("on"@.len() != "false"@.len());
    assert("on"@.len() != "0"@.len());
    assert("on"@[0] != "no"@[0]);
    assert("true"@.len() != "1"@.len());
    assert("true"@.len() != "yes"@.len());
    assert("true"@.len() != "off"@.len());
    assert("true"@.len() != "false"@.len());
    assert("true"@.len() != "0"@.len());
    assert("true"@.len() != "no"@.len());
    assert("1"@.len() != "yes"@.len());
    assert("1"@.len() != "off"@.len());
    assert("1"@.len() != "false"@.len());
    assert("1"@[0] != "0"@[0]);
    assert("1"@.len() != "no"@.len());
    assert("yes"@[0] != "off"@[0]);
    assert("yes"@.len() != "false"@.len());
    assert("yes"@.len() != "0"@.len());
    assert("yes"@.len() != "no"@.len());
    assert("off"@.len() != "false"@.len());
    assert("off"@.len() != "0"@.len());
    assert("off"@.len() != "no"@.len());
    assert("false"@.len() != "0"@.len());
    assert("false"@.len() != "no"@.len());
    assert("0"@.len() != "no"@.len());
    number::law_decimal_round_trip(n, usize::MAX as nat);
    let all = seq!["on"@, "true"@, "1"@, "yes"@, "off"@, "false"@, "0"@, "no"@];
    assert(all[0] == "on"@ && all[1] == "true"@ && all[2] == "1"@ && all[3] == "yes"@);
    assert(all[4] == "off"@ && all[5] == "false"@ && all[6] == "0"@ && all[7] == "no"@);
}

/// Without settings, what the configuration says is in force.
pub proof fn law_quote_defaults(name: Seq<char>, on: bool, limit: usize)
    ensures
        ({
            let none = Map::<Seq<char>, Seq<char>>::empty();
            &&& sticker_set_in_force(none, name) == name
            &&& switch_in_force(none, on) == Ok::<bool, Seq<char>>(on)
            &&& 1 <= limit <= 500 ==> limit_in_force(none, limit) == Ok::<usize, Seq<char>>(limit)
            &&& !on ==> archive_limit(none, on, limit) == Ok::<Option<usize>, Seq<char>>(None)
            &&& on && 1 <= limit <= 500 ==> archive_limit(none, on, limit) == Ok::<
                Option<usize>,
                Seq<char>,
            >(Some(limit))
        }),
{
}

/// What a command about the settings of quotes writes: the sticker set's name as it was given, whether quotes
/// are archived, and how many.
pub proof fn law_quote_changes(word: Seq<char>, name: Seq<char>, on: Seq<char>, n: nat)
    requires
        1 <= n <= 500,
        0 < text::utf8_len(name) <= 64,
        forall|i: int|
            0 <= i < name.len() ==> ('a' <= #[trigger] name[i] <= 'z') || ('A' <= name[i] <= 'Z')
                || ('0' <= name[i] <= '9') || name[i] == '_',
        scan::lowered(word) == "sticker"@ || scan::lowered(word) == "stickerset"@ || scan::lowered(
            word,
        ) == "set"@,
        scan::lowered(on) == "on"@ || scan::lowered(on) == "off"@,
    ensures
        config_plan(Seq::empty()) == Ok::<QuoteConfigModel, Seq<char>>(QuoteConfigModel::Show),
        config_plan(seq![word, name]) matches Ok(QuoteConfigModel::Put { key, value, reply }) && key
            == "quote.sticker_set_short_name"@ && value == name && scan::ends(
            reply,
            "\nhttps://t.me/addstickers/"@ + name,
        ),
        config_plan(seq!["history"@, on]) matches Ok(QuoteConfigModel::Put { key, value, reply })
            && key == "quote.history.enabled"@ && value == (if scan::lowered(on) == "on"@ {
            "true"@
        } else {
            "false"@
        }),
        config_plan(seq!["history"@, "limit"@, number::decimal(n)]) matches Ok(
            QuoteConfigModel::Put { key, value, reply },
        ) && key == "quote.history.limit"@ && value == number::decimal(n),
{
    reveal_strlit("sticker");
    reveal_strlit("stickerset");
    reveal_strlit("set");
    reveal_strlit("history");
    reveal_strlit("archive");
    assert("sticker"@.len() != "stickerset"@.len());
    assert("sticker"@.len() != "set"@.len());
    assert("sticker"@[0] != "history"@[0]);
    assert("sticker"@[0] != "archive"@[0]);
    assert("stickerset"@.len() != "set"@.len());
    assert("stickerset"@.len() != "history"@.len());
    assert("stickerset"@.len() != "archive"@.len());
    assert("set"@.len() != "history"@.len());
    assert("set"@.len() != "archive"@.len());
    assert("history"@[0] != "archive"@[0]);
    reveal_strlit("on");
    reveal_strlit("off");
    reveal_strlit("true");
    reveal_strlit("false");
    reveal_strlit("limit");
    reveal_strlit("1");
    reveal_strlit("yes");
    reveal_strlit("0");
    reveal_strlit("no");
    assert("on"@.len() != "off"@.len());
    assert("on"@.len() != "true"@.len());
    assert("on"@.len() != "false"@.len());
    assert("on"@.len() != "limit"@.len());
    assert("on"@.len() != "1"@.len());
    assert("on"@.len() != "yes"@.len());
    assert("on"@.len() != "0"@.len());
    assert("on"@[0] != "no"@[0]);
    assert("off"@.len() != "true"@.len());
    assert("off"@.len() != "false"@.len());
    assert("off"@.len() != "limit"@.len());
    assert("off"@.len() != "1"@.len());
    assert("off"@[0] != "yes"@[0]);
    assert("off"@.len() != "0"@.len());
    assert("off"@.len() != "no"@.len());
    assert("true"@.len() != "false"@.len());
    assert("true"@.len() != "limit"@.len());
    assert("true"@.len() != "1"@.len());
    assert("true"@.len() != "yes"@.len());
    assert("true"@.len() != "0"@.len());
    assert("true"@.len() != "no"@.len());
    assert("false"@[0] != "limit"@[0]);
    assert("false"@.len() != "1"@.len());
    assert("false"@.len() != "yes"@.len());
    assert("false"@.len() != "0"@.len());
    assert("false"@.len() != "no"@.len());
    assert("limit"@.len() != "1"@.len());
    assert("limit"@.len() != "yes"@.len());
    assert("limit"@.len() != "0"@.len());
    assert("limit"@.len() != "no"@.len());
    assert("1"@.len() != "yes"@.len());
    assert("1"@[0] != "0"@[0]);
    assert("1"@.len() != "no"@.len());
    assert("yes"@.len() != "0"@.len());
    assert("yes"@.len() != "no"@.len());
    assert("0"@.len() != "no"@.len());
    let a = seq![word, name];
    assert(a.skip(1) =~= seq![name]);
    assert(a[0] == word);
    assert(scan::joined(seq![name], "_"@) == name);
    assert forall|i: int| 0 <= i < name.len() implies set_name_char(#[trigger] name[i]) by {}
    let reply = "✅ 贴纸包已设置为 "@ + name + "\nhttps://t.me/addstickers/"@ + name;
    let tail = "\nhttps://t.me/addstickers/"@ + name;
    assert(reply.subrange(reply.len() - tail.len(), reply.len() as int) =~= tail);
    assert(scan::lowered("history"@) =~= "history"@);
    assert(scan::lowered("limit"@) =~= "limit"@);
    let b = seq!["history"@, on];
    assert(b[0] == "history"@ && b[1] == on);
    let w = scan::lowered(on);
    let none = Seq::<char>::empty();
    scan::law_trim(none, w, none);
    assert(none + w + none =~= w);
    assert(scan::lowered(w) =~= w);
    let c = seq!["history"@, "limit"@, number::decimal(n)];
    assert(c[0] == "history"@ && c[1] == "limit"@ && c[2] == number::decimal(n));
    law_archive_settings(none, n);
}

proof fn lemma_small_double(n: nat)
    requires
        n < 9_007_199_254_740_992,
    ensures
        double_of(n) == n,
{
    let unit = unit_of(n, 1);
    assert(unit == 1);
    let r = rounded(n, 1);
    assert(r == n);
    assert(r * unit == r) by (nonlinear_arith)
        requires
            unit == 1,
    ;
}

/// A size is given in bytes below a KiB, and in whole units with one decimal where it is a multiple of one.
pub proof fn law_byte_sizes(n: nat)
    requires
        n < 1024,
    ensures
        byte_size(n) == number::decimal(n) + " B"@,
        n > 0 ==> byte_size(1024 * n) == number::decimal(n) + "."@ + number::decimal(0) + " KiB"@,
        n > 0 ==> byte_size(1_048_576 * n) == number::decimal(n) + "."@ + number::decimal(0)
            + " MiB"@,
{
    lemma_small_double(1024 * n);
    lemma_small_double(1_048_576 * n);
    assert(rounded(1024 * n * 10, 1024) == 10 * n);
    assert(rounded(1_048_576 * n * 10, 1_048_576) == 10 * n);
}

/// What each kind of picture is called: to the service, as a file, and where it is shown.
pub proof fn law_output_names()
    ensures
        QuoteOutput::Sticker.api_name() == "quote"@,
        QuoteOutput::Image.api_name() == "image"@,
        QuoteOutput::Stories.api_name() == "stories"@,
        QuoteOutput::Sticker.format_name() == "webp"@,
        QuoteOutput::Image.format_name() == "png"@,
        QuoteOutput::Stories.format_name() == "png"@,
        QuoteOutput::Sticker.shown_name() == "贴纸"@,
        QuoteOutput::Image.shown_name() == "图片"@,
        QuoteOutput::Stories.shown_name() == "故事图"@,
{
}

/// A size is written to the nearest tenth of its unit; of two tenths that are as near, the even one.
pub proof fn law_byte_size_in_kib(n: nat) -> (tenths: nat)
    requires
        1024 <= n < 1_048_576,
    ensures
        byte_size(n) == number::decimal(tenths / 10) + "."@ + number::decimal(tenths % 10)
            + " KiB"@,
        -512 <= 10 * n - 1024 * tenths <= 512,
        10 * n - 1024 * tenths == 512 || 10 * n - 1024 * tenths == -512 ==> tenths % 2 == 0,
{
    lemma_small_double(n);
    rounded(n * 10, 1024)
}

/// A size from one MiB on is written to the nearest tenth of a MiB.
pub proof fn law_byte_size_in_mib(n: nat) -> (tenths: nat)
    requires
        1_048_576 <= n < 9_007_199_254_740_992,
    ensures
        byte_size(n) == number::decimal(tenths / 10) + "."@ + number::decimal(tenths % 10)
            + " MiB"@,
        -524_288 <= 10 * n - 1_048_576 * tenths <= 524_288,
        10 * n - 1_048_576 * tenths == 524_288 || 10 * n - 1_048_576 * tenths == -524_288
            ==> tenths % 2 == 0,
{
    lemma_small_double(n);
    rounded(n * 10, 1_048_576)
}

/// A double holds whole numbers below 2^53 exactly, and between that and twice that the even ones; of the
/// two even neighbours of an odd number it holds the one that four divides.
pub proof fn law_doubles(n: nat)
    ensures
        n < 9_007_199_254_740_992 ==> double_of(n) == n,
        9_007_199_254_740_992 <= n < 18_014_398_509_481_984 ==> {
            &&& n % 2 == 0 ==> double_of(n) == n
            &&& n % 4 == 1 ==> double_of(n) == n - 1
            &&& n % 4 == 3 ==> double_of(n) == n + 1
        },
{
    if n < 9_007_199_254_740_992 {
        lemma_small_double(n);
    } else if n < 18_014_398_509_481_984 {
        assert(n / 1 == n);
        assert(n / 2 < 9_007_199_254_740_992);
        assert(unit_of(n, 2) == 2);
        assert(unit_of(n, 1) == unit_of(n, 2));
        assert(rounded(n, 2) == if n % 4 == 3 {
            (n / 2 + 1) as nat
        } else {
            n / 2
        });
    }
}

/// A quote is listed by at most 180 characters, and ten quotes are listed.
pub proof fn law_limits()
    ensures
        MAX_HISTORY_PREVIEW_CHARS == 180,
        LISTED_ENTRIES == 10,
{
}

/// A sticker set is named by all the words, with underscores between them. The name has 1 to 64 bytes, all of
/// them of letters, digits and underscores.
pub proof fn law_sticker_set_name(args: Seq<Seq<char>>)
    requires
        args.len() > 0,
        scan::lowered(args[0]) == "sticker"@ || scan::lowered(args[0]) == "stickerset"@
            || scan::lowered(args[0]) == "set"@,
    ensures
        ({
            let name = scan::joined(args.skip(1), "_"@);
            let fine = 1 <= text::utf8_len(name) <= 64 && forall|i: int|
                0 <= i < name.len() ==> text::is_alnum(#[trigger] name[i]) || name[i] == '_';
            &&& fine ==> config_plan(args) == Ok::<QuoteConfigModel, Seq<char>>(
                QuoteConfigModel::Put {
                    key: "quote.sticker_set_short_name"@,
                    value: name,
                    reply: "✅ 贴纸包已设置为 "@ + name + "\nhttps://t.me/addstickers/"@ + name,
                },
            )
            &&& !fine ==> config_plan(args) is Err
        }),
{
    let name = scan::joined(args.skip(1), "_"@);
    if set_name_problem(name) is None {
        assert forall|i: int| 0 <= i < name.len() implies text::is_alnum(#[trigger] name[i])
            || name[i] == '_' by {
            assert(set_name_char(name[i]));
        }
    } else if 1 <= text::utf8_len(name) <= 64 {
        let i = choose|i: int| 0 <= i < name.len() && !set_name_char(#[trigger] name[i]);
        assert(!(text::is_alnum(name[i]) || name[i] == '_'));
    }
}

/// A command names a setting of quotes or is refused.
pub proof fn law_unknown_quote_setting(args: Seq<Seq<char>>)
    requires
        args.len() > 0,
        scan::lowered(args[0]) != "sticker"@,
        scan::lowered(args[0]) != "stickerset"@,
        scan::lowered(args[0]) != "set"@,
        scan::lowered(args[0]) != "history"@,
        scan::lowered(args[0]) != "archive"@,
    ensures
        config_plan(args) == Err::<QuoteConfigModel, Seq<char>>("未知配置项；可用：sticker、history"@),
{
}

/// A setting of quotes that was changed is in force. The number of quotes that are kept lies between 1 and
/// 500, whether it was set or is the default.
pub proof fn law_kept_quote_settings(
    m: Map<Seq<char>, Seq<char>>,
    name: Seq<char>,
    on: bool,
    default: usize,
)
    ensures
        limit_in_force(m, default) matches Ok(n) ==> 1 <= n <= 500,
        !m.contains_key("quote.history.limit"@) && !(1 <= default <= 500) ==> limit_in_force(
            m,
            default,
        ) == Err::<usize, Seq<char>>("语录存档数量必须在 1 到 500 之间"@),
        m.get("quote.history.limit"@) matches Some(value) ==> limit_in_force(m, default)
            == limit_setting(value),
        m.get("quote.history.enabled"@) matches Some(value) ==> switch_in_force(m, on)
            == history_switch(value),
        m.get("quote.sticker_set_short_name"@) matches Some(value) ==> sticker_set_in_force(m, name)
            == value,
{
}

/// One number may follow what a quote is made into, and nothing may follow the number; without a number one
/// message is quoted.
pub proof fn law_asked_count(args: Seq<Seq<char>>, at: int)
    requires
        0 <= at,
    ensures
        at >= args.len() ==> asked_count(args, at) == Ok::<usize, Seq<char>>(1),
        args.len() > at + 1 ==> asked_count(args, at) is Err,
        args.len() == at + 1 ==> match number::unsigned_value(args[at], usize::MAX as nat) {
            Ok(n) => asked_count(args, at) == Ok::<usize, Seq<char>>(n as usize),
            Err(e) => asked_count(args, at) == Err::<usize, Seq<char>>(
                "消息数必须是数字"@ + ": "@ + e.wording(),
            ),
        },
{
}

} // verus!
