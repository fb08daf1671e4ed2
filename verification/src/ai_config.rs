//! Looking at and changing the settings of the AI commands while the program runs.

use crate::ai_context;
use crate::ai_context::ContextModel;
use crate::ai_context::ContextOutcome;
use crate::ai_runtime;
use crate::ai_runtime::AiDefaults;
use crate::ai_runtime::AiRuntime;
use crate::ai_runtime::AiRuntimeOptions;
use crate::ai_runtime::AiSetting;
use crate::ai_runtime::DefaultsModel;
use crate::ai_runtime::RuntimeModel;
use crate::base_url;
use crate::config;
use crate::config::AiApiFormat;
use crate::config::AiConfig;
use crate::config::AiConfigModel;
use crate::config::MessagesConfig;
use crate::config::MessagesModel;
use crate::failure::Failure;
use crate::number;
use crate::scan;
use crate::settings;
use crate::settings::Settings;
use crate::text;
use vstd::prelude::*;

verus! {

pub const HELP_HEAD: &'static str = "# 🤖 TeleBot AI 帮助\n\n\
## 基本用法\n\n\
- `.ai <问题>` — 按当前默认模式回答；现在默认是 **";

pub const HELP_GUIDE: &'static str = "**。\n\
- `.ai search <问题>` / `.ai s <问题>` — 强制使用当前 API 格式的原生搜索；Chat Completions 不提供标准搜索。\n\
- `.ai chat <问题>` / `.ai c <问题>` — 强制不联网，直接使用模型回答。\n\
- `.ai status` / `.ai config` — 查看当前生效配置，不显示 Key 内容。\n\
- `.ai help` / `.ai ?` — 显示本帮助。\n\n\
## 回复消息与图片\n\n\
- 回复一条文字消息再发送 `.ai`：把被回复文字作为问题。\n\
- 回复图片、静态贴纸或带图消息：图片会按当前 API 格式一并提交。\n\
- 回复图片后发送 `.ai <问题>`：结合图片和你的问题联网搜索。\n\
- 回复图片后发送 `.ai chat <问题>`：结合图片回答，但不联网。\n\
- 最多处理 4 张图片；单张不超过 8 MiB，总计不超过 12 MiB。\n\n\
## 上下文记忆\n\n\
- `.ai context` — 查看当前聊天的上下文设置。\n\
- `.ai context on` — 开启默认 6 轮上下文。\n\
- `.ai context <1-20>` — 设置保留轮数。\n\
- `.ai context off` — 停止继续使用上下文。\n\
- `.ai reset` — 清除当前聊天已经保存的上下文。\n\n\
## 动态配置（仅限收藏夹）\n\n\
- `.ai config provider <API格式> <名称> <BaseURL>` — 更换 API 格式、显示名称和端点。\n\
- API 格式：`gemini_interactions`、`openai_chat_completions`、`openai_responses`。\n\
- `.ai config key <Key>` — 设置并持久化 Key；消息会先被隐藏，Key 不回显。\n\
- `.ai config clear-key` — 改回服务器环境变量中的 Key。\n\
- `.ai config model <主模型> [搜索备用模型|off]` — 更换模型。\n\
- `.ai config prompt <系统提示词>` — 修改系统提示词。\n\
- `.ai config thinking <minimal|low|medium|high>` — 修改思考等级。\n\
- `.ai config search <on|off>` — 设置裸 `.ai` 是否默认联网。\n\
- `.ai config timeout <文字秒> <图片秒> <切备用秒> <兜底秒>` — 修改四类时限。\n\
- `.ai config tokens <1-65536>` — 修改最大输出 Token。\n\
- `.ai config collapse <on|off>` — 设置 Q/A 是否使用可折叠引用。\n\
- `.ai config message searching <文案>` — 修改搜索进度文案。\n\
- `.ai config message thinking <文案>` — 修改思考进度文案。\n\
- `.ai config reload` — 重新读取服务器 TOML；SQLite 动态覆盖仍优先。\n\
- `.ai config reset` — 清除全部 AI 动态覆盖，恢复服务器 TOML。\n\n\
## 当前关键参数\n\n\
- 主模型：`";

// ---------------------------------------------------------------------------------------------
// Showing the settings
// ---------------------------------------------------------------------------------------------

pub open spec fn key_words(overridden: bool) -> Seq<char> {
    if overridden {
        "已设置自定义 Key"@
    } else {
        "使用服务器环境变量"@
    }
}

pub open spec fn switch_words(on: bool) -> Seq<char> {
    if on {
        "开启"@
    } else {
        "关闭"@
    }
}

pub open spec fn mode_words(search: bool) -> Seq<char> {
    if search {
        "联网搜索"@
    } else {
        "普通回答"@
    }
}

pub open spec fn search_words(format: AiApiFormat) -> Seq<char> {
    match format {
        AiApiFormat::GeminiInteractions => "Google Search / Gemini Interactions"@,
        AiApiFormat::OpenaiResponses => "web_search / OpenAI Responses"@,
        AiApiFormat::OpenaiChatCompletions => "不支持（Chat Completions 无标准搜索工具）"@,
    }
}

pub open spec fn context_words(turns: usize) -> Seq<char> {
    if turns == 0 {
        "关闭"@
    } else {
        "开启（"@ + number::decimal(turns as nat) + " 轮）"@
    }
}

/// The model of the second search request.
pub open spec fn second_of(r: RuntimeModel) -> Seq<char> {
    ai_runtime::second_model(r.primary_model, r.search_fallback_model)
}

/// The settings in force, in Markdown, with the number of turns that are kept of the chat.
pub open spec fn status_of(r: RuntimeModel, turns: usize) -> Seq<char> {
    "🤖 **telebot AI**\n\n- 服务商：`"@ + r.provider_name + "`\n- API 格式：`"@ + r.api_format.name() + "`\n- BaseURL：`"@ + r.base_url + "`\n- Key：**"@ + key_words(r.key_overridden) + "**\n- 主模型：`"@ + r.primary_model + "`\n- 搜索备用模型：`"@ + second_of(r) + "`\n- 原生搜索：`"@ + search_words(r.api_format) + "`\n- 思考等级：`"@ + r.config.thinking_level + "`（仅 Gemini Interactions 使用）\n- 裸命令默认搜索：**"@ + switch_words(r.config.default_search) + "**\n- 自动记忆上下文：**"@ + context_words(turns) + "**\n- 回复消息：作为本次请求上下文\n- Q/A 引用折叠："@ + switch_words(r.config.collapse_long_messages) + "\n- 纯文字搜索总时限："@ + number::decimal(r.config.search_timeout_seconds as nat) + " 秒\n- 带图搜索总时限："@ + number::decimal(r.config.image_search_timeout_seconds as nat) + " 秒\n- 慢请求切备用模型："@ + number::decimal(r.config.search_hedge_seconds as nat) + " 秒\n- 无搜索兜底时限："@ + number::decimal(r.config.fallback_timeout_seconds as nat) + " 秒\n- 最大输出："@ + number::decimal(r.config.max_output_tokens as nat) + " Token\n- 系统提示词："@ + number::decimal(r.config.system_prompt.len()) + " 字\n- 搜索进度："@ + r.messages.ai_searching + "\n- 思考进度："@ + r.messages.ai_thinking + "\n- 并发上限："@ + number::decimal(r.config.max_concurrent as nat) + "（修改后需重启）"@
}

/// How the AI commands are used, in Markdown.
pub open spec fn help_of(r: RuntimeModel) -> Seq<char> {
    HELP_HEAD@ + mode_words(r.config.default_search) + HELP_GUIDE@ + r.primary_model + "`\n- 搜索备用：`"@ + second_of(r) + "`\n- 思考等级：`"@ + r.config.thinking_level + "`\n- 文字/带图搜索时限：`"@ + number::decimal(r.config.search_timeout_seconds as nat) + "` / `"@ + number::decimal(r.config.image_search_timeout_seconds as nat) + "` 秒\n- 搜索进度："@ + r.messages.ai_searching + "\n- 思考进度："@ + r.messages.ai_thinking + "\n\n> 配置修改会立即生效并保存到本机 SQLite，不需要重新编译。服务商、BaseURL、模型和 Key 会先验证格式；危险或无效值会被拒绝。"@
}

/// What is shown of the settings does not depend on the key: neither the overview nor the guide tells
/// it, or anything about it but whether it was set at run time.
pub proof fn law_key_is_not_shown(r: RuntimeModel, turns: usize, key: Seq<char>)
    ensures
        status_of(RuntimeModel { api_key: key, ..r }, turns) == status_of(r, turns),
        help_of(RuntimeModel { api_key: key, ..r }) == help_of(r),
{
}

pub fn native_search_description(api_format: AiApiFormat) -> (r: &'static str)
    ensures
        r@ == search_words(api_format),
{
    match api_format {
        AiApiFormat::GeminiInteractions => "Google Search / Gemini Interactions",
        AiApiFormat::OpenaiResponses => "web_search / OpenAI Responses",
        AiApiFormat::OpenaiChatCompletions => "不支持（Chat Completions 无标准搜索工具）",
    }
}

fn switch_label(on: bool) -> (r: &'static str)
    ensures
        r@ == switch_words(on),
{
    if on {
        "开启"
    } else {
        "关闭"
    }
}

fn context_label(turns: usize) -> (r: String)
    ensures
        r@ == context_words(turns),
{
    if turns == 0 {
        return "关闭".to_owned();
    }
    let mut out = "开启（".to_owned();
    out.append(number::write(turns as u64).as_str());
    out.append(" 轮）");
    out
}

/// The settings in force, in Markdown. `turns` is how many turns are kept of the chat.
pub fn status_text(runtime: &AiRuntime, turns: usize) -> (r: String)
    ensures
        r@ == status_of(runtime@, turns),
{
    let mut out = "🤖 **telebot AI**\n\n- 服务商：`".to_owned();
    out.append(runtime.provider_name.as_str());
    out.append("`\n- API 格式：`");
    out.append(runtime.api_format.as_str());
    out.append("`\n- BaseURL：`");
    out.append(runtime.base_url.as_str());
    out.append("`\n- Key：**");
    out.append(if runtime.key_overridden { "已设置自定义 Key" } else { "使用服务器环境变量" });
    out.append("**\n- 主模型：`");
    out.append(runtime.primary_model.as_str());
    out.append("`\n- 搜索备用模型：`");
    out.append(runtime.second_search_model());
    out.append("`\n- 原生搜索：`");
    out.append(native_search_description(runtime.api_format));
    out.append("`\n- 思考等级：`");
    out.append(runtime.config.thinking_level.as_str());
    out.append("`（仅 Gemini Interactions 使用）\n- 裸命令默认搜索：**");
    out.append(switch_label(runtime.config.default_search));
    out.append("**\n- 自动记忆上下文：**");
    out.append(context_label(turns).as_str());
    out.append("**\n- 回复消息：作为本次请求上下文\n- Q/A 引用折叠：");
    out.append(switch_label(runtime.config.collapse_long_messages));
    out.append("\n- 纯文字搜索总时限：");
    out.append(number::write(runtime.config.search_timeout_seconds).as_str());
    out.append(" 秒\n- 带图搜索总时限：");
    out.append(number::write(runtime.config.image_search_timeout_seconds).as_str());
    out.append(" 秒\n- 慢请求切备用模型：");
    out.append(number::write(runtime.config.search_hedge_seconds).as_str());
    out.append(" 秒\n- 无搜索兜底时限：");
    out.append(number::write(runtime.config.fallback_timeout_seconds).as_str());
    out.append(" 秒\n- 最大输出：");
    out.append(number::write(runtime.config.max_output_tokens as u64).as_str());
    out.append(" Token\n- 系统提示词：");
    out.append(number::write(text::char_len(runtime.config.system_prompt.as_str()) as u64).as_str());
    out.append(" 字\n- 搜索进度：");
    out.append(runtime.messages.ai_searching.as_str());
    out.append("\n- 思考进度：");
    out.append(runtime.messages.ai_thinking.as_str());
    out.append("\n- 并发上限：");
    out.append(number::write(runtime.config.max_concurrent as u64).as_str());
    out.append("（修改后需重启）");
    out
}

/// How the AI commands are used, in Markdown.
pub fn help_text(runtime: &AiRuntime) -> (r: String)
    ensures
        r@ == help_of(runtime@),
{
    let mut out = HELP_HEAD.to_owned();
    out.append(if runtime.config.default_search { "联网搜索" } else { "普通回答" });
    out.append(HELP_GUIDE);
    out.append(runtime.primary_model.as_str());
    out.append("`\n- 搜索备用：`");
    out.append(runtime.second_search_model());
    out.append("`\n- 思考等级：`");
    out.append(runtime.config.thinking_level.as_str());
    out.append("`\n- 文字/带图搜索时限：`");
    out.append(number::write(runtime.config.search_timeout_seconds).as_str());
    out.append("` / `");
    out.append(number::write(runtime.config.image_search_timeout_seconds).as_str());
    out.append("` 秒\n- 搜索进度：");
    out.append(runtime.messages.ai_searching.as_str());
    out.append("\n- 思考进度：");
    out.append(runtime.messages.ai_thinking.as_str());
    out.append("\n\n> 配置修改会立即生效并保存到本机 SQLite，不需要重新编译。服务商、BaseURL、模型和 Key 会先验证格式；危险或无效值会被拒绝。");
    out
}

// ---------------------------------------------------------------------------------------------
// Changes
// ---------------------------------------------------------------------------------------------

/// What is to be done to the settings that are kept.
pub enum SettingWrite {
    Put(AiSetting, String),
    Delete(AiSetting),
    /// Delete all that were changed at run time.
    Clear,
}

pub enum WriteModel {
    Put(AiSetting, Seq<char>),
    Delete(AiSetting),
    Clear,
}

/// A change of the settings: what is to be kept, what is in force from now on, and what is answered.
pub struct ConfigChange {
    pub writes: Vec<SettingWrite>,
    pub runtime: AiRuntime,
    pub reply: String,
}

#[verifier::ext_equal]
pub struct ChangeModel {
    pub writes: Seq<WriteModel>,
    pub runtime: RuntimeModel,
    pub reply: Seq<char>,
}

/// What a command about the settings leads to.
pub enum ConfigOutcome {
    /// Something to show, in Markdown.
    Markdown(String),
    Change(ConfigChange),
    /// The context of the chat.
    Context(ContextOutcome),
    /// The configuration is to be read again.
    Reload,
}

pub enum OutcomeModel {
    Markdown(Seq<char>),
    Change(ChangeModel),
    Context(ContextModel),
    Reload,
}

impl View for SettingWrite {
    type V = WriteModel;

    open spec fn view(&self) -> WriteModel {
        match *self {
            SettingWrite::Put(s, value) => WriteModel::Put(s, value@),
            SettingWrite::Delete(s) => WriteModel::Delete(s),
            SettingWrite::Clear => WriteModel::Clear,
        }
    }
}

pub open spec fn writes_of(v: Seq<SettingWrite>) -> Seq<WriteModel> {
    Seq::new(v.len(), |i: int| v[i]@)
}

impl View for ConfigChange {
    type V = ChangeModel;

    open spec fn view(&self) -> ChangeModel {
        ChangeModel {
            writes: writes_of(self.writes@),
            runtime: self.runtime@,
            reply: self.reply@,
        }
    }
}

impl View for ConfigOutcome {
    type V = OutcomeModel;

    open spec fn view(&self) -> OutcomeModel {
        match *self {
            ConfigOutcome::Markdown(s) => OutcomeModel::Markdown(s@),
            ConfigOutcome::Change(c) => OutcomeModel::Change(c@),
            ConfigOutcome::Context(o) => OutcomeModel::Context(o@),
            ConfigOutcome::Reload => OutcomeModel::Reload,
        }
    }
}

pub open spec fn config_outcome(r: Result<ConfigOutcome, Failure>) -> Result<
    OutcomeModel,
    Seq<char>,
> {
    match r {
        Ok(o) => Ok(o@),
        Err(e) => Err(e@),
    }
}

pub open spec fn change_outcome(r: Result<ConfigChange, Failure>) -> Result<
    ChangeModel,
    Seq<char>,
> {
    match r {
        Ok(c) => Ok(c@),
        Err(e) => Err(e@),
    }
}

pub open spec fn written(
    m: Map<Seq<char>, Seq<char>>,
    w: WriteModel,
) -> Map<Seq<char>, Seq<char>> {
    match w {
        WriteModel::Put(s, value) => m.insert(s.name(), value),
        WriteModel::Delete(s) => m.remove(s.name()),
        WriteModel::Clear => settings::without_prefix(m, ai_runtime::setting_prefix()),
    }
}

/// The settings that are kept after a change.
pub open spec fn all_written(
    m: Map<Seq<char>, Seq<char>>,
    writes: Seq<WriteModel>,
) -> Map<Seq<char>, Seq<char>>
    decreases writes.len(),
{
    if writes.len() == 0 {
        m
    } else {
        written(all_written(m, writes.drop_last()), writes.last())
    }
}

pub fn apply_writes(store: &mut Settings, writes: &Vec<SettingWrite>)
    ensures
        final(store)@ == all_written(old(store)@, writes_of(writes@)),
{
    let ghost before = store@;
    let ghost all = writes_of(writes@);
    let n: usize = writes.len();
    let mut i: usize = 0;
    proof {
        assert(all.take(0) =~= Seq::<WriteModel>::empty());
    }
    while i < n
        invariant
            i <= n,
            n == writes@.len(),
            all == writes_of(writes@),
            store@ == all_written(before, all.take(i as int)),
        decreases n - i,
    {
        proof {
            assert(all.take(i + 1).drop_last() =~= all.take(i as int));
            assert(all.take(i + 1).last() == writes@[i as int]@);
        }
        match &writes[i] {
            SettingWrite::Put(s, value) => {
                store.set_setting(s.key(), value.as_str());
            },
            SettingWrite::Delete(s) => {
                let _count = store.delete_setting(s.key());
            },
            SettingWrite::Clear => {
                let _count = store.delete_settings_prefix(ai_runtime::AI_SETTING_PREFIX);
            },
        }
        i = i + 1;
    }
    proof {
        assert(all.take(n as int) =~= all);
    }
}

// ---------------------------------------------------------------------------------------------
// What each command does
// ---------------------------------------------------------------------------------------------

/// A change to settings that are to be in force, if they are accepted.
pub open spec fn accepted(
    o: RuntimeModel,
    writes: Seq<WriteModel>,
    reply: Seq<char>,
) -> Result<ChangeModel, Seq<char>> {
    match ai_runtime::built(o) {
        Err(e) => Err(e),
        Ok(u) => Ok(ChangeModel { writes, runtime: u, reply }),
    }
}

pub open spec fn one_write(s: AiSetting, value: Seq<char>) -> Seq<WriteModel> {
    Seq::empty().push(WriteModel::Put(s, value))
}

/// The words of a switch as it is kept.
pub open spec fn kept_switch(on: bool) -> Seq<char> {
    if on {
        "true"@
    } else {
        "false"@
    }
}

pub open spec fn provider_change(args: Seq<Seq<char>>, r: RuntimeModel) -> Result<
    ChangeModel,
    Seq<char>,
> {
    if !(3 <= args.len() <= 4) {
        Err("用法：.ai config provider [API格式] <名称> <BaseURL>"@)
    } else {
        let format = if args.len() == 4 {
            AiApiFormat::with_name(args[1])
        } else {
            Ok(r.api_format)
        };
        match format {
            Err(e) => Err(e),
            Ok(api_format) => match ai_runtime::built(
                RuntimeModel {
                    api_format,
                    provider_name: args[args.len() - 2],
                    base_url: args[args.len() - 1],
                    ..r
                },
            ) {
                Err(e) => Err(e),
                Ok(u) => Ok(
                    ChangeModel {
                        writes: Seq::empty().push(
                            WriteModel::Put(AiSetting::Provider, u.provider_name),
                        ).push(WriteModel::Put(AiSetting::ApiFormat, u.api_format.name())).push(
                            WriteModel::Put(AiSetting::BaseUrl, u.base_url),
                        ),
                        runtime: u,
                        reply: "✅ AI 服务商已更新\n名称："@ + u.provider_name
                            + "\nAPI 格式："@ + u.api_format.name() + "\nBaseURL："@ + u.base_url,
                    },
                ),
            },
        }
    }
}

pub open spec fn key_change(args: Seq<Seq<char>>, r: RuntimeModel) -> Result<
    ChangeModel,
    Seq<char>,
> {
    if args.len() != 2 {
        Err("用法：.ai config key <Key>"@)
    } else {
        match ai_runtime::api_key_problem(args[1]) {
            Some(message) => Err(message),
            None => accepted(
                RuntimeModel { api_key: args[1], key_overridden: true, ..r },
                one_write(AiSetting::Key, args[1]),
                "✅ AI Key 已更新并持久化；不会回显 Key"@,
            ),
        }
    }
}

pub open spec fn clear_key_change(r: RuntimeModel, d: DefaultsModel) -> Result<
    ChangeModel,
    Seq<char>,
> {
    accepted(
        RuntimeModel { api_key: d.env_api_key, key_overridden: false, ..r },
        Seq::empty().push(WriteModel::Delete(AiSetting::Key)),
        "✅ 已改回服务器环境变量中的 AI Key"@,
    )
}

/// The model of the second search request that a command asks for: `off` for none of its own.
pub open spec fn asked_fallback(args: Seq<Seq<char>>, r: RuntimeModel) -> Seq<char> {
    if args.len() < 3 {
        r.search_fallback_model
    } else if scan::lowered(args[2]) == scan::lowered("off"@) {
        Seq::empty()
    } else {
        args[2]
    }
}

pub open spec fn model_change(args: Seq<Seq<char>>, r: RuntimeModel) -> Result<
    ChangeModel,
    Seq<char>,
> {
    if !(2 <= args.len() <= 3) {
        Err("用法：.ai config model <主模型> [搜索备用模型|off]"@)
    } else {
        match ai_runtime::built(
            RuntimeModel {
                primary_model: args[1],
                search_fallback_model: asked_fallback(args, r),
                ..r
            },
        ) {
            Err(e) => Err(e),
            Ok(u) => Ok(
                ChangeModel {
                    writes: Seq::empty().push(
                        WriteModel::Put(AiSetting::Model, u.primary_model),
                    ).push(WriteModel::Put(AiSetting::SearchModel, u.search_fallback_model)),
                    runtime: u,
                    reply: "✅ AI 模型已更新\n主模型："@ + u.primary_model + "\n搜索备用："@
                        + second_of(u),
                },
            ),
        }
    }
}

pub open spec fn prompt_change(args: Seq<Seq<char>>, r: RuntimeModel) -> Result<
    ChangeModel,
    Seq<char>,
> {
    let value = scan::joined(args.skip(1), " "@);
    if args.len() < 2 {
        Err("用法：.ai config prompt <系统提示词>"@)
    } else {
        accepted(
            RuntimeModel { config: AiConfigModel { system_prompt: value, ..r.config }, ..r },
            one_write(AiSetting::SystemPrompt, value),
            "✅ 系统提示词已更新并立即生效"@,
        )
    }
}

pub open spec fn thinking_change(args: Seq<Seq<char>>, r: RuntimeModel) -> Result<
    ChangeModel,
    Seq<char>,
> {
    if args.len() != 2 {
        Err("用法：.ai config thinking <minimal|low|medium|high>"@)
    } else {
        let value = scan::lowered(args[1]);
        accepted(
            RuntimeModel { config: AiConfigModel { thinking_level: value, ..r.config }, ..r },
            one_write(AiSetting::ThinkingLevel, value),
            "✅ 思考等级已设置为 "@ + value,
        )
    }
}

pub open spec fn search_change(args: Seq<Seq<char>>, r: RuntimeModel) -> Result<
    ChangeModel,
    Seq<char>,
> {
    if args.len() != 2 {
        Err("用法：.ai config search <on|off>"@)
    } else {
        match ai_runtime::switch_setting("默认搜索"@, args[1]) {
            Err(e) => Err(e),
            Ok(on) => accepted(
                RuntimeModel { config: AiConfigModel { default_search: on, ..r.config }, ..r },
                one_write(AiSetting::DefaultSearch, kept_switch(on)),
                if on {
                    "✅ 裸 .ai 已设置为默认联网搜索"@
                } else {
                    "✅ 裸 .ai 已设置为默认普通回答"@
                },
            ),
        }
    }
}

/// Four time limits, or the first of them that is no number.
pub open spec fn asked_timeouts(args: Seq<Seq<char>>) -> Result<(u64, u64, u64, u64), Seq<char>> {
    let big = u64::MAX as nat;
    match (
        ai_runtime::number_setting("文字搜索时限"@, args[1], big),
        ai_runtime::number_setting("带图搜索时限"@, args[2], big),
        ai_runtime::number_setting("备用模型启动时限"@, args[3], big),
        ai_runtime::number_setting("无搜索兜底时限"@, args[4], big),
    ) {
        (Err(e), _, _, _) => Err(e),
        (_, Err(e), _, _) => Err(e),
        (_, _, Err(e), _) => Err(e),
        (_, _, _, Err(e)) => Err(e),
        (Ok(a), Ok(b), Ok(c), Ok(d)) => Ok((a as u64, b as u64, c as u64, d as u64)),
    }
}

pub open spec fn timeout_change(args: Seq<Seq<char>>, r: RuntimeModel) -> Result<
    ChangeModel,
    Seq<char>,
> {
    if args.len() != 5 {
        Err("用法：.ai config timeout <文字秒> <图片秒> <切备用秒> <兜底秒>"@)
    } else {
        match asked_timeouts(args) {
            Err(e) => Err(e),
            Ok((text, image, hedge, fallback)) => {
                let t = number::decimal(text as nat);
                let i = number::decimal(image as nat);
                let h = number::decimal(hedge as nat);
                let f = number::decimal(fallback as nat);
                accepted(
                    RuntimeModel {
                        config: AiConfigModel {
                            search_timeout_seconds: text,
                            image_search_timeout_seconds: image,
                            search_hedge_seconds: hedge,
                            fallback_timeout_seconds: fallback,
                            ..r.config
                        },
                        ..r
                    },
                    Seq::empty().push(WriteModel::Put(AiSetting::SearchTimeout, t)).push(
                        WriteModel::Put(AiSetting::ImageSearchTimeout, i),
                    ).push(WriteModel::Put(AiSetting::SearchHedge, h)).push(
                        WriteModel::Put(AiSetting::FallbackTimeout, f),
                    ),
                    "✅ AI 时限已更新\n文字："@ + t + " 秒\n图片："@ + i + " 秒\n切备用："@ + h
                        + " 秒\n兜底："@ + f + " 秒"@,
                )
            },
        }
    }
}

pub open spec fn tokens_change(args: Seq<Seq<char>>, r: RuntimeModel) -> Result<
    ChangeModel,
    Seq<char>,
> {
    if args.len() != 2 {
        Err("用法：.ai config tokens <1-65536>"@)
    } else {
        match ai_runtime::number_setting("最大输出 Token"@, args[1], u32::MAX as nat) {
            Err(e) => Err(e),
            Ok(n) => accepted(
                RuntimeModel {
                    config: AiConfigModel { max_output_tokens: n as u32, ..r.config },
                    ..r
                },
                one_write(AiSetting::MaxOutputTokens, number::decimal(n)),
                "✅ 最大输出已设置为 "@ + number::decimal(n) + " Token"@,
            ),
        }
    }
}

pub open spec fn collapse_change(args: Seq<Seq<char>>, r: RuntimeModel) -> Result<
    ChangeModel,
    Seq<char>,
> {
    if args.len() != 2 {
        Err("用法：.ai config collapse <on|off>"@)
    } else {
        match ai_runtime::switch_setting("Q/A 引用折叠"@, args[1]) {
            Err(e) => Err(e),
            Ok(on) => accepted(
                RuntimeModel {
                    config: AiConfigModel { collapse_long_messages: on, ..r.config },
                    ..r
                },
                one_write(AiSetting::Collapse, kept_switch(on)),
                if on {
                    "✅ Q/A 可折叠引用已开启"@
                } else {
                    "✅ Q/A 可折叠引用已关闭"@
                },
            ),
        }
    }
}

pub open spec fn message_change(args: Seq<Seq<char>>, r: RuntimeModel) -> Result<
    ChangeModel,
    Seq<char>,
> {
    if args.len() < 3 {
        Err("用法：.ai config message <searching|thinking> <文案>"@)
    } else {
        let kind = scan::lowered(args[1]);
        let value = scan::joined(args.skip(2), " "@);
        let reply = "✅ "@ + kind + " 进度文案已更新为："@ + value;
        if kind == "searching"@ || kind == "search"@ {
            accepted(
                RuntimeModel {
                    messages: MessagesModel { ai_searching: value, ..r.messages },
                    ..r
                },
                one_write(AiSetting::SearchingMessage, value),
                reply,
            )
        } else if kind == "thinking"@ || kind == "think"@ {
            accepted(
                RuntimeModel {
                    messages: MessagesModel { ai_thinking: value, ..r.messages },
                    ..r
                },
                one_write(AiSetting::ThinkingMessage, value),
                reply,
            )
        } else {
            Err("文案名称只能是 searching 或 thinking"@)
        }
    }
}

/// The settings where nothing was changed at run time.
pub open spec fn default_options(d: DefaultsModel) -> RuntimeModel {
    RuntimeModel {
        provider_name: ai_runtime::shown_provider(d.config.provider),
        api_format: d.config.api_format,
        base_url: d.config.base_url,
        api_key: d.env_api_key,
        primary_model: d.config.model,
        search_fallback_model: d.config.search_fallback_model,
        key_overridden: false,
        config: d.config,
        messages: d.messages,
    }
}

pub open spec fn reset_change(d: DefaultsModel) -> Result<ChangeModel, Seq<char>> {
    accepted(
        default_options(d),
        Seq::empty().push(WriteModel::Clear),
        "✅ AI 动态配置已清除，已恢复服务器配置"@,
    )
}

/// What is answered where settings may not be changed.
pub open spec fn not_saved_text() -> Seq<char> {
    "为避免泄露配置，请只在 Telegram 收藏夹中执行 AI 配置修改"@
}

pub open spec fn changed(r: Result<ChangeModel, Seq<char>>) -> Result<OutcomeModel, Seq<char>> {
    match r {
        Ok(c) => Ok(OutcomeModel::Change(c)),
        Err(e) => Err(e),
    }
}

/// What a command about the settings leads to. `saved` is whether it was given in Saved Messages,
/// `scope` the chat, and `turns` how many turns are kept of it.
pub open spec fn planned(
    args: Seq<Seq<char>>,
    saved: bool,
    scope: Seq<char>,
    turns: usize,
    r: RuntimeModel,
    d: DefaultsModel,
) -> Result<OutcomeModel, Seq<char>> {
    if args.len() == 0 || scan::lowered(args[0]) == scan::lowered("status"@) {
        Ok(OutcomeModel::Markdown(status_of(r, turns)))
    } else {
        let action = scan::lowered(args[0]);
        if action == "context"@ {
            match ai_context::context_outcome(args.skip(1), scope, turns) {
                Ok(o) => Ok(OutcomeModel::Context(o)),
                Err(e) => Err(e),
            }
        } else if !saved {
            Err(not_saved_text())
        } else if action == "provider"@ {
            changed(provider_change(args, r))
        } else if action == "key"@ {
            changed(key_change(args, r))
        } else if action == "clear-key"@ || action == "env-key"@ {
            changed(clear_key_change(r, d))
        } else if action == "model"@ {
            changed(model_change(args, r))
        } else if action == "prompt"@ {
            changed(prompt_change(args, r))
        } else if action == "thinking"@ {
            changed(thinking_change(args, r))
        } else if action == "search"@ || action == "default-search"@ {
            changed(search_change(args, r))
        } else if action == "timeout"@ || action == "timeouts"@ {
            changed(timeout_change(args, r))
        } else if action == "tokens"@ || action == "max-tokens"@ {
            changed(tokens_change(args, r))
        } else if action == "collapse"@ {
            changed(collapse_change(args, r))
        } else if action == "message"@ || action == "messages"@ {
            changed(message_change(args, r))
        } else if action == "reload"@ {
            if args.len() != 1 {
                Err("用法：.ai config reload"@)
            } else {
                Ok(OutcomeModel::Reload)
            }
        } else if action == "reset"@ {
            changed(reset_change(d))
        } else {
            Err(
                "未知配置项；可用：provider、key、clear-key、model、prompt、thinking、search、timeout、tokens、collapse、message、context、reload、reset"@,
            )
        }
    }
}

/// Settings are changed in Saved Messages and nowhere else: elsewhere a command can show them, and say
/// how much is kept of that chat, and that is all.
pub proof fn law_changes_only_in_saved_messages(
    args: Seq<Seq<char>>,
    scope: Seq<char>,
    turns: usize,
    r: RuntimeModel,
    d: DefaultsModel,
)
    ensures
        planned(args, false, scope, turns, r, d) matches Ok(o) ==> o is Markdown || o is Context,
{
}

/// The answer to a new key is the same for every key, and so is what is shown of it afterwards.
pub proof fn law_new_key_is_not_repeated(
    args: Seq<Seq<char>>,
    others: Seq<Seq<char>>,
    r: RuntimeModel,
    turns: usize,
)
    requires
        key_change(args, r) is Ok,
        key_change(others, r) is Ok,
    ensures
        ({
            let one = key_change(args, r)->Ok_0;
            let other = key_change(others, r)->Ok_0;
            &&& one.reply == other.reply
            &&& status_of(one.runtime, turns) == status_of(other.runtime, turns)
            &&& help_of(one.runtime) == help_of(other.runtime)
        }),
{
}

// ---------------------------------------------------------------------------------------------
// Doing it
// ---------------------------------------------------------------------------------------------

proof fn lemma_writes_push(v: Seq<SettingWrite>, w: SettingWrite)
    ensures
        writes_of(v.push(w)) == writes_of(v).push(w@),
{
    assert(writes_of(v.push(w)) =~= writes_of(v).push(w@));
}

fn no_writes() -> (r: Vec<SettingWrite>)
    ensures
        writes_of(r@) == Seq::<WriteModel>::empty(),
{
    let r: Vec<SettingWrite> = Vec::new();
    proof {
        assert(writes_of(r@) =~= Seq::<WriteModel>::empty());
    }
    r
}

fn and_write(v: Vec<SettingWrite>, w: SettingWrite) -> (r: Vec<SettingWrite>)
    ensures
        writes_of(r@) == writes_of(v@).push(w@),
{
    let mut r = v;
    proof {
        lemma_writes_push(r@, w);
    }
    r.push(w);
    r
}

fn set_one(s: AiSetting, value: &str) -> (r: Vec<SettingWrite>)
    ensures
        writes_of(r@) == one_write(s, value@),
{
    and_write(no_writes(), SettingWrite::Put(s, value.to_owned()))
}

fn accept(options: AiRuntimeOptions, writes: Vec<SettingWrite>, reply: &str) -> (r: Result<
    ConfigChange,
    Failure,
>)
    ensures
        change_outcome(r) == accepted(options@, writes_of(writes@), reply@),
{
    match AiRuntime::build(options) {
        Ok(runtime) => Ok(ConfigChange { writes, runtime, reply: reply.to_owned() }),
        Err(e) => Err(e),
    }
}

fn change_provider(args: &[String], runtime: &AiRuntime) -> (r: Result<ConfigChange, Failure>)
    ensures
        change_outcome(r) == provider_change(text::texts(args@), runtime@),
{
    let n: usize = args.len();
    if n < 3 || n > 4 {
        return Err(Failure::new("用法：.ai config provider [API格式] <名称> <BaseURL>"));
    }
    let mut options = AiRuntimeOptions::of(runtime);
    if n == 4 {
        match AiApiFormat::named(args[1].as_str()) {
            Ok(format) => {
                options.api_format = format;
            },
            Err(e) => {
                return Err(e);
            },
        }
    }
    options.provider_name = args[n - 2].clone();
    options.base_url = args[n - 1].clone();
    match AiRuntime::build(options) {
        Err(e) => Err(e),
        Ok(updated) => {
            let first = set_one(AiSetting::Provider, updated.provider_name.as_str());
            let second = and_write(
                first,
                SettingWrite::Put(AiSetting::ApiFormat, updated.api_format.as_str().to_owned()),
            );
            let writes = and_write(
                second,
                SettingWrite::Put(AiSetting::BaseUrl, updated.base_url.clone()),
            );
            let mut reply = "✅ AI 服务商已更新\n名称：".to_owned();
            reply.append(updated.provider_name.as_str());
            reply.append("\nAPI 格式：");
            reply.append(updated.api_format.as_str());
            reply.append("\nBaseURL：");
            reply.append(updated.base_url.as_str());
            Ok(ConfigChange { writes, runtime: updated, reply })
        },
    }
}

fn change_key(args: &[String], runtime: &AiRuntime) -> (r: Result<ConfigChange, Failure>)
    ensures
        change_outcome(r) == key_change(text::texts(args@), runtime@),
{
    if args.len() != 2 {
        return Err(Failure::new("用法：.ai config key <Key>"));
    }
    if let Err(e) = ai_runtime::validate_api_key(args[1].as_str()) {
        return Err(e);
    }
    let mut options = AiRuntimeOptions::of(runtime);
    options.api_key = args[1].clone();
    options.key_overridden = true;
    accept(
        options,
        set_one(AiSetting::Key, args[1].as_str()),
        "✅ AI Key 已更新并持久化；不会回显 Key",
    )
}

fn change_clear_key(runtime: &AiRuntime, defaults: &AiDefaults) -> (r: Result<
    ConfigChange,
    Failure,
>)
    ensures
        change_outcome(r) == clear_key_change(runtime@, defaults@),
{
    let mut options = AiRuntimeOptions::of(runtime);
    options.api_key = defaults.env_api_key.clone();
    options.key_overridden = false;
    accept(
        options,
        and_write(no_writes(), SettingWrite::Delete(AiSetting::Key)),
        "✅ 已改回服务器环境变量中的 AI Key",
    )
}

fn change_model(args: &[String], runtime: &AiRuntime) -> (r: Result<ConfigChange, Failure>)
    ensures
        change_outcome(r) == model_change(text::texts(args@), runtime@),
{
    let n: usize = args.len();
    if n < 2 || n > 3 {
        return Err(Failure::new("用法：.ai config model <主模型> [搜索备用模型|off]"));
    }
    let mut options = AiRuntimeOptions::of(runtime);
    options.primary_model = args[1].clone();
    if n == 3 {
        if scan::same_ignoring_case(args[2].as_str(), "off") {
            options.search_fallback_model = String::new();
            proof {
                assert(options.search_fallback_model@ =~= Seq::<char>::empty());
            }
        } else {
            options.search_fallback_model = args[2].clone();
        }
    }
    match AiRuntime::build(options) {
        Err(e) => Err(e),
        Ok(updated) => {
            let first = set_one(AiSetting::Model, updated.primary_model.as_str());
            let writes = and_write(
                first,
                SettingWrite::Put(AiSetting::SearchModel, updated.search_fallback_model.clone()),
            );
            let mut reply = "✅ AI 模型已更新\n主模型：".to_owned();
            reply.append(updated.primary_model.as_str());
            reply.append("\n搜索备用：");
            reply.append(updated.second_search_model());
            Ok(ConfigChange { writes, runtime: updated, reply })
        },
    }
}

/// The arguments from one on, as one text.
fn rest_of(args: &[String], start: usize) -> (r: String)
    requires
        start <= args@.len(),
    ensures
        r@ == scan::joined(text::texts(args@).skip(start as int), " "@),
{
    let mut rest: Vec<String> = Vec::new();
    let n: usize = args.len();
    let mut i: usize = start;
    while i < n
        invariant
            start <= i <= n,
            n == args@.len(),
            rest@.len() == i - start,
            forall|j: int| 0 <= j < rest@.len() ==> (#[trigger] rest@[j])@ == args@[start + j]@,
        decreases n - i,
    {
        rest.push(args[i].clone());
        i = i + 1;
    }
    proof {
        assert(text::texts(rest@) =~= text::texts(args@).skip(start as int));
    }
    scan::join(&rest, " ")
}

fn change_prompt(args: &[String], runtime: &AiRuntime) -> (r: Result<ConfigChange, Failure>)
    ensures
        change_outcome(r) == prompt_change(text::texts(args@), runtime@),
{
    if args.len() < 2 {
        return Err(Failure::new("用法：.ai config prompt <系统提示词>"));
    }
    let value = rest_of(args, 1);
    let mut options = AiRuntimeOptions::of(runtime);
    options.config.system_prompt = value.clone();
    accept(
        options,
        set_one(AiSetting::SystemPrompt, value.as_str()),
        "✅ 系统提示词已更新并立即生效",
    )
}

fn change_thinking(args: &[String], runtime: &AiRuntime) -> (r: Result<ConfigChange, Failure>)
    ensures
        change_outcome(r) == thinking_change(text::texts(args@), runtime@),
{
    if args.len() != 2 {
        return Err(Failure::new("用法：.ai config thinking <minimal|low|medium|high>"));
    }
    let value = scan::lower(args[1].as_str());
    let mut options = AiRuntimeOptions::of(runtime);
    options.config.thinking_level = value.clone();
    let mut reply = "✅ 思考等级已设置为 ".to_owned();
    reply.append(value.as_str());
    accept(options, set_one(AiSetting::ThinkingLevel, value.as_str()), reply.as_str())
}

fn kept_word(on: bool) -> (r: &'static str)
    ensures
        r@ == kept_switch(on),
{
    if on {
        "true"
    } else {
        "false"
    }
}

fn change_search(args: &[String], runtime: &AiRuntime) -> (r: Result<ConfigChange, Failure>)
    ensures
        change_outcome(r) == search_change(text::texts(args@), runtime@),
{
    if args.len() != 2 {
        return Err(Failure::new("用法：.ai config search <on|off>"));
    }
    let on = match ai_runtime::parse_bool_setting("默认搜索", args[1].as_str()) {
        Ok(on) => on,
        Err(e) => {
            return Err(e);
        },
    };
    let mut options = AiRuntimeOptions::of(runtime);
    options.config.default_search = on;
    let reply = if on {
        "✅ 裸 .ai 已设置为默认联网搜索"
    } else {
        "✅ 裸 .ai 已设置为默认普通回答"
    };
    accept(options, set_one(AiSetting::DefaultSearch, kept_word(on)), reply)
}

fn change_timeout(args: &[String], runtime: &AiRuntime) -> (r: Result<ConfigChange, Failure>)
    ensures
        change_outcome(r) == timeout_change(text::texts(args@), runtime@),
{
    if args.len() != 5 {
        return Err(
            Failure::new("用法：.ai config timeout <文字秒> <图片秒> <切备用秒> <兜底秒>"),
        );
    }
    let text_seconds: u64 = match ai_runtime::parse_u64_setting(
        "文字搜索时限",
        args[1].as_str(),
    ) {
        Ok(n) => n,
        Err(e) => {
            return Err(e);
        },
    };
    let image_seconds: u64 = match ai_runtime::parse_u64_setting(
        "带图搜索时限",
        args[2].as_str(),
    ) {
        Ok(n) => n,
        Err(e) => {
            return Err(e);
        },
    };
    let hedge_seconds: u64 = match ai_runtime::parse_u64_setting(
        "备用模型启动时限",
        args[3].as_str(),
    ) {
        Ok(n) => n,
        Err(e) => {
            return Err(e);
        },
    };
    let fallback_seconds: u64 = match ai_runtime::parse_u64_setting(
        "无搜索兜底时限",
        args[4].as_str(),
    ) {
        Ok(n) => n,
        Err(e) => {
            return Err(e);
        },
    };
    let mut options = AiRuntimeOptions::of(runtime);
    options.config.search_timeout_seconds = text_seconds;
    options.config.image_search_timeout_seconds = image_seconds;
    options.config.search_hedge_seconds = hedge_seconds;
    options.config.fallback_timeout_seconds = fallback_seconds;
    let t = number::write(text_seconds);
    let i = number::write(image_seconds);
    let h = number::write(hedge_seconds);
    let f = number::write(fallback_seconds);
    let mut reply = "✅ AI 时限已更新\n文字：".to_owned();
    reply.append(t.as_str());
    reply.append(" 秒\n图片：");
    reply.append(i.as_str());
    reply.append(" 秒\n切备用：");
    reply.append(h.as_str());
    reply.append(" 秒\n兜底：");
    reply.append(f.as_str());
    reply.append(" 秒");
    let w1 = set_one(AiSetting::SearchTimeout, t.as_str());
    let w2 = and_write(w1, SettingWrite::Put(AiSetting::ImageSearchTimeout, i));
    let w3 = and_write(w2, SettingWrite::Put(AiSetting::SearchHedge, h));
    let writes = and_write(w3, SettingWrite::Put(AiSetting::FallbackTimeout, f));
    accept(options, writes, reply.as_str())
}

fn change_tokens(args: &[String], runtime: &AiRuntime) -> (r: Result<ConfigChange, Failure>)
    ensures
        change_outcome(r) == tokens_change(text::texts(args@), runtime@),
{
    if args.len() != 2 {
        return Err(Failure::new("用法：.ai config tokens <1-65536>"));
    }
    let value: u32 = match ai_runtime::parse_u32_setting("最大输出 Token", args[1].as_str()) {
        Ok(n) => n,
        Err(e) => {
            return Err(e);
        },
    };
    let mut options = AiRuntimeOptions::of(runtime);
    options.config.max_output_tokens = value;
    let digits = number::write(value as u64);
    let mut reply = "✅ 最大输出已设置为 ".to_owned();
    reply.append(digits.as_str());
    reply.append(" Token");
    accept(options, set_one(AiSetting::MaxOutputTokens, digits.as_str()), reply.as_str())
}

fn change_collapse(args: &[String], runtime: &AiRuntime) -> (r: Result<ConfigChange, Failure>)
    ensures
        change_outcome(r) == collapse_change(text::texts(args@), runtime@),
{
    if args.len() != 2 {
        return Err(Failure::new("用法：.ai config collapse <on|off>"));
    }
    let on = match ai_runtime::parse_bool_setting("Q/A 引用折叠", args[1].as_str()) {
        Ok(on) => on,
        Err(e) => {
            return Err(e);
        },
    };
    let mut options = AiRuntimeOptions::of(runtime);
    options.config.collapse_long_messages = on;
    let reply = if on {
        "✅ Q/A 可折叠引用已开启"
    } else {
        "✅ Q/A 可折叠引用已关闭"
    };
    accept(options, set_one(AiSetting::Collapse, kept_word(on)), reply)
}

fn change_message(args: &[String], runtime: &AiRuntime) -> (r: Result<ConfigChange, Failure>)
    ensures
        change_outcome(r) == message_change(text::texts(args@), runtime@),
{
    if args.len() < 3 {
        return Err(Failure::new("用法：.ai config message <searching|thinking> <文案>"));
    }
    let kind = scan::lower(args[1].as_str());
    let value = rest_of(args, 2);
    let mut options = AiRuntimeOptions::of(runtime);
    let mut reply = "✅ ".to_owned();
    reply.append(kind.as_str());
    reply.append(" 进度文案已更新为：");
    reply.append(value.as_str());
    if text::same(kind.as_str(), "searching") || text::same(kind.as_str(), "search") {
        options.messages.ai_searching = value.clone();
        accept(
            options,
            set_one(AiSetting::SearchingMessage, value.as_str()),
            reply.as_str(),
        )
    } else if text::same(kind.as_str(), "thinking") || text::same(kind.as_str(), "think") {
        options.messages.ai_thinking = value.clone();
        accept(
            options,
            set_one(AiSetting::ThinkingMessage, value.as_str()),
            reply.as_str(),
        )
    } else {
        Err(Failure::new("文案名称只能是 searching 或 thinking"))
    }
}

fn change_reset(defaults: &AiDefaults) -> (r: Result<ConfigChange, Failure>)
    ensures
        change_outcome(r) == reset_change(defaults@),
{
    let options = AiRuntimeOptions {
        provider_name: ai_runtime::default_provider_name(&defaults.config),
        api_format: defaults.config.api_format,
        base_url: defaults.config.base_url.clone(),
        api_key: defaults.env_api_key.clone(),
        primary_model: defaults.config.model.clone(),
        search_fallback_model: defaults.config.search_fallback_model.clone(),
        key_overridden: false,
        config: defaults.config.clone(),
        messages: defaults.messages.clone(),
    };
    accept(
        options,
        and_write(no_writes(), SettingWrite::Clear),
        "✅ AI 动态配置已清除，已恢复服务器配置",
    )
}

fn not_saved() -> (r: Failure)
    ensures
        r@ == not_saved_text(),
{
    Failure::new("为避免泄露配置，请只在 Telegram 收藏夹中执行 AI 配置修改")
}

fn change(r: Result<ConfigChange, Failure>) -> (o: Result<ConfigOutcome, Failure>)
    ensures
        config_outcome(o) == changed(change_outcome(r)),
{
    match r {
        Ok(c) => Ok(ConfigOutcome::Change(c)),
        Err(e) => Err(e),
    }
}

/// The arguments behind the first.
fn after_first(args: &[String]) -> (r: Vec<String>)
    requires
        args@.len() > 0,
    ensures
        text::texts(r@) == text::texts(args@).skip(1),
{
    let mut rest: Vec<String> = Vec::new();
    let n: usize = args.len();
    let mut i: usize = 1;
    while i < n
        invariant
            1 <= i <= n,
            n == args@.len(),
            rest@.len() == i - 1,
            forall|j: int| 0 <= j < rest@.len() ==> (#[trigger] rest@[j])@ == args@[1 + j]@,
        decreases n - i,
    {
        rest.push(args[i].clone());
        i = i + 1;
    }
    proof {
        assert(text::texts(rest@) =~= text::texts(args@).skip(1));
    }
    rest
}

/// What a command about the settings leads to. `saved` is whether it was given in Saved Messages,
/// `scope` the chat, and `turns` how many turns are kept of it.
pub fn config_command(
    args: &[String],
    saved: bool,
    scope: &str,
    turns: usize,
    runtime: &AiRuntime,
    defaults: &AiDefaults,
) -> (r: Result<ConfigOutcome, Failure>)
    ensures
        config_outcome(r) == planned(
            text::texts(args@),
            saved,
            scope@,
            turns,
            runtime@,
            defaults@,
        ),
{
    if args.len() == 0 || scan::same_ignoring_case(args[0].as_str(), "status") {
        return Ok(ConfigOutcome::Markdown(status_text(runtime, turns)));
    }
    let lowered = scan::lower(args[0].as_str());
    let action = lowered.as_str();
    if text::same(action, "context") {
        let rest = after_first(args);
        return match ai_context::context_command(rest.as_slice(), scope, turns) {
            Ok(o) => Ok(ConfigOutcome::Context(o)),
            Err(e) => Err(e),
        };
    }
    if !saved {
        return Err(not_saved());
    }
    if text::same(action, "provider") {
        change(change_provider(args, runtime))
    } else if text::same(action, "key") {
        change(change_key(args, runtime))
    } else if text::same(action, "clear-key") || text::same(action, "env-key") {
        change(change_clear_key(runtime, defaults))
    } else if text::same(action, "model") {
        change(change_model(args, runtime))
    } else if text::same(action, "prompt") {
        change(change_prompt(args, runtime))
    } else if text::same(action, "thinking") {
        change(change_thinking(args, runtime))
    } else if text::same(action, "search") || text::same(action, "default-search") {
        change(change_search(args, runtime))
    } else if text::same(action, "timeout") || text::same(action, "timeouts") {
        change(change_timeout(args, runtime))
    } else if text::same(action, "tokens") || text::same(action, "max-tokens") {
        change(change_tokens(args, runtime))
    } else if text::same(action, "collapse") {
        change(change_collapse(args, runtime))
    } else if text::same(action, "message") || text::same(action, "messages") {
        change(change_message(args, runtime))
    } else if text::same(action, "reload") {
        if args.len() != 1 {
            Err(Failure::new("用法：.ai config reload"))
        } else {
            Ok(ConfigOutcome::Reload)
        }
    } else if text::same(action, "reset") {
        change(change_reset(defaults))
    } else {
        Err(
            Failure::new(
                "未知配置项；可用：provider、key、clear-key、model、prompt、thinking、search、timeout、tokens、collapse、message、context、reload、reset",
            ),
        )
    }
}

/// Whether a command about the settings is to be hidden before anything else is done: the one that
/// holds a key.
pub fn hides_command(args: &[String]) -> (r: bool)
    ensures
        r == (args@.len() > 0 && scan::lowered(args@[0]@) == "key"@),
{
    args.len() > 0 && text::same(scan::lower(args[0].as_str()).as_str(), "key")
}

/// What reading the configuration again leads to: what stands in for settings that were not changed
/// at run time, and what is in force. The number of requests at a time stays as it was.
pub open spec fn reloaded(
    ai: AiConfigModel,
    messages: MessagesModel,
    key: Result<Option<Seq<char>>, Seq<char>>,
    current: DefaultsModel,
    m: Map<Seq<char>, Seq<char>>,
) -> Result<(DefaultsModel, RuntimeModel), Seq<char>> {
    if !ai.enabled {
        Err("服务器配置已关闭 AI；停用插件需要重启服务"@)
    } else {
        match key {
            Err(e) => Err(e),
            Ok(None) => Err("AI Key 未配置"@),
            Ok(Some(env_api_key)) => {
                let d = DefaultsModel {
                    config: AiConfigModel { max_concurrent: current.config.max_concurrent, ..ai },
                    messages,
                    env_api_key,
                };
                match ai_runtime::loaded(d, m) {
                    Err(e) => Err(e),
                    Ok(r) => Ok((d, r)),
                }
            },
        }
    }
}

/// What is answered once the configuration has been read again.
pub const RELOADED: &'static str = "✅ 已重新读取服务器 AI 与文案配置；SQLite 动态覆盖保持优先。并发上限和插件启停仍需重启服务。";

/// Puts a configuration into force that was read again. `key` is the key of the environment, or why
/// there is none.
pub fn reload(
    ai: &AiConfig,
    messages: &MessagesConfig,
    key: Result<Option<String>, Failure>,
    current: &AiDefaults,
    store: &Settings,
) -> (r: Result<(AiDefaults, AiRuntime), Failure>)
    ensures
        match (
            r,
            reloaded(
                ai@,
                messages@,
                match key {
                    Ok(Some(k)) => Ok(Some(k@)),
                    Ok(None) => Ok(None),
                    Err(e) => Err(e@),
                },
                current@,
                store@,
            ),
        ) {
            (Ok((a, b)), Ok((c, d))) => a@ == c && b@ == d,
            (Err(a), Err(b)) => a@ == b,
            _ => false,
        },
{
    if !ai.enabled {
        return Err(Failure::new("服务器配置已关闭 AI；停用插件需要重启服务"));
    }
    let env_api_key = match key {
        Ok(Some(k)) => k,
        Ok(None) => {
            return Err(Failure::new("AI Key 未配置"));
        },
        Err(e) => {
            return Err(e);
        },
    };
    let mut config = ai.clone();
    config.max_concurrent = current.config.max_concurrent;
    let defaults = AiDefaults { config, messages: messages.clone(), env_api_key };
    match ai_runtime::runtime_from_store(&defaults, store) {
        Ok(runtime) => Ok((defaults, runtime)),
        Err(e) => Err(e),
    }
}

// ---------------------------------------------------------------------------------------------
// Changes survive a restart
// ---------------------------------------------------------------------------------------------

/// Whether settings are in force that loading what is kept leads to, and their address is one that
/// stays as it is.
pub open spec fn in_force(
    d: DefaultsModel,
    m: Map<Seq<char>, Seq<char>>,
    r: RuntimeModel,
) -> bool {
    &&& ai_runtime::loaded(d, m) == Ok::<RuntimeModel, Seq<char>>(r)
    &&& base_url::normalized_url(r.base_url) == Ok::<Seq<char>, Seq<char>>(r.base_url)
}

/// Whether a text can be an argument: no whitespace stands in it.
pub open spec fn is_word(s: Seq<char>) -> bool {
    forall|i: int| 0 <= i < s.len() ==> !#[trigger] text::is_space(s[i])
}

/// Settings that differ in an address that comes to the same come to the same.
proof fn lemma_same_build(o: RuntimeModel, p: RuntimeModel)
    requires
        p == (RuntimeModel { base_url: p.base_url, ..o }),
        base_url::normalized_url(o.base_url) == base_url::normalized_url(p.base_url),
    ensures
        ai_runtime::built(o) == ai_runtime::built(p),
{
    assert(ai_runtime::options_problem(o) == ai_runtime::options_problem(p));
}

/// What putting settings into force leaves to be known of them.
proof fn lemma_built(o: RuntimeModel, r: RuntimeModel)
    requires
        ai_runtime::built(o) == Ok::<RuntimeModel, Seq<char>>(r),
    ensures
        base_url::normalized_url(o.base_url) == Ok::<Seq<char>, Seq<char>>(r.base_url),
        r == (RuntimeModel { base_url: r.base_url, ..o }),
{
}

/// What one write changes of the settings that are kept.
proof fn lemma_lookup(m: Map<Seq<char>, Seq<char>>, s: AiSetting, value: Seq<char>)
    ensures
        m.insert(s.name(), value).get(s.name()) == Some(value),
        forall|t: AiSetting| t != s ==> m.insert(s.name(), value).get(#[trigger] t.name()) == m.get(
            t.name(),
        ),
        forall|t: AiSetting|
            t != s ==> m.insert(s.name(), value).contains_key(#[trigger] t.name())
                == m.contains_key(t.name()),
        m.remove(s.name()).get(s.name()) is None,
        forall|t: AiSetting| t != s ==> m.remove(s.name()).get(#[trigger] t.name()) == m.get(
            t.name(),
        ),
{
    ai_runtime::law_setting_names();
}

proof fn lemma_switch_kept(name: Seq<char>, on: bool)
    ensures
        ai_runtime::switch_setting(name, kept_switch(on)) == Ok::<bool, Seq<char>>(on),
{
    reveal_strlit("true");
    reveal_strlit("false");
    reveal_strlit("1");
    reveal_strlit("on");
    reveal_strlit("yes");
    reveal_strlit("开启");
    reveal_strlit("开");
    let s = kept_switch(on);
    assert(!text::is_space(s[0]) && !text::is_space(s.last()));
    assert(scan::trimmed(s) == s);
    assert(scan::lowered(s) =~= s);
    assert("false"@.len() == 5);
    assert("true"@.len() == 4);
    assert("1"@.len() == 1);
    assert("on"@.len() == 2);
    assert("yes"@.len() == 3);
    assert("开启"@.len() == 2);
    assert("开"@.len() == 1);
}

proof fn lemma_number_kept(name: Seq<char>, n: nat, max: nat)
    requires
        n <= max,
    ensures
        ai_runtime::number_setting(name, number::decimal(n), max) == Ok::<nat, Seq<char>>(n),
{
    number::law_decimal_round_trip(n, max);
}

/// A setting of the configuration that is kept and in force is in force again after loading.
proof fn lemma_config_change(
    d: DefaultsModel,
    m: Map<Seq<char>, Seq<char>>,
    m2: Map<Seq<char>, Seq<char>>,
    r: RuntimeModel,
    o2: RuntimeModel,
    u: RuntimeModel,
)
    requires
        in_force(d, m, r),
        ai_runtime::loaded_options(d, m2) == Ok::<RuntimeModel, Seq<char>>(
            (RuntimeModel {
                base_url: ai_runtime::loaded_options(d, m)->Ok_0.base_url,
                ..o2
            }),
        ),
        o2.base_url == r.base_url,
        ai_runtime::built(o2) == Ok::<RuntimeModel, Seq<char>>(u),
    ensures
        in_force(d, m2, u),
{
    let o = ai_runtime::loaded_options(d, m)->Ok_0;
    lemma_built(o, r);
    lemma_built(o2, u);
    lemma_same_build(ai_runtime::loaded_options(d, m2)->Ok_0, o2);
}

proof fn lemma_written_one(m: Map<Seq<char>, Seq<char>>, w: WriteModel)
    ensures
        all_written(m, Seq::empty().push(w)) == written(m, w),
{
    let one = Seq::<WriteModel>::empty().push(w);
    assert(one.drop_last() =~= Seq::<WriteModel>::empty());
    assert(all_written(m, one.drop_last()) == m);
}

proof fn lemma_written_more(
    m: Map<Seq<char>, Seq<char>>,
    ws: Seq<WriteModel>,
    w: WriteModel,
)
    ensures
        all_written(m, ws.push(w)) == written(all_written(m, ws), w),
{
    assert(ws.push(w).drop_last() =~= ws);
}

proof fn lemma_survives_provider(
    args: Seq<Seq<char>>,
    d: DefaultsModel,
    m: Map<Seq<char>, Seq<char>>,
    r: RuntimeModel,
    c: ChangeModel,
)
    requires
        in_force(d, m, r),
        args.len() > 0 ==> is_word(args.last()),
        provider_change(args, r) == Ok::<ChangeModel, Seq<char>>(c),
    ensures
        in_force(d, all_written(m, c.writes), c.runtime),
{
    let u = c.runtime;
    let w1 = Seq::<WriteModel>::empty().push(WriteModel::Put(AiSetting::Provider, u.provider_name));
    let w2 = w1.push(WriteModel::Put(AiSetting::ApiFormat, u.api_format.name()));
    lemma_written_one(m, WriteModel::Put(AiSetting::Provider, u.provider_name));
    lemma_written_more(m, w1, WriteModel::Put(AiSetting::ApiFormat, u.api_format.name()));
    lemma_written_more(m, w2, WriteModel::Put(AiSetting::BaseUrl, u.base_url));
    let m1 = m.insert(AiSetting::Provider.name(), u.provider_name);
    let m2 = m1.insert(AiSetting::ApiFormat.name(), u.api_format.name());
    let m3 = m2.insert(AiSetting::BaseUrl.name(), u.base_url);
    lemma_lookup(m, AiSetting::Provider, u.provider_name);
    lemma_lookup(m1, AiSetting::ApiFormat, u.api_format.name());
    lemma_lookup(m2, AiSetting::BaseUrl, u.base_url);
    config::law_format_names(u.api_format);
    let o = ai_runtime::loaded_options(d, m)->Ok_0;
    lemma_built(o, r);
    let o3 = RuntimeModel {
        provider_name: u.provider_name,
        api_format: u.api_format,
        base_url: u.base_url,
        ..o
    };
    assert(ai_runtime::loaded_config(d.config, m3) == ai_runtime::loaded_config(d.config, m));
    assert(ai_runtime::loaded_options(d, m3) == Ok::<RuntimeModel, Seq<char>>(o3));
    let asked = RuntimeModel {
        api_format: u.api_format,
        provider_name: args[args.len() - 2],
        base_url: args[args.len() - 1],
        ..r
    };
    lemma_built(asked, u);
    base_url::law_accepted_url_is_stable(args.last(), u.base_url);
    lemma_same_build(o3, asked);
}

proof fn lemma_survives_key(
    args: Seq<Seq<char>>,
    d: DefaultsModel,
    m: Map<Seq<char>, Seq<char>>,
    r: RuntimeModel,
    c: ChangeModel,
)
    requires
        in_force(d, m, r),
        key_change(args, r) == Ok::<ChangeModel, Seq<char>>(c),
    ensures
        in_force(d, all_written(m, c.writes), c.runtime),
{
    lemma_written_one(m, WriteModel::Put(AiSetting::Key, args[1]));
    let m2 = m.insert(AiSetting::Key.name(), args[1]);
    lemma_lookup(m, AiSetting::Key, args[1]);
    let o = ai_runtime::loaded_options(d, m)->Ok_0;
    lemma_built(o, r);
    assert(ai_runtime::loaded_config(d.config, m2) == ai_runtime::loaded_config(d.config, m));
    lemma_config_change(
        d,
        m,
        m2,
        r,
        RuntimeModel { api_key: args[1], key_overridden: true, ..r },
        c.runtime,
    );
}

proof fn lemma_survives_clear_key(
    d: DefaultsModel,
    m: Map<Seq<char>, Seq<char>>,
    r: RuntimeModel,
    c: ChangeModel,
)
    requires
        in_force(d, m, r),
        clear_key_change(r, d) == Ok::<ChangeModel, Seq<char>>(c),
    ensures
        in_force(d, all_written(m, c.writes), c.runtime),
{
    lemma_written_one(m, WriteModel::Delete(AiSetting::Key));
    let m2 = m.remove(AiSetting::Key.name());
    lemma_lookup(m, AiSetting::Key, Seq::empty());
    let o = ai_runtime::loaded_options(d, m)->Ok_0;
    lemma_built(o, r);
    assert(ai_runtime::loaded_config(d.config, m2) == ai_runtime::loaded_config(d.config, m));
    lemma_config_change(
        d,
        m,
        m2,
        r,
        RuntimeModel { api_key: d.env_api_key, key_overridden: false, ..r },
        c.runtime,
    );
}

proof fn lemma_survives_model(
    args: Seq<Seq<char>>,
    d: DefaultsModel,
    m: Map<Seq<char>, Seq<char>>,
    r: RuntimeModel,
    c: ChangeModel,
)
    requires
        in_force(d, m, r),
        model_change(args, r) == Ok::<ChangeModel, Seq<char>>(c),
    ensures
        in_force(d, all_written(m, c.writes), c.runtime),
{
    let u = c.runtime;
    let w1 = Seq::<WriteModel>::empty().push(WriteModel::Put(AiSetting::Model, u.primary_model));
    lemma_written_one(m, WriteModel::Put(AiSetting::Model, u.primary_model));
    lemma_written_more(m, w1, WriteModel::Put(AiSetting::SearchModel, u.search_fallback_model));
    let m1 = m.insert(AiSetting::Model.name(), u.primary_model);
    let m2 = m1.insert(AiSetting::SearchModel.name(), u.search_fallback_model);
    lemma_lookup(m, AiSetting::Model, u.primary_model);
    lemma_lookup(m1, AiSetting::SearchModel, u.search_fallback_model);
    let o = ai_runtime::loaded_options(d, m)->Ok_0;
    lemma_built(o, r);
    assert(ai_runtime::loaded_config(d.config, m2) == ai_runtime::loaded_config(d.config, m));
    let o2 = RuntimeModel {
        primary_model: u.primary_model,
        search_fallback_model: u.search_fallback_model,
        ..o
    };
    assert(ai_runtime::loaded_options(d, m2) == Ok::<RuntimeModel, Seq<char>>(o2));
    let asked = RuntimeModel {
        primary_model: args[1],
        search_fallback_model: asked_fallback(args, r),
        ..r
    };
    lemma_built(asked, u);
    lemma_same_build(o2, asked);
}

/// The changes that keep one setting of the configuration or one message.
proof fn lemma_survives_one(
    d: DefaultsModel,
    m: Map<Seq<char>, Seq<char>>,
    r: RuntimeModel,
    s: AiSetting,
    value: Seq<char>,
    config: AiConfigModel,
    messages: MessagesModel,
    u: RuntimeModel,
)
    requires
        in_force(d, m, r),
        s != AiSetting::Provider && s != AiSetting::ApiFormat && s != AiSetting::BaseUrl && s
            != AiSetting::Key && s != AiSetting::Model && s != AiSetting::SearchModel,
        ai_runtime::loaded_config(d.config, m.insert(s.name(), value)) == Ok::<
            AiConfigModel,
            Seq<char>,
        >(config),
        config.provider == r.config.provider,
        config.api_format == r.config.api_format,
        config.base_url == r.config.base_url,
        config.model == r.config.model,
        config.search_fallback_model == r.config.search_fallback_model,
        messages.ai_searching == if s == AiSetting::SearchingMessage {
            value
        } else {
            r.messages.ai_searching
        },
        messages.ai_thinking == if s == AiSetting::ThinkingMessage {
            value
        } else {
            r.messages.ai_thinking
        },
        ai_runtime::built((RuntimeModel { config, messages, ..r })) == Ok::<
            RuntimeModel,
            Seq<char>,
        >(u),
    ensures
        in_force(d, m.insert(s.name(), value), u),
{
    let m2 = m.insert(s.name(), value);
    lemma_lookup(m, s, value);
    let o = ai_runtime::loaded_options(d, m)->Ok_0;
    lemma_built(o, r);
    lemma_config_change(d, m, m2, r, RuntimeModel { config, messages, ..r }, u);
}

proof fn lemma_survives_timeout(
    args: Seq<Seq<char>>,
    d: DefaultsModel,
    m: Map<Seq<char>, Seq<char>>,
    r: RuntimeModel,
    c: ChangeModel,
)
    requires
        in_force(d, m, r),
        timeout_change(args, r) == Ok::<ChangeModel, Seq<char>>(c),
    ensures
        in_force(d, all_written(m, c.writes), c.runtime),
{
    let (text, image, hedge, fallback) = asked_timeouts(args)->Ok_0;
    let t = number::decimal(text as nat);
    let i = number::decimal(image as nat);
    let h = number::decimal(hedge as nat);
    let f = number::decimal(fallback as nat);
    let w1 = Seq::<WriteModel>::empty().push(WriteModel::Put(AiSetting::SearchTimeout, t));
    let w2 = w1.push(WriteModel::Put(AiSetting::ImageSearchTimeout, i));
    let w3 = w2.push(WriteModel::Put(AiSetting::SearchHedge, h));
    lemma_written_one(m, WriteModel::Put(AiSetting::SearchTimeout, t));
    lemma_written_more(m, w1, WriteModel::Put(AiSetting::ImageSearchTimeout, i));
    lemma_written_more(m, w2, WriteModel::Put(AiSetting::SearchHedge, h));
    lemma_written_more(m, w3, WriteModel::Put(AiSetting::FallbackTimeout, f));
    let m1 = m.insert(AiSetting::SearchTimeout.name(), t);
    let m2 = m1.insert(AiSetting::ImageSearchTimeout.name(), i);
    let m3 = m2.insert(AiSetting::SearchHedge.name(), h);
    let m4 = m3.insert(AiSetting::FallbackTimeout.name(), f);
    lemma_lookup(m, AiSetting::SearchTimeout, t);
    lemma_lookup(m1, AiSetting::ImageSearchTimeout, i);
    lemma_lookup(m2, AiSetting::SearchHedge, h);
    lemma_lookup(m3, AiSetting::FallbackTimeout, f);
    lemma_number_kept("文字搜索时限"@, text as nat, u64::MAX as nat);
    lemma_number_kept("带图搜索时限"@, image as nat, u64::MAX as nat);
    lemma_number_kept("备用模型启动时限"@, hedge as nat, u64::MAX as nat);
    lemma_number_kept("无搜索兜底时限"@, fallback as nat, u64::MAX as nat);
    let o = ai_runtime::loaded_options(d, m)->Ok_0;
    lemma_built(o, r);
    let config = AiConfigModel {
        search_timeout_seconds: text,
        image_search_timeout_seconds: image,
        search_hedge_seconds: hedge,
        fallback_timeout_seconds: fallback,
        ..r.config
    };
    assert(ai_runtime::loaded_config(d.config, m) == Ok::<AiConfigModel, Seq<char>>(r.config));
    assert(ai_runtime::loaded_config(d.config, m4) == Ok::<AiConfigModel, Seq<char>>(config));
    lemma_config_change(d, m, m4, r, RuntimeModel { config, ..r }, c.runtime);
}

/// The configuration after one of its settings was changed at run time.
spec fn config_with(c: AiConfigModel, s: AiSetting, value: Seq<char>) -> AiConfigModel {
    match s {
        AiSetting::ThinkingLevel => AiConfigModel { thinking_level: value, ..c },
        AiSetting::SystemPrompt => AiConfigModel { system_prompt: value, ..c },
        AiSetting::DefaultSearch => AiConfigModel {
            default_search: ai_runtime::switch_setting("默认搜索"@, value)->Ok_0,
            ..c
        },
        AiSetting::Collapse => AiConfigModel {
            collapse_long_messages: ai_runtime::switch_setting("Q/A 引用折叠"@, value)->Ok_0,
            ..c
        },
        AiSetting::MaxOutputTokens => AiConfigModel {
            max_output_tokens: ai_runtime::number_setting(
                "最大输出 Token"@,
                value,
                u32::MAX as nat,
            )->Ok_0 as u32,
            ..c
        },
        _ => c,
    }
}

proof fn lemma_config_with(
    d: DefaultsModel,
    m: Map<Seq<char>, Seq<char>>,
    r: RuntimeModel,
    s: AiSetting,
    value: Seq<char>,
)
    requires
        in_force(d, m, r),
        match s {
            AiSetting::ThinkingLevel | AiSetting::SystemPrompt | AiSetting::SearchingMessage
            | AiSetting::ThinkingMessage => true,
            AiSetting::DefaultSearch => ai_runtime::switch_setting("默认搜索"@, value) is Ok,
            AiSetting::Collapse => ai_runtime::switch_setting("Q/A 引用折叠"@, value) is Ok,
            AiSetting::MaxOutputTokens => ai_runtime::number_setting(
                "最大输出 Token"@,
                value,
                u32::MAX as nat,
            ) is Ok,
            _ => false,
        },
    ensures
        ai_runtime::loaded_config(d.config, m.insert(s.name(), value)) == Ok::<
            AiConfigModel,
            Seq<char>,
        >(config_with(r.config, s, value)),
{
    lemma_lookup(m, s, value);
    let o = ai_runtime::loaded_options(d, m)->Ok_0;
    lemma_built(o, r);
    assert(ai_runtime::loaded_config(d.config, m) == Ok::<AiConfigModel, Seq<char>>(r.config));
}

proof fn lemma_survives_reset(
    d: DefaultsModel,
    m: Map<Seq<char>, Seq<char>>,
    c: ChangeModel,
)
    requires
        reset_change(d) == Ok::<ChangeModel, Seq<char>>(c),
    ensures
        ai_runtime::loaded(d, all_written(m, c.writes)) == Ok::<RuntimeModel, Seq<char>>(c.runtime),
{
    lemma_written_one(m, WriteModel::Clear);
    ai_runtime::law_setting_names();
    let m2 = settings::without_prefix(m, ai_runtime::setting_prefix());
    assert forall|t: AiSetting| m2.get(#[trigger] t.name()) is None && !m2.contains_key(
        t.name(),
    ) by {
        assert(scan::starts(t.name(), ai_runtime::setting_prefix()));
    }
    assert(ai_runtime::loaded_config(d.config, m2) == Ok::<AiConfigModel, Seq<char>>(d.config));
    assert(ai_runtime::loaded_options(d, m2) == Ok::<RuntimeModel, Seq<char>>(default_options(d)));
}

/// The changes that keep one setting of the configuration.
proof fn lemma_survives_kept(
    d: DefaultsModel,
    m: Map<Seq<char>, Seq<char>>,
    r: RuntimeModel,
    s: AiSetting,
    value: Seq<char>,
    u: RuntimeModel,
)
    requires
        in_force(d, m, r),
        match s {
            AiSetting::ThinkingLevel | AiSetting::SystemPrompt => true,
            AiSetting::DefaultSearch => ai_runtime::switch_setting("默认搜索"@, value) is Ok,
            AiSetting::Collapse => ai_runtime::switch_setting("Q/A 引用折叠"@, value) is Ok,
            AiSetting::MaxOutputTokens => ai_runtime::number_setting(
                "最大输出 Token"@,
                value,
                u32::MAX as nat,
            ) is Ok,
            _ => false,
        },
        ai_runtime::built((RuntimeModel { config: config_with(r.config, s, value), ..r })) == Ok::<
            RuntimeModel,
            Seq<char>,
        >(u),
    ensures
        in_force(d, m.insert(s.name(), value), u),
{
    lemma_config_with(d, m, r, s, value);
    lemma_survives_one(d, m, r, s, value, config_with(r.config, s, value), r.messages, u);
}

proof fn lemma_survives_prompt(
    args: Seq<Seq<char>>,
    d: DefaultsModel,
    m: Map<Seq<char>, Seq<char>>,
    r: RuntimeModel,
    c: ChangeModel,
)
    requires
        in_force(d, m, r),
        prompt_change(args, r) == Ok::<ChangeModel, Seq<char>>(c),
    ensures
        in_force(d, all_written(m, c.writes), c.runtime),
{
    let value = scan::joined(args.skip(1), " "@);
    lemma_survives_kept(d, m, r, AiSetting::SystemPrompt, value, c.runtime);
    lemma_written_one(m, WriteModel::Put(AiSetting::SystemPrompt, value));
}

proof fn lemma_survives_thinking(
    args: Seq<Seq<char>>,
    d: DefaultsModel,
    m: Map<Seq<char>, Seq<char>>,
    r: RuntimeModel,
    c: ChangeModel,
)
    requires
        in_force(d, m, r),
        thinking_change(args, r) == Ok::<ChangeModel, Seq<char>>(c),
    ensures
        in_force(d, all_written(m, c.writes), c.runtime),
{
    let value = scan::lowered(args[1]);
    lemma_survives_kept(d, m, r, AiSetting::ThinkingLevel, value, c.runtime);
    lemma_written_one(m, WriteModel::Put(AiSetting::ThinkingLevel, value));
}

proof fn lemma_survives_search(
    args: Seq<Seq<char>>,
    d: DefaultsModel,
    m: Map<Seq<char>, Seq<char>>,
    r: RuntimeModel,
    c: ChangeModel,
)
    requires
        in_force(d, m, r),
        search_change(args, r) == Ok::<ChangeModel, Seq<char>>(c),
    ensures
        in_force(d, all_written(m, c.writes), c.runtime),
{
    let on = ai_runtime::switch_setting("默认搜索"@, args[1])->Ok_0;
    let value = kept_switch(on);
    lemma_switch_kept("默认搜索"@, on);
    lemma_survives_kept(d, m, r, AiSetting::DefaultSearch, value, c.runtime);
    lemma_written_one(m, WriteModel::Put(AiSetting::DefaultSearch, value));
}

proof fn lemma_survives_tokens(
    args: Seq<Seq<char>>,
    d: DefaultsModel,
    m: Map<Seq<char>, Seq<char>>,
    r: RuntimeModel,
    c: ChangeModel,
)
    requires
        in_force(d, m, r),
        tokens_change(args, r) == Ok::<ChangeModel, Seq<char>>(c),
    ensures
        in_force(d, all_written(m, c.writes), c.runtime),
{
    let n = ai_runtime::number_setting("最大输出 Token"@, args[1], u32::MAX as nat)->Ok_0;
    let value = number::decimal(n);
    number::lemma_unsigned_at_most(args[1], u32::MAX as nat);
    lemma_number_kept("最大输出 Token"@, n, u32::MAX as nat);
    lemma_survives_kept(d, m, r, AiSetting::MaxOutputTokens, value, c.runtime);
    lemma_written_one(m, WriteModel::Put(AiSetting::MaxOutputTokens, value));
}

proof fn lemma_survives_collapse(
    args: Seq<Seq<char>>,
    d: DefaultsModel,
    m: Map<Seq<char>, Seq<char>>,
    r: RuntimeModel,
    c: ChangeModel,
)
    requires
        in_force(d, m, r),
        collapse_change(args, r) == Ok::<ChangeModel, Seq<char>>(c),
    ensures
        in_force(d, all_written(m, c.writes), c.runtime),
{
    let on = ai_runtime::switch_setting("Q/A 引用折叠"@, args[1])->Ok_0;
    let value = kept_switch(on);
    lemma_switch_kept("Q/A 引用折叠"@, on);
    lemma_survives_kept(d, m, r, AiSetting::Collapse, value, c.runtime);
    lemma_written_one(m, WriteModel::Put(AiSetting::Collapse, value));
}

proof fn lemma_survives_message(
    args: Seq<Seq<char>>,
    d: DefaultsModel,
    m: Map<Seq<char>, Seq<char>>,
    r: RuntimeModel,
    c: ChangeModel,
)
    requires
        in_force(d, m, r),
        message_change(args, r) == Ok::<ChangeModel, Seq<char>>(c),
    ensures
        in_force(d, all_written(m, c.writes), c.runtime),
{
    let kind = scan::lowered(args[1]);
    let value = scan::joined(args.skip(2), " "@);
    let (s, messages) = if kind == "searching"@ || kind == "search"@ {
        (AiSetting::SearchingMessage, MessagesModel { ai_searching: value, ..r.messages })
    } else {
        (AiSetting::ThinkingMessage, MessagesModel { ai_thinking: value, ..r.messages })
    };
    lemma_written_one(m, WriteModel::Put(s, value));
    lemma_config_with(d, m, r, s, value);
    lemma_survives_one(d, m, r, s, value, r.config, messages, c.runtime);
}

/// A change of the settings is in force after a restart as it is at once: loading what is kept after
/// the change leads to the settings that the change put into force. After a reset those are the
/// configuration's.
#[verifier::spinoff_prover]
pub proof fn law_changes_survive_restart(
    args: Seq<Seq<char>>,
    saved: bool,
    scope: Seq<char>,
    turns: usize,
    d: DefaultsModel,
    m: Map<Seq<char>, Seq<char>>,
    r: RuntimeModel,
    c: ChangeModel,
)
    requires
        in_force(d, m, r),
        forall|i: int| 0 <= i < args.len() ==> is_word(#[trigger] args[i]),
        planned(args, saved, scope, turns, r, d) == Ok::<OutcomeModel, Seq<char>>(
            OutcomeModel::Change(c),
        ),
    ensures
        ai_runtime::loaded(d, all_written(m, c.writes)) == Ok::<RuntimeModel, Seq<char>>(c.runtime),
        scan::lowered(args[0]) != "reset"@ ==> in_force(d, all_written(m, c.writes), c.runtime),
{
    let action = scan::lowered(args[0]);
    if action == "provider"@ {
        assert(args.last() == args[args.len() - 1]);
        lemma_survives_provider(args, d, m, r, c);
    } else if action == "key"@ {
        lemma_survives_key(args, d, m, r, c);
    } else if action == "clear-key"@ || action == "env-key"@ {
        lemma_survives_clear_key(d, m, r, c);
    } else if action == "model"@ {
        lemma_survives_model(args, d, m, r, c);
    } else if action == "prompt"@ {
        lemma_survives_prompt(args, d, m, r, c);
    } else if action == "thinking"@ {
        lemma_survives_thinking(args, d, m, r, c);
    } else if action == "search"@ || action == "default-search"@ {
        lemma_survives_search(args, d, m, r, c);
    } else if action == "timeout"@ || action == "timeouts"@ {
        lemma_survives_timeout(args, d, m, r, c);
    } else if action == "tokens"@ || action == "max-tokens"@ {
        lemma_survives_tokens(args, d, m, r, c);
    } else if action == "collapse"@ {
        lemma_survives_collapse(args, d, m, r, c);
    } else if action == "message"@ || action == "messages"@ {
        lemma_survives_message(args, d, m, r, c);
    } else {
        lemma_survives_reset(d, m, c);
    }
}

/// After the second model was switched off, both search requests go to the primary model, and still do when
/// that is changed later.
pub proof fn law_both_searches_follow_the_primary(
    first: Seq<char>,
    later: Seq<char>,
    r: RuntimeModel,
    c: ChangeModel,
    after: ChangeModel,
)
    requires
        model_change(seq!["model"@, first, "off"@], r) == Ok::<ChangeModel, Seq<char>>(c),
        model_change(seq!["model"@, later], c.runtime) == Ok::<ChangeModel, Seq<char>>(after),
    ensures
        ai_runtime::runtime_provider(c.runtime).primary_model == first,
        ai_runtime::runtime_provider(c.runtime).search_fallback_model == first,
        ai_runtime::runtime_provider(after.runtime).primary_model == later,
        ai_runtime::runtime_provider(after.runtime).search_fallback_model == later,
{
    let off = seq!["model"@, first, "off"@];
    let plain = seq!["model"@, later];
    assert(off.len() == 3 && off[1] == first && off[2] == "off"@);
    assert(plain.len() == 2 && plain[1] == later);
    assert(asked_fallback(off, r) == Seq::<char>::empty());
    assert(scan::blank(Seq::<char>::empty()));
    assert(scan::blank(c.runtime.search_fallback_model));
    assert(asked_fallback(plain, c.runtime) == c.runtime.search_fallback_model);
}

// ---------------------------------------------------------------------------------------------
// Settings and chats
// ---------------------------------------------------------------------------------------------

/// A change of the context of a chat is in force after a restart as it is at once, and changes none of the
/// settings.
pub proof fn law_context_survives_restart(
    args: Seq<Seq<char>>,
    scope: Seq<char>,
    turns: usize,
    d: DefaultsModel,
    m: Map<Seq<char>, Seq<char>>,
    r: RuntimeModel,
)
    requires
        in_force(d, m, r),
        ai_context::context_outcome(args, scope, turns) matches Ok(o) && o is Keep,
    ensures
        ({
            let o = ai_context::context_outcome(args, scope, turns)->Ok_0;
            let after = m.insert(o->key, o->value);
            &&& in_force(d, after, r)
            &&& ai_context::turns_of(after, scope, r.config.history_turns)
                == ai_context::asked_turns(args[0])
        }),
{
    let o = ai_context::context_outcome(args, scope, turns)->Ok_0;
    let after = m.insert(o->key, o->value);
    ai_context::law_context_is_per_chat(args, scope, turns, scope, m, r.config.history_turns);
    ai_context::lemma_context_key_starts(scope);
    assert forall|s: AiSetting| after.get(#[trigger] s.name()) == m.get(s.name())
        && after.contains_key(s.name()) == m.contains_key(s.name()) by {
        assert(s.name() != o->key);
    }
    assert(ai_runtime::loaded_config(d.config, after) == ai_runtime::loaded_config(d.config, m));
    assert(ai_runtime::loaded_options(d, after) == ai_runtime::loaded_options(d, m));
}

proof fn lemma_writes_keep_context(
    m: Map<Seq<char>, Seq<char>>,
    writes: Seq<WriteModel>,
    scope: Seq<char>,
)
    requires
        forall|i: int| 0 <= i < writes.len() ==> !(#[trigger] writes[i] is Clear),
    ensures
        all_written(m, writes).get(ai_context::context_key(scope)) == m.get(
            ai_context::context_key(scope),
        ),
    decreases writes.len(),
{
    if writes.len() > 0 {
        let before = writes.drop_last();
        assert forall|i: int| 0 <= i < before.len() implies !(#[trigger] before[i] is Clear) by {
            assert(before[i] == writes[i]);
        }
        lemma_writes_keep_context(m, before, scope);
        ai_context::lemma_context_key_starts(scope);
        assert(writes.last() == writes[writes.len() - 1]);
    }
}

/// A reset is asked for by a word of its own.
proof fn lemma_reset_word()
    ensures
        "reset"@ != "context"@,
        "reset"@ != "provider"@,
        "reset"@ != "key"@,
        "reset"@ != "clear-key"@,
        "reset"@ != "env-key"@,
        "reset"@ != "model"@,
        "reset"@ != "prompt"@,
        "reset"@ != "thinking"@,
        "reset"@ != "search"@,
        "reset"@ != "default-search"@,
        "reset"@ != "timeout"@,
        "reset"@ != "timeouts"@,
        "reset"@ != "tokens"@,
        "reset"@ != "max-tokens"@,
        "reset"@ != "collapse"@,
        "reset"@ != "message"@,
        "reset"@ != "messages"@,
        "reset"@ != "reload"@,
{
    reveal_strlit("reset");
    reveal_strlit("context");
    reveal_strlit("provider");
    reveal_strlit("key");
    reveal_strlit("clear-key");
    reveal_strlit("env-key");
    reveal_strlit("model");
    reveal_strlit("prompt");
    reveal_strlit("thinking");
    reveal_strlit("search");
    reveal_strlit("default-search");
    reveal_strlit("timeout");
    reveal_strlit("timeouts");
    reveal_strlit("tokens");
    reveal_strlit("max-tokens");
    reveal_strlit("collapse");
    reveal_strlit("message");
    reveal_strlit("messages");
    reveal_strlit("reload");
    assert("reset"@.len() == 5 && "reset"@[0] == 'r' && "reset"@[2] == 's');
    assert("context"@.len() == 7);
    assert("provider"@.len() == 8);
    assert("key"@.len() == 3);
    assert("clear-key"@.len() == 9);
    assert("env-key"@.len() == 7);
    assert("prompt"@.len() == 6);
    assert("thinking"@.len() == 8);
    assert("search"@.len() == 6);
    assert("default-search"@.len() == 14);
    assert("timeout"@.len() == 7);
    assert("timeouts"@.len() == 8);
    assert("tokens"@.len() == 6);
    assert("max-tokens"@.len() == 10);
    assert("collapse"@.len() == 8);
    assert("message"@.len() == 7);
    assert("messages"@.len() == 8);
    assert("reload"@.len() == 6);
    assert("model"@[0] == 'm');
}

/// A change of the settings leaves every chat the number of turns that it had; a reset leaves it the number of
/// the configuration.
#[verifier::spinoff_prover]
pub proof fn law_changes_keep_context(
    args: Seq<Seq<char>>,
    saved: bool,
    scope: Seq<char>,
    turns: usize,
    r: RuntimeModel,
    d: DefaultsModel,
    c: ChangeModel,
    m: Map<Seq<char>, Seq<char>>,
    chat: Seq<char>,
    default: usize,
)
    requires
        planned(args, saved, scope, turns, r, d) == Ok::<OutcomeModel, Seq<char>>(
            OutcomeModel::Change(c),
        ),
    ensures
        ({
            let after = ai_context::turns_of(all_written(m, c.writes), chat, default);
            if scan::lowered(args[0]) == "reset"@ {
                after == Ok::<usize, Seq<char>>(default)
            } else {
                after == ai_context::turns_of(m, chat, default)
            }
        }),
{
    if scan::lowered(args[0]) == "reset"@ {
        lemma_reset_word();
        lemma_written_one(m, WriteModel::Clear);
        ai_context::lemma_context_key_starts(chat);
    } else {
        lemma_writes_keep_context(m, c.writes, chat);
    }
}

// ---------------------------------------------------------------------------------------------
// Laws of single commands
// ---------------------------------------------------------------------------------------------

/// A change makes `o` the runtime: it is refused as `o` is, and else `o` is built.
pub open spec fn takes_effect(got: Result<OutcomeModel, Seq<char>>, o: RuntimeModel) -> bool {
    match ai_runtime::built(o) {
        Err(e) => got == Err::<OutcomeModel, Seq<char>>(e),
        Ok(u) => got matches Ok(OutcomeModel::Change(c)) && c.runtime == u,
    }
}

/// A change that is made is answered with `reply`.
pub open spec fn answers(got: Result<OutcomeModel, Seq<char>>, reply: Seq<char>) -> bool {
    got matches Ok(OutcomeModel::Change(c)) ==> c.reply == reply
}

proof fn lemma_action_words()
    ensures
        "context"@ != "status"@,
        "provider"@ != "status"@,
        "provider"@ != "context"@,
        "key"@ != "status"@,
        "key"@ != "context"@,
        "key"@ != "provider"@,
        "clear-key"@ != "status"@,
        "clear-key"@ != "context"@,
        "clear-key"@ != "provider"@,
        "clear-key"@ != "key"@,
        "env-key"@ != "status"@,
        "env-key"@ != "context"@,
        "env-key"@ != "provider"@,
        "env-key"@ != "key"@,
        "env-key"@ != "clear-key"@,
        "model"@ != "status"@,
        "model"@ != "context"@,
        "model"@ != "provider"@,
        "model"@ != "key"@,
        "model"@ != "clear-key"@,
        "model"@ != "env-key"@,
        "prompt"@ != "status"@,
        "prompt"@ != "context"@,
        "prompt"@ != "provider"@,
        "prompt"@ != "key"@,
        "prompt"@ != "clear-key"@,
        "prompt"@ != "env-key"@,
        "prompt"@ != "model"@,
        "thinking"@ != "status"@,
        "thinking"@ != "context"@,
        "thinking"@ != "provider"@,
        "thinking"@ != "key"@,
        "thinking"@ != "clear-key"@,
        "thinking"@ != "env-key"@,
        "thinking"@ != "model"@,
        "thinking"@ != "prompt"@,
        "search"@ != "status"@,
        "search"@ != "context"@,
        "search"@ != "provider"@,
        "search"@ != "key"@,
        "search"@ != "clear-key"@,
        "search"@ != "env-key"@,
        "search"@ != "model"@,
        "search"@ != "prompt"@,
        "search"@ != "thinking"@,
        "default-search"@ != "status"@,
        "default-search"@ != "context"@,
        "default-search"@ != "provider"@,
        "default-search"@ != "key"@,
        "default-search"@ != "clear-key"@,
        "default-search"@ != "env-key"@,
        "default-search"@ != "model"@,
        "default-search"@ != "prompt"@,
        "default-search"@ != "thinking"@,
        "default-search"@ != "search"@,
        "timeout"@ != "status"@,
        "timeout"@ != "context"@,
        "timeout"@ != "provider"@,
        "timeout"@ != "key"@,
        "timeout"@ != "clear-key"@,
        "timeout"@ != "env-key"@,
        "timeout"@ != "model"@,
        "timeout"@ != "prompt"@,
        "timeout"@ != "thinking"@,
        "timeout"@ != "search"@,
        "timeout"@ != "default-search"@,
        "timeouts"@ != "status"@,
        "timeouts"@ != "context"@,
        "timeouts"@ != "provider"@,
        "timeouts"@ != "key"@,
        "timeouts"@ != "clear-key"@,
        "timeouts"@ != "env-key"@,
        "timeouts"@ != "model"@,
        "timeouts"@ != "prompt"@,
        "timeouts"@ != "thinking"@,
        "timeouts"@ != "search"@,
        "timeouts"@ != "default-search"@,
        "timeouts"@ != "timeout"@,
        "tokens"@ != "status"@,
        "tokens"@ != "context"@,
        "tokens"@ != "provider"@,
        "tokens"@ != "key"@,
        "tokens"@ != "clear-key"@,
        "tokens"@ != "env-key"@,
        "tokens"@ != "model"@,
        "tokens"@ != "prompt"@,
        "tokens"@ != "thinking"@,
        "tokens"@ != "search"@,
        "tokens"@ != "default-search"@,
        "tokens"@ != "timeout"@,
        "tokens"@ != "timeouts"@,
        "max-tokens"@ != "status"@,
        "max-tokens"@ != "context"@,
        "max-tokens"@ != "provider"@,
        "max-tokens"@ != "key"@,
        "max-tokens"@ != "clear-key"@,
        "max-tokens"@ != "env-key"@,
        "max-tokens"@ != "model"@,
        "max-tokens"@ != "prompt"@,
        "max-tokens"@ != "thinking"@,
        "max-tokens"@ != "search"@,
        "max-tokens"@ != "default-search"@,
        "max-tokens"@ != "timeout"@,
        "max-tokens"@ != "timeouts"@,
        "max-tokens"@ != "tokens"@,
        "collapse"@ != "status"@,
        "collapse"@ != "context"@,
        "collapse"@ != "provider"@,
        "collapse"@ != "key"@,
        "collapse"@ != "clear-key"@,
        "collapse"@ != "env-key"@,
        "collapse"@ != "model"@,
        "collapse"@ != "prompt"@,
        "collapse"@ != "thinking"@,
        "collapse"@ != "search"@,
        "collapse"@ != "default-search"@,
        "collapse"@ != "timeout"@,
        "collapse"@ != "timeouts"@,
        "collapse"@ != "tokens"@,
        "collapse"@ != "max-tokens"@,
        "message"@ != "status"@,
        "message"@ != "context"@,
        "message"@ != "provider"@,
        "message"@ != "key"@,
        "message"@ != "clear-key"@,
        "message"@ != "env-key"@,
        "message"@ != "model"@,
        "message"@ != "prompt"@,
        "message"@ != "thinking"@,
        "message"@ != "search"@,
        "message"@ != "default-search"@,
        "message"@ != "timeout"@,
        "message"@ != "timeouts"@,
        "message"@ != "tokens"@,
        "message"@ != "max-tokens"@,
        "message"@ != "collapse"@,
        "messages"@ != "status"@,
        "messages"@ != "context"@,
        "messages"@ != "provider"@,
        "messages"@ != "key"@,
        "messages"@ != "clear-key"@,
        "messages"@ != "env-key"@,
        "messages"@ != "model"@,
        "messages"@ != "prompt"@,
        "messages"@ != "thinking"@,
        "messages"@ != "search"@,
        "messages"@ != "default-search"@,
        "messages"@ != "timeout"@,
        "messages"@ != "timeouts"@,
        "messages"@ != "tokens"@,
        "messages"@ != "max-tokens"@,
        "messages"@ != "collapse"@,
        "messages"@ != "message"@,
        "reset"@ != "status"@,
        "reset"@ != "context"@,
        "reset"@ != "provider"@,
        "reset"@ != "key"@,
        "reset"@ != "clear-key"@,
        "reset"@ != "env-key"@,
        "reset"@ != "model"@,
        "reset"@ != "prompt"@,
        "reset"@ != "thinking"@,
        "reset"@ != "search"@,
        "reset"@ != "default-search"@,
        "reset"@ != "timeout"@,
        "reset"@ != "timeouts"@,
        "reset"@ != "tokens"@,
        "reset"@ != "max-tokens"@,
        "reset"@ != "collapse"@,
        "reset"@ != "message"@,
        "reset"@ != "messages"@,
        "reload"@ != "status"@,
        "reload"@ != "context"@,
        "reload"@ != "provider"@,
        "reload"@ != "key"@,
        "reload"@ != "clear-key"@,
        "reload"@ != "env-key"@,
        "reload"@ != "model"@,
        "reload"@ != "prompt"@,
        "reload"@ != "thinking"@,
        "reload"@ != "search"@,
        "reload"@ != "default-search"@,
        "reload"@ != "timeout"@,
        "reload"@ != "timeouts"@,
        "reload"@ != "tokens"@,
        "reload"@ != "max-tokens"@,
        "reload"@ != "collapse"@,
        "reload"@ != "message"@,
        "reload"@ != "messages"@,
        "reload"@ != "reset"@,
        scan::lowered("status"@) == "status"@,
        scan::lowered("off"@) == "off"@,
{
    reveal_strlit("status");
    reveal_strlit("context");
    reveal_strlit("provider");
    reveal_strlit("key");
    reveal_strlit("clear-key");
    reveal_strlit("env-key");
    reveal_strlit("model");
    reveal_strlit("prompt");
    reveal_strlit("thinking");
    reveal_strlit("search");
    reveal_strlit("default-search");
    reveal_strlit("timeout");
    reveal_strlit("timeouts");
    reveal_strlit("tokens");
    reveal_strlit("max-tokens");
    reveal_strlit("collapse");
    reveal_strlit("message");
    reveal_strlit("messages");
    reveal_strlit("reset");
    reveal_strlit("reload");
    assert("status"@.len() != "context"@.len());
    assert("status"@.len() != "provider"@.len());
    assert("status"@.len() != "key"@.len());
    assert("status"@.len() != "clear-key"@.len());
    assert("status"@.len() != "env-key"@.len());
    assert("status"@.len() != "model"@.len());
    assert("status"@[0] != "prompt"@[0]);
    assert("status"@.len() != "thinking"@.len());
    assert("status"@[1] != "search"@[1]);
    assert("status"@.len() != "default-search"@.len());
    assert("status"@.len() != "timeout"@.len());
    assert("status"@.len() != "timeouts"@.len());
    assert("status"@[0] != "tokens"@[0]);
    assert("status"@.len() != "max-tokens"@.len());
    assert("status"@.len() != "collapse"@.len());
    assert("status"@.len() != "message"@.len());
    assert("status"@.len() != "messages"@.len());
    assert("status"@.len() != "reset"@.len());
    assert("status"@[0] != "reload"@[0]);
    assert("context"@.len() != "provider"@.len());
    assert("context"@.len() != "key"@.len());
    assert("context"@.len() != "clear-key"@.len());
    assert("context"@[0] != "env-key"@[0]);
    assert("context"@.len() != "model"@.len());
    assert("context"@.len() != "prompt"@.len());
    assert("context"@.len() != "thinking"@.len());
    assert("context"@.len() != "search"@.len());
    assert("context"@.len() != "default-search"@.len());
    assert("context"@[0] != "timeout"@[0]);
    assert("context"@.len() != "timeouts"@.len());
    assert("context"@.len() != "tokens"@.len());
    assert("context"@.len() != "max-tokens"@.len());
    assert("context"@.len() != "collapse"@.len());
    assert("context"@[0] != "message"@[0]);
    assert("context"@.len() != "messages"@.len());
    assert("context"@.len() != "reset"@.len());
    assert("context"@.len() != "reload"@.len());
    assert("provider"@.len() != "key"@.len());
    assert("provider"@.len() != "clear-key"@.len());
    assert("provider"@.len() != "env-key"@.len());
    assert("provider"@.len() != "model"@.len());
    assert("provider"@.len() != "prompt"@.len());
    assert("provider"@[0] != "thinking"@[0]);
    assert("provider"@.len() != "search"@.len());
    assert("provider"@.len() != "default-search"@.len());
    assert("provider"@.len() != "timeout"@.len());
    assert("provider"@[0] != "timeouts"@[0]);
    assert("provider"@.len() != "tokens"@.len());
    assert("provider"@.len() != "max-tokens"@.len());
    assert("provider"@[0] != "collapse"@[0]);
    assert("provider"@.len() != "message"@.len());
    assert("provider"@[0] != "messages"@[0]);
    assert("provider"@.len() != "reset"@.len());
    assert("provider"@.len() != "reload"@.len());
    assert("key"@.len() != "clear-key"@.len());
    assert("key"@.len() != "env-key"@.len());
    assert("key"@.len() != "model"@.len());
    assert("key"@.len() != "prompt"@.len());
    assert("key"@.len() != "thinking"@.len());
    assert("key"@.len() != "search"@.len());
    assert("key"@.len() != "default-search"@.len());
    assert("key"@.len() != "timeout"@.len());
    assert("key"@.len() != "timeouts"@.len());
    assert("key"@.len() != "tokens"@.len());
    assert("key"@.len() != "max-tokens"@.len());
    assert("key"@.len() != "collapse"@.len());
    assert("key"@.len() != "message"@.len());
    assert("key"@.len() != "messages"@.len());
    assert("key"@.len() != "reset"@.len());
    assert("key"@.len() != "reload"@.len());
    assert("clear-key"@.len() != "env-key"@.len());
    assert("clear-key"@.len() != "model"@.len());
    assert("clear-key"@.len() != "prompt"@.len());
    assert("clear-key"@.len() != "thinking"@.len());
    assert("clear-key"@.len() != "search"@.len());
    assert("clear-key"@.len() != "default-search"@.len());
    assert("clear-key"@.len() != "timeout"@.len());
    assert("clear-key"@.len() != "timeouts"@.len());
    assert("clear-key"@.len() != "tokens"@.len());
    assert("clear-key"@.len() != "max-tokens"@.len());
    assert("clear-key"@.len() != "collapse"@.len());
    assert("clear-key"@.len() != "message"@.len());
    assert("clear-key"@.len() != "messages"@.len());
    assert("clear-key"@.len() != "reset"@.len());
    assert("clear-key"@.len() != "reload"@.len());
    assert("env-key"@.len() != "model"@.len());
    assert("env-key"@.len() != "prompt"@.len());
    assert("env-key"@.len() != "thinking"@.len());
    assert("env-key"@.len() != "search"@.len());
    assert("env-key"@.len() != "default-search"@.len());
    assert("env-key"@[0] != "timeout"@[0]);
    assert("env-key"@.len() != "timeouts"@.len());
    assert("env-key"@.len() != "tokens"@.len());
    assert("env-key"@.len() != "max-tokens"@.len());
    assert("env-key"@.len() != "collapse"@.len());
    assert("env-key"@[0] != "message"@[0]);
    assert("env-key"@.len() != "messages"@.len());
    assert("env-key"@.len() != "reset"@.len());
    assert("env-key"@.len() != "reload"@.len());
    assert("model"@.len() != "prompt"@.len());
    assert("model"@.len() != "thinking"@.len());
    assert("model"@.len() != "search"@.len());
    assert("model"@.len() != "default-search"@.len());
    assert("model"@.len() != "timeout"@.len());
    assert("model"@.len() != "timeouts"@.len());
    assert("model"@.len() != "tokens"@.len());
    assert("model"@.len() != "max-tokens"@.len());
    assert("model"@.len() != "collapse"@.len());
    assert("model"@.len() != "message"@.len());
    assert("model"@.len() != "messages"@.len());
    assert("model"@[0] != "reset"@[0]);
    assert("model"@.len() != "reload"@.len());
    assert("prompt"@.len() != "thinking"@.len());
    assert("prompt"@[0] != "search"@[0]);
    assert("prompt"@.len() != "default-search"@.len());
    assert("prompt"@.len() != "timeout"@.len());
    assert("prompt"@.len() != "timeouts"@.len());
    assert("prompt"@[0] != "tokens"@[0]);
    assert("prompt"@.len() != "max-tokens"@.len());
    assert("prompt"@.len() != "collapse"@.len());
    assert("prompt"@.len() != "message"@.len());
    assert("prompt"@.len() != "messages"@.len());
    assert("prompt"@.len() != "reset"@.len());
    assert("prompt"@[0] != "reload"@[0]);
    assert("thinking"@.len() != "search"@.len());
    assert("thinking"@.len() != "default-search"@.len());
    assert("thinking"@.len() != "timeout"@.len());
    assert("thinking"@[1] != "timeouts"@[1]);
    assert("thinking"@.len() != "tokens"@.len());
    assert("thinking"@.len() != "max-tokens"@.len());
    assert("thinking"@[0] != "collapse"@[0]);
    assert("thinking"@.len() != "message"@.len());
    assert("thinking"@[0] != "messages"@[0]);
    assert("thinking"@.len() != "reset"@.len());
    assert("thinking"@.len() != "reload"@.len());
    assert("search"@.len() != "default-search"@.len());
    assert("search"@.len() != "timeout"@.len());
    assert("search"@.len() != "timeouts"@.len());
    assert("search"@[0] != "tokens"@[0]);
    assert("search"@.len() != "max-tokens"@.len());
    assert("search"@.len() != "collapse"@.len());
    assert("search"@.len() != "message"@.len());
    assert("search"@.len() != "messages"@.len());
    assert("search"@.len() != "reset"@.len());
    assert("search"@[0] != "reload"@[0]);
    assert("default-search"@.len() != "timeout"@.len());
    assert("default-search"@.len() != "timeouts"@.len());
    assert("default-search"@.len() != "tokens"@.len());
    assert("default-search"@.len() != "max-tokens"@.len());
    assert("default-search"@.len() != "collapse"@.len());
    assert("default-search"@.len() != "message"@.len());
    assert("default-search"@.len() != "messages"@.len());
    assert("default-search"@.len() != "reset"@.len());
    assert("default-search"@.len() != "reload"@.len());
    assert("timeout"@.len() != "timeouts"@.len());
    assert("timeout"@.len() != "tokens"@.len());
    assert("timeout"@.len() != "max-tokens"@.len());
    assert("timeout"@.len() != "collapse"@.len());
    assert("timeout"@[0] != "message"@[0]);
    assert("timeout"@.len() != "messages"@.len());
    assert("timeout"@.len() != "reset"@.len());
    assert("timeout"@.len() != "reload"@.len());
    assert("timeouts"@.len() != "tokens"@.len());
    assert("timeouts"@.len() != "max-tokens"@.len());
    assert("timeouts"@[0] != "collapse"@[0]);
    assert("timeouts"@.len() != "message"@.len());
    assert("timeouts"@[0] != "messages"@[0]);
    assert("timeouts"@.len() != "reset"@.len());
    assert("timeouts"@.len() != "reload"@.len());
    assert("tokens"@.len() != "max-tokens"@.len());
    assert("tokens"@.len() != "collapse"@.len());
    assert("tokens"@.len() != "message"@.len());
    assert("tokens"@.len() != "messages"@.len());
    assert("tokens"@.len() != "reset"@.len());
    assert("tokens"@[0] != "reload"@[0]);
    assert("max-tokens"@.len() != "collapse"@.len());
    assert("max-tokens"@.len() != "message"@.len());
    assert("max-tokens"@.len() != "messages"@.len());
    assert("max-tokens"@.len() != "reset"@.len());
    assert("max-tokens"@.len() != "reload"@.len());
    assert("collapse"@.len() != "message"@.len());
    assert("collapse"@[0] != "messages"@[0]);
    assert("collapse"@.len() != "reset"@.len());
    assert("collapse"@.len() != "reload"@.len());
    assert("message"@.len() != "messages"@.len());
    assert("message"@.len() != "reset"@.len());
    assert("message"@.len() != "reload"@.len());
    assert("messages"@.len() != "reset"@.len());
    assert("messages"@.len() != "reload"@.len());
    assert("reset"@.len() != "reload"@.len());
    assert(scan::lowered("status"@) =~= "status"@);
    reveal_strlit("off");
    assert(scan::lowered("off"@) =~= "off"@);
}

proof fn lemma_action(
    args: Seq<Seq<char>>,
    scope: Seq<char>,
    turns: usize,
    r: RuntimeModel,
    d: DefaultsModel,
)
    requires
        args.len() > 0,
    ensures
        scan::lowered("off"@) == "off"@,
        ({
            let action = scan::lowered(args[0]);
            let got = planned(args, true, scope, turns, r, d);
            &&& action == "provider"@ ==> got == changed(provider_change(args, r))
            &&& action == "key"@ ==> got == changed(key_change(args, r))
            &&& action == "clear-key"@ ==> got == changed(clear_key_change(r, d))
            &&& action == "env-key"@ ==> got == changed(clear_key_change(r, d))
            &&& action == "model"@ ==> got == changed(model_change(args, r))
            &&& action == "prompt"@ ==> got == changed(prompt_change(args, r))
            &&& action == "thinking"@ ==> got == changed(thinking_change(args, r))
            &&& action == "search"@ ==> got == changed(search_change(args, r))
            &&& action == "default-search"@ ==> got == changed(search_change(args, r))
            &&& action == "timeout"@ ==> got == changed(timeout_change(args, r))
            &&& action == "timeouts"@ ==> got == changed(timeout_change(args, r))
            &&& action == "tokens"@ ==> got == changed(tokens_change(args, r))
            &&& action == "max-tokens"@ ==> got == changed(tokens_change(args, r))
            &&& action == "collapse"@ ==> got == changed(collapse_change(args, r))
            &&& action == "message"@ ==> got == changed(message_change(args, r))
            &&& action == "messages"@ ==> got == changed(message_change(args, r))
            &&& action == "reset"@ ==> got == changed(reset_change(d))
        }),
{
    lemma_action_words();
}

/// Without a word, and with `status`, the settings are shown, wherever one asks.
pub proof fn law_status_command(
    args: Seq<Seq<char>>,
    saved: bool,
    scope: Seq<char>,
    turns: usize,
    r: RuntimeModel,
    d: DefaultsModel,
)
    ensures
        args.len() == 0 || scan::lowered(args[0]) == "status"@ ==> planned(
            args,
            saved,
            scope,
            turns,
            r,
            d,
        ) == Ok::<OutcomeModel, Seq<char>>(OutcomeModel::Markdown(status_of(r, turns))),
        args.len() > 0 && scan::lowered(args[0]) != "status"@ && scan::lowered(args[0])
            != "context"@ ==> planned(args, false, scope, turns, r, d) == Err::<
            OutcomeModel,
            Seq<char>,
        >("为避免泄露配置，请只在 Telegram 收藏夹中执行 AI 配置修改"@),
        args.len() == 1 && scan::lowered(args[0]) == "reload"@ ==> planned(
            args,
            true,
            scope,
            turns,
            r,
            d,
        ) == Ok::<OutcomeModel, Seq<char>>(OutcomeModel::Reload),
        args.len() > 0 && scan::lowered(args[0]) == "context"@ ==> planned(
            args,
            saved,
            scope,
            turns,
            r,
            d,
        ) == match ai_context::context_outcome(args.skip(1), scope, turns) {
            Ok(o) => Ok::<OutcomeModel, Seq<char>>(OutcomeModel::Context(o)),
            Err(e) => Err(e),
        },
{
    lemma_action_words();
}

/// A word that names no setting is refused.
pub proof fn law_unknown_command(
    args: Seq<Seq<char>>,
    scope: Seq<char>,
    turns: usize,
    r: RuntimeModel,
    d: DefaultsModel,
)
    requires
        args.len() > 0,
        scan::lowered(args[0]) != "status"@,
        scan::lowered(args[0]) != "context"@,
        scan::lowered(args[0]) != "provider"@,
        scan::lowered(args[0]) != "key"@,
        scan::lowered(args[0]) != "clear-key"@,
        scan::lowered(args[0]) != "env-key"@,
        scan::lowered(args[0]) != "model"@,
        scan::lowered(args[0]) != "prompt"@,
        scan::lowered(args[0]) != "thinking"@,
        scan::lowered(args[0]) != "search"@,
        scan::lowered(args[0]) != "default-search"@,
        scan::lowered(args[0]) != "timeout"@,
        scan::lowered(args[0]) != "timeouts"@,
        scan::lowered(args[0]) != "tokens"@,
        scan::lowered(args[0]) != "max-tokens"@,
        scan::lowered(args[0]) != "collapse"@,
        scan::lowered(args[0]) != "message"@,
        scan::lowered(args[0]) != "messages"@,
        scan::lowered(args[0]) != "reset"@,
        scan::lowered(args[0]) != "reload"@,
    ensures
        planned(args, true, scope, turns, r, d) is Err,
{
    lemma_action_words();
}

/// `provider` sets the format, if one is given, the name and the address, and nothing else.
pub proof fn law_provider_command(
    args: Seq<Seq<char>>,
    scope: Seq<char>,
    turns: usize,
    r: RuntimeModel,
    d: DefaultsModel,
)
    requires
        args.len() > 0,
        scan::lowered(args[0]) == "provider"@,
    ensures
        ({
            let got = planned(args, true, scope, turns, r, d);
            &&& args.len() == 4 ==> match AiApiFormat::with_name(args[1]) {
                Err(e) => got == Err::<OutcomeModel, Seq<char>>(e),
                Ok(api_format) => takes_effect(
                    got,
                    RuntimeModel { api_format, provider_name: args[2], base_url: args[3], ..r },
                ) && (got matches Ok(OutcomeModel::Change(c)) ==> c.reply
                    == "✅ AI 服务商已更新\n名称："@ + args[2] + "\nAPI 格式："@ + api_format.name()
                    + "\nBaseURL："@ + c.runtime.base_url),
            }
            &&& args.len() == 3 ==> takes_effect(
                got,
                RuntimeModel { provider_name: args[1], base_url: args[2], ..r },
            )
            &&& args.len() < 3 || args.len() > 4 ==> got == Err::<OutcomeModel, Seq<char>>(
                "用法：.ai config provider [API格式] <名称> <BaseURL>"@,
            )
        }),
{
    lemma_action(args, scope, turns, r, d);
}

/// `key` sets the key, and `clear-key` goes back to that of the environment.
pub proof fn law_key_command(
    args: Seq<Seq<char>>,
    scope: Seq<char>,
    turns: usize,
    r: RuntimeModel,
    d: DefaultsModel,
)
    requires
        args.len() > 0,
        scan::lowered(args[0]) == "key"@ || scan::lowered(args[0]) == "clear-key"@ || scan::lowered(args[0]) == "env-key"@,
    ensures
        ({
            let got = planned(args, true, scope, turns, r, d);
            let key = scan::lowered(args[0]) == "key"@;
            &&& key && args.len() == 2 && ai_runtime::api_key_problem(args[1]) is None
                ==> takes_effect(got, RuntimeModel { api_key: args[1], key_overridden: true, ..r })
                && answers(got, "✅ AI Key 已更新并持久化；不会回显 Key"@)
            &&& key && args.len() == 2 && ai_runtime::api_key_problem(args[1]) is Some ==> got is Err
            &&& key && args.len() != 2 ==> got == Err::<OutcomeModel, Seq<char>>(
                "用法：.ai config key <Key>"@,
            )
            &&& !key ==> takes_effect(
                got,
                RuntimeModel { api_key: d.env_api_key, key_overridden: false, ..r },
            ) && answers(got, "✅ 已改回服务器环境变量中的 AI Key"@)
        }),
{
    lemma_action(args, scope, turns, r, d);
    lemma_action_words();
}

/// `model` sets the first model, and the second one if it is given; `off` takes the second one away.
pub proof fn law_model_command(
    args: Seq<Seq<char>>,
    scope: Seq<char>,
    turns: usize,
    r: RuntimeModel,
    d: DefaultsModel,
)
    requires
        args.len() > 0,
        scan::lowered(args[0]) == "model"@,
    ensures
        ({
            let got = planned(args, true, scope, turns, r, d);
            &&& args.len() == 2 ==> takes_effect(got, RuntimeModel { primary_model: args[1], ..r })
            &&& args.len() == 3 && scan::lowered(args[2]) == "off"@ ==> takes_effect(
                got,
                RuntimeModel { primary_model: args[1], search_fallback_model: Seq::empty(), ..r },
            )
            &&& args.len() == 3 && scan::lowered(args[2]) != "off"@ ==> takes_effect(
                got,
                RuntimeModel { primary_model: args[1], search_fallback_model: args[2], ..r },
            )
            &&& got matches Ok(OutcomeModel::Change(c)) ==> c.reply == "✅ AI 模型已更新\n主模型："@
                + args[1] + "\n搜索备用："@ + ai_runtime::runtime_provider(
                c.runtime,
            ).search_fallback_model
            &&& args.len() < 2 || args.len() > 3 ==> got == Err::<OutcomeModel, Seq<char>>(
                "用法：.ai config model <主模型> [搜索备用模型|off]"@,
            )
        }),
{
    lemma_action(args, scope, turns, r, d);
}

/// `prompt` sets the prompt: all that follows, with single spaces.
pub proof fn law_prompt_command(
    args: Seq<Seq<char>>,
    scope: Seq<char>,
    turns: usize,
    r: RuntimeModel,
    d: DefaultsModel,
)
    requires
        args.len() > 0,
        scan::lowered(args[0]) == "prompt"@,
    ensures
        ({
            let got = planned(args, true, scope, turns, r, d);
            &&& args.len() >= 2 ==> takes_effect(
                got,
                RuntimeModel {
                    config: AiConfigModel {
                        system_prompt: scan::joined(args.skip(1), " "@),
                        ..r.config
                    },
                    ..r
                },
            ) && answers(got, "✅ 系统提示词已更新并立即生效"@)
            &&& args.len() < 2 ==> got == Err::<OutcomeModel, Seq<char>>(
                "用法：.ai config prompt <系统提示词>"@,
            )
        }),
{
    lemma_action(args, scope, turns, r, d);
}

/// `thinking` sets how hard the model thinks, in any case.
pub proof fn law_thinking_command(
    args: Seq<Seq<char>>,
    scope: Seq<char>,
    turns: usize,
    r: RuntimeModel,
    d: DefaultsModel,
)
    requires
        args.len() > 0,
        scan::lowered(args[0]) == "thinking"@,
    ensures
        ({
            let got = planned(args, true, scope, turns, r, d);
            &&& args.len() == 2 ==> takes_effect(
                got,
                RuntimeModel {
                    config: AiConfigModel { thinking_level: scan::lowered(args[1]), ..r.config },
                    ..r
                },
            ) && answers(got, "✅ 思考等级已设置为 "@ + scan::lowered(args[1]))
            &&& args.len() != 2 ==> got == Err::<OutcomeModel, Seq<char>>(
                "用法：.ai config thinking <minimal|low|medium|high>"@,
            )
        }),
{
    lemma_action(args, scope, turns, r, d);
}

/// `search` sets whether a question without a word is searched for.
pub proof fn law_search_command(
    args: Seq<Seq<char>>,
    scope: Seq<char>,
    turns: usize,
    r: RuntimeModel,
    d: DefaultsModel,
)
    requires
        args.len() > 0,
        scan::lowered(args[0]) == "search"@ || scan::lowered(args[0]) == "default-search"@,
    ensures
        ({
            let got = planned(args, true, scope, turns, r, d);
            &&& args.len() == 2 ==> match ai_runtime::switch_setting("默认搜索"@, args[1]) {
                Err(e) => got == Err::<OutcomeModel, Seq<char>>(e),
                Ok(on) => takes_effect(
                    got,
                    RuntimeModel { config: AiConfigModel { default_search: on, ..r.config }, ..r },
                ) && answers(
                    got,
                    if on {
                        "✅ 裸 .ai 已设置为默认联网搜索"@
                    } else {
                        "✅ 裸 .ai 已设置为默认普通回答"@
                    },
                ),
            }
            &&& args.len() != 2 ==> got == Err::<OutcomeModel, Seq<char>>(
                "用法：.ai config search <on|off>"@,
            )
        }),
{
    lemma_action(args, scope, turns, r, d);
}

/// `collapse` sets whether long answers fold.
pub proof fn law_collapse_command(
    args: Seq<Seq<char>>,
    scope: Seq<char>,
    turns: usize,
    r: RuntimeModel,
    d: DefaultsModel,
)
    requires
        args.len() > 0,
        scan::lowered(args[0]) == "collapse"@,
    ensures
        ({
            let got = planned(args, true, scope, turns, r, d);
            &&& args.len() == 2 ==> match ai_runtime::switch_setting("Q/A 引用折叠"@, args[1]) {
                Err(e) => got == Err::<OutcomeModel, Seq<char>>(e),
                Ok(on) => takes_effect(
                    got,
                    RuntimeModel {
                        config: AiConfigModel { collapse_long_messages: on, ..r.config },
                        ..r
                    },
                ) && answers(
                    got,
                    if on {
                        "✅ Q/A 可折叠引用已开启"@
                    } else {
                        "✅ Q/A 可折叠引用已关闭"@
                    },
                ),
            }
            &&& args.len() != 2 ==> got == Err::<OutcomeModel, Seq<char>>(
                "用法：.ai config collapse <on|off>"@,
            )
        }),
{
    lemma_action(args, scope, turns, r, d);
}

/// `timeout` sets the four limits in order: text, pictures, the second request, the answer without search.
pub proof fn law_timeout_command(
    args: Seq<Seq<char>>,
    scope: Seq<char>,
    turns: usize,
    r: RuntimeModel,
    d: DefaultsModel,
    text: u64,
    image: u64,
    hedge: u64,
    fallback: u64,
)
    requires
        args.len() > 0,
        scan::lowered(args[0]) == "timeout"@ || scan::lowered(args[0]) == "timeouts"@,
    ensures
        args.len() == 5 && args[1] == number::decimal(text as nat) && args[2] == number::decimal(
            image as nat,
        ) && args[3] == number::decimal(hedge as nat) && args[4] == number::decimal(
            fallback as nat,
        ) ==> takes_effect(
            planned(args, true, scope, turns, r, d),
            RuntimeModel {
                config: AiConfigModel {
                    search_timeout_seconds: text,
                    image_search_timeout_seconds: image,
                    search_hedge_seconds: hedge,
                    fallback_timeout_seconds: fallback,
                    ..r.config
                },
                ..r
            },
        ) && answers(
            planned(args, true, scope, turns, r, d),
            "✅ AI 时限已更新\n文字："@ + args[1] + " 秒\n图片："@ + args[2] + " 秒\n切备用："@
                + args[3] + " 秒\n兜底："@ + args[4] + " 秒"@,
        ),
        args.len() != 5 ==> planned(args, true, scope, turns, r, d) == Err::<OutcomeModel, Seq<char>>(
            "用法：.ai config timeout <文字秒> <图片秒> <切备用秒> <兜底秒>"@,
        ),
        args.len() == 5 && (number::unsigned_value(args[1], u64::MAX as nat) is Err
            || number::unsigned_value(args[2], u64::MAX as nat) is Err || number::unsigned_value(
            args[3],
            u64::MAX as nat,
        ) is Err || number::unsigned_value(args[4], u64::MAX as nat) is Err) ==> planned(args, true, scope, turns, r, d)
            is Err,
{
    lemma_action(args, scope, turns, r, d);
    number::law_decimal_round_trip(text as nat, u64::MAX as nat);
    number::law_decimal_round_trip(image as nat, u64::MAX as nat);
    number::law_decimal_round_trip(hedge as nat, u64::MAX as nat);
    number::law_decimal_round_trip(fallback as nat, u64::MAX as nat);
}

/// `tokens` sets how long an answer may be.
pub proof fn law_tokens_command(
    args: Seq<Seq<char>>,
    scope: Seq<char>,
    turns: usize,
    r: RuntimeModel,
    d: DefaultsModel,
    n: u32,
)
    requires
        args.len() > 0,
        scan::lowered(args[0]) == "tokens"@ || scan::lowered(args[0]) == "max-tokens"@,
    ensures
        args.len() == 2 && args[1] == number::decimal(n as nat) ==> takes_effect(
            planned(args, true, scope, turns, r, d),
            RuntimeModel { config: AiConfigModel { max_output_tokens: n, ..r.config }, ..r },
        ) && answers(
            planned(args, true, scope, turns, r, d),
            "✅ 最大输出已设置为 "@ + args[1] + " Token"@,
        ),
        args.len() != 2 ==> planned(args, true, scope, turns, r, d) == Err::<OutcomeModel, Seq<char>>(
            "用法：.ai config tokens <1-65536>"@,
        ),
        args.len() == 2 && number::unsigned_value(args[1], u32::MAX as nat) is Err ==> planned(args, true, scope, turns, r, d) is Err,
{
    lemma_action(args, scope, turns, r, d);
    number::law_decimal_round_trip(n as nat, u32::MAX as nat);
}

/// `message` sets what is shown while an answer is searched for, or thought about.
pub proof fn law_message_command(
    args: Seq<Seq<char>>,
    scope: Seq<char>,
    turns: usize,
    r: RuntimeModel,
    d: DefaultsModel,
)
    requires
        args.len() > 0,
        scan::lowered(args[0]) == "message"@ || scan::lowered(args[0]) == "messages"@,
    ensures
        ({
            let got = planned(args, true, scope, turns, r, d);
            let kind = scan::lowered(args[1]);
            let value = scan::joined(args.skip(2), " "@);
            &&& args.len() >= 3 && (kind == "searching"@ || kind == "search"@) ==> takes_effect(
                got,
                RuntimeModel {
                    messages: MessagesModel { ai_searching: value, ..r.messages },
                    ..r
                },
            )
            &&& args.len() >= 3 && (kind == "thinking"@ || kind == "think"@) ==> takes_effect(
                got,
                RuntimeModel { messages: MessagesModel { ai_thinking: value, ..r.messages }, ..r },
            )
            &&& answers(got, "✅ "@ + kind + " 进度文案已更新为："@ + value)
            &&& args.len() >= 3 && kind != "searching"@ && kind != "search"@ && kind != "thinking"@
                && kind != "think"@ ==> got == Err::<OutcomeModel, Seq<char>>(
                "文案名称只能是 searching 或 thinking"@,
            )
            &&& args.len() < 3 ==> got == Err::<OutcomeModel, Seq<char>>(
                "用法：.ai config message <searching|thinking> <文案>"@,
            )
        }),
{
    lemma_action(args, scope, turns, r, d);
    reveal_strlit("searching");
    reveal_strlit("search");
    reveal_strlit("thinking");
    reveal_strlit("think");
    assert("searching"@.len() != "search"@.len());
    assert("searching"@.len() != "thinking"@.len());
    assert("searching"@.len() != "think"@.len());
    assert("search"@.len() != "thinking"@.len());
    assert("search"@.len() != "think"@.len());
    assert("thinking"@.len() != "think"@.len());
}

/// `reset` goes back to what the configuration file says, in everything.
pub proof fn law_reset_command(
    args: Seq<Seq<char>>,
    scope: Seq<char>,
    turns: usize,
    r: RuntimeModel,
    d: DefaultsModel,
)
    requires
        args.len() > 0,
        scan::lowered(args[0]) == "reset"@,
    ensures
        ({
            let got = planned(args, true, scope, turns, r, d);
            &&& takes_effect(
                got,
                RuntimeModel {
                    provider_name: ai_runtime::shown_provider(d.config.provider),
                    api_format: d.config.api_format,
                    base_url: d.config.base_url,
                    api_key: d.env_api_key,
                    primary_model: d.config.model,
                    search_fallback_model: d.config.search_fallback_model,
                    key_overridden: false,
                    config: d.config,
                    messages: d.messages,
                },
            )
            &&& answers(got, "✅ AI 动态配置已清除，已恢复服务器配置"@)
        }),
{
    lemma_action(args, scope, turns, r, d);
}

/// Writes are made one behind the other. One sets one setting, or takes one away; a reset takes away every
/// setting of the assistant, and nothing else.
pub proof fn law_writes(
    m: Map<Seq<char>, Seq<char>>,
    writes: Seq<WriteModel>,
    w: WriteModel,
    s: AiSetting,
    value: Seq<char>,
    key: Seq<char>,
)
    ensures
        all_written(m, Seq::empty()) == m,
        all_written(m, writes.push(w)) == written(all_written(m, writes), w),
        written(m, WriteModel::Put(s, value)) == m.insert(s.name(), value),
        written(m, WriteModel::Delete(s)) == m.remove(s.name()),
        written(m, WriteModel::Clear).contains_key(key) <==> m.contains_key(key) && !scan::starts(
            key,
            "ai.runtime."@,
        ),
        written(m, WriteModel::Clear).contains_key(key) ==> written(m, WriteModel::Clear)[key]
            == m[key],
{
    assert(writes.push(w).drop_last() =~= writes);
}

/// Reading the configuration again takes everything from the file but the number of requests at a time,
/// and what was changed at run time stays in force.
pub proof fn law_reload(
    ai: AiConfigModel,
    messages: MessagesModel,
    key: Seq<char>,
    current: DefaultsModel,
    m: Map<Seq<char>, Seq<char>>,
    e: Seq<char>,
)
    ensures
        !ai.enabled ==> reloaded(ai, messages, Ok(Some(key)), current, m) == Err::<
            (DefaultsModel, RuntimeModel),
            Seq<char>,
        >("服务器配置已关闭 AI；停用插件需要重启服务"@),
        ai.enabled ==> reloaded(ai, messages, Ok(None), current, m) == Err::<
            (DefaultsModel, RuntimeModel),
            Seq<char>,
        >("AI Key 未配置"@),
        ai.enabled ==> reloaded(ai, messages, Err(e), current, m) == Err::<
            (DefaultsModel, RuntimeModel),
            Seq<char>,
        >(e),
        ai.enabled ==> ({
            let d = DefaultsModel {
                config: AiConfigModel { max_concurrent: current.config.max_concurrent, ..ai },
                messages,
                env_api_key: key,
            };
            match ai_runtime::loaded(d, m) {
                Ok(r) => reloaded(ai, messages, Ok(Some(key)), current, m) == Ok::<
                    (DefaultsModel, RuntimeModel),
                    Seq<char>,
                >((d, r)),
                Err(e) => reloaded(ai, messages, Ok(Some(key)), current, m) == Err::<
                    (DefaultsModel, RuntimeModel),
                    Seq<char>,
                >(e),
            }
        }),
{
}

/// The status says each setting under its name.
pub proof fn law_status(r: RuntimeModel, turns: usize)
    ensures
        scan::has(status_of(r, turns), "- 服务商：`"@ + r.provider_name),
        scan::has(status_of(r, turns), "- API 格式：`"@ + r.api_format.name()),
        scan::has(status_of(r, turns), "- BaseURL：`"@ + r.base_url),
        scan::has(status_of(r, turns), "- Key：**"@
            + (if r.key_overridden { "已设置自定义 Key"@ } else { "使用服务器环境变量"@ })),
        scan::has(status_of(r, turns), "- 主模型：`"@ + r.primary_model),
        scan::has(status_of(r, turns), "- 搜索备用模型：`"@
            + (if scan::blank(r.search_fallback_model) { r.primary_model } else { r.search_fallback_model })),
        scan::has(status_of(r, turns), "- 原生搜索：`"@ + search_words(r.api_format)),
        scan::has(status_of(r, turns), "- 思考等级：`"@ + r.config.thinking_level),
        scan::has(status_of(r, turns), "- 裸命令默认搜索：**"@
            + (if r.config.default_search { "开启"@ } else { "关闭"@ })),
        scan::has(status_of(r, turns), "- 自动记忆上下文：**"@
            + (if turns == 0 { "关闭"@ } else { "开启（"@ + number::decimal(turns as nat)
            + " 轮）"@ })),
        scan::has(status_of(r, turns), "- Q/A 引用折叠："@
            + (if r.config.collapse_long_messages { "开启"@ } else { "关闭"@ })),
        scan::has(status_of(r, turns), "- 纯文字搜索总时限："@
            + number::decimal(r.config.search_timeout_seconds as nat)),
        scan::has(status_of(r, turns), "- 带图搜索总时限："@
            + number::decimal(r.config.image_search_timeout_seconds as nat)),
        scan::has(status_of(r, turns), "- 慢请求切备用模型："@
            + number::decimal(r.config.search_hedge_seconds as nat)),
        scan::has(status_of(r, turns), "- 无搜索兜底时限："@
            + number::decimal(r.config.fallback_timeout_seconds as nat)),
        scan::has(status_of(r, turns), "- 最大输出："@
            + number::decimal(r.config.max_output_tokens as nat)),
        scan::has(status_of(r, turns), "- 系统提示词："@
            + number::decimal(r.config.system_prompt.len())),
        scan::has(status_of(r, turns), "- 搜索进度："@ + r.messages.ai_searching),
        scan::has(status_of(r, turns), "- 思考进度："@ + r.messages.ai_thinking),
        scan::has(status_of(r, turns), "- 并发上限："@
            + number::decimal(r.config.max_concurrent as nat)),
        r.api_format == AiApiFormat::GeminiInteractions ==> search_words(r.api_format)
            == "Google Search / Gemini Interactions"@,
        r.api_format == AiApiFormat::OpenaiResponses ==> search_words(r.api_format)
            == "web_search / OpenAI Responses"@,
        r.api_format == AiApiFormat::OpenaiChatCompletions ==> search_words(r.api_format)
            == "不支持（Chat Completions 无标准搜索工具）"@,
{
    lemma_status_part_0(r, turns);
    lemma_status_part_1(r, turns);
    lemma_status_part_2(r, turns);
    lemma_status_part_3(r, turns);
    lemma_status_part_4(r, turns);
    lemma_status_part_5(r, turns);
    lemma_status_part_6(r, turns);
    lemma_status_part_7(r, turns);
    lemma_status_part_8(r, turns);
    lemma_status_part_9(r, turns);
    lemma_status_part_10(r, turns);
    lemma_status_part_11(r, turns);
    lemma_status_part_12(r, turns);
    lemma_status_part_13(r, turns);
    lemma_status_part_14(r, turns);
    lemma_status_part_15(r, turns);
    lemma_status_part_16(r, turns);
    lemma_status_part_17(r, turns);
    lemma_status_part_18(r, turns);
    lemma_status_part_19(r, turns);
}

proof fn lemma_status_part_0(r: RuntimeModel, turns: usize)
    ensures
        scan::has(status_of(r, turns), "- 服务商：`"@ + r.provider_name),
{
    reveal_strlit("🤖 **telebot AI**\n\n- 服务商：`");
    reveal_strlit("- 服务商：`");
    reveal_strlit("🤖 **telebot AI**\n\n");
    assert("🤖 **telebot AI**\n\n- 服务商：`"@ =~= "🤖 **telebot AI**\n\n"@ + "- 服务商：`"@);
    let part = "- 服务商：`"@ + r.provider_name;
    let led = Seq::<char>::empty() + "🤖 **telebot AI**\n\n"@;
    assert("🤖 **telebot AI**\n\n- 服务商：`"@ + r.provider_name =~= led + part);
    lemma_shows(led, part);
}

proof fn lemma_status_part_1(r: RuntimeModel, turns: usize)
    ensures
        scan::has(status_of(r, turns), "- API 格式：`"@ + r.api_format.name()),
{
    let head = "🤖 **telebot AI**\n\n- 服务商：`"@ + r.provider_name;
    reveal_strlit("`\n- API 格式：`");
    reveal_strlit("- API 格式：`");
    reveal_strlit("`\n");
    assert("`\n- API 格式：`"@ =~= "`\n"@ + "- API 格式：`"@);
    let part = "- API 格式：`"@ + r.api_format.name();
    let led = head + "`\n"@;
    assert(head + "`\n- API 格式：`"@ + r.api_format.name() =~= led + part);
    lemma_shows(led, part);
}

proof fn lemma_status_part_2(r: RuntimeModel, turns: usize)
    ensures
        scan::has(status_of(r, turns), "- BaseURL：`"@ + r.base_url),
{
    let head = "🤖 **telebot AI**\n\n- 服务商：`"@ + r.provider_name + "`\n- API 格式：`"@
        + r.api_format.name();
    reveal_strlit("`\n- BaseURL：`");
    reveal_strlit("- BaseURL：`");
    reveal_strlit("`\n");
    assert("`\n- BaseURL：`"@ =~= "`\n"@ + "- BaseURL：`"@);
    let part = "- BaseURL：`"@ + r.base_url;
    let led = head + "`\n"@;
    assert(head + "`\n- BaseURL：`"@ + r.base_url =~= led + part);
    lemma_shows(led, part);
}

proof fn lemma_status_part_3(r: RuntimeModel, turns: usize)
    ensures
        scan::has(status_of(r, turns), "- Key：**"@
            + (if r.key_overridden { "已设置自定义 Key"@ } else { "使用服务器环境变量"@ })),
{
    let head = "🤖 **telebot AI**\n\n- 服务商：`"@ + r.provider_name + "`\n- API 格式：`"@
        + r.api_format.name() + "`\n- BaseURL：`"@ + r.base_url;
    reveal_strlit("`\n- Key：**");
    reveal_strlit("- Key：**");
    reveal_strlit("`\n");
    assert("`\n- Key：**"@ =~= "`\n"@ + "- Key：**"@);
    let part = "- Key：**"@ + key_words(r.key_overridden);
    let led = head + "`\n"@;
    assert(head + "`\n- Key：**"@ + key_words(r.key_overridden) =~= led + part);
    lemma_shows(led, part);
}

proof fn lemma_status_part_4(r: RuntimeModel, turns: usize)
    ensures
        scan::has(status_of(r, turns), "- 主模型：`"@ + r.primary_model),
{
    let head = "🤖 **telebot AI**\n\n- 服务商：`"@ + r.provider_name + "`\n- API 格式：`"@
        + r.api_format.name() + "`\n- BaseURL：`"@ + r.base_url + "`\n- Key：**"@
        + key_words(r.key_overridden);
    reveal_strlit("**\n- 主模型：`");
    reveal_strlit("- 主模型：`");
    reveal_strlit("**\n");
    assert("**\n- 主模型：`"@ =~= "**\n"@ + "- 主模型：`"@);
    let part = "- 主模型：`"@ + r.primary_model;
    let led = head + "**\n"@;
    assert(head + "**\n- 主模型：`"@ + r.primary_model =~= led + part);
    lemma_shows(led, part);
}

proof fn lemma_status_part_5(r: RuntimeModel, turns: usize)
    ensures
        scan::has(status_of(r, turns), "- 搜索备用模型：`"@
            + (if scan::blank(r.search_fallback_model) { r.primary_model } else { r.search_fallback_model })),
{
    let head = "🤖 **telebot AI**\n\n- 服务商：`"@ + r.provider_name + "`\n- API 格式：`"@
        + r.api_format.name() + "`\n- BaseURL：`"@ + r.base_url + "`\n- Key：**"@
        + key_words(r.key_overridden) + "**\n- 主模型：`"@ + r.primary_model;
    reveal_strlit("`\n- 搜索备用模型：`");
    reveal_strlit("- 搜索备用模型：`");
    reveal_strlit("`\n");
    assert("`\n- 搜索备用模型：`"@ =~= "`\n"@ + "- 搜索备用模型：`"@);
    let part = "- 搜索备用模型：`"@ + second_of(r);
    let led = head + "`\n"@;
    assert(head + "`\n- 搜索备用模型：`"@ + second_of(r) =~= led + part);
    lemma_shows(led, part);
}

proof fn lemma_status_part_6(r: RuntimeModel, turns: usize)
    ensures
        scan::has(status_of(r, turns), "- 原生搜索：`"@ + search_words(r.api_format)),
{
    let head = "🤖 **telebot AI**\n\n- 服务商：`"@ + r.provider_name + "`\n- API 格式：`"@
        + r.api_format.name() + "`\n- BaseURL：`"@ + r.base_url + "`\n- Key：**"@
        + key_words(r.key_overridden) + "**\n- 主模型：`"@ + r.primary_model
        + "`\n- 搜索备用模型：`"@ + second_of(r);
    reveal_strlit("`\n- 原生搜索：`");
    reveal_strlit("- 原生搜索：`");
    reveal_strlit("`\n");
    assert("`\n- 原生搜索：`"@ =~= "`\n"@ + "- 原生搜索：`"@);
    let part = "- 原生搜索：`"@ + search_words(r.api_format);
    let led = head + "`\n"@;
    assert(head + "`\n- 原生搜索：`"@ + search_words(r.api_format) =~= led + part);
    lemma_shows(led, part);
}

proof fn lemma_status_part_7(r: RuntimeModel, turns: usize)
    ensures
        scan::has(status_of(r, turns), "- 思考等级：`"@ + r.config.thinking_level),
{
    let head = "🤖 **telebot AI**\n\n- 服务商：`"@ + r.provider_name + "`\n- API 格式：`"@
        + r.api_format.name() + "`\n- BaseURL：`"@ + r.base_url + "`\n- Key：**"@
        + key_words(r.key_overridden) + "**\n- 主模型：`"@ + r.primary_model
        + "`\n- 搜索备用模型：`"@ + second_of(r) + "`\n- 原生搜索：`"@ + search_words(r.api_format);
    reveal_strlit("`\n- 思考等级：`");
    reveal_strlit("- 思考等级：`");
    reveal_strlit("`\n");
    assert("`\n- 思考等级：`"@ =~= "`\n"@ + "- 思考等级：`"@);
    let part = "- 思考等级：`"@ + r.config.thinking_level;
    let led = head + "`\n"@;
    assert(head + "`\n- 思考等级：`"@ + r.config.thinking_level =~= led + part);
    lemma_shows(led, part);
}

proof fn lemma_status_part_8(r: RuntimeModel, turns: usize)
    ensures
        scan::has(status_of(r, turns), "- 裸命令默认搜索：**"@
            + (if r.config.default_search { "开启"@ } else { "关闭"@ })),
{
    let head = "🤖 **telebot AI**\n\n- 服务商：`"@ + r.provider_name + "`\n- API 格式：`"@
        + r.api_format.name() + "`\n- BaseURL：`"@ + r.base_url + "`\n- Key：**"@
        + key_words(r.key_overridden) + "**\n- 主模型：`"@ + r.primary_model
        + "`\n- 搜索备用模型：`"@ + second_of(r) + "`\n- 原生搜索：`"@ + search_words(r.api_format)
        + "`\n- 思考等级：`"@ + r.config.thinking_level;
    reveal_strlit("`（仅 Gemini Interactions 使用）\n- 裸命令默认搜索：**");
    reveal_strlit("- 裸命令默认搜索：**");
    reveal_strlit("`（仅 Gemini Interactions 使用）\n");
    assert("`（仅 Gemini Interactions 使用）\n- 裸命令默认搜索：**"@ =~= "`（仅 Gemini Interactions 使用）\n"@
        + "- 裸命令默认搜索：**"@);
    let part = "- 裸命令默认搜索：**"@ + switch_words(r.config.default_search);
    let led = head + "`（仅 Gemini Interactions 使用）\n"@;
    assert(head + "`（仅 Gemini Interactions 使用）\n- 裸命令默认搜索：**"@
        + switch_words(r.config.default_search) =~= led + part);
    lemma_shows(led, part);
}

proof fn lemma_status_part_9(r: RuntimeModel, turns: usize)
    ensures
        scan::has(status_of(r, turns), "- 自动记忆上下文：**"@
            + (if turns == 0 { "关闭"@ } else { "开启（"@ + number::decimal(turns as nat)
            + " 轮）"@ })),
{
    let head = "🤖 **telebot AI**\n\n- 服务商：`"@ + r.provider_name + "`\n- API 格式：`"@
        + r.api_format.name() + "`\n- BaseURL：`"@ + r.base_url + "`\n- Key：**"@
        + key_words(r.key_overridden) + "**\n- 主模型：`"@ + r.primary_model
        + "`\n- 搜索备用模型：`"@ + second_of(r) + "`\n- 原生搜索：`"@ + search_words(r.api_format)
        + "`\n- 思考等级：`"@ + r.config.thinking_level
        + "`（仅 Gemini Interactions 使用）\n- 裸命令默认搜索：**"@
        + switch_words(r.config.default_search);
    reveal_strlit("**\n- 自动记忆上下文：**");
    reveal_strlit("- 自动记忆上下文：**");
    reveal_strlit("**\n");
    assert("**\n- 自动记忆上下文：**"@ =~= "**\n"@ + "- 自动记忆上下文：**"@);
    let part = "- 自动记忆上下文：**"@ + context_words(turns);
    let led = head + "**\n"@;
    assert(head + "**\n- 自动记忆上下文：**"@ + context_words(turns) =~= led + part);
    lemma_shows(led, part);
}

proof fn lemma_status_part_10(r: RuntimeModel, turns: usize)
    ensures
        scan::has(status_of(r, turns), "- Q/A 引用折叠："@
            + (if r.config.collapse_long_messages { "开启"@ } else { "关闭"@ })),
{
    let head = "🤖 **telebot AI**\n\n- 服务商：`"@ + r.provider_name + "`\n- API 格式：`"@
        + r.api_format.name() + "`\n- BaseURL：`"@ + r.base_url + "`\n- Key：**"@
        + key_words(r.key_overridden) + "**\n- 主模型：`"@ + r.primary_model
        + "`\n- 搜索备用模型：`"@ + second_of(r) + "`\n- 原生搜索：`"@ + search_words(r.api_format)
        + "`\n- 思考等级：`"@ + r.config.thinking_level
        + "`（仅 Gemini Interactions 使用）\n- 裸命令默认搜索：**"@
        + switch_words(r.config.default_search) + "**\n- 自动记忆上下文：**"@
        + context_words(turns);
    reveal_strlit("**\n- 回复消息：作为本次请求上下文\n- Q/A 引用折叠：");
    reveal_strlit("- Q/A 引用折叠：");
    reveal_strlit("**\n- 回复消息：作为本次请求上下文\n");
    assert("**\n- 回复消息：作为本次请求上下文\n- Q/A 引用折叠："@ =~= "**\n- 回复消息：作为本次请求上下文\n"@
        + "- Q/A 引用折叠："@);
    let part = "- Q/A 引用折叠："@ + switch_words(r.config.collapse_long_messages);
    let led = head + "**\n- 回复消息：作为本次请求上下文\n"@;
    assert(head + "**\n- 回复消息：作为本次请求上下文\n- Q/A 引用折叠："@
        + switch_words(r.config.collapse_long_messages) =~= led + part);
    lemma_shows(led, part);
}

proof fn lemma_status_part_11(r: RuntimeModel, turns: usize)
    ensures
        scan::has(status_of(r, turns), "- 纯文字搜索总时限："@
            + number::decimal(r.config.search_timeout_seconds as nat)),
{
    let head = "🤖 **telebot AI**\n\n- 服务商：`"@ + r.provider_name + "`\n- API 格式：`"@
        + r.api_format.name() + "`\n- BaseURL：`"@ + r.base_url + "`\n- Key：**"@
        + key_words(r.key_overridden) + "**\n- 主模型：`"@ + r.primary_model
        + "`\n- 搜索备用模型：`"@ + second_of(r) + "`\n- 原生搜索：`"@ + search_words(r.api_format)
        + "`\n- 思考等级：`"@ + r.config.thinking_level
        + "`（仅 Gemini Interactions 使用）\n- 裸命令默认搜索：**"@
        + switch_words(r.config.default_search) + "**\n- 自动记忆上下文：**"@ + context_words(turns)
        + "**\n- 回复消息：作为本次请求上下文\n- Q/A 引用折叠："@
        + switch_words(r.config.collapse_long_messages);
    reveal_strlit("\n- 纯文字搜索总时限：");
    reveal_strlit("- 纯文字搜索总时限：");
    reveal_strlit("\n");
    assert("\n- 纯文字搜索总时限："@ =~= "\n"@ + "- 纯文字搜索总时限："@);
    let part = "- 纯文字搜索总时限："@ + number::decimal(r.config.search_timeout_seconds as nat);
    let led = head + "\n"@;
    assert(head + "\n- 纯文字搜索总时限："@
        + number::decimal(r.config.search_timeout_seconds as nat) =~= led + part);
    lemma_shows(led, part);
}

proof fn lemma_status_part_12(r: RuntimeModel, turns: usize)
    ensures
        scan::has(status_of(r, turns), "- 带图搜索总时限："@
            + number::decimal(r.config.image_search_timeout_seconds as nat)),
{
    let head = "🤖 **telebot AI**\n\n- 服务商：`"@ + r.provider_name + "`\n- API 格式：`"@
        + r.api_format.name() + "`\n- BaseURL：`"@ + r.base_url + "`\n- Key：**"@
        + key_words(r.key_overridden) + "**\n- 主模型：`"@ + r.primary_model
        + "`\n- 搜索备用模型：`"@ + second_of(r) + "`\n- 原生搜索：`"@ + search_words(r.api_format)
        + "`\n- 思考等级：`"@ + r.config.thinking_level
        + "`（仅 Gemini Interactions 使用）\n- 裸命令默认搜索：**"@
        + switch_words(r.config.default_search) + "**\n- 自动记忆上下文：**"@ + context_words(turns)
        + "**\n- 回复消息：作为本次请求上下文\n- Q/A 引用折叠："@
        + switch_words(r.config.collapse_long_messages) + "\n- 纯文字搜索总时限："@
        + number::decimal(r.config.search_timeout_seconds as nat);
    reveal_strlit(" 秒\n- 带图搜索总时限：");
    reveal_strlit("- 带图搜索总时限：");
    reveal_strlit(" 秒\n");
    assert(" 秒\n- 带图搜索总时限："@ =~= " 秒\n"@ + "- 带图搜索总时限："@);
    let part = "- 带图搜索总时限："@ + number::decimal(r.config.image_search_timeout_seconds as nat);
    let led = head + " 秒\n"@;
    assert(head + " 秒\n- 带图搜索总时限："@
        + number::decimal(r.config.image_search_timeout_seconds as nat) =~= led + part);
    lemma_shows(led, part);
}

proof fn lemma_status_part_13(r: RuntimeModel, turns: usize)
    ensures
        scan::has(status_of(r, turns), "- 慢请求切备用模型："@
            + number::decimal(r.config.search_hedge_seconds as nat)),
{
    let head = "🤖 **telebot AI**\n\n- 服务商：`"@ + r.provider_name + "`\n- API 格式：`"@
        + r.api_format.name() + "`\n- BaseURL：`"@ + r.base_url + "`\n- Key：**"@
        + key_words(r.key_overridden) + "**\n- 主模型：`"@ + r.primary_model
        + "`\n- 搜索备用模型：`"@ + second_of(r) + "`\n- 原生搜索：`"@ + search_words(r.api_format)
        + "`\n- 思考等级：`"@ + r.config.thinking_level
        + "`（仅 Gemini Interactions 使用）\n- 裸命令默认搜索：**"@
        + switch_words(r.config.default_search) + "**\n- 自动记忆上下文：**"@ + context_words(turns)
        + "**\n- 回复消息：作为本次请求上下文\n- Q/A 引用折叠："@
        + switch_words(r.config.collapse_long_messages) + "\n- 纯文字搜索总时限："@
        + number::decimal(r.config.search_timeout_seconds as nat) + " 秒\n- 带图搜索总时限："@
        + number::decimal(r.config.image_search_timeout_seconds as nat);
    reveal_strlit(" 秒\n- 慢请求切备用模型：");
    reveal_strlit("- 慢请求切备用模型：");
    reveal_strlit(" 秒\n");
    assert(" 秒\n- 慢请求切备用模型："@ =~= " 秒\n"@ + "- 慢请求切备用模型："@);
    let part = "- 慢请求切备用模型："@ + number::decimal(r.config.search_hedge_seconds as nat);
    let led = head + " 秒\n"@;
    assert(head + " 秒\n- 慢请求切备用模型："@
        + number::decimal(r.config.search_hedge_seconds as nat) =~= led + part);
    lemma_shows(led, part);
}

proof fn lemma_status_part_14(r: RuntimeModel, turns: usize)
    ensures
        scan::has(status_of(r, turns), "- 无搜索兜底时限："@
            + number::decimal(r.config.fallback_timeout_seconds as nat)),
{
    let head = "🤖 **telebot AI**\n\n- 服务商：`"@ + r.provider_name + "`\n- API 格式：`"@
        + r.api_format.name() + "`\n- BaseURL：`"@ + r.base_url + "`\n- Key：**"@
        + key_words(r.key_overridden) + "**\n- 主模型：`"@ + r.primary_model
        + "`\n- 搜索备用模型：`"@ + second_of(r) + "`\n- 原生搜索：`"@ + search_words(r.api_format)
        + "`\n- 思考等级：`"@ + r.config.thinking_level
        + "`（仅 Gemini Interactions 使用）\n- 裸命令默认搜索：**"@
        + switch_words(r.config.default_search) + "**\n- 自动记忆上下文：**"@ + context_words(turns)
        + "**\n- 回复消息：作为本次请求上下文\n- Q/A 引用折叠："@
        + switch_words(r.config.collapse_long_messages) + "\n- 纯文字搜索总时限："@
        + number::decimal(r.config.search_timeout_seconds as nat) + " 秒\n- 带图搜索总时限："@
        + number::decimal(r.config.image_search_timeout_seconds as nat)
        + " 秒\n- 慢请求切备用模型："@ + number::decimal(r.config.search_hedge_seconds as nat);
    reveal_strlit(" 秒\n- 无搜索兜底时限：");
    reveal_strlit("- 无搜索兜底时限：");
    reveal_strlit(" 秒\n");
    assert(" 秒\n- 无搜索兜底时限："@ =~= " 秒\n"@ + "- 无搜索兜底时限："@);
    let part = "- 无搜索兜底时限："@ + number::decimal(r.config.fallback_timeout_seconds as nat);
    let led = head + " 秒\n"@;
    assert(head + " 秒\n- 无搜索兜底时限："@
        + number::decimal(r.config.fallback_timeout_seconds as nat) =~= led + part);
    lemma_shows(led, part);
}

proof fn lemma_status_part_15(r: RuntimeModel, turns: usize)
    ensures
        scan::has(status_of(r, turns), "- 最大输出："@
            + number::decimal(r.config.max_output_tokens as nat)),
{
    let head = "🤖 **telebot AI**\n\n- 服务商：`"@ + r.provider_name + "`\n- API 格式：`"@
        + r.api_format.name() + "`\n- BaseURL：`"@ + r.base_url + "`\n- Key：**"@
        + key_words(r.key_overridden) + "**\n- 主模型：`"@ + r.primary_model
        + "`\n- 搜索备用模型：`"@ + second_of(r) + "`\n- 原生搜索：`"@ + search_words(r.api_format)
        + "`\n- 思考等级：`"@ + r.config.thinking_level
        + "`（仅 Gemini Interactions 使用）\n- 裸命令默认搜索：**"@
        + switch_words(r.config.default_search) + "**\n- 自动记忆上下文：**"@ + context_words(turns)
        + "**\n- 回复消息：作为本次请求上下文\n- Q/A 引用折叠："@
        + switch_words(r.config.collapse_long_messages) + "\n- 纯文字搜索总时限："@
        + number::decimal(r.config.search_timeout_seconds as nat) + " 秒\n- 带图搜索总时限："@
        + number::decimal(r.config.image_search_timeout_seconds as nat)
        + " 秒\n- 慢请求切备用模型："@ + number::decimal(r.config.search_hedge_seconds as nat)
        + " 秒\n- 无搜索兜底时限："@ + number::decimal(r.config.fallback_timeout_seconds as nat);
    reveal_strlit(" 秒\n- 最大输出：");
    reveal_strlit("- 最大输出：");
    reveal_strlit(" 秒\n");
    assert(" 秒\n- 最大输出："@ =~= " 秒\n"@ + "- 最大输出："@);
    let part = "- 最大输出："@ + number::decimal(r.config.max_output_tokens as nat);
    let led = head + " 秒\n"@;
    assert(head + " 秒\n- 最大输出："@ + number::decimal(r.config.max_output_tokens as nat) =~= led
        + part);
    lemma_shows(led, part);
}

proof fn lemma_status_part_16(r: RuntimeModel, turns: usize)
    ensures
        scan::has(status_of(r, turns), "- 系统提示词："@
            + number::decimal(r.config.system_prompt.len())),
{
    let head = "🤖 **telebot AI**\n\n- 服务商：`"@ + r.provider_name + "`\n- API 格式：`"@
        + r.api_format.name() + "`\n- BaseURL：`"@ + r.base_url + "`\n- Key：**"@
        + key_words(r.key_overridden) + "**\n- 主模型：`"@ + r.primary_model
        + "`\n- 搜索备用模型：`"@ + second_of(r) + "`\n- 原生搜索：`"@ + search_words(r.api_format)
        + "`\n- 思考等级：`"@ + r.config.thinking_level
        + "`（仅 Gemini Interactions 使用）\n- 裸命令默认搜索：**"@
        + switch_words(r.config.default_search) + "**\n- 自动记忆上下文：**"@ + context_words(turns)
        + "**\n- 回复消息：作为本次请求上下文\n- Q/A 引用折叠："@
        + switch_words(r.config.collapse_long_messages) + "\n- 纯文字搜索总时限："@
        + number::decimal(r.config.search_timeout_seconds as nat) + " 秒\n- 带图搜索总时限："@
        + number::decimal(r.config.image_search_timeout_seconds as nat)
        + " 秒\n- 慢请求切备用模型："@ + number::decimal(r.config.search_hedge_seconds as nat)
        + " 秒\n- 无搜索兜底时限："@ + number::decimal(r.config.fallback_timeout_seconds as nat)
        + " 秒\n- 最大输出："@ + number::decimal(r.config.max_output_tokens as nat);
    reveal_strlit(" Token\n- 系统提示词：");
    reveal_strlit("- 系统提示词：");
    reveal_strlit(" Token\n");
    assert(" Token\n- 系统提示词："@ =~= " Token\n"@ + "- 系统提示词："@);
    let part = "- 系统提示词："@ + number::decimal(r.config.system_prompt.len());
    let led = head + " Token\n"@;
    assert(head + " Token\n- 系统提示词："@ + number::decimal(r.config.system_prompt.len()) =~= led
        + part);
    lemma_shows(led, part);
}

proof fn lemma_status_part_17(r: RuntimeModel, turns: usize)
    ensures
        scan::has(status_of(r, turns), "- 搜索进度："@ + r.messages.ai_searching),
{
    let head = "🤖 **telebot AI**\n\n- 服务商：`"@ + r.provider_name + "`\n- API 格式：`"@
        + r.api_format.name() + "`\n- BaseURL：`"@ + r.base_url + "`\n- Key：**"@
        + key_words(r.key_overridden) + "**\n- 主模型：`"@ + r.primary_model
        + "`\n- 搜索备用模型：`"@ + second_of(r) + "`\n- 原生搜索：`"@ + search_words(r.api_format)
        + "`\n- 思考等级：`"@ + r.config.thinking_level
        + "`（仅 Gemini Interactions 使用）\n- 裸命令默认搜索：**"@
        + switch_words(r.config.default_search) + "**\n- 自动记忆上下文：**"@ + context_words(turns)
        + "**\n- 回复消息：作为本次请求上下文\n- Q/A 引用折叠："@
        + switch_words(r.config.collapse_long_messages) + "\n- 纯文字搜索总时限："@
        + number::decimal(r.config.search_timeout_seconds as nat) + " 秒\n- 带图搜索总时限："@
        + number::decimal(r.config.image_search_timeout_seconds as nat)
        + " 秒\n- 慢请求切备用模型："@ + number::decimal(r.config.search_hedge_seconds as nat)
        + " 秒\n- 无搜索兜底时限："@ + number::decimal(r.config.fallback_timeout_seconds as nat)
        + " 秒\n- 最大输出："@ + number::decimal(r.config.max_output_tokens as nat)
        + " Token\n- 系统提示词："@ + number::decimal(r.config.system_prompt.len());
    reveal_strlit(" 字\n- 搜索进度：");
    reveal_strlit("- 搜索进度：");
    reveal_strlit(" 字\n");
    assert(" 字\n- 搜索进度："@ =~= " 字\n"@ + "- 搜索进度："@);
    let part = "- 搜索进度："@ + r.messages.ai_searching;
    let led = head + " 字\n"@;
    assert(head + " 字\n- 搜索进度："@ + r.messages.ai_searching =~= led + part);
    lemma_shows(led, part);
}

proof fn lemma_status_part_18(r: RuntimeModel, turns: usize)
    ensures
        scan::has(status_of(r, turns), "- 思考进度："@ + r.messages.ai_thinking),
{
    let head = "🤖 **telebot AI**\n\n- 服务商：`"@ + r.provider_name + "`\n- API 格式：`"@
        + r.api_format.name() + "`\n- BaseURL：`"@ + r.base_url + "`\n- Key：**"@
        + key_words(r.key_overridden) + "**\n- 主模型：`"@ + r.primary_model
        + "`\n- 搜索备用模型：`"@ + second_of(r) + "`\n- 原生搜索：`"@ + search_words(r.api_format)
        + "`\n- 思考等级：`"@ + r.config.thinking_level
        + "`（仅 Gemini Interactions 使用）\n- 裸命令默认搜索：**"@
        + switch_words(r.config.default_search) + "**\n- 自动记忆上下文：**"@ + context_words(turns)
        + "**\n- 回复消息：作为本次请求上下文\n- Q/A 引用折叠："@
        + switch_words(r.config.collapse_long_messages) + "\n- 纯文字搜索总时限："@
        + number::decimal(r.config.search_timeout_seconds as nat) + " 秒\n- 带图搜索总时限："@
        + number::decimal(r.config.image_search_timeout_seconds as nat)
        + " 秒\n- 慢请求切备用模型："@ + number::decimal(r.config.search_hedge_seconds as nat)
        + " 秒\n- 无搜索兜底时限："@ + number::decimal(r.config.fallback_timeout_seconds as nat)
        + " 秒\n- 最大输出："@ + number::decimal(r.config.max_output_tokens as nat)
        + " Token\n- 系统提示词："@ + number::decimal(r.config.system_prompt.len())
        + " 字\n- 搜索进度："@ + r.messages.ai_searching;
    reveal_strlit("\n- 思考进度：");
    reveal_strlit("- 思考进度：");
    reveal_strlit("\n");
    assert("\n- 思考进度："@ =~= "\n"@ + "- 思考进度："@);
    let part = "- 思考进度："@ + r.messages.ai_thinking;
    let led = head + "\n"@;
    assert(head + "\n- 思考进度："@ + r.messages.ai_thinking =~= led + part);
    lemma_shows(led, part);
}

proof fn lemma_status_part_19(r: RuntimeModel, turns: usize)
    ensures
        scan::has(status_of(r, turns), "- 并发上限："@
            + number::decimal(r.config.max_concurrent as nat)),
{
    let head = "🤖 **telebot AI**\n\n- 服务商：`"@ + r.provider_name + "`\n- API 格式：`"@
        + r.api_format.name() + "`\n- BaseURL：`"@ + r.base_url + "`\n- Key：**"@
        + key_words(r.key_overridden) + "**\n- 主模型：`"@ + r.primary_model
        + "`\n- 搜索备用模型：`"@ + second_of(r) + "`\n- 原生搜索：`"@ + search_words(r.api_format)
        + "`\n- 思考等级：`"@ + r.config.thinking_level
        + "`（仅 Gemini Interactions 使用）\n- 裸命令默认搜索：**"@
        + switch_words(r.config.default_search) + "**\n- 自动记忆上下文：**"@ + context_words(turns)
        + "**\n- 回复消息：作为本次请求上下文\n- Q/A 引用折叠："@
        + switch_words(r.config.collapse_long_messages) + "\n- 纯文字搜索总时限："@
        + number::decimal(r.config.search_timeout_seconds as nat) + " 秒\n- 带图搜索总时限："@
        + number::decimal(r.config.image_search_timeout_seconds as nat)
        + " 秒\n- 慢请求切备用模型："@ + number::decimal(r.config.search_hedge_seconds as nat)
        + " 秒\n- 无搜索兜底时限："@ + number::decimal(r.config.fallback_timeout_seconds as nat)
        + " 秒\n- 最大输出："@ + number::decimal(r.config.max_output_tokens as nat)
        + " Token\n- 系统提示词："@ + number::decimal(r.config.system_prompt.len())
        + " 字\n- 搜索进度："@ + r.messages.ai_searching + "\n- 思考进度："@
        + r.messages.ai_thinking;
    reveal_strlit("\n- 并发上限：");
    reveal_strlit("- 并发上限：");
    reveal_strlit("\n");
    assert("\n- 并发上限："@ =~= "\n"@ + "- 并发上限："@);
    let part = "- 并发上限："@ + number::decimal(r.config.max_concurrent as nat);
    let led = head + "\n"@;
    assert(head + "\n- 并发上限："@ + number::decimal(r.config.max_concurrent as nat) =~= led + part);
    lemma_shows(led, part);
}

proof fn lemma_shows(a: Seq<char>, p: Seq<char>)
    ensures
        scan::has(a + p, p),
        forall|s: Seq<char>, more: Seq<char>| scan::has(s, p) ==> #[trigger] scan::has(s + more, p),
{
    assert((a + p).subrange(a.len() as int, (a.len() + p.len()) as int) =~= p);
    assert(scan::occurs(a + p, p, a.len() as int));
    assert forall|s: Seq<char>, more: Seq<char>| scan::has(s, p) implies #[trigger] scan::has(
        s + more,
        p,
    ) by {
        let i = choose|i: int| #[trigger] scan::occurs(s, p, i);
        assert((s + more).subrange(i, i + p.len()) =~= s.subrange(i, i + p.len()));
        assert(scan::occurs(s + more, p, i));
    }
}

/// The help says how a question without a word is answered, and shows the models, the limits and the
/// progress messages that are in force.
pub proof fn law_help(r: RuntimeModel)
    ensures
        scan::starts(
            help_of(r),
            HELP_HEAD@ + (if r.config.default_search {
                "联网搜索"@
            } else {
                "普通回答"@
            }) + HELP_GUIDE@,
        ),
        scan::has(
            help_of(r),
            r.primary_model + "`\n- 搜索备用：`"@ + (if scan::blank(r.search_fallback_model) {
                r.primary_model
            } else {
                r.search_fallback_model
            }) + "`\n- 思考等级：`"@ + r.config.thinking_level
                + "`\n- 文字/带图搜索时限：`"@ + number::decimal(
                r.config.search_timeout_seconds as nat,
            ) + "` / `"@ + number::decimal(r.config.image_search_timeout_seconds as nat)
                + "` 秒\n- 搜索进度："@ + r.messages.ai_searching + "\n- 思考进度："@
                + r.messages.ai_thinking,
        ),
{
    let head = HELP_HEAD@ + mode_words(r.config.default_search) + HELP_GUIDE@;
    let part = r.primary_model + "`\n- 搜索备用：`"@ + (if scan::blank(r.search_fallback_model) {
        r.primary_model
    } else {
        r.search_fallback_model
    }) + "`\n- 思考等级：`"@ + r.config.thinking_level
        + "`\n- 文字/带图搜索时限：`"@ + number::decimal(
        r.config.search_timeout_seconds as nat,
    ) + "` / `"@ + number::decimal(r.config.image_search_timeout_seconds as nat)
        + "` 秒\n- 搜索进度："@ + r.messages.ai_searching + "\n- 思考进度："@
        + r.messages.ai_thinking;
    let tail = "\n\n> 配置修改会立即生效并保存到本机 SQLite，不需要重新编译。服务商、BaseURL、模型和 Key 会先验证格式；危险或无效值会被拒绝。"@;
    assert(help_of(r) =~= head + part + tail);
    lemma_shows(head, part);
    assert(help_of(r).subrange(0, head.len() as int) =~= head);
}

} // verus!
