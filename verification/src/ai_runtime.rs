//! The settings of the AI commands as they are in force: the configuration, with what was changed at
//! run time in its place.

use crate::ai_request;
use crate::ai_request::AiImage;
use crate::base_url;
use crate::config;
use crate::config::AiApiFormat;
use crate::config::AiConfig;
use crate::config::AiConfigModel;
use crate::config::MessagesConfig;
use crate::config::MessagesModel;
use crate::failure;
use crate::failure::Failure;
use crate::json::Json;
use crate::json::JsonView;
use crate::number;
use crate::scan;
use crate::settings::Settings;
use crate::text;
use vstd::prelude::*;

verus! {

// ---------------------------------------------------------------------------------------------
// Settings at run time
// ---------------------------------------------------------------------------------------------

/// What can be changed at run time.
#[derive(Clone, Copy, Debug, PartialEq, Eq, Structural)]
pub enum AiSetting {
    Provider,
    ApiFormat,
    BaseUrl,
    Key,
    Model,
    SearchModel,
    ThinkingLevel,
    DefaultSearch,
    SystemPrompt,
    MaxOutputTokens,
    SearchTimeout,
    ImageSearchTimeout,
    SearchHedge,
    FallbackTimeout,
    Collapse,
    SearchingMessage,
    ThinkingMessage,
}

/// What the names of all settings that can be changed at run time begin with.
pub const AI_SETTING_PREFIX: &'static str = "ai.runtime.";

/// What the names begin with under which the number of turns of each chat is kept.
pub const CONTEXT_SETTING_PREFIX: &'static str = "ai.runtime.context_turns.";

pub open spec fn setting_prefix() -> Seq<char> {
    AI_SETTING_PREFIX@
}

impl AiSetting {
    /// The name under which a setting is kept.
    pub open spec fn name(self) -> Seq<char> {
        match self {
            AiSetting::Provider => "ai.runtime.provider"@,
            AiSetting::ApiFormat => "ai.runtime.api_format"@,
            AiSetting::BaseUrl => "ai.runtime.base_url"@,
            AiSetting::Key => "ai.runtime.api_key"@,
            AiSetting::Model => "ai.runtime.model"@,
            AiSetting::SearchModel => "ai.runtime.search_model"@,
            AiSetting::ThinkingLevel => "ai.runtime.thinking_level"@,
            AiSetting::DefaultSearch => "ai.runtime.default_search"@,
            AiSetting::SystemPrompt => "ai.runtime.system_prompt"@,
            AiSetting::MaxOutputTokens => "ai.runtime.max_output_tokens"@,
            AiSetting::SearchTimeout => "ai.runtime.search_timeout_seconds"@,
            AiSetting::ImageSearchTimeout => "ai.runtime.image_search_timeout_seconds"@,
            AiSetting::SearchHedge => "ai.runtime.search_hedge_seconds"@,
            AiSetting::FallbackTimeout => "ai.runtime.fallback_timeout_seconds"@,
            AiSetting::Collapse => "ai.runtime.collapse_long_messages"@,
            AiSetting::SearchingMessage => "ai.runtime.message.searching"@,
            AiSetting::ThinkingMessage => "ai.runtime.message.thinking"@,
        }
    }

    pub fn key(self) -> (r: &'static str)
        ensures
            r@ == self.name(),
    {
        match self {
            AiSetting::Provider => "ai.runtime.provider",
            AiSetting::ApiFormat => "ai.runtime.api_format",
            AiSetting::BaseUrl => "ai.runtime.base_url",
            AiSetting::Key => "ai.runtime.api_key",
            AiSetting::Model => "ai.runtime.model",
            AiSetting::SearchModel => "ai.runtime.search_model",
            AiSetting::ThinkingLevel => "ai.runtime.thinking_level",
            AiSetting::DefaultSearch => "ai.runtime.default_search",
            AiSetting::SystemPrompt => "ai.runtime.system_prompt",
            AiSetting::MaxOutputTokens => "ai.runtime.max_output_tokens",
            AiSetting::SearchTimeout => "ai.runtime.search_timeout_seconds",
            AiSetting::ImageSearchTimeout => "ai.runtime.image_search_timeout_seconds",
            AiSetting::SearchHedge => "ai.runtime.search_hedge_seconds",
            AiSetting::FallbackTimeout => "ai.runtime.fallback_timeout_seconds",
            AiSetting::Collapse => "ai.runtime.collapse_long_messages",
            AiSetting::SearchingMessage => "ai.runtime.message.searching",
            AiSetting::ThinkingMessage => "ai.runtime.message.thinking",
        }
    }
}

proof fn lemma_reveal_names()
    ensures
        "ai.runtime."@.len() == 11,
        forall|s: AiSetting|
            (#[trigger] s.name()).len() >= 16 && s.name().take(11) == "ai.runtime."@
                && s.name().len() == name_len(s) && s.name()[11] == name_char(s, 11)
                && s.name()[12] == name_char(s, 12),
{
    reveal_strlit("ai.runtime.");
    reveal_strlit("ai.runtime.provider");
    reveal_strlit("ai.runtime.api_format");
    reveal_strlit("ai.runtime.base_url");
    reveal_strlit("ai.runtime.api_key");
    reveal_strlit("ai.runtime.model");
    reveal_strlit("ai.runtime.search_model");
    reveal_strlit("ai.runtime.thinking_level");
    reveal_strlit("ai.runtime.default_search");
    reveal_strlit("ai.runtime.system_prompt");
    reveal_strlit("ai.runtime.max_output_tokens");
    reveal_strlit("ai.runtime.search_timeout_seconds");
    reveal_strlit("ai.runtime.image_search_timeout_seconds");
    reveal_strlit("ai.runtime.search_hedge_seconds");
    reveal_strlit("ai.runtime.fallback_timeout_seconds");
    reveal_strlit("ai.runtime.collapse_long_messages");
    reveal_strlit("ai.runtime.message.searching");
    reveal_strlit("ai.runtime.message.thinking");
    assert forall|s: AiSetting|
        (#[trigger] s.name()).len() >= 16 && s.name().take(11) == "ai.runtime."@ && s.name().len()
            == name_len(s) && s.name()[11] == name_char(s, 11) && s.name()[12] == name_char(s, 12) by {
        assert(s.name().take(11) =~= "ai.runtime."@);
    }
}

spec fn name_len(s: AiSetting) -> nat {
    match s {
        AiSetting::Provider => 19,
        AiSetting::ApiFormat => 21,
        AiSetting::BaseUrl => 19,
        AiSetting::Key => 18,
        AiSetting::Model => 16,
        AiSetting::SearchModel => 23,
        AiSetting::ThinkingLevel => 25,
        AiSetting::DefaultSearch => 25,
        AiSetting::SystemPrompt => 24,
        AiSetting::MaxOutputTokens => 28,
        AiSetting::SearchTimeout => 33,
        AiSetting::ImageSearchTimeout => 39,
        AiSetting::SearchHedge => 31,
        AiSetting::FallbackTimeout => 35,
        AiSetting::Collapse => 33,
        AiSetting::SearchingMessage => 28,
        AiSetting::ThinkingMessage => 27,
    }
}

spec fn name_char(s: AiSetting, i: int) -> char {
    if i == 11 {
        match s {
            AiSetting::Provider => 'p',
            AiSetting::ApiFormat => 'a',
            AiSetting::BaseUrl => 'b',
            AiSetting::Key => 'a',
            AiSetting::Model => 'm',
            AiSetting::SearchModel => 's',
            AiSetting::ThinkingLevel => 't',
            AiSetting::DefaultSearch => 'd',
            AiSetting::SystemPrompt => 's',
            AiSetting::MaxOutputTokens => 'm',
            AiSetting::SearchTimeout => 's',
            AiSetting::ImageSearchTimeout => 'i',
            AiSetting::SearchHedge => 's',
            AiSetting::FallbackTimeout => 'f',
            AiSetting::Collapse => 'c',
            AiSetting::SearchingMessage => 'm',
            AiSetting::ThinkingMessage => 'm',
        }
    } else {
        match s {
            AiSetting::Provider => 'r',
            AiSetting::ApiFormat => 'p',
            AiSetting::BaseUrl => 'a',
            AiSetting::Key => 'p',
            AiSetting::Model => 'o',
            AiSetting::SearchModel => 'e',
            AiSetting::ThinkingLevel => 'h',
            AiSetting::DefaultSearch => 'e',
            AiSetting::SystemPrompt => 'y',
            AiSetting::MaxOutputTokens => 'a',
            AiSetting::SearchTimeout => 'e',
            AiSetting::ImageSearchTimeout => 'm',
            AiSetting::SearchHedge => 'e',
            AiSetting::FallbackTimeout => 'a',
            AiSetting::Collapse => 'o',
            AiSetting::SearchingMessage => 'e',
            AiSetting::ThinkingMessage => 'e',
        }
    }
}

/// No two settings share a name, and none has one that the number of turns of a chat is kept under; all
/// names begin alike, so that they can be deleted together.
pub proof fn law_setting_names()
    ensures
        forall|a: AiSetting, b: AiSetting|
            a != b ==> (#[trigger] a.name()) != (#[trigger] b.name()),
        forall|a: AiSetting| !scan::starts(#[trigger] a.name(), CONTEXT_SETTING_PREFIX@),
        forall|a: AiSetting| scan::starts(#[trigger] a.name(), setting_prefix()),
        scan::starts(CONTEXT_SETTING_PREFIX@, setting_prefix()),
{
    lemma_reveal_names();
    reveal_strlit("ai.runtime.");
    reveal_strlit("ai.runtime.context_turns.");
    reveal_strlit("ai.runtime.collapse_long_messages");
    let prefix = "ai.runtime.context_turns."@;
    assert(prefix.subrange(0, 11) =~= "ai.runtime."@);
    assert forall|a: AiSetting| !scan::starts(#[trigger] a.name(), prefix) by {
        if scan::starts(a.name(), prefix) {
            let head = a.name().subrange(0, prefix.len() as int);
            assert(head[11] == 'c' && head[12] == 'o' && head[13] == 'n');
            assert(name_char(a, 11) == 'c' && name_char(a, 12) == 'o');
            assert(a == AiSetting::Collapse);
        }
    }
    assert forall|a: AiSetting, b: AiSetting| a != b implies (#[trigger] a.name()) != (
    #[trigger] b.name()) by {
        if a.name() == b.name() {
            assert(name_len(a) == name_len(b));
            assert(name_char(a, 11) == name_char(b, 11));
            assert(name_char(a, 12) == name_char(b, 12));
        }
    }
    assert forall|a: AiSetting| scan::starts(#[trigger] a.name(), setting_prefix()) by {
        assert(a.name().subrange(0, 11) =~= a.name().take(11));
    }
}

// ---------------------------------------------------------------------------------------------
// What is accepted
// ---------------------------------------------------------------------------------------------

pub open spec fn provider_name_problem(s: Seq<char>) -> Option<Seq<char>> {
    if s.len() == 0 || text::utf8_len(s) > 32 || !config::is_label(s) {
        Some("服务商名称只能包含字母、数字、点、横线和下划线，且不超过 32 字符"@)
    } else {
        None
    }
}

pub open spec fn api_key_problem(s: Seq<char>) -> Option<Seq<char>> {
    if scan::blank(s) || text::utf8_len(s) > 1024 || exists|i: int|
        0 <= i < s.len() && #[trigger] text::is_space(s[i]) {
        Some("AI Key 不能为空、不能包含空白，且不能超过 1024 字符"@)
    } else {
        None
    }
}

pub open spec fn model_char(c: char) -> bool {
    text::is_alnum(c) || c == '-' || c == '_' || c == '.' || c == ':' || c == '/'
}

pub open spec fn is_model(s: Seq<char>) -> bool {
    &&& s.len() > 0
    &&& text::utf8_len(s) <= 128
    &&& forall|i: int| 0 <= i < s.len() ==> model_char(#[trigger] s[i])
}

pub open spec fn model_problem(label: Seq<char>, s: Seq<char>) -> Option<Seq<char>> {
    if is_model(s) {
        None
    } else {
        Some(label + "名称包含不支持的字符"@)
    }
}

pub open spec fn message_problem(name: Seq<char>, s: Seq<char>) -> Option<Seq<char>> {
    if config::is_progress_message(s) {
        None
    } else {
        Some(name + "必须是 1 到 128 个字符的单行文本"@)
    }
}

/// The first thing that is wrong with settings that can be changed at run time.
pub open spec fn runtime_config_problem(
    c: AiConfigModel,
    m: MessagesModel,
) -> Option<Seq<char>> {
    if !config::is_thinking_level(c.thinking_level) {
        Some("思考等级只能是 minimal、low、medium 或 high"@)
    } else if scan::blank(c.system_prompt) || c.system_prompt.len() > 16_000 {
        Some("系统提示词必须为 1 到 16000 个字符"@)
    } else if !(1 <= c.max_output_tokens <= 65_536) {
        Some("最大输出 Token 必须在 1 到 65536 之间"@)
    } else if !config::is_timeout(c.search_timeout_seconds) || !config::is_timeout(
        c.image_search_timeout_seconds,
    ) || !config::is_timeout(c.fallback_timeout_seconds) {
        Some("AI 时限必须在 3 到 120 秒之间"@)
    } else if c.image_search_timeout_seconds < c.search_timeout_seconds {
        Some("带图搜索时限不能短于文字搜索时限"@)
    } else if !config::is_hedge(c.search_hedge_seconds, c.search_timeout_seconds) {
        Some("备用模型启动时限必须为 0（关闭）或至少 3 秒，并且短于文字搜索总时限"@)
    } else {
        config::first_problem(
            message_problem("搜索进度文案"@, m.ai_searching),
            message_problem("思考进度文案"@, m.ai_thinking),
        )
    }
}

/// The number that a setting gives, of at most `max`.
pub open spec fn number_setting(name: Seq<char>, s: Seq<char>, max: nat) -> Result<
    nat,
    Seq<char>,
> {
    match number::unsigned_value(s, max) {
        Ok(n) => Ok(n),
        Err(e) => Err(failure::because(name + "必须是整数"@, e.wording())),
    }
}

/// What a switch is set to.
pub open spec fn switch_setting(name: Seq<char>, s: Seq<char>) -> Result<bool, Seq<char>> {
    let word = scan::lowered(scan::trimmed(s));
    if word == "1"@ || word == "true"@ || word == "on"@ || word == "yes"@ || word == "开启"@ || word
        == "开"@ {
        Ok(true)
    } else if word == "0"@ || word == "false"@ || word == "off"@ || word == "no"@ || word == "关闭"@
        || word == "关"@ {
        Ok(false)
    } else {
        Err(name + "只接受 on/off"@)
    }
}

/// How many turns of a conversation are kept.
pub open spec fn turns_setting(s: Seq<char>) -> Result<usize, Seq<char>> {
    match number::unsigned_value(s, usize::MAX as nat) {
        Ok(n) => if n > 20 {
            Err("上下文轮数必须在 0 到 20 之间"@)
        } else {
            Ok(n as usize)
        },
        Err(e) => Err(failure::because("上下文轮数必须是数字"@, e.wording())),
    }
}

pub fn validate_provider_name(value: &str) -> (r: Result<(), Failure>)
    ensures
        failure::outcome(r) == failure::verdict(provider_name_problem(value@)),
{
    if text::char_len(value) == 0 || text::byte_len(value) > 32 || !config::label_only(value) {
        return Err(
            Failure::new(
                "服务商名称只能包含字母、数字、点、横线和下划线，且不超过 32 字符",
            ),
        );
    }
    Ok(())
}

fn has_space(s: &str) -> (r: bool)
    ensures
        r == exists|i: int| 0 <= i < s@.len() && #[trigger] text::is_space(s@[i]),
{
    let v = text::chars(s);
    let n: usize = v.len();
    let mut i: usize = 0;
    while i < n
        invariant
            i <= n,
            n == v@.len(),
            v@ == s@,
            forall|j: int| 0 <= j < i ==> !#[trigger] text::is_space(s@[j]),
        decreases n - i,
    {
        if text::space(v[i]) {
            proof {
                assert(text::is_space(s@[i as int]));
            }
            return true;
        }
        i = i + 1;
    }
    false
}

pub fn validate_api_key(value: &str) -> (r: Result<(), Failure>)
    ensures
        failure::outcome(r) == failure::verdict(api_key_problem(value@)),
{
    if scan::is_blank(value) || text::byte_len(value) > 1024 || has_space(value) {
        return Err(
            Failure::new("AI Key 不能为空、不能包含空白，且不能超过 1024 字符"),
        );
    }
    Ok(())
}

fn model_name(s: &str) -> (r: bool)
    ensures
        r == is_model(s@),
{
    let v = text::chars(s);
    let n: usize = v.len();
    if n == 0 || text::byte_len(s) > 128 {
        return false;
    }
    let mut i: usize = 0;
    while i < n
        invariant
            i <= n,
            n == v@.len(),
            v@ == s@,
            forall|j: int| 0 <= j < i ==> model_char(#[trigger] s@[j]),
        decreases n - i,
    {
        let c: char = v[i];
        if !(text::alnum(c) || c == '-' || c == '_' || c == '.' || c == ':' || c == '/') {
            proof {
                assert(!model_char(s@[i as int]));
            }
            return false;
        }
        i = i + 1;
    }
    true
}

pub fn validate_model(label: &str, value: &str) -> (r: Result<(), Failure>)
    ensures
        failure::outcome(r) == failure::verdict(model_problem(label@, value@)),
{
    if !model_name(value) {
        let mut message = label.to_owned();
        message.append("名称包含不支持的字符");
        return Err(Failure::of(message));
    }
    Ok(())
}

pub fn validate_runtime_message(name: &str, value: &str) -> (r: Result<(), Failure>)
    ensures
        failure::outcome(r) == failure::verdict(message_problem(name@, value@)),
{
    if !config::progress_message(value) {
        let mut message = name.to_owned();
        message.append("必须是 1 到 128 个字符的单行文本");
        return Err(Failure::of(message));
    }
    Ok(())
}

pub fn validate_runtime_config(config: &AiConfig, messages: &MessagesConfig) -> (r: Result<
    (),
    Failure,
>)
    ensures
        failure::outcome(r) == failure::verdict(runtime_config_problem(config@, messages@)),
{
    if !config::thinking_level(config.thinking_level.as_str()) {
        return Err(Failure::new("思考等级只能是 minimal、low、medium 或 high"));
    }
    if scan::is_blank(config.system_prompt.as_str()) || text::char_len(
        config.system_prompt.as_str(),
    ) > 16_000 {
        return Err(Failure::new("系统提示词必须为 1 到 16000 个字符"));
    }
    if config.max_output_tokens < 1 || config.max_output_tokens > 65_536 {
        return Err(Failure::new("最大输出 Token 必须在 1 到 65536 之间"));
    }
    if config.search_timeout_seconds < 3 || config.search_timeout_seconds > 120
        || config.image_search_timeout_seconds < 3 || config.image_search_timeout_seconds > 120
        || config.fallback_timeout_seconds < 3 || config.fallback_timeout_seconds > 120 {
        return Err(Failure::new("AI 时限必须在 3 到 120 秒之间"));
    }
    if config.image_search_timeout_seconds < config.search_timeout_seconds {
        return Err(Failure::new("带图搜索时限不能短于文字搜索时限"));
    }
    if config.search_hedge_seconds != 0 && (config.search_hedge_seconds < 3
        || config.search_hedge_seconds >= config.search_timeout_seconds) {
        return Err(
            Failure::new("备用模型启动时限必须为 0（关闭）或至少 3 秒，并且短于文字搜索总时限"),
        );
    }
    if let Err(e) = validate_runtime_message("搜索进度文案", messages.ai_searching.as_str()) {
        return Err(e);
    }
    validate_runtime_message("思考进度文案", messages.ai_thinking.as_str())
}

pub fn parse_bool_setting(name: &str, value: &str) -> (r: Result<bool, Failure>)
    ensures
        failure::outcome(r) == switch_setting(name@, value@),
{
    let lowered = scan::lower(scan::trim(value).as_str());
    let word = lowered.as_str();
    if text::same(word, "1") || text::same(word, "true") || text::same(word, "on") || text::same(
        word,
        "yes",
    ) || text::same(word, "开启") || text::same(word, "开") {
        return Ok(true);
    }
    if text::same(word, "0") || text::same(word, "false") || text::same(word, "off") || text::same(
        word,
        "no",
    ) || text::same(word, "关闭") || text::same(word, "关") {
        return Ok(false);
    }
    let mut message = name.to_owned();
    message.append("只接受 on/off");
    Err(Failure::of(message))
}

pub fn parse_u64_setting(name: &str, value: &str) -> (r: Result<u64, Failure>)
    ensures
        match (r, number_setting(name@, value@, u64::MAX as nat)) {
            (Ok(a), Ok(b)) => a == b,
            (Err(a), Err(b)) => a@ == b,
            _ => false,
        },
{
    match number::read_unsigned(value, u64::MAX) {
        Ok(n) => Ok(n),
        Err(e) => {
            let mut context = name.to_owned();
            context.append("必须是整数");
            Err(Failure::caused(context.as_str(), e.message().as_str()))
        },
    }
}

pub fn parse_u32_setting(name: &str, value: &str) -> (r: Result<u32, Failure>)
    ensures
        match (r, number_setting(name@, value@, u32::MAX as nat)) {
            (Ok(a), Ok(b)) => a == b,
            (Err(a), Err(b)) => a@ == b,
            _ => false,
        },
{
    match number::read_unsigned(value, 0xffff_ffff) {
        Ok(n) => Ok(n as u32),
        Err(e) => {
            let mut context = name.to_owned();
            context.append("必须是整数");
            Err(Failure::caused(context.as_str(), e.message().as_str()))
        },
    }
}

pub fn parse_context_turns(value: &str) -> (r: Result<usize, Failure>)
    ensures
        failure::outcome(r) == turns_setting(value@),
{
    match number::read_unsigned(value, usize::MAX as u64) {
        Ok(n) => {
            if n > 20 {
                return Err(Failure::new("上下文轮数必须在 0 到 20 之间"));
            }
            Ok(n as usize)
        },
        Err(e) => Err(Failure::caused("上下文轮数必须是数字", e.message().as_str())),
    }
}

// ---------------------------------------------------------------------------------------------
// Settings in force
// ---------------------------------------------------------------------------------------------

/// Settings that are to be in force.
pub struct AiRuntimeOptions {
    pub provider_name: String,
    pub api_format: AiApiFormat,
    pub base_url: String,
    pub api_key: String,
    pub primary_model: String,
    pub search_fallback_model: String,
    pub key_overridden: bool,
    pub config: AiConfig,
    pub messages: MessagesConfig,
}

/// Settings in force.
pub struct AiRuntime {
    pub provider_name: String,
    pub api_format: AiApiFormat,
    pub base_url: String,
    pub api_key: String,
    pub primary_model: String,
    /// The model of the second search request; blank for the primary one.
    pub search_fallback_model: String,
    pub key_overridden: bool,
    pub config: AiConfig,
    pub messages: MessagesConfig,
}

#[verifier::ext_equal]
pub struct RuntimeModel {
    pub provider_name: Seq<char>,
    pub api_format: AiApiFormat,
    pub base_url: Seq<char>,
    pub api_key: Seq<char>,
    pub primary_model: Seq<char>,
    pub search_fallback_model: Seq<char>,
    pub key_overridden: bool,
    pub config: AiConfigModel,
    pub messages: MessagesModel,
}

impl View for AiRuntimeOptions {
    type V = RuntimeModel;

    open spec fn view(&self) -> RuntimeModel {
        RuntimeModel {
            provider_name: self.provider_name@,
            api_format: self.api_format,
            base_url: self.base_url@,
            api_key: self.api_key@,
            primary_model: self.primary_model@,
            search_fallback_model: self.search_fallback_model@,
            key_overridden: self.key_overridden,
            config: self.config@,
            messages: self.messages@,
        }
    }
}

impl View for AiRuntime {
    type V = RuntimeModel;

    open spec fn view(&self) -> RuntimeModel {
        RuntimeModel {
            provider_name: self.provider_name@,
            api_format: self.api_format,
            base_url: self.base_url@,
            api_key: self.api_key@,
            primary_model: self.primary_model@,
            search_fallback_model: self.search_fallback_model@,
            key_overridden: self.key_overridden,
            config: self.config@,
            messages: self.messages@,
        }
    }
}

impl Clone for AiRuntime {
    fn clone(&self) -> (r: Self)
        ensures
            r@ == self@,
    {
        AiRuntime {
            provider_name: self.provider_name.clone(),
            api_format: self.api_format,
            base_url: self.base_url.clone(),
            api_key: self.api_key.clone(),
            primary_model: self.primary_model.clone(),
            search_fallback_model: self.search_fallback_model.clone(),
            key_overridden: self.key_overridden,
            config: self.config.clone(),
            messages: self.messages.clone(),
        }
    }
}

pub open spec fn runtime_outcome(r: Result<AiRuntime, Failure>) -> Result<
    RuntimeModel,
    Seq<char>,
> {
    match r {
        Ok(runtime) => Ok(runtime@),
        Err(e) => Err(e@),
    }
}

/// The model of the second search request: the primary one where none is named.
pub open spec fn second_model(primary: Seq<char>, fallback: Seq<char>) -> Seq<char> {
    if scan::blank(fallback) {
        primary
    } else {
        fallback
    }
}

/// What is wrong with settings besides the address.
pub open spec fn options_problem(o: RuntimeModel) -> Option<Seq<char>> {
    config::first_problem(
        api_key_problem(o.api_key),
        config::first_problem(
            model_problem("主模型"@, o.primary_model),
            config::first_problem(
                if scan::blank(o.search_fallback_model) {
                    None
                } else {
                    model_problem("搜索备用模型"@, o.search_fallback_model)
                },
                config::first_problem(
                    if o.config.history_turns > 20 {
                        Some("上下文轮数必须在 0 到 20 之间"@)
                    } else {
                        None
                    },
                    runtime_config_problem(o.config, o.messages),
                ),
            ),
        ),
    )
}

/// Settings put into force, or the first thing that is wrong with them.
pub open spec fn built(o: RuntimeModel) -> Result<RuntimeModel, Seq<char>> {
    match provider_name_problem(o.provider_name) {
        Some(message) => Err(message),
        None => match base_url::normalized_url(o.base_url) {
            Err(message) => Err(message),
            Ok(url) => match options_problem(o) {
                Some(message) => Err(message),
                None => Ok(
                    RuntimeModel {
                        base_url: url,
                        ..o
                    },
                ),
            },
        },
    }
}

impl AiRuntimeOptions {
    /// The settings in force, to be changed.
    pub fn of(runtime: &AiRuntime) -> (r: AiRuntimeOptions)
        ensures
            r@ == runtime@,
    {
        AiRuntimeOptions {
            provider_name: runtime.provider_name.clone(),
            api_format: runtime.api_format,
            base_url: runtime.base_url.clone(),
            api_key: runtime.api_key.clone(),
            primary_model: runtime.primary_model.clone(),
            search_fallback_model: runtime.search_fallback_model.clone(),
            key_overridden: runtime.key_overridden,
            config: runtime.config.clone(),
            messages: runtime.messages.clone(),
        }
    }
}

impl AiRuntime {
    /// Puts settings into force, or says what is wrong with them.
    pub fn build(options: AiRuntimeOptions) -> (r: Result<AiRuntime, Failure>)
        ensures
            runtime_outcome(r) == built(options@),
    {
        if let Err(e) = validate_provider_name(options.provider_name.as_str()) {
            return Err(e);
        }
        let base_url = match base_url::normalize_base_url(options.base_url.as_str()) {
            Ok(url) => url,
            Err(e) => {
                return Err(e);
            },
        };
        if let Err(e) = validate_api_key(options.api_key.as_str()) {
            return Err(e);
        }
        if let Err(e) = validate_model("主模型", options.primary_model.as_str()) {
            return Err(e);
        }
        if !scan::is_blank(options.search_fallback_model.as_str()) {
            if let Err(e) = validate_model(
                "搜索备用模型",
                options.search_fallback_model.as_str(),
            ) {
                return Err(e);
            }
        }
        if options.config.history_turns > 20 {
            return Err(Failure::new("上下文轮数必须在 0 到 20 之间"));
        }
        if let Err(e) = validate_runtime_config(&options.config, &options.messages) {
            return Err(e);
        }
        Ok(
            AiRuntime {
                provider_name: options.provider_name,
                api_format: options.api_format,
                base_url,
                api_key: options.api_key,
                primary_model: options.primary_model,
                search_fallback_model: options.search_fallback_model,
                key_overridden: options.key_overridden,
                config: options.config,
                messages: options.messages,
            },
        )
    }
}

// ---------------------------------------------------------------------------------------------
// Loading
// ---------------------------------------------------------------------------------------------

/// What is in force where nothing was changed at run time.
pub struct AiDefaults {
    pub config: AiConfig,
    pub messages: MessagesConfig,
    pub env_api_key: String,
}

#[verifier::ext_equal]
pub struct DefaultsModel {
    pub config: AiConfigModel,
    pub messages: MessagesModel,
    pub env_api_key: Seq<char>,
}

impl View for AiDefaults {
    type V = DefaultsModel;

    open spec fn view(&self) -> DefaultsModel {
        DefaultsModel {
            config: self.config@,
            messages: self.messages@,
            env_api_key: self.env_api_key@,
        }
    }
}

impl Clone for AiDefaults {
    fn clone(&self) -> (r: Self)
        ensures
            r@ == self@,
    {
        AiDefaults {
            config: self.config.clone(),
            messages: self.messages.clone(),
            env_api_key: self.env_api_key.clone(),
        }
    }
}

/// The name that is shown for a provider.
pub open spec fn shown_provider(provider: Seq<char>) -> Seq<char> {
    if scan::lowered(provider) == scan::lowered("gemini"@) {
        "Gemini"@
    } else {
        provider
    }
}

pub fn default_provider_name(config: &AiConfig) -> (r: String)
    ensures
        r@ == shown_provider(config@.provider),
{
    if scan::same_ignoring_case(config.provider.as_str(), "gemini") {
        "Gemini".to_owned()
    } else {
        config.provider.clone()
    }
}

/// A setting as it was changed at run time, or else what stands in for it.
pub open spec fn text_or(
    m: Map<Seq<char>, Seq<char>>,
    s: AiSetting,
    default: Seq<char>,
) -> Seq<char> {
    match m.get(s.name()) {
        Some(value) => value,
        None => default,
    }
}

pub open spec fn switch_or(
    m: Map<Seq<char>, Seq<char>>,
    s: AiSetting,
    label: Seq<char>,
    default: bool,
) -> Result<bool, Seq<char>> {
    match m.get(s.name()) {
        Some(value) => switch_setting(label, value),
        None => Ok(default),
    }
}

pub open spec fn number_or(
    m: Map<Seq<char>, Seq<char>>,
    s: AiSetting,
    label: Seq<char>,
    max: nat,
    default: nat,
) -> Result<nat, Seq<char>> {
    match m.get(s.name()) {
        Some(value) => number_setting(label, value, max),
        None => Ok(default),
    }
}

/// The configuration with what was changed at run time in its place.
pub open spec fn loaded_config(c: AiConfigModel, m: Map<Seq<char>, Seq<char>>) -> Result<
    AiConfigModel,
    Seq<char>,
> {
    let big = u64::MAX as nat;
    match (
        switch_or(m, AiSetting::DefaultSearch, "默认搜索"@, c.default_search),
        number_or(
            m,
            AiSetting::MaxOutputTokens,
            "最大输出 Token"@,
            u32::MAX as nat,
            c.max_output_tokens as nat,
        ),
        number_or(
            m,
            AiSetting::SearchTimeout,
            "文字搜索时限"@,
            big,
            c.search_timeout_seconds as nat,
        ),
        number_or(
            m,
            AiSetting::ImageSearchTimeout,
            "带图搜索时限"@,
            big,
            c.image_search_timeout_seconds as nat,
        ),
        number_or(
            m,
            AiSetting::SearchHedge,
            "备用模型启动时限"@,
            big,
            c.search_hedge_seconds as nat,
        ),
        number_or(
            m,
            AiSetting::FallbackTimeout,
            "无搜索兜底时限"@,
            big,
            c.fallback_timeout_seconds as nat,
        ),
        switch_or(m, AiSetting::Collapse, "Q/A 引用折叠"@, c.collapse_long_messages),
    ) {
        (Err(e), _, _, _, _, _, _) => Err(e),
        (_, Err(e), _, _, _, _, _) => Err(e),
        (_, _, Err(e), _, _, _, _) => Err(e),
        (_, _, _, Err(e), _, _, _) => Err(e),
        (_, _, _, _, Err(e), _, _) => Err(e),
        (_, _, _, _, _, Err(e), _) => Err(e),
        (_, _, _, _, _, _, Err(e)) => Err(e),
        (Ok(search), Ok(tokens), Ok(text), Ok(image), Ok(hedge), Ok(fallback), Ok(collapse)) => Ok(
            AiConfigModel {
                thinking_level: text_or(m, AiSetting::ThinkingLevel, c.thinking_level),
                default_search: search,
                system_prompt: text_or(m, AiSetting::SystemPrompt, c.system_prompt),
                max_output_tokens: tokens as u32,
                search_timeout_seconds: text as u64,
                image_search_timeout_seconds: image as u64,
                search_hedge_seconds: hedge as u64,
                fallback_timeout_seconds: fallback as u64,
                collapse_long_messages: collapse,
                ..c
            },
        ),
    }
}

/// The settings that are to be in force, given the configuration and what was changed at run time.
pub open spec fn loaded_options(d: DefaultsModel, m: Map<Seq<char>, Seq<char>>) -> Result<
    RuntimeModel,
    Seq<char>,
> {
    match loaded_config(d.config, m) {
        Err(e) => Err(e),
        Ok(c) => {
            let format = match m.get(AiSetting::ApiFormat.name()) {
                Some(value) => AiApiFormat::with_name(value),
                None => Ok(c.api_format),
            };
            match format {
                Err(e) => Err(e),
                Ok(api_format) => Ok(
                    RuntimeModel {
                        provider_name: text_or(
                            m,
                            AiSetting::Provider,
                            shown_provider(c.provider),
                        ),
                        api_format,
                        base_url: text_or(m, AiSetting::BaseUrl, c.base_url),
                        api_key: text_or(m, AiSetting::Key, d.env_api_key),
                        primary_model: text_or(m, AiSetting::Model, c.model),
                        search_fallback_model: text_or(
                            m,
                            AiSetting::SearchModel,
                            c.search_fallback_model,
                        ),
                        key_overridden: m.contains_key(AiSetting::Key.name()),
                        config: c,
                        messages: MessagesModel {
                            ai_searching: text_or(
                                m,
                                AiSetting::SearchingMessage,
                                d.messages.ai_searching,
                            ),
                            ai_thinking: text_or(
                                m,
                                AiSetting::ThinkingMessage,
                                d.messages.ai_thinking,
                            ),
                        },
                    },
                ),
            }
        },
    }
}

/// The settings in force, given the configuration and what was changed at run time.
pub open spec fn loaded(d: DefaultsModel, m: Map<Seq<char>, Seq<char>>) -> Result<
    RuntimeModel,
    Seq<char>,
> {
    match loaded_options(d, m) {
        Err(e) => Err(e),
        Ok(o) => built(o),
    }
}

/// What was changed at run time counts before the configuration, and the configuration counts for all that
/// was not changed.
pub proof fn law_kept_settings_win(d: DefaultsModel, m: Map<Seq<char>, Seq<char>>)
    ensures
        loaded(d, m) matches Ok(r) ==> {
            let c = d.config;
            &&& r.provider_name == text_or(m, AiSetting::Provider, shown_provider(c.provider))
            &&& r.api_key == text_or(m, AiSetting::Key, d.env_api_key)
            &&& r.key_overridden == m.contains_key(AiSetting::Key.name())
            &&& r.primary_model == text_or(m, AiSetting::Model, c.model)
            &&& r.search_fallback_model == text_or(
                m,
                AiSetting::SearchModel,
                c.search_fallback_model,
            )
            &&& r.config.thinking_level == text_or(m, AiSetting::ThinkingLevel, c.thinking_level)
            &&& r.config.system_prompt == text_or(m, AiSetting::SystemPrompt, c.system_prompt)
            &&& r.messages.ai_searching == text_or(
                m,
                AiSetting::SearchingMessage,
                d.messages.ai_searching,
            )
            &&& r.messages.ai_thinking == text_or(
                m,
                AiSetting::ThinkingMessage,
                d.messages.ai_thinking,
            )
            &&& match m.get(AiSetting::ApiFormat.name()) {
                Some(name) => AiApiFormat::with_name(name) == Ok::<AiApiFormat, Seq<char>>(
                    r.api_format,
                ),
                None => r.api_format == c.api_format,
            }
        },
{
}

fn get_or(store: &Settings, s: AiSetting, default: &str) -> (r: String)
    ensures
        r@ == text_or(store@, s, default@),
{
    match store.get_setting(s.key()) {
        Some(value) => value.clone(),
        None => default.to_owned(),
    }
}

fn get_switch(store: &Settings, s: AiSetting, label: &str, default: bool) -> (r: Result<
    bool,
    Failure,
>)
    ensures
        failure::outcome(r) == switch_or(store@, s, label@, default),
{
    match store.get_setting(s.key()) {
        Some(value) => parse_bool_setting(label, value.as_str()),
        None => Ok(default),
    }
}

fn get_u64(store: &Settings, s: AiSetting, label: &str, default: u64) -> (r: Result<u64, Failure>)
    ensures
        match (r, number_or(store@, s, label@, u64::MAX as nat, default as nat)) {
            (Ok(a), Ok(b)) => a == b,
            (Err(a), Err(b)) => a@ == b,
            _ => false,
        },
{
    match store.get_setting(s.key()) {
        Some(value) => parse_u64_setting(label, value.as_str()),
        None => Ok(default),
    }
}

/// The configuration with what was changed at run time in its place.
fn config_from_store(config: &AiConfig, store: &Settings) -> (r: Result<AiConfig, Failure>)
    ensures
        match (r, loaded_config(config@, store@)) {
            (Ok(a), Ok(b)) => a@ == b,
            (Err(a), Err(b)) => a@ == b,
            _ => false,
        },
{
    let mut c = config.clone();
    c.thinking_level = get_or(store, AiSetting::ThinkingLevel, config.thinking_level.as_str());
    match get_switch(store, AiSetting::DefaultSearch, "默认搜索", config.default_search) {
        Ok(value) => {
            c.default_search = value;
        },
        Err(e) => {
            return Err(e);
        },
    }
    c.system_prompt = get_or(store, AiSetting::SystemPrompt, config.system_prompt.as_str());
    if let Some(value) = store.get_setting(AiSetting::MaxOutputTokens.key()) {
        match parse_u32_setting("最大输出 Token", value.as_str()) {
            Ok(n) => {
                c.max_output_tokens = n;
            },
            Err(e) => {
                return Err(e);
            },
        }
    }
    match get_u64(
        store,
        AiSetting::SearchTimeout,
        "文字搜索时限",
        config.search_timeout_seconds,
    ) {
        Ok(n) => {
            c.search_timeout_seconds = n;
        },
        Err(e) => {
            return Err(e);
        },
    }
    match get_u64(
        store,
        AiSetting::ImageSearchTimeout,
        "带图搜索时限",
        config.image_search_timeout_seconds,
    ) {
        Ok(n) => {
            c.image_search_timeout_seconds = n;
        },
        Err(e) => {
            return Err(e);
        },
    }
    match get_u64(
        store,
        AiSetting::SearchHedge,
        "备用模型启动时限",
        config.search_hedge_seconds,
    ) {
        Ok(n) => {
            c.search_hedge_seconds = n;
        },
        Err(e) => {
            return Err(e);
        },
    }
    match get_u64(
        store,
        AiSetting::FallbackTimeout,
        "无搜索兜底时限",
        config.fallback_timeout_seconds,
    ) {
        Ok(n) => {
            c.fallback_timeout_seconds = n;
        },
        Err(e) => {
            return Err(e);
        },
    }
    match get_switch(store, AiSetting::Collapse, "Q/A 引用折叠", config.collapse_long_messages) {
        Ok(value) => {
            c.collapse_long_messages = value;
        },
        Err(e) => {
            return Err(e);
        },
    }
    Ok(c)
}

/// The settings in force, given the configuration and what was changed at run time.
pub fn runtime_from_store(defaults: &AiDefaults, store: &Settings) -> (r: Result<
    AiRuntime,
    Failure,
>)
    ensures
        runtime_outcome(r) == loaded(defaults@, store@),
{
    let config = match config_from_store(&defaults.config, store) {
        Ok(c) => c,
        Err(e) => {
            return Err(e);
        },
    };
    let messages = MessagesConfig {
        ai_searching: get_or(
            store,
            AiSetting::SearchingMessage,
            defaults.messages.ai_searching.as_str(),
        ),
        ai_thinking: get_or(
            store,
            AiSetting::ThinkingMessage,
            defaults.messages.ai_thinking.as_str(),
        ),
    };
    let shown = default_provider_name(&config);
    let provider_name = get_or(store, AiSetting::Provider, shown.as_str());
    let api_format = match store.get_setting(AiSetting::ApiFormat.key()) {
        Some(value) => match AiApiFormat::named(value.as_str()) {
            Ok(format) => format,
            Err(e) => {
                return Err(e);
            },
        },
        None => config.api_format,
    };
    let base_url = get_or(store, AiSetting::BaseUrl, config.base_url.as_str());
    let key_overridden = store.get_setting(AiSetting::Key.key()).is_some();
    let api_key = get_or(store, AiSetting::Key, defaults.env_api_key.as_str());
    let primary_model = get_or(store, AiSetting::Model, config.model.as_str());
    let search_fallback_model = get_or(
        store,
        AiSetting::SearchModel,
        config.search_fallback_model.as_str(),
    );
    AiRuntime::build(
        AiRuntimeOptions {
            provider_name,
            api_format,
            base_url,
            api_key,
            primary_model,
            search_fallback_model,
            key_overridden,
            config,
            messages,
        },
    )
}

// ---------------------------------------------------------------------------------------------
// Using the settings
// ---------------------------------------------------------------------------------------------

/// What is shown while a command is at work.
#[derive(Debug)]
pub struct AiProgressConfig {
    pub default_search: bool,
    pub searching: String,
    pub thinking: String,
}

#[verifier::ext_equal]
pub struct ProgressModel {
    pub default_search: bool,
    pub searching: Seq<char>,
    pub thinking: Seq<char>,
}

impl View for AiProgressConfig {
    type V = ProgressModel;

    open spec fn view(&self) -> ProgressModel {
        ProgressModel {
            default_search: self.default_search,
            searching: self.searching@,
            thinking: self.thinking@,
        }
    }
}

impl Clone for AiProgressConfig {
    fn clone(&self) -> (r: Self)
        ensures
            r@ == self@,
    {
        AiProgressConfig {
            default_search: self.default_search,
            searching: self.searching.clone(),
            thinking: self.thinking.clone(),
        }
    }
}

impl AiProgressConfig {
    pub fn new(config: &AiConfig, messages: &MessagesConfig) -> (r: AiProgressConfig)
        ensures
            r@ == (ProgressModel {
                default_search: config@.default_search,
                searching: messages@.ai_searching,
                thinking: messages@.ai_thinking,
            }),
    {
        AiProgressConfig {
            default_search: config.default_search,
            searching: messages.ai_searching.clone(),
            thinking: messages.ai_thinking.clone(),
        }
    }
}

pub fn progress_from_runtime(runtime: &AiRuntime) -> (r: AiProgressConfig)
    ensures
        r@ == (ProgressModel {
            default_search: runtime@.config.default_search,
            searching: runtime@.messages.ai_searching,
            thinking: runtime@.messages.ai_thinking,
        }),
{
    AiProgressConfig::new(&runtime.config, &runtime.messages)
}

/// How long a search may take, in seconds: longer with images.
pub fn effective_search_timeout_seconds(config: &AiConfig, images: &[AiImage]) -> (r: u64)
    ensures
        r == if images@.len() == 0 {
            config.search_timeout_seconds
        } else {
            config.image_search_timeout_seconds
        },
{
    if images.len() == 0 {
        config.search_timeout_seconds
    } else {
        config.image_search_timeout_seconds
    }
}

// ---------------------------------------------------------------------------------------------
// Asking the service
// ---------------------------------------------------------------------------------------------

/// A service that can be asked.
pub struct AiProvider {
    pub api_format: AiApiFormat,
    pub endpoint: String,
    pub api_key: String,
    pub system_prompt: String,
    pub primary_model: String,
    pub search_fallback_model: String,
    pub thinking_level: String,
    pub max_output_tokens: u32,
}

#[verifier::ext_equal]
pub struct ProviderModel {
    pub api_format: AiApiFormat,
    pub endpoint: Seq<char>,
    pub api_key: Seq<char>,
    pub system_prompt: Seq<char>,
    pub primary_model: Seq<char>,
    pub search_fallback_model: Seq<char>,
    pub thinking_level: Seq<char>,
    pub max_output_tokens: u32,
}

impl View for AiProvider {
    type V = ProviderModel;

    open spec fn view(&self) -> ProviderModel {
        ProviderModel {
            api_format: self.api_format,
            endpoint: self.endpoint@,
            api_key: self.api_key@,
            system_prompt: self.system_prompt@,
            primary_model: self.primary_model@,
            search_fallback_model: self.search_fallback_model@,
            thinking_level: self.thinking_level@,
            max_output_tokens: self.max_output_tokens,
        }
    }
}

/// A service from its parts.
pub open spec fn provider_of(
    format: AiApiFormat,
    c: AiConfigModel,
    url: Seq<char>,
    primary: Seq<char>,
    fallback: Seq<char>,
    key: Seq<char>,
) -> ProviderModel {
    ProviderModel {
        api_format: format,
        endpoint: ai_request::endpoint_of(format, url),
        api_key: key,
        system_prompt: c.system_prompt,
        primary_model: primary,
        search_fallback_model: fallback,
        thinking_level: c.thinking_level,
        max_output_tokens: c.max_output_tokens,
    }
}

/// A service, or the first thing that is wrong with what it is to be made of.
pub open spec fn checked_provider(
    format: AiApiFormat,
    c: AiConfigModel,
    base_url: Seq<char>,
    primary: Seq<char>,
    fallback: Seq<char>,
    key: Seq<char>,
) -> Result<ProviderModel, Seq<char>> {
    let second = second_model(primary, fallback);
    match config::first_problem(
        model_problem("ai.model"@, primary),
        config::first_problem(
            model_problem("ai.search_fallback_model"@, second),
            api_key_problem(key),
        ),
    ) {
        Some(message) => Err(message),
        None => match base_url::normalized_url(base_url) {
            Err(message) => Err(message),
            Ok(url) => Ok(provider_of(format, c, url, primary, second, key)),
        },
    }
}

pub open spec fn provider_outcome(r: Result<AiProvider, Failure>) -> Result<
    ProviderModel,
    Seq<char>,
> {
    match r {
        Ok(p) => Ok(p@),
        Err(e) => Err(e@),
    }
}

fn make_provider(
    format: AiApiFormat,
    config: &AiConfig,
    url: &str,
    primary: &str,
    fallback: &str,
    key: &str,
) -> (r: AiProvider)
    ensures
        r@ == provider_of(format, config@, url@, primary@, fallback@, key@),
{
    AiProvider {
        api_format: format,
        endpoint: ai_request::api_endpoint(format, url),
        api_key: key.to_owned(),
        system_prompt: config.system_prompt.clone(),
        primary_model: primary.to_owned(),
        search_fallback_model: fallback.to_owned(),
        thinking_level: config.thinking_level.clone(),
        max_output_tokens: config.max_output_tokens,
    }
}

/// A service from its parts, or what is wrong with them.
pub fn build_provider(
    api_format: AiApiFormat,
    config: &AiConfig,
    base_url: &str,
    primary_model: &str,
    search_fallback_model: &str,
    api_key: &str,
) -> (r: Result<AiProvider, Failure>)
    ensures
        provider_outcome(r) == checked_provider(
            api_format,
            config@,
            base_url@,
            primary_model@,
            search_fallback_model@,
            api_key@,
        ),
{
    let second = if scan::is_blank(search_fallback_model) {
        primary_model
    } else {
        search_fallback_model
    };
    if let Err(e) = validate_model("ai.model", primary_model) {
        return Err(e);
    }
    if let Err(e) = validate_model("ai.search_fallback_model", second) {
        return Err(e);
    }
    if let Err(e) = validate_api_key(api_key) {
        return Err(e);
    }
    match base_url::normalize_base_url(base_url) {
        Ok(url) => Ok(
            make_provider(api_format, config, url.as_str(), primary_model, second, api_key),
        ),
        Err(e) => Err(e),
    }
}

/// The service that settings in force lead to.
pub open spec fn runtime_provider(r: RuntimeModel) -> ProviderModel {
    provider_of(
        r.api_format,
        r.config,
        r.base_url,
        r.primary_model,
        second_model(r.primary_model, r.search_fallback_model),
        r.api_key,
    )
}

impl AiRuntime {
    /// The model of the second search request.
    pub fn second_search_model(&self) -> (r: &str)
        ensures
            r@ == second_model(self@.primary_model, self@.search_fallback_model),
    {
        if scan::is_blank(self.search_fallback_model.as_str()) {
            self.primary_model.as_str()
        } else {
            self.search_fallback_model.as_str()
        }
    }

    /// The service that the settings in force lead to.
    pub fn provider(&self) -> (r: AiProvider)
        ensures
            r@ == runtime_provider(self@),
    {
        make_provider(
            self.api_format,
            &self.config,
            self.base_url.as_str(),
            self.primary_model.as_str(),
            self.second_search_model(),
            self.api_key.as_str(),
        )
    }
}

/// Settings in force always lead to a service: what they are made of was looked at, and is accepted
/// again if the address is one that stays as it is.
pub proof fn law_runtime_has_provider(o: RuntimeModel)
    requires
        built(o) is Ok,
        base_url::normalized_url(built(o)->Ok_0.base_url) == Ok::<Seq<char>, Seq<char>>(
            built(o)->Ok_0.base_url,
        ),
    ensures
        ({
            let r = built(o)->Ok_0;
            checked_provider(
                r.api_format,
                r.config,
                r.base_url,
                r.primary_model,
                r.search_fallback_model,
                r.api_key,
            ) == Ok::<ProviderModel, Seq<char>>(runtime_provider(r))
        }),
{
    assert(is_model(second_model(o.primary_model, o.search_fallback_model)));
}

/// Where no model is named for the second search request, both requests go to the primary one.
pub proof fn law_second_model_is_primary(o: RuntimeModel)
    requires
        scan::blank(o.search_fallback_model),
        built(o) is Ok,
    ensures
        runtime_provider(built(o)->Ok_0).search_fallback_model == o.primary_model,
        runtime_provider(built(o)->Ok_0).primary_model == o.primary_model,
{
}

/// The name of the provider is shown and nothing else: a request does not depend on it.
pub proof fn law_provider_name_is_a_label(o: RuntimeModel, name: Seq<char>)
    requires
        built(o) is Ok,
        provider_name_problem(name) is None,
    ensures
        built(RuntimeModel { provider_name: name, ..o }) is Ok,
        ({
            let r = built(o)->Ok_0;
            let renamed = built(RuntimeModel { provider_name: name, ..o })->Ok_0;
            runtime_provider(renamed) == runtime_provider(r)
        }),
{
}

/// A request to a service.
pub struct AiRequest {
    pub url: String,
    /// The name of the header that holds the key.
    pub header: &'static str,
    /// The value of that header.
    pub header_value: String,
    pub body: Json,
}

pub open spec fn request_body(
    p: ProviderModel,
    model: Seq<char>,
    query: Seq<char>,
    use_search: bool,
    images: Seq<ai_request::ImageModel>,
) -> JsonView {
    match p.api_format {
        AiApiFormat::GeminiInteractions => ai_request::gemini_body(
            model,
            p.system_prompt,
            query,
            images,
            p.thinking_level,
            p.max_output_tokens,
            use_search,
        ),
        AiApiFormat::OpenaiChatCompletions => ai_request::chat_body(
            model,
            p.system_prompt,
            query,
            images,
            p.max_output_tokens,
        ),
        AiApiFormat::OpenaiResponses => ai_request::responses_body(
            model,
            p.system_prompt,
            query,
            images,
            p.max_output_tokens,
            use_search,
        ),
    }
}

impl AiProvider {
    /// The request that asks a model a question.
    pub fn request(&self, model: &str, query: &str, use_search: bool, images: &[AiImage]) -> (r:
        AiRequest)
        ensures
            r.url@ == self@.endpoint,
            r.body@ == request_body(
                self@,
                model@,
                query@,
                use_search,
                ai_request::images_of(images@),
            ),
            match self@.api_format {
                AiApiFormat::GeminiInteractions => r.header@ == "x-goog-api-key"@
                    && r.header_value@ == self@.api_key,
                _ => r.header@ == "authorization"@ && r.header_value@ == "Bearer "@
                    + self@.api_key,
            },
    {
        let body = match self.api_format {
            AiApiFormat::GeminiInteractions => ai_request::build_gemini_body(
                model,
                self.system_prompt.as_str(),
                query,
                images,
                self.thinking_level.as_str(),
                self.max_output_tokens,
                use_search,
            ),
            AiApiFormat::OpenaiChatCompletions => ai_request::build_chat_completions_body(
                model,
                self.system_prompt.as_str(),
                query,
                images,
                self.max_output_tokens,
            ),
            AiApiFormat::OpenaiResponses => ai_request::build_responses_body(
                model,
                self.system_prompt.as_str(),
                query,
                images,
                self.max_output_tokens,
                use_search,
            ),
        };
        match self.api_format {
            AiApiFormat::GeminiInteractions => AiRequest {
                url: self.endpoint.clone(),
                header: "x-goog-api-key",
                header_value: self.api_key.clone(),
                body,
            },
            _ => {
                let mut bearer = "Bearer ".to_owned();
                bearer.append(self.api_key.as_str());
                AiRequest {
                    url: self.endpoint.clone(),
                    header: "authorization",
                    header_value: bearer,
                    body,
                }
            },
        }
    }
}

// ---------------------------------------------------------------------------------------------
// Laws of settings, values and requests
// ---------------------------------------------------------------------------------------------

/// Under which name each setting is kept.
pub proof fn law_kept_names()
    ensures
        AiSetting::Provider.name() == "ai.runtime.provider"@,
        AiSetting::ApiFormat.name() == "ai.runtime.api_format"@,
        AiSetting::BaseUrl.name() == "ai.runtime.base_url"@,
        AiSetting::Key.name() == "ai.runtime.api_key"@,
        AiSetting::Model.name() == "ai.runtime.model"@,
        AiSetting::SearchModel.name() == "ai.runtime.search_model"@,
        AiSetting::ThinkingLevel.name() == "ai.runtime.thinking_level"@,
        AiSetting::DefaultSearch.name() == "ai.runtime.default_search"@,
        AiSetting::SystemPrompt.name() == "ai.runtime.system_prompt"@,
        AiSetting::MaxOutputTokens.name() == "ai.runtime.max_output_tokens"@,
        AiSetting::SearchTimeout.name() == "ai.runtime.search_timeout_seconds"@,
        AiSetting::ImageSearchTimeout.name() == "ai.runtime.image_search_timeout_seconds"@,
        AiSetting::SearchHedge.name() == "ai.runtime.search_hedge_seconds"@,
        AiSetting::FallbackTimeout.name() == "ai.runtime.fallback_timeout_seconds"@,
        AiSetting::Collapse.name() == "ai.runtime.collapse_long_messages"@,
        AiSetting::SearchingMessage.name() == "ai.runtime.message.searching"@,
        AiSetting::ThinkingMessage.name() == "ai.runtime.message.thinking"@,
{
}

/// A setting that is kept is used, and where none is kept the configuration file's value is; what has no
/// setting is what the configuration file says.
pub proof fn law_loaded_settings(d: DefaultsModel, m: Map<Seq<char>, Seq<char>>)
    ensures
        loaded(d, m) matches Ok(r) ==> {
            let c = d.config;
            &&& match m.get("ai.runtime.provider"@) {
                Some(value) => r.provider_name == value,
                None => r.provider_name == shown_provider(c.provider),
            }
            &&& match m.get("ai.runtime.api_key"@) {
                Some(value) => r.api_key == value,
                None => r.api_key == d.env_api_key,
            }
            &&& match m.get("ai.runtime.model"@) {
                Some(value) => r.primary_model == value,
                None => r.primary_model == c.model,
            }
            &&& match m.get("ai.runtime.search_model"@) {
                Some(value) => r.search_fallback_model == value,
                None => r.search_fallback_model == c.search_fallback_model,
            }
            &&& match m.get("ai.runtime.thinking_level"@) {
                Some(value) => r.config.thinking_level == value,
                None => r.config.thinking_level == c.thinking_level,
            }
            &&& match m.get("ai.runtime.system_prompt"@) {
                Some(value) => r.config.system_prompt == value,
                None => r.config.system_prompt == c.system_prompt,
            }
            &&& match m.get("ai.runtime.message.searching"@) {
                Some(value) => r.messages.ai_searching == value,
                None => r.messages.ai_searching == d.messages.ai_searching,
            }
            &&& match m.get("ai.runtime.message.thinking"@) {
                Some(value) => r.messages.ai_thinking == value,
                None => r.messages.ai_thinking == d.messages.ai_thinking,
            }
            &&& match m.get("ai.runtime.max_output_tokens"@) {
                Some(value) => number::unsigned_value(value, 0xffff_ffff) == Ok::<
                    nat,
                    number::NumberError,
                >(r.config.max_output_tokens as nat),
                None => r.config.max_output_tokens == c.max_output_tokens,
            }
            &&& match m.get("ai.runtime.search_timeout_seconds"@) {
                Some(value) => number::unsigned_value(value, 0xffff_ffff_ffff_ffff) == Ok::<
                    nat,
                    number::NumberError,
                >(r.config.search_timeout_seconds as nat),
                None => r.config.search_timeout_seconds == c.search_timeout_seconds,
            }
            &&& match m.get("ai.runtime.image_search_timeout_seconds"@) {
                Some(value) => number::unsigned_value(value, 0xffff_ffff_ffff_ffff) == Ok::<
                    nat,
                    number::NumberError,
                >(r.config.image_search_timeout_seconds as nat),
                None => r.config.image_search_timeout_seconds == c.image_search_timeout_seconds,
            }
            &&& match m.get("ai.runtime.search_hedge_seconds"@) {
                Some(value) => number::unsigned_value(value, 0xffff_ffff_ffff_ffff) == Ok::<
                    nat,
                    number::NumberError,
                >(r.config.search_hedge_seconds as nat),
                None => r.config.search_hedge_seconds == c.search_hedge_seconds,
            }
            &&& match m.get("ai.runtime.fallback_timeout_seconds"@) {
                Some(value) => number::unsigned_value(value, 0xffff_ffff_ffff_ffff) == Ok::<
                    nat,
                    number::NumberError,
                >(r.config.fallback_timeout_seconds as nat),
                None => r.config.fallback_timeout_seconds == c.fallback_timeout_seconds,
            }
            &&& match m.get("ai.runtime.default_search"@) {
                Some(value) => forall|label: Seq<char>| #[trigger]
                    switch_setting(label, value) == Ok::<bool, Seq<char>>(r.config.default_search),
                None => r.config.default_search == c.default_search,
            }
            &&& match m.get("ai.runtime.collapse_long_messages"@) {
                Some(value) => forall|label: Seq<char>| #[trigger]
                    switch_setting(label, value) == Ok::<bool, Seq<char>>(r.config.collapse_long_messages),
                None => r.config.collapse_long_messages == c.collapse_long_messages,
            }
            &&& match m.get("ai.runtime.api_format"@) {
                Some(value) => AiApiFormat::with_name(value) == Ok::<AiApiFormat, Seq<char>>(
                    r.api_format,
                ),
                None => r.api_format == c.api_format,
            }
            &&& match m.get("ai.runtime.base_url"@) {
                Some(value) => base_url::normalized_url(value) == Ok::<Seq<char>, Seq<char>>(
                    r.base_url,
                ),
                None => base_url::normalized_url(c.base_url) == Ok::<Seq<char>, Seq<char>>(
                    r.base_url,
                ),
            }
            &&& r.key_overridden == m.contains_key("ai.runtime.api_key"@)
            &&& r.config.enabled == c.enabled
            &&& r.config.history_turns == c.history_turns
            &&& r.config.collapse_threshold_chars == c.collapse_threshold_chars
            &&& r.config.max_concurrent == c.max_concurrent
            &&& r.config.provider == c.provider
            &&& r.config.api_format == c.api_format
            &&& r.config.api_key_env == c.api_key_env
            &&& r.config.base_url == c.base_url
            &&& r.config.model == c.model
            &&& r.config.search_fallback_model == c.search_fallback_model
        },
{
    if loaded(d, m) is Ok {
        number::lemma_unsigned_at_most(
            text_or(m, AiSetting::MaxOutputTokens, Seq::empty()),
            0xffff_ffff,
        );
        number::lemma_unsigned_at_most(
            text_or(m, AiSetting::SearchTimeout, Seq::empty()),
            0xffff_ffff_ffff_ffff,
        );
        number::lemma_unsigned_at_most(
            text_or(m, AiSetting::ImageSearchTimeout, Seq::empty()),
            0xffff_ffff_ffff_ffff,
        );
        number::lemma_unsigned_at_most(
            text_or(m, AiSetting::SearchHedge, Seq::empty()),
            0xffff_ffff_ffff_ffff,
        );
        number::lemma_unsigned_at_most(
            text_or(m, AiSetting::FallbackTimeout, Seq::empty()),
            0xffff_ffff_ffff_ffff,
        );
    }
}

/// Which words switch a setting on and off. Case does not count, nor whitespace around the word.
pub proof fn law_switch_words(name: Seq<char>, s: Seq<char>)
    ensures
        ({
            let word = scan::lowered(scan::trimmed(s));
            let on = word == "1"@ || word == "true"@ || word == "on"@ || word == "yes"@ || word == "开启"@ || word == "开"@;
            let off = word == "0"@ || word == "false"@ || word == "off"@ || word == "no"@ || word == "关闭"@ || word == "关"@;
            &&& on ==> switch_setting(name, s) == Ok::<bool, Seq<char>>(true)
            &&& off ==> switch_setting(name, s) == Ok::<bool, Seq<char>>(false)
            &&& !on && !off ==> switch_setting(name, s) == Err::<bool, Seq<char>>(
                name + "只接受 on/off"@,
            )
        }),
{
    reveal_strlit("1");
    reveal_strlit("true");
    reveal_strlit("on");
    reveal_strlit("yes");
    reveal_strlit("开启");
    reveal_strlit("开");
    reveal_strlit("0");
    reveal_strlit("false");
    reveal_strlit("off");
    reveal_strlit("no");
    reveal_strlit("关闭");
    reveal_strlit("关");
    assert("1"@.len() != "true"@.len());
    assert("1"@.len() != "on"@.len());
    assert("1"@.len() != "yes"@.len());
    assert("1"@.len() != "开启"@.len());
    assert("1"@[0] != "开"@[0]);
    assert("1"@[0] != "0"@[0]);
    assert("1"@.len() != "false"@.len());
    assert("1"@.len() != "off"@.len());
    assert("1"@.len() != "no"@.len());
    assert("1"@.len() != "关闭"@.len());
    assert("1"@[0] != "关"@[0]);
    assert("true"@.len() != "on"@.len());
    assert("true"@.len() != "yes"@.len());
    assert("true"@.len() != "开启"@.len());
    assert("true"@.len() != "开"@.len());
    assert("true"@.len() != "0"@.len());
    assert("true"@.len() != "false"@.len());
    assert("true"@.len() != "off"@.len());
    assert("true"@.len() != "no"@.len());
    assert("true"@.len() != "关闭"@.len());
    assert("true"@.len() != "关"@.len());
    assert("on"@.len() != "yes"@.len());
    assert("on"@[0] != "开启"@[0]);
    assert("on"@.len() != "开"@.len());
    assert("on"@.len() != "0"@.len());
    assert("on"@.len() != "false"@.len());
    assert("on"@.len() != "off"@.len());
    assert("on"@[0] != "no"@[0]);
    assert("on"@[0] != "关闭"@[0]);
    assert("on"@.len() != "关"@.len());
    assert("yes"@.len() != "开启"@.len());
    assert("yes"@.len() != "开"@.len());
    assert("yes"@.len() != "0"@.len());
    assert("yes"@.len() != "false"@.len());
    assert("yes"@[0] != "off"@[0]);
    assert("yes"@.len() != "no"@.len());
    assert("yes"@.len() != "关闭"@.len());
    assert("yes"@.len() != "关"@.len());
    assert("开启"@.len() != "开"@.len());
    assert("开启"@.len() != "0"@.len());
    assert("开启"@.len() != "false"@.len());
    assert("开启"@.len() != "off"@.len());
    assert("开启"@[0] != "no"@[0]);
    assert("开启"@[0] != "关闭"@[0]);
    assert("开启"@.len() != "关"@.len());
    assert("开"@[0] != "0"@[0]);
    assert("开"@.len() != "false"@.len());
    assert("开"@.len() != "off"@.len());
    assert("开"@.len() != "no"@.len());
    assert("开"@.len() != "关闭"@.len());
    assert("开"@[0] != "关"@[0]);
    assert("0"@.len() != "false"@.len());
    assert("0"@.len() != "off"@.len());
    assert("0"@.len() != "no"@.len());
    assert("0"@.len() != "关闭"@.len());
    assert("0"@[0] != "关"@[0]);
    assert("false"@.len() != "off"@.len());
    assert("false"@.len() != "no"@.len());
    assert("false"@.len() != "关闭"@.len());
    assert("false"@.len() != "关"@.len());
    assert("off"@.len() != "no"@.len());
    assert("off"@.len() != "关闭"@.len());
    assert("off"@.len() != "关"@.len());
    assert("no"@[0] != "关闭"@[0]);
    assert("no"@.len() != "关"@.len());
    assert("关闭"@.len() != "关"@.len());
}

/// A number that is within bounds is read as it is written. A number of turns is at most 20.
pub proof fn law_number_settings(name: Seq<char>, n: nat, max: nat, turns: usize)
    requires
        n <= max,
    ensures
        number_setting(name, number::decimal(n), max) == Ok::<nat, Seq<char>>(n),
        turns <= 20 ==> turns_setting(number::decimal(turns as nat)) == Ok::<usize, Seq<char>>(
            turns,
        ),
        turns > 20 ==> turns_setting(number::decimal(turns as nat)) == Err::<usize, Seq<char>>(
            "上下文轮数必须在 0 到 20 之间"@,
        ),
{
    number::law_decimal_round_trip(n, max);
    number::law_decimal_round_trip(turns as nat, usize::MAX as nat);
}

/// Which names, keys, models and messages are accepted.
pub proof fn law_accepted_values(label: Seq<char>, s: Seq<char>)
    ensures
        provider_name_problem(s) is None <==> {
            &&& s.len() > 0
            &&& text::utf8_len(s) <= 32
            &&& forall|i: int|
                0 <= i < s.len() ==> text::is_alnum(#[trigger] s[i]) || s[i] == '-' || s[i] == '_'
                    || s[i] == '.'
        },
        api_key_problem(s) is None <==> {
            &&& s.len() > 0
            &&& text::utf8_len(s) <= 1024
            &&& forall|i: int| 0 <= i < s.len() ==> !#[trigger] text::is_space(s[i])
        },
        model_problem(label, s) is None <==> {
            &&& s.len() > 0
            &&& text::utf8_len(s) <= 128
            &&& forall|i: int|
                0 <= i < s.len() ==> text::is_alnum(#[trigger] s[i]) || s[i] == '-' || s[i] == '_'
                    || s[i] == '.' || s[i] == ':' || s[i] == '/'
        },
        message_problem(label, s) is None <==> !scan::blank(s) && s.len() <= 128 && !s.contains(
            '\n',
        ) && !s.contains('\r'),
        model_problem(label, s) is Some ==> model_problem(label, s) == Some(
            label + "名称包含不支持的字符"@,
        ),
        message_problem(label, s) is Some ==> message_problem(label, s) == Some(
            label + "必须是 1 到 128 个字符的单行文本"@,
        ),
{
    if provider_name_problem(s) is None {
        assert forall|i: int| 0 <= i < s.len() implies text::is_alnum(#[trigger] s[i]) || s[i] == '-'
            || s[i] == '_' || s[i] == '.' by {
            assert(config::label_char(s[i]));
        }
    }
    if is_model(s) {
        assert forall|i: int| 0 <= i < s.len() implies text::is_alnum(#[trigger] s[i]) || s[i] == '-'
            || s[i] == '_' || s[i] == '.' || s[i] == ':' || s[i] == '/' by {
            assert(model_char(s[i]));
        }
    }
    if api_key_problem(s) is None {
        assert(s.len() > 0);
    } else if s.len() > 0 && text::utf8_len(s) <= 1024 && scan::blank(s) {
        assert(text::is_space(s[0]));
    }
}

/// Which numbers, texts and messages the running assistant accepts.
pub proof fn law_accepted_runtime(c: AiConfigModel, messages: MessagesModel)
    ensures
        runtime_config_problem(c, messages) is None <==> {
            &&& c.thinking_level == "minimal"@ || c.thinking_level == "low"@ || c.thinking_level
                == "medium"@ || c.thinking_level == "high"@
            &&& !scan::blank(c.system_prompt)
            &&& c.system_prompt.len() <= 16_000
            &&& 1 <= c.max_output_tokens <= 65_536
            &&& 3 <= c.search_timeout_seconds <= 120
            &&& 3 <= c.image_search_timeout_seconds <= 120
            &&& 3 <= c.fallback_timeout_seconds <= 120
            &&& c.search_timeout_seconds <= c.image_search_timeout_seconds
            &&& c.search_hedge_seconds == 0 || (3 <= c.search_hedge_seconds
                && c.search_hedge_seconds < c.search_timeout_seconds)
            &&& !scan::blank(messages.ai_searching) && messages.ai_searching.len() <= 128
                && !messages.ai_searching.contains('\n') && !messages.ai_searching.contains('\r')
            &&& !scan::blank(messages.ai_thinking) && messages.ai_thinking.len() <= 128
                && !messages.ai_thinking.contains('\n') && !messages.ai_thinking.contains('\r')
        },
{
}

/// A runtime is built exactly if each of its parts is accepted, and then it is what was asked for, with the
/// address in its tidy form.
pub proof fn law_built_runtime(o: RuntimeModel)
    ensures
        built(o) is Ok <==> {
            &&& provider_name_problem(o.provider_name) is None
            &&& base_url::normalized_url(o.base_url) is Ok
            &&& api_key_problem(o.api_key) is None
            &&& is_model(o.primary_model)
            &&& scan::blank(o.search_fallback_model) || is_model(o.search_fallback_model)
            &&& o.config.history_turns <= 20
            &&& runtime_config_problem(o.config, o.messages) is None
        },
        built(o) matches Ok(r) ==> {
            &&& base_url::normalized_url(o.base_url) == Ok::<Seq<char>, Seq<char>>(r.base_url)
            &&& r.provider_name == o.provider_name
            &&& r.api_format == o.api_format
            &&& r.api_key == o.api_key
            &&& r.primary_model == o.primary_model
            &&& r.search_fallback_model == o.search_fallback_model
            &&& r.key_overridden == o.key_overridden
            &&& r.config == o.config
            &&& r.messages == o.messages
        },
{
}

/// The requests of a runtime go to its address with its key, its models, its prompt and its limits; the
/// second model is the first one where none is named.
pub proof fn law_runtime_provider(r: RuntimeModel)
    ensures
        runtime_provider(r).api_format == r.api_format,
        runtime_provider(r).endpoint == ai_request::endpoint_of(r.api_format, r.base_url),
        runtime_provider(r).api_key == r.api_key,
        runtime_provider(r).system_prompt == r.config.system_prompt,
        runtime_provider(r).primary_model == r.primary_model,
        scan::blank(r.search_fallback_model) ==> runtime_provider(r).search_fallback_model
            == r.primary_model,
        !scan::blank(r.search_fallback_model) ==> runtime_provider(r).search_fallback_model
            == r.search_fallback_model,
        runtime_provider(r).thinking_level == r.config.thinking_level,
        runtime_provider(r).max_output_tokens == r.config.max_output_tokens,
{
}

/// The body of a request has the form of the service, and holds the model, the prompt, the question, the
/// pictures and the limit that were given.
pub proof fn law_request_form(
    p: ProviderModel,
    model: Seq<char>,
    query: Seq<char>,
    use_search: bool,
    images: Seq<ai_request::ImageModel>,
)
    ensures
        p.api_format == AiApiFormat::GeminiInteractions ==> request_body(
            p,
            model,
            query,
            use_search,
            images,
        ) == ai_request::gemini_body(
            model,
            p.system_prompt,
            query,
            images,
            p.thinking_level,
            p.max_output_tokens,
            use_search,
        ),
        p.api_format == AiApiFormat::OpenaiChatCompletions ==> request_body(
            p,
            model,
            query,
            use_search,
            images,
        ) == ai_request::chat_body(model, p.system_prompt, query, images, p.max_output_tokens),
        p.api_format == AiApiFormat::OpenaiResponses ==> request_body(
            p,
            model,
            query,
            use_search,
            images,
        ) == ai_request::responses_body(
            model,
            p.system_prompt,
            query,
            images,
            p.max_output_tokens,
            use_search,
        ),
{
}

/// The provider is shown as it is named; Gemini gets its capital.
pub proof fn law_shown_provider(provider: Seq<char>)
    ensures
        scan::lowered(provider) == "gemini"@ ==> shown_provider(provider) == "Gemini"@,
        scan::lowered(provider) != "gemini"@ ==> shown_provider(provider) == provider,
{
    reveal_strlit("gemini");
    assert(scan::lowered("gemini"@) =~= "gemini"@);
}

} // verus!
