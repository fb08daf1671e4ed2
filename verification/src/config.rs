//! The configuration: what it holds, what stands in for what is left out, and what is accepted.

use crate::failure;
use crate::failure::Failure;
use crate::scan;
use crate::text;
use vstd::prelude::*;

verus! {

#[derive(Clone, Debug)]
pub struct Config {
    pub telegram: TelegramConfig,
    pub storage: StorageConfig,
    pub ai: AiConfig,
    pub messages: MessagesConfig,
    pub quote: QuoteConfig,
}

#[derive(Clone, Debug)]
pub struct TelegramConfig {
    pub api_id: i32,
    pub api_hash_env: String,
    /// The path of the session file.
    pub session_path: String,
    pub command_prefixes: Vec<String>,
    pub catch_up: bool,
    pub max_parallel_commands: usize,
}

#[derive(Clone, Debug)]
pub struct StorageConfig {
    /// The path of the database.
    pub path: String,
}

#[derive(Debug)]
pub struct AiConfig {
    pub enabled: bool,
    pub provider: String,
    pub api_format: AiApiFormat,
    pub api_key_env: String,
    pub base_url: String,
    pub model: String,
    /// The model of the second search request; empty for the primary model.
    pub search_fallback_model: String,
    pub thinking_level: String,
    pub default_search: bool,
    pub system_prompt: String,
    pub history_turns: usize,
    pub collapse_long_messages: bool,
    pub collapse_threshold_chars: usize,
    pub max_output_tokens: u32,
    pub max_concurrent: usize,
    pub search_timeout_seconds: u64,
    pub image_search_timeout_seconds: u64,
    /// When the second search request starts; 0 for never.
    pub search_hedge_seconds: u64,
    pub fallback_timeout_seconds: u64,
}

/// The protocol of an AI service.
#[derive(Clone, Copy, Debug, PartialEq, Eq, Structural)]
pub enum AiApiFormat {
    GeminiInteractions,
    OpenaiChatCompletions,
    OpenaiResponses,
}

#[derive(Debug)]
pub struct MessagesConfig {
    pub ai_searching: String,
    pub ai_thinking: String,
}

#[derive(Debug)]
pub struct QuoteConfig {
    pub enabled: bool,
    pub api_url: String,
    pub timeout_seconds: u64,
    pub max_messages: usize,
    pub background_color: String,
    pub sticker_set_short_name: String,
    pub history_enabled: bool,
    pub history_limit: usize,
    pub history_max_bytes: usize,
}

#[derive(Clone)]
pub struct Secrets {
    pub telegram_api_hash: String,
    pub ai_api_key: Option<String>,
}

impl Clone for AiConfig {
    fn clone(&self) -> (r: Self)
        ensures
            r == *self,
    {
        AiConfig {
            enabled: self.enabled,
            provider: self.provider.clone(),
            api_format: self.api_format,
            api_key_env: self.api_key_env.clone(),
            base_url: self.base_url.clone(),
            model: self.model.clone(),
            search_fallback_model: self.search_fallback_model.clone(),
            thinking_level: self.thinking_level.clone(),
            default_search: self.default_search,
            system_prompt: self.system_prompt.clone(),
            history_turns: self.history_turns,
            collapse_long_messages: self.collapse_long_messages,
            collapse_threshold_chars: self.collapse_threshold_chars,
            max_output_tokens: self.max_output_tokens,
            max_concurrent: self.max_concurrent,
            search_timeout_seconds: self.search_timeout_seconds,
            image_search_timeout_seconds: self.image_search_timeout_seconds,
            search_hedge_seconds: self.search_hedge_seconds,
            fallback_timeout_seconds: self.fallback_timeout_seconds,
        }
    }
}

impl Clone for MessagesConfig {
    fn clone(&self) -> (r: Self)
        ensures
            r == *self,
    {
        MessagesConfig {
            ai_searching: self.ai_searching.clone(),
            ai_thinking: self.ai_thinking.clone(),
        }
    }
}

impl Clone for QuoteConfig {
    fn clone(&self) -> (r: Self)
        ensures
            r == *self,
    {
        QuoteConfig {
            enabled: self.enabled,
            api_url: self.api_url.clone(),
            timeout_seconds: self.timeout_seconds,
            max_messages: self.max_messages,
            background_color: self.background_color.clone(),
            sticker_set_short_name: self.sticker_set_short_name.clone(),
            history_enabled: self.history_enabled,
            history_limit: self.history_limit,
            history_max_bytes: self.history_max_bytes,
        }
    }
}

/// The settings of the AI commands.
#[verifier::ext_equal]
pub struct AiConfigModel {
    pub enabled: bool,
    pub provider: Seq<char>,
    pub api_format: AiApiFormat,
    pub api_key_env: Seq<char>,
    pub base_url: Seq<char>,
    pub model: Seq<char>,
    pub search_fallback_model: Seq<char>,
    pub thinking_level: Seq<char>,
    pub default_search: bool,
    pub system_prompt: Seq<char>,
    pub history_turns: usize,
    pub collapse_long_messages: bool,
    pub collapse_threshold_chars: usize,
    pub max_output_tokens: u32,
    pub max_concurrent: usize,
    pub search_timeout_seconds: u64,
    pub image_search_timeout_seconds: u64,
    pub search_hedge_seconds: u64,
    pub fallback_timeout_seconds: u64,
}

/// The progress messages.
#[verifier::ext_equal]
pub struct MessagesModel {
    pub ai_searching: Seq<char>,
    pub ai_thinking: Seq<char>,
}

impl View for AiConfig {
    type V = AiConfigModel;

    open spec fn view(&self) -> AiConfigModel {
        AiConfigModel {
            enabled: self.enabled,
            provider: self.provider@,
            api_format: self.api_format,
            api_key_env: self.api_key_env@,
            base_url: self.base_url@,
            model: self.model@,
            search_fallback_model: self.search_fallback_model@,
            thinking_level: self.thinking_level@,
            default_search: self.default_search,
            system_prompt: self.system_prompt@,
            history_turns: self.history_turns,
            collapse_long_messages: self.collapse_long_messages,
            collapse_threshold_chars: self.collapse_threshold_chars,
            max_output_tokens: self.max_output_tokens,
            max_concurrent: self.max_concurrent,
            search_timeout_seconds: self.search_timeout_seconds,
            image_search_timeout_seconds: self.image_search_timeout_seconds,
            search_hedge_seconds: self.search_hedge_seconds,
            fallback_timeout_seconds: self.fallback_timeout_seconds,
        }
    }
}

impl View for MessagesConfig {
    type V = MessagesModel;

    open spec fn view(&self) -> MessagesModel {
        MessagesModel { ai_searching: self.ai_searching@, ai_thinking: self.ai_thinking@ }
    }
}

// ---------------------------------------------------------------------------------------------
// Protocols
// ---------------------------------------------------------------------------------------------

impl AiApiFormat {
    /// The name of a protocol in the configuration.
    pub open spec fn name(self) -> Seq<char> {
        match self {
            AiApiFormat::GeminiInteractions => "gemini_interactions"@,
            AiApiFormat::OpenaiChatCompletions => "openai_chat_completions"@,
            AiApiFormat::OpenaiResponses => "openai_responses"@,
        }
    }

    /// The protocol with a name, whatever the case of its letters and the whitespace around it.
    pub open spec fn with_name(s: Seq<char>) -> Result<AiApiFormat, Seq<char>> {
        let word = scan::lowered(scan::trimmed(s));
        if word == "gemini_interactions"@ {
            Ok(AiApiFormat::GeminiInteractions)
        } else if word == "openai_chat_completions"@ {
            Ok(AiApiFormat::OpenaiChatCompletions)
        } else if word == "openai_responses"@ {
            Ok(AiApiFormat::OpenaiResponses)
        } else {
            Err(
                "AI API format must be gemini_interactions, openai_chat_completions, or openai_responses"@,
            )
        }
    }

    /// Whether a protocol has a search tool of its own.
    pub open spec fn searches(self) -> bool {
        self is GeminiInteractions || self is OpenaiResponses
    }

    pub fn as_str(self) -> (r: &'static str)
        ensures
            r@ == self.name(),
    {
        match self {
            AiApiFormat::GeminiInteractions => "gemini_interactions",
            AiApiFormat::OpenaiChatCompletions => "openai_chat_completions",
            AiApiFormat::OpenaiResponses => "openai_responses",
        }
    }

    pub fn supports_native_search(self) -> (r: bool)
        ensures
            r == self.searches(),
    {
        match self {
            AiApiFormat::GeminiInteractions | AiApiFormat::OpenaiResponses => true,
            AiApiFormat::OpenaiChatCompletions => false,
        }
    }

    pub fn named(value: &str) -> (r: Result<AiApiFormat, Failure>)
        ensures
            failure::outcome(r) == AiApiFormat::with_name(value@),
    {
        let word = scan::lower(scan::trim(value).as_str());
        if text::same(word.as_str(), "gemini_interactions") {
            Ok(AiApiFormat::GeminiInteractions)
        } else if text::same(word.as_str(), "openai_chat_completions") {
            Ok(AiApiFormat::OpenaiChatCompletions)
        } else if text::same(word.as_str(), "openai_responses") {
            Ok(AiApiFormat::OpenaiResponses)
        } else {
            Err(
                Failure::new(
                    "AI API format must be gemini_interactions, openai_chat_completions, or openai_responses",
                ),
            )
        }
    }
}

impl core::str::FromStr for AiApiFormat {
    type Err = Failure;

    fn from_str(value: &str) -> (r: Result<Self, Failure>)
        ensures
            failure::outcome(r) == AiApiFormat::with_name(value@),
    {
        AiApiFormat::named(value)
    }
}

/// The name of a protocol is read back as that protocol.
pub proof fn law_format_names(format: AiApiFormat)
    ensures
        AiApiFormat::with_name(format.name()) == Ok::<AiApiFormat, Seq<char>>(format),
{
    reveal_strlit("gemini_interactions");
    reveal_strlit("openai_chat_completions");
    reveal_strlit("openai_responses");
    let s = format.name();
    assert(!text::is_space(s[0]) && !text::is_space(s.last()));
    assert(scan::trimmed(s) == s);
    assert(scan::lowered(s) =~= s);
    assert("gemini_interactions"@.len() == 19);
    assert("openai_chat_completions"@.len() == 23);
    assert("openai_responses"@.len() == 16);
}

// ---------------------------------------------------------------------------------------------
// What is accepted
// ---------------------------------------------------------------------------------------------

/// Letters, digits, dots, hyphens and underscores.
pub open spec fn is_label(s: Seq<char>) -> bool {
    forall|i: int| 0 <= i < s.len() ==> label_char(#[trigger] s[i])
}

pub open spec fn label_char(c: char) -> bool {
    text::is_alnum(c) || c == '-' || c == '_' || c == '.'
}

pub fn label_only(s: &str) -> (r: bool)
    ensures
        r == is_label(s@),
{
    let v = text::chars(s);
    let n: usize = v.len();
    let mut i: usize = 0;
    while i < n
        invariant
            i <= n,
            n == v@.len(),
            v@ == s@,
            forall|j: int| 0 <= j < i ==> label_char(#[trigger] v@[j]),
        decreases n - i,
    {
        let c: char = v[i];
        if !(text::alnum(c) || c == '-' || c == '_' || c == '.') {
            return false;
        }
        i = i + 1;
    }
    true
}

/// The thinking levels that there are.
pub open spec fn is_thinking_level(s: Seq<char>) -> bool {
    s == "minimal"@ || s == "low"@ || s == "medium"@ || s == "high"@
}

pub fn thinking_level(s: &str) -> (r: bool)
    ensures
        r == is_thinking_level(s@),
{
    text::same(s, "minimal") || text::same(s, "low") || text::same(s, "medium") || text::same(
        s,
        "high",
    )
}

/// One line that says something, of at most 128 characters.
pub open spec fn is_progress_message(s: Seq<char>) -> bool {
    !scan::blank(s) && s.len() <= 128 && !s.contains('\r') && !s.contains('\n')
}

pub fn progress_message(s: &str) -> (r: bool)
    ensures
        r == is_progress_message(s@),
{
    !scan::is_blank(s) && text::char_len(s) <= 128 && !scan::contains_char(s, '\r')
        && !scan::contains_char(s, '\n')
}

/// From 3 seconds to two minutes.
pub open spec fn is_timeout(seconds: u64) -> bool {
    3 <= seconds <= 120
}

/// The delay of the second search request: none at all, or at least 3 seconds and less than the
/// search may take.
pub open spec fn is_hedge(hedge: u64, search: u64) -> bool {
    hedge == 0 || 3 <= hedge < search
}

/// Where the quote renderer may be: behind HTTPS, or on this machine.
pub open spec fn is_quote_url(s: Seq<char>) -> bool {
    ||| scan::starts(s, "https://"@)
    ||| scan::starts(s, "http://127.0.0.1:"@)
    ||| scan::starts(s, "http://localhost:"@)
    ||| scan::starts(s, "http://[::1]:"@)
}

impl TelegramConfig {
    pub open spec fn problem(self) -> Option<Seq<char>> {
        if self.api_id <= 0 {
            Some("telegram.api_id must be positive"@)
        } else if scan::blank(self.api_hash_env@) {
            Some("telegram.api_hash_env must not be empty"@)
        } else if self.command_prefixes@.len() == 0 || exists|i: int|
            0 <= i < self.command_prefixes@.len() && (#[trigger] self.command_prefixes@[i])@.len()
                == 0 {
            Some("telegram.command_prefixes must contain non-empty strings"@)
        } else if self.max_parallel_commands == 0 {
            Some("telegram.max_parallel_commands must be at least 1"@)
        } else {
            None
        }
    }

    fn validate(&self) -> (r: Result<(), Failure>)
        ensures
            failure::outcome(r) == failure::verdict(self.problem()),
    {
        if self.api_id <= 0 {
            return Err(Failure::new("telegram.api_id must be positive"));
        }
        if scan::is_blank(self.api_hash_env.as_str()) {
            return Err(Failure::new("telegram.api_hash_env must not be empty"));
        }
        let n: usize = self.command_prefixes.len();
        if n == 0 {
            return Err(Failure::new("telegram.command_prefixes must contain non-empty strings"));
        }
        let mut i: usize = 0;
        while i < n
            invariant
                i <= n,
                n == self.command_prefixes@.len(),
                n > 0,
                self.api_id > 0,
                !scan::blank(self.api_hash_env@),
                forall|j: int|
                    0 <= j < i ==> (#[trigger] self.command_prefixes@[j])@.len() > 0,
            decreases n - i,
        {
            if text::char_len(self.command_prefixes[i].as_str()) == 0 {
                return Err(
                    Failure::new("telegram.command_prefixes must contain non-empty strings"),
                );
            }
            i = i + 1;
        }
        if self.max_parallel_commands == 0 {
            return Err(Failure::new("telegram.max_parallel_commands must be at least 1"));
        }
        Ok(())
    }
}

impl AiConfig {
    pub open spec fn problem(self) -> Option<Seq<char>> {
        if scan::blank(self.provider@) || text::utf8_len(self.provider@) > 32 || !is_label(
            self.provider@,
        ) {
            Some(
                "ai.provider must contain only letters, numbers, dots, hyphens, or underscores and be at most 32 characters"@,
            )
        } else if scan::blank(self.api_key_env@) || scan::blank(self.base_url@) || scan::blank(
            self.model@,
        ) {
            Some("AI key, base URL, and model settings must not be empty"@)
        } else if !is_thinking_level(self.thinking_level@) {
            Some("ai.thinking_level must be minimal, low, medium, or high"@)
        } else if self.max_concurrent == 0 {
            Some("ai.max_concurrent must be at least 1"@)
        } else if self.history_turns > 20 {
            Some("ai.history_turns must be between 0 and 20"@)
        } else if !(1 <= self.max_output_tokens <= 65_536) {
            Some("ai.max_output_tokens must be between 1 and 65536"@)
        } else if !is_timeout(self.search_timeout_seconds) || !is_timeout(
            self.image_search_timeout_seconds,
        ) || !is_timeout(self.fallback_timeout_seconds) {
            Some("AI timeouts must be between 3 and 120 seconds"@)
        } else if self.image_search_timeout_seconds < self.search_timeout_seconds {
            Some("ai.image_search_timeout_seconds must be at least search timeout"@)
        } else if !is_hedge(self.search_hedge_seconds, self.search_timeout_seconds) {
            Some("ai.search_hedge_seconds must be 0 (off), or at least 3 and below search timeout"@)
        } else {
            None
        }
    }

    fn validate(&self) -> (r: Result<(), Failure>)
        ensures
            failure::outcome(r) == failure::verdict(self.problem()),
    {
        if scan::is_blank(self.provider.as_str()) || text::byte_len(self.provider.as_str()) > 32
            || !label_only(self.provider.as_str()) {
            return Err(
                Failure::new(
                    "ai.provider must contain only letters, numbers, dots, hyphens, or underscores and be at most 32 characters",
                ),
            );
        }
        if scan::is_blank(self.api_key_env.as_str()) || scan::is_blank(self.base_url.as_str())
            || scan::is_blank(self.model.as_str()) {
            return Err(Failure::new("AI key, base URL, and model settings must not be empty"));
        }
        if !thinking_level(self.thinking_level.as_str()) {
            return Err(Failure::new("ai.thinking_level must be minimal, low, medium, or high"));
        }
        if self.max_concurrent == 0 {
            return Err(Failure::new("ai.max_concurrent must be at least 1"));
        }
        if self.history_turns > 20 {
            return Err(Failure::new("ai.history_turns must be between 0 and 20"));
        }
        if self.max_output_tokens < 1 || self.max_output_tokens > 65_536 {
            return Err(Failure::new("ai.max_output_tokens must be between 1 and 65536"));
        }
        if self.search_timeout_seconds < 3 || self.search_timeout_seconds > 120
            || self.image_search_timeout_seconds < 3 || self.image_search_timeout_seconds > 120
            || self.fallback_timeout_seconds < 3 || self.fallback_timeout_seconds > 120 {
            return Err(Failure::new("AI timeouts must be between 3 and 120 seconds"));
        }
        if self.image_search_timeout_seconds < self.search_timeout_seconds {
            return Err(
                Failure::new("ai.image_search_timeout_seconds must be at least search timeout"),
            );
        }
        if self.search_hedge_seconds != 0 && (self.search_hedge_seconds < 3
            || self.search_hedge_seconds >= self.search_timeout_seconds) {
            return Err(
                Failure::new("ai.search_hedge_seconds must be 0 (off), or at least 3 and below search timeout"),
            );
        }
        Ok(())
    }
}

/// What is wrong with a progress message of a name.
pub open spec fn progress_problem(name: Seq<char>, value: Seq<char>) -> Option<Seq<char>> {
    if is_progress_message(value) {
        None
    } else {
        Some(name + " must be a non-empty single line of at most 128 characters"@)
    }
}

pub fn validate_progress_message(name: &str, value: &str) -> (r: Result<(), Failure>)
    ensures
        failure::outcome(r) == failure::verdict(progress_problem(name@, value@)),
{
    if !progress_message(value) {
        let mut message = name.to_owned();
        message.append(" must be a non-empty single line of at most 128 characters");
        return Err(Failure::of(message));
    }
    Ok(())
}

impl QuoteConfig {
    pub open spec fn problem(self) -> Option<Seq<char>> {
        if !(1 <= self.max_messages <= 10) {
            Some("quote.max_messages must be between 1 and 10"@)
        } else if !is_timeout(self.timeout_seconds) {
            Some("quote.timeout_seconds must be between 3 and 120 seconds"@)
        } else if !(1 <= self.history_limit <= 500) {
            Some("quote.history_limit must be between 1 and 500"@)
        } else if !(0x10_0000 <= self.history_max_bytes <= 0x4000_0000) {
            Some("quote.history_max_bytes must be between 1 MiB and 1 GiB"@)
        } else if !is_quote_url(self.api_url@) {
            Some("quote.api_url must use https or a loopback-only http endpoint"@)
        } else {
            None
        }
    }

    fn validate(&self) -> (r: Result<(), Failure>)
        ensures
            failure::outcome(r) == failure::verdict(self.problem()),
    {
        if self.max_messages < 1 || self.max_messages > 10 {
            return Err(Failure::new("quote.max_messages must be between 1 and 10"));
        }
        if self.timeout_seconds < 3 || self.timeout_seconds > 120 {
            return Err(Failure::new("quote.timeout_seconds must be between 3 and 120 seconds"));
        }
        if self.history_limit < 1 || self.history_limit > 500 {
            return Err(Failure::new("quote.history_limit must be between 1 and 500"));
        }
        if self.history_max_bytes < 0x10_0000 || self.history_max_bytes > 0x4000_0000 {
            return Err(Failure::new("quote.history_max_bytes must be between 1 MiB and 1 GiB"));
        }
        let url = self.api_url.as_str();
        if !scan::starts_with(url, "https://") && !scan::starts_with(url, "http://127.0.0.1:")
            && !scan::starts_with(url, "http://localhost:") && !scan::starts_with(
            url,
            "http://[::1]:",
        ) {
            return Err(
                Failure::new("quote.api_url must use https or a loopback-only http endpoint"),
            );
        }
        Ok(())
    }
}

/// The first of two problems.
pub open spec fn first_problem(a: Option<Seq<char>>, b: Option<Seq<char>>) -> Option<Seq<char>> {
    if a is Some {
        a
    } else {
        b
    }
}

/// What is wrong with the value of an environment variable, given what reading it brought.
pub open spec fn env_outcome(
    name: Seq<char>,
    value: Result<Seq<char>, Seq<char>>,
) -> Result<Seq<char>, Seq<char>> {
    match value {
        Err(cause) => Err(
            failure::because("required environment variable "@ + name + " is missing"@, cause),
        ),
        Ok(s) => if scan::blank(s) {
            Err("required environment variable "@ + name + " is empty"@)
        } else {
            Ok(s)
        },
    }
}

pub open spec fn raw_value(value: Result<String, String>) -> Result<Seq<char>, Seq<char>> {
    match value {
        Ok(s) => Ok(s@),
        Err(cause) => Err(cause@),
    }
}

/// Accepts the value of a required environment variable, or says what is wrong with it. `value` is
/// what reading the variable brought: its value, or why there is none.
pub fn required_env(name: &str, value: Result<String, String>) -> (r: Result<String, Failure>)
    ensures
        failure::text_outcome(r) == env_outcome(name@, raw_value(value)),
{
    match value {
        Err(cause) => {
            let mut context = "required environment variable ".to_owned();
            context.append(name);
            context.append(" is missing");
            Err(Failure::caused(context.as_str(), cause.as_str()))
        },
        Ok(s) => {
            if scan::is_blank(s.as_str()) {
                let mut message = "required environment variable ".to_owned();
                message.append(name);
                message.append(" is empty");
                return Err(Failure::of(message));
            }
            Ok(s)
        },
    }
}

impl Config {
    /// The first thing that is wrong with the configuration. Parts that are switched off are not
    /// looked at.
    pub open spec fn problem(self) -> Option<Seq<char>> {
        let telegram = self.telegram.problem();
        let ai = if self.ai.enabled {
            self.ai.problem()
        } else {
            None
        };
        let searching = progress_problem("messages.ai_searching"@, self.messages.ai_searching@);
        let thinking = progress_problem("messages.ai_thinking"@, self.messages.ai_thinking@);
        let quote = if self.quote.enabled {
            self.quote.problem()
        } else {
            None
        };
        first_problem(
            telegram,
            first_problem(ai, first_problem(searching, first_problem(thinking, quote))),
        )
    }

    /// Accepts the configuration, or says what is wrong with it.
    pub fn validate(&self) -> (r: Result<(), Failure>)
        ensures
            failure::outcome(r) == failure::verdict(self.problem()),
    {
        if let Err(e) = self.telegram.validate() {
            return Err(e);
        }
        if self.ai.enabled {
            if let Err(e) = self.ai.validate() {
                return Err(e);
            }
        }
        if let Err(e) = validate_progress_message(
            "messages.ai_searching",
            self.messages.ai_searching.as_str(),
        ) {
            return Err(e);
        }
        if let Err(e) = validate_progress_message(
            "messages.ai_thinking",
            self.messages.ai_thinking.as_str(),
        ) {
            return Err(e);
        }
        if self.quote.enabled {
            if let Err(e) = self.quote.validate() {
                return Err(e);
            }
        }
        Ok(())
    }

    /// The secrets, given what reading the two environment variables brought that
    /// `telegram.api_hash_env` and `ai.api_key_env` name. The second is not looked at if the AI
    /// commands are switched off.
    pub fn load_secrets(
        &self,
        api_hash: Result<String, String>,
        api_key: Result<String, String>,
    ) -> (r: Result<Secrets, Failure>)
        ensures
            match (
                env_outcome(self.telegram.api_hash_env@, raw_value(api_hash)),
                env_outcome(self.ai.api_key_env@, raw_value(api_key)),
            ) {
                (Err(message), _) => r matches Err(e) && e@ == message,
                (Ok(hash), Err(message)) => if self.ai.enabled {
                    r matches Err(e) && e@ == message
                } else {
                    r matches Ok(s) && s.telegram_api_hash@ == hash && s.ai_api_key is None
                },
                (Ok(hash), Ok(key)) => {
                    &&& r matches Ok(s)
                    &&& s.telegram_api_hash@ == hash
                    &&& if self.ai.enabled {
                        s.ai_api_key matches Some(k) && k@ == key
                    } else {
                        s.ai_api_key is None
                    }
                },
            },
    {
        let telegram_api_hash = match required_env(self.telegram.api_hash_env.as_str(), api_hash) {
            Ok(value) => value,
            Err(e) => {
                return Err(e);
            },
        };
        let ai_api_key = if self.ai.enabled {
            match required_env(self.ai.api_key_env.as_str(), api_key) {
                Ok(value) => Some(value),
                Err(e) => {
                    return Err(e);
                },
            }
        } else {
            None
        };
        Ok(Secrets { telegram_api_hash, ai_api_key })
    }

    /// The Telegram secret alone, which is all that a login needs.
    pub fn load_telegram_api_hash(&self, api_hash: Result<String, String>) -> (r: Result<
        String,
        Failure,
    >)
        ensures
            failure::text_outcome(r) == env_outcome(
                self.telegram.api_hash_env@,
                raw_value(api_hash),
            ),
    {
        required_env(self.telegram.api_hash_env.as_str(), api_hash)
    }
}

// ---------------------------------------------------------------------------------------------
// What stands in for what is left out
// ---------------------------------------------------------------------------------------------

impl Default for MessagesConfig {
    fn default() -> (r: Self)
        ensures
            r.ai_searching@ == "🔎 正在搜索…"@,
            r.ai_thinking@ == "💭 正在思考…"@,
    {
        MessagesConfig {
            ai_searching: "🔎 正在搜索…".to_owned(),
            ai_thinking: "💭 正在思考…".to_owned(),
        }
    }
}

pub fn default_true() -> (r: bool)
    ensures
        r,
{
    true
}

pub fn default_prefixes() -> (r: Vec<String>)
    ensures
        text::texts(r@) == seq![".", "。", ",", "，", "$", "!", "！"].map_values(|s: &str| s@),
{
    let mut r: Vec<String> = Vec::new();
    r.push(".".to_owned());
    r.push("。".to_owned());
    r.push(",".to_owned());
    r.push("，".to_owned());
    r.push("$".to_owned());
    r.push("!".to_owned());
    r.push("！".to_owned());
    proof {
        assert(text::texts(r@) =~= seq![".", "。", ",", "，", "$", "!", "！"].map_values(
            |s: &str| s@,
        ));
    }
    r
}

pub fn default_parallel_commands() -> (r: usize)
    ensures
        r == 8,
{
    8
}

pub fn default_ai_provider() -> (r: String)
    ensures
        r@ == "gemini"@,
{
    "gemini".to_owned()
}

pub fn default_ai_api_format() -> (r: AiApiFormat)
    ensures
        r == AiApiFormat::GeminiInteractions,
{
    AiApiFormat::GeminiInteractions
}

pub fn default_gemini_base_url() -> (r: String)
    ensures
        r@ == "https://generativelanguage.googleapis.com"@,
{
    "https://generativelanguage.googleapis.com".to_owned()
}

pub fn default_search_fallback_model() -> (r: String)
    ensures
        r@ == "gemini-3.1-flash-lite"@,
{
    "gemini-3.1-flash-lite".to_owned()
}

pub fn default_thinking_level() -> (r: String)
    ensures
        r@ == "minimal"@,
{
    "minimal".to_owned()
}

pub fn default_system_prompt() -> (r: String)
    ensures
        r@
            == "请使用中文准确、简洁地回答。使用联网搜索时优先采用可靠来源，并明确区分事实与推断。"@,
{
    "请使用中文准确、简洁地回答。使用联网搜索时优先采用可靠来源，并明确区分事实与推断。".to_owned()
}

pub fn default_history_turns() -> (r: usize)
    ensures
        r == 0,
{
    0
}

pub fn default_collapse_threshold() -> (r: usize)
    ensures
        r == 400,
{
    400
}

pub fn default_max_output_tokens() -> (r: u32)
    ensures
        r == 4096,
{
    4096
}

pub fn default_ai_concurrency() -> (r: usize)
    ensures
        r == 3,
{
    3
}

pub fn default_search_timeout() -> (r: u64)
    ensures
        r == 20,
{
    20
}

pub fn default_image_search_timeout() -> (r: u64)
    ensures
        r == 30,
{
    30
}

pub fn default_search_hedge() -> (r: u64)
    ensures
        r == 10,
{
    10
}

pub fn default_fallback_timeout() -> (r: u64)
    ensures
        r == 10,
{
    10
}

pub fn default_quote_api() -> (r: String)
    ensures
        r@ == "http://127.0.0.1:3210/generate"@,
{
    "http://127.0.0.1:3210/generate".to_owned()
}

pub fn default_quote_timeout() -> (r: u64)
    ensures
        r == 20,
{
    20
}

pub fn default_max_quote_messages() -> (r: usize)
    ensures
        r == 5,
{
    5
}

pub fn default_quote_background() -> (r: String)
    ensures
        r@ == "#1b1429"@,
{
    "#1b1429".to_owned()
}

pub fn default_quote_history_limit() -> (r: usize)
    ensures
        r == 100,
{
    100
}

pub fn default_quote_history_max_bytes() -> (r: usize)
    ensures
        r == 100 * 1024 * 1024,
{
    100 * 1024 * 1024
}

// ---------------------------------------------------------------------------------------------
// Laws of what is accepted
// ---------------------------------------------------------------------------------------------

/// The settings of the account are accepted exactly if each lies in its range.
pub proof fn law_accepted_telegram(c: TelegramConfig)
    ensures
        c.problem() is None <==> {
            &&& c.api_id >= 1
            &&& !scan::blank(c.api_hash_env@)
            &&& c.command_prefixes@.len() > 0
            &&& forall|i: int|
                0 <= i < c.command_prefixes@.len() ==> (#[trigger] c.command_prefixes@[i])@.len() > 0
            &&& c.max_parallel_commands >= 1
        },
        c.api_id <= 0 ==> c.problem() == Some("telegram.api_id must be positive"@),
{
}

/// The settings of the assistant are accepted exactly if each lies in its range.
pub proof fn law_accepted_assistant(c: AiConfig)
    ensures
        c.problem() is None <==> {
            &&& !scan::blank(c.provider@)
            &&& text::utf8_len(c.provider@) <= 32
            &&& forall|i: int|
                0 <= i < c.provider@.len() ==> text::is_alnum(#[trigger] c.provider@[i])
                    || c.provider@[i] == '-' || c.provider@[i] == '_' || c.provider@[i] == '.'
            &&& !scan::blank(c.api_key_env@)
            &&& !scan::blank(c.base_url@)
            &&& !scan::blank(c.model@)
            &&& c.thinking_level@ == "minimal"@ || c.thinking_level@ == "low"@ || c.thinking_level@
                == "medium"@ || c.thinking_level@ == "high"@
            &&& c.max_concurrent >= 1
            &&& c.history_turns <= 20
            &&& 1 <= c.max_output_tokens <= 65_536
            &&& 3 <= c.search_timeout_seconds <= 120
            &&& 3 <= c.image_search_timeout_seconds <= 120
            &&& 3 <= c.fallback_timeout_seconds <= 120
            &&& c.search_timeout_seconds <= c.image_search_timeout_seconds
            &&& c.search_hedge_seconds == 0 || (3 <= c.search_hedge_seconds
                && c.search_hedge_seconds < c.search_timeout_seconds)
        },
{
    if c.problem() is None {
        assert forall|i: int| 0 <= i < c.provider@.len() implies text::is_alnum(
            #[trigger] c.provider@[i],
        ) || c.provider@[i] == '-' || c.provider@[i] == '_' || c.provider@[i] == '.' by {
            assert(label_char(c.provider@[i]));
        }
    }
}

/// The settings of quotes are accepted exactly if each lies in its range.
pub proof fn law_accepted_quote(c: QuoteConfig)
    ensures
        c.problem() is None <==> {
            &&& 1 <= c.max_messages <= 10
            &&& 3 <= c.timeout_seconds <= 120
            &&& 1 <= c.history_limit <= 500
            &&& 1024 * 1024 <= c.history_max_bytes <= 1024 * 1024 * 1024
            &&& scan::starts(c.api_url@, "https://"@) || scan::starts(
                c.api_url@,
                "http://127.0.0.1:"@,
            ) || scan::starts(c.api_url@, "http://localhost:"@) || scan::starts(
                c.api_url@,
                "http://[::1]:"@,
            )
        },
{
}

/// A configuration is accepted exactly if the settings of the account are, both progress messages are
/// single lines of at most 128 characters that show something, and the settings of the assistant and of
/// quotes are accepted where they are switched on.
pub proof fn law_accepted_config(c: Config)
    ensures
        c.problem() is None <==> {
            &&& c.telegram.problem() is None
            &&& c.ai.enabled ==> c.ai.problem() is None
            &&& c.quote.enabled ==> c.quote.problem() is None
            &&& !scan::blank(c.messages.ai_searching@) && c.messages.ai_searching@.len() <= 128
                && !c.messages.ai_searching@.contains('\n') && !c.messages.ai_searching@.contains(
                '\r',
            )
            &&& !scan::blank(c.messages.ai_thinking@) && c.messages.ai_thinking@.len() <= 128
                && !c.messages.ai_thinking@.contains('\n') && !c.messages.ai_thinking@.contains(
                '\r',
            )
        },
        c.telegram.problem() is Some ==> c.problem() == c.telegram.problem(),
        c.telegram.problem() is None && c.ai.enabled && c.ai.problem() is Some ==> c.problem()
            == c.ai.problem(),
        c.problem() is Some && c.telegram.problem() is None && (c.ai.enabled ==> c.ai.problem()
            is None) && is_progress_message(c.messages.ai_searching@) && is_progress_message(
            c.messages.ai_thinking@,
        ) ==> c.problem() == c.quote.problem(),
{
}

/// A format is named in any case, with whitespace around the name or not; no other word names one.
pub proof fn law_named_formats(s: Seq<char>)
    ensures
        ({
            let word = scan::lowered(scan::trimmed(s));
            let found = AiApiFormat::with_name(s);
            &&& word == "gemini_interactions"@ ==> found == Ok::<AiApiFormat, Seq<char>>(
                AiApiFormat::GeminiInteractions,
            )
            &&& word == "openai_chat_completions"@ ==> found == Ok::<AiApiFormat, Seq<char>>(
                AiApiFormat::OpenaiChatCompletions,
            )
            &&& word == "openai_responses"@ ==> found == Ok::<AiApiFormat, Seq<char>>(
                AiApiFormat::OpenaiResponses,
            )
            &&& word != "gemini_interactions"@ && word != "openai_chat_completions"@ && word
                != "openai_responses"@ ==> found is Err
        }),
        AiApiFormat::GeminiInteractions.searches(),
        AiApiFormat::OpenaiResponses.searches(),
        !AiApiFormat::OpenaiChatCompletions.searches(),
        AiApiFormat::GeminiInteractions.name() == "gemini_interactions"@,
        AiApiFormat::OpenaiChatCompletions.name() == "openai_chat_completions"@,
        AiApiFormat::OpenaiResponses.name() == "openai_responses"@,
{
    reveal_strlit("gemini_interactions");
    reveal_strlit("openai_chat_completions");
    reveal_strlit("openai_responses");
    assert("gemini_interactions"@.len() != "openai_chat_completions"@.len());
    assert("gemini_interactions"@.len() != "openai_responses"@.len());
    assert("openai_chat_completions"@.len() != "openai_responses"@.len());
}

/// A variable of the environment is used as it is; one that is missing or shows nothing is refused, by its
/// name.
pub proof fn law_required_variable(name: Seq<char>, value: Seq<char>, cause: Seq<char>)
    ensures
        !scan::blank(value) ==> env_outcome(name, Ok(value)) == Ok::<Seq<char>, Seq<char>>(value),
        scan::blank(value) ==> env_outcome(name, Ok(value)) == Err::<Seq<char>, Seq<char>>(
            "required environment variable "@ + name + " is empty"@,
        ),
        env_outcome(name, Err(cause)) == Err::<Seq<char>, Seq<char>>(
            "required environment variable "@ + name + " is missing"@ + ": "@ + cause,
        ),
{
}

} // verus!
