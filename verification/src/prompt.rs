//! What an AI command asks for, and what is made of it: question, prompt, images, and the text of the
//! answer.

use crate::ai_reply;
use crate::ai_reply::AiAnswer;
use crate::ai_reply::AiSource;
use crate::ai_reply::SourceModel;
use crate::ai_request;
use crate::ai_request::AiImage;
use crate::config::AiConfig;
use crate::failure;
use crate::failure::Failure;
use crate::number;
use crate::scan;
use crate::store;
use crate::store::AiHistoryEntry;
use crate::store::EntryModel;
use crate::text;
use vstd::prelude::*;

verus! {

/// The longest text of a message that is taken as context, in characters.
pub const MAX_REPLY_CONTEXT_CHARS: usize = 8_000;

/// The largest image that is taken, in bytes.
pub const MAX_AI_IMAGE_BYTES: u64 = 8_388_608;

/// What the images of a question may take together, in bytes.
pub const MAX_AI_IMAGE_TOTAL_BYTES: usize = 12_582_912;

/// The longest text of an entry of a conversation that is kept, in characters.
pub const MAX_HISTORY_ITEM_CHARS: usize = 4_000;

/// What the entries of a conversation may take together, in characters.
pub const MAX_HISTORY_TOTAL_CHARS: usize = 24_000;

// ---------------------------------------------------------------------------------------------
// What is asked for
// ---------------------------------------------------------------------------------------------

/// What an AI command asks for.
pub enum AiCommand {
    Help,
    Status,
    /// To look at the settings or change them; the arguments behind the first say what.
    Config,
    /// To look at the number of turns that are kept or change it.
    Context,
    /// To forget the conversation.
    Reset,
    /// An answer.
    Ask { use_search: bool, question: String },
}

pub enum CommandKind {
    Help,
    Status,
    Config,
    Context,
    Reset,
    Ask { use_search: bool, question: Seq<char> },
}

impl View for AiCommand {
    type V = CommandKind;

    open spec fn view(&self) -> CommandKind {
        match *self {
            AiCommand::Help => CommandKind::Help,
            AiCommand::Status => CommandKind::Status,
            AiCommand::Config => CommandKind::Config,
            AiCommand::Context => CommandKind::Context,
            AiCommand::Reset => CommandKind::Reset,
            AiCommand::Ask { use_search, question } => CommandKind::Ask {
                use_search,
                question: question@,
            },
        }
    }
}

/// What the text behind an AI command asks for.
pub open spec fn asked(raw_args: Seq<char>, default_search: bool) -> CommandKind {
    let raw = scan::trimmed(raw_args);
    let n = scan::word_len(raw) as int;
    let first = scan::lowered(raw.take(n));
    let rest = scan::trimmed(raw.skip(n));
    if first == "help"@ || first == "?"@ {
        CommandKind::Help
    } else if first == "status"@ {
        CommandKind::Status
    } else if first == "config"@ || first == "cfg"@ {
        CommandKind::Config
    } else if first == "context"@ || first == "ctx"@ {
        CommandKind::Context
    } else if first == "reset"@ || first == "clear"@ {
        CommandKind::Reset
    } else if first == "search"@ || first == "s"@ {
        CommandKind::Ask { use_search: true, question: rest }
    } else if first == "chat"@ || first == "c"@ {
        CommandKind::Ask { use_search: false, question: rest }
    } else {
        CommandKind::Ask { use_search: default_search, question: raw }
    }
}

/// What the text behind an AI command asks for. Without a word for it, whether to search is left to
/// the settings.
pub fn plan_command(raw_args: &str, default_search: bool) -> (r: AiCommand)
    ensures
        r@ == asked(raw_args@, default_search),
{
    let raw = scan::trim(raw_args);
    let (word, rest) = scan::split_first(raw.as_str());
    let lowered = scan::lower(word.as_str());
    let first = lowered.as_str();
    if text::same(first, "help") || text::same(first, "?") {
        AiCommand::Help
    } else if text::same(first, "status") {
        AiCommand::Status
    } else if text::same(first, "config") || text::same(first, "cfg") {
        AiCommand::Config
    } else if text::same(first, "context") || text::same(first, "ctx") {
        AiCommand::Context
    } else if text::same(first, "reset") || text::same(first, "clear") {
        AiCommand::Reset
    } else if text::same(first, "search") || text::same(first, "s") {
        AiCommand::Ask { use_search: true, question: rest }
    } else if text::same(first, "chat") || text::same(first, "c") {
        AiCommand::Ask { use_search: false, question: rest }
    } else {
        AiCommand::Ask { use_search: default_search, question: raw }
    }
}

/// What is answered when a conversation has been forgotten.
pub fn reset_reply(deleted: u64) -> (r: String)
    ensures
        r@ == "✅ 已清除当前聊天上下文（"@ + number::decimal(deleted as nat) + " 条记录）"@,
{
    let mut out = "✅ 已清除当前聊天上下文（".to_owned();
    out.append(number::write(deleted).as_str());
    out.append(" 条记录）");
    out
}

// ---------------------------------------------------------------------------------------------
// The message that a command answers
// ---------------------------------------------------------------------------------------------

/// A text of at most so many characters; a longer one is cut off, with a note.
pub open spec fn shortened(s: Seq<char>, max: nat, note: Seq<char>) -> Seq<char> {
    if s.len() <= max {
        s
    } else {
        scan::first_chars(s, max) + note
    }
}

fn shorten(s: &str, max: usize, note: &str) -> (r: String)
    ensures
        r@ == shortened(s@, max as nat, note@),
{
    let mut out = scan::take_chars(s, max);
    if text::char_len(s) > max {
        out.append(note);
    }
    out
}

pub fn truncate_chars(input: &str, max: usize) -> (r: String)
    ensures
        r@ == shortened(input@, max as nat, "\n…（被回复消息已截断）"@),
{
    shorten(input, max, "\n…（被回复消息已截断）")
}

/// What a command takes from the message that it answers: the part that was selected, or else all of
/// it, but not too much.
pub open spec fn reply_context(
    quote: bool,
    quote_text: Option<Seq<char>>,
    replied: Seq<char>,
) -> Seq<char> {
    let selected = match quote_text {
        Some(s) => if quote {
            s
        } else {
            replied
        },
        None => replied,
    };
    shortened(selected, MAX_REPLY_CONTEXT_CHARS as nat, "\n…（被回复消息已截断）"@)
}

/// What a command takes from the message that it answers. `quote` is whether a part of it was
/// selected, `quote_text` that part.
pub fn reply_context_text(quote: bool, quote_text: Option<&str>, replied: &str) -> (r: String)
    ensures
        r@ == reply_context(
            quote,
            match quote_text {
                Some(s) => Some(s@),
                None => None,
            },
            replied@,
        ),
{
    match quote_text {
        Some(s) => if quote {
            truncate_chars(s, MAX_REPLY_CONTEXT_CHARS)
        } else {
            truncate_chars(replied, MAX_REPLY_CONTEXT_CHARS)
        },
        None => truncate_chars(replied, MAX_REPLY_CONTEXT_CHARS),
    }
}

// ---------------------------------------------------------------------------------------------
// Question and prompt
// ---------------------------------------------------------------------------------------------

/// What becomes of a question.
pub enum Prepared {
    /// There is none; the guide is shown.
    Help,
    Ask { question: String, prompt: String },
}

pub enum PreparedModel {
    Help,
    Ask { question: Seq<char>, prompt: Seq<char> },
}

impl View for Prepared {
    type V = PreparedModel;

    open spec fn view(&self) -> PreparedModel {
        match *self {
            Prepared::Help => PreparedModel::Help,
            Prepared::Ask { question, prompt } => PreparedModel::Ask {
                question: question@,
                prompt: prompt@,
            },
        }
    }
}

/// The question that is put: the one in the command, or else the message that it answers, or else
/// what there is to be seen.
pub open spec fn question_of(explicit: Seq<char>, reply: Seq<char>, images: bool) -> Seq<char> {
    if !scan::blank(explicit) {
        explicit
    } else if scan::blank(reply) && images {
        "请分析图片内容。"@
    } else {
        reply
    }
}

/// The question with what it is about.
pub open spec fn prompt_of(question: Seq<char>, reply: Seq<char>) -> Seq<char> {
    if !scan::blank(reply) && scan::trimmed(reply) != scan::trimmed(question) {
        "上下文：\n"@ + reply + "\n\n问题：\n"@ + question
    } else {
        question
    }
}

/// What becomes of a command: `raw_args` is the text behind it, `explicit` the question in that,
/// `reply` what it takes from the message that it answers, `images` whether there are any.
pub open spec fn prepared(
    raw_args: Seq<char>,
    explicit: Seq<char>,
    reply: Seq<char>,
    images: bool,
) -> Result<PreparedModel, Seq<char>> {
    let question = question_of(explicit, reply, images);
    if scan::blank(raw_args) && scan::blank(reply) && !images {
        Ok(PreparedModel::Help)
    } else if scan::blank(question) {
        Err("请在 .ai 后输入问题，或回复一条文字消息后使用 .ai"@)
    } else {
        Ok(PreparedModel::Ask { question, prompt: prompt_of(question, reply) })
    }
}

/// What becomes of a command, as `prepared` says.
pub fn prepare(raw_args: &str, explicit: &str, reply: &str, images: bool) -> (r: Result<
    Prepared,
    Failure,
>)
    ensures
        match (r, prepared(raw_args@, explicit@, reply@, images)) {
            (Ok(a), Ok(b)) => a@ == b,
            (Err(a), Err(b)) => a@ == b,
            _ => false,
        },
{
    if scan::is_blank(raw_args) && scan::is_blank(reply) && !images {
        return Ok(Prepared::Help);
    }
    let question = if !scan::is_blank(explicit) {
        explicit.to_owned()
    } else if scan::is_blank(reply) && images {
        "请分析图片内容。".to_owned()
    } else {
        reply.to_owned()
    };
    if scan::is_blank(question.as_str()) {
        return Err(
            Failure::new("请在 .ai 后输入问题，或回复一条文字消息后使用 .ai"),
        );
    }
    let about = scan::trim(reply);
    let asked = scan::trim(question.as_str());
    let prompt = if !scan::is_blank(reply) && !text::same(about.as_str(), asked.as_str()) {
        let mut out = "上下文：\n".to_owned();
        out.append(reply);
        out.append("\n\n问题：\n");
        out.append(question.as_str());
        out
    } else {
        question.clone()
    };
    Ok(Prepared::Ask { question, prompt })
}

// ---------------------------------------------------------------------------------------------
// The conversation so far
// ---------------------------------------------------------------------------------------------

pub open spec fn history_item(s: Seq<char>) -> Seq<char> {
    shortened(s, MAX_HISTORY_ITEM_CHARS as nat, "\n…（历史内容已截断）"@)
}

pub fn truncate_history_item(value: &str) -> (r: String)
    ensures
        r@ == history_item(value@),
{
    shorten(value, MAX_HISTORY_ITEM_CHARS, "\n…（历史内容已截断）")
}

/// An entry of a conversation as it stands in a prompt.
pub open spec fn history_line(e: EntryModel) -> Seq<char> {
    (if e.role == "assistant"@ {
        "助手"@
    } else {
        "用户"@
    }) + "："@ + history_item(e.content)
}

pub open spec fn total_chars(lines: Seq<Seq<char>>) -> nat
    decreases lines.len(),
{
    if lines.len() == 0 {
        0
    } else {
        lines[0].len() + total_chars(lines.skip(1))
    }
}

/// The newest entries that are not too long together; at least the last one.
pub open spec fn newest_lines(lines: Seq<Seq<char>>) -> Seq<Seq<char>>
    decreases lines.len(),
{
    if total_chars(lines) > MAX_HISTORY_TOTAL_CHARS && lines.len() > 1 {
        newest_lines(lines.skip(1))
    } else {
        lines
    }
}

/// A prompt with the conversation so far before it.
pub open spec fn with_history(history: Seq<EntryModel>, current: Seq<char>) -> Seq<char> {
    if history.len() == 0 {
        current
    } else {
        "以下是同一聊天中最近的对话历史，仅用于理解上下文：\n\n"@ + scan::joined(
            newest_lines(history.map_values(|e: EntryModel| history_line(e))),
            "\n\n"@,
        ) + "\n\n当前请求：\n"@ + current
    }
}

/// A prompt ends with what is asked now, whatever was said before.
pub proof fn law_prompt_ends_with_request(history: Seq<EntryModel>, current: Seq<char>)
    ensures
        scan::ends(with_history(history, current), current),
{
    let p = with_history(history, current);
    assert(p.subrange(p.len() - current.len(), p.len() as int) =~= current);
}

fn line_of(entry: &AiHistoryEntry) -> (r: String)
    ensures
        r@ == history_line(entry@),
{
    let mut out = if text::same(entry.role.as_str(), "assistant") {
        "助手".to_owned()
    } else {
        "用户".to_owned()
    };
    out.append("：");
    out.append(truncate_history_item(entry.content.as_str()).as_str());
    out
}

proof fn lemma_total_step(lines: Seq<Seq<char>>, i: int)
    requires
        0 <= i < lines.len(),
    ensures
        total_chars(lines.skip(i)) == lines[i].len() + total_chars(lines.skip(i + 1)),
{
    assert(lines.skip(i)[0] == lines[i]);
    assert(lines.skip(i).skip(1) =~= lines.skip(i + 1));
}

/// How many of the oldest lines are left out.
fn lines_left_out(lines: &Vec<String>) -> (k: usize)
    ensures
        k <= lines@.len(),
        newest_lines(text::texts(lines@)) == text::texts(lines@).skip(k as int),
{
    let ghost all = text::texts(lines@);
    let n: usize = lines.len();
    let mut sum: u128 = 0;
    let mut i: usize = n;
    proof {
        assert(all.skip(n as int) =~= Seq::<Seq<char>>::empty());
    }
    while i > 0
        invariant
            i <= n,
            n == lines@.len(),
            all == text::texts(lines@),
            sum == total_chars(all.skip(i as int)),
            sum <= (n - i) * usize::MAX,
        decreases i,
    {
        let len: usize = text::char_len(lines[i - 1].as_str());
        proof {
            lemma_total_step(all, i - 1);
            assert((n - i) * usize::MAX + usize::MAX == (n - i + 1) * usize::MAX)
                by (nonlinear_arith);
            assert((n - i + 1) * usize::MAX <= u128::MAX) by (nonlinear_arith)
                requires
                    0 <= n - i + 1 <= usize::MAX,
                    usize::MAX <= 0xffff_ffff_ffff_ffff,
            ;
        }
        sum = sum + len as u128;
        i = i - 1;
    }
    let mut k: usize = 0;
    proof {
        assert(all.skip(0) =~= all);
    }
    while sum > MAX_HISTORY_TOTAL_CHARS as u128 && n - k > 1
        invariant
            k <= n,
            n == lines@.len(),
            all == text::texts(lines@),
            sum == total_chars(all.skip(k as int)),
            newest_lines(all) == newest_lines(all.skip(k as int)),
        decreases n - k,
    {
        proof {
            lemma_total_step(all, k as int);
            assert(all.skip(k as int).skip(1) =~= all.skip(k + 1));
        }
        sum = sum - text::char_len(lines[k].as_str()) as u128;
        k = k + 1;
    }
    k
}

/// A prompt with the conversation so far before it.
pub fn compose_history_prompt(history: &[AiHistoryEntry], current: &str) -> (r: String)
    ensures
        r@ == with_history(store::entries_of(history@), current@),
{
    let n: usize = history.len();
    if n == 0 {
        return current.to_owned();
    }
    let ghost goal = store::entries_of(history@).map_values(|e: EntryModel| history_line(e));
    let mut lines: Vec<String> = Vec::new();
    let mut i: usize = 0;
    while i < n
        invariant
            i <= n,
            n == history@.len(),
            goal == store::entries_of(history@).map_values(|e: EntryModel| history_line(e)),
            lines@.len() == i,
            forall|j: int| 0 <= j < i ==> (#[trigger] lines@[j])@ == goal[j],
        decreases n - i,
    {
        lines.push(line_of(&history[i]));
        i = i + 1;
    }
    proof {
        assert(text::texts(lines@) =~= goal);
    }
    let k: usize = lines_left_out(&lines);
    proof {
        assert(text::texts(lines@.skip(k as int)) =~= text::texts(lines@).skip(k as int));
    }
    let mut out = "以下是同一聊天中最近的对话历史，仅用于理解上下文：\n\n".to_owned();
    out.append(scan::join_from(&lines, k, "\n\n").as_str());
    out.append("\n\n当前请求：\n");
    out.append(current);
    out
}

// ---------------------------------------------------------------------------------------------
// Images
// ---------------------------------------------------------------------------------------------

/// What hangs on a message.
pub enum MediaKind {
    Photo,
    /// A sticker, and the type that it says it is.
    Sticker(Option<String>),
    /// A file, and the type that it says it is.
    Document(Option<String>),
    Other,
}

pub open spec fn is_still_image(mime: Seq<char>) -> bool {
    mime == "image/jpeg"@ || mime == "image/png"@ || mime == "image/webp"@
}

pub open spec fn still_image(mime: Seq<char>) -> Option<Seq<char>> {
    if is_still_image(mime) {
        Some(mime)
    } else {
        None
    }
}

pub open spec fn mime_or(mime: Option<String>, default: Seq<char>) -> Seq<char> {
    match mime {
        Some(m) => m@,
        None => default,
    }
}

/// The type of the image that hangs on a message, if it is one that can be looked at.
pub open spec fn image_type(media: MediaKind) -> Option<Seq<char>> {
    match media {
        MediaKind::Photo => Some("image/jpeg"@),
        MediaKind::Sticker(mime) => still_image(mime_or(mime, "image/webp"@)),
        MediaKind::Document(mime) => still_image(mime_or(mime, "application/octet-stream"@)),
        MediaKind::Other => None,
    }
}

fn still(mime: &str) -> (r: Option<String>)
    ensures
        match r {
            Some(m) => still_image(mime@) == Some(m@),
            None => still_image(mime@) is None,
        },
{
    if text::same(mime, "image/jpeg") || text::same(mime, "image/png") || text::same(
        mime,
        "image/webp",
    ) {
        Some(mime.to_owned())
    } else {
        None
    }
}

pub fn ai_image_type(media: &MediaKind) -> (r: Option<String>)
    ensures
        match r {
            Some(m) => image_type(*media) == Some(m@),
            None => image_type(*media) is None,
        },
{
    match media {
        MediaKind::Photo => Some("image/jpeg".to_owned()),
        MediaKind::Sticker(Some(mime)) => still(mime.as_str()),
        MediaKind::Sticker(None) => still("image/webp"),
        MediaKind::Document(Some(mime)) => still(mime.as_str()),
        MediaKind::Document(None) => still("application/octet-stream"),
        MediaKind::Other => None,
    }
}

/// Accepts an image of so many bytes.
pub fn check_image_size(bytes: u64) -> (r: Result<(), Failure>)
    ensures
        failure::outcome(r) == if bytes == 0 {
            Err::<(), Seq<char>>("Telegram 未返回可用的图片数据，请重新发送图片后重试"@)
        } else if bytes > MAX_AI_IMAGE_BYTES {
            Err("单张图片超过 8 MB，请压缩后重试"@)
        } else {
            Ok(())
        },
{
    if bytes == 0 {
        return Err(
            Failure::new("Telegram 未返回可用的图片数据，请重新发送图片后重试"),
        );
    }
    if bytes > MAX_AI_IMAGE_BYTES {
        return Err(Failure::new("单张图片超过 8 MB，请压缩后重试"));
    }
    Ok(())
}

pub open spec fn image_bytes(images: Seq<ai_request::ImageModel>) -> nat
    decreases images.len(),
{
    if images.len() == 0 {
        0
    } else {
        image_bytes(images.drop_last()) + images.last().byte_len
    }
}

/// The images of a question: that of the message that the command answers, then the command's own; if
/// they do not take too much together.
pub fn collect_images(replied: Option<AiImage>, own: Option<AiImage>) -> (r: Result<
    Vec<AiImage>,
    Failure,
>)
    ensures
        ({
            let first = match replied {
                Some(i) => Seq::empty().push(i@),
                None => Seq::empty(),
            };
            let all = match own {
                Some(i) => first.push(i@),
                None => first,
            };
            match r {
                Ok(images) => image_bytes(all) <= MAX_AI_IMAGE_TOTAL_BYTES
                    && ai_request::images_of(images@) == all,
                Err(e) => image_bytes(all) > MAX_AI_IMAGE_TOTAL_BYTES && e@
                    == "图片总大小超过 12 MB，请减少图片后重试"@,
            }
        }),
{
    let ghost none = Seq::<ai_request::ImageModel>::empty();
    let ghost first = match replied {
        Some(ref i) => none.push(i@),
        None => none,
    };
    let mut images: Vec<AiImage> = Vec::new();
    let mut total: u128 = 0;
    proof {
        assert(ai_request::images_of(images@) =~= none);
        if let Some(ref i) = replied {
            assert(none.push(i@).drop_last() =~= none);
            assert(image_bytes(none.push(i@).drop_last()) == 0);
        }
        if let Some(ref i) = own {
            assert(first.push(i@).drop_last() =~= first);
        }
    }
    if let Some(image) = replied {
        total = total + image.byte_len as u128;
        images.push(image);
    }
    proof {
        assert(ai_request::images_of(images@) =~= first);
        assert(total == image_bytes(first));
    }
    if let Some(image) = own {
        total = total + image.byte_len as u128;
        proof {
            assert(ai_request::images_of(images@.push(image)) =~= first.push(image@));
        }
        images.push(image);
    }
    if total > MAX_AI_IMAGE_TOTAL_BYTES as u128 {
        return Err(Failure::new("图片总大小超过 12 MB，请减少图片后重试"));
    }
    Ok(images)
}

// ---------------------------------------------------------------------------------------------
// The sizes in which a photo can be had
// ---------------------------------------------------------------------------------------------

/// A size in which a photo can be had: whether there is a picture in it, and how many bytes.
#[derive(Clone, Copy, Debug, PartialEq, Eq, Structural)]
pub struct PhotoVariant {
    pub usable: bool,
    pub size: usize,
}

/// Whether one size is tried before another: the larger one, and of two that are alike the one that
/// comes first.
pub open spec fn tried_before(v: Seq<PhotoVariant>, a: int, b: int) -> bool {
    v[a].size > v[b].size || (v[a].size == v[b].size && a < b)
}

/// Whether these are the sizes to try, in that order: all that can be used, each once.
pub open spec fn is_order(v: Seq<PhotoVariant>, order: Seq<usize>) -> bool {
    &&& forall|i: int|
        0 <= i < order.len() ==> (#[trigger] order[i]) < v.len() && v[order[i] as int].usable
    &&& forall|i: int, j: int|
        0 <= i < j < order.len() ==> tried_before(
            v,
            #[trigger] order[i] as int,
            #[trigger] order[j] as int,
        )
    &&& forall|k: usize| k < v.len() && v[k as int].usable ==> #[trigger] order.contains(k)
}

/// There is one order in which the sizes of a photo are tried.
pub proof fn law_photo_order_is_unique(v: Seq<PhotoVariant>, a: Seq<usize>, b: Seq<usize>)
    requires
        is_order(v, a),
        is_order(v, b),
    ensures
        a == b,
    decreases a.len(),
{
    if a.len() == 0 {
        if b.len() > 0 {
            assert(a.contains(b[0]));
        }
        assert(a =~= b);
    } else {
        assert(b.contains(a[0]));
        assert(a.contains(b[0]));
        let i = choose|i: int| 0 <= i < b.len() && b[i] == a[0];
        let j = choose|j: int| 0 <= j < a.len() && a[j] == b[0];
        if i > 0 {
            assert(tried_before(v, b[0] as int, b[i] as int));
            if j > 0 {
                assert(tried_before(v, a[0] as int, a[j] as int));
            }
        }
        assert(a[0] == b[0]);
        lemma_order_prefix(v, a, b, 0);
        assert(a =~= b);
    }
}

proof fn lemma_order_prefix(v: Seq<PhotoVariant>, a: Seq<usize>, b: Seq<usize>, n: int)
    requires
        is_order(v, a),
        is_order(v, b),
        0 <= n <= a.len(),
        n <= b.len(),
        forall|i: int| 0 <= i < n ==> a[i] == b[i],
    ensures
        a.len() == b.len(),
        forall|i: int| 0 <= i < a.len() ==> a[i] == b[i],
    decreases a.len() - n,
{
    if n == a.len() {
        if b.len() > n {
            assert(a.contains(b[n]));
            let j = choose|j: int| 0 <= j < a.len() && a[j] == b[n];
            assert(b[j] == b[n]);
            assert(tried_before(v, b[j] as int, b[n] as int));
        }
    } else {
        assert(b.contains(a[n]));
        let i = choose|i: int| 0 <= i < b.len() && b[i] == a[n];
        if i < n {
            assert(a[i] == a[n]);
            assert(tried_before(v, a[i] as int, a[n] as int));
        }
        assert(a.contains(b[n]));
        let j = choose|j: int| 0 <= j < a.len() && a[j] == b[n];
        if j < n {
            assert(b[j] == b[n]);
            assert(tried_before(v, b[j] as int, b[n] as int));
        }
        if i > n {
            assert(tried_before(v, b[n] as int, b[i] as int));
            if j > n {
                assert(tried_before(v, a[n] as int, a[j] as int));
            }
        }
        assert(a[n] == b[n]);
        lemma_order_prefix(v, a, b, n + 1);
    }
}

/// The sizes of a photo to try, the largest first.
pub fn photo_order(variants: &[PhotoVariant]) -> (order: Vec<usize>)
    ensures
        is_order(variants@, order@),
{
    let n: usize = variants.len();
    let ghost v = variants@;
    let mut order: Vec<usize> = Vec::new();
    let mut i: usize = 0;
    while i < n
        invariant
            i <= n,
            n == v.len(),
            v == variants@,
            forall|a: int| 0 <= a < order@.len() ==> (#[trigger] order@[a]) < i
                && v[order@[a] as int].usable,
            forall|a: int, b: int|
                0 <= a < b < order@.len() ==> tried_before(
                    v,
                    #[trigger] order@[a] as int,
                    #[trigger] order@[b] as int,
                ),
            forall|k: usize| k < i && v[k as int].usable ==> #[trigger] order@.contains(k),
        decreases n - i,
    {
        if variants[i].usable {
            let ghost before = order@;
            let size: usize = variants[i].size;
            let m: usize = order.len();
            let mut at: usize = 0;
            while at < m && variants[order[at]].size >= size
                invariant
                    at <= m,
                    m == order@.len(),
                    order@ == before,
                    i < n,
                    n == v.len(),
                    v == variants@,
                    size == v[i as int].size,
                    forall|a: int| 0 <= a < order@.len() ==> (#[trigger] order@[a]) < i,
                    forall|a: int|
                        0 <= a < at ==> v[(#[trigger] order@[a]) as int].size >= size,
                decreases m - at,
            {
                at = at + 1;
            }
            order.insert(at, i);
            proof {
                assert forall|a: int, b: int| 0 <= a < b < order@.len() implies tried_before(
                    v,
                    #[trigger] order@[a] as int,
                    #[trigger] order@[b] as int,
                ) by {
                    if a < at && b == at {
                        assert(order@[a] == before[a]);
                    } else if a == at {
                        assert(order@[b] == before[b - 1]);
                        if b - 1 > at {
                            assert(tried_before(
                                v,
                                before[at as int] as int,
                                before[b - 1] as int,
                            ));
                        }
                    } else if b < at {
                        assert(order@[a] == before[a] && order@[b] == before[b]);
                    } else if a < at {
                        assert(order@[a] == before[a] && order@[b] == before[b - 1]);
                    } else {
                        assert(order@[a] == before[a - 1] && order@[b] == before[b - 1]);
                    }
                }
                assert forall|k: usize| k < i + 1 && v[k as int].usable implies #[trigger] order@.contains(
                k) by {
                    if k == i {
                        assert(order@[at as int] == i);
                    } else {
                        assert(before.contains(k));
                        let j = choose|j: int| 0 <= j < before.len() && before[j] == k;
                        if j < at {
                            assert(order@[j] == k);
                        } else {
                            assert(order@[j + 1] == k);
                        }
                    }
                }
                assert forall|a: int| 0 <= a < order@.len() implies (#[trigger] order@[a]) < i + 1
                    && v[order@[a] as int].usable by {
                    if a < at {
                        assert(order@[a] == before[a]);
                    } else if a > at {
                        assert(order@[a] == before[a - 1]);
                    }
                }
            }
        }
        i = i + 1;
    }
    order
}

/// What is done next to get a photo.
#[derive(Clone, Copy, Debug, PartialEq, Eq, Structural)]
pub enum PhotoStep {
    /// There is a picture.
    Done,
    /// This size is tried.
    Size(usize),
    /// The photo itself is tried, whatever comes of it.
    Whole,
}

/// What is done next to get a photo when so many of the sizes have been tried, and so many bytes came
/// of the last one, if anything did.
pub open spec fn photo_step(order: Seq<usize>, tried: nat, bytes: Option<u64>) -> PhotoStep {
    if tried > 0 && bytes is Some && bytes->Some_0 > 0 {
        PhotoStep::Done
    } else if tried < order.len() {
        PhotoStep::Size(order[tried as int])
    } else {
        PhotoStep::Whole
    }
}

/// What is done next to get a photo, as `photo_step` says.
pub fn next_photo(order: &[usize], tried: usize, bytes: Option<u64>) -> (r: PhotoStep)
    ensures
        r == photo_step(order@, tried as nat, bytes),
{
    let came = match bytes {
        Some(n) => n > 0,
        None => false,
    };
    if tried > 0 && came {
        PhotoStep::Done
    } else if tried < order.len() {
        PhotoStep::Size(order[tried])
    } else {
        PhotoStep::Whole
    }
}

// ---------------------------------------------------------------------------------------------
// The text of the answer
// ---------------------------------------------------------------------------------------------

/// A text without square brackets.
pub open spec fn without_brackets(s: Seq<char>) -> Seq<char>
    decreases s.len(),
{
    if s.len() == 0 {
        Seq::empty()
    } else if s.last() == '[' || s.last() == ']' {
        without_brackets(s.drop_last())
    } else {
        without_brackets(s.drop_last()).push(s.last())
    }
}

/// A source as a line of Markdown: a title that is not too long, and an address, neither of which can
/// end the link early.
pub open spec fn source_line(s: SourceModel) -> Seq<char> {
    "\n- ["@ + without_brackets(scan::first_chars(s.title, 120)) + "]("@ + scan::replaced(
        s.url,
        ")"@,
        "%29"@,
    ) + ")"@
}

pub open spec fn source_lines(answer: Seq<char>, sources: Seq<SourceModel>) -> Seq<char>
    decreases sources.len(),
{
    if sources.len() == 0 {
        answer
    } else {
        source_lines(answer, sources.drop_last()) + source_line(sources.last())
    }
}

/// An answer with its sources behind it, at most six.
pub open spec fn with_sources(answer: Seq<char>, sources: Seq<SourceModel>) -> Seq<char> {
    if sources.len() == 0 {
        answer
    } else {
        source_lines(
            answer + "\n\n### 🔗 来源"@,
            if sources.len() <= 6 {
                sources
            } else {
                sources.take(6)
            },
        )
    }
}

proof fn lemma_no_brackets(s: Seq<char>)
    ensures
        !without_brackets(s).contains('['),
        !without_brackets(s).contains(']'),
    decreases s.len(),
{
    if s.len() > 0 {
        lemma_no_brackets(s.drop_last());
        let t = without_brackets(s.drop_last());
        let r = without_brackets(s);
        assert forall|i: int| 0 <= i < r.len() implies r[i] != '[' && r[i] != ']' by {
            if i < t.len() {
                assert(r[i] == t[i]);
                assert(t.contains(t[i]));
            }
        }
    }
}

proof fn lemma_no_paren(s: Seq<char>)
    ensures
        !scan::replaced(s, ")"@, "%29"@).contains(')'),
    decreases s.len(),
{
    reveal_strlit(")");
    reveal_strlit("%29");
    let r = scan::replaced(s, ")"@, "%29"@);
    if s.len() >= 1 {
        if scan::starts(s, ")"@) {
            lemma_no_paren(s.skip(1));
            let tail = scan::replaced(s.skip(1), ")"@, "%29"@);
            assert(r == "%29"@ + tail);
            assert forall|i: int| 0 <= i < r.len() implies r[i] != ')' by {
                if i >= 3 {
                    assert(r[i] == tail[i - 3]);
                    assert(tail.contains(tail[i - 3]));
                }
            }
        } else {
            lemma_no_paren(s.skip(1));
            let tail = scan::replaced(s.skip(1), ")"@, "%29"@);
            assert(r == seq![s[0]] + tail);
            assert(s.subrange(0, 1) =~= seq![s[0]]);
            assert(")"@ =~= seq![')']);
            assert forall|i: int| 0 <= i < r.len() implies r[i] != ')' by {
                if i >= 1 {
                    assert(r[i] == tail[i - 1]);
                    assert(tail.contains(tail[i - 1]));
                }
            }
        }
    }
}

/// Neither the title nor the address of a source can end the link that shows it: the one holds no
/// square bracket, the other no closing parenthesis.
pub proof fn law_sources_stay_links(s: SourceModel)
    ensures
        !without_brackets(scan::first_chars(s.title, 120)).contains('['),
        !without_brackets(scan::first_chars(s.title, 120)).contains(']'),
        without_brackets(scan::first_chars(s.title, 120)).len() <= 120,
        !scan::replaced(s.url, ")"@, "%29"@).contains(')'),
{
    lemma_no_brackets(scan::first_chars(s.title, 120));
    lemma_brackets_shorter(scan::first_chars(s.title, 120));
    lemma_no_paren(s.url);
}

proof fn lemma_brackets_shorter(s: Seq<char>)
    ensures
        without_brackets(s).len() <= s.len(),
    decreases s.len(),
{
    if s.len() > 0 {
        lemma_brackets_shorter(s.drop_last());
    }
}

fn strip_brackets(s: &str) -> (r: String)
    ensures
        r@ == without_brackets(s@),
{
    let v = text::chars(s);
    let n: usize = v.len();
    let mut out: Vec<char> = Vec::new();
    let mut i: usize = 0;
    proof {
        assert(s@.take(0) =~= Seq::<char>::empty());
    }
    while i < n
        invariant
            i <= n,
            n == v@.len(),
            v@ == s@,
            out@ == without_brackets(s@.take(i as int)),
        decreases n - i,
    {
        proof {
            assert(s@.take(i + 1).drop_last() =~= s@.take(i as int));
        }
        let c: char = v[i];
        if c != '[' && c != ']' {
            out.push(c);
        }
        i = i + 1;
    }
    proof {
        assert(s@.take(n as int) =~= s@);
    }
    text::string(&out)
}

/// Adds the sources of an answer to it, at most six.
pub fn append_sources(answer: &mut String, sources: &[AiSource])
    ensures
        final(answer)@ == with_sources(old(answer)@, ai_reply::sources_of(sources@)),
{
    let n: usize = sources.len();
    if n == 0 {
        return ;
    }
    let ghost head = answer@ + "\n\n### 🔗 来源"@;
    let ghost all = ai_reply::sources_of(sources@);
    answer.append("\n\n### 🔗 来源");
    let m: usize = if n <= 6 {
        n
    } else {
        6
    };
    let mut i: usize = 0;
    proof {
        assert(all.take(0) =~= Seq::<SourceModel>::empty());
    }
    while i < m
        invariant
            i <= m <= n,
            n == sources@.len(),
            all == ai_reply::sources_of(sources@),
            answer@ == source_lines(head, all.take(i as int)),
        decreases m - i,
    {
        proof {
            reveal_strlit(")");
            assert(all.take(i + 1).drop_last() =~= all.take(i as int));
            assert(all.take(i + 1).last() == sources@[i as int]@);
        }
        let title = strip_brackets(scan::take_chars(sources[i].title.as_str(), 120).as_str());
        let url = scan::replace(sources[i].url.as_str(), ")", "%29");
        let mut line = "\n- [".to_owned();
        line.append(title.as_str());
        line.append("](");
        line.append(url.as_str());
        line.append(")");
        answer.append(line.as_str());
        i = i + 1;
    }
    proof {
        assert(all.take(n as int) =~= all);
    }
}

/// What is shown of an answer that was given without search because the search failed.
pub open spec fn offline_text(answer: Seq<char>) -> Seq<char> {
    "⚠️ 联网检索暂时不可用，以下为无联网回答：\n\n"@ + answer
}

pub open spec fn both_failed_text() -> Seq<char> {
    "AI 服务暂时没有返回有效内容，请稍后重试"@
}

pub fn offline_fallback_answer(answer: &str) -> (r: String)
    ensures
        r@ == offline_text(answer@),
{
    let mut out = "⚠️ 联网检索暂时不可用，以下为无联网回答：\n\n".to_owned();
    out.append(answer);
    out
}

/// What is answered when neither the search nor the answer without it worked.
pub fn both_ai_paths_failed() -> (r: Failure)
    ensures
        r@ == both_failed_text(),
{
    Failure::new("AI 服务暂时没有返回有效内容，请稍后重试")
}

/// Where a question stands.
#[derive(Clone, Copy, Debug, PartialEq, Eq, Structural)]
pub enum AnswerState {
    /// An answer is searched for.
    Searching,
    /// The search failed; an answer without it is waited for.
    FallingBack,
    /// An answer without search is waited for, as was asked.
    Chatting,
}

/// What is done with a question next.
pub enum AnswerAction {
    /// An answer without search is asked for.
    Chat,
    /// This is shown and remembered.
    Show { text: String, searched: bool },
    /// The question failed.
    Fail(Failure),
}

pub enum AnswerActionModel {
    Chat,
    Show { text: Seq<char>, searched: bool },
    Fail(Seq<char>),
}

impl View for AnswerAction {
    type V = AnswerActionModel;

    open spec fn view(&self) -> AnswerActionModel {
        match *self {
            AnswerAction::Chat => AnswerActionModel::Chat,
            AnswerAction::Show { text, searched } => AnswerActionModel::Show {
                text: text@,
                searched,
            },
            AnswerAction::Fail(e) => AnswerActionModel::Fail(e@),
        }
    }
}

/// Where a question stands at first.
pub fn begin_answer(use_search: bool) -> (r: AnswerState)
    ensures
        r == if use_search {
            AnswerState::Searching
        } else {
            AnswerState::Chatting
        },
{
    if use_search {
        AnswerState::Searching
    } else {
        AnswerState::Chatting
    }
}

/// What becomes of a question when the search is over.
pub open spec fn after_search(found: Result<ai_reply::AnswerModel, Seq<char>>) -> (
    AnswerState,
    AnswerActionModel,
) {
    match found {
        Ok(answer) => (
            AnswerState::Searching,
            AnswerActionModel::Show {
                text: with_sources(answer.text, answer.sources),
                searched: true,
            },
        ),
        Err(_) => (AnswerState::FallingBack, AnswerActionModel::Chat),
    }
}

/// What becomes of a question when the answer without search has come or failed.
pub open spec fn after_chat(state: AnswerState, said: Result<Seq<char>, Seq<char>>) -> AnswerActionModel {
    match said {
        Ok(text) => AnswerActionModel::Show {
            text: if state == AnswerState::FallingBack {
                offline_text(text)
            } else {
                text
            },
            searched: false,
        },
        Err(e) => AnswerActionModel::Fail(
            if state == AnswerState::FallingBack {
                both_failed_text()
            } else {
                e
            },
        ),
    }
}

/// A question is answered whenever the service says something: the search, or else the answer without
/// it. What is shown after a failed search says so.
pub proof fn law_failed_search_falls_back(
    found: Result<ai_reply::AnswerModel, Seq<char>>,
    said: Result<Seq<char>, Seq<char>>,
)
    ensures
        found is Ok ==> after_search(found).1 is Show,
        found is Err ==> after_search(found) == (
            AnswerState::FallingBack,
            AnswerActionModel::Chat,
        ),
        said is Ok ==> after_chat(AnswerState::FallingBack, said) == (AnswerActionModel::Show {
            text: offline_text(said->Ok_0),
            searched: false,
        }),
        said is Err ==> after_chat(AnswerState::FallingBack, said) == AnswerActionModel::Fail(
            both_failed_text(),
        ),
{
}

/// What becomes of a question when the search is over.
pub fn search_over(found: Result<AiAnswer, Failure>) -> (r: (AnswerState, AnswerAction))
    ensures
        (r.0, r.1@) == after_search(
            match found {
                Ok(answer) => Ok(answer@),
                Err(e) => Err(e@),
            },
        ),
{
    match found {
        Ok(answer) => {
            let mut out = answer.text;
            append_sources(&mut out, answer.sources.as_slice());
            (AnswerState::Searching, AnswerAction::Show { text: out, searched: true })
        },
        Err(_) => (AnswerState::FallingBack, AnswerAction::Chat),
    }
}

/// What becomes of a question when the answer without search has come or failed.
pub fn chat_over(state: AnswerState, said: Result<String, Failure>) -> (r: AnswerAction)
    ensures
        r@ == after_chat(state, failure::text_outcome(said)),
{
    match said {
        Ok(text) => if state == AnswerState::FallingBack {
            AnswerAction::Show { text: offline_fallback_answer(text.as_str()), searched: false }
        } else {
            AnswerAction::Show { text, searched: false }
        },
        Err(e) => if state == AnswerState::FallingBack {
            AnswerAction::Fail(both_ai_paths_failed())
        } else {
            AnswerAction::Fail(e)
        },
    }
}

// ---------------------------------------------------------------------------------------------
// Trying the service
// ---------------------------------------------------------------------------------------------

/// The question that a service is tried with.
pub const CHECK_QUESTION: &'static str = "Windows 11 的 ms-cxh:localonly 命令有什么作用？请用一句中文回答。";

/// Whether a service is to be tried with a search; an error if the AI commands are switched off.
pub fn check_mode(config: &AiConfig) -> (r: Result<bool, Failure>)
    ensures
        failure::outcome(r) == if config.enabled {
            Ok::<bool, Seq<char>>(config.api_format.searches())
        } else {
            Err("AI plugin is disabled"@)
        },
{
    if !config.enabled {
        return Err(Failure::new("AI plugin is disabled"));
    }
    Ok(config.api_format.supports_native_search())
}

pub open spec fn check_report_text(
    format: Seq<char>,
    searched: bool,
    answer: ai_reply::AnswerModel,
    millis: nat,
) -> Seq<char> {
    "AI check passed in "@ + number::decimal(millis) + " ms (format="@ + format + ", searched="@ + (
    if searched {
        "true"@
    } else {
        "false"@
    }) + ", model="@ + answer.model + ", calls="@ + number::decimal(answer.search_calls)
        + ", sources="@ + number::decimal(answer.sources.len()) + ", answer="@ + number::decimal(
        answer.text.len(),
    ) + " chars)"@
}

/// What is said of a service that was tried.
pub fn check_report(config: &AiConfig, searched: bool, answer: &AiAnswer, millis: u64) -> (r: Result<
    String,
    Failure,
>)
    ensures
        failure::text_outcome(r) == if scan::blank(answer@.text) {
            Err::<Seq<char>, Seq<char>>("AI provider returned an empty response"@)
        } else {
            Ok(check_report_text(config.api_format.name(), searched, answer@, millis as nat))
        },
{
    if scan::is_blank(answer.text.as_str()) {
        return Err(Failure::new("AI provider returned an empty response"));
    }
    let mut out = "AI check passed in ".to_owned();
    out.append(number::write(millis).as_str());
    out.append(" ms (format=");
    out.append(config.api_format.as_str());
    out.append(", searched=");
    out.append(
        if searched {
            "true"
        } else {
            "false"
        },
    );
    out.append(", model=");
    out.append(answer.model.as_str());
    out.append(", calls=");
    out.append(number::write(answer.search_calls as u64).as_str());
    out.append(", sources=");
    out.append(number::write(answer.sources.len() as u64).as_str());
    out.append(", answer=");
    out.append(number::write(text::char_len(answer.text.as_str()) as u64).as_str());
    out.append(" chars)");
    Ok(out)
}

// ---------------------------------------------------------------------------------------------
// Laws
// ---------------------------------------------------------------------------------------------

/// The first word of a command says what is asked for, whatever the case of its letters; `search` and `chat`
/// ask what stands behind them, with and without a search; and any other text is the question itself.
pub proof fn law_asked(word: Seq<char>, more: Seq<char>, default_search: bool)
    requires
        word.len() > 0,
        scan::solid(word),
        more.len() > 0 ==> text::is_space(more[0]),
        scan::tight(word + more),
    ensures
        ({
            let first = scan::lowered(word);
            let r = asked(word + more, default_search);
            &&& first == "help"@ || first == "?"@ ==> r is Help
            &&& first == "status"@ ==> r is Status
            &&& first == "config"@ || first == "cfg"@ ==> r is Config
            &&& first == "context"@ || first == "ctx"@ ==> r is Context
            &&& first == "reset"@ || first == "clear"@ ==> r is Reset
            &&& first == "search"@ || first == "s"@ ==> r == (CommandKind::Ask {
                use_search: true,
                question: scan::trimmed(more),
            })
            &&& first == "chat"@ || first == "c"@ ==> r == (CommandKind::Ask {
                use_search: false,
                question: scan::trimmed(more),
            })
            &&& first != "help"@ && first != "?"@ && first != "status"@ && first != "config"@ && first != "cfg"@ && first != "context"@ && first != "ctx"@ && first != "reset"@ && first != "clear"@ && first != "search"@ && first != "s"@ && first != "chat"@ && first != "c"@ ==> r == (CommandKind::Ask {
                use_search: default_search,
                question: word + more,
            })
        }),
{
    lemma_words_apart();
    let none = Seq::<char>::empty();
    scan::law_trim(none, word + more, none);
    assert(none + (word + more) + none =~= word + more);
    scan::lemma_first_word(word, more);
    assert((word + more).take(word.len() as int) =~= word);
    assert((word + more).skip(word.len() as int) =~= more);
}

/// The words that a command may begin with are different ones.
proof fn lemma_words_apart()
    ensures
        "help"@ != "?"@,
        "help"@ != "status"@,
        "help"@ != "config"@,
        "help"@ != "cfg"@,
        "help"@ != "context"@,
        "help"@ != "ctx"@,
        "help"@ != "reset"@,
        "help"@ != "clear"@,
        "help"@ != "search"@,
        "help"@ != "s"@,
        "help"@ != "chat"@,
        "help"@ != "c"@,
        "?"@ != "status"@,
        "?"@ != "config"@,
        "?"@ != "cfg"@,
        "?"@ != "context"@,
        "?"@ != "ctx"@,
        "?"@ != "reset"@,
        "?"@ != "clear"@,
        "?"@ != "search"@,
        "?"@ != "s"@,
        "?"@ != "chat"@,
        "?"@ != "c"@,
        "status"@ != "config"@,
        "status"@ != "cfg"@,
        "status"@ != "context"@,
        "status"@ != "ctx"@,
        "status"@ != "reset"@,
        "status"@ != "clear"@,
        "status"@ != "search"@,
        "status"@ != "s"@,
        "status"@ != "chat"@,
        "status"@ != "c"@,
        "config"@ != "cfg"@,
        "config"@ != "context"@,
        "config"@ != "ctx"@,
        "config"@ != "reset"@,
        "config"@ != "clear"@,
        "config"@ != "search"@,
        "config"@ != "s"@,
        "config"@ != "chat"@,
        "config"@ != "c"@,
        "cfg"@ != "context"@,
        "cfg"@ != "ctx"@,
        "cfg"@ != "reset"@,
        "cfg"@ != "clear"@,
        "cfg"@ != "search"@,
        "cfg"@ != "s"@,
        "cfg"@ != "chat"@,
        "cfg"@ != "c"@,
        "context"@ != "ctx"@,
        "context"@ != "reset"@,
        "context"@ != "clear"@,
        "context"@ != "search"@,
        "context"@ != "s"@,
        "context"@ != "chat"@,
        "context"@ != "c"@,
        "ctx"@ != "reset"@,
        "ctx"@ != "clear"@,
        "ctx"@ != "search"@,
        "ctx"@ != "s"@,
        "ctx"@ != "chat"@,
        "ctx"@ != "c"@,
        "reset"@ != "clear"@,
        "reset"@ != "search"@,
        "reset"@ != "s"@,
        "reset"@ != "chat"@,
        "reset"@ != "c"@,
        "clear"@ != "search"@,
        "clear"@ != "s"@,
        "clear"@ != "chat"@,
        "clear"@ != "c"@,
        "search"@ != "s"@,
        "search"@ != "chat"@,
        "search"@ != "c"@,
        "s"@ != "chat"@,
        "s"@ != "c"@,
        "chat"@ != "c"@,
{
    reveal_strlit("help");
    reveal_strlit("?");
    reveal_strlit("status");
    reveal_strlit("config");
    reveal_strlit("cfg");
    reveal_strlit("context");
    reveal_strlit("ctx");
    reveal_strlit("reset");
    reveal_strlit("clear");
    reveal_strlit("search");
    reveal_strlit("s");
    reveal_strlit("chat");
    reveal_strlit("c");
    assert("help"@.len() != "?"@.len());
    assert("help"@.len() != "status"@.len());
    assert("help"@.len() != "config"@.len());
    assert("help"@.len() != "cfg"@.len());
    assert("help"@.len() != "context"@.len());
    assert("help"@.len() != "ctx"@.len());
    assert("help"@.len() != "reset"@.len());
    assert("help"@.len() != "clear"@.len());
    assert("help"@.len() != "search"@.len());
    assert("help"@.len() != "s"@.len());
    assert("help"@[0] != "chat"@[0]);
    assert("help"@.len() != "c"@.len());
    assert("?"@.len() != "status"@.len());
    assert("?"@.len() != "config"@.len());
    assert("?"@.len() != "cfg"@.len());
    assert("?"@.len() != "context"@.len());
    assert("?"@.len() != "ctx"@.len());
    assert("?"@.len() != "reset"@.len());
    assert("?"@.len() != "clear"@.len());
    assert("?"@.len() != "search"@.len());
    assert("?"@[0] != "s"@[0]);
    assert("?"@.len() != "chat"@.len());
    assert("?"@[0] != "c"@[0]);
    assert("status"@[0] != "config"@[0]);
    assert("status"@.len() != "cfg"@.len());
    assert("status"@.len() != "context"@.len());
    assert("status"@.len() != "ctx"@.len());
    assert("status"@.len() != "reset"@.len());
    assert("status"@.len() != "clear"@.len());
    assert("status"@[1] != "search"@[1]);
    assert("status"@.len() != "s"@.len());
    assert("status"@.len() != "chat"@.len());
    assert("status"@.len() != "c"@.len());
    assert("config"@.len() != "cfg"@.len());
    assert("config"@.len() != "context"@.len());
    assert("config"@.len() != "ctx"@.len());
    assert("config"@.len() != "reset"@.len());
    assert("config"@.len() != "clear"@.len());
    assert("config"@[0] != "search"@[0]);
    assert("config"@.len() != "s"@.len());
    assert("config"@.len() != "chat"@.len());
    assert("config"@.len() != "c"@.len());
    assert("cfg"@.len() != "context"@.len());
    assert("cfg"@[1] != "ctx"@[1]);
    assert("cfg"@.len() != "reset"@.len());
    assert("cfg"@.len() != "clear"@.len());
    assert("cfg"@.len() != "search"@.len());
    assert("cfg"@.len() != "s"@.len());
    assert("cfg"@.len() != "chat"@.len());
    assert("cfg"@.len() != "c"@.len());
    assert("context"@.len() != "ctx"@.len());
    assert("context"@.len() != "reset"@.len());
    assert("context"@.len() != "clear"@.len());
    assert("context"@.len() != "search"@.len());
    assert("context"@.len() != "s"@.len());
    assert("context"@.len() != "chat"@.len());
    assert("context"@.len() != "c"@.len());
    assert("ctx"@.len() != "reset"@.len());
    assert("ctx"@.len() != "clear"@.len());
    assert("ctx"@.len() != "search"@.len());
    assert("ctx"@.len() != "s"@.len());
    assert("ctx"@.len() != "chat"@.len());
    assert("ctx"@.len() != "c"@.len());
    assert("reset"@[0] != "clear"@[0]);
    assert("reset"@.len() != "search"@.len());
    assert("reset"@.len() != "s"@.len());
    assert("reset"@.len() != "chat"@.len());
    assert("reset"@.len() != "c"@.len());
    assert("clear"@.len() != "search"@.len());
    assert("clear"@.len() != "s"@.len());
    assert("clear"@.len() != "chat"@.len());
    assert("clear"@.len() != "c"@.len());
    assert("search"@.len() != "s"@.len());
    assert("search"@.len() != "chat"@.len());
    assert("search"@.len() != "c"@.len());
    assert("s"@.len() != "chat"@.len());
    assert("s"@[0] != "c"@[0]);
    assert("chat"@.len() != "c"@.len());
}

/// A command without arguments asks nothing, as the settings say with or without a search.
pub proof fn law_asked_nothing(raw_args: Seq<char>, default_search: bool)
    requires
        scan::blank(raw_args),
    ensures
        asked(raw_args, default_search) matches CommandKind::Ask { use_search, question }
            && use_search == default_search && question.len() == 0,
{
    reveal_strlit("help");
    assert("help"@.len() > 0);
    reveal_strlit("?");
    assert("?"@.len() > 0);
    reveal_strlit("status");
    assert("status"@.len() > 0);
    reveal_strlit("config");
    assert("config"@.len() > 0);
    reveal_strlit("cfg");
    assert("cfg"@.len() > 0);
    reveal_strlit("context");
    assert("context"@.len() > 0);
    reveal_strlit("ctx");
    assert("ctx"@.len() > 0);
    reveal_strlit("reset");
    assert("reset"@.len() > 0);
    reveal_strlit("clear");
    assert("clear"@.len() > 0);
    reveal_strlit("search");
    assert("search"@.len() > 0);
    reveal_strlit("s");
    assert("s"@.len() > 0);
    reveal_strlit("chat");
    assert("chat"@.len() > 0);
    reveal_strlit("c");
    assert("c"@.len() > 0);
    scan::lemma_trimmed_blank(raw_args);
}

/// A text that is short enough stays as it is; of a longer one, so many characters stay, and a note says
/// that it was cut.
pub proof fn law_shortened(s: Seq<char>, max: nat, note: Seq<char>)
    ensures
        s.len() <= max ==> shortened(s, max, note) == s,
        s.len() > max ==> shortened(s, max, note) == s.take(max as int) + note,
{
}

/// Of a message that is replied to, the part that was selected counts, else all of it; of either, the first
/// 8000 characters.
pub proof fn law_reply_context(part: Seq<char>, replied: Seq<char>)
    ensures
        part.len() <= 8000 ==> reply_context(true, Some(part), replied) == part,
        replied.len() <= 8000 ==> reply_context(false, Some(part), replied) == replied,
        replied.len() <= 8000 ==> reply_context(true, None, replied) == replied,
        replied.len() <= 8000 ==> reply_context(false, None, replied) == replied,
        part.len() > 8000 ==> reply_context(true, Some(part), replied) == part.take(8000)
            + "\n…（被回复消息已截断）"@,
        replied.len() > 8000 ==> reply_context(false, None, replied) == replied.take(8000)
            + "\n…（被回复消息已截断）"@,
{
}

/// What is asked is the question of the command; the message that it replies to stands before it as its
/// context. Without a question, the message that is replied to is the question, and an image alone is to be
/// described. Without any of these, the guide is shown.
pub proof fn law_prepared(
    raw_args: Seq<char>,
    explicit: Seq<char>,
    reply: Seq<char>,
    images: bool,
    nothing: Seq<char>,
)
    requires
        scan::blank(nothing),
        !scan::blank(explicit),
        !scan::blank(reply),
        scan::trimmed(reply) != scan::trimmed(explicit),
    ensures
        prepared(raw_args, explicit, reply, images) == Ok::<PreparedModel, Seq<char>>(
            PreparedModel::Ask {
                question: explicit,
                prompt: "上下文：\n"@ + reply + "\n\n问题：\n"@ + explicit,
            },
        ),
        !scan::blank(raw_args) || images ==> prepared(raw_args, explicit, nothing, images) == Ok::<
            PreparedModel,
            Seq<char>,
        >(PreparedModel::Ask { question: explicit, prompt: explicit }),
        prepared(raw_args, nothing, reply, images) == Ok::<PreparedModel, Seq<char>>(
            PreparedModel::Ask { question: reply, prompt: reply },
        ),
        prepared(raw_args, explicit, explicit, images) == Ok::<PreparedModel, Seq<char>>(
            PreparedModel::Ask { question: explicit, prompt: explicit },
        ),
        prepared(raw_args, nothing, nothing, true) == Ok::<PreparedModel, Seq<char>>(
            PreparedModel::Ask { question: "请分析图片内容。"@, prompt: "请分析图片内容。"@ },
        ),
        scan::blank(raw_args) ==> prepared(raw_args, nothing, nothing, false) == Ok::<
            PreparedModel,
            Seq<char>,
        >(PreparedModel::Help),
        !scan::blank(raw_args) ==> prepared(raw_args, nothing, nothing, false) is Err,
{
    reveal_strlit("请分析图片内容。");
    let words = "请分析图片内容。"@;
    assert(words[0] == '请');
    assert(!text::is_space(words[0]));
    assert(!scan::blank(words));
}

/// A conversation stands before the request line by line, each line with who said it, in the order in which
/// it was said.
pub proof fn law_history_prompt(history: Seq<EntryModel>, current: Seq<char>, e: EntryModel)
    ensures
        with_history(Seq::empty(), current) == current,
        e.role == "assistant"@ && e.content.len() <= 4000 ==> history_line(e) == "助手"@ + "："@
            + e.content,
        e.role == "user"@ && e.content.len() <= 4000 ==> history_line(e) == "用户"@ + "："@
            + e.content,
        e.content.len() > 4000 ==> scan::ends(
            history_line(e),
            e.content.take(4000) + "\n…（历史内容已截断）"@,
        ),
        history.len() > 0 && total_chars(history.map_values(|e: EntryModel| history_line(e)))
            <= 24000 ==> with_history(history, current)
            == "以下是同一聊天中最近的对话历史，仅用于理解上下文：\n\n"@ + scan::joined(
            history.map_values(|e: EntryModel| history_line(e)),
            "\n\n"@,
        ) + "\n\n当前请求：\n"@ + current,
        with_history(history.push(e), current) == with_history(history.push(e), Seq::empty())
            + current,
{
    reveal_strlit("assistant");
    reveal_strlit("user");
    assert("assistant"@.len() != "user"@.len());
    let line = history_line(e);
    let tail = history_item(e.content);
    assert(line.subrange(line.len() - tail.len(), line.len() as int) =~= tail);
    let w = with_history(history.push(e), Seq::empty());
    assert(w + current =~= with_history(history.push(e), current));
}

/// Of a conversation that is too long, the oldest lines are left out, no more of them than must be.
pub proof fn law_newest_lines(lines: Seq<Seq<char>>) -> (gone: nat)
    ensures
        gone <= lines.len(),
        newest_lines(lines) == lines.skip(gone as int),
        lines.len() > 0 ==> gone < lines.len(),
        total_chars(newest_lines(lines)) <= 24000 || newest_lines(lines).len() == 1,
        gone > 0 ==> total_chars(lines.skip(gone - 1)) > 24000,
    decreases lines.len(),
{
    if total_chars(lines) > MAX_HISTORY_TOTAL_CHARS && lines.len() > 1 {
        let g = law_newest_lines(lines.skip(1));
        assert(lines.skip(1).skip(g as int) =~= lines.skip((g + 1) as int));
        if g > 0 {
            assert(lines.skip(1).skip(g - 1) =~= lines.skip(g as int));
        } else {
            assert(lines.skip(0) =~= lines);
        }
        g + 1
    } else {
        assert(lines.skip(0) =~= lines);
        0
    }
}

/// The characters of lines add up.
pub proof fn law_total_chars(a: Seq<Seq<char>>, b: Seq<Seq<char>>, line: Seq<char>)
    ensures
        total_chars(Seq::empty()) == 0,
        total_chars(seq![line]) == line.len(),
        total_chars(a + b) == total_chars(a) + total_chars(b),
    decreases a.len(),
{
    reveal_with_fuel(total_chars, 2);
    assert(seq![line].skip(1) =~= Seq::<Seq<char>>::empty());
    if a.len() == 0 {
        assert(a + b =~= b);
    } else {
        assert((a + b).skip(1) =~= a.skip(1) + b);
        assert((a + b)[0] == a[0]);
        law_total_chars(a.skip(1), b, line);
    }
}

/// A photo is a picture, a sticker and a file are if they are of a type that can be looked at; a sticker that
/// does not say what it is is taken for WebP, and a file for none.
pub proof fn law_image_types(mime: String)
    ensures
        image_type(MediaKind::Photo) == Some("image/jpeg"@),
        image_type(MediaKind::Other) is None,
        image_type(MediaKind::Sticker(None)) == Some("image/webp"@),
        image_type(MediaKind::Document(None)) is None,
        mime@ == "image/jpeg"@ || mime@ == "image/png"@ || mime@ == "image/webp"@ ==> image_type(
            MediaKind::Document(Some(mime)),
        ) == Some(mime@) && image_type(MediaKind::Sticker(Some(mime))) == Some(mime@),
        mime@ != "image/jpeg"@ && mime@ != "image/png"@ && mime@ != "image/webp"@ ==> image_type(
            MediaKind::Document(Some(mime)),
        ) is None && image_type(MediaKind::Sticker(Some(mime))) is None,
{
    reveal_strlit("application/octet-stream");
    reveal_strlit("image/jpeg");
    reveal_strlit("image/png");
    reveal_strlit("image/webp");
    assert("application/octet-stream"@.len() != "image/jpeg"@.len());
    assert("application/octet-stream"@.len() != "image/png"@.len());
    assert("application/octet-stream"@.len() != "image/webp"@.len());
    assert("image/jpeg"@.len() != "image/png"@.len());
    assert("image/jpeg"@[6] != "image/webp"@[6]);
    assert("image/png"@.len() != "image/webp"@.len());
}

/// The bytes of images add up.
pub proof fn law_image_bytes(images: Seq<ai_request::ImageModel>, i: ai_request::ImageModel)
    ensures
        image_bytes(Seq::empty()) == 0,
        image_bytes(images.push(i)) == image_bytes(images) + i.byte_len,
{
    assert(images.push(i).drop_last() =~= images);
}

/// The sizes of a photo are tried one after the other until one has brought a picture; after the last the
/// photo itself is tried.
pub proof fn law_photo_steps(order: Seq<usize>, tried: nat, bytes: u64)
    ensures
        order.len() > 0 ==> photo_step(order, 0, None) == PhotoStep::Size(order[0]),
        order.len() == 0 ==> photo_step(order, 0, None) is Whole,
        tried > 0 && bytes > 0 ==> photo_step(order, tried, Some(bytes)) is Done,
        0 < tried < order.len() ==> photo_step(order, tried, None) == PhotoStep::Size(
            order[tried as int],
        ),
        0 < tried < order.len() ==> photo_step(order, tried, Some(0)) == PhotoStep::Size(
            order[tried as int],
        ),
        tried >= order.len() ==> photo_step(order, tried, None) is Whole,
        tried > 0 && tried >= order.len() ==> photo_step(order, tried, Some(0)) is Whole,
{
}

/// The sources stand behind the answer, one on each line in their order, as links with their titles: the
/// first six of them.
pub proof fn law_sources_listed(
    answer: Seq<char>,
    sources: Seq<SourceModel>,
    title: Seq<char>,
    url: Seq<char>,
)
    requires
        title.len() <= 120,
        !title.contains('['),
        !title.contains(']'),
        !url.contains(')'),
    ensures
        ({
            let s = SourceModel { title, url };
            let line = "\n- ["@ + title + "]("@ + url + ")"@;
            &&& with_sources(answer, Seq::empty()) == answer
            &&& with_sources(answer, seq![s]) == answer + "\n\n### 🔗 来源"@ + line
            &&& 0 < sources.len() < 6 ==> with_sources(answer, sources.push(s)) == with_sources(
                answer,
                sources,
            ) + line
            &&& sources.len() >= 6 ==> with_sources(answer, sources.push(s)) == with_sources(
                answer,
                sources,
            )
        }),
{
    let s = SourceModel { title, url };
    lemma_bracket_free(title);
    reveal_strlit(")");
    assert(!scan::has(url, ")"@)) by {
        if scan::has(url, ")"@) {
            let i = choose|i: int| scan::occurs(url, ")"@, i);
            assert(url.subrange(i, i + 1)[0] == ')');
            assert(url[i] == ')');
        }
    }
    scan::law_replaced(url, ")"@, "%29"@, 0);
    let one = seq![s];
    assert(one.drop_last() =~= Seq::<SourceModel>::empty());
    reveal_with_fuel(source_lines, 2);
    let all = sources.push(s);
    assert(all.drop_last() =~= sources);
    if sources.len() >= 6 {
        assert(all.take(6) =~= sources.take(6));
        if sources.len() == 6 {
            assert(sources.take(6) =~= sources);
        }
    }
}

proof fn lemma_bracket_free(s: Seq<char>)
    requires
        !s.contains('['),
        !s.contains(']'),
    ensures
        without_brackets(s) == s,
    decreases s.len(),
{
    if s.len() > 0 {
        let before = s.drop_last();
        assert(s[s.len() - 1] == s.last());
        assert forall|c: char| before.contains(c) implies s.contains(c) by {
            let i = choose|i: int| 0 <= i < before.len() && before[i] == c;
            assert(s[i] == c);
        }
        lemma_bracket_free(before);
        assert(before.push(s.last()) =~= s);
    }
}

/// A title loses its brackets and nothing else; in an address, closing brackets are written so that the link
/// does not end at them.
pub proof fn law_source_parts(a: Seq<char>, b: Seq<char>)
    ensures
        without_brackets(a + b) == without_brackets(a) + without_brackets(b),
        without_brackets(seq!['[']) == Seq::<char>::empty(),
        without_brackets(seq![']']) == Seq::<char>::empty(),
        scan::replaced(seq![')'] + a, ")"@, "%29"@) == "%29"@ + scan::replaced(a, ")"@, "%29"@),
    decreases b.len(),
{
    reveal_with_fuel(without_brackets, 2);
    reveal_strlit(")");
    let s = seq![')'] + a;
    assert(s.subrange(0, 1) =~= ")"@);
    assert(s.skip(1) =~= a);
    scan::law_replaced(s, ")"@, "%29"@, 0);
    assert(s.take(0) + "%29"@ =~= "%29"@);
    if b.len() == 0 {
        assert(a + b =~= a);
        assert(without_brackets(a) + without_brackets(b) =~= without_brackets(a));
    } else {
        assert((a + b).drop_last() =~= a + b.drop_last());
        law_source_parts(a, b.drop_last());
        assert(without_brackets(a + b) =~= without_brackets(a) + without_brackets(b));
    }
}

/// What is shown of a search is what it said, with its sources; of an answer without a search, what it said,
/// behind a warning if a search was tried and failed.
pub proof fn law_shown_answers(answer: ai_reply::AnswerModel, said: Seq<char>)
    ensures
        after_search(Ok(answer)).1 matches AnswerActionModel::Show { text, searched } && searched
            && scan::starts(text, answer.text) && (answer.sources.len() == 0 ==> text
            == answer.text),
        after_chat(AnswerState::Chatting, Ok(said)) == (AnswerActionModel::Show {
            text: said,
            searched: false,
        }),
        after_chat(AnswerState::FallingBack, Ok(said)) matches AnswerActionModel::Show {
            text,
            searched,
        } && !searched && scan::ends(text, said) && scan::starts(text, "⚠️"@),
        after_chat(AnswerState::Chatting, Err(said)) == AnswerActionModel::Fail(said),
{
    let sources = answer.sources;
    if sources.len() > 0 {
        let shown = if sources.len() <= 6 {
            sources
        } else {
            sources.take(6)
        };
        let head = answer.text + "\n\n### 🔗 来源"@;
        assert(head.subrange(0, answer.text.len() as int) =~= answer.text);
        lemma_lines_behind(head, shown, answer.text);
    } else {
        assert(answer.text.subrange(0, answer.text.len() as int) =~= answer.text);
    }
    let t = offline_text(said);
    assert(t.subrange(t.len() - said.len(), t.len() as int) =~= said);
    reveal_strlit("⚠️ 联网检索暂时不可用，以下为无联网回答：\n\n");
    reveal_strlit("⚠️");
    assert(t.subrange(0, "⚠️"@.len() as int) =~= "⚠️"@);
}

proof fn lemma_lines_behind(head: Seq<char>, sources: Seq<SourceModel>, p: Seq<char>)
    requires
        scan::starts(head, p),
    ensures
        scan::starts(source_lines(head, sources), p),
    decreases sources.len(),
{
    if sources.len() > 0 {
        lemma_lines_behind(head, sources.drop_last(), p);
        let a = source_lines(head, sources.drop_last());
        let b = source_lines(head, sources);
        assert(b.subrange(0, p.len() as int) =~= a.subrange(0, p.len() as int));
    }
}

/// What is reported of a check that passed.
pub proof fn law_check_report(
    format: Seq<char>,
    searched: bool,
    answer: ai_reply::AnswerModel,
    millis: nat,
)
    ensures
        check_report_text(format, searched, answer, millis) == "AI check passed in "@
            + number::decimal(millis) + " ms (format="@ + format + ", searched="@ + (if searched {
            "true"@
        } else {
            "false"@
        }) + ", model="@ + answer.model + ", calls="@ + number::decimal(answer.search_calls)
            + ", sources="@ + number::decimal(answer.sources.len()) + ", answer="@
            + number::decimal(answer.text.len()) + " chars)"@,
{
}

/// How much of a replied message, of one turn, of all turns and of pictures goes into a request.
pub proof fn law_limits()
    ensures
        MAX_REPLY_CONTEXT_CHARS == 8_000,
        MAX_HISTORY_ITEM_CHARS == 4_000,
        MAX_HISTORY_TOTAL_CHARS == 24_000,
        MAX_AI_IMAGE_BYTES == 8 * 1024 * 1024,
        MAX_AI_IMAGE_TOTAL_BYTES == 12 * 1024 * 1024,
{
}

/// A replied message that says what was asked anyway is not repeated, whatever whitespace is around it.
pub proof fn law_same_reply(
    raw_args: Seq<char>,
    explicit: Seq<char>,
    a: Seq<char>,
    b: Seq<char>,
    images: bool,
)
    requires
        scan::tight(explicit),
        explicit.len() > 0,
        scan::blank(a),
        scan::blank(b),
    ensures
        prepared(raw_args, explicit, a + explicit + b, images) == Ok::<PreparedModel, Seq<char>>(
            PreparedModel::Ask { question: explicit, prompt: explicit },
        ),
{
    let none = Seq::<char>::empty();
    let reply = a + explicit + b;
    scan::law_trim(a, explicit, b);
    scan::law_trim(none, explicit, none);
    assert(none + explicit + none =~= explicit);
    assert(!scan::blank(explicit)) by {
        assert(!text::is_space(explicit[0]));
    }
    assert(!scan::blank(reply)) by {
        assert(reply[a.len() as int] == explicit[0]);
        assert(!text::is_space(reply[a.len() as int]));
    }
}

/// A source is named by the first 120 characters of its title, those of them that are no brackets.
pub proof fn law_source_title(title: Seq<char>, more: Seq<char>, url: Seq<char>)
    ensures
        title.len() <= 120 ==> source_line(SourceModel { title, url }) == "\n- ["@
            + without_brackets(title) + "]("@ + scan::replaced(url, ")"@, "%29"@) + ")"@,
        title.len() == 120 ==> source_line(SourceModel { title: title + more, url }) == "\n- ["@
            + without_brackets(title) + "]("@ + scan::replaced(url, ")"@, "%29"@) + ")"@,
{
    if title.len() <= 120 {
        assert(title.take(title.len() as int) =~= title);
    }
    if title.len() == 120 {
        assert((title + more).take(120) =~= title);
        assert((title + more).take((title + more).len() as int) =~= title + more);
        if more.len() == 0 {
            assert(title + more =~= title);
        }
    }
}

/// Photos are tried from the largest down; of two as large the first one is tried first. Each that can be
/// used is tried, and no other.
pub proof fn law_photo_order(v: Seq<PhotoVariant>, order: Seq<usize>, i: int, j: int, k: usize)
    requires
        is_order(v, order),
        0 <= i < j < order.len(),
    ensures
        v[order[i] as int].size > v[order[j] as int].size || (v[order[i] as int].size
            == v[order[j] as int].size && order[i] < order[j]),
        v[order[i] as int].usable,
        order.contains(k) ==> k < v.len() && v[k as int].usable,
        k < v.len() && v[k as int].usable ==> order.contains(k),
{
    assert(tried_before(v, order[i] as int, order[j] as int));
}

} // verus!
