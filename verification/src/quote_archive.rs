//! What is said of quotes that were made: in the archive, and about the settings.

use crate::failure;
use crate::failure::Failure;
use crate::number;
use crate::prompt::MediaKind;
use crate::quote;
use crate::quote::QuoteOutput;
use crate::scan;
use crate::store::QuoteHistorySummary;
use crate::text;
use vstd::prelude::*;

verus! {

// ---------------------------------------------------------------------------------------------
// Previews
// ---------------------------------------------------------------------------------------------

/// What a message says, on one line.
pub open spec fn preview_of(s: Seq<char>) -> Seq<char> {
    let line = scan::joined(scan::words(s), " "@);
    if line.len() == 0 {
        "[媒体]"@
    } else {
        line
    }
}

pub fn quote_preview_line(message: &str) -> (r: String)
    ensures
        r@ == preview_of(message@),
{
    let words = scan::split_words(message);
    let line = scan::join(&words, " ");
    if text::char_len(line.as_str()) == 0 {
        "[媒体]".to_owned()
    } else {
        line
    }
}

/// The line for a message: who wrote it, and what it says.
pub fn preview_line(name: &str, message: &str) -> (r: String)
    ensures
        r@ == name@ + "："@ + preview_of(message@),
{
    let mut out = name.to_owned();
    out.append("：");
    out.append(quote_preview_line(message).as_str());
    out
}

/// What a quote says, as far as it is kept with it.
pub open spec fn quote_preview(lines: Seq<Seq<char>>) -> Seq<char> {
    let source = scan::joined(lines, " / "@);
    if source.len() > quote::MAX_HISTORY_PREVIEW_CHARS {
        scan::first_chars(source, quote::MAX_HISTORY_PREVIEW_CHARS as nat).push('…')
    } else {
        source
    }
}

pub fn quote_history_preview(lines: &Vec<String>) -> (r: String)
    ensures
        r@ == quote_preview(text::texts(lines@)),
{
    let source = scan::join(lines, " / ");
    let mut preview = scan::take_chars(source.as_str(), quote::MAX_HISTORY_PREVIEW_CHARS);
    if text::char_len(source.as_str()) > quote::MAX_HISTORY_PREVIEW_CHARS {
        preview.push('…');
    }
    preview
}

/// What is kept of a quote is short, and stands on one line if the names in it do.
pub proof fn law_preview_is_short(lines: Seq<Seq<char>>)
    ensures
        quote_preview(lines).len() <= quote::MAX_HISTORY_PREVIEW_CHARS + 1,
        (forall|i: int| 0 <= i < lines.len() ==> !(#[trigger] lines[i]).contains('\n'))
            ==> !quote_preview(lines).contains('\n'),
{
    if forall|i: int| 0 <= i < lines.len() ==> !(#[trigger] lines[i]).contains('\n') {
        reveal_strlit(" / ");
        lemma_joined_without(lines, " / "@, '\n');
        let source = scan::joined(lines, " / "@);
        let p = quote_preview(lines);
        assert forall|i: int| 0 <= i < p.len() implies p[i] != '\n' by {
            if i < source.len() && i < quote::MAX_HISTORY_PREVIEW_CHARS {
                assert(p[i] == source[i]);
                assert(source.contains(source[i]));
            } else {
                assert(p[i] == '…');
            }
        }
    }
}

/// What a message says holds no line break and no other whitespace but single spaces.
pub proof fn law_preview_line_is_one_line(s: Seq<char>)
    ensures
        forall|i: int|
            0 <= i < preview_of(s).len() && text::is_space(#[trigger] preview_of(s)[i])
                ==> preview_of(s)[i] == ' ',
{
    let words = scan::words(s);
    let line = scan::joined(words, " "@);
    scan::lemma_words(s);
    reveal_strlit(" ");
    reveal_strlit("[媒体]");
    assert(" "@ =~= seq![' ']);
    lemma_joined_spaces(words);
}

proof fn lemma_joined_without(parts: Seq<Seq<char>>, sep: Seq<char>, c: char)
    requires
        forall|i: int| 0 <= i < parts.len() ==> !(#[trigger] parts[i]).contains(c),
        !sep.contains(c),
    ensures
        !scan::joined(parts, sep).contains(c),
    decreases parts.len(),
{
    let r = scan::joined(parts, sep);
    if parts.len() == 1 {
        assert(!parts[0].contains(c));
    } else if parts.len() > 1 {
        let head = parts.drop_last();
        assert forall|i: int| 0 <= i < head.len() implies !(#[trigger] head[i]).contains(c) by {
            assert(head[i] == parts[i]);
        }
        lemma_joined_without(head, sep, c);
        let h = scan::joined(head, sep);
        assert(!parts[parts.len() - 1].contains(c));
        assert forall|i: int| 0 <= i < r.len() implies r[i] != c by {
            if i < h.len() {
                assert(r[i] == h[i]);
                assert(h.contains(h[i]));
            } else if i < h.len() + sep.len() {
                assert(r[i] == sep[i - h.len()]);
                assert(sep.contains(sep[i - h.len()]));
            } else {
                let last = parts.last();
                assert(r[i] == last[i - h.len() - sep.len()]);
                assert(last.contains(last[i - h.len() - sep.len()]));
            }
        }
    }
}

proof fn lemma_joined_spaces(words: Seq<Seq<char>>)
    requires
        forall|i: int, j: int|
            0 <= i < words.len() && 0 <= j < words[i].len() ==> !text::is_space(
                #[trigger] words[i][j],
            ),
        " "@ == seq![' '],
    ensures
        forall|i: int|
            0 <= i < scan::joined(words, " "@).len() && text::is_space(
                #[trigger] scan::joined(words, " "@)[i],
            ) ==> scan::joined(words, " "@)[i] == ' ',
    decreases words.len(),
{
    let r = scan::joined(words, " "@);
    if words.len() == 1 {
        assert forall|i: int| 0 <= i < r.len() && text::is_space(#[trigger] r[i]) implies r[i]
            == ' ' by {
            assert(r[i] == words[0][i]);
        }
    } else if words.len() > 1 {
        let head = words.drop_last();
        assert forall|i: int, j: int|
            0 <= i < head.len() && 0 <= j < head[i].len() implies !text::is_space(
            #[trigger] head[i][j],
        ) by {
            assert(head[i][j] == words[i][j]);
        }
        lemma_joined_spaces(head);
        let h = scan::joined(head, " "@);
        assert forall|i: int| 0 <= i < r.len() && text::is_space(#[trigger] r[i]) implies r[i]
            == ' ' by {
            if i < h.len() {
                assert(r[i] == h[i]);
            } else if i > h.len() {
                assert(r[i] == words[words.len() - 1][i - h.len() - 1]);
            }
        }
    }
}

// ---------------------------------------------------------------------------------------------
// The archive
// ---------------------------------------------------------------------------------------------

/// What a command about the archive asks for.
#[derive(Clone, Copy, Debug, PartialEq, Eq, Structural)]
pub enum HistoryPlan {
    List,
    /// The quote with this number is sent again.
    Entry(i64),
}

pub open spec fn history_plan(args: Seq<Seq<char>>) -> Result<HistoryPlan, Seq<char>> {
    if args.len() == 0 {
        Ok(HistoryPlan::List)
    } else if args.len() != 1 {
        Err("用法：.q history [ID]"@)
    } else {
        match number::signed_value(args[0]) {
            Err(e) => Err(failure::because("存档 ID 必须是数字"@, e.wording())),
            Ok(id) => if id <= 0 {
                Err("存档 ID 必须大于 0"@)
            } else {
                Ok(HistoryPlan::Entry(id as i64))
            },
        }
    }
}

/// What a command about the archive asks for. `args` stand behind the word that says it is one.
pub fn plan_history(args: &[String]) -> (r: Result<HistoryPlan, Failure>)
    ensures
        failure::outcome(r) == history_plan(text::texts(args@)),
{
    if args.len() == 0 {
        return Ok(HistoryPlan::List);
    }
    if args.len() != 1 {
        return Err(Failure::new("用法：.q history [ID]"));
    }
    match number::read_signed(args[0].as_str()) {
        Err(e) => Err(Failure::caused("存档 ID 必须是数字", e.message().as_str())),
        Ok(id) => if id <= 0 {
            Err(Failure::new("存档 ID 必须大于 0"))
        } else {
            Ok(HistoryPlan::Entry(id))
        },
    }
}

/// What is answered where the archive has no quote with a number.
pub fn entry_not_found(id: i64) -> (r: Failure)
    ensures
        r@ == "未找到语录存档 #"@ + number::signed_decimal(id as int),
{
    let mut out = "未找到语录存档 #".to_owned();
    out.append(number::write_signed(id).as_str());
    Failure::of(out)
}

pub open spec fn entry_text(e: QuoteHistorySummary, output: QuoteOutput) -> Seq<char> {
    "#"@ + number::signed_decimal(e.id as int) + " · "@ + output.shown_name() + " · "@
        + quote::byte_size(e.byte_len as nat) + "\n"@ + e.preview@
}

/// The lines of a list of quotes; an error if it is not known of one what it is.
pub open spec fn entry_lines(entries: Seq<QuoteHistorySummary>) -> Result<
    Seq<Seq<char>>,
    Seq<char>,
>
    decreases entries.len(),
{
    if entries.len() == 0 {
        Ok(Seq::empty().push("🗂️ 最近的语录存档"@))
    } else {
        match entry_lines(entries.drop_last()) {
            Err(e) => Err(e),
            Ok(lines) => match quote::kind_of(entries.last().output@) {
                Err(e) => Err(e),
                Ok(output) => Ok(lines.push(entry_text(entries.last(), output))),
            },
        }
    }
}

/// A list of quotes.
pub open spec fn history_text(entries: Seq<QuoteHistorySummary>) -> Result<Seq<char>, Seq<char>> {
    if entries.len() == 0 {
        Ok("🗂️ 暂无语录存档。启用后，新生成的 `.q` 会自动保存。"@)
    } else {
        match entry_lines(entries) {
            Ok(lines) => Ok(
                scan::joined(lines.push("取回：.q history <ID>"@), "\n\n"@),
            ),
            Err(e) => Err(e),
        }
    }
}

fn entry_line(e: &QuoteHistorySummary, output: QuoteOutput) -> (r: String)
    ensures
        r@ == entry_text(*e, output),
{
    let mut out = "#".to_owned();
    out.append(number::write_signed(e.id).as_str());
    out.append(" · ");
    out.append(output.display_name());
    out.append(" · ");
    out.append(quote::format_byte_size(e.byte_len).as_str());
    out.append("\n");
    out.append(e.preview.as_str());
    out
}

/// A list of quotes, the newest first.
pub fn history_list(entries: &[QuoteHistorySummary]) -> (r: Result<String, Failure>)
    ensures
        failure::text_outcome(r) == history_text(entries@),
{
    let n: usize = entries.len();
    if n == 0 {
        return Ok("🗂️ 暂无语录存档。启用后，新生成的 `.q` 会自动保存。".to_owned());
    }
    let mut lines: Vec<String> = Vec::new();
    lines.push("🗂️ 最近的语录存档".to_owned());
    let mut i: usize = 0;
    proof {
        assert(entries@.take(0) =~= Seq::<QuoteHistorySummary>::empty());
        assert(text::texts(lines@) =~= Seq::empty().push("🗂️ 最近的语录存档"@));
    }
    while i < n
        invariant
            i <= n,
            n == entries@.len(),
            n > 0,
            entry_lines(entries@.take(i as int)) == Ok::<Seq<Seq<char>>, Seq<char>>(
                text::texts(lines@),
            ),
        decreases n - i,
    {
        proof {
            assert(entries@.take(i + 1).drop_last() =~= entries@.take(i as int));
        }
        match QuoteOutput::from_history_kind(entries[i].output.as_str()) {
            Err(e) => {
                proof {
                    lemma_bad_entry(entries@, i + 1);
                }
                return Err(e);
            },
            Ok(output) => {
                let line = entry_line(&entries[i], output);
                proof {
                    assert(text::texts(lines@.push(line)) =~= text::texts(lines@).push(line@));
                }
                lines.push(line);
            },
        }
        i = i + 1;
    }
    let last = "取回：.q history <ID>".to_owned();
    proof {
        assert(entries@.take(n as int) =~= entries@);
        assert(text::texts(lines@.push(last)) =~= text::texts(lines@).push(last@));
    }
    lines.push(last);
    Ok(scan::join(&lines, "\n\n"))
}

proof fn lemma_bad_entry(entries: Seq<QuoteHistorySummary>, i: int)
    requires
        0 <= i <= entries.len(),
        entry_lines(entries.take(i)) is Err,
    ensures
        entry_lines(entries) == entry_lines(entries.take(i)),
    decreases entries.len(),
{
    if i == entries.len() {
        assert(entries.take(i) =~= entries);
    } else {
        assert(entries.drop_last().take(i) =~= entries.take(i));
        lemma_bad_entry(entries.drop_last(), i);
    }
}

// ---------------------------------------------------------------------------------------------
// The settings
// ---------------------------------------------------------------------------------------------

/// What is said of the settings.
pub open spec fn settings_text(
    name: Seq<char>,
    enabled: bool,
    limit: nat,
    entries: nat,
    used: nat,
    max: nat,
) -> Seq<char> {
    "📋 语录配置\n\n贴纸包："@ + (if name.len() == 0 {
        "（未设置）"@
    } else {
        name
    }) + (if name.len() == 0 {
        Seq::empty()
    } else {
        "\n链接：https://t.me/addstickers/"@ + name
    }) + "\n存档："@ + (if enabled {
        "开启"@
    } else {
        "关闭"@
    }) + "\n存档数量："@ + number::decimal(entries) + "/"@ + number::decimal(limit)
        + "\n存档空间："@ + quote::byte_size(used) + "/"@ + quote::byte_size(max)
        + "\n\n设置贴纸包：.q config sticker <名称>\n开关存档：.q config history on|off\n存档上限：.q config history limit <1-500>"@
}

/// What all the quotes take together.
pub open spec fn used_bytes(entries: Seq<QuoteHistorySummary>) -> nat
    decreases entries.len(),
{
    if entries.len() == 0 {
        0
    } else {
        used_bytes(entries.drop_last()) + entries.last().byte_len as nat
    }
}

/// What is said of the settings. `entries` are the quotes in the archive.
pub fn quote_settings_text(
    name: &str,
    enabled: bool,
    limit: usize,
    entries: &[QuoteHistorySummary],
    max_bytes: usize,
) -> (r: String)
    requires
        used_bytes(entries@) <= usize::MAX,
    ensures
        r@ == settings_text(
            name@,
            enabled,
            limit as nat,
            entries@.len(),
            used_bytes(entries@),
            max_bytes as nat,
        ),
{
    let n: usize = entries.len();
    let mut used: usize = 0;
    let mut i: usize = 0;
    proof {
        assert(entries@.take(0) =~= Seq::<QuoteHistorySummary>::empty());
    }
    while i < n
        invariant
            i <= n,
            n == entries@.len(),
            used == used_bytes(entries@.take(i as int)),
            used_bytes(entries@) <= usize::MAX,
        decreases n - i,
    {
        proof {
            assert(entries@.take(i + 1).drop_last() =~= entries@.take(i as int));
            lemma_used_take(entries@, i + 1);
        }
        used = used + entries[i].byte_len;
        i = i + 1;
    }
    proof {
        assert(entries@.take(n as int) =~= entries@);
    }
    let unset = text::char_len(name) == 0;
    let mut link = String::new();
    if !unset {
        link = "\n链接：https://t.me/addstickers/".to_owned();
        link.append(name);
    }
    let mut out = "📋 语录配置\n\n贴纸包：".to_owned();
    out.append(
        if unset {
            "（未设置）"
        } else {
            name
        },
    );
    out.append(link.as_str());
    out.append("\n存档：");
    out.append(
        if enabled {
            "开启"
        } else {
            "关闭"
        },
    );
    out.append("\n存档数量：");
    out.append(number::write(n as u64).as_str());
    out.append("/");
    out.append(number::write(limit as u64).as_str());
    out.append("\n存档空间：");
    out.append(quote::format_byte_size(used).as_str());
    out.append("/");
    out.append(quote::format_byte_size(max_bytes).as_str());
    out.append("\n\n设置贴纸包：.q config sticker <名称>\n开关存档：.q config history on|off\n存档上限：.q config history limit <1-500>");
    out
}

proof fn lemma_used_take(entries: Seq<QuoteHistorySummary>, i: int)
    requires
        0 <= i <= entries.len(),
    ensures
        used_bytes(entries.take(i)) <= used_bytes(entries),
    decreases entries.len(),
{
    if i == entries.len() {
        assert(entries.take(i) =~= entries);
    } else {
        lemma_used_take(entries.drop_last(), i);
        assert(entries.drop_last().take(i) =~= entries.take(i));
    }
}

// ---------------------------------------------------------------------------------------------
// Sticker sets
// ---------------------------------------------------------------------------------------------

/// Accepts the name of the sticker set that stickers are saved to.
pub fn check_sticker_set(name: &str) -> (r: Result<(), Failure>)
    ensures
        failure::outcome(r) == if scan::blank(name@) {
            Err::<(), Seq<char>>("尚未配置贴纸包，请先使用 .q config sticker <名称>"@)
        } else {
            Ok(())
        },
{
    if scan::is_blank(name) {
        return Err(Failure::new("尚未配置贴纸包，请先使用 .q config sticker <名称>"));
    }
    Ok(())
}

/// Whether there is a sticker set, by what asking for it brought: an error that says otherwise than that
/// there is none is an error.
pub fn sticker_set_exists(asked: Result<(), String>) -> (r: Result<bool, Failure>)
    ensures
        failure::outcome(r) == match asked {
            Ok(()) => Ok::<bool, Seq<char>>(true),
            Err(e) => if scan::has(e@, "STICKERSET_INVALID"@) {
                Ok(false)
            } else {
                Err(e@)
            },
        },
{
    match asked {
        Ok(()) => Ok(true),
        Err(e) => if scan::contains(e.as_str(), "STICKERSET_INVALID") {
            Ok(false)
        } else {
            Err(Failure::of(e))
        },
    }
}

/// How a sticker for a set is got from a message.
#[derive(Clone, Copy, Debug, PartialEq, Eq, Structural)]
pub enum StickerSource {
    /// The sticker that hangs on it is taken as it is.
    Sticker,
    /// A sticker is made of the photo that hangs on it.
    Photo,
}

/// How a sticker for a set is got from a message, by what hangs on it.
pub fn sticker_source(media: &Option<MediaKind>) -> (r: Result<StickerSource, Failure>)
    ensures
        failure::outcome(r) == match *media {
            None => Err::<StickerSource, Seq<char>>("回复的消息不包含贴纸或图片"@),
            Some(MediaKind::Sticker(_)) => Ok(StickerSource::Sticker),
            Some(MediaKind::Photo) => Ok(StickerSource::Photo),
            Some(_) => Err("仅支持贴纸或图片"@),
        },
{
    match media {
        None => Err(Failure::new("回复的消息不包含贴纸或图片")),
        Some(MediaKind::Sticker(_)) => Ok(StickerSource::Sticker),
        Some(MediaKind::Photo) => Ok(StickerSource::Photo),
        Some(_) => Err(Failure::new("仅支持贴纸或图片")),
    }
}

/// What is answered when a sticker has been saved.
pub fn sticker_saved(existed: bool, name: &str) -> (r: String)
    ensures
        r@ == (if existed {
            "✅ 已添加到贴纸包\nhttps://t.me/addstickers/"@
        } else {
            "✅ 已创建贴纸包并添加首张贴纸\nhttps://t.me/addstickers/"@
        }) + name@,
{
    let mut out = if existed {
        "✅ 已添加到贴纸包\nhttps://t.me/addstickers/".to_owned()
    } else {
        "✅ 已创建贴纸包并添加首张贴纸\nhttps://t.me/addstickers/".to_owned()
    };
    out.append(name);
    out
}

// ---------------------------------------------------------------------------------------------
// Laws
// ---------------------------------------------------------------------------------------------

/// A preview is the words of a message with single spaces between them; a message without words is media.
pub proof fn law_preview_words(a: Seq<char>, b: Seq<char>, space: char)
    requires
        scan::solid(a),
        scan::solid(b),
        a.len() > 0,
        b.len() > 0,
        text::is_space(space),
    ensures
        preview_of(a) == a,
        preview_of(a.push(space) + b) == a + " "@ + b,
        preview_of(seq![space]) == "[媒体]"@,
        preview_of(Seq::empty()) == "[媒体]"@,
{
    let none = Seq::<char>::empty();
    scan::law_words(a, space, b);
    scan::law_words(b, space, none);
    scan::law_words(none, space, none);
    assert(none.push(space) + none =~= seq![space]);
    scan::law_joined(seq![a], seq![b], " "@, a);
    scan::law_joined(seq![b], seq![b], " "@, b);
    assert(seq![a] + seq![b] =~= words_of_two(a, b));
    assert(scan::words(seq![space]) =~= Seq::<Seq<char>>::empty());
}

spec fn words_of_two(a: Seq<char>, b: Seq<char>) -> Seq<Seq<char>> {
    seq![a, b]
}

/// The preview of a quote is the lines of its messages, with marks between them: all of it if it is short,
/// else its first 180 characters.
pub proof fn law_quote_preview(lines: Seq<Seq<char>>)
    ensures
        scan::joined(lines, " / "@).len() <= 180 ==> quote_preview(lines) == scan::joined(
            lines,
            " / "@,
        ),
        scan::joined(lines, " / "@).len() > 180 ==> quote_preview(lines) == scan::joined(
            lines,
            " / "@,
        ).take(180).push('…'),
{
}

/// Without an argument the archive is listed; a positive number asks for the quote with that number.
pub proof fn law_history_plan(n: nat, more: Seq<char>)
    requires
        n <= 0x7fff_ffff_ffff_ffff,
    ensures
        history_plan(Seq::empty()) == Ok::<HistoryPlan, Seq<char>>(HistoryPlan::List),
        n > 0 ==> history_plan(seq![number::decimal(n)]) == Ok::<HistoryPlan, Seq<char>>(
            HistoryPlan::Entry(n as i64),
        ),
        history_plan(seq![number::decimal(0)]) is Err,
        history_plan(seq![number::decimal(n), more]) is Err,
{
    number::law_decimal_round_trip(n, 0x7fff_ffff_ffff_ffff);
    number::law_decimal_round_trip(0, 0x7fff_ffff_ffff_ffff);
    number::lemma_decimal_leads(n);
    number::lemma_decimal_leads(0);
    assert(seq![number::decimal(n)][0] == number::decimal(n));
    assert(seq![number::decimal(0)][0] == number::decimal(0));
}

/// The list of the archive holds, for every quote in the order of the list, its number, its form, its size
/// and its preview.
pub proof fn law_archive_list(entries: Seq<QuoteHistorySummary>, i: int)
    requires
        0 <= i < entries.len(),
        forall|k: int|
            0 <= k < entries.len() ==> (#[trigger] entries[k]).output@ == "sticker"@
                || entries[k].output@ == "image"@ || entries[k].output@ == "stories"@,
    ensures
        entry_lines(entries) matches Ok(lines) && {
            let e = entries[i];
            let form = if e.output@ == "sticker"@ {
                "贴纸"@
            } else if e.output@ == "image"@ {
                "图片"@
            } else {
                "故事图"@
            };
            &&& lines.len() == entries.len() + 1
            &&& lines[i + 1] == "#"@ + number::signed_decimal(e.id as int) + " · "@ + form + " · "@
                + quote::byte_size(e.byte_len as nat) + "\n"@ + e.preview@
            &&& history_text(entries) == Ok::<Seq<char>, Seq<char>>(
                scan::joined(lines.push("取回：.q history <ID>"@), "\n\n"@),
            )
        },
    decreases entries.len(),
{
    reveal_strlit("sticker");
    reveal_strlit("image");
    reveal_strlit("stories");
    assert("sticker"@.len() != "image"@.len());
    assert("sticker"@[2] != "stories"@[2]);
    assert("image"@.len() != "stories"@.len());
    let before = entries.drop_last();
    assert forall|k: int| 0 <= k < before.len() implies (#[trigger] before[k]).output@ == "sticker"@
        || before[k].output@ == "image"@ || before[k].output@ == "stories"@ by {
        assert(before[k] == entries[k]);
    }
    assert(entries[entries.len() - 1] == entries.last());
    if before.len() > 0 {
        law_archive_list(before, if i < before.len() {
            i
        } else {
            0
        });
    } else {
        assert(entry_lines(before) == Ok::<Seq<Seq<char>>, Seq<char>>(
            Seq::empty().push("🗂️ 最近的语录存档"@),
        ));
    }
}

/// The bytes of archived quotes add up.
pub proof fn law_used_bytes(entries: Seq<QuoteHistorySummary>, e: QuoteHistorySummary)
    ensures
        used_bytes(Seq::empty()) == 0,
        used_bytes(entries.push(e)) == used_bytes(entries) + e.byte_len,
{
    assert(entries.push(e).drop_last() =~= entries);
}

/// The settings of quotes are shown as they are: the sticker set and its link, whether quotes are archived,
/// how many there are and may be, and how much room they take.
pub proof fn law_settings_shown(
    name: Seq<char>,
    limit: nat,
    entries: nat,
    used: nat,
    max: nat,
)
    requires
        name.len() > 0,
    ensures
        scan::starts(
            settings_text(name, true, limit, entries, used, max),
            "📋 语录配置\n\n贴纸包："@ + name + ("\n链接：https://t.me/addstickers/"@ + name)
                + "\n存档："@ + "开启"@ + "\n存档数量："@ + number::decimal(entries) + "/"@
                + number::decimal(limit) + "\n存档空间："@ + quote::byte_size(used) + "/"@
                + quote::byte_size(max),
        ),
        scan::starts(
            settings_text(Seq::empty(), false, limit, entries, used, max),
            "📋 语录配置\n\n贴纸包："@ + "（未设置）"@ + "\n存档："@ + "关闭"@,
        ),
{
    let a = settings_text(name, true, limit, entries, used, max);
    let p = "📋 语录配置\n\n贴纸包："@ + name + ("\n链接：https://t.me/addstickers/"@ + name)
        + "\n存档："@ + "开启"@ + "\n存档数量："@ + number::decimal(entries) + "/"@
        + number::decimal(limit) + "\n存档空间："@ + quote::byte_size(used) + "/"@
        + quote::byte_size(max);
    assert(a.subrange(0, p.len() as int) =~= p);
    let b = settings_text(Seq::empty(), false, limit, entries, used, max);
    let q = "📋 语录配置\n\n贴纸包："@ + "（未设置）"@ + "\n存档："@ + "关闭"@;
    assert(b.subrange(0, q.len() as int) =~= q);
}

} // verus!
