//! Messages as they go out to Telegram: chunks of text with the entities that lie in each.

use crate::rich;
use crate::rich::RichEntity;
use crate::rich::RichEntityKind;
use crate::rich::RichText;
use crate::scan;
use crate::split;
use crate::split::TextRange;
use crate::text;
use vstd::prelude::*;

verus! {

/// What a message entity is. The parameter is the type of the texts in it.
#[derive(Debug, PartialEq, Eq)]
pub enum EntityStyle<S> {
    Bold,
    Italic,
    Underline,
    Strike,
    Code,
    Pre(S),
    Url,
    Mention,
    Hashtag,
    Cashtag,
    BotCommand,
    Email,
    Phone,
    Spoiler,
    TextUrl(S),
    /// A custom emoji, by the number of its document.
    CustomEmoji(i64),
    /// A user without a public name, by their number.
    MentionName(i64),
    Blockquote { collapsed: bool },
    /// A kind of entity that is of no use here.
    Other,
}

/// An entity of a Telegram message, in UTF-16 code units.
#[derive(Debug, PartialEq, Eq)]
pub struct MessageEntity {
    pub style: EntityStyle<String>,
    pub offset: i32,
    pub length: i32,
}

/// A message to send, or to put in the place of another.
#[derive(Debug, PartialEq, Eq)]
pub struct OutgoingMessage {
    pub text: String,
    pub entities: Vec<MessageEntity>,
    pub link_preview: bool,
    pub reply_to: Option<i32>,
}

#[verifier::ext_equal]
pub struct EntityModel {
    pub style: EntityStyle<Seq<char>>,
    pub offset: int,
    pub length: int,
}

#[verifier::ext_equal]
pub struct OutgoingModel {
    pub text: Seq<char>,
    pub entities: Seq<EntityModel>,
    pub link_preview: bool,
    pub reply_to: Option<i32>,
}

impl View for EntityStyle<String> {
    type V = EntityStyle<Seq<char>>;

    open spec fn view(&self) -> EntityStyle<Seq<char>> {
        match *self {
            EntityStyle::Bold => EntityStyle::Bold,
            EntityStyle::Italic => EntityStyle::Italic,
            EntityStyle::Underline => EntityStyle::Underline,
            EntityStyle::Strike => EntityStyle::Strike,
            EntityStyle::Code => EntityStyle::Code,
            EntityStyle::Pre(language) => EntityStyle::Pre(language@),
            EntityStyle::Url => EntityStyle::Url,
            EntityStyle::Mention => EntityStyle::Mention,
            EntityStyle::Hashtag => EntityStyle::Hashtag,
            EntityStyle::Cashtag => EntityStyle::Cashtag,
            EntityStyle::BotCommand => EntityStyle::BotCommand,
            EntityStyle::Email => EntityStyle::Email,
            EntityStyle::Phone => EntityStyle::Phone,
            EntityStyle::Spoiler => EntityStyle::Spoiler,
            EntityStyle::TextUrl(url) => EntityStyle::TextUrl(url@),
            EntityStyle::CustomEmoji(id) => EntityStyle::CustomEmoji(id),
            EntityStyle::MentionName(id) => EntityStyle::MentionName(id),
            EntityStyle::Blockquote { collapsed } => EntityStyle::Blockquote { collapsed },
            EntityStyle::Other => EntityStyle::Other,
        }
    }
}

impl View for MessageEntity {
    type V = EntityModel;

    open spec fn view(&self) -> EntityModel {
        EntityModel {
            style: self.style@,
            offset: self.offset as int,
            length: self.length as int,
        }
    }
}

pub open spec fn entities_of(v: Seq<MessageEntity>) -> Seq<EntityModel> {
    Seq::new(v.len(), |i: int| v[i]@)
}

impl View for OutgoingMessage {
    type V = OutgoingModel;

    open spec fn view(&self) -> OutgoingModel {
        OutgoingModel {
            text: self.text@,
            entities: entities_of(self.entities@),
            link_preview: self.link_preview,
            reply_to: self.reply_to,
        }
    }
}

pub open spec fn style_of(kind: RichEntityKind<Seq<char>>) -> EntityStyle<Seq<char>> {
    match kind {
        RichEntityKind::Bold => EntityStyle::Bold,
        RichEntityKind::Italic => EntityStyle::Italic,
        RichEntityKind::Strike => EntityStyle::Strike,
        RichEntityKind::Code => EntityStyle::Code,
        RichEntityKind::Pre(language) => EntityStyle::Pre(language),
        RichEntityKind::TextUrl(url) => EntityStyle::TextUrl(url),
        RichEntityKind::Blockquote { collapsed } => EntityStyle::Blockquote { collapsed },
    }
}

pub open spec fn at_least(a: nat, b: nat) -> nat {
    if a >= b {
        a
    } else {
        b
    }
}

pub open spec fn at_most(a: nat, b: nat) -> nat {
    if a <= b {
        a
    } else {
        b
    }
}

/// The part of an entity that lies in the chunk from `from` up to `to`, counted from the beginning of
/// the chunk; none where nothing of it does, or where a number is too large for Telegram.
pub open spec fn clipped(m: rich::Mark, from: nat, to: nat) -> Option<EntityModel> {
    let start = at_least(m.offset, from);
    let end = at_most(m.offset + m.length, to);
    if start >= end || start - from > i32::MAX || end - start > i32::MAX {
        None
    } else {
        Some(EntityModel { style: style_of(m.kind), offset: start - from, length: end - start })
    }
}

pub open spec fn clipped_marks(marks: Seq<rich::Mark>, from: nat, to: nat) -> Seq<EntityModel>
    decreases marks.len(),
{
    if marks.len() == 0 {
        Seq::empty()
    } else {
        let before = clipped_marks(marks.drop_last(), from, to);
        match clipped(marks.last(), from, to) {
            Some(e) => before.push(e),
            None => before,
        }
    }
}

/// The message that holds the characters of a rich text from `start` up to `end`.
pub open spec fn chunk_message(
    r: rich::RichModel,
    start: int,
    end: int,
    reply_to: Option<i32>,
) -> OutgoingModel {
    OutgoingModel {
        text: r.text.subrange(start, end),
        entities: clipped_marks(
            r.marks,
            text::utf16_len(r.text.take(start)),
            text::utf16_len(r.text.take(end)),
        ),
        link_preview: false,
        reply_to,
    }
}

/// The messages that a rich text becomes: the first takes the place of the command, the others
/// answer it.
pub open spec fn rich_message_list(r: rich::RichModel, command: i32) -> Seq<OutgoingModel> {
    let p = split::pieces(r.text, split::TELEGRAM_RICH_TEXT_LIMIT as nat);
    Seq::new(
        p.len(),
        |i: int|
            chunk_message(
                r,
                p[i].0,
                p[i].1,
                if i == 0 {
                    None
                } else {
                    Some(command)
                },
            ),
    )
}

/// The chunks that a plain response becomes. There is always one.
pub open spec fn response_list(s: Seq<char>) -> Seq<Seq<char>> {
    let chunks = split::plain_chunks(s, split::TELEGRAM_TEXT_LIMIT as nat);
    if chunks.len() == 0 {
        seq!["(empty response)"@]
    } else {
        chunks
    }
}

// ---------------------------------------------------------------------------------------------
// Proofs
// ---------------------------------------------------------------------------------------------

proof fn lemma_boundary_part(s: Seq<char>, a: int, b: int, p: nat)
    requires
        0 <= a <= b <= s.len(),
        rich::boundary(s, p),
        text::utf16_len(s.take(a)) <= p <= text::utf16_len(s.take(b)),
    ensures
        rich::boundary(s.subrange(a, b), (p - text::utf16_len(s.take(a))) as nat),
{
    let k = choose|k: int| 0 <= k <= s.len() && p == #[trigger] text::utf16_len(s.take(k));
    if k < a {
        text::lemma_utf16_mono(s, k, a);
    }
    if k > b {
        text::lemma_utf16_mono(s, b, k);
    }
    text::lemma_utf16_mono(s, a, k);
    assert(s.subrange(a, b).take(k - a) =~= s.subrange(a, k));
}

/// An entity of a chunk lies inside the chunk, begins and ends between characters of it, and covers
/// exactly what the entity of the whole text covers of it.
pub proof fn law_clipping(s: Seq<char>, m: rich::Mark, a: int, b: int)
    requires
        0 <= a <= b <= s.len(),
        m.aligned(s),
        text::utf16_len(s.subrange(a, b)) <= i32::MAX,
    ensures
        match clipped(m, text::utf16_len(s.take(a)), text::utf16_len(s.take(b))) {
            Some(e) => {
                &&& e.style == style_of(m.kind)
                &&& e.offset >= 0
                &&& e.length > 0
                &&& e.offset + e.length <= text::utf16_len(s.subrange(a, b))
                &&& rich::boundary(s.subrange(a, b), e.offset as nat)
                &&& rich::boundary(s.subrange(a, b), (e.offset + e.length) as nat)
                &&& forall|p: int|
                    text::utf16_len(s.take(a)) <= p < text::utf16_len(s.take(b)) ==> (
                    #[trigger] covers(m, p) <==> e.offset <= p - text::utf16_len(s.take(a))
                        < e.offset + e.length)
            },
            None => forall|p: int|
                text::utf16_len(s.take(a)) <= p < text::utf16_len(s.take(b)) ==> !#[trigger] covers(
                    m,
                    p,
                ),
        },
{
    let from = text::utf16_len(s.take(a));
    let to = text::utf16_len(s.take(b));
    text::lemma_utf16_mono(s, a, b);
    let start = at_least(m.offset, from);
    let end = at_most(m.offset + m.length, to);
    if start < end {
        rich::lemma_boundary_ends(s.subrange(a, b));
        if m.offset >= from {
            lemma_boundary_part(s, a, b, m.offset);
        }
        if m.offset + m.length <= to {
            lemma_boundary_part(s, a, b, m.offset + m.length);
        }
    }
}

/// Whether an entity covers the code unit at a position.
pub open spec fn covers(m: rich::Mark, p: int) -> bool {
    m.offset <= p < m.offset + m.length
}

proof fn lemma_clipped_inside(marks: Seq<rich::Mark>, s: Seq<char>, a: int, b: int)
    requires
        0 <= a <= b <= s.len(),
        forall|i: int| 0 <= i < marks.len() ==> (#[trigger] marks[i]).aligned(s),
        text::utf16_len(s.subrange(a, b)) <= i32::MAX,
    ensures
        forall|i: int|
            0 <= i < clipped_marks(
                marks,
                text::utf16_len(s.take(a)),
                text::utf16_len(s.take(b)),
            ).len() ==> inside(
                #[trigger] clipped_marks(
                    marks,
                    text::utf16_len(s.take(a)),
                    text::utf16_len(s.take(b)),
                )[i],
                s.subrange(a, b),
            ),
    decreases marks.len(),
{
    if marks.len() > 0 {
        let from = text::utf16_len(s.take(a));
        let to = text::utf16_len(s.take(b));
        assert forall|i: int| 0 <= i < marks.drop_last().len() implies (
        #[trigger] marks.drop_last()[i]).aligned(s) by {
            assert(marks.drop_last()[i] == marks[i]);
        }
        lemma_clipped_inside(marks.drop_last(), s, a, b);
        assert(marks[marks.len() - 1].aligned(s));
        law_clipping(s, marks.last(), a, b);
        let c = clipped_marks(marks, from, to);
        let before = clipped_marks(marks.drop_last(), from, to);
        assert forall|i: int| 0 <= i < c.len() implies inside(#[trigger] c[i], s.subrange(a, b)) by {
            if i < before.len() {
                assert(c[i] == before[i]);
            }
        }
    }
}

/// An entity that begins and ends between characters of a text and covers something of it.
pub open spec fn inside(e: EntityModel, s: Seq<char>) -> bool {
    &&& e.offset >= 0
    &&& e.length > 0
    &&& e.offset + e.length <= text::utf16_len(s)
    &&& rich::boundary(s, e.offset as nat)
    &&& rich::boundary(s, (e.offset + e.length) as nat)
}

/// The messages of a rich text hold all of it, in order; each fits into the limit, and every entity
/// of each begins and ends between characters of that message.
pub proof fn law_rich_messages(r: rich::RichModel, command: i32)
    requires
        r.sound(),
    ensures
        rich_message_list(r, command).len() > 0,
        split::concatenated(message_texts(rich_message_list(r, command))) == r.text,
        forall|i: int|
            0 <= i < rich_message_list(r, command).len() ==> text::utf16_len(
                (#[trigger] rich_message_list(r, command)[i]).text,
            ) <= split::TELEGRAM_RICH_TEXT_LIMIT,
        forall|i: int, j: int|
            0 <= i < rich_message_list(r, command).len() && 0 <= j < rich_message_list(
                r,
                command,
            )[i].entities.len() ==> inside(
                #[trigger] rich_message_list(r, command)[i].entities[j],
                rich_message_list(r, command)[i].text,
            ),
{
    let max = split::TELEGRAM_RICH_TEXT_LIMIT as nat;
    lemma_limit_splits(r.text, max);
    split::law_pieces_tile(r.text, max);
    let p = split::pieces(r.text, max);
    let list = rich_message_list(r, command);
    lemma_pieces_concatenated(r.text, p, max, 0);
    let parts = Seq::new(p.len(), |i: int| r.text.subrange(p[i].0, p[i].1));
    assert(message_texts(list) =~= parts);
    assert(r.text.subrange(0, r.text.len() as int) =~= r.text);
    assert forall|i: int, j: int|
        0 <= i < list.len() && 0 <= j < list[i].entities.len() implies inside(
        #[trigger] list[i].entities[j],
        list[i].text,
    ) by {
        assert(0 <= p[i].0 <= p[i].1 <= r.text.len());
        assert forall|k: int| 0 <= k < r.marks.len() implies (#[trigger] r.marks[k]).aligned(
            r.text,
        ) by {}
        lemma_clipped_inside(r.marks, r.text, p[i].0, p[i].1);
    }
}

pub open spec fn message_texts(list: Seq<OutgoingModel>) -> Seq<Seq<char>> {
    Seq::new(list.len(), |i: int| list[i].text)
}

proof fn lemma_pieces_concatenated(s: Seq<char>, p: Seq<(int, int)>, max: nat, start: int)
    requires
        0 <= start,
        split::tiles(p, s, max, start),
    ensures
        split::concatenated(Seq::new(p.len(), |i: int| s.subrange(p[i].0, p[i].1))) == s.subrange(
            start,
            s.len() as int,
        ),
    decreases p.len(),
{
    let parts = Seq::new(p.len(), |i: int| s.subrange(p[i].0, p[i].1));
    if p.len() == 1 {
        assert(parts.skip(1) =~= Seq::<Seq<char>>::empty());
        assert(split::concatenated(parts.skip(1)) =~= Seq::<char>::empty());
        assert(parts[0] + Seq::<char>::empty() =~= parts[0]);
        assert(p.last() == p[0]);
    } else {
        let q = p.skip(1);
        assert(q[0] == p[1]);
        assert(p[0].1 == p[1].0);
        assert forall|i: int| 0 <= i < q.len() implies p[0].1 <= (#[trigger] q[i]).0 by {
            lemma_tiles_order(p, s, max, start, i + 1);
        }
        assert forall|i: int| 0 <= i < q.len() - 1 implies (#[trigger] q[i]).1 == q[i + 1].0 by {
            assert(q[i] == p[i + 1]);
            assert(p[i + 1].1 == p[i + 1 + 1].0);
        }
        assert(split::tiles(q, s, max, p[0].1));
        lemma_pieces_concatenated(s, q, max, p[0].1);
        assert(parts.skip(1) =~= Seq::new(q.len(), |i: int| s.subrange(q[i].0, q[i].1)));
        assert(s.subrange(start, s.len() as int) =~= s.subrange(start, p[0].1) + s.subrange(
            p[0].1,
            s.len() as int,
        ));
    }
}

proof fn lemma_tiles_order(p: Seq<(int, int)>, s: Seq<char>, max: nat, start: int, i: int)
    requires
        split::tiles(p, s, max, start),
        1 <= i < p.len(),
    ensures
        p[0].1 <= p[i].0,
    decreases i,
{
    if i == 1 {
        assert(p[0].1 == p[1].0);
    } else {
        lemma_tiles_order(p, s, max, start, i - 1);
        assert(p[i - 1].1 == p[i - 1 + 1].0);
        assert(p[i - 1].0 <= p[i - 1].1);
    }
}

/// A limit of at least two code units takes every character.
pub proof fn lemma_limit_splits(s: Seq<char>, max: nat)
    requires
        max >= 2,
    ensures
        split::rich_splits(s, max),
        split::plain_splits(s, max),
{
    assert(split::each_fits(s, max));
}

pub proof fn lemma_entities_push(v: Seq<MessageEntity>, e: MessageEntity)
    ensures
        entities_of(v.push(e)) == entities_of(v).push(e@),
{
    assert(entities_of(v.push(e)) =~= entities_of(v).push(e@));
}

// ---------------------------------------------------------------------------------------------
// Making the messages
// ---------------------------------------------------------------------------------------------

fn style(kind: &RichEntityKind<String>) -> (r: EntityStyle<String>)
    ensures
        r@ == style_of(kind@),
{
    match kind {
        RichEntityKind::Bold => EntityStyle::Bold,
        RichEntityKind::Italic => EntityStyle::Italic,
        RichEntityKind::Strike => EntityStyle::Strike,
        RichEntityKind::Code => EntityStyle::Code,
        RichEntityKind::Pre(language) => EntityStyle::Pre(language.clone()),
        RichEntityKind::TextUrl(url) => EntityStyle::TextUrl(url.clone()),
        RichEntityKind::Blockquote { collapsed } => EntityStyle::Blockquote {
            collapsed: *collapsed,
        },
    }
}

/// The entities of the part of a rich text that a range stands for.
pub fn entities_for_range(rich: &RichText, range: TextRange) -> (r: Vec<MessageEntity>)
    requires
        rich@.bounded(),
    ensures
        entities_of(r@) == clipped_marks(
            rich@.marks,
            range.utf16_start as nat,
            range.utf16_end as nat,
        ),
{
    let _whole: usize = rich.offset();
    let ghost from = range.utf16_start as nat;
    let ghost to = range.utf16_end as nat;
    let mut out: Vec<MessageEntity> = Vec::new();
    let n: usize = rich.entities.len();
    let mut i: usize = 0;
    proof {
        assert(entities_of(out@) =~= Seq::<EntityModel>::empty());
        assert(rich@.marks.take(0) =~= Seq::<rich::Mark>::empty());
    }
    while i < n
        invariant
            i <= n,
            n == rich.entities@.len(),
            rich@.bounded(),
            rich@.len16() <= usize::MAX,
            from == range.utf16_start,
            to == range.utf16_end,
            entities_of(out@) == clipped_marks(rich@.marks.take(i as int), from, to),
        decreases n - i,
    {
        let entity: &RichEntity = &rich.entities[i];
        proof {
            assert(rich@.marks[i as int] == entity@);
            let upto = rich@.marks.take(i + 1);
            assert(upto.drop_last() =~= rich@.marks.take(i as int));
            assert(upto.last() == entity@);
        }
        let start: usize = if entity.offset >= range.utf16_start {
            entity.offset
        } else {
            range.utf16_start
        };
        let stop: usize = entity.offset + entity.length;
        let end: usize = if stop <= range.utf16_end {
            stop
        } else {
            range.utf16_end
        };
        if start < end && start - range.utf16_start <= 0x7fff_ffff && end - start <= 0x7fff_ffff {
            let made = MessageEntity {
                style: style(&entity.kind),
                offset: (start - range.utf16_start) as i32,
                length: (end - start) as i32,
            };
            proof {
                assert(Some(made@) == clipped(entity@, from, to));
                lemma_entities_push(out@, made);
            }
            out.push(made);
        } else {
            proof {
                assert(clipped(entity@, from, to) is None);
            }
        }
        i = i + 1;
    }
    proof {
        assert(rich@.marks.take(n as int) =~= rich@.marks);
    }
    out
}

/// The text that a range stands for.
pub fn range_text(s: &str, range: TextRange) -> (r: String)
    requires
        exists|a: int, b: int|
            0 <= a <= b <= s@.len() && #[trigger] split::stands_for(range, s@, a, b),
    ensures
        forall|a: int, b: int|
            0 <= a <= b <= s@.len() && #[trigger] split::stands_for(range, s@, a, b) ==> r@
                == s@.subrange(a, b),
{
    let v = text::chars(s);
    let a: usize = char_index(&v, range.byte_start);
    let b: usize = char_index(&v, range.byte_end);
    proof {
        let (x, y) = choose|x: int, y: int|
            0 <= x <= y <= s@.len() && #[trigger] split::stands_for(range, s@, x, y);
        lemma_index_unique(s@, a as int, x);
        lemma_index_unique(s@, b as int, y);
        assert forall|c: int, d: int|
            0 <= c <= d <= s@.len() && #[trigger] split::stands_for(range, s@, c, d) implies s@.subrange(
        a as int, b as int) == s@.subrange(c, d) by {
            lemma_index_unique(s@, a as int, c);
            lemma_index_unique(s@, b as int, d);
        }
    }
    text::slice(&v, a, b)
}

proof fn lemma_index_unique(s: Seq<char>, a: int, b: int)
    requires
        0 <= a <= s.len(),
        0 <= b <= s.len(),
        text::utf8_len(s.take(a)) == text::utf8_len(s.take(b)),
    ensures
        a == b,
{
    if a < b {
        text::lemma_utf16_mono(s, a, b);
    } else if b < a {
        text::lemma_utf16_mono(s, b, a);
    }
}

/// How many characters stand before a position in UTF-8.
fn char_index(v: &Vec<char>, bytes: usize) -> (k: usize)
    requires
        exists|a: int|
            0 <= a <= v@.len() && bytes == #[trigger] text::utf8_len(v@.take(a)),
    ensures
        k <= v@.len(),
        text::utf8_len(v@.take(k as int)) == bytes,
{
    let ghost a = choose|a: int|
        0 <= a <= v@.len() && bytes == #[trigger] text::utf8_len(v@.take(a));
    let n: usize = v.len();
    let mut k: usize = 0;
    let mut seen: usize = 0;
    proof {
        assert(v@.take(0) =~= Seq::<char>::empty());
    }
    while seen < bytes
        invariant
            0 <= k <= a <= n,
            n == v@.len(),
            bytes == text::utf8_len(v@.take(a)),
            seen == text::utf8_len(v@.take(k as int)),
            seen <= bytes,
        decreases a - k,
    {
        proof {
            if k == a {
                assert(false);
            }
            assert(v@.take(k + 1) =~= v@.take(k as int).push(v@[k as int]));
            text::lemma_utf16_push(v@.take(k as int), v@[k as int]);
            text::lemma_utf16_mono(v@, k + 1, a);
        }
        seen = seen + text::char_utf8(v[k]);
        k = k + 1;
    }
    k
}

fn chunk(rich: &RichText, range: TextRange, reply_to: Option<i32>) -> (r: OutgoingMessage)
    requires
        rich@.bounded(),
        exists|a: int, b: int|
            0 <= a <= b <= rich@.text.len() && #[trigger] split::stands_for(range, rich@.text, a, b),
    ensures
        forall|a: int, b: int|
            0 <= a <= b <= rich@.text.len() && #[trigger] split::stands_for(range, rich@.text, a, b)
                ==> r@ == chunk_message(rich@, a, b, reply_to),
{
    OutgoingMessage {
        text: range_text(rich.text.as_str(), range),
        entities: entities_for_range(rich, range),
        link_preview: false,
        reply_to,
    }
}

/// The messages that a rich text becomes when it answers `command`.
pub fn rich_messages(rich: &RichText, command: i32) -> (r: Vec<OutgoingMessage>)
    requires
        rich@.bounded(),
    ensures
        r@.len() > 0,
        Seq::new(r@.len(), |i: int| r@[i]@) == rich_message_list(rich@, command),
{
    proof {
        lemma_limit_splits(rich@.text, split::TELEGRAM_RICH_TEXT_LIMIT as nat);
    }
    let ghost p = split::pieces(rich@.text, split::TELEGRAM_RICH_TEXT_LIMIT as nat);
    let ranges = split::split_telegram_ranges(
        rich.text.as_str(),
        split::TELEGRAM_RICH_TEXT_LIMIT,
    );
    let mut out: Vec<OutgoingMessage> = Vec::new();
    let n: usize = ranges.len();
    let mut i: usize = 0;
    while i < n
        invariant
            i <= n,
            n == ranges@.len(),
            n == p.len(),
            rich@.bounded(),
            split::tiles(p, rich@.text, split::TELEGRAM_RICH_TEXT_LIMIT as nat, 0),
            p == split::pieces(rich@.text, split::TELEGRAM_RICH_TEXT_LIMIT as nat),
            forall|j: int|
                0 <= j < n ==> split::stands_for(
                    #[trigger] ranges@[j],
                    rich@.text,
                    p[j].0,
                    p[j].1,
                ),
            out@.len() == i,
            forall|j: int|
                0 <= j < i ==> (#[trigger] out@[j])@ == rich_message_list(rich@, command)[j],
        decreases n - i,
    {
        let reply_to = if i == 0 {
            None
        } else {
            Some(command)
        };
        proof {
            assert(split::stands_for(ranges@[i as int], rich@.text, p[i as int].0, p[i as int].1));
        }
        let made = chunk(rich, ranges[i], reply_to);
        out.push(made);
        i = i + 1;
    }
    proof {
        assert(Seq::new(out@.len(), |i: int| out@[i]@) =~= rich_message_list(rich@, command));
    }
    out
}

impl RichText {
    /// The message with as much of the rich text as fits into one.
    pub fn input_message(&self) -> (r: OutgoingMessage)
        requires
            self@.bounded(),
        ensures
            r@ == rich_message_list(self@, 0)[0],
    {
        proof {
            lemma_limit_splits(self@.text, split::TELEGRAM_RICH_TEXT_LIMIT as nat);
        }
        let ranges = split::split_telegram_ranges(
            self.text.as_str(),
            split::TELEGRAM_RICH_TEXT_LIMIT,
        );
        proof {
            let p = split::pieces(self@.text, split::TELEGRAM_RICH_TEXT_LIMIT as nat);
            assert(split::stands_for(ranges@[0], self@.text, p[0].0, p[0].1));
        }
        chunk(self, ranges[0], None)
    }
}

/// The chunks that a plain response becomes. The first takes the place of the command.
pub fn response_chunks(s: &str) -> (r: Vec<String>)
    ensures
        r@.len() > 0,
        text::texts(r@) == response_list(s@),
{
    proof {
        lemma_limit_splits(s@, split::TELEGRAM_TEXT_LIMIT as nat);
    }
    let mut chunks = split::split_telegram_text(s, split::TELEGRAM_TEXT_LIMIT);
    proof {
        assert(text::texts(chunks@).len() == chunks@.len());
    }
    if chunks.len() == 0 {
        chunks.push("(empty response)".to_owned());
        proof {
            assert(text::texts(chunks@) =~= seq!["(empty response)"@]);
        }
    }
    chunks
}

/// Whether an error says that a message already reads as it should.
pub fn is_message_not_modified(error: &str) -> (r: bool)
    ensures
        r == scan::has(error@, "MESSAGE_NOT_MODIFIED"@),
{
    scan::contains(error, "MESSAGE_NOT_MODIFIED")
}

// ---------------------------------------------------------------------------------------------
// Laws of single messages
// ---------------------------------------------------------------------------------------------

/// A formatted text that fits goes out as one message, whole. It answers nothing, and shows no preview.
pub proof fn law_whole_message(r: rich::RichModel, command: i32)
    requires
        text::utf16_len(r.text) <= 3800,
    ensures
        rich_message_list(r, command).len() == 1,
        rich_message_list(r, command)[0].text == r.text,
        rich_message_list(r, command)[0].entities == clipped_marks(
            r.marks,
            0,
            text::utf16_len(r.text),
        ),
        !rich_message_list(r, command)[0].link_preview,
        rich_message_list(r, command)[0].reply_to is None,
{
    split::law_short_text(r.text, 3800);
    let p = split::pieces(r.text, 3800);
    assert(p.len() == 1 && p[0] == (0int, r.text.len() as int));
    assert(r.text.subrange(0, r.text.len() as int) =~= r.text);
    assert(r.text.take(r.text.len() as int) =~= r.text);
    assert(r.text.take(0) =~= Seq::<char>::empty());
}

/// The first message stands for itself; each further one answers the command. None shows a preview.
pub proof fn law_answered_command(r: rich::RichModel, command: i32, i: int)
    requires
        0 <= i < rich_message_list(r, command).len(),
    ensures
        !rich_message_list(r, command)[i].link_preview,
        i == 0 ==> rich_message_list(r, command)[i].reply_to is None,
        i > 0 ==> rich_message_list(r, command)[i].reply_to == Some(command),
{
}

/// Each mark of the text is seen in the part that it lies in, measured from the start of the part; one that
/// reaches over an edge of the part is seen up to the edge, and one that lies outside is not seen.
pub proof fn law_seen_marks(marks: Seq<rich::Mark>, m: rich::Mark, from: nat, to: nat)
    requires
        from <= to,
        to - from <= 0x7fff_ffff,
        m.length > 0,
    ensures
        ({
            let before = clipped_marks(marks, from, to);
            let after = clipped_marks(marks.push(m), from, to);
            &&& from <= m.offset && m.offset + m.length <= to ==> after == before.push(
                EntityModel {
                    style: style_of(m.kind),
                    offset: m.offset - from,
                    length: m.length as int,
                },
            )
            &&& m.offset < from < m.offset + m.length <= to ==> after == before.push(
                EntityModel {
                    style: style_of(m.kind),
                    offset: 0,
                    length: m.offset + m.length - from,
                },
            )
            &&& from <= m.offset < to < m.offset + m.length ==> after == before.push(
                EntityModel {
                    style: style_of(m.kind),
                    offset: m.offset - from,
                    length: to - m.offset,
                },
            )
            &&& m.offset + m.length <= from || m.offset >= to ==> after == before
        }),
        clipped_marks(Seq::empty(), from, to) == Seq::<EntityModel>::empty(),
{
    assert(marks.push(m).drop_last() =~= marks);
}

/// How each kind of formatting is sent.
pub proof fn law_styles(language: Seq<char>, url: Seq<char>, collapsed: bool)
    ensures
        style_of(RichEntityKind::Bold) == EntityStyle::<Seq<char>>::Bold,
        style_of(RichEntityKind::Italic) == EntityStyle::<Seq<char>>::Italic,
        style_of(RichEntityKind::Strike) == EntityStyle::<Seq<char>>::Strike,
        style_of(RichEntityKind::Code) == EntityStyle::<Seq<char>>::Code,
        style_of(RichEntityKind::Pre(language)) == EntityStyle::Pre(language),
        style_of(RichEntityKind::TextUrl(url)) == EntityStyle::TextUrl(url),
        style_of(RichEntityKind::Blockquote { collapsed }) == (EntityStyle::<
            Seq<char>,
        >::Blockquote { collapsed }),
{
}

/// A plain answer that fits is sent as it is.
pub proof fn law_short_response(s: Seq<char>)
    requires
        text::utf16_len(s) <= 3900,
    ensures
        response_list(s) == seq![s],
{
    split::law_short_text(s, 3900);
}

} // verus!
