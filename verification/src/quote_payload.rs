//! What the renderer of quotes is sent.

use crate::ai_request;
use crate::base_url;
use crate::failure::Failure;
use crate::json;
use crate::json::Json;
use crate::json::JsonView;
use crate::number;
use crate::outgoing;
use crate::outgoing::EntityModel;
use crate::outgoing::EntityStyle;
use crate::outgoing::MessageEntity;
use crate::quote::QuoteOutput;
use crate::scan;
use crate::text;
use vstd::prelude::*;
use vstd::utf8::encode_utf8;

verus! {

// ---------------------------------------------------------------------------------------------
// Who wrote a message
// ---------------------------------------------------------------------------------------------

/// Whom a forwarded message is from, as far as it says. The parameter is the type of the texts.
pub struct ForwardHeader<S> {
    pub from_name: Option<S>,
    pub saved_from_name: Option<S>,
    pub post_author: Option<S>,
}

/// Who sent a message. The parameter is the type of the texts.
pub enum Sender<S> {
    User { id: Option<i64>, first_name: Option<S>, last_name: Option<S>, username: Option<S> },
    /// A group or a channel.
    Other { id: Option<i64>, name: Option<S>, username: Option<S> },
}

/// Who wrote a message, as it is shown.
#[derive(Debug, PartialEq, Eq)]
pub struct SenderView {
    pub id: i64,
    pub display_name: String,
    pub first_name: String,
    pub last_name: String,
    pub username: String,
}

#[verifier::ext_equal]
pub struct SenderModel {
    pub id: i64,
    pub display_name: Seq<char>,
    pub first_name: Seq<char>,
    pub last_name: Seq<char>,
    pub username: Seq<char>,
}

impl View for SenderView {
    type V = SenderModel;

    open spec fn view(&self) -> SenderModel {
        SenderModel {
            id: self.id,
            display_name: self.display_name@,
            first_name: self.first_name@,
            last_name: self.last_name@,
            username: self.username@,
        }
    }
}

impl View for ForwardHeader<String> {
    type V = ForwardHeader<Seq<char>>;

    open spec fn view(&self) -> ForwardHeader<Seq<char>> {
        ForwardHeader {
            from_name: base_url::optional_text(self.from_name),
            saved_from_name: base_url::optional_text(self.saved_from_name),
            post_author: base_url::optional_text(self.post_author),
        }
    }
}

impl View for Sender<String> {
    type V = Sender<Seq<char>>;

    open spec fn view(&self) -> Sender<Seq<char>> {
        match *self {
            Sender::User { id, first_name, last_name, username } => Sender::User {
                id,
                first_name: base_url::optional_text(first_name),
                last_name: base_url::optional_text(last_name),
                username: base_url::optional_text(username),
            },
            Sender::Other { id, name, username } => Sender::Other {
                id,
                name: base_url::optional_text(name),
                username: base_url::optional_text(username),
            },
        }
    }
}

pub open spec fn header_of(h: Option<ForwardHeader<String>>) -> Option<ForwardHeader<Seq<char>>> {
    match h {
        Some(h) => Some(h@),
        None => None,
    }
}

pub open spec fn sender_of(s: Option<Sender<String>>) -> Option<Sender<Seq<char>>> {
    match s {
        Some(s) => Some(s@),
        None => None,
    }
}

/// A number for a text: that of its bytes to the base 31, in 64 bits.
pub open spec fn text_id(bytes: Seq<u8>) -> i64
    decreases bytes.len(),
{
    if bytes.len() == 0 {
        0
    } else {
        text_id(bytes.drop_last()).wrapping_mul(31).wrapping_add(bytes.last() as i64)
    }
}

/// A number for a text, always the same.
pub fn stable_text_id(value: &str) -> (r: i64)
    ensures
        r == text_id(encode_utf8(value@)),
{
    let bytes = value.as_bytes();
    let n: usize = bytes.len();
    let ghost all = encode_utf8(value@);
    let mut id: i64 = 0;
    let mut i: usize = 0;
    proof {
        assert(all.take(0) =~= Seq::<u8>::empty());
    }
    while i < n
        invariant
            i <= n,
            n == bytes@.len(),
            bytes@ == all,
            id == text_id(all.take(i as int)),
        decreases n - i,
    {
        proof {
            assert(all.take(i + 1).drop_last() =~= all.take(i as int));
        }
        id = id.wrapping_mul(31).wrapping_add(bytes[i] as i64);
        i = i + 1;
    }
    proof {
        assert(all.take(n as int) =~= all);
    }
    id
}

/// The name that a forwarded message gives.
pub open spec fn forwarded_name(h: Option<ForwardHeader<Seq<char>>>) -> Option<Seq<char>> {
    match h {
        Some(h) => match (h.from_name, h.saved_from_name, h.post_author) {
            (Some(s), _, _) => Some(s),
            (None, Some(s), _) => Some(s),
            (None, None, s) => s,
        },
        None => None,
    }
}

pub open spec fn or_empty(s: Option<Seq<char>>) -> Seq<char> {
    match s {
        Some(s) => s,
        None => Seq::empty(),
    }
}

pub open spec fn id_or(id: Option<i64>, name: Seq<char>) -> i64 {
    match id {
        Some(id) => id,
        None => text_id(encode_utf8(name)),
    }
}

/// Someone of whom only a name is known.
pub open spec fn named(id: i64, name: Seq<char>, username: Seq<char>) -> SenderModel {
    SenderModel { id, display_name: name, first_name: name, last_name: Seq::empty(), username }
}

/// Who wrote a message, as it is shown: the one it was forwarded from, if that is said, or else its
/// sender.
pub open spec fn shown_sender(
    forward: Option<ForwardHeader<Seq<char>>>,
    sender: Option<Sender<Seq<char>>>,
) -> SenderModel {
    match forwarded_name(forward) {
        Some(name) => named(text_id(encode_utf8(name)), name, Seq::empty()),
        None => match sender {
            Some(Sender::User { id, first_name, last_name, username }) => {
                let display = scan::trimmed(
                    or_empty(first_name) + " "@ + or_empty(last_name),
                );
                SenderModel {
                    id: id_or(id, display),
                    display_name: display,
                    first_name: or_empty(first_name),
                    last_name: or_empty(last_name),
                    username: or_empty(username),
                }
            },
            Some(Sender::Other { id, name, username }) => {
                let shown = match name {
                    Some(name) => name,
                    None => "未知来源"@,
                };
                named(id_or(id, shown), shown, or_empty(username))
            },
            None => named(text_id(encode_utf8("未知来源"@)), "未知来源"@, Seq::empty()),
        },
    }
}

fn copy_or_empty(s: &Option<String>) -> (r: String)
    ensures
        r@ == or_empty(base_url::optional_text(*s)),
{
    match s {
        Some(s) => s.clone(),
        None => String::new(),
    }
}

fn name_of_forward(forward: &Option<ForwardHeader<String>>) -> (r: Option<String>)
    ensures
        base_url::optional_text(r) == forwarded_name(header_of(*forward)),
{
    match forward {
        Some(h) => match (&h.from_name, &h.saved_from_name, &h.post_author) {
            (Some(s), _, _) => Some(s.clone()),
            (None, Some(s), _) => Some(s.clone()),
            (None, None, Some(s)) => Some(s.clone()),
            (None, None, None) => None,
        },
        None => None,
    }
}

fn only_named(id: i64, name: String, username: String) -> (r: SenderView)
    ensures
        r@ == named(id, name@, username@),
{
    SenderView {
        id,
        display_name: name.clone(),
        first_name: name,
        last_name: String::new(),
        username,
    }
}

/// Who wrote a message, as it is shown.
pub fn sender_view(
    forward: &Option<ForwardHeader<String>>,
    sender: &Option<Sender<String>>,
) -> (r: SenderView)
    ensures
        r@ == shown_sender(header_of(*forward), sender_of(*sender)),
{
    if let Some(name) = name_of_forward(forward) {
        return only_named(stable_text_id(name.as_str()), name, String::new());
    }
    match sender {
        Some(Sender::User { id, first_name, last_name, username }) => {
            let first = copy_or_empty(first_name);
            let last = copy_or_empty(last_name);
            let mut both = first.clone();
            both.append(" ");
            both.append(last.as_str());
            let display_name = scan::trim(both.as_str());
            let number: i64 = match id {
                Some(id) => *id,
                None => stable_text_id(display_name.as_str()),
            };
            SenderView {
                id: number,
                display_name,
                first_name: first,
                last_name: last,
                username: copy_or_empty(username),
            }
        },
        Some(Sender::Other { id, name, username }) => {
            let shown = match name {
                Some(name) => name.clone(),
                None => "未知来源".to_owned(),
            };
            let number: i64 = match id {
                Some(id) => *id,
                None => stable_text_id(shown.as_str()),
            };
            only_named(number, shown, copy_or_empty(username))
        },
        None => only_named(
            stable_text_id("未知来源"),
            "未知来源".to_owned(),
            String::new(),
        ),
    }
}

// ---------------------------------------------------------------------------------------------
// Formatting
// ---------------------------------------------------------------------------------------------

/// The name of a kind of entity that has nothing but its place.
pub open spec fn plain_name(style: EntityStyle<Seq<char>>) -> Option<Seq<char>> {
    match style {
        EntityStyle::Bold => Some("bold"@),
        EntityStyle::Italic => Some("italic"@),
        EntityStyle::Underline => Some("underline"@),
        EntityStyle::Strike => Some("strikethrough"@),
        EntityStyle::Code => Some("code"@),
        EntityStyle::Pre(_) => Some("pre"@),
        EntityStyle::Url => Some("url"@),
        EntityStyle::Mention => Some("mention"@),
        EntityStyle::Hashtag => Some("hashtag"@),
        EntityStyle::Cashtag => Some("cashtag"@),
        EntityStyle::BotCommand => Some("bot_command"@),
        EntityStyle::Email => Some("email"@),
        EntityStyle::Phone => Some("phone_number"@),
        EntityStyle::Spoiler => Some("spoiler"@),
        _ => None,
    }
}

pub open spec fn placed(kind: Seq<char>, e: EntityModel) -> JsonView {
    json::empty_object().with("type"@, JsonView::Text(kind)).with(
        "offset"@,
        ai_request::integer(e.offset),
    ).with("length"@, ai_request::integer(e.length))
}

/// An entity for the renderer; some kinds are left out.
pub open spec fn entity_json(e: EntityModel) -> Option<JsonView> {
    match e.style {
        EntityStyle::TextUrl(url) => Some(
            placed("text_link"@, e).with("url"@, JsonView::Text(url)),
        ),
        EntityStyle::CustomEmoji(id) => Some(
            placed("custom_emoji"@, e).with(
                "custom_emoji_id"@,
                JsonView::Text(number::signed_decimal(id as int)),
            ),
        ),
        EntityStyle::MentionName(id) => Some(
            placed("text_mention"@, e).with(
                "user"@,
                json::empty_object().with("id"@, ai_request::integer(id as int)),
            ),
        ),
        _ => match plain_name(e.style) {
            Some(kind) => Some(placed(kind, e)),
            None => None,
        },
    }
}

pub open spec fn entities_json(entities: Seq<EntityModel>) -> Seq<JsonView>
    decreases entities.len(),
{
    if entities.len() == 0 {
        Seq::empty()
    } else {
        let rest = entities_json(entities.drop_last());
        match entity_json(entities.last()) {
            Some(j) => rest.push(j),
            None => rest,
        }
    }
}

fn place(kind: &str, e: &MessageEntity) -> (r: Json)
    ensures
        r@ == placed(kind@, e@),
{
    Json::object().with("type", Json::text(kind)).with("offset", Json::number(e.offset as i64)).with(
        "length",
        Json::number(e.length as i64),
    )
}

/// An entity for the renderer; some kinds are left out.
pub fn convert_entity(entity: &MessageEntity) -> (r: Option<Json>)
    ensures
        match (r, entity_json(entity@)) {
            (Some(a), Some(b)) => a@ == b,
            (None, None) => true,
            _ => false,
        },
{
    match &entity.style {
        EntityStyle::Bold => Some(place("bold", entity)),
        EntityStyle::Italic => Some(place("italic", entity)),
        EntityStyle::Underline => Some(place("underline", entity)),
        EntityStyle::Strike => Some(place("strikethrough", entity)),
        EntityStyle::Code => Some(place("code", entity)),
        EntityStyle::Pre(_) => Some(place("pre", entity)),
        EntityStyle::Url => Some(place("url", entity)),
        EntityStyle::Mention => Some(place("mention", entity)),
        EntityStyle::Hashtag => Some(place("hashtag", entity)),
        EntityStyle::Cashtag => Some(place("cashtag", entity)),
        EntityStyle::BotCommand => Some(place("bot_command", entity)),
        EntityStyle::Email => Some(place("email", entity)),
        EntityStyle::Phone => Some(place("phone_number", entity)),
        EntityStyle::Spoiler => Some(place("spoiler", entity)),
        EntityStyle::TextUrl(url) => Some(
            place("text_link", entity).with("url", Json::text(url.as_str())),
        ),
        EntityStyle::CustomEmoji(id) => Some(
            place("custom_emoji", entity).with(
                "custom_emoji_id",
                Json::Text(number::write_signed(*id)),
            ),
        ),
        EntityStyle::MentionName(id) => Some(
            place("text_mention", entity).with(
                "user",
                Json::object().with("id", Json::number(*id)),
            ),
        ),
        EntityStyle::Blockquote { .. } => None,
        EntityStyle::Other => None,
    }
}

/// The entities of a message for the renderer.
pub fn convert_entities(entities: &Vec<MessageEntity>) -> (r: Vec<Json>)
    ensures
        json::items_view(r@) == entities_json(outgoing::entities_of(entities@)),
{
    let ghost all = outgoing::entities_of(entities@);
    let n: usize = entities.len();
    let mut out: Vec<Json> = Vec::new();
    let mut i: usize = 0;
    proof {
        assert(all.take(0) =~= Seq::<EntityModel>::empty());
        assert(json::items_view(out@) =~= Seq::<JsonView>::empty());
    }
    while i < n
        invariant
            i <= n,
            n == entities@.len(),
            all == outgoing::entities_of(entities@),
            json::items_view(out@) == entities_json(all.take(i as int)),
        decreases n - i,
    {
        proof {
            assert(all.take(i + 1).drop_last() =~= all.take(i as int));
            assert(all.take(i + 1).last() == entities@[i as int]@);
        }
        if let Some(j) = convert_entity(&entities[i]) {
            proof {
                json::lemma_items_push(out@, j);
            }
            out.push(j);
        }
        i = i + 1;
    }
    proof {
        assert(all.take(n as int) =~= all);
    }
    out
}

// ---------------------------------------------------------------------------------------------
// What a message says
// ---------------------------------------------------------------------------------------------

/// A text with its formatting.
pub struct Content {
    pub text: String,
    pub entities: Vec<MessageEntity>,
}

#[verifier::ext_equal]
pub struct ContentModel {
    pub text: Seq<char>,
    pub entities: Seq<EntityModel>,
}

impl View for Content {
    type V = ContentModel;

    open spec fn view(&self) -> ContentModel {
        ContentModel { text: self.text@, entities: outgoing::entities_of(self.entities@) }
    }
}

/// How a message answers another: `quote` is whether a part of that was selected, the rest is that part.
pub struct ReplyHeader {
    pub quote: bool,
    pub quote_text: Option<String>,
    pub quote_entities: Option<Vec<MessageEntity>>,
}

pub open spec fn content_of(c: Option<Content>) -> Option<ContentModel> {
    match c {
        Some(c) => Some(c@),
        None => None,
    }
}

/// The part of the other message that was selected, if any.
pub open spec fn selected(header: Option<ReplyHeader>) -> Option<ContentModel> {
    match header {
        Some(h) => if h.quote && h.quote_text is Some {
            Some(
                ContentModel {
                    text: h.quote_text->Some_0@,
                    entities: match h.quote_entities {
                        Some(v) => outgoing::entities_of(v@),
                        None => Seq::empty(),
                    },
                },
            )
        } else {
            None
        },
        None => None,
    }
}

/// The part of the message answered that was selected, if any.
pub fn selected_reply_content(header: Option<ReplyHeader>) -> (r: Option<Content>)
    ensures
        content_of(r) == selected(header),
{
    match header {
        Some(h) => {
            if !h.quote {
                return None;
            }
            match h.quote_text {
                Some(text) => {
                    let entities = match h.quote_entities {
                        Some(v) => v,
                        None => Vec::new(),
                    };
                    let c = Content { text, entities };
                    proof {
                        assert(c@.entities =~= selected(header)->Some_0.entities);
                    }
                    Some(c)
                },
                None => None,
            }
        },
        None => None,
    }
}

/// What a quoted message is taken to say: of the first one the part that was selected, if any.
pub open spec fn said(first: bool, part: Option<ContentModel>, own: ContentModel) -> ContentModel {
    match part {
        Some(c) => if first {
            c
        } else {
            own
        },
        None => own,
    }
}

/// What a quoted message is taken to say. `part` is what was selected of the first one.
pub fn quoted_content(first: bool, part: Option<Content>, own: Content) -> (r: Content)
    ensures
        r@ == said(first, content_of(part), own@),
{
    match part {
        Some(c) => if first {
            c
        } else {
            own
        },
        None => own,
    }
}

/// The message that a quoted one answers, for the renderer; none if it says nothing.
pub open spec fn reply_block(
    header: Option<ReplyHeader>,
    sender: SenderModel,
    own: ContentModel,
) -> Option<JsonView> {
    let c = match selected(header) {
        Some(c) => c,
        None => own,
    };
    if c.text.len() == 0 {
        None
    } else {
        Some(
            json::empty_object().with("name"@, JsonView::Text(sender.display_name)).with(
                "text"@,
                JsonView::Text(c.text),
            ).with("entities"@, JsonView::Array(entities_json(c.entities))).with(
                "chatId"@,
                ai_request::integer(sender.id as int),
            ),
        )
    }
}

/// The message that a quoted one answers, for the renderer. `header` is that of the quoted message,
/// `sender` and `own` are those of the other.
pub fn build_reply_block(header: Option<ReplyHeader>, sender: &SenderView, own: Content) -> (r:
    Option<Json>)
    ensures
        match (r, reply_block(header, sender@, own@)) {
            (Some(a), Some(b)) => a@ == b,
            (None, None) => true,
            _ => false,
        },
{
    let c = match selected_reply_content(header) {
        Some(c) => c,
        None => own,
    };
    if text::char_len(c.text.as_str()) == 0 {
        return None;
    }
    Some(
        Json::object().with("name", Json::text(sender.display_name.as_str())).with(
            "text",
            Json::text(c.text.as_str()),
        ).with("entities", Json::Array(convert_entities(&c.entities))).with(
            "chatId",
            Json::number(sender.id),
        ),
    )
}

/// The note that a message was forwarded, for the renderer.
pub open spec fn forward_json(forward: Option<ForwardHeader<Seq<char>>>) -> JsonView {
    match forwarded_name(forward) {
        Some(name) => json::empty_object().with("label"@, JsonView::Text(name)),
        None => JsonView::Null,
    }
}

pub fn forward_label(forward: &Option<ForwardHeader<String>>) -> (r: Json)
    ensures
        r@ == forward_json(header_of(*forward)),
{
    match name_of_forward(forward) {
        Some(name) => Json::object().with("label", Json::Text(name)),
        None => Json::Null,
    }
}

// ---------------------------------------------------------------------------------------------
// The request
// ---------------------------------------------------------------------------------------------

/// A message to quote: who wrote it, a picture of them and the media in it as data URLs, what it says,
/// the message it answers, and whether it was forwarded.
pub struct QuoteItem {
    pub sender: SenderView,
    pub photo: Option<String>,
    pub media: Option<String>,
    pub content: Content,
    pub reply: Option<Json>,
    pub forward: Json,
}

pub struct ItemModel {
    pub sender: SenderModel,
    pub photo: Option<Seq<char>>,
    pub media: Option<Seq<char>>,
    pub content: ContentModel,
    pub reply: JsonView,
    pub forward: JsonView,
}

impl View for QuoteItem {
    type V = ItemModel;

    open spec fn view(&self) -> ItemModel {
        ItemModel {
            sender: self.sender@,
            photo: base_url::optional_text(self.photo),
            media: base_url::optional_text(self.media),
            content: self.content@,
            reply: match self.reply {
                Some(j) => j@,
                None => JsonView::Null,
            },
            forward: self.forward@,
        }
    }
}

pub open spec fn items_of(v: Seq<QuoteItem>) -> Seq<ItemModel> {
    v.map_values(|i: QuoteItem| i@)
}

/// Whether a message is shown with its writer: not if the one before has the same.
pub open spec fn shows_sender(ids: Seq<i64>, i: int) -> bool {
    i == 0 || ids[i - 1] != ids[i]
}

pub open spec fn ids_of(items: Seq<ItemModel>) -> Seq<i64> {
    items.map_values(|i: ItemModel| i.sender.id)
}

pub open spec fn url_json(url: Option<Seq<char>>) -> JsonView {
    match url {
        Some(url) => json::empty_object().with("url"@, JsonView::Text(url)),
        None => JsonView::Null,
    }
}

pub open spec fn text_if(show: bool, s: Seq<char>) -> JsonView {
    JsonView::Text(
        if show {
            s
        } else {
            Seq::empty()
        },
    )
}

/// A message for the renderer.
pub open spec fn item_json(item: ItemModel, show: bool) -> JsonView {
    let s = item.sender;
    let from = json::empty_object().with("id"@, ai_request::integer(s.id as int)).with(
        "name"@,
        text_if(show, s.display_name),
    ).with("first_name"@, text_if(show, s.first_name)).with(
        "last_name"@,
        text_if(show, s.last_name),
    ).with("username"@, text_if(show, s.username)).with(
        "photo"@,
        url_json(
            if show {
                item.photo
            } else {
                None
            },
        ),
    );
    json::empty_object().with("from"@, from).with("text"@, JsonView::Text(item.content.text)).with(
        "entities"@,
        JsonView::Array(entities_json(item.content.entities)),
    ).with("avatar"@, JsonView::Bool(show)).with("media"@, url_json(item.media)).with(
        "replyMessage"@,
        item.reply,
    ).with("forward"@, item.forward)
}

pub open spec fn messages_json(items: Seq<ItemModel>) -> Seq<JsonView> {
    Seq::new(items.len(), |i: int| item_json(items[i], shows_sender(ids_of(items), i)))
}

/// A request: what the quote is made into, and the messages.
pub open spec fn payload(
    output: QuoteOutput,
    background: Seq<char>,
    messages: Seq<JsonView>,
) -> JsonView {
    json::empty_object().with("type"@, JsonView::Text(output.api_name())).with(
        "format"@,
        JsonView::Text(output.format_name()),
    ).with("backgroundColor"@, JsonView::Text(background)).with(
        "width"@,
        ai_request::integer(output.size().0 as int),
    ).with("height"@, ai_request::integer(output.size().1 as int)).with(
        "scale"@,
        ai_request::integer(2),
    ).with("emojiBrand"@, JsonView::Text("apple"@)).with("messages"@, JsonView::Array(messages))
}

/// Which messages are shown with their writers, by the writers' numbers.
pub fn shown_senders(ids: &[i64]) -> (r: Vec<bool>)
    ensures
        r@.len() == ids@.len(),
        forall|i: int| 0 <= i < ids@.len() ==> #[trigger] r@[i] == shows_sender(ids@, i),
{
    let n: usize = ids.len();
    let mut out: Vec<bool> = Vec::new();
    let mut i: usize = 0;
    while i < n
        invariant
            i <= n,
            n == ids@.len(),
            out@.len() == i,
            forall|j: int| 0 <= j < i ==> #[trigger] out@[j] == shows_sender(ids@, j),
        decreases n - i,
    {
        out.push(i == 0 || ids[i - 1] != ids[i]);
        i = i + 1;
    }
    out
}

fn text_shown(show: bool, s: &str) -> (r: Json)
    ensures
        r@ == text_if(show, s@),
{
    if show {
        Json::text(s)
    } else {
        Json::Text(String::new())
    }
}

fn url_object(url: &Option<String>) -> (r: Json)
    ensures
        r@ == url_json(base_url::optional_text(*url)),
{
    match url {
        Some(url) => Json::object().with("url", Json::text(url.as_str())),
        None => Json::Null,
    }
}

fn item_object(item: QuoteItem, show: bool) -> (r: Json)
    ensures
        r@ == item_json(item@, show),
{
    let photo = if show {
        url_object(&item.photo)
    } else {
        Json::Null
    };
    let from = Json::object().with("id", Json::number(item.sender.id)).with(
        "name",
        text_shown(show, item.sender.display_name.as_str()),
    ).with("first_name", text_shown(show, item.sender.first_name.as_str())).with(
        "last_name",
        text_shown(show, item.sender.last_name.as_str()),
    ).with("username", text_shown(show, item.sender.username.as_str())).with("photo", photo);
    let reply = match item.reply {
        Some(j) => j,
        None => Json::Null,
    };
    Json::object().with("from", from).with("text", Json::text(item.content.text.as_str())).with(
        "entities",
        Json::Array(convert_entities(&item.content.entities)),
    ).with("avatar", Json::Bool(show)).with("media", url_object(&item.media)).with(
        "replyMessage",
        reply,
    ).with("forward", item.forward)
}

fn request(output: QuoteOutput, background: &str, messages: Vec<Json>) -> (r: Json)
    ensures
        r@ == payload(output, background@, json::items_view(messages@)),
{
    let (width, height) = output.dimensions();
    Json::object().with("type", Json::text(output.api_type())).with(
        "format",
        Json::text(output.format()),
    ).with("backgroundColor", Json::text(background)).with(
        "width",
        Json::number(width as i64),
    ).with("height", Json::number(height as i64)).with("scale", Json::number(2)).with(
        "emojiBrand",
        Json::text("apple"),
    ).with("messages", Json::Array(messages))
}

/// The request for a quote of some messages.
pub fn quote_payload(output: QuoteOutput, background: &str, items: Vec<QuoteItem>) -> (r: Json)
    ensures
        r@ == payload(output, background@, messages_json(items_of(items@))),
{
    let ghost all = items_of(items@);
    let ghost goal = messages_json(all);
    let n: usize = items.len();
    let mut messages: Vec<Json> = Vec::new();
    let mut rest = items;
    let mut previous: Option<i64> = None;
    let mut i: usize = 0;
    proof {
        assert(json::items_view(messages@) =~= goal.take(0));
        assert(rest@ =~= items@.skip(0));
    }
    while i < n
        invariant
            i <= n,
            n == items@.len(),
            all == items_of(items@),
            goal == messages_json(all),
            rest@ == items@.skip(i as int),
            previous == if i == 0 {
                None
            } else {
                Some(ids_of(all)[i - 1])
            },
            json::items_view(messages@) == goal.take(i as int),
        decreases n - i,
    {
        let item = rest.remove(0);
        let id: i64 = item.sender.id;
        let show = match previous {
            Some(p) => p != id,
            None => true,
        };
        proof {
            assert(item == items@[i as int]);
            assert(ids_of(all)[i as int] == id);
            assert(show == shows_sender(ids_of(all), i as int));
            assert(rest@ =~= items@.skip(i + 1));
        }
        let j = item_object(item, show);
        proof {
            json::lemma_items_push(messages@, j);
            assert(goal.take(i as int).push(goal[i as int]) =~= goal.take(i + 1));
            assert(j@ == goal[i as int]);
        }
        messages.push(j);
        previous = Some(id);
        i = i + 1;
    }
    proof {
        assert(goal.take(n as int) =~= goal);
    }
    request(output, background, messages)
}

/// The request that the renderer is tried with.
pub open spec fn trial_payload(background: Seq<char>) -> JsonView {
    let from = json::empty_object().with("id"@, ai_request::integer(1)).with(
        "name"@,
        JsonView::Text("telebot"@),
    ).with("first_name"@, JsonView::Text("telebot"@)).with(
        "last_name"@,
        JsonView::Text(""@),
    ).with("username"@, JsonView::Text(""@)).with("photo"@, JsonView::Null);
    let message = json::empty_object().with("from"@, from).with(
        "text"@,
        JsonView::Text("telebot 中文字体检查：你好，世界！"@),
    ).with("entities"@, JsonView::Array(Seq::empty())).with("avatar"@, JsonView::Bool(false)).with(
        "media"@,
        JsonView::Null,
    ).with("replyMessage"@, JsonView::Null);
    payload(QuoteOutput::Sticker, background, Seq::empty().push(message))
}

/// The request that the renderer is tried with; an error if quotes are switched off.
pub fn check_payload(enabled: bool, background: &str) -> (r: Result<Json, Failure>)
    ensures
        match r {
            Ok(j) => enabled && j@ == trial_payload(background@),
            Err(e) => !enabled && e@ == "quote plugin is disabled"@,
        },
{
    if !enabled {
        return Err(Failure::new("quote plugin is disabled"));
    }
    let from = Json::object().with("id", Json::number(1)).with("name", Json::text("telebot")).with(
        "first_name",
        Json::text("telebot"),
    ).with("last_name", Json::text("")).with("username", Json::text("")).with("photo", Json::Null);
    let none: Vec<Json> = Vec::new();
    proof {
        assert(json::items_view(none@) =~= Seq::<JsonView>::empty());
    }
    let message = Json::object().with("from", from).with(
        "text",
        Json::text("telebot 中文字体检查：你好，世界！"),
    ).with("entities", Json::Array(none)).with("avatar", Json::Bool(false)).with(
        "media",
        Json::Null,
    ).with("replyMessage", Json::Null);
    let mut messages: Vec<Json> = Vec::new();
    proof {
        json::lemma_items_push(messages@, message);
        assert(json::items_view(messages@) =~= Seq::<JsonView>::empty());
    }
    messages.push(message);
    Ok(request(QuoteOutput::Sticker, background, messages))
}

// ---------------------------------------------------------------------------------------------
// Laws
// ---------------------------------------------------------------------------------------------

/// What the one who wrote a message is shown as.
pub open spec fn is_from(j: JsonView, item: ItemModel, shown: bool) -> bool {
    let none = JsonView::Text(Seq::empty());
    &&& j.field("id"@) == Some(JsonView::Number(number::signed_decimal(item.sender.id as int)))
    &&& shown ==> {
        &&& j.field("name"@) == Some(JsonView::Text(item.sender.display_name))
        &&& j.field("first_name"@) == Some(JsonView::Text(item.sender.first_name))
        &&& j.field("last_name"@) == Some(JsonView::Text(item.sender.last_name))
        &&& j.field("username"@) == Some(JsonView::Text(item.sender.username))
        &&& match item.photo {
            Some(url) => j.field("photo"@) matches Some(photo) && photo.field("url"@) == Some(
                JsonView::Text(url),
            ),
            None => j.field("photo"@) == Some(JsonView::Null),
        }
    }
    &&& !shown ==> {
        &&& j.field("name"@) == Some(none)
        &&& j.field("first_name"@) == Some(none)
        &&& j.field("last_name"@) == Some(none)
        &&& j.field("username"@) == Some(none)
        &&& j.field("photo"@) == Some(JsonView::Null)
    }
}

proof fn lemma_url(url: Option<Seq<char>>)
    ensures
        match url {
            Some(s) => url_json(url).field("url"@) == Some(JsonView::Text(s)),
            None => url_json(url) == JsonView::Null,
        },
{
    if let Some(s) = url {
        json::law_empty_object();
        json::law_added_member(json::empty_object(), "url"@, JsonView::Text(s));
    }
}

proof fn lemma_item(item: ItemModel, show: bool)
    ensures
        ({
            let j = item_json(item, show);
            &&& j.field("from"@) matches Some(from) && is_from(from, item, show)
            &&& j.field("text"@) == Some(JsonView::Text(item.content.text))
            &&& j.field("entities"@) == Some(JsonView::Array(entities_json(item.content.entities)))
            &&& j.field("avatar"@) == Some(JsonView::Bool(show))
            &&& match item.media {
                Some(url) => j.field("media"@) matches Some(media) && media.field("url"@) == Some(
                    JsonView::Text(url),
                ),
                None => j.field("media"@) == Some(JsonView::Null),
            }
            &&& j.field("replyMessage"@) == Some(item.reply)
            &&& j.field("forward"@) == Some(item.forward)
        }),
{
    reveal_strlit("id");
    reveal_strlit("name");
    reveal_strlit("first_name");
    reveal_strlit("last_name");
    reveal_strlit("username");
    reveal_strlit("photo");
    assert("id"@.len() != "name"@.len());
    assert("id"@.len() != "first_name"@.len());
    assert("id"@.len() != "last_name"@.len());
    assert("id"@.len() != "username"@.len());
    assert("id"@.len() != "photo"@.len());
    assert("name"@.len() != "first_name"@.len());
    assert("name"@.len() != "last_name"@.len());
    assert("name"@.len() != "username"@.len());
    assert("name"@.len() != "photo"@.len());
    assert("first_name"@.len() != "last_name"@.len());
    assert("first_name"@.len() != "username"@.len());
    assert("first_name"@.len() != "photo"@.len());
    assert("last_name"@.len() != "username"@.len());
    assert("last_name"@.len() != "photo"@.len());
    assert("username"@.len() != "photo"@.len());
    reveal_strlit("from");
    reveal_strlit("text");
    reveal_strlit("entities");
    reveal_strlit("avatar");
    reveal_strlit("media");
    reveal_strlit("replyMessage");
    reveal_strlit("forward");
    assert("from"@[0] != "text"@[0]);
    assert("from"@.len() != "entities"@.len());
    assert("from"@.len() != "avatar"@.len());
    assert("from"@.len() != "media"@.len());
    assert("from"@.len() != "replyMessage"@.len());
    assert("from"@.len() != "forward"@.len());
    assert("text"@.len() != "entities"@.len());
    assert("text"@.len() != "avatar"@.len());
    assert("text"@.len() != "media"@.len());
    assert("text"@.len() != "replyMessage"@.len());
    assert("text"@.len() != "forward"@.len());
    assert("entities"@.len() != "avatar"@.len());
    assert("entities"@.len() != "media"@.len());
    assert("entities"@.len() != "replyMessage"@.len());
    assert("entities"@.len() != "forward"@.len());
    assert("avatar"@.len() != "media"@.len());
    assert("avatar"@.len() != "replyMessage"@.len());
    assert("avatar"@.len() != "forward"@.len());
    assert("media"@.len() != "replyMessage"@.len());
    assert("media"@.len() != "forward"@.len());
    assert("replyMessage"@.len() != "forward"@.len());
    let s = item.sender;
    let photo = if show {
        item.photo
    } else {
        None
    };
    lemma_url(photo);
    lemma_url(item.media);
    let no_text = Seq::<char>::empty();
    json::law_empty_object();
    let f0 = json::empty_object();
    json::law_added_member(f0, "id"@, ai_request::integer(s.id as int));
    let f1 = f0.with("id"@, ai_request::integer(s.id as int));
    json::law_added_member(f1, "name"@, text_if(show, s.display_name));
    let f2 = f1.with("name"@, text_if(show, s.display_name));
    json::law_added_member(f2, "first_name"@, text_if(show, s.first_name));
    let f3 = f2.with("first_name"@, text_if(show, s.first_name));
    json::law_added_member(f3, "last_name"@, text_if(show, s.last_name));
    let f4 = f3.with("last_name"@, text_if(show, s.last_name));
    json::law_added_member(f4, "username"@, text_if(show, s.username));
    let f5 = f4.with("username"@, text_if(show, s.username));
    json::law_added_member(f5, "photo"@, url_json(photo));
    let f6 = f5.with("photo"@, url_json(photo));
    assert(is_from(f6, item, show));
    json::law_empty_object();
    let m0 = json::empty_object();
    json::law_added_member(m0, "from"@, f6);
    let m1 = m0.with("from"@, f6);
    json::law_added_member(m1, "text"@, JsonView::Text(item.content.text));
    let m2 = m1.with("text"@, JsonView::Text(item.content.text));
    json::law_added_member(m2, "entities"@, JsonView::Array(entities_json(item.content.entities)));
    let m3 = m2.with("entities"@, JsonView::Array(entities_json(item.content.entities)));
    json::law_added_member(m3, "avatar"@, JsonView::Bool(show));
    let m4 = m3.with("avatar"@, JsonView::Bool(show));
    json::law_added_member(m4, "media"@, url_json(item.media));
    let m5 = m4.with("media"@, url_json(item.media));
    json::law_added_member(m5, "replyMessage"@, item.reply);
    let m6 = m5.with("replyMessage"@, item.reply);
    json::law_added_member(m6, "forward"@, item.forward);
    let m7 = m6.with("forward"@, item.forward);
    assert(item_json(item, show) == m7);
}

/// Every message of a quote holds, in the order of the messages, exactly what the quoted message says, with
/// its entities, its media, what it replies to and where it was forwarded from. The one who wrote it is
/// shown with the first message and with each that another one wrote than the message before.
pub proof fn law_quoted_messages(
    output: QuoteOutput,
    background: Seq<char>,
    items: Seq<ItemModel>,
    i: int,
)
    requires
        0 <= i < items.len(),
    ensures
        payload(output, background, messages_json(items)).field("messages"@) matches Some(
            JsonView::Array(messages),
        ) && {
            let j = messages[i];
            let shown = i == 0 || items[i - 1].sender.id != items[i].sender.id;
            &&& messages.len() == items.len()
            &&& j.field("from"@) matches Some(from) && is_from(from, items[i], shown)
            &&& j.field("text"@) == Some(JsonView::Text(items[i].content.text))
            &&& j.field("entities"@) == Some(
                JsonView::Array(entities_json(items[i].content.entities)),
            )
            &&& j.field("avatar"@) == Some(JsonView::Bool(shown))
            &&& match items[i].media {
                Some(url) => j.field("media"@) matches Some(media) && media.field("url"@) == Some(
                    JsonView::Text(url),
                ),
                None => j.field("media"@) == Some(JsonView::Null),
            }
            &&& j.field("replyMessage"@) == Some(items[i].reply)
            &&& j.field("forward"@) == Some(items[i].forward)
        },
{
    law_payload(output, background, messages_json(items));
    lemma_item(items[i], shows_sender(ids_of(items), i));
}

/// A request to the renderer names the form of the picture, its format and its size, the background, and the
/// messages.
pub proof fn law_payload(output: QuoteOutput, background: Seq<char>, messages: Seq<JsonView>)
    ensures
        ({
            let j = payload(output, background, messages);
            &&& j.field("type"@) == Some(
                JsonView::Text(
                    match output {
                        QuoteOutput::Sticker => "quote"@,
                        QuoteOutput::Image => "image"@,
                        QuoteOutput::Stories => "stories"@,
                    },
                ),
            )
            &&& j.field("format"@) == Some(
                JsonView::Text(
                    match output {
                        QuoteOutput::Sticker => "webp"@,
                        QuoteOutput::Image => "png"@,
                        QuoteOutput::Stories => "png"@,
                    },
                ),
            )
            &&& j.field("backgroundColor"@) == Some(JsonView::Text(background))
            &&& j.field("width"@) == Some(
                JsonView::Number(
                    number::decimal(
                        match output {
                            QuoteOutput::Stories => 360,
                            _ => 512,
                        },
                    ),
                ),
            )
            &&& j.field("height"@) == Some(
                JsonView::Number(
                    number::decimal(
                        match output {
                            QuoteOutput::Stories => 640,
                            _ => 768,
                        },
                    ),
                ),
            )
            &&& j.field("scale"@) == Some(JsonView::Number(number::decimal(2)))
            &&& j.field("emojiBrand"@) == Some(JsonView::Text("apple"@))
            &&& j.field("messages"@) == Some(JsonView::Array(messages))
        }),
{
    reveal_strlit("type");
    reveal_strlit("format");
    reveal_strlit("backgroundColor");
    reveal_strlit("width");
    reveal_strlit("height");
    reveal_strlit("scale");
    reveal_strlit("emojiBrand");
    reveal_strlit("messages");
    assert("type"@.len() != "format"@.len());
    assert("type"@.len() != "backgroundColor"@.len());
    assert("type"@.len() != "width"@.len());
    assert("type"@.len() != "height"@.len());
    assert("type"@.len() != "scale"@.len());
    assert("type"@.len() != "emojiBrand"@.len());
    assert("type"@.len() != "messages"@.len());
    assert("format"@.len() != "backgroundColor"@.len());
    assert("format"@.len() != "width"@.len());
    assert("format"@[0] != "height"@[0]);
    assert("format"@.len() != "scale"@.len());
    assert("format"@.len() != "emojiBrand"@.len());
    assert("format"@.len() != "messages"@.len());
    assert("backgroundColor"@.len() != "width"@.len());
    assert("backgroundColor"@.len() != "height"@.len());
    assert("backgroundColor"@.len() != "scale"@.len());
    assert("backgroundColor"@.len() != "emojiBrand"@.len());
    assert("backgroundColor"@.len() != "messages"@.len());
    assert("width"@.len() != "height"@.len());
    assert("width"@[0] != "scale"@[0]);
    assert("width"@.len() != "emojiBrand"@.len());
    assert("width"@.len() != "messages"@.len());
    assert("height"@.len() != "scale"@.len());
    assert("height"@.len() != "emojiBrand"@.len());
    assert("height"@.len() != "messages"@.len());
    assert("scale"@.len() != "emojiBrand"@.len());
    assert("scale"@.len() != "messages"@.len());
    assert("emojiBrand"@.len() != "messages"@.len());
    json::law_empty_object();
    let p0 = json::empty_object();
    json::law_added_member(p0, "type"@, JsonView::Text(output.api_name()));
    let p1 = p0.with("type"@, JsonView::Text(output.api_name()));
    json::law_added_member(p1, "format"@, JsonView::Text(output.format_name()));
    let p2 = p1.with("format"@, JsonView::Text(output.format_name()));
    json::law_added_member(p2, "backgroundColor"@, JsonView::Text(background));
    let p3 = p2.with("backgroundColor"@, JsonView::Text(background));
    json::law_added_member(p3, "width"@, ai_request::integer(output.size().0 as int));
    let p4 = p3.with("width"@, ai_request::integer(output.size().0 as int));
    json::law_added_member(p4, "height"@, ai_request::integer(output.size().1 as int));
    let p5 = p4.with("height"@, ai_request::integer(output.size().1 as int));
    json::law_added_member(p5, "scale"@, ai_request::integer(2));
    let p6 = p5.with("scale"@, ai_request::integer(2));
    json::law_added_member(p6, "emojiBrand"@, JsonView::Text("apple"@));
    let p7 = p6.with("emojiBrand"@, JsonView::Text("apple"@));
    json::law_added_member(p7, "messages"@, JsonView::Array(messages));
    let p8 = p7.with("messages"@, JsonView::Array(messages));
}

/// An entity is handed on with its place and its length under the name of its style, a link with where it
/// leads, an emoji of one's own and a person with their numbers; styles that the renderer does not know are
/// left out.
pub proof fn law_entity(e: EntityModel)
    ensures
        entity_json(e) matches Some(j) ==> {
            &&& j.field("offset"@) == Some(JsonView::Number(number::signed_decimal(e.offset)))
            &&& j.field("length"@) == Some(JsonView::Number(number::signed_decimal(e.length)))
            &&& e.style matches EntityStyle::TextUrl(url) ==> j.field("url"@) == Some(
                JsonView::Text(url),
            )
            &&& e.style matches EntityStyle::CustomEmoji(id) ==> j.field("custom_emoji_id"@) == Some(
                JsonView::Text(number::signed_decimal(id as int)),
            )
            &&& e.style matches EntityStyle::MentionName(id) ==> (j.field("user"@) matches Some(user)
                && user.field("id"@) == Some(JsonView::Number(number::signed_decimal(id as int))))
            &&& e.style is Bold ==> j.field("type"@) == Some(JsonView::Text("bold"@))
            &&& e.style is Italic ==> j.field("type"@) == Some(JsonView::Text("italic"@))
            &&& e.style is Underline ==> j.field("type"@) == Some(JsonView::Text("underline"@))
            &&& e.style is Strike ==> j.field("type"@) == Some(JsonView::Text("strikethrough"@))
            &&& e.style is Code ==> j.field("type"@) == Some(JsonView::Text("code"@))
            &&& e.style is Pre ==> j.field("type"@) == Some(JsonView::Text("pre"@))
            &&& e.style is Url ==> j.field("type"@) == Some(JsonView::Text("url"@))
            &&& e.style is Mention ==> j.field("type"@) == Some(JsonView::Text("mention"@))
            &&& e.style is Hashtag ==> j.field("type"@) == Some(JsonView::Text("hashtag"@))
            &&& e.style is Cashtag ==> j.field("type"@) == Some(JsonView::Text("cashtag"@))
            &&& e.style is BotCommand ==> j.field("type"@) == Some(JsonView::Text("bot_command"@))
            &&& e.style is Email ==> j.field("type"@) == Some(JsonView::Text("email"@))
            &&& e.style is Phone ==> j.field("type"@) == Some(JsonView::Text("phone_number"@))
            &&& e.style is Spoiler ==> j.field("type"@) == Some(JsonView::Text("spoiler"@))
            &&& e.style is TextUrl ==> j.field("type"@) == Some(JsonView::Text("text_link"@))
            &&& e.style is CustomEmoji ==> j.field("type"@) == Some(JsonView::Text("custom_emoji"@))
            &&& e.style is MentionName ==> j.field("type"@) == Some(JsonView::Text("text_mention"@))
        },
        entity_json(e) is None <==> e.style is Other || e.style is Blockquote,
{
    reveal_strlit("type");
    reveal_strlit("offset");
    reveal_strlit("length");
    reveal_strlit("url");
    reveal_strlit("custom_emoji_id");
    reveal_strlit("user");
    assert("type"@.len() != "offset"@.len());
    assert("type"@.len() != "length"@.len());
    assert("type"@.len() != "url"@.len());
    assert("type"@.len() != "custom_emoji_id"@.len());
    assert("type"@[0] != "user"@[0]);
    assert("offset"@[0] != "length"@[0]);
    assert("offset"@.len() != "url"@.len());
    assert("offset"@.len() != "custom_emoji_id"@.len());
    assert("offset"@.len() != "user"@.len());
    assert("length"@.len() != "url"@.len());
    assert("length"@.len() != "custom_emoji_id"@.len());
    assert("length"@.len() != "user"@.len());
    assert("url"@.len() != "custom_emoji_id"@.len());
    assert("url"@.len() != "user"@.len());
    assert("custom_emoji_id"@.len() != "user"@.len());
    let kind = match e.style {
        EntityStyle::TextUrl(_) => "text_link"@,
        EntityStyle::CustomEmoji(_) => "custom_emoji"@,
        EntityStyle::MentionName(_) => "text_mention"@,
        _ => or_empty(plain_name(e.style)),
    };
    json::law_empty_object();
    let p0 = json::empty_object();
    json::law_added_member(p0, "type"@, JsonView::Text(kind));
    let p1 = p0.with("type"@, JsonView::Text(kind));
    json::law_added_member(p1, "offset"@, ai_request::integer(e.offset));
    let p2 = p1.with("offset"@, ai_request::integer(e.offset));
    json::law_added_member(p2, "length"@, ai_request::integer(e.length));
    let p3 = p2.with("length"@, ai_request::integer(e.length));
    match e.style {
        EntityStyle::TextUrl(url) => {
            json::law_added_member(p3, "url"@, JsonView::Text(url));
        },
        EntityStyle::CustomEmoji(id) => {
            let n = JsonView::Text(number::signed_decimal(id as int));
            json::law_added_member(p3, "custom_emoji_id"@, n);
        },
        EntityStyle::MentionName(id) => {
            let n = ai_request::integer(id as int);
            json::law_added_member(json::empty_object(), "id"@, n);
            json::law_added_member(p3, "user"@, json::empty_object().with("id"@, n));
        },
        _ => {},
    }
}

/// Entities are handed on in their order: those of two texts one behind the other, and each that is known.
pub proof fn law_entities(a: Seq<EntityModel>, b: Seq<EntityModel>, e: EntityModel)
    ensures
        entities_json(a + b) == entities_json(a) + entities_json(b),
        entity_json(e) matches Some(j) ==> entities_json(seq![e]) == seq![j],
        entity_json(e) is None ==> entities_json(seq![e]) == Seq::<JsonView>::empty(),
        entities_json(Seq::empty()) == Seq::<JsonView>::empty(),
    decreases b.len(),
{
    assert(seq![e].drop_last() =~= Seq::<EntityModel>::empty());
    assert(entities_json(seq![e].drop_last()) =~= Seq::<JsonView>::empty());
    if entity_json(e) is Some {
        assert(entities_json(seq![e]) =~= seq![entity_json(e)->0]);
    }
    if b.len() == 0 {
        assert(a + b =~= a);
        assert(entities_json(a) + entities_json(b) =~= entities_json(a));
    } else {
        assert((a + b).drop_last() =~= a + b.drop_last());
        law_entities(a, b.drop_last(), e);
        assert(entities_json(a + b) =~= entities_json(a) + entities_json(b));
    }
}

/// Who is shown as the writer of a message: the one whom it was forwarded from, if that one has a name;
/// else the one who sent it, by first and last name.
pub proof fn law_shown_sender(
    forward: Option<ForwardHeader<Seq<char>>>,
    name: Seq<char>,
    first: Seq<char>,
    last: Seq<char>,
    username: Option<Seq<char>>,
    id: i64,
)
    requires
        scan::tight(first),
        scan::tight(last),
        first.len() > 0,
    ensures
        ({
            let user = Some(
                Sender::User {
                    id: Some(id),
                    first_name: Some(first),
                    last_name: Some(last),
                    username,
                },
            );
            let short = Some(
                Sender::User {
                    id: Some(id),
                    first_name: Some(first),
                    last_name: None::<Seq<char>>,
                    username,
                },
            );
            let other = Some(Sender::Other { id: Some(id), name: Some(name), username });
            let nobody = None::<Sender<Seq<char>>>;
            let unsaid = forward is None || (forward->0.from_name is None
                && forward->0.saved_from_name is None && forward->0.post_author is None);
            &&& forward is Some && forward->0.from_name is Some ==> shown_sender(
                forward,
                user,
            ).display_name == forward->0.from_name->0
            &&& forward is Some && forward->0.from_name is None && forward->0.saved_from_name
                is Some ==> shown_sender(forward, user).display_name
                == forward->0.saved_from_name->0
            &&& forward is Some && forward->0.from_name is None && forward->0.saved_from_name
                is None && forward->0.post_author is Some ==> shown_sender(
                forward,
                user,
            ).display_name == forward->0.post_author->0
            &&& unsaid ==> {
                &&& last.len() > 0 ==> shown_sender(forward, user).display_name == first + " "@
                    + last
                &&& shown_sender(forward, short).display_name == first
                &&& shown_sender(forward, user).first_name == first
                &&& shown_sender(forward, user).last_name == last
                &&& shown_sender(forward, user).id == id
                &&& username matches Some(u) ==> shown_sender(forward, user).username == u
                &&& shown_sender(forward, other).display_name == name
                &&& shown_sender(forward, other).id == id
                &&& username matches Some(u) ==> shown_sender(forward, other).username == u
                &&& shown_sender(forward, nobody).display_name == "未知来源"@
            }
            &&& forward_json(forward) == JsonView::Null <==> unsaid
            &&& !unsaid ==> forward_json(forward).field("label"@) == Some(
                JsonView::Text(shown_sender(forward, user).display_name),
            )
        }),
{
    reveal_strlit(" ");
    let none = Seq::<char>::empty();
    let full = first + " "@ + last;
    if last.len() > 0 {
        assert(full[0] == first[0]);
        assert(full.last() == last.last());
        scan::law_trim(none, full, none);
        assert(none + full + none =~= full);
    }
    scan::law_trim(none, first, " "@);
    assert(none + first + " "@ =~= first + " "@ + none);
    json::law_empty_object();
    if let Some(s) = forwarded_name(forward) {
        json::law_added_member(json::empty_object(), "label"@, JsonView::Text(s));
    }
}

/// The block of a message that is replied to: who wrote it, and the selected part of it, or all that it
/// says; there is none where that is nothing.
pub proof fn law_reply_block(header: Option<ReplyHeader>, sender: SenderModel, own: ContentModel)
    ensures
        ({
            let part = header is Some && header->0.quote && header->0.quote_text is Some;
            let told = if part {
                header->0.quote_text->0@
            } else {
                own.text
            };
            &&& reply_block(header, sender, own) is None <==> told.len() == 0
            &&& reply_block(header, sender, own) matches Some(j) ==> {
                &&& j.field("name"@) == Some(JsonView::Text(sender.display_name))
                &&& j.field("text"@) == Some(JsonView::Text(told))
                &&& j.field("chatId"@) == Some(
                    JsonView::Number(number::signed_decimal(sender.id as int)),
                )
                &&& !part ==> j.field("entities"@) == Some(
                    JsonView::Array(entities_json(own.entities)),
                )
                &&& part && header->0.quote_entities is Some ==> j.field("entities"@) == Some(
                    JsonView::Array(
                        entities_json(outgoing::entities_of(header->0.quote_entities->0@)),
                    ),
                )
            }
        }),
{
    reveal_strlit("name");
    reveal_strlit("text");
    reveal_strlit("entities");
    reveal_strlit("chatId");
    assert("name"@[0] != "text"@[0]);
    assert("name"@.len() != "entities"@.len());
    assert("name"@.len() != "chatId"@.len());
    assert("text"@.len() != "entities"@.len());
    assert("text"@.len() != "chatId"@.len());
    assert("entities"@.len() != "chatId"@.len());
    let c = match selected(header) {
        Some(c) => c,
        None => own,
    };
    json::law_empty_object();
    let p0 = json::empty_object();
    json::law_added_member(p0, "name"@, JsonView::Text(sender.display_name));
    let p1 = p0.with("name"@, JsonView::Text(sender.display_name));
    json::law_added_member(p1, "text"@, JsonView::Text(c.text));
    let p2 = p1.with("text"@, JsonView::Text(c.text));
    json::law_added_member(p2, "entities"@, JsonView::Array(entities_json(c.entities)));
    let p3 = p2.with("entities"@, JsonView::Array(entities_json(c.entities)));
    json::law_added_member(p3, "chatId"@, ai_request::integer(sender.id as int));
    let p4 = p3.with("chatId"@, ai_request::integer(sender.id as int));
}

/// Of the first message of a quote the selected part is quoted, if there is one; of the others all.
pub proof fn law_quoted_part(part: ContentModel, own: ContentModel)
    ensures
        said(true, Some(part), own) == part,
        said(true, None, own) == own,
        said(false, Some(part), own) == own,
        said(false, None, own) == own,
{
}

/// A sender of whom no name is known is shown as an unknown source.
pub proof fn law_unknown_sender(id: i64, username: Option<Seq<char>>)
    ensures
        shown_sender(None, None).display_name == "未知来源"@,
        shown_sender(
            None,
            Some(Sender::Other { id: Some(id), name: None, username }),
        ).display_name == "未知来源"@,
        shown_sender(None, Some(Sender::Other { id: Some(id), name: None, username })).id == id,
        shown_sender(None, None).id == text_id(encode_utf8("未知来源"@)),
        shown_sender(None, Some(Sender::Other { id: None, name: None, username })).id == text_id(
            encode_utf8("未知来源"@),
        ),
        shown_sender(None, None).username.len() == 0,
{
}

/// The number that stands for a text is that of the text before its last byte, times 31, and that byte.
pub proof fn law_text_number(bytes: Seq<u8>, b: u8)
    ensures
        text_id(Seq::empty()) == 0,
        text_id(bytes.push(b)) == text_id(bytes).wrapping_mul(31).wrapping_add(b as i64),
{
    assert(bytes.push(b).drop_last() =~= bytes);
}

/// The payload of a check is a sticker with one plain message, of a sender who is named after the program.
pub proof fn law_trial_payload(background: Seq<char>) -> (parts: (JsonView, JsonView))
    ensures
        trial_payload(background) == payload(QuoteOutput::Sticker, background, seq![parts.0]),
        parts.0.field("from"@) == Some(parts.1),
        parts.0.field("text"@) == Some(
            JsonView::Text("telebot 中文字体检查：你好，世界！"@),
        ),
        parts.0.field("entities"@) == Some(JsonView::Array(Seq::empty())),
        parts.0.field("avatar"@) == Some(JsonView::Bool(false)),
        parts.0.field("media"@) == Some(JsonView::Null),
        parts.0.field("replyMessage"@) == Some(JsonView::Null),
        parts.1.field("id"@) == Some(JsonView::Number(number::decimal(1))),
        parts.1.field("name"@) == Some(JsonView::Text("telebot"@)),
        parts.1.field("first_name"@) == Some(JsonView::Text("telebot"@)),
        parts.1.field("last_name"@) == Some(JsonView::Text(""@)),
        parts.1.field("username"@) == Some(JsonView::Text(""@)),
        parts.1.field("photo"@) == Some(JsonView::Null),
{
    reveal_strlit("id");
    reveal_strlit("name");
    reveal_strlit("first_name");
    reveal_strlit("last_name");
    reveal_strlit("username");
    reveal_strlit("photo");
    assert("id"@.len() != "name"@.len());
    assert("id"@.len() != "first_name"@.len());
    assert("id"@.len() != "last_name"@.len());
    assert("id"@.len() != "username"@.len());
    assert("id"@.len() != "photo"@.len());
    assert("name"@.len() != "first_name"@.len());
    assert("name"@.len() != "last_name"@.len());
    assert("name"@.len() != "username"@.len());
    assert("name"@.len() != "photo"@.len());
    assert("first_name"@.len() != "last_name"@.len());
    assert("first_name"@.len() != "username"@.len());
    assert("first_name"@.len() != "photo"@.len());
    assert("last_name"@.len() != "username"@.len());
    assert("last_name"@.len() != "photo"@.len());
    assert("username"@.len() != "photo"@.len());
    reveal_strlit("from");
    reveal_strlit("text");
    reveal_strlit("entities");
    reveal_strlit("avatar");
    reveal_strlit("media");
    reveal_strlit("replyMessage");
    assert("from"@[0] != "text"@[0]);
    assert("from"@.len() != "entities"@.len());
    assert("from"@.len() != "avatar"@.len());
    assert("from"@.len() != "media"@.len());
    assert("from"@.len() != "replyMessage"@.len());
    assert("text"@.len() != "entities"@.len());
    assert("text"@.len() != "avatar"@.len());
    assert("text"@.len() != "media"@.len());
    assert("text"@.len() != "replyMessage"@.len());
    assert("entities"@.len() != "avatar"@.len());
    assert("entities"@.len() != "media"@.len());
    assert("entities"@.len() != "replyMessage"@.len());
    assert("avatar"@.len() != "media"@.len());
    assert("avatar"@.len() != "replyMessage"@.len());
    assert("media"@.len() != "replyMessage"@.len());
    json::law_empty_object();
    let f0 = json::empty_object();
    let f1 = f0.with("id"@, ai_request::integer(1));
    json::law_added_member(f0, "id"@, ai_request::integer(1));
    let f2 = f1.with("name"@, JsonView::Text("telebot"@));
    json::law_added_member(f1, "name"@, JsonView::Text("telebot"@));
    let f3 = f2.with("first_name"@, JsonView::Text("telebot"@));
    json::law_added_member(f2, "first_name"@, JsonView::Text("telebot"@));
    let f4 = f3.with("last_name"@, JsonView::Text(""@));
    json::law_added_member(f3, "last_name"@, JsonView::Text(""@));
    let f5 = f4.with("username"@, JsonView::Text(""@));
    json::law_added_member(f4, "username"@, JsonView::Text(""@));
    let f6 = f5.with("photo"@, JsonView::Null);
    json::law_added_member(f5, "photo"@, JsonView::Null);
    let m0 = json::empty_object();
    let m1 = m0.with("from"@, f6);
    json::law_added_member(m0, "from"@, f6);
    let m2 = m1.with("text"@, JsonView::Text("telebot 中文字体检查：你好，世界！"@));
    json::law_added_member(m1, "text"@, JsonView::Text("telebot 中文字体检查：你好，世界！"@));
    let m3 = m2.with("entities"@, JsonView::Array(Seq::empty()));
    json::law_added_member(m2, "entities"@, JsonView::Array(Seq::empty()));
    let m4 = m3.with("avatar"@, JsonView::Bool(false));
    json::law_added_member(m3, "avatar"@, JsonView::Bool(false));
    let m5 = m4.with("media"@, JsonView::Null);
    json::law_added_member(m4, "media"@, JsonView::Null);
    let m6 = m5.with("replyMessage"@, JsonView::Null);
    json::law_added_member(m5, "replyMessage"@, JsonView::Null);
    assert(Seq::<JsonView>::empty().push(m6) =~= seq![m6]);
    (m6, f6)
}

/// Of a sender who is known by a name alone the name is the first name, and the name's number stands for
/// the sender where there is no other. A user's name is what is there of the two names.
pub proof fn law_named_sender(
    forward: ForwardHeader<Seq<char>>,
    sender: Option<Sender<Seq<char>>>,
    name: Seq<char>,
)
    requires
        scan::tight(name),
        name.len() > 0,
    ensures
        forward.from_name == Some(name) ==> shown_sender(Some(forward), sender) == (SenderModel {
            id: text_id(encode_utf8(name)),
            display_name: name,
            first_name: name,
            last_name: Seq::empty(),
            username: Seq::empty(),
        }),
        shown_sender(None, Some(Sender::Other { id: None, name: Some(name), username: None })) == (
        SenderModel {
            id: text_id(encode_utf8(name)),
            display_name: name,
            first_name: name,
            last_name: Seq::empty(),
            username: Seq::empty(),
        }),
        shown_sender(
            None,
            Some(Sender::User { id: None, first_name: None, last_name: Some(name), username: None }),
        ) == (SenderModel {
            id: text_id(encode_utf8(name)),
            display_name: name,
            first_name: Seq::empty(),
            last_name: name,
            username: Seq::empty(),
        }),
{
    reveal_strlit(" ");
    let none = Seq::<char>::empty();
    scan::law_trim(" "@, name, none);
    assert(" "@ + name + none =~= none + " "@ + name);
}

} // verus!
