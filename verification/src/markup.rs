//! Markdown as a sequence of events. The parser is `pulldown_cmark`; what it hands out is turned into
//! plain values here.

use pulldown_cmark::CodeBlockKind;
use pulldown_cmark::Event;
use pulldown_cmark::Options;
use pulldown_cmark::Parser;
use pulldown_cmark::Tag;
use pulldown_cmark::TagEnd;
use self::OpenEvent::End;
use self::OpenEvent::Plain;
use self::OpenEvent::Start;
use vstd::prelude::*;

verus! {

/// The beginning of an element. The parameter is the type of the texts in it.
pub enum MarkTag<S> {
    Paragraph,
    /// A heading and its level, from 1 to 6.
    Heading(u8),
    BlockQuote,
    /// A code block; if it is a fenced one, with what stands behind the opening fence.
    CodeBlock(Option<S>),
    HtmlBlock,
    /// A list; if it is a numbered one, with the first number.
    List(Option<u64>),
    Item,
    FootnoteDefinition(S),
    DefinitionList,
    DefinitionListTitle,
    DefinitionListDefinition,
    Table,
    TableHead,
    TableRow,
    TableCell,
    Emphasis,
    Strong,
    Strikethrough,
    Superscript,
    Subscript,
    /// A link and where it leads.
    Link(S),
    /// An image and where it lies.
    Image(S),
    MetadataBlock,
}

/// The end of an element.
#[derive(Clone, Copy, Debug, PartialEq, Eq, Structural)]
pub enum MarkEnd {
    Paragraph,
    Heading,
    BlockQuote,
    CodeBlock,
    HtmlBlock,
    List,
    Item,
    FootnoteDefinition,
    DefinitionList,
    DefinitionListTitle,
    DefinitionListDefinition,
    Table,
    TableHead,
    TableRow,
    TableCell,
    Emphasis,
    Strong,
    Strikethrough,
    Superscript,
    Subscript,
    Link,
    Image,
    MetadataBlock,
}

/// A step through a document. The parameter is the type of the texts in it.
pub enum MarkEvent<S> {
    Start(MarkTag<S>),
    End(MarkEnd),
    Text(S),
    Code(S),
    InlineMath(S),
    DisplayMath(S),
    Html(S),
    InlineHtml(S),
    FootnoteReference(S),
    SoftBreak,
    HardBreak,
    Rule,
    TaskListMarker(bool),
}

impl View for MarkTag<String> {
    type V = MarkTag<Seq<char>>;

    open spec fn view(&self) -> MarkTag<Seq<char>> {
        match *self {
            MarkTag::Paragraph => MarkTag::Paragraph,
            MarkTag::Heading(level) => MarkTag::Heading(level),
            MarkTag::BlockQuote => MarkTag::BlockQuote,
            MarkTag::CodeBlock(Some(info)) => MarkTag::CodeBlock(Some(info@)),
            MarkTag::CodeBlock(None) => MarkTag::CodeBlock(None),
            MarkTag::HtmlBlock => MarkTag::HtmlBlock,
            MarkTag::List(first) => MarkTag::List(first),
            MarkTag::Item => MarkTag::Item,
            MarkTag::FootnoteDefinition(label) => MarkTag::FootnoteDefinition(label@),
            MarkTag::DefinitionList => MarkTag::DefinitionList,
            MarkTag::DefinitionListTitle => MarkTag::DefinitionListTitle,
            MarkTag::DefinitionListDefinition => MarkTag::DefinitionListDefinition,
            MarkTag::Table => MarkTag::Table,
            MarkTag::TableHead => MarkTag::TableHead,
            MarkTag::TableRow => MarkTag::TableRow,
            MarkTag::TableCell => MarkTag::TableCell,
            MarkTag::Emphasis => MarkTag::Emphasis,
            MarkTag::Strong => MarkTag::Strong,
            MarkTag::Strikethrough => MarkTag::Strikethrough,
            MarkTag::Superscript => MarkTag::Superscript,
            MarkTag::Subscript => MarkTag::Subscript,
            MarkTag::Link(url) => MarkTag::Link(url@),
            MarkTag::Image(url) => MarkTag::Image(url@),
            MarkTag::MetadataBlock => MarkTag::MetadataBlock,
        }
    }
}

impl View for MarkEvent<String> {
    type V = MarkEvent<Seq<char>>;

    open spec fn view(&self) -> MarkEvent<Seq<char>> {
        match *self {
            MarkEvent::Start(tag) => MarkEvent::Start(tag@),
            MarkEvent::End(tag) => MarkEvent::End(tag),
            MarkEvent::Text(s) => MarkEvent::Text(s@),
            MarkEvent::Code(s) => MarkEvent::Code(s@),
            MarkEvent::InlineMath(s) => MarkEvent::InlineMath(s@),
            MarkEvent::DisplayMath(s) => MarkEvent::DisplayMath(s@),
            MarkEvent::Html(s) => MarkEvent::Html(s@),
            MarkEvent::InlineHtml(s) => MarkEvent::InlineHtml(s@),
            MarkEvent::FootnoteReference(s) => MarkEvent::FootnoteReference(s@),
            MarkEvent::SoftBreak => MarkEvent::SoftBreak,
            MarkEvent::HardBreak => MarkEvent::HardBreak,
            MarkEvent::Rule => MarkEvent::Rule,
            MarkEvent::TaskListMarker(checked) => MarkEvent::TaskListMarker(checked),
        }
    }
}

pub open spec fn events_of(v: Seq<MarkEvent<String>>) -> Seq<MarkEvent<Seq<char>>> {
    Seq::new(v.len(), |i: int| v[i]@)
}

// ---------------------------------------------------------------------------------------------
// The parser's own values
// ---------------------------------------------------------------------------------------------

/// An event as the parser hands it out.
#[verifier::external_type_specification]
#[verifier::external_body]
pub struct ExEvent<'a>(pulldown_cmark::Event<'a>);

/// The beginning of an element as the parser hands it out.
#[verifier::external_type_specification]
#[verifier::external_body]
pub struct ExTag<'a>(pulldown_cmark::Tag<'a>);

/// The end of an element as the parser hands it out.
#[verifier::external_type_specification]
#[verifier::external_body]
pub struct ExTagEnd(pulldown_cmark::TagEnd);

/// What a `pulldown_cmark::Tag` holds, variant for variant: of a heading its level, of a link or an
/// image its destination.
pub uninterp spec fn tag_contents(tag: Tag<'_>) -> MarkTag<Seq<char>>;

/// What a `pulldown_cmark::TagEnd` holds, variant for variant.
pub uninterp spec fn end_contents(tag: TagEnd) -> MarkEnd;

/// What a `pulldown_cmark::Event` holds, variant for variant.
pub uninterp spec fn event_contents(event: Event<'_>) -> MarkEvent<Seq<char>>;

/// The events of `pulldown_cmark::Parser::new_ext` on a text, with the extensions for GitHub's
/// block quotes, strikethrough, tables and task lists on or off.
pub uninterp spec fn markdown_events(
    s: Seq<char>,
    gfm: bool,
    strikethrough: bool,
    tables: bool,
    tasklists: bool,
) -> Seq<MarkEvent<Seq<char>>>;

/// The tags that `block_tag` tells apart.
pub open spec fn is_block<S>(tag: MarkTag<S>) -> bool {
    ||| tag is Paragraph
    ||| tag is Heading
    ||| tag is BlockQuote
    ||| tag is CodeBlock
    ||| tag is HtmlBlock
    ||| tag is List
    ||| tag is Item
    ||| tag is FootnoteDefinition
    ||| tag is DefinitionList
    ||| tag is Table
    ||| tag is MetadataBlock
}

/// The ends that `block_end` tells apart.
pub open spec fn is_block_end(tag: MarkEnd) -> bool {
    ||| tag is Paragraph
    ||| tag is Heading
    ||| tag is BlockQuote
    ||| tag is CodeBlock
    ||| tag is HtmlBlock
    ||| tag is List
    ||| tag is Item
    ||| tag is FootnoteDefinition
    ||| tag is DefinitionList
    ||| tag is Table
    ||| tag is MetadataBlock
}

/// Reads a `pulldown_cmark::Tag` that is one of the block elements in `is_block`: the result is what
/// the tag holds, and there is none exactly for the other tags.
#[verifier::external_body]
fn block_tag(tag: &Tag<'_>) -> (r: Option<MarkTag<String>>)
    ensures
        match r {
            Some(m) => m@ == tag_contents(*tag) && is_block(m@),
            None => !is_block(tag_contents(*tag)),
        },
{
    Some(match tag {
        Tag::Paragraph => MarkTag::Paragraph,
        Tag::Heading { level, .. } => MarkTag::Heading(*level as u8),
        Tag::BlockQuote(_) => MarkTag::BlockQuote,
        Tag::CodeBlock(CodeBlockKind::Indented) => MarkTag::CodeBlock(None),
        Tag::CodeBlock(CodeBlockKind::Fenced(s)) => MarkTag::CodeBlock(Some(s.to_string())),
        Tag::HtmlBlock => MarkTag::HtmlBlock,
        Tag::List(first) => MarkTag::List(*first),
        Tag::Item => MarkTag::Item,
        Tag::FootnoteDefinition(s) => MarkTag::FootnoteDefinition(s.to_string()),
        Tag::DefinitionList => MarkTag::DefinitionList,
        Tag::Table(_) => MarkTag::Table,
        Tag::MetadataBlock(_) => MarkTag::MetadataBlock,
        _ => return None,
    })
}

/// Reads a `pulldown_cmark::Tag` that is none of those in `is_block`: the result is what the tag
/// holds, and there is none exactly for the tags in `is_block`.
#[verifier::external_body]
fn span_tag(tag: &Tag<'_>) -> (r: Option<MarkTag<String>>)
    ensures
        match r {
            Some(m) => m@ == tag_contents(*tag) && !is_block(m@),
            None => is_block(tag_contents(*tag)),
        },
{
    Some(match tag {
        Tag::DefinitionListTitle => MarkTag::DefinitionListTitle,
        Tag::DefinitionListDefinition => MarkTag::DefinitionListDefinition,
        Tag::TableHead => MarkTag::TableHead,
        Tag::TableRow => MarkTag::TableRow,
        Tag::TableCell => MarkTag::TableCell,
        Tag::Emphasis => MarkTag::Emphasis,
        Tag::Strong => MarkTag::Strong,
        Tag::Strikethrough => MarkTag::Strikethrough,
        Tag::Superscript => MarkTag::Superscript,
        Tag::Subscript => MarkTag::Subscript,
        Tag::Link { dest_url, .. } => MarkTag::Link(dest_url.to_string()),
        Tag::Image { dest_url, .. } => MarkTag::Image(dest_url.to_string()),
        _ => return None,
    })
}

/// Reads a `pulldown_cmark::TagEnd` that is one of those in `is_block_end`: the result is what it
/// holds, and there is none exactly for the others.
#[verifier::external_body]
fn block_end(tag: &TagEnd) -> (r: Option<MarkEnd>)
    ensures
        match r {
            Some(m) => m == end_contents(*tag) && is_block_end(m),
            None => !is_block_end(end_contents(*tag)),
        },
{
    Some(match tag {
        TagEnd::Paragraph => MarkEnd::Paragraph,
        TagEnd::Heading(_) => MarkEnd::Heading,
        TagEnd::BlockQuote(_) => MarkEnd::BlockQuote,
        TagEnd::CodeBlock => MarkEnd::CodeBlock,
        TagEnd::HtmlBlock => MarkEnd::HtmlBlock,
        TagEnd::List(_) => MarkEnd::List,
        TagEnd::Item => MarkEnd::Item,
        TagEnd::FootnoteDefinition => MarkEnd::FootnoteDefinition,
        TagEnd::DefinitionList => MarkEnd::DefinitionList,
        TagEnd::Table => MarkEnd::Table,
        TagEnd::MetadataBlock(_) => MarkEnd::MetadataBlock,
        _ => return None,
    })
}

/// Reads a `pulldown_cmark::TagEnd` that is none of those in `is_block_end`: the result is what it
/// holds, and there is none exactly for those in `is_block_end`.
#[verifier::external_body]
fn span_end(tag: &TagEnd) -> (r: Option<MarkEnd>)
    ensures
        match r {
            Some(m) => m == end_contents(*tag) && !is_block_end(m),
            None => is_block_end(end_contents(*tag)),
        },
{
    Some(match tag {
        TagEnd::DefinitionListTitle => MarkEnd::DefinitionListTitle,
        TagEnd::DefinitionListDefinition => MarkEnd::DefinitionListDefinition,
        TagEnd::TableHead => MarkEnd::TableHead,
        TagEnd::TableRow => MarkEnd::TableRow,
        TagEnd::TableCell => MarkEnd::TableCell,
        TagEnd::Emphasis => MarkEnd::Emphasis,
        TagEnd::Strong => MarkEnd::Strong,
        TagEnd::Strikethrough => MarkEnd::Strikethrough,
        TagEnd::Superscript => MarkEnd::Superscript,
        TagEnd::Subscript => MarkEnd::Subscript,
        TagEnd::Link => MarkEnd::Link,
        TagEnd::Image => MarkEnd::Image,
        _ => return None,
    })
}

/// An event of which the element is still the parser's own value.
enum OpenEvent<'a> {
    Start(Tag<'a>),
    End(TagEnd),
    Plain(MarkEvent<String>),
}

impl<'a> OpenEvent<'a> {
    spec fn contents(self) -> MarkEvent<Seq<char>> {
        match self {
            Start(tag) => MarkEvent::Start(tag_contents(tag)),
            End(tag) => MarkEvent::End(end_contents(tag)),
            Plain(event) => event@,
        }
    }
}

/// Reads a `pulldown_cmark::Event`: the result holds what the event holds.
#[verifier::external_body]
fn open_event<'a>(event: Event<'a>) -> (r: OpenEvent<'a>)
    ensures
        r.contents() == event_contents(event),
{
    Plain(match event {
        Event::Start(tag) => return Start(tag),
        Event::End(tag) => return End(tag),
        Event::Text(s) => MarkEvent::Text(s.into_string()),
        Event::Code(s) => MarkEvent::Code(s.into_string()),
        Event::InlineMath(s) => MarkEvent::InlineMath(s.into_string()),
        Event::DisplayMath(s) => MarkEvent::DisplayMath(s.into_string()),
        Event::Html(s) => MarkEvent::Html(s.into_string()),
        Event::InlineHtml(s) => MarkEvent::InlineHtml(s.into_string()),
        Event::FootnoteReference(s) => MarkEvent::FootnoteReference(s.into_string()),
        Event::SoftBreak => MarkEvent::SoftBreak,
        Event::HardBreak => MarkEvent::HardBreak,
        Event::Rule => MarkEvent::Rule,
        Event::TaskListMarker(checked) => MarkEvent::TaskListMarker(checked),
    })
}

fn read_tag(tag: &Tag<'_>) -> (r: MarkTag<String>)
    ensures
        r@ == tag_contents(*tag),
{
    match block_tag(tag) {
        Some(m) => m,
        None => match span_tag(tag) {
            Some(m) => m,
            None => {
                proof {
                    assert(false);
                }
                MarkTag::Paragraph
            },
        },
    }
}

fn read_end(tag: &TagEnd) -> (r: MarkEnd)
    ensures
        r == end_contents(*tag),
{
    match block_end(tag) {
        Some(m) => m,
        None => match span_end(tag) {
            Some(m) => m,
            None => {
                proof {
                    assert(false);
                }
                MarkEnd::Paragraph
            },
        },
    }
}

/// An event of the parser as a plain value.
fn read_event(event: Event<'_>) -> (r: MarkEvent<String>)
    ensures
        r@ == event_contents(event),
{
    match open_event(event) {
        Start(tag) => MarkEvent::Start(read_tag(&tag)),
        End(tag) => MarkEvent::End(read_end(&tag)),
        Plain(event) => event,
    }
}

/// Runs `pulldown_cmark::Parser::new_ext` over a text with the four extensions set as given and all
/// others off, and collects its events as plain values.
#[verifier::external_body]
pub(crate) fn parse_events(
    s: &str,
    gfm: bool,
    strikethrough: bool,
    tables: bool,
    tasklists: bool,
) -> (r: Vec<MarkEvent<String>>)
    ensures
        events_of(r@) == markdown_events(s@, gfm, strikethrough, tables, tasklists),
{
    let mut options = Options::empty();
    options.set(Options::ENABLE_GFM, gfm);
    options.set(Options::ENABLE_STRIKETHROUGH, strikethrough);
    options.set(Options::ENABLE_TABLES, tables);
    options.set(Options::ENABLE_TASKLISTS, tasklists);
    Parser::new_ext(s, options).map(|event| read_event(event)).collect()
}

} // verus!
