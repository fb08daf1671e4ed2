//! Markdown as rich text, and the form in which an answer is shown.

use crate::markup;
use crate::markup::MarkEnd;
use crate::markup::MarkEvent;
use crate::markup::MarkTag;
use crate::number;
use crate::rich;
use crate::rich::Mark;
use crate::rich::RichEntity;
use crate::rich::RichEntityKind;
use crate::rich::RichModel;
use crate::rich::RichText;
use crate::scan;
use crate::text;
use vstd::prelude::*;

verus! {

/// What an element's end closes.
#[derive(Clone, Copy, Debug, PartialEq, Eq, Structural)]
pub enum EntityClass {
    Bold,
    Italic,
    Strike,
    Pre,
    Link,
}

/// A list that is being written.
#[derive(Clone, Copy, Debug, PartialEq, Eq, Structural)]
pub struct ListState {
    pub ordered: bool,
    pub next: u64,
}

/// An element that has begun and not ended.
pub struct OpenEntity {
    pub start: usize,
    pub kind: RichEntityKind<String>,
}

/// Rich text that is being written, event by event.
pub struct MarkdownBuilder {
    pub rich: RichText,
    pub open: Vec<OpenEntity>,
    pub lists: Vec<ListState>,
    pub quote_depth: usize,
    pub table_cell_seen: bool,
}

#[verifier::ext_equal]
pub struct OpenModel {
    pub start: nat,
    pub kind: RichEntityKind<Seq<char>>,
}

#[verifier::ext_equal]
pub struct BuilderModel {
    pub rich: RichModel,
    pub open: Seq<OpenModel>,
    pub lists: Seq<ListState>,
    pub quote_depth: usize,
    pub table_cell_seen: bool,
}

impl View for OpenEntity {
    type V = OpenModel;

    open spec fn view(&self) -> OpenModel {
        OpenModel { start: self.start as nat, kind: self.kind@ }
    }
}

pub open spec fn opens_of(v: Seq<OpenEntity>) -> Seq<OpenModel> {
    Seq::new(v.len(), |i: int| v[i]@)
}

impl View for MarkdownBuilder {
    type V = BuilderModel;

    open spec fn view(&self) -> BuilderModel {
        BuilderModel {
            rich: self.rich@,
            open: opens_of(self.open@),
            lists: self.lists@,
            quote_depth: self.quote_depth,
            table_cell_seen: self.table_cell_seen,
        }
    }
}

pub open spec fn class_of<S>(kind: RichEntityKind<S>) -> EntityClass {
    match kind {
        RichEntityKind::Bold => EntityClass::Bold,
        RichEntityKind::Italic => EntityClass::Italic,
        RichEntityKind::Strike => EntityClass::Strike,
        RichEntityKind::Code => EntityClass::Pre,
        RichEntityKind::Pre(_) => EntityClass::Pre,
        RichEntityKind::TextUrl(_) => EntityClass::Link,
        RichEntityKind::Blockquote { .. } => EntityClass::Pre,
    }
}

impl RichEntityKind<String> {
    pub fn class(&self) -> (r: EntityClass)
        ensures
            r == class_of(self@),
    {
        match self {
            RichEntityKind::Bold => EntityClass::Bold,
            RichEntityKind::Italic => EntityClass::Italic,
            RichEntityKind::Strike => EntityClass::Strike,
            RichEntityKind::Code => EntityClass::Pre,
            RichEntityKind::Pre(_) => EntityClass::Pre,
            RichEntityKind::TextUrl(_) => EntityClass::Link,
            RichEntityKind::Blockquote { .. } => EntityClass::Pre,
        }
    }
}

/// The position of the last open element of a class.
pub open spec fn last_of_class(open: Seq<OpenModel>, class: EntityClass) -> Option<nat>
    decreases open.len(),
{
    if open.len() == 0 {
        None
    } else if class_of(open.last().kind) == class {
        Some((open.len() - 1) as nat)
    } else {
        last_of_class(open.drop_last(), class)
    }
}

/// What stands before the text of a heading.
pub open spec fn heading_marker(level: u8) -> Seq<char> {
    if level == 2 {
        "▌"@
    } else if level == 3 {
        "• "@
    } else {
        ""@
    }
}

/// The bars before a quoted line: one for each level, at most three.
pub open spec fn quote_bars(depth: usize) -> Seq<char> {
    scan::repeated(
        "┃ "@,
        if depth <= 3 {
            depth as nat
        } else {
            3
        },
    )
}

/// The spaces before an item of the innermost of `n` lists.
pub open spec fn item_indent(n: nat) -> Seq<char> {
    scan::repeated(
        "  "@,
        if n <= 1 {
            0
        } else if n == 2 {
            1
        } else {
            2
        },
    )
}

/// The language of a fenced code block: the first word behind the fence.
pub open spec fn first_word(s: Seq<char>) -> Seq<char> {
    if scan::words(s).len() == 0 {
        Seq::empty()
    } else {
        scan::words(s)[0]
    }
}

impl BuilderModel {
    pub open spec fn empty() -> BuilderModel {
        BuilderModel {
            rich: RichModel::empty(),
            open: Seq::empty(),
            lists: Seq::empty(),
            quote_depth: 0,
            table_cell_seen: false,
        }
    }

    pub open spec fn say(self, s: Seq<char>) -> BuilderModel {
        BuilderModel { rich: self.rich.then_text(s), ..self }
    }

    pub open spec fn broken(self, wanted: nat) -> BuilderModel {
        BuilderModel { rich: self.rich.broken(wanted), ..self }
    }

    pub open spec fn opened(self, kind: RichEntityKind<Seq<char>>) -> BuilderModel {
        BuilderModel {
            open: self.open.push(OpenModel { start: self.rich.len16(), kind }),
            ..self
        }
    }

    pub open spec fn marked(self, start: nat, kind: RichEntityKind<Seq<char>>) -> BuilderModel {
        BuilderModel { rich: self.rich.marked(start, kind), ..self }
    }

    pub open spec fn closed(self, class: EntityClass) -> BuilderModel {
        match last_of_class(self.open, class) {
            Some(i) => BuilderModel { open: self.open.remove(i as int), ..self }.marked(
                self.open[i as int].start,
                self.open[i as int].kind,
            ),
            None => self,
        }
    }

    /// Two line breaks, unless nothing has been written.
    pub open spec fn set_off(self) -> BuilderModel {
        if self.rich.text.len() == 0 {
            self
        } else {
            self.broken(2)
        }
    }

    pub open spec fn line_broken(self) -> BuilderModel {
        if self.quote_depth > 0 {
            self.broken(1).say(quote_bars(self.quote_depth))
        } else {
            self.broken(1)
        }
    }

    /// With the mark of an item of the innermost list, which counts on.
    pub open spec fn numbered(self) -> BuilderModel {
        if self.lists.len() == 0 {
            self
        } else if self.lists.last().ordered {
            BuilderModel {
                lists: self.lists.drop_last().push(
                    ListState { next: self.lists.last().next.wrapping_add(1), ..self.lists.last() },
                ),
                ..self
            }.say(number::decimal(self.lists.last().next as nat) + ". "@)
        } else {
            self.say("• "@)
        }
    }

    pub open spec fn started(self, tag: MarkTag<Seq<char>>) -> BuilderModel {
        match tag {
            MarkTag::Heading(level) => self.set_off().say(heading_marker(level)).opened(
                RichEntityKind::Bold,
            ),
            MarkTag::BlockQuote => {
                let depth = self.quote_depth.wrapping_add(1);
                BuilderModel { quote_depth: depth, ..self.set_off() }.say(quote_bars(depth))
            },
            MarkTag::CodeBlock(info) => self.set_off().opened(
                RichEntityKind::Pre(
                    match info {
                        Some(s) => first_word(s),
                        None => Seq::empty(),
                    },
                ),
            ),
            MarkTag::List(first) => BuilderModel {
                lists: self.lists.push(
                    match first {
                        Some(n) => ListState { ordered: true, next: n },
                        None => ListState { ordered: false, next: 1 },
                    },
                ),
                ..self
            },
            MarkTag::Item => self.broken(1).say(item_indent(self.lists.len())).numbered(),
            MarkTag::Emphasis | MarkTag::Superscript | MarkTag::Subscript => self.opened(
                RichEntityKind::Italic,
            ),
            MarkTag::Strong | MarkTag::DefinitionListTitle | MarkTag::TableHead => self.opened(
                RichEntityKind::Bold,
            ),
            MarkTag::Strikethrough => self.opened(RichEntityKind::Strike),
            MarkTag::Link(url) | MarkTag::Image(url) => if rich::safe_link(url) {
                self.opened(RichEntityKind::TextUrl(url))
            } else {
                self
            },
            MarkTag::TableRow => BuilderModel { table_cell_seen: false, ..self },
            MarkTag::TableCell => BuilderModel {
                table_cell_seen: true,
                ..if self.table_cell_seen {
                    self.say(" │ "@)
                } else {
                    self
                }
            },
            MarkTag::FootnoteDefinition(label) => self.broken(2).say("["@ + label + "] "@),
            MarkTag::DefinitionListDefinition => self.say("  "@),
            MarkTag::Paragraph | MarkTag::HtmlBlock | MarkTag::DefinitionList | MarkTag::Table
            | MarkTag::MetadataBlock => self,
        }
    }

    pub open spec fn ended(self, tag: MarkEnd) -> BuilderModel {
        match tag {
            MarkEnd::Paragraph => if self.lists.len() == 0 {
                self.broken(2)
            } else {
                self
            },
            MarkEnd::Heading => self.closed(EntityClass::Bold).broken(2),
            MarkEnd::BlockQuote => BuilderModel {
                quote_depth: if self.quote_depth == 0 {
                    0
                } else {
                    (self.quote_depth - 1) as usize
                },
                ..self
            }.broken(2),
            MarkEnd::CodeBlock => self.closed(EntityClass::Pre).broken(2),
            MarkEnd::List => {
                let lists = if self.lists.len() == 0 {
                    self.lists
                } else {
                    self.lists.drop_last()
                };
                BuilderModel { lists, ..self }.broken(
                    if lists.len() == 0 {
                        2
                    } else {
                        1
                    },
                )
            },
            MarkEnd::Item | MarkEnd::TableRow => self.broken(1),
            MarkEnd::Emphasis | MarkEnd::Superscript | MarkEnd::Subscript => self.closed(
                EntityClass::Italic,
            ),
            MarkEnd::Strong | MarkEnd::DefinitionListTitle | MarkEnd::TableHead => self.closed(
                EntityClass::Bold,
            ),
            MarkEnd::Strikethrough => self.closed(EntityClass::Strike),
            MarkEnd::Link | MarkEnd::Image => self.closed(EntityClass::Link),
            MarkEnd::Table => self.broken(2),
            MarkEnd::HtmlBlock | MarkEnd::FootnoteDefinition | MarkEnd::TableCell
            | MarkEnd::DefinitionList | MarkEnd::DefinitionListDefinition | MarkEnd::MetadataBlock =>
            self,
        }
    }

    pub open spec fn step(self, event: MarkEvent<Seq<char>>) -> BuilderModel {
        match event {
            MarkEvent::Start(tag) => self.started(tag),
            MarkEvent::End(tag) => self.ended(tag),
            MarkEvent::Text(s) | MarkEvent::Html(s) | MarkEvent::InlineHtml(s) => self.say(s),
            MarkEvent::Code(s) | MarkEvent::InlineMath(s) => self.say(s).marked(
                self.rich.len16(),
                RichEntityKind::Code,
            ),
            MarkEvent::DisplayMath(s) => self.say(s).marked(
                self.rich.len16(),
                RichEntityKind::Pre(Seq::empty()),
            ).broken(2),
            MarkEvent::FootnoteReference(label) => self.say("["@ + label + "]"@),
            MarkEvent::SoftBreak | MarkEvent::HardBreak => self.line_broken(),
            MarkEvent::Rule => self.broken(2).say("────────────────"@).broken(2),
            MarkEvent::TaskListMarker(checked) => self.say(
                if checked {
                    "☑ "@
                } else {
                    "☐ "@
                },
            ),
        }
    }

    pub open spec fn run(self, events: Seq<MarkEvent<Seq<char>>>) -> BuilderModel
        decreases events.len(),
    {
        if events.len() == 0 {
            self
        } else {
            self.run(events.drop_last()).step(events.last())
        }
    }

    /// Open elements reach to the end; whitespace at the end goes.
    pub open spec fn finished(self) -> RichModel {
        all_closed(self.rich, self.open).trimmed()
    }

    /// The text is sound, and every open element began between characters.
    pub open spec fn sound(self) -> bool {
        &&& self.rich.sound()
        &&& forall|i: int| #![trigger self.open[i]]
            0 <= i < self.open.len() ==> rich::boundary(self.rich.text, self.open[i].start)
                && rich::safe_kind(self.open[i].kind)
    }
}

pub open spec fn all_closed(r: RichModel, open: Seq<OpenModel>) -> RichModel
    decreases open.len(),
{
    if open.len() == 0 {
        r
    } else {
        all_closed(r.marked(open.last().start, open.last().kind), open.drop_last())
    }
}

/// What a sequence of events looks like.
pub open spec fn rendered(events: Seq<MarkEvent<Seq<char>>>) -> RichModel {
    BuilderModel::empty().run(events).finished()
}

/// What a Markdown text looks like, with GitHub's extensions, strikethrough, tables and task lists.
pub open spec fn markdown_rich(s: Seq<char>) -> RichModel {
    rendered(markup::markdown_events(s, true, true, true, true))
}

// ---------------------------------------------------------------------------------------------
// Answers
// ---------------------------------------------------------------------------------------------

/// From what length on questions and answers are folded, in UTF-16 code units: from the first one on,
/// or, as no text is that long, never.
pub open spec fn fold_from(collapse: bool) -> usize {
    if collapse {
        1
    } else {
        usize::MAX
    }
}

/// The head of a response: the question, as a quote that is folded if it is long.
pub open spec fn question_part(question: Seq<char>, threshold: nat) -> RichModel {
    let label = RichModel::empty().then_text("Q:"@).marked(0, RichEntityKind::Bold).then_text(
        "\n"@,
    );
    let start = label.len16();
    let asked = label.then_text(scan::trimmed(question));
    let length = (asked.len16() - start) as nat;
    if length >= threshold {
        asked.with_mark(
            Mark { offset: start, length, kind: RichEntityKind::Blockquote { collapsed: true } },
        )
    } else {
        asked.marked(start, RichEntityKind::Blockquote { collapsed: false })
    }
}

/// With the answer behind it, as a folded quote if it is long.
pub open spec fn answer_part(head: RichModel, answer: RichModel, threshold: nat) -> RichModel {
    let gap = head.then_text("\n\n"@);
    let label = gap.then_text("A:"@).marked(gap.len16(), RichEntityKind::Bold).then_text("\n"@);
    let start = label.len16();
    let full = label.appended(answer);
    let length = (full.len16() - start) as nat;
    if length >= threshold {
        full.with_mark(
            Mark { offset: start, length, kind: RichEntityKind::Blockquote { collapsed: true } },
        )
    } else {
        full
    }
}

/// A response: question, answer, and who gave it.
pub open spec fn response_rich(
    question: Seq<char>,
    answer: RichModel,
    provider: Seq<char>,
    threshold: nat,
) -> RichModel {
    let body = answer_part(question_part(question, threshold), answer, threshold).then_text(
        "\n\n"@,
    );
    body.then_text("🍀 Powered by "@ + provider).marked(
        body.len16(),
        RichEntityKind::Italic,
    ).trimmed()
}

// ---------------------------------------------------------------------------------------------
// Proofs
// ---------------------------------------------------------------------------------------------

proof fn lemma_sound_say(b: BuilderModel, s: Seq<char>)
    requires
        b.sound(),
    ensures
        b.say(s).sound(),
{
    rich::lemma_sound_text(b.rich, s);
    let c = b.say(s);
    assert forall|i: int| #![trigger c.open[i]]
        0 <= i < c.open.len() implies rich::boundary(c.rich.text, c.open[i].start)
        && rich::safe_kind(c.open[i].kind) by {
        assert(c.open[i] == b.open[i]);
        rich::lemma_boundary_before(b.rich.text, s, b.open[i].start);
    }
}

proof fn lemma_sound_broken(b: BuilderModel, wanted: nat)
    requires
        b.sound(),
    ensures
        b.broken(wanted).sound(),
{
    let existing = rich::newline_count(b.rich.text);
    if existing < wanted {
        lemma_sound_say(b, scan::repeated(seq!['\n'], (wanted - existing) as nat));
    }
}

proof fn lemma_sound_opened(b: BuilderModel, kind: RichEntityKind<Seq<char>>)
    requires
        b.sound(),
        rich::safe_kind(kind),
    ensures
        b.opened(kind).sound(),
{
    rich::lemma_boundary_ends(b.rich.text);
    let c = b.opened(kind);
    assert forall|i: int| #![trigger c.open[i]]
        0 <= i < c.open.len() implies rich::boundary(c.rich.text, c.open[i].start)
        && rich::safe_kind(c.open[i].kind) by {
        if i < b.open.len() {
            assert(c.open[i] == b.open[i]);
        }
    }
}

proof fn lemma_last_of_class(open: Seq<OpenModel>, class: EntityClass)
    ensures
        match last_of_class(open, class) {
            Some(i) => {
                &&& i < open.len()
                &&& class_of(open[i as int].kind) == class
                &&& forall|j: int| i < j < open.len() ==> class_of(#[trigger] open[j].kind) != class
            },
            None => forall|j: int|
                0 <= j < open.len() ==> class_of(#[trigger] open[j].kind) != class,
        },
    decreases open.len(),
{
    if open.len() > 0 && class_of(open.last().kind) != class {
        lemma_last_of_class(open.drop_last(), class);
        assert forall|j: int|
            (match last_of_class(open, class) {
                Some(i) => i as int,
                None => -1,
            }) < j < open.len() implies class_of(#[trigger] open[j].kind) != class by {
            if j < open.len() - 1 {
                assert(open.drop_last()[j] == open[j]);
            }
        }
    }
}

proof fn lemma_sound_closed(b: BuilderModel, class: EntityClass)
    requires
        b.sound(),
    ensures
        b.closed(class).sound(),
{
    lemma_last_of_class(b.open, class);
    if let Some(i) = last_of_class(b.open, class) {
        let at = b.open[i as int];
        rich::lemma_sound_marked(b.rich, at.start, at.kind);
        let c = b.closed(class);
        assert forall|j: int| #![trigger c.open[j]]
            0 <= j < c.open.len() implies rich::boundary(c.rich.text, c.open[j].start)
            && rich::safe_kind(c.open[j].kind) by {
            if j < i {
                assert(c.open[j] == b.open[j]);
            } else {
                assert(c.open[j] == b.open[j + 1]);
            }
        }
    }
}

proof fn lemma_sound_marked(b: BuilderModel, start: nat, kind: RichEntityKind<Seq<char>>)
    requires
        b.sound(),
        rich::boundary(b.rich.text, start),
        rich::safe_kind(kind),
    ensures
        b.marked(start, kind).sound(),
{
    rich::lemma_sound_marked(b.rich, start, kind);
    let c = b.marked(start, kind);
    assert forall|i: int| #![trigger c.open[i]]
        0 <= i < c.open.len() implies rich::boundary(c.rich.text, c.open[i].start)
        && rich::safe_kind(c.open[i].kind) by {
        assert(c.open[i] == b.open[i]);
    }
}

/// Soundness does not depend on lists, quote depth or table cells.
proof fn lemma_sound_same(b: BuilderModel, c: BuilderModel)
    requires
        b.sound(),
        c.rich == b.rich,
        c.open == b.open,
    ensures
        c.sound(),
{
    assert forall|i: int| #![trigger c.open[i]]
        0 <= i < c.open.len() implies rich::boundary(c.rich.text, c.open[i].start)
        && rich::safe_kind(c.open[i].kind) by {
        assert(c.open[i] == b.open[i]);
    }
}

proof fn lemma_sound_started(b: BuilderModel, tag: MarkTag<Seq<char>>)
    requires
        b.sound(),
    ensures
        b.started(tag).sound(),
{
    lemma_sound_broken(b, 2);
    let s = b.set_off();
    match tag {
        MarkTag::Heading(level) => {
            lemma_sound_say(s, heading_marker(level));
            lemma_sound_opened(s.say(heading_marker(level)), RichEntityKind::Bold);
        },
        MarkTag::BlockQuote => {
            let depth = b.quote_depth.wrapping_add(1);
            let c = BuilderModel { quote_depth: depth, ..s };
            lemma_sound_same(s, c);
            lemma_sound_say(c, quote_bars(depth));
        },
        MarkTag::CodeBlock(info) => {
            lemma_sound_opened(
                s,
                RichEntityKind::Pre(
                    match info {
                        Some(s) => first_word(s),
                        None => Seq::empty(),
                    },
                ),
            );
        },
        MarkTag::Item => {
            lemma_sound_broken(b, 1);
            lemma_sound_say(b.broken(1), item_indent(b.lists.len()));
            let c = b.broken(1).say(item_indent(b.lists.len()));
            if c.lists.len() > 0 {
                if c.lists.last().ordered {
                    let d = BuilderModel {
                        lists: c.lists.drop_last().push(
                            ListState {
                                next: c.lists.last().next.wrapping_add(1),
                                ..c.lists.last()
                            },
                        ),
                        ..c
                    };
                    lemma_sound_same(c, d);
                    lemma_sound_say(d, number::decimal(c.lists.last().next as nat) + ". "@);
                } else {
                    lemma_sound_say(c, "• "@);
                }
            }
        },
        MarkTag::Emphasis | MarkTag::Superscript | MarkTag::Subscript => {
            lemma_sound_opened(b, RichEntityKind::Italic);
        },
        MarkTag::Strong | MarkTag::DefinitionListTitle | MarkTag::TableHead => {
            lemma_sound_opened(b, RichEntityKind::Bold);
        },
        MarkTag::Strikethrough => {
            lemma_sound_opened(b, RichEntityKind::Strike);
        },
        MarkTag::Link(url) | MarkTag::Image(url) => {
            if rich::safe_link(url) {
                lemma_sound_opened(b, RichEntityKind::TextUrl(url));
            }
        },
        MarkTag::TableCell => {
            if b.table_cell_seen {
                lemma_sound_say(b, " │ "@);
                lemma_sound_same(b.say(" │ "@), b.started(tag));
            } else {
                lemma_sound_same(b, b.started(tag));
            }
        },
        MarkTag::FootnoteDefinition(label) => {
            lemma_sound_say(b.broken(2), "["@ + label + "] "@);
        },
        MarkTag::DefinitionListDefinition => {
            lemma_sound_say(b, "  "@);
        },
        _ => {
            lemma_sound_same(b, b.started(tag));
        },
    }
}

proof fn lemma_sound_ended(b: BuilderModel, tag: MarkEnd)
    requires
        b.sound(),
    ensures
        b.ended(tag).sound(),
{
    match tag {
        MarkEnd::Heading => {
            lemma_sound_closed(b, EntityClass::Bold);
            lemma_sound_broken(b.closed(EntityClass::Bold), 2);
        },
        MarkEnd::BlockQuote => {
            let c = BuilderModel {
                quote_depth: if b.quote_depth == 0 {
                    0
                } else {
                    (b.quote_depth - 1) as usize
                },
                ..b
            };
            lemma_sound_same(b, c);
            lemma_sound_broken(c, 2);
        },
        MarkEnd::CodeBlock => {
            lemma_sound_closed(b, EntityClass::Pre);
            lemma_sound_broken(b.closed(EntityClass::Pre), 2);
        },
        MarkEnd::List => {
            let lists = if b.lists.len() == 0 {
                b.lists
            } else {
                b.lists.drop_last()
            };
            let c = BuilderModel { lists, ..b };
            lemma_sound_same(b, c);
            lemma_sound_broken(c, 1);
            lemma_sound_broken(c, 2);
        },
        _ => {
            lemma_sound_broken(b, 1);
            lemma_sound_broken(b, 2);
            lemma_sound_closed(b, EntityClass::Italic);
            lemma_sound_closed(b, EntityClass::Bold);
            lemma_sound_closed(b, EntityClass::Strike);
            lemma_sound_closed(b, EntityClass::Link);
        },
    }
}

pub proof fn lemma_sound_step(b: BuilderModel, event: MarkEvent<Seq<char>>)
    requires
        b.sound(),
    ensures
        b.step(event).sound(),
{
    match event {
        MarkEvent::Start(tag) => {
            lemma_sound_started(b, tag);
        },
        MarkEvent::End(tag) => {
            lemma_sound_ended(b, tag);
        },
        MarkEvent::Text(s) | MarkEvent::Html(s) | MarkEvent::InlineHtml(s) => {
            lemma_sound_say(b, s);
        },
        MarkEvent::Code(s) | MarkEvent::InlineMath(s) => {
            lemma_sound_say(b, s);
            rich::lemma_boundary_ends(b.rich.text);
            rich::lemma_boundary_before(b.rich.text, s, b.rich.len16());
            lemma_sound_marked(b.say(s), b.rich.len16(), RichEntityKind::Code);
        },
        MarkEvent::DisplayMath(s) => {
            lemma_sound_say(b, s);
            rich::lemma_boundary_ends(b.rich.text);
            rich::lemma_boundary_before(b.rich.text, s, b.rich.len16());
            lemma_sound_marked(b.say(s), b.rich.len16(), RichEntityKind::Pre(Seq::empty()));
            lemma_sound_broken(
                b.say(s).marked(b.rich.len16(), RichEntityKind::Pre(Seq::empty())),
                2,
            );
        },
        MarkEvent::FootnoteReference(label) => {
            lemma_sound_say(b, "["@ + label + "]"@);
        },
        MarkEvent::SoftBreak | MarkEvent::HardBreak => {
            lemma_sound_broken(b, 1);
            lemma_sound_say(b.broken(1), quote_bars(b.quote_depth));
        },
        MarkEvent::Rule => {
            lemma_sound_broken(b, 2);
            lemma_sound_say(b.broken(2), "────────────────"@);
            lemma_sound_broken(b.broken(2).say("────────────────"@), 2);
        },
        MarkEvent::TaskListMarker(checked) => {
            lemma_sound_say(b, "☑ "@);
            lemma_sound_say(b, "☐ "@);
        },
    }
}

pub proof fn lemma_sound_run(b: BuilderModel, events: Seq<MarkEvent<Seq<char>>>)
    requires
        b.sound(),
    ensures
        b.run(events).sound(),
    decreases events.len(),
{
    if events.len() > 0 {
        lemma_sound_run(b, events.drop_last());
        lemma_sound_step(b.run(events.drop_last()), events.last());
    }
}

proof fn lemma_sound_all_closed(r: RichModel, open: Seq<OpenModel>)
    requires
        r.sound(),
        forall|i: int| #![trigger open[i]]
            0 <= i < open.len() ==> rich::boundary(r.text, open[i].start) && rich::safe_kind(
                open[i].kind,
            ),
    ensures
        all_closed(r, open).sound(),
        all_closed(r, open).text == r.text,
    decreases open.len(),
{
    if open.len() > 0 {
        assert(open.last() == open[open.len() - 1]);
        rich::lemma_sound_marked(r, open.last().start, open.last().kind);
        let m = r.marked(open.last().start, open.last().kind);
        assert forall|i: int| #![trigger open.drop_last()[i]]
            0 <= i < open.drop_last().len() implies rich::boundary(
            m.text,
            open.drop_last()[i].start,
        ) && rich::safe_kind(open.drop_last()[i].kind) by {
            assert(open.drop_last()[i] == open[i]);
        }
        lemma_sound_all_closed(m, open.drop_last());
    }
}

/// Whatever the events are, the rich text that they become has entities that begin and end between
/// characters and lead nowhere unsafe, and no whitespace at its end.
pub proof fn law_rendered_sound(events: Seq<MarkEvent<Seq<char>>>)
    ensures
        rendered(events).sound(),
        scan::trimmed_end(rendered(events).text) == rendered(events).text,
{
    let start = BuilderModel::empty();
    assert(start.sound());
    lemma_sound_run(start, events);
    let b = start.run(events);
    lemma_sound_all_closed(b.rich, b.open);
    rich::lemma_sound_trimmed(all_closed(b.rich, b.open));
    let t = all_closed(b.rich, b.open).text;
    scan::lemma_trimmed_end(t);
}

proof fn lemma_rendered_text(events: Seq<MarkEvent<Seq<char>>>)
    ensures
        rendered(events).text == scan::trimmed_end(BuilderModel::empty().run(events).rich.text),
{
    let start = BuilderModel::empty();
    assert(start.sound());
    lemma_sound_run(start, events);
    let b = start.run(events);
    lemma_sound_all_closed(b.rich, b.open);
}

/// Whether a text begins with another.
pub open spec fn extends(s: Seq<char>, p: Seq<char>) -> bool {
    p.len() <= s.len() && s.take(p.len() as int) == p
}

proof fn lemma_extends_more(s: Seq<char>, p: Seq<char>, more: Seq<char>)
    requires
        extends(s, p),
    ensures
        extends(s + more, p),
{
    assert((s + more).take(p.len() as int) =~= s.take(p.len() as int));
}

proof fn lemma_step_extends(b: BuilderModel, event: MarkEvent<Seq<char>>, p: Seq<char>)
    requires
        extends(b.rich.text, p),
    ensures
        extends(b.step(event).rich.text, p),
{
    let t = b.rich.text;
    assert forall|s: Seq<char>, more: Seq<char>|
        extends(s, p) implies #[trigger] extends(s + more, p) by {
        lemma_extends_more(s, p, more);
    }
}

proof fn lemma_run_extends(
    b: BuilderModel,
    events: Seq<MarkEvent<Seq<char>>>,
    p: Seq<char>,
)
    requires
        extends(b.rich.text, p),
    ensures
        extends(b.run(events).rich.text, p),
    decreases events.len(),
{
    if events.len() > 0 {
        lemma_run_extends(b, events.drop_last(), p);
        lemma_step_extends(b.run(events.drop_last()), events.last(), p);
    }
}

proof fn lemma_run_split(
    b: BuilderModel,
    before: Seq<MarkEvent<Seq<char>>>,
    after: Seq<MarkEvent<Seq<char>>>,
)
    ensures
        b.run(before + after) == b.run(before).run(after),
    decreases after.len(),
{
    if after.len() == 0 {
        assert(before + after =~= before);
    } else {
        assert((before + after).drop_last() =~= before + after.drop_last());
        lemma_run_split(b, before, after.drop_last());
    }
}

/// Text of a document is kept: what an event brings stands in the result, but for whitespace at the
/// very end.
pub proof fn law_text_kept(
    before: Seq<MarkEvent<Seq<char>>>,
    s: Seq<char>,
    after: Seq<MarkEvent<Seq<char>>>,
)
    ensures
        scan::has(
            rendered(before + seq![MarkEvent::Text(s)] + after).text,
            scan::trimmed_end(s),
        ),
        scan::has(
            rendered(before + seq![MarkEvent::Code(s)] + after).text,
            scan::trimmed_end(s),
        ),
{
    lemma_event_kept(before, MarkEvent::Text(s), s, after);
    lemma_event_kept(before, MarkEvent::Code(s), s, after);
}

proof fn lemma_event_kept(
    before: Seq<MarkEvent<Seq<char>>>,
    event: MarkEvent<Seq<char>>,
    s: Seq<char>,
    after: Seq<MarkEvent<Seq<char>>>,
)
    requires
        forall|b: BuilderModel| (#[trigger] b.step(event)).rich.text == b.rich.text + s,
    ensures
        scan::has(rendered(before + seq![event] + after).text, scan::trimmed_end(s)),
{
    let start = BuilderModel::empty();
    let events = before + seq![event] + after;
    let one = seq![event];
    lemma_run_split(start, before + one, after);
    lemma_run_split(start, before, one);
    let b = start.run(before);
    assert(one.drop_last() =~= Seq::<MarkEvent<Seq<char>>>::empty());
    assert(b.run(one.drop_last()) == b);
    assert(b.run(one) == b.step(event));
    let p = b.rich.text + s;
    assert(p.take(p.len() as int) =~= p);
    lemma_run_extends(b.run(one), after, p);
    let full = start.run(events).rich.text;
    lemma_rendered_text(events);
    let t = scan::trimmed_end(s);
    scan::lemma_trimmed_end(s);
    scan::lemma_trimmed_end(full);
    let out = scan::trimmed_end(full);
    let at = b.rich.text.len() as int;
    if t.len() == 0 {
        assert(out.subrange(0, 0) =~= t);
        assert(scan::occurs(out, t, 0));
    } else {
        let last = at + t.len() - 1;
        assert(full.take(p.len() as int) == p);
        assert(full[last] == p[last]);
        assert(p[last] == t.last());
        if out.len() <= last {
            let tail = full.skip(out.len() as int);
            assert(text::is_space(tail[last - out.len()]));
        }
        assert forall|i: int| 0 <= i < t.len() implies out[at + i] == #[trigger] t[i] by {
            assert(out[at + i] == full[at + i]);
            assert(full.take(p.len() as int)[at + i] == p[at + i]);
        }
        assert(out.subrange(at, at + t.len()) =~= t);
        assert(scan::occurs(out, t, at));
    }
}

/// An element of the text's flow becomes an entity that covers exactly its text, whatever stood
/// before: strong text, emphasis, struck-out text, and links that lead to safe places; the text of
/// other links stays, without an entity.
pub proof fn law_inline_elements(b: BuilderModel, s: Seq<char>, url: Seq<char>)
    requires
        s.len() > 0,
    ensures
        spans(b, MarkTag::Strong, s, MarkEnd::Strong, RichEntityKind::Bold),
        spans(b, MarkTag::Emphasis, s, MarkEnd::Emphasis, RichEntityKind::Italic),
        spans(b, MarkTag::Strikethrough, s, MarkEnd::Strikethrough, RichEntityKind::Strike),
        rich::safe_link(url) ==> spans(
            b,
            MarkTag::Link(url),
            s,
            MarkEnd::Link,
            RichEntityKind::TextUrl(url),
        ),
        !rich::safe_link(url) ==> b.step(MarkEvent::Start(MarkTag::Link(url))).step(
            MarkEvent::Text(s),
        ) == b.say(s),
{
    lemma_spans(b, s, RichEntityKind::Bold);
    lemma_spans(b, s, RichEntityKind::Italic);
    lemma_spans(b, s, RichEntityKind::Strike);
    lemma_spans(b, s, RichEntityKind::TextUrl(url));
}

/// Elements that stand apart become entities too: the text of a heading is bold, behind the mark of its
/// level; code keeps its language; and what is code in the text's flow is marked as such.
pub proof fn law_headings_and_code(b: BuilderModel, s: Seq<char>, level: u8, info: Seq<char>)
    requires
        s.len() > 0,
    ensures
        b.step(MarkEvent::Start(MarkTag::Heading(level))).step(MarkEvent::Text(s)).step(
            MarkEvent::End(MarkEnd::Heading),
        ) == covered(b.set_off().say(heading_marker(level)), s, RichEntityKind::Bold).broken(2),
        b.step(MarkEvent::Start(MarkTag::CodeBlock(Some(info)))).step(MarkEvent::Text(s)).step(
            MarkEvent::End(MarkEnd::CodeBlock),
        ) == covered(b.set_off(), s, RichEntityKind::Pre(first_word(info))).broken(2),
        b.step(MarkEvent::Start(MarkTag::CodeBlock(None))).step(MarkEvent::Text(s)).step(
            MarkEvent::End(MarkEnd::CodeBlock),
        ) == covered(b.set_off(), s, RichEntityKind::Pre(Seq::empty())).broken(2),
        b.step(MarkEvent::Code(s)) == covered(b, s, RichEntityKind::Code),
{
    lemma_spans(b.set_off().say(heading_marker(level)), s, RichEntityKind::Bold);
    lemma_spans(b.set_off(), s, RichEntityKind::Pre(first_word(info)));
    lemma_spans(b.set_off(), s, RichEntityKind::Pre(Seq::empty()));
    text::lemma_utf16_concat(b.rich.text, s);
    text::lemma_length_order(s);
}

/// The items of a list each stand on a line, behind a bullet, or behind a number that counts on from
/// the one that the list begins with.
pub proof fn law_list_items(b: BuilderModel, first: u64, s: Seq<char>)
    requires
        b.lists.len() == 0,
        first < u64::MAX,
    ensures
        ({
            let l = b.step(MarkEvent::Start(MarkTag::List(None)));
            let item = l.step(MarkEvent::Start(MarkTag::Item));
            &&& item.rich == l.rich.broken(1).then_text("• "@)
            &&& item.lists == l.lists
        }),
        ({
            let l = b.step(MarkEvent::Start(MarkTag::List(Some(first))));
            let one = l.step(MarkEvent::Start(MarkTag::Item));
            let said = one.step(MarkEvent::Text(s)).step(MarkEvent::End(MarkEnd::Item));
            let two = said.step(MarkEvent::Start(MarkTag::Item));
            &&& one.rich == l.rich.broken(1).then_text(number::decimal(first as nat) + ". "@)
            &&& two.rich == said.rich.broken(1).then_text(
                number::decimal((first + 1) as nat) + ". "@,
            )
        }),
{
    let none = scan::repeated("  "@, 0);
    assert(none =~= Seq::<char>::empty());
    let plain = b.step(MarkEvent::Start(MarkTag::List(None)));
    let r = plain.rich.broken(1);
    assert(r.then_text(none) =~= r);
    let l = b.step(MarkEvent::Start(MarkTag::List(Some(first))));
    assert(l.rich.broken(1).then_text(none) =~= l.rich.broken(1));
    let one = l.step(MarkEvent::Start(MarkTag::Item));
    let said = one.step(MarkEvent::Text(s)).step(MarkEvent::End(MarkEnd::Item));
    assert(said.lists == one.lists);
    assert(one.lists.len() == 1 && one.lists.last().next == first + 1);
    assert(said.rich.broken(1).then_text(none) =~= said.rich.broken(1));
}

/// With a text, and an entity on it.
pub open spec fn covered(
    b: BuilderModel,
    s: Seq<char>,
    kind: RichEntityKind<Seq<char>>,
) -> BuilderModel {
    BuilderModel {
        rich: b.rich.then_text(s).with_mark(
            Mark { offset: b.rich.len16(), length: text::utf16_len(s), kind },
        ),
        ..b
    }
}

/// Whether an element with nothing but the text `s` in it adds that text, an entity on it, and
/// changes nothing else.
pub open spec fn spans(
    b: BuilderModel,
    tag: MarkTag<Seq<char>>,
    s: Seq<char>,
    end: MarkEnd,
    kind: RichEntityKind<Seq<char>>,
) -> bool {
    b.step(MarkEvent::Start(tag)).step(MarkEvent::Text(s)).step(MarkEvent::End(end)) == covered(
        b,
        s,
        kind,
    )
}

proof fn lemma_spans(b: BuilderModel, s: Seq<char>, kind: RichEntityKind<Seq<char>>)
    requires
        s.len() > 0,
    ensures
        b.opened(kind).say(s).closed(class_of(kind)) == covered(b, s, kind),
{
    let o = b.opened(kind).say(s);
    assert(o.open.last().kind == kind);
    assert(last_of_class(o.open, class_of(kind)) == Some((o.open.len() - 1) as nat));
    assert(o.open.remove(o.open.len() - 1) =~= b.open);
    text::lemma_utf16_concat(b.rich.text, s);
    text::lemma_length_order(s);
}

/// A response has sound entities if the answer has.
pub proof fn law_response_sound(
    question: Seq<char>,
    answer: RichModel,
    provider: Seq<char>,
    threshold: nat,
)
    requires
        answer.sound(),
    ensures
        response_rich(question, answer, provider, threshold).sound(),
{
    let e = RichModel::empty();
    assert(e.sound());
    rich::lemma_sound_text(e, "Q:"@);
    rich::lemma_boundary_ends(e.then_text("Q:"@).text);
    rich::lemma_sound_marked(e.then_text("Q:"@), 0, RichEntityKind::Bold);
    let l = e.then_text("Q:"@).marked(0, RichEntityKind::Bold);
    rich::lemma_sound_text(l, "\n"@);
    let label = l.then_text("\n"@);
    let q = scan::trimmed(question);
    rich::lemma_sound_text(label, q);
    rich::lemma_boundary_ends(label.text);
    rich::lemma_boundary_before(label.text, q, label.len16());
    let asked = label.then_text(q);
    text::lemma_utf16_concat(label.text, q);
    rich::lemma_boundary_ends(asked.text);
    let start = label.len16();
    rich::lemma_sound_marked(asked, start, RichEntityKind::Blockquote { collapsed: false });
    rich::lemma_sound_with_mark(
        asked,
        Mark {
            offset: start,
            length: (asked.len16() - start) as nat,
            kind: RichEntityKind::Blockquote { collapsed: true },
        },
    );
    lemma_answer_sound(question_part(question, threshold), answer, threshold);
    let a = answer_part(question_part(question, threshold), answer, threshold);
    rich::lemma_sound_text(a, "\n\n"@);
    let body = a.then_text("\n\n"@);
    let foot = "🍀 Powered by "@ + provider;
    rich::lemma_sound_text(body, foot);
    rich::lemma_boundary_ends(body.text);
    rich::lemma_boundary_before(body.text, foot, body.len16());
    rich::lemma_sound_marked(body.then_text(foot), body.len16(), RichEntityKind::Italic);
    rich::lemma_sound_trimmed(body.then_text(foot).marked(body.len16(), RichEntityKind::Italic));
}

proof fn lemma_answer_sound(head: RichModel, answer: RichModel, threshold: nat)
    requires
        head.sound(),
        answer.sound(),
    ensures
        answer_part(head, answer, threshold).sound(),
{
    rich::lemma_sound_text(head, "\n\n"@);
    let gap = head.then_text("\n\n"@);
    rich::lemma_sound_text(gap, "A:"@);
    rich::lemma_boundary_ends(gap.text);
    rich::lemma_boundary_before(gap.text, "A:"@, gap.len16());
    rich::lemma_sound_marked(gap.then_text("A:"@), gap.len16(), RichEntityKind::Bold);
    let l = gap.then_text("A:"@).marked(gap.len16(), RichEntityKind::Bold);
    rich::lemma_sound_text(l, "\n"@);
    let label = l.then_text("\n"@);
    rich::lemma_sound_appended(label, answer);
    let full = label.appended(answer);
    let start = label.len16();
    text::lemma_utf16_concat(label.text, answer.text);
    rich::lemma_boundary_ends(label.text);
    rich::lemma_boundary_before(label.text, answer.text, start);
    rich::lemma_boundary_ends(full.text);
    rich::lemma_sound_with_mark(
        full,
        Mark {
            offset: start,
            length: (full.len16() - start) as nat,
            kind: RichEntityKind::Blockquote { collapsed: true },
        },
    );
}

/// A response ends with the name of the provider, if that does not end with whitespace.
pub proof fn law_response_footer(
    question: Seq<char>,
    answer: RichModel,
    provider: Seq<char>,
    threshold: nat,
)
    requires
        provider.len() > 0,
        !text::is_space(provider.last()),
    ensures
        scan::ends(
            response_rich(question, answer, provider, threshold).text,
            "🍀 Powered by "@ + provider,
        ),
{
    let body = answer_part(question_part(question, threshold), answer, threshold).then_text(
        "\n\n"@,
    );
    let foot = "🍀 Powered by "@ + provider;
    let t = body.text + foot;
    assert(t.last() == provider.last());
    assert(scan::trimmed_end(t) == t);
    assert(t.subrange(t.len() - foot.len(), t.len() as int) =~= foot);
}

/// What is left of marks that are cut off still holds those that end before the limit.
proof fn lemma_mark_survives(marks: Seq<Mark>, limit: nat, m: Mark)
    requires
        marks.contains(m),
        m.length > 0,
        m.offset + m.length <= limit,
    ensures
        rich::cut_marks(marks, limit).contains(m),
    decreases marks.len(),
{
    let before = rich::cut_marks(marks.drop_last(), limit);
    let last = rich::cut_off(marks.last(), limit);
    if marks.last() == m {
        assert(last == m);
        assert(before.push(m)[before.len() as int] == m);
    } else {
        let i = choose|i: int| 0 <= i < marks.len() && marks[i] == m;
        assert(marks.drop_last()[i] == m);
        lemma_mark_survives(marks.drop_last(), limit, m);
        let k = choose|k: int| 0 <= k < before.len() && before[k] == m;
        assert(before.push(last)[k] == m);
    }
}

proof fn lemma_length_of_text(s: Seq<char>)
    requires
        s.len() > 0,
    ensures
        text::utf16_len(s) > 0,
{
    text::lemma_utf16_push(s.drop_last(), s.last());
    assert(s.drop_last().push(s.last()) =~= s);
}

/// A mark that ends before the limit was there before the marks were cut off.
proof fn lemma_mark_was_there(marks: Seq<Mark>, limit: nat, m: Mark)
    requires
        rich::cut_marks(marks, limit).contains(m),
        m.offset + m.length < limit,
    ensures
        marks.contains(m),
    decreases marks.len(),
{
    let cut = rich::cut_marks(marks, limit);
    let before = rich::cut_marks(marks.drop_last(), limit);
    let i = choose|i: int| 0 <= i < cut.len() && cut[i] == m;
    if i < before.len() {
        assert(before[i] == m);
        lemma_mark_was_there(marks.drop_last(), limit, m);
        let k = choose|k: int| 0 <= k < marks.drop_last().len() && marks.drop_last()[k] == m;
        assert(marks[k] == m);
    } else {
        assert(marks[marks.len() - 1] == m);
    }
}

/// What stands before the question of a response.
pub open spec fn before_question() -> Seq<char> {
    "Q:"@ + "\n"@
}

/// What stands before the answer of a response.
pub open spec fn before_answer(question: Seq<char>) -> Seq<char> {
    before_question() + scan::trimmed(question) + "\n\n"@ + "A:"@ + "\n"@
}

/// A quote that covers the question of a response.
pub open spec fn question_quote(question: Seq<char>, collapsed: bool) -> Mark {
    Mark {
        offset: text::utf16_len(before_question()),
        length: text::utf16_len(scan::trimmed(question)),
        kind: RichEntityKind::Blockquote { collapsed },
    }
}

/// A folded quote that covers the answer of a response, which begins at `start`.
pub open spec fn answer_quote(start: nat, answer: Seq<char>) -> Mark {
    Mark {
        offset: start,
        length: text::utf16_len(answer),
        kind: RichEntityKind::Blockquote { collapsed: true },
    }
}

/// The quotes over the question and over the answer, before the end of the response is written.
proof fn lemma_quotes(question: Seq<char>, answer: RichModel, threshold: nat)
    requires
        scan::trimmed(question).len() > 0,
        answer.text.len() > 0,
    ensures
        ({
            let said = answer_part(question_part(question, threshold), answer, threshold);
            let q = text::utf16_len(scan::trimmed(question));
            let start = text::utf16_len(before_answer(question));
            &&& said.text == before_answer(question) + answer.text
            &&& forall|c: bool|
                said.marks.contains(#[trigger] question_quote(question, c)) <==> c == (q
                    >= threshold)
            &&& said.marks.contains(answer_quote(start, answer.text)) <==> (text::utf16_len(
                answer.text,
            ) >= threshold || answer.marks.contains(answer_quote(0, answer.text)))
        }),
{
    let q = scan::trimmed(question);
    let asked = before_question();
    let answered = before_answer(question);
    let start = text::utf16_len(answered);
    let head = question_part(question, threshold);
    let first = question_quote(question, text::utf16_len(q) >= threshold);
    let second = answer_quote(start, answer.text);
    lemma_length_of_text(q);
    lemma_length_of_text(answer.text);
    reveal_strlit("Q:");
    reveal_strlit("A:");
    lemma_length_of_text("Q:"@);
    lemma_length_of_text("A:"@);
    assert(RichModel::empty().text + "Q:"@ =~= "Q:"@);
    text::lemma_utf16_concat(asked, q);
    assert(head.text == asked + q);
    assert(head.marks.len() == 2);
    assert(head.marks[0].kind == RichEntityKind::<Seq<char>>::Bold);
    assert(head.marks[1] == first);
    text::lemma_utf16_concat(answered, answer.text);
    text::lemma_utf16_concat(asked + q, "\n\n"@ + "A:"@ + "\n"@);
    assert(answered =~= asked + q + ("\n\n"@ + "A:"@ + "\n"@));
    let gap = head.then_text("\n\n"@);
    text::lemma_utf16_concat(gap.text, "A:"@);
    let label = gap.then_text("A:"@).marked(gap.len16(), RichEntityKind::Bold).then_text("\n"@);
    assert(label.text == answered);
    assert(label.marks.len() == 3);
    assert(label.marks[0] == head.marks[0] && label.marks[1] == first);
    assert(label.marks[2].kind == RichEntityKind::<Seq<char>>::Bold);
    let full = label.appended(answer);
    let said = answer_part(head, answer, threshold);
    let n = answer.marks.len();
    assert(full.marks.len() == 3 + n);
    assert forall|j: int| 3 <= j < 3 + n implies #[trigger] said.marks[j] == answer.marks[j
        - 3].shifted(start) by {
        assert(full.marks[j] == answer.marks[j - 3].shifted(start));
    }
    assert(forall|j: int| 0 <= j < 3 ==> #[trigger] said.marks[j] == label.marks[j]);
    assert(said.marks[1] == first);
    assert forall|c: bool|
        said.marks.contains(#[trigger] question_quote(question, c)) implies c == (text::utf16_len(q)
        >= threshold) by {
        let m = question_quote(question, c);
        let j = choose|j: int| 0 <= j < said.marks.len() && said.marks[j] == m;
        if 3 <= j < 3 + n {
            assert(said.marks[j].offset >= start);
        }
        assert(j == 1);
    }
    if text::utf16_len(answer.text) >= threshold {
        assert(said.marks[3 + n as int] == second);
    }
    if answer.marks.contains(answer_quote(0, answer.text)) {
        let i = choose|i: int|
            0 <= i < n && answer.marks[i] == answer_quote(0, answer.text);
        assert(said.marks[3 + i] == second);
    }
    if said.marks.contains(second) && text::utf16_len(answer.text) < threshold {
        let j = choose|j: int| 0 <= j < said.marks.len() && said.marks[j] == second;
        assert(3 <= j < 3 + n);
        assert(answer.marks[j - 3] == answer_quote(0, answer.text));
    }
}

/// A response begins with the question and the answer. The question stands in a quote, which is folded
/// exactly if it is at least as long as the threshold, in UTF-16 code units. The answer stands in a folded
/// quote exactly if it is that long, or brought such a quote along.
pub proof fn law_quotes_fold_by_length(
    question: Seq<char>,
    answer: RichModel,
    provider: Seq<char>,
    threshold: nat,
)
    requires
        scan::trimmed(question).len() > 0,
        answer.text.len() > 0,
    ensures
        ({
            let r = response_rich(question, answer, provider, threshold);
            let start = text::utf16_len(before_answer(question));
            &&& scan::starts(r.text, before_answer(question) + answer.text)
            &&& r.marks.contains(question_quote(question, true)) <==> text::utf16_len(
                scan::trimmed(question),
            ) >= threshold
            &&& r.marks.contains(question_quote(question, false)) <==> text::utf16_len(
                scan::trimmed(question),
            ) < threshold
            &&& r.marks.contains(answer_quote(start, answer.text)) <==> (text::utf16_len(
                answer.text,
            ) >= threshold || answer.marks.contains(answer_quote(0, answer.text)))
        }),
{
    let answered = before_answer(question);
    let said = answer_part(question_part(question, threshold), answer, threshold);
    lemma_quotes(question, answer, threshold);
    text::lemma_utf16_concat(answered, answer.text);
    text::lemma_utf16_concat(
        before_question() + scan::trimmed(question),
        "\n\n"@ + "A:"@ + "\n"@,
    );
    text::lemma_utf16_concat(before_question(), scan::trimmed(question));
    assert(answered =~= before_question() + scan::trimmed(question) + ("\n\n"@ + "A:"@ + "\n"@));

    let foot = "🍀 Powered by "@ + provider;
    let body = said.then_text("\n\n"@);
    let whole = body.then_text(foot).marked(body.len16(), RichEntityKind::Italic);
    if body.then_text(foot).len16() > body.len16() {
        assert(whole.marks.drop_last() =~= said.marks);
    }

    // Of the text, at least the first character of the last line is left.
    let t = whole.text;
    reveal_strlit("🍀 Powered by ");
    reveal_strlit("\n\n");
    lemma_length_of_text("\n\n"@);
    scan::lemma_trimmed_end(t);
    let kept = scan::trimmed_end(t);
    if kept.len() <= body.text.len() {
        assert(t.skip(kept.len() as int)[body.text.len() - kept.len()] == '🍀');
        assert(!text::is_space('🍀'));
    }
    text::lemma_utf16_mono(t, body.text.len() as int, kept.len() as int);
    assert(t.take(body.text.len() as int) =~= body.text);
    text::lemma_utf16_concat(said.text, "\n\n"@);
    assert(kept.take(said.text.len() as int) =~= said.text);
    lemma_length_of_text(scan::trimmed(question));
    lemma_length_of_text(answer.text);
    let limit = text::utf16_len(kept);
    lemma_quote_stays(said.marks, whole.marks, limit, question_quote(question, true));
    lemma_quote_stays(said.marks, whole.marks, limit, question_quote(question, false));
    lemma_quote_stays(
        said.marks,
        whole.marks,
        limit,
        answer_quote(text::utf16_len(answered), answer.text),
    );
}

/// With the last line behind it, and cut off within that, a text has the quotes that it had.
proof fn lemma_quote_stays(marks: Seq<Mark>, whole: Seq<Mark>, limit: nat, m: Mark)
    requires
        whole == marks || (whole.len() > 0 && whole.drop_last() == marks && whole.last().kind
            == RichEntityKind::<Seq<char>>::Italic),
        m.kind is Blockquote,
        m.length > 0,
        m.offset + m.length < limit,
    ensures
        rich::cut_marks(whole, limit).contains(m) <==> marks.contains(m),
{
    if marks.contains(m) {
        let i = choose|i: int| 0 <= i < marks.len() && marks[i] == m;
        assert(whole[i] == m);
        lemma_mark_survives(whole, limit, m);
    }
    if rich::cut_marks(whole, limit).contains(m) {
        lemma_mark_was_there(whole, limit, m);
        let i = choose|i: int| 0 <= i < whole.len() && whole[i] == m;
        assert(marks[i] == m);
    }
}

/// Where questions and answers are to be folded, the question and the answer of a response each stand
/// in a folded quote, however short they are.
pub proof fn law_question_and_answer_fold(
    question: Seq<char>,
    answer: RichModel,
    provider: Seq<char>,
)
    requires
        scan::trimmed(question).len() > 0,
        answer.text.len() > 0,
    ensures
        ({
            let r = response_rich(question, answer, provider, fold_from(true) as nat);
            let start = text::utf16_len(before_answer(question));
            &&& scan::starts(r.text, before_answer(question) + answer.text)
            &&& r.marks.contains(question_quote(question, true))
            &&& r.marks.contains(answer_quote(start, answer.text))
        }),
{
    lemma_length_of_text(scan::trimmed(question));
    lemma_length_of_text(answer.text);
    law_quotes_fold_by_length(question, answer, provider, fold_from(true) as nat);
}

proof fn lemma_opens_push(v: Seq<OpenEntity>, e: OpenEntity)
    ensures
        opens_of(v.push(e)) == opens_of(v).push(e@),
{
    assert(opens_of(v.push(e)) =~= opens_of(v).push(e@));
}

// ---------------------------------------------------------------------------------------------
// Building
// ---------------------------------------------------------------------------------------------

impl MarkdownBuilder {
    pub fn new() -> (r: MarkdownBuilder)
        ensures
            r@ == BuilderModel::empty(),
    {
        let r = MarkdownBuilder {
            rich: RichText::new(),
            open: Vec::new(),
            lists: Vec::new(),
            quote_depth: 0,
            table_cell_seen: false,
        };
        proof {
            assert(r@ =~= BuilderModel::empty());
        }
        r
    }

    fn open(&mut self, kind: RichEntityKind<String>)
        ensures
            final(self)@ == old(self)@.opened(kind@),
    {
        let entity = OpenEntity { start: self.rich.offset(), kind };
        proof {
            lemma_opens_push(self.open@, entity);
        }
        self.open.push(entity);
    }

    fn close(&mut self, class: EntityClass)
        ensures
            final(self)@ == old(self)@.closed(class),
    {
        let ghost before = self@;
        let n: usize = self.open.len();
        let mut i: usize = n;
        proof {
            lemma_last_of_class(before.open, class);
            assert(before.open.take(n as int) =~= before.open);
        }
        while i > 0 && self.open[i - 1].kind.class() != class
            invariant
                i <= n,
                n == self.open@.len(),
                before.open == opens_of(self.open@),
                last_of_class(before.open.take(i as int), class) == last_of_class(
                    before.open,
                    class,
                ),
            decreases i,
        {
            proof {
                assert(before.open.take(i as int).drop_last() =~= before.open.take(i - 1));
            }
            i = i - 1;
        }
        if i > 0 {
            proof {
                assert(last_of_class(before.open, class) == Some((i - 1) as nat));
            }
            let entity = self.open.remove(i - 1);
            proof {
                assert(opens_of(self.open@) =~= before.open.remove(i - 1));
                assert(entity@ == before.open[i - 1]);
            }
            self.rich.push_entity(entity.start, entity.kind);
        }
    }

    fn bars(&mut self)
        ensures
            final(self)@ == old(self)@.say(quote_bars(old(self)@.quote_depth)),
    {
        let count: usize = if self.quote_depth <= 3 {
            self.quote_depth
        } else {
            3
        };
        let bars = scan::repeat("┃ ", count);
        self.rich.push(bars.as_str());
    }

    fn line_break(&mut self)
        ensures
            final(self)@ == old(self)@.line_broken(),
    {
        self.rich.ensure_newlines(1);
        if self.quote_depth > 0 {
            self.bars();
        }
    }

    fn block_break(&mut self)
        ensures
            final(self)@ == old(self)@.broken(2),
    {
        self.rich.ensure_newlines(2);
    }

    fn set_off(&mut self)
        ensures
            final(self)@ == old(self)@.set_off(),
    {
        let n: usize = text::char_len(self.rich.text.as_str());
        if n > 0 {
            self.block_break();
        }
    }

    /// Writes the mark of an item of the innermost list.
    fn item_mark(&mut self)
        ensures
            final(self)@ == old(self)@.numbered(),
    {
        if let Some(list) = self.lists.pop() {
            if list.ordered {
                let mut marker = number::write(list.next);
                marker.append(". ");
                self.lists.push(
                    ListState { ordered: list.ordered, next: list.next.wrapping_add(1) },
                );
                self.rich.push(marker.as_str());
            } else {
                self.lists.push(list);
                proof {
                    assert(self.lists@ =~= old(self).lists@);
                }
                self.rich.push("• ");
            }
        }
    }

    pub fn start(&mut self, tag: &MarkTag<String>)
        ensures
            final(self)@ == old(self)@.started(tag@),
    {
        match tag {
            MarkTag::Heading(level) => {
                self.set_off();
                let marker = if *level == 2 {
                    "▌"
                } else if *level == 3 {
                    "• "
                } else {
                    ""
                };
                self.rich.push(marker);
                self.open(RichEntityKind::Bold);
            },
            MarkTag::BlockQuote => {
                self.set_off();
                self.quote_depth = self.quote_depth.wrapping_add(1);
                self.bars();
            },
            MarkTag::CodeBlock(info) => {
                self.set_off();
                let language = match info {
                    Some(s) => fence_language(s.as_str()),
                    None => String::new(),
                };
                self.open(RichEntityKind::Pre(language));
            },
            MarkTag::List(first) => {
                let list = match first {
                    Some(n) => ListState { ordered: true, next: *n },
                    None => ListState { ordered: false, next: 1 },
                };
                self.lists.push(list);
            },
            MarkTag::Item => {
                self.rich.ensure_newlines(1);
                let n: usize = self.lists.len();
                let depth: usize = if n <= 1 {
                    0
                } else if n == 2 {
                    1
                } else {
                    2
                };
                let indent = scan::repeat("  ", depth);
                self.rich.push(indent.as_str());
                self.item_mark();
            },
            MarkTag::Emphasis | MarkTag::Superscript | MarkTag::Subscript => {
                self.open(RichEntityKind::Italic);
            },
            MarkTag::Strong | MarkTag::DefinitionListTitle | MarkTag::TableHead => {
                self.open(RichEntityKind::Bold);
            },
            MarkTag::Strikethrough => {
                self.open(RichEntityKind::Strike);
            },
            MarkTag::Link(url) | MarkTag::Image(url) => {
                if rich::is_safe_link(url.as_str()) {
                    self.open(RichEntityKind::TextUrl(url.clone()));
                }
            },
            MarkTag::TableRow => {
                self.table_cell_seen = false;
            },
            MarkTag::TableCell => {
                if self.table_cell_seen {
                    self.rich.push(" │ ");
                }
                self.table_cell_seen = true;
            },
            MarkTag::FootnoteDefinition(label) => {
                self.block_break();
                let mut note = "[".to_owned();
                note.append(label.as_str());
                note.append("] ");
                self.rich.push(note.as_str());
            },
            MarkTag::DefinitionListDefinition => {
                self.rich.push("  ");
            },
            MarkTag::Paragraph
            | MarkTag::HtmlBlock
            | MarkTag::DefinitionList
            | MarkTag::Table
            | MarkTag::MetadataBlock => {},
        }
    }

    pub fn end(&mut self, tag: MarkEnd)
        ensures
            final(self)@ == old(self)@.ended(tag),
    {
        match tag {
            MarkEnd::Paragraph => {
                if self.lists.len() == 0 {
                    self.block_break();
                }
            },
            MarkEnd::Heading => {
                self.close(EntityClass::Bold);
                self.block_break();
            },
            MarkEnd::BlockQuote => {
                self.quote_depth = if self.quote_depth == 0 {
                    0
                } else {
                    self.quote_depth - 1
                };
                self.block_break();
            },
            MarkEnd::CodeBlock => {
                self.close(EntityClass::Pre);
                self.block_break();
            },
            MarkEnd::List => {
                let _last = self.lists.pop();
                if self.lists.len() == 0 {
                    self.rich.ensure_newlines(2);
                } else {
                    self.rich.ensure_newlines(1);
                }
            },
            MarkEnd::Item | MarkEnd::TableRow => {
                self.rich.ensure_newlines(1);
            },
            MarkEnd::Emphasis | MarkEnd::Superscript | MarkEnd::Subscript => {
                self.close(EntityClass::Italic);
            },
            MarkEnd::Strong | MarkEnd::DefinitionListTitle | MarkEnd::TableHead => {
                self.close(EntityClass::Bold);
            },
            MarkEnd::Strikethrough => {
                self.close(EntityClass::Strike);
            },
            MarkEnd::Link | MarkEnd::Image => {
                self.close(EntityClass::Link);
            },
            MarkEnd::Table => {
                self.block_break();
            },
            MarkEnd::HtmlBlock
            | MarkEnd::FootnoteDefinition
            | MarkEnd::TableCell
            | MarkEnd::DefinitionList
            | MarkEnd::DefinitionListDefinition
            | MarkEnd::MetadataBlock => {},
        }
    }

    /// Takes in one event.
    pub fn event(&mut self, event: &MarkEvent<String>)
        ensures
            final(self)@ == old(self)@.step(event@),
    {
        match event {
            MarkEvent::Start(tag) => {
                self.start(tag);
            },
            MarkEvent::End(tag) => {
                self.end(*tag);
            },
            MarkEvent::Text(s) | MarkEvent::Html(s) | MarkEvent::InlineHtml(s) => {
                self.rich.push(s.as_str());
            },
            MarkEvent::Code(s) | MarkEvent::InlineMath(s) => {
                let start: usize = self.rich.offset();
                self.rich.push(s.as_str());
                self.rich.push_entity(start, RichEntityKind::Code);
            },
            MarkEvent::DisplayMath(s) => {
                let start: usize = self.rich.offset();
                self.rich.push(s.as_str());
                self.rich.push_entity(start, RichEntityKind::Pre(String::new()));
                self.block_break();
            },
            MarkEvent::FootnoteReference(label) => {
                let mut note = "[".to_owned();
                note.append(label.as_str());
                note.append("]");
                self.rich.push(note.as_str());
            },
            MarkEvent::SoftBreak | MarkEvent::HardBreak => {
                self.line_break();
            },
            MarkEvent::Rule => {
                self.block_break();
                self.rich.push("────────────────");
                self.block_break();
            },
            MarkEvent::TaskListMarker(checked) => {
                let marker = if *checked {
                    "☑ "
                } else {
                    "☐ "
                };
                self.rich.push(marker);
            },
        }
    }

    pub fn finish(self) -> (r: RichText)
        ensures
            r@ == self@.finished(),
    {
        let ghost goal = all_closed(self@.rich, self@.open);
        let mut rich = self.rich;
        let mut open = self.open;
        loop
            invariant
                goal == all_closed(rich@, opens_of(open@)),
            ensures
                goal == rich@,
            decreases open@.len(),
        {
            let ghost before = open@;
            match open.pop() {
                Some(entity) => {
                    proof {
                        assert(opens_of(before).drop_last() =~= opens_of(open@));
                        assert(opens_of(before).last() == entity@);
                    }
                    rich.push_entity(entity.start, entity.kind);
                },
                None => {
                    break;
                },
            }
        }
        rich.trim_end();
        rich
    }
}

/// The first word of a text; empty if there is none.
fn fence_language(s: &str) -> (r: String)
    ensures
        r@ == first_word(s@),
{
    let words = scan::split_words(s);
    if words.len() == 0 {
        proof {
            assert(text::texts(words@).len() == 0);
        }
        String::new()
    } else {
        proof {
            assert(text::texts(words@)[0] == words@[0]@);
        }
        words[0].clone()
    }
}

/// The rich text that a sequence of events becomes.
pub fn render(events: &Vec<MarkEvent<String>>) -> (r: RichText)
    ensures
        r@ == rendered(markup::events_of(events@)),
        r@.sound(),
{
    let ghost all = markup::events_of(events@);
    proof {
        law_rendered_sound(all);
    }
    let mut builder = MarkdownBuilder::new();
    let n: usize = events.len();
    let mut i: usize = 0;
    proof {
        assert(all.take(0) =~= Seq::<MarkEvent<Seq<char>>>::empty());
    }
    while i < n
        invariant
            i <= n,
            n == events@.len(),
            all == markup::events_of(events@),
            builder@ == BuilderModel::empty().run(all.take(i as int)),
        decreases n - i,
    {
        proof {
            assert(all.take(i + 1).drop_last() =~= all.take(i as int));
            assert(all.take(i + 1).last() == events@[i as int]@);
        }
        builder.event(&events[i]);
        i = i + 1;
    }
    proof {
        assert(all.take(n as int) =~= all);
    }
    builder.finish()
}

/// A Markdown text as rich text.
pub fn telegram_markdown(markdown: &str) -> (r: RichText)
    ensures
        r@ == markdown_rich(markdown@),
        r@.sound(),
{
    let events = markup::parse_events(markdown, true, true, true, true);
    render(&events)
}

/// The response to a question, given the answer as rich text. Question and answer are folded quotes
/// from `collapse_threshold` UTF-16 code units on.
pub fn compose_response(
    question: &str,
    answer: RichText,
    provider: &str,
    collapse_threshold: usize,
) -> (r: RichText)
    requires
        answer@.sound(),
    ensures
        r@ == response_rich(question@, answer@, provider@, collapse_threshold as nat),
        r@.sound(),
{
    proof {
        law_response_sound(question@, answer@, provider@, collapse_threshold as nat);
        rich::lemma_sound_bounded(answer@);
    }
    let mut rich = RichText::new();
    rich.push("Q:");
    rich.push_entity(0, RichEntityKind::Bold);
    rich.push("\n");
    let q_start: usize = rich.offset();
    let asked = scan::trim(question);
    proof {
        text::lemma_utf16_concat(rich@.text, asked@);
    }
    rich.push(asked.as_str());
    let question_length: usize = rich.offset() - q_start;
    if question_length >= collapse_threshold {
        rich.push_mark(
            RichEntity {
                offset: q_start,
                length: question_length,
                kind: RichEntityKind::Blockquote { collapsed: true },
            },
        );
    } else {
        rich.push_entity(q_start, RichEntityKind::Blockquote { collapsed: false });
    }
    proof {
        assert(rich@ == question_part(question@, collapse_threshold as nat));
    }
    rich.push("\n\n");
    let a_label: usize = rich.offset();
    rich.push("A:");
    rich.push_entity(a_label, RichEntityKind::Bold);
    rich.push("\n");
    let answer_start: usize = rich.offset();
    proof {
        text::lemma_utf16_concat(rich@.text, answer@.text);
    }
    rich.append(answer);
    let answer_length: usize = rich.offset() - answer_start;
    if answer_length >= collapse_threshold {
        rich.push_mark(
            RichEntity {
                offset: answer_start,
                length: answer_length,
                kind: RichEntityKind::Blockquote { collapsed: true },
            },
        );
    }
    proof {
        assert(rich@ == answer_part(
            question_part(question@, collapse_threshold as nat),
            answer@,
            collapse_threshold as nat,
        ));
    }
    rich.push("\n\n");
    let footer_start: usize = rich.offset();
    let mut footer = "🍀 Powered by ".to_owned();
    footer.append(provider);
    rich.push(footer.as_str());
    rich.push_entity(footer_start, RichEntityKind::Italic);
    rich.trim_end();
    rich
}

/// From what length on questions and answers are folded.
pub fn collapse_threshold(collapse: bool) -> (r: usize)
    ensures
        r == fold_from(collapse),
{
    if collapse {
        1
    } else {
        usize::MAX
    }
}

/// The response to a question, given the answer in Markdown.
pub fn ai_rich_response(
    question: &str,
    answer_markdown: &str,
    provider: &str,
    collapse_threshold: usize,
) -> (r: RichText)
    ensures
        r@ == response_rich(
            question@,
            markdown_rich(answer_markdown@),
            provider@,
            collapse_threshold as nat,
        ),
        r@.sound(),
{
    compose_response(question, telegram_markdown(answer_markdown), provider, collapse_threshold)
}

// ---------------------------------------------------------------------------------------------
// Laws of layout
// ---------------------------------------------------------------------------------------------

/// Whether a text ends with something other than a line break.
pub open spec fn in_line(s: Seq<char>) -> bool {
    s.len() > 0 && s.last() != '\n'
}

proof fn lemma_breaks(r: RichModel)
    requires
        in_line(r.text),
    ensures
        r.broken(1) == r.then_text("\n"@),
        r.broken(2) == r.then_text("\n\n"@),
        r.then_text("\n"@).broken(1) == r.then_text("\n"@),
        r.then_text("\n"@).broken(2) == r.then_text("\n\n"@),
        r.then_text("\n\n"@).broken(1) == r.then_text("\n\n"@),
        r.then_text("\n\n"@).broken(2) == r.then_text("\n\n"@),
{
    reveal_strlit("\n");
    reveal_strlit("\n\n");
    reveal_with_fuel(rich::newline_count, 4);
    reveal_with_fuel(scan::repeated, 4);
    let one = seq!['\n'];
    assert(scan::repeated(one, 1) =~= "\n"@);
    assert(scan::repeated(one, 2) =~= "\n\n"@);
    assert(rich::newline_count(r.text) == 0);
    let a = r.then_text("\n"@);
    assert(a.text.drop_last() =~= r.text);
    assert(rich::newline_count(a.text) == 1);
    let b = r.then_text("\n\n"@);
    assert(b.text.drop_last() =~= a.text);
    assert(rich::newline_count(b.text) == 2);
    assert(a.text + "\n"@ =~= b.text);
}

proof fn lemma_bars()
    ensures
        quote_bars(1) == "┃ "@,
        quote_bars(2) == "┃ ┃ "@,
        forall|n: usize| n >= 3 ==> #[trigger] quote_bars(n) == "┃ ┃ ┃ "@,
{
    reveal_strlit("┃ ");
    reveal_strlit("┃ ┃ ");
    reveal_strlit("┃ ┃ ┃ ");
    reveal_with_fuel(scan::repeated, 4);
    assert(quote_bars(1) =~= "┃ "@);
    assert(quote_bars(2) =~= "┃ ┃ "@);
    assert(scan::repeated("┃ "@, 3) =~= "┃ ┃ ┃ "@);
}

/// A line break of the document is one of the result. In a quote, the new line has a bar for each level,
/// at most three.
pub proof fn law_line_breaks(b: BuilderModel, a: Seq<char>, c: Seq<char>, hard: bool)
    requires
        in_line(a),
    ensures
        ({
            let event = if hard {
                MarkEvent::HardBreak
            } else {
                MarkEvent::SoftBreak
            };
            let r = b.step(MarkEvent::Text(a)).step(event).step(MarkEvent::Text(c));
            &&& b.quote_depth == 0 ==> r.rich.text == b.rich.text + a + "\n"@ + c
            &&& b.quote_depth == 1 ==> r.rich.text == b.rich.text + a + "\n"@ + "┃ "@ + c
            &&& b.quote_depth == 2 ==> r.rich.text == b.rich.text + a + "\n"@ + "┃ ┃ "@ + c
            &&& b.quote_depth >= 3 ==> r.rich.text == b.rich.text + a + "\n"@ + "┃ ┃ ┃ "@ + c
            &&& r.rich.marks == b.rich.marks
            &&& r.open == b.open
            &&& r.lists == b.lists
            &&& r.quote_depth == b.quote_depth
        }),
{
    lemma_breaks(b.rich.then_text(a));
    lemma_bars();
}

/// Paragraphs stand apart by an empty line; in a list, a paragraph ends without one.
pub proof fn law_paragraphs(b: BuilderModel, a: Seq<char>, c: Seq<char>)
    requires
        in_line(a),
    ensures
        ({
            let said = b.step(MarkEvent::Start(MarkTag::Paragraph)).step(MarkEvent::Text(a)).step(
                MarkEvent::End(MarkEnd::Paragraph),
            );
            let r = said.step(MarkEvent::Start(MarkTag::Paragraph)).step(MarkEvent::Text(c));
            &&& b.lists.len() == 0 ==> r.rich.text == b.rich.text + a + "\n\n"@ + c
            &&& b.lists.len() > 0 ==> r.rich.text == b.rich.text + a + c
            &&& r.rich.marks == b.rich.marks
            &&& r.open == b.open
            &&& r.lists == b.lists
        }),
{
    lemma_breaks(b.rich.then_text(a));
}

/// A heading stands apart by empty lines, behind the mark of its level, and its text is bold.
pub proof fn law_heading_layout(b: BuilderModel, a: Seq<char>, level: u8, s: Seq<char>)
    requires
        in_line(a),
        in_line(s),
    ensures
        ({
            let r = b.step(MarkEvent::Text(a)).step(MarkEvent::Start(MarkTag::Heading(level))).step(
                MarkEvent::Text(s),
            ).step(MarkEvent::End(MarkEnd::Heading));
            let before = b.rich.text + a + "\n\n"@ + (if level == 2 {
                "▌"@
            } else if level == 3 {
                "• "@
            } else {
                ""@
            });
            &&& r.rich.text == before + s + "\n\n"@
            &&& r.rich.marks == b.rich.marks.push(
                Mark {
                    offset: text::utf16_len(before),
                    length: text::utf16_len(s),
                    kind: RichEntityKind::Bold,
                },
            )
            &&& r.open == b.open
        }),
{
    let said = b.step(MarkEvent::Text(a));
    lemma_breaks(said.rich);
    let at = said.set_off().say(heading_marker(level));
    lemma_spans(at, s, RichEntityKind::Bold);
    lemma_breaks(covered(at, s, RichEntityKind::Bold).rich);
}

/// A heading, a quote and a code block at the very beginning stand there without an empty line.
pub proof fn law_first_block(level: u8, s: Seq<char>)
    ensures
        ({
            let b = BuilderModel::empty();
            &&& b.step(MarkEvent::Start(MarkTag::BlockQuote)).step(MarkEvent::Text(s)).rich.text
                == "┃ "@ + s
            &&& b.step(MarkEvent::Start(MarkTag::CodeBlock(None))).step(
                MarkEvent::Text(s),
            ).rich.text == s
            &&& b.step(MarkEvent::Start(MarkTag::Heading(1))).step(MarkEvent::Text(s)).rich.text == s
            &&& b.step(MarkEvent::Start(MarkTag::Heading(2))).step(MarkEvent::Text(s)).rich.text
                == "▌"@ + s
            &&& b.step(MarkEvent::Start(MarkTag::Heading(3))).step(MarkEvent::Text(s)).rich.text
                == "• "@ + s
            &&& level > 3 ==> b.step(MarkEvent::Start(MarkTag::Heading(level))).step(
                MarkEvent::Text(s),
            ).rich.text == s
        }),
{
    lemma_bars();
    reveal_strlit("");
    let none = Seq::<char>::empty();
    assert(none + "┃ "@ =~= "┃ "@);
    assert(none + "▌"@ =~= "▌"@);
    assert(none + "• "@ =~= "• "@);
    assert(none + ""@ =~= none);
    assert(none + s =~= s);
}

/// A quote stands apart by empty lines, its first line behind a bar for each level; behind it the level
/// is what it was.
pub proof fn law_quote_layout(b: BuilderModel, a: Seq<char>, s: Seq<char>)
    requires
        in_line(a),
        in_line(s),
        b.quote_depth < usize::MAX,
    ensures
        ({
            let inside = b.step(MarkEvent::Text(a)).step(MarkEvent::Start(MarkTag::BlockQuote));
            let r = inside.step(MarkEvent::Text(s)).step(MarkEvent::End(MarkEnd::BlockQuote));
            &&& inside.quote_depth == b.quote_depth + 1
            &&& r.quote_depth == b.quote_depth
            &&& r.rich.marks == b.rich.marks
            &&& b.quote_depth == 0 ==> r.rich.text == b.rich.text + a + "\n\n"@ + "┃ "@ + s
                + "\n\n"@
            &&& b.quote_depth == 1 ==> r.rich.text == b.rich.text + a + "\n\n"@ + "┃ ┃ "@ + s
                + "\n\n"@
            &&& b.quote_depth >= 2 ==> r.rich.text == b.rich.text + a + "\n\n"@ + "┃ ┃ ┃ "@ + s
                + "\n\n"@
        }),
{
    let said = b.step(MarkEvent::Text(a));
    lemma_breaks(said.rich);
    lemma_bars();
    let inside = said.step(MarkEvent::Start(MarkTag::BlockQuote));
    lemma_breaks(inside.rich.then_text(s));
}

/// A code block stands apart by empty lines and is marked as one, with the language that the fence names:
/// the first word behind it.
pub proof fn law_code_layout(
    b: BuilderModel,
    a: Seq<char>,
    s: Seq<char>,
    language: Seq<char>,
    more: Seq<char>,
)
    requires
        in_line(a),
        in_line(s),
        language.len() > 0,
        forall|i: int| 0 <= i < language.len() ==> !#[trigger] text::is_space(language[i]),
        more.len() == 0 || text::is_space(more[0]),
    ensures
        ({
            let said = b.step(MarkEvent::Text(a));
            let named = said.step(
                MarkEvent::Start(MarkTag::CodeBlock(Some(language + more))),
            ).step(MarkEvent::Text(s)).step(MarkEvent::End(MarkEnd::CodeBlock));
            let plain = said.step(MarkEvent::Start(MarkTag::CodeBlock(None))).step(
                MarkEvent::Text(s),
            ).step(MarkEvent::End(MarkEnd::CodeBlock));
            let lines = said.step(MarkEvent::Start(MarkTag::CodeBlock(None))).step(
                MarkEvent::Text(s + "\n"@),
            ).step(MarkEvent::End(MarkEnd::CodeBlock));
            let before = b.rich.text + a + "\n\n"@;
            let mark = Mark {
                offset: text::utf16_len(before),
                length: text::utf16_len(s),
                kind: RichEntityKind::Pre(language),
            };
            &&& named.rich.text == before + s + "\n\n"@
            &&& named.rich.marks == b.rich.marks.push(mark)
            &&& plain.rich.text == before + s + "\n\n"@
            &&& plain.rich.marks == b.rich.marks.push(
                Mark { kind: RichEntityKind::Pre(Seq::empty()), ..mark },
            )
            &&& lines.rich.text == before + s + "\n\n"@
            &&& named.open == b.open
        }),
{
    let said = b.step(MarkEvent::Text(a));
    lemma_breaks(said.rich);
    let at = said.set_off();
    scan::lemma_first_word(language, more);
    lemma_spans(at, s, RichEntityKind::Pre(language));
    lemma_spans(at, s, RichEntityKind::Pre(Seq::empty()));
    lemma_spans(at, s + "\n"@, RichEntityKind::Pre(Seq::empty()));
    lemma_breaks(at.rich.then_text(s));
    let line = covered(at, s + "\n"@, RichEntityKind::Pre(Seq::empty())).rich;
    assert(line.text =~= at.rich.text + s + "\n"@);
    assert(line.broken(2).text == at.rich.then_text(s).then_text("\n"@).broken(2).text);
    lemma_breaks(covered(at, s, RichEntityKind::Pre(language)).rich);
    lemma_breaks(covered(at, s, RichEntityKind::Pre(Seq::empty())).rich);
}

/// The items of a list stand on lines of their own, behind bullets; the list stands apart from what
/// follows by an empty line.
pub proof fn law_bullet_list(b: BuilderModel, a: Seq<char>, x: Seq<char>, y: Seq<char>)
    requires
        b.lists.len() == 0,
        in_line(a),
        in_line(x),
        in_line(y),
    ensures
        ({
            let item = MarkEvent::Start(MarkTag::Item);
            let over = MarkEvent::End(MarkEnd::Item);
            let list = b.step(MarkEvent::Text(a)).step(MarkEvent::Start(MarkTag::List(None)));
            let r = list.step(item).step(MarkEvent::Text(x)).step(over).step(item).step(
                MarkEvent::Text(y),
            ).step(over).step(MarkEvent::End(MarkEnd::List));
            &&& r.rich.text == b.rich.text + a + "\n"@ + "• "@ + x + "\n"@ + "• "@ + y + "\n\n"@
            &&& r.rich.marks == b.rich.marks
            &&& r.lists == b.lists
        }),
{
    reveal_with_fuel(scan::repeated, 2);
    let item = MarkEvent::Start(MarkTag::Item);
    let over = MarkEvent::End(MarkEnd::Item);
    let said = b.step(MarkEvent::Text(a));
    lemma_breaks(said.rich);
    let list = said.step(MarkEvent::Start(MarkTag::List(None)));
    let none = item_indent(1);
    assert(none =~= Seq::<char>::empty());
    let r1 = said.rich.broken(1);
    assert(r1.then_text(none) =~= r1);
    let one = list.step(item).step(MarkEvent::Text(x));
    lemma_breaks(one.rich);
    let r2 = one.rich.broken(1);
    assert(r2.then_text(none) =~= r2);
    let two = one.step(over).step(item).step(MarkEvent::Text(y));
    lemma_breaks(two.rich);
    assert(two.lists.drop_last() =~= b.lists);
}

/// The items of a numbered list count on from the number that it begins with.
pub proof fn law_numbered_list(
    b: BuilderModel,
    a: Seq<char>,
    first: u64,
    x: Seq<char>,
    y: Seq<char>,
)
    requires
        b.lists.len() == 0,
        in_line(a),
        in_line(x),
        in_line(y),
        first < u64::MAX,
    ensures
        ({
            let item = MarkEvent::Start(MarkTag::Item);
            let over = MarkEvent::End(MarkEnd::Item);
            let list = b.step(MarkEvent::Text(a)).step(
                MarkEvent::Start(MarkTag::List(Some(first))),
            );
            let r = list.step(item).step(MarkEvent::Text(x)).step(over).step(item).step(
                MarkEvent::Text(y),
            ).step(over).step(MarkEvent::End(MarkEnd::List));
            &&& r.rich.text == b.rich.text + a + "\n"@ + (number::decimal(first as nat) + ". "@) + x
                + "\n"@ + (number::decimal((first + 1) as nat) + ". "@) + y + "\n\n"@
            &&& r.rich.marks == b.rich.marks
            &&& r.lists == b.lists
        }),
{
    reveal_with_fuel(scan::repeated, 2);
    let item = MarkEvent::Start(MarkTag::Item);
    let over = MarkEvent::End(MarkEnd::Item);
    let said = b.step(MarkEvent::Text(a));
    lemma_breaks(said.rich);
    let list = said.step(MarkEvent::Start(MarkTag::List(Some(first))));
    let none = item_indent(1);
    assert(none =~= Seq::<char>::empty());
    let r1 = said.rich.broken(1);
    assert(r1.then_text(none) =~= r1);
    let one = list.step(item).step(MarkEvent::Text(x));
    assert(one.lists.last().next == first + 1 && one.lists.last().ordered);
    assert(one.lists.len() == 1);
    lemma_breaks(one.rich);
    let r2 = one.rich.broken(1);
    assert(r2.then_text(none) =~= r2);
    let two = one.step(over).step(item).step(MarkEvent::Text(y));
    lemma_breaks(two.rich);
    assert(two.lists.drop_last() =~= b.lists);
}

/// The items of a list within a list are indented, those of the third and of deeper lists twice; behind
/// an inner list, the outer one goes on where it was.
pub proof fn law_nested_lists(b: BuilderModel, x: Seq<char>, y: Seq<char>, z: Seq<char>)
    requires
        b.lists.len() >= 1,
        !b.lists.last().ordered,
        in_line(x),
        in_line(y),
    ensures
        ({
            let item = MarkEvent::Start(MarkTag::Item);
            let over = MarkEvent::End(MarkEnd::Item);
            let inner = b.step(MarkEvent::Text(x)).step(MarkEvent::Start(MarkTag::List(None))).step(
                item,
            ).step(MarkEvent::Text(y));
            let after = inner.step(over).step(MarkEvent::End(MarkEnd::List)).step(over).step(
                item,
            ).step(MarkEvent::Text(z));
            &&& b.lists.len() == 1 ==> inner.rich.text == b.rich.text + x + "\n"@ + "  "@ + "• "@
                + y
            &&& b.lists.len() >= 2 ==> inner.rich.text == b.rich.text + x + "\n"@ + "    "@ + "• "@
                + y
            &&& b.lists.len() == 1 ==> after.rich.text == inner.rich.text + "\n"@ + "• "@ + z
            &&& b.lists.len() == 2 ==> after.rich.text == inner.rich.text + "\n"@ + "  "@ + "• "@
                + z
            &&& after.lists == b.lists
        }),
{
    reveal_with_fuel(scan::repeated, 4);
    reveal_strlit("  ");
    reveal_strlit("    ");
    let item = MarkEvent::Start(MarkTag::Item);
    let over = MarkEvent::End(MarkEnd::Item);
    let said = b.step(MarkEvent::Text(x));
    lemma_breaks(said.rich);
    assert(item_indent(1) =~= Seq::<char>::empty());
    assert(item_indent(2) =~= "  "@);
    let n = b.lists.len();
    assert(n >= 2 ==> item_indent(n + 1) =~= "    "@);
    let inner = said.step(MarkEvent::Start(MarkTag::List(None))).step(item).step(
        MarkEvent::Text(y),
    );
    assert(inner.lists.drop_last() =~= b.lists);
    lemma_breaks(inner.rich);
    let back = inner.step(over).step(MarkEvent::End(MarkEnd::List)).step(over);
    assert(back.rich == inner.rich.then_text("\n"@));
    assert(back.rich.then_text(Seq::empty()) =~= back.rich);
}

/// The cells of a table's row stand on one line with bars between them.
pub proof fn law_table_row(b: BuilderModel, x: Seq<char>, y: Seq<char>, z: Seq<char>)
    requires
        in_line(z),
    ensures
        ({
            let cell = MarkEvent::Start(MarkTag::TableCell);
            let over = MarkEvent::End(MarkEnd::TableCell);
            let r = b.step(MarkEvent::Start(MarkTag::TableRow)).step(cell).step(
                MarkEvent::Text(x),
            ).step(over).step(cell).step(MarkEvent::Text(y)).step(over).step(cell).step(
                MarkEvent::Text(z),
            ).step(over).step(MarkEvent::End(MarkEnd::TableRow));
            &&& r.rich.text == b.rich.text + x + " │ "@ + y + " │ "@ + z + "\n"@
            &&& r.rich.marks == b.rich.marks
        }),
{
    let cell = MarkEvent::Start(MarkTag::TableCell);
    let over = MarkEvent::End(MarkEnd::TableCell);
    let r = b.step(MarkEvent::Start(MarkTag::TableRow)).step(cell).step(MarkEvent::Text(x)).step(
        over,
    ).step(cell).step(MarkEvent::Text(y)).step(over).step(cell).step(MarkEvent::Text(z)).step(over);
    assert(in_line(r.rich.text));
    lemma_breaks(r.rich);
}

/// A rule stands apart by empty lines; a task begins with its box; a footnote stands in brackets; HTML
/// stands as it is written; formulas are marked like code.
pub proof fn law_small_elements(b: BuilderModel, a: Seq<char>, s: Seq<char>)
    requires
        in_line(a),
        in_line(s),
    ensures
        b.step(MarkEvent::Text(a)).step(MarkEvent::Rule).rich.text == b.rich.text + a + "\n\n"@
            + "────────────────"@ + "\n\n"@,
        b.step(MarkEvent::TaskListMarker(true)).rich.text == b.rich.text + "☑ "@,
        b.step(MarkEvent::TaskListMarker(false)).rich.text == b.rich.text + "☐ "@,
        b.step(MarkEvent::FootnoteReference(s)).rich.text == b.rich.text + ("["@ + s + "]"@),
        b.step(MarkEvent::Text(a)).step(
            MarkEvent::Start(MarkTag::FootnoteDefinition(s)),
        ).rich.text == b.rich.text + a + "\n\n"@ + ("["@ + s + "] "@),
        b.step(MarkEvent::Html(s)) == b.step(MarkEvent::Text(s)),
        b.step(MarkEvent::InlineHtml(s)) == b.step(MarkEvent::Text(s)),
        b.step(MarkEvent::InlineMath(s)) == b.step(MarkEvent::Code(s)),
        b.step(MarkEvent::Code(s)).rich.text == b.rich.text + s,
        b.step(MarkEvent::Code(s)).rich.marks == b.rich.marks.push(
            Mark {
                offset: text::utf16_len(b.rich.text),
                length: text::utf16_len(s),
                kind: RichEntityKind::Code,
            },
        ),
        b.step(MarkEvent::DisplayMath(s)).rich.text == b.rich.text + s + "\n\n"@,
        b.step(MarkEvent::DisplayMath(s)).rich.marks == b.rich.marks.push(
            Mark {
                offset: text::utf16_len(b.rich.text),
                length: text::utf16_len(s),
                kind: RichEntityKind::Pre(Seq::empty()),
            },
        ),
{
    lemma_breaks(b.rich.then_text(a));
    let ruled = b.step(MarkEvent::Text(a)).broken(2).say("────────────────"@);
    reveal_strlit("────────────────");
    assert(in_line(ruled.rich.text));
    lemma_breaks(ruled.rich);
    text::lemma_utf16_concat(b.rich.text, s);
    text::lemma_length_order(s);
    let math = b.say(s).marked(b.rich.len16(), RichEntityKind::Pre(Seq::empty()));
    assert(in_line(math.rich.text));
    lemma_breaks(math.rich);
}

/// The text of an image is a link to it if that is safe; titles, raised and lowered text are marked too.
pub proof fn law_other_spans(b: BuilderModel, s: Seq<char>, url: Seq<char>)
    requires
        s.len() > 0,
    ensures
        rich::safe_link(url) ==> spans(
            b,
            MarkTag::Image(url),
            s,
            MarkEnd::Image,
            RichEntityKind::TextUrl(url),
        ),
        spans(b, MarkTag::Superscript, s, MarkEnd::Superscript, RichEntityKind::Italic),
        spans(b, MarkTag::Subscript, s, MarkEnd::Subscript, RichEntityKind::Italic),
        spans(
            b,
            MarkTag::DefinitionListTitle,
            s,
            MarkEnd::DefinitionListTitle,
            RichEntityKind::Bold,
        ),
        spans(b, MarkTag::TableHead, s, MarkEnd::TableHead, RichEntityKind::Bold),
        b.step(MarkEvent::Start(MarkTag::DefinitionListDefinition)).step(
            MarkEvent::Text(s),
        ).rich.text == b.rich.text + "  "@ + s,
{
    lemma_spans(b, s, RichEntityKind::Bold);
    lemma_spans(b, s, RichEntityKind::Italic);
    lemma_spans(b, s, RichEntityKind::TextUrl(url));
}

/// An element within another covers its own text, and the outer one covers all of it.
pub proof fn law_nested_spans(b: BuilderModel, x: Seq<char>, y: Seq<char>, z: Seq<char>)
    requires
        y.len() > 0,
    ensures
        ({
            let r = b.step(MarkEvent::Start(MarkTag::Strong)).step(MarkEvent::Text(x)).step(
                MarkEvent::Start(MarkTag::Emphasis),
            ).step(MarkEvent::Text(y)).step(MarkEvent::End(MarkEnd::Emphasis)).step(
                MarkEvent::Text(z),
            ).step(MarkEvent::End(MarkEnd::Strong));
            &&& r.rich.text == b.rich.text + x + y + z
            &&& r.rich.marks == b.rich.marks.push(
                Mark {
                    offset: text::utf16_len(b.rich.text + x),
                    length: text::utf16_len(y),
                    kind: RichEntityKind::Italic,
                },
            ).push(
                Mark {
                    offset: text::utf16_len(b.rich.text),
                    length: text::utf16_len(x + y + z),
                    kind: RichEntityKind::Bold,
                },
            )
            &&& r.open == b.open
        }),
{
    let outer = b.opened(RichEntityKind::Bold).say(x);
    lemma_spans(outer, y, RichEntityKind::Italic);
    let inner = covered(outer, y, RichEntityKind::Italic).say(z);
    assert(inner.open.last().kind == RichEntityKind::<Seq<char>>::Bold);
    assert(last_of_class(inner.open, EntityClass::Bold) == Some((inner.open.len() - 1) as nat));
    assert(inner.open.remove(inner.open.len() - 1) =~= b.open);
    assert(inner.rich.text =~= b.rich.text + (x + y + z));
    text::lemma_utf16_concat(b.rich.text, x + y + z);
    text::lemma_length_order(x + y + z);
}

/// The result of a document is all that its events wrote, without whitespace at the end; an entity that
/// ends before the last character stays, and an element that has no end reaches to the end of the text.
pub proof fn law_finished_text(
    events: Seq<MarkEvent<Seq<char>>>,
    m: Mark,
)
    ensures
        rendered(events).text == scan::trimmed_end(BuilderModel::empty().run(events).rich.text),
        BuilderModel::empty().run(events).rich.marks.contains(m) && m.length > 0 && m.offset
            + m.length <= text::utf16_len(rendered(events).text) ==> rendered(
            events,
        ).marks.contains(m),
        BuilderModel::empty().run(events).open.len() == 0 && rendered(events).marks.contains(m)
            && m.offset + m.length < text::utf16_len(rendered(events).text)
            ==> BuilderModel::empty().run(events).rich.marks.contains(m),
{
    lemma_rendered_text(events);
    let b = BuilderModel::empty().run(events);
    let all = all_closed(b.rich, b.open);
    lemma_all_closed_keeps(b.rich, b.open, m);
    let limit = text::utf16_len(rendered(events).text);
    if b.rich.marks.contains(m) && m.length > 0 && m.offset + m.length <= limit {
        lemma_mark_survives(all.marks, limit, m);
    }
    if b.open.len() == 0 && rendered(events).marks.contains(m) && m.offset + m.length < limit {
        lemma_mark_was_there(all.marks, limit, m);
    }
}

proof fn lemma_all_closed_keeps(r: RichModel, open: Seq<OpenModel>, m: Mark)
    ensures
        all_closed(r, open).text == r.text,
        r.marks.contains(m) ==> all_closed(r, open).marks.contains(m),
    decreases open.len(),
{
    if open.len() > 0 {
        let next = r.marked(open.last().start, open.last().kind);
        if r.marks.contains(m) {
            let i = choose|i: int| 0 <= i < r.marks.len() && r.marks[i] == m;
            assert(next.marks[i] == m);
        }
        lemma_all_closed_keeps(next, open.drop_last(), m);
    }
}

/// An element that has begun and has no end covers the text from where it began to the end.
pub proof fn law_unclosed_element(events: Seq<MarkEvent<Seq<char>>>, s: Seq<char>)
    requires
        BuilderModel::empty().run(events).open.len() == 0,
        s.len() > 0,
        !text::is_space(s.last()),
    ensures
        ({
            let before = BuilderModel::empty().run(events);
            let r = rendered(
                events.push(MarkEvent::Start(MarkTag::Strong)).push(MarkEvent::Text(s)),
            );
            &&& r.text == before.rich.text + s
            &&& r.marks.contains(
                Mark {
                    offset: text::utf16_len(before.rich.text),
                    length: text::utf16_len(s),
                    kind: RichEntityKind::Bold,
                },
            )
        }),
{
    let start = MarkEvent::Start(MarkTag::Strong);
    let before = BuilderModel::empty().run(events);
    let one = events.push(start);
    let two = one.push(MarkEvent::Text(s));
    assert(one.drop_last() =~= events);
    assert(two.drop_last() =~= one);
    let b = BuilderModel::empty().run(two);
    assert(BuilderModel::empty().run(one) == before.step(start));
    assert(b == before.step(start).step(MarkEvent::Text(s)));
    assert(b.open =~= seq![
        OpenModel { start: before.rich.len16(), kind: RichEntityKind::Bold },
    ]);
    lemma_rendered_text(two);
    assert(b.rich.text.last() == s.last());
    assert(scan::trimmed_end(b.rich.text) == b.rich.text);
    text::lemma_utf16_concat(before.rich.text, s);
    text::lemma_length_order(s);
    let m = Mark {
        offset: text::utf16_len(before.rich.text),
        length: text::utf16_len(s),
        kind: RichEntityKind::<Seq<char>>::Bold,
    };
    let closed = b.rich.marked(before.rich.len16(), RichEntityKind::Bold);
    assert(closed.marks.last() == m);
    assert(b.open.drop_last() =~= Seq::<OpenModel>::empty());
    reveal_with_fuel(all_closed, 2);
    assert(all_closed(b.rich, b.open) == closed);
    lemma_mark_survives(closed.marks, text::utf16_len(b.rich.text), m);
}

/// A response is the question, the answer and the name of the provider, each with its label. What is
/// marked in the answer is marked in the response, behind the question.
pub proof fn law_response_text(
    question: Seq<char>,
    answer: RichModel,
    provider: Seq<char>,
    threshold: nat,
    m: Mark,
)
    ensures
        ({
            let r = response_rich(question, answer, provider, threshold);
            let head = "Q:"@ + "\n"@ + scan::trimmed(question) + "\n\n"@ + "A:"@ + "\n"@;
            &&& r.text == scan::trimmed_end(
                head + answer.text + "\n\n"@ + ("🍀 Powered by "@ + provider),
            )
            &&& r.text.len() > (head + answer.text).len()
            &&& answer.marks.contains(m) && m.length > 0 && m.offset + m.length <= text::utf16_len(
                answer.text,
            ) ==> r.marks.contains(
                Mark { offset: text::utf16_len(head) + m.offset, length: m.length, kind: m.kind },
            )
        }),
{
    let head = "Q:"@ + "\n"@ + scan::trimmed(question) + "\n\n"@ + "A:"@ + "\n"@;
    let q = question_part(question, threshold);
    assert(RichModel::empty().text + "Q:"@ =~= "Q:"@);
    assert(q.text == "Q:"@ + "\n"@ + scan::trimmed(question));
    let gap = q.then_text("\n\n"@);
    let label = gap.then_text("A:"@).marked(gap.len16(), RichEntityKind::Bold).then_text("\n"@);
    assert(label.text == head);
    let full = label.appended(answer);
    let said = answer_part(q, answer, threshold);
    assert(said.text == head + answer.text);
    let foot = "🍀 Powered by "@ + provider;
    let body = said.then_text("\n\n"@);
    let whole = body.then_text(foot).marked(body.len16(), RichEntityKind::Italic);
    let t = whole.text;
    reveal_strlit("🍀 Powered by ");
    scan::lemma_trimmed_end(t);
    let kept = scan::trimmed_end(t);
    if kept.len() <= body.text.len() {
        assert(t.skip(kept.len() as int)[body.text.len() - kept.len()] == '🍀');
        assert(!text::is_space('🍀'));
    }
    text::lemma_utf16_mono(t, said.text.len() as int, kept.len() as int);
    assert(t.take(said.text.len() as int) =~= said.text);
    assert(t.take(kept.len() as int) =~= kept);
    text::lemma_utf16_concat(head, answer.text);
    let moved = Mark { offset: text::utf16_len(head) + m.offset, length: m.length, kind: m.kind };
    if answer.marks.contains(m) && m.length > 0 && m.offset + m.length <= text::utf16_len(
        answer.text,
    ) {
        let i = choose|i: int| 0 <= i < answer.marks.len() && answer.marks[i] == m;
        let k = label.marks.len() + i;
        assert(full.marks[k] == moved);
        assert(said.marks[k] == moved);
        assert(whole.marks[k] == moved);
        lemma_mark_survives(whole.marks, text::utf16_len(kept), moved);
    }
}

/// Markdown is read with GitHub's extensions, strikethrough, tables and task lists, and then rendered.
pub proof fn law_markdown_extensions(s: Seq<char>)
    ensures
        markdown_rich(s) == rendered(markup::markdown_events(s, true, true, true, true)),
        fold_from(true) == 1,
        fold_from(false) == usize::MAX,
{
}

} // verus!
