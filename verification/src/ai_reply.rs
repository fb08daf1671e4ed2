//! Replies of AI services: the answer in them, or what went wrong.

use crate::config::AiApiFormat;
use crate::json;
use crate::json::Json;
use crate::json::JsonView;
use crate::number;
use crate::provider_error;
use crate::provider_error::ErrorModel;
use crate::provider_error::ProviderError;
use crate::scan;
use crate::text;
use vstd::prelude::*;

verus! {

/// The longest reply that is read, in bytes.
pub const MAX_AI_RESPONSE_BYTES: usize = 4_194_304;

/// A page that an answer rests on.
#[derive(Debug, PartialEq, Eq)]
pub struct AiSource {
    pub title: String,
    pub url: String,
}

#[derive(Debug, PartialEq, Eq)]
pub struct AiAnswer {
    pub text: String,
    pub sources: Vec<AiSource>,
    pub model: String,
    pub search_calls: usize,
}

#[verifier::ext_equal]
pub struct SourceModel {
    pub title: Seq<char>,
    pub url: Seq<char>,
}

#[verifier::ext_equal]
pub struct AnswerModel {
    pub text: Seq<char>,
    pub sources: Seq<SourceModel>,
    pub model: Seq<char>,
    pub search_calls: nat,
}

impl View for AiSource {
    type V = SourceModel;

    open spec fn view(&self) -> SourceModel {
        SourceModel { title: self.title@, url: self.url@ }
    }
}

pub open spec fn sources_of(v: Seq<AiSource>) -> Seq<SourceModel> {
    Seq::new(v.len(), |i: int| v[i]@)
}

impl View for AiAnswer {
    type V = AnswerModel;

    open spec fn view(&self) -> AnswerModel {
        AnswerModel {
            text: self.text@,
            sources: sources_of(self.sources@),
            model: self.model@,
            search_calls: self.search_calls as nat,
        }
    }
}

pub open spec fn reply_outcome(r: Result<AiAnswer, ProviderError>) -> Result<
    AnswerModel,
    ErrorModel,
> {
    match r {
        Ok(answer) => Ok(answer@),
        Err(e) => Err(e@),
    }
}

// ---------------------------------------------------------------------------------------------
// Sources
// ---------------------------------------------------------------------------------------------

pub open spec fn is_cited(sources: Seq<SourceModel>, url: Seq<char>) -> bool {
    exists|i: int| 0 <= i < sources.len() && (#[trigger] sources[i]).url == url
}

/// The title of a page, or a word in its place.
pub open spec fn citation_title(citation: JsonView) -> Seq<char> {
    match json::text_of(citation.field("title"@)) {
        Some(title) => if scan::blank(title) {
            "参考资料"@
        } else {
            title
        },
        None => "参考资料"@,
    }
}

/// Sources with one more, if it is behind HTTPS and not among them.
pub open spec fn with_source(sources: Seq<SourceModel>, citation: JsonView) -> Seq<SourceModel> {
    match json::text_of(citation.field("url"@)) {
        Some(url) => if !scan::starts(url, "https://"@) || is_cited(sources, url) {
            sources
        } else {
            sources.push(SourceModel { title: citation_title(citation), url })
        },
        None => sources,
    }
}

/// Where the page of an annotation is named: in the annotation, or in a part of it if that is so in
/// the protocol and there is such a part.
pub open spec fn citation_of(annotation: JsonView, nested: bool) -> JsonView {
    match annotation.field("url_citation"@) {
        Some(inner) => if nested {
            inner
        } else {
            annotation
        },
        None => annotation,
    }
}

pub open spec fn with_annotation(
    sources: Seq<SourceModel>,
    annotation: JsonView,
    nested: bool,
) -> Seq<SourceModel> {
    if json::text_of(annotation.field("type"@)) == Some("url_citation"@) {
        with_source(sources, citation_of(annotation, nested))
    } else {
        sources
    }
}

pub open spec fn with_annotations(
    sources: Seq<SourceModel>,
    annotations: Seq<JsonView>,
    nested: bool,
) -> Seq<SourceModel>
    decreases annotations.len(),
{
    if annotations.len() == 0 {
        sources
    } else {
        with_annotation(
            with_annotations(sources, annotations.drop_last(), nested),
            annotations.last(),
            nested,
        )
    }
}

/// Every source is behind HTTPS, and none is there twice.
pub open spec fn proper_sources(sources: Seq<SourceModel>) -> bool {
    &&& forall|i: int|
        0 <= i < sources.len() ==> scan::starts((#[trigger] sources[i]).url, "https://"@)
    &&& forall|i: int, j: int|
        0 <= i < j < sources.len() ==> (#[trigger] sources[i]).url != (#[trigger] sources[j]).url
}

proof fn lemma_proper_annotations(
    sources: Seq<SourceModel>,
    annotations: Seq<JsonView>,
    nested: bool,
)
    requires
        proper_sources(sources),
    ensures
        proper_sources(with_annotations(sources, annotations, nested)),
    decreases annotations.len(),
{
    if annotations.len() > 0 {
        lemma_proper_annotations(sources, annotations.drop_last(), nested);
        let before = with_annotations(sources, annotations.drop_last(), nested);
        let after = with_annotations(sources, annotations, nested);
        if after != before {
            let url = after.last().url;
            assert forall|i: int, j: int| 0 <= i < j < after.len() implies (
            #[trigger] after[i]).url != (#[trigger] after[j]).url by {
                assert(after[i] == before[i]);
                if j < before.len() {
                    assert(after[j] == before[j]);
                }
            }
            assert forall|i: int| 0 <= i < after.len() implies scan::starts(
                (#[trigger] after[i]).url,
                "https://"@,
            ) by {
                if i < before.len() {
                    assert(after[i] == before[i]);
                }
            }
        }
    }
}

fn cited(sources: &Vec<AiSource>, url: &str) -> (r: bool)
    ensures
        r == is_cited(sources_of(sources@), url@),
{
    let ghost all = sources_of(sources@);
    let n: usize = sources.len();
    let mut i: usize = 0;
    while i < n
        invariant
            i <= n,
            n == sources@.len(),
            all == sources_of(sources@),
            forall|j: int| 0 <= j < i ==> (#[trigger] all[j]).url != url@,
        decreases n - i,
    {
        proof {
            assert(all[i as int].url == sources@[i as int].url@);
        }
        if text::same(sources[i].url.as_str(), url) {
            return true;
        }
        i = i + 1;
    }
    false
}

fn source_title(citation: &Json) -> (r: String)
    ensures
        r@ == citation_title(citation@),
{
    match citation.get_text("title") {
        Some(title) => if scan::is_blank(title.as_str()) {
            "参考资料".to_owned()
        } else {
            title.clone()
        },
        None => "参考资料".to_owned(),
    }
}

/// Adds the pages that annotations name to the sources: each once, and only behind HTTPS.
pub fn collect_url_citations(
    annotations: Option<&Json>,
    sources: &mut Vec<AiSource>,
    nested: bool,
)
    ensures
        sources_of(final(sources)@) == with_annotations(
            sources_of(old(sources)@),
            json::items_of(json::optional(annotations)),
            nested,
        ),
{
    let ghost before = sources_of(sources@);
    let ghost all = json::items_of(json::optional(annotations));
    let list = match annotations {
        Some(j) => j,
        None => {
            return ;
        },
    };
    let items = match list.as_array() {
        Some(items) => items,
        None => {
            return ;
        },
    };
    let n: usize = items.len();
    let mut i: usize = 0;
    proof {
        json::lemma_items_view(items@);
        assert(all.take(0) =~= Seq::<JsonView>::empty());
    }
    while i < n
        invariant
            i <= n,
            n == items@.len(),
            all == json::items_view(items@),
            all.len() == n,
            forall|j: int| 0 <= j < n ==> #[trigger] all[j] == items@[j]@,
            sources_of(sources@) == with_annotations(before, all.take(i as int), nested),
        decreases n - i,
    {
        let annotation: &Json = &items[i];
        proof {
            assert(all.take(i + 1).drop_last() =~= all.take(i as int));
            assert(all.take(i + 1).last() == annotation@);
        }
        if annotation.says("type", "url_citation") {
            let citation: &Json = match annotation.get("url_citation") {
                Some(inner) => if nested {
                    inner
                } else {
                    annotation
                },
                None => annotation,
            };
            if let Some(url) = citation.get_text("url") {
                if scan::starts_with(url.as_str(), "https://") && !cited(sources, url.as_str()) {
                    let made = AiSource { title: source_title(citation), url: url.clone() };
                    proof {
                        assert(sources_of(sources@.push(made)) =~= sources_of(sources@).push(
                            made@,
                        ));
                    }
                    sources.push(made);
                }
            }
        }
        i = i + 1;
    }
    proof {
        assert(all.take(n as int) =~= all);
    }
}

// ---------------------------------------------------------------------------------------------
// Chat Completions
// ---------------------------------------------------------------------------------------------

/// An answer as far as it has been read.
#[verifier::ext_equal]
pub struct Draft {
    pub text: Seq<char>,
    pub sources: Seq<SourceModel>,
    pub search_calls: nat,
}

pub open spec fn blank_draft() -> Draft {
    Draft { text: Seq::empty(), sources: Seq::empty(), search_calls: 0 }
}

impl Draft {
    pub open spec fn say(self, s: Option<Seq<char>>) -> Draft {
        match s {
            Some(s) => Draft { text: self.text + s, ..self },
            None => self,
        }
    }

    /// With the sources that the annotations of a part name.
    pub open spec fn cite(self, part: JsonView, nested: bool) -> Draft {
        Draft {
            sources: with_annotations(
                self.sources,
                json::items_of(part.field("annotations"@)),
                nested,
            ),
            ..self
        }
    }

    pub open spec fn called(self) -> Draft {
        Draft { search_calls: self.search_calls + 1, ..self }
    }
}

/// The part behind two steps.
pub open spec fn second_child(j: JsonView, a: Seq<char>, b: Seq<char>) -> Option<JsonView> {
    match j.child(a) {
        Some(k) => k.child(b),
        None => None,
    }
}

/// The text of a content block: under `text`, or one level deeper.
pub open spec fn block_text(block: JsonView) -> Option<Seq<char>> {
    match json::text_of(block.field("text"@)) {
        Some(s) => Some(s),
        None => json::text_of(second_child(block, "text"@, "value"@)),
    }
}

pub open spec fn chat_blocks(blocks: Seq<JsonView>) -> Draft
    decreases blocks.len(),
{
    if blocks.len() == 0 {
        blank_draft()
    } else {
        chat_blocks(blocks.drop_last()).say(block_text(blocks.last())).cite(blocks.last(), true)
    }
}

/// What the message of a chat completion says.
pub open spec fn chat_draft(message: JsonView) -> Draft {
    (match message.field("content"@) {
        Some(JsonView::Text(s)) => blank_draft().say(Some(s)),
        Some(JsonView::Array(blocks)) => chat_blocks(blocks),
        _ => blank_draft(),
    }).cite(message, true)
}

/// The model that a reply names, or the one that was asked.
pub open spec fn named_model(reply: JsonView, requested: Seq<char>) -> Seq<char> {
    match json::text_of(reply.field("model"@)) {
        Some(s) => s,
        None => requested,
    }
}

pub open spec fn finished(d: Draft, model: Seq<char>) -> AnswerModel {
    AnswerModel { text: d.text, sources: d.sources, model, search_calls: d.search_calls }
}

/// What a Chat Completions reply says.
pub open spec fn chat_reply(reply: JsonView, requested: Seq<char>) -> Result<
    AnswerModel,
    ErrorModel,
> {
    let message = match second_child(reply, "choices"@, "0"@) {
        Some(choice) => choice.child("message"@),
        None => None,
    };
    match message {
        None => Err(provider_error::permanent_error("chat completion did not contain a message"@)),
        Some(message) => if scan::blank(chat_draft(message).text) {
            Err(provider_error::transient_error("chat completion returned an empty message"@))
        } else {
            Ok(finished(chat_draft(message), named_model(reply, requested)))
        },
    }
}

fn step_twice<'a>(j: &'a Json, a: &str, b: &str) -> (r: Option<&'a Json>)
    ensures
        json::optional(r) == second_child(j@, a@, b@),
{
    match j.step(a) {
        Some(k) => k.step(b),
        None => None,
    }
}

fn response_model(value: &Json, requested_model: &str) -> (r: String)
    ensures
        r@ == named_model(value@, requested_model@),
{
    match value.get_text("model") {
        Some(s) => s.clone(),
        None => requested_model.to_owned(),
    }
}

/// Reads the blocks of a chat message.
fn read_chat_blocks(blocks: &Vec<Json>) -> (r: (String, Vec<AiSource>))
    ensures
        r.0@ == chat_blocks(json::items_view(blocks@)).text,
        sources_of(r.1@) == chat_blocks(json::items_view(blocks@)).sources,
{
    let ghost all = json::items_view(blocks@);
    let mut said = String::new();
    let mut sources: Vec<AiSource> = Vec::new();
    let n: usize = blocks.len();
    let mut i: usize = 0;
    proof {
        json::lemma_items_view(blocks@);
        assert(all.take(0) =~= Seq::<JsonView>::empty());
        assert(sources_of(sources@) =~= Seq::<SourceModel>::empty());
        assert(said@ =~= Seq::<char>::empty());
    }
    while i < n
        invariant
            i <= n,
            n == blocks@.len(),
            all == json::items_view(blocks@),
            all.len() == n,
            forall|j: int| 0 <= j < n ==> #[trigger] all[j] == blocks@[j]@,
            said@ == chat_blocks(all.take(i as int)).text,
            sources_of(sources@) == chat_blocks(all.take(i as int)).sources,
        decreases n - i,
    {
        let block: &Json = &blocks[i];
        proof {
            assert(all.take(i + 1).drop_last() =~= all.take(i as int));
            assert(all.take(i + 1).last() == block@);
        }
        match block.get_text("text") {
            Some(s) => {
                said.append(s.as_str());
            },
            None => {
                if let Some(deep) = step_twice(block, "text", "value") {
                    if let Some(s) = deep.as_str() {
                        said.append(s.as_str());
                    }
                }
            },
        }
        collect_url_citations(block.get("annotations"), &mut sources, true);
        i = i + 1;
    }
    proof {
        assert(all.take(n as int) =~= all);
    }
    (said, sources)
}

pub fn parse_chat_completions_response(value: &Json, requested_model: &str) -> (r: Result<
    AiAnswer,
    ProviderError,
>)
    ensures
        reply_outcome(r) == chat_reply(value@, requested_model@),
{
    let found = match step_twice(value, "choices", "0") {
        Some(choice) => choice.step("message"),
        None => None,
    };
    let message = match found {
        Some(message) => message,
        None => {
            return Err(ProviderError::permanent("chat completion did not contain a message"));
        },
    };
    let mut said = String::new();
    let mut sources: Vec<AiSource> = Vec::new();
    proof {
        assert(sources_of(sources@) =~= Seq::<SourceModel>::empty());
        assert(said@ =~= Seq::<char>::empty());
    }
    if let Some(content) = message.get("content") {
        match content {
            Json::Text(s) => {
                said.append(s.as_str());
            },
            Json::Array(blocks) => {
                let read = read_chat_blocks(blocks);
                said = read.0;
                sources = read.1;
            },
            _ => {},
        }
    }
    collect_url_citations(message.get("annotations"), &mut sources, true);
    if scan::is_blank(said.as_str()) {
        return Err(ProviderError::transient("chat completion returned an empty message"));
    }
    proof {
        lemma_chat_calls(message@);
    }
    Ok(
        AiAnswer {
            text: said,
            sources,
            model: response_model(value, requested_model),
            search_calls: 0,
        },
    )
}

proof fn lemma_chat_block_calls(blocks: Seq<JsonView>)
    ensures
        chat_blocks(blocks).search_calls == 0,
    decreases blocks.len(),
{
    if blocks.len() > 0 {
        lemma_chat_block_calls(blocks.drop_last());
    }
}

proof fn lemma_chat_calls(message: JsonView)
    ensures
        chat_draft(message).search_calls == 0,
{
    if let Some(JsonView::Array(blocks)) = message.field("content"@) {
        lemma_chat_block_calls(blocks);
    }
}

// ---------------------------------------------------------------------------------------------
// Blocks of a certain type, in Responses and Gemini Interactions
// ---------------------------------------------------------------------------------------------

/// The blocks of one type say their text and name their sources; others are passed over.
pub open spec fn typed_blocks(d: Draft, blocks: Seq<JsonView>, kind: Seq<char>, nested: bool) -> Draft
    decreases blocks.len(),
{
    if blocks.len() == 0 {
        d
    } else {
        let before = typed_blocks(d, blocks.drop_last(), kind, nested);
        let block = blocks.last();
        if json::text_of(block.field("type"@)) == Some(kind) {
            before.say(json::text_of(block.field("text"@))).cite(block, nested)
        } else {
            before
        }
    }
}

/// The words by which a protocol marks what a reply consists of.
struct ReplyWords {
    pub call: &'static str,
    pub output: &'static str,
    pub block: &'static str,
}

pub open spec fn with_part(
    d: Draft,
    part: JsonView,
    call: Seq<char>,
    output: Seq<char>,
    block: Seq<char>,
    nested: bool,
) -> Draft {
    let kind = json::text_of(part.field("type"@));
    if kind == Some(call) {
        d.called()
    } else if kind == Some(output) {
        typed_blocks(d, json::items_of(part.field("content"@)), block, nested)
    } else {
        d
    }
}

/// What a list of parts says: calls of the search tool are counted, outputs are read.
pub open spec fn parts_draft(
    parts: Seq<JsonView>,
    call: Seq<char>,
    output: Seq<char>,
    block: Seq<char>,
    nested: bool,
) -> Draft
    decreases parts.len(),
{
    if parts.len() == 0 {
        blank_draft()
    } else {
        with_part(
            parts_draft(parts.drop_last(), call, output, block, nested),
            parts.last(),
            call,
            output,
            block,
            nested,
        )
    }
}

fn read_typed_blocks(
    content: Option<&Json>,
    kind: &str,
    nested: bool,
    said: &mut String,
    sources: &mut Vec<AiSource>,
    Ghost(d): Ghost<Draft>,
)
    requires
        old(said)@ == d.text,
        sources_of(old(sources)@) == d.sources,
    ensures
        final(said)@ == typed_blocks(
            d,
            json::items_of(json::optional(content)),
            kind@,
            nested,
        ).text,
        sources_of(final(sources)@) == typed_blocks(
            d,
            json::items_of(json::optional(content)),
            kind@,
            nested,
        ).sources,
{
    let ghost all = json::items_of(json::optional(content));
    let list = match content {
        Some(j) => j,
        None => {
            return ;
        },
    };
    let blocks = match list.as_array() {
        Some(items) => items,
        None => {
            return ;
        },
    };
    let n: usize = blocks.len();
    let mut i: usize = 0;
    proof {
        json::lemma_items_view(blocks@);
        assert(all.take(0) =~= Seq::<JsonView>::empty());
    }
    while i < n
        invariant
            i <= n,
            n == blocks@.len(),
            all == json::items_view(blocks@),
            all.len() == n,
            forall|j: int| 0 <= j < n ==> #[trigger] all[j] == blocks@[j]@,
            said@ == typed_blocks(d, all.take(i as int), kind@, nested).text,
            sources_of(sources@) == typed_blocks(d, all.take(i as int), kind@, nested).sources,
        decreases n - i,
    {
        let block: &Json = &blocks[i];
        proof {
            assert(all.take(i + 1).drop_last() =~= all.take(i as int));
            assert(all.take(i + 1).last() == block@);
        }
        if block.says("type", kind) {
            if let Some(s) = block.get_text("text") {
                said.append(s.as_str());
            }
            collect_url_citations(block.get("annotations"), sources, nested);
        }
        i = i + 1;
    }
    proof {
        assert(all.take(n as int) =~= all);
    }
}

proof fn lemma_typed_calls(d: Draft, blocks: Seq<JsonView>, kind: Seq<char>, nested: bool)
    ensures
        typed_blocks(d, blocks, kind, nested).search_calls == d.search_calls,
    decreases blocks.len(),
{
    if blocks.len() > 0 {
        lemma_typed_calls(d, blocks.drop_last(), kind, nested);
    }
}

/// Reads the parts of a reply.
fn read_parts(parts: &Vec<Json>, words: &ReplyWords, nested: bool) -> (r: (
    String,
    Vec<AiSource>,
    usize,
))
    ensures
        r.0@ == parts_draft(
            json::items_view(parts@),
            words.call@,
            words.output@,
            words.block@,
            nested,
        ).text,
        sources_of(r.1@) == parts_draft(
            json::items_view(parts@),
            words.call@,
            words.output@,
            words.block@,
            nested,
        ).sources,
        r.2 == parts_draft(
            json::items_view(parts@),
            words.call@,
            words.output@,
            words.block@,
            nested,
        ).search_calls,
{
    let ghost all = json::items_view(parts@);
    let ghost call = words.call@;
    let ghost output = words.output@;
    let ghost block = words.block@;
    let mut said = String::new();
    let mut sources: Vec<AiSource> = Vec::new();
    let mut calls: usize = 0;
    let n: usize = parts.len();
    let mut i: usize = 0;
    proof {
        json::lemma_items_view(parts@);
        assert(all.take(0) =~= Seq::<JsonView>::empty());
        assert(sources_of(sources@) =~= Seq::<SourceModel>::empty());
        assert(said@ =~= Seq::<char>::empty());
    }
    while i < n
        invariant
            i <= n,
            n == parts@.len(),
            all == json::items_view(parts@),
            all.len() == n,
            call == words.call@,
            output == words.output@,
            block == words.block@,
            forall|j: int| 0 <= j < n ==> #[trigger] all[j] == parts@[j]@,
            calls <= i,
            said@ == parts_draft(all.take(i as int), call, output, block, nested).text,
            sources_of(sources@) == parts_draft(
                all.take(i as int),
                call,
                output,
                block,
                nested,
            ).sources,
            calls == parts_draft(all.take(i as int), call, output, block, nested).search_calls,
        decreases n - i,
    {
        let part: &Json = &parts[i];
        let ghost d = parts_draft(all.take(i as int), call, output, block, nested);
        proof {
            assert(all.take(i + 1).drop_last() =~= all.take(i as int));
            assert(all.take(i + 1).last() == part@);
            lemma_typed_calls(d, json::items_of(part@.field("content"@)), block, nested);
        }
        if part.says("type", words.call) {
            calls = calls + 1;
        } else if part.says("type", words.output) {
            read_typed_blocks(
                part.get("content"),
                words.block,
                nested,
                &mut said,
                &mut sources,
                Ghost(d),
            );
        }
        i = i + 1;
    }
    proof {
        assert(all.take(n as int) =~= all);
    }
    (said, sources, calls)
}

// ---------------------------------------------------------------------------------------------
// Responses
// ---------------------------------------------------------------------------------------------

/// What a Responses reply says; where its parts say nothing, what it gives as its text.
pub open spec fn responses_draft(reply: JsonView) -> Draft {
    let d = parts_draft(
        json::items_of(reply.field("output"@)),
        "web_search_call"@,
        "message"@,
        "output_text"@,
        true,
    );
    if scan::blank(d.text) {
        d.say(json::text_of(reply.field("output_text"@)))
    } else {
        d
    }
}

pub open spec fn responses_reply(reply: JsonView, requested: Seq<char>, use_search: bool) -> Result<
    AnswerModel,
    ErrorModel,
> {
    let d = responses_draft(reply);
    if scan::blank(d.text) {
        Err(provider_error::transient_error("Responses API returned no output text"@))
    } else if use_search && d.search_calls == 0 {
        Err(
            provider_error::transient_error(
                "Responses API did not call the standard web_search tool"@,
            ),
        )
    } else {
        Ok(finished(d, named_model(reply, requested)))
    }
}

/// The items of a part, if there is such a part and it is an array.
fn array_of(part: Option<&Json>) -> (r: Option<&Vec<Json>>)
    ensures
        match r {
            Some(items) => json::items_view(items@) == json::items_of(json::optional(part))
                && json::optional(part) matches Some(JsonView::Array(_)),
            None => json::items_of(json::optional(part)).len() == 0
                && !(json::optional(part) matches Some(JsonView::Array(_))),
        },
{
    match part {
        Some(j) => j.as_array(),
        None => None,
    }
}

pub fn parse_responses_response(value: &Json, requested_model: &str, use_search: bool) -> (r: Result<
    AiAnswer,
    ProviderError,
>)
    ensures
        reply_outcome(r) == responses_reply(value@, requested_model@, use_search),
{
    let words = ReplyWords { call: "web_search_call", output: "message", block: "output_text" };
    let mut said = String::new();
    let mut sources: Vec<AiSource> = Vec::new();
    let mut search_calls: usize = 0;
    proof {
        assert(sources_of(sources@) =~= Seq::<SourceModel>::empty());
        assert(said@ =~= Seq::<char>::empty());
    }
    if let Some(parts) = array_of(value.get("output")) {
        let read = read_parts(parts, &words, true);
        said = read.0;
        sources = read.1;
        search_calls = read.2;
    }
    if scan::is_blank(said.as_str()) {
        if let Some(s) = value.get_text("output_text") {
            said.append(s.as_str());
        }
    }
    if scan::is_blank(said.as_str()) {
        return Err(ProviderError::transient("Responses API returned no output text"));
    }
    if use_search && search_calls == 0 {
        return Err(
            ProviderError::transient("Responses API did not call the standard web_search tool"),
        );
    }
    Ok(
        AiAnswer {
            text: said,
            sources,
            model: response_model(value, requested_model),
            search_calls,
        },
    )
}

// ---------------------------------------------------------------------------------------------
// Gemini Interactions
// ---------------------------------------------------------------------------------------------

/// The types of steps, as far as they are texts.
pub open spec fn step_types(steps: Seq<JsonView>) -> Seq<Seq<char>>
    decreases steps.len(),
{
    if steps.len() == 0 {
        Seq::empty()
    } else {
        let before = step_types(steps.drop_last());
        match json::text_of(steps.last().field("type"@)) {
            Some(s) => before.push(s),
            None => before,
        }
    }
}

/// The error of a reply that says nothing: its status and what it consists of.
pub open spec fn empty_reply_error(reply: JsonView) -> ErrorModel {
    let status = match json::text_of(reply.field("status"@)) {
        Some(s) => s,
        None => "UNKNOWN"@,
    };
    let types = scan::joined(step_types(json::items_of(reply.field("steps"@))), ","@);
    provider_error::transient_error(
        "Gemini returned an empty interaction (status="@ + status + ", steps="@ + types + ")"@,
    )
}

pub open spec fn gemini_reply(reply: JsonView, requested: Seq<char>, use_search: bool) -> Result<
    AnswerModel,
    ErrorModel,
> {
    match reply.field("steps"@) {
        Some(JsonView::Array(steps)) => {
            let d = parts_draft(steps, "google_search_call"@, "model_output"@, "text"@, false);
            if scan::blank(d.text) {
                Err(empty_reply_error(reply))
            } else if use_search && d.search_calls == 0 {
                Err(
                    provider_error::transient_error("Gemini did not call native Google Search"@),
                )
            } else {
                Ok(finished(d, requested))
            }
        },
        _ => Err(
            provider_error::permanent_error("Gemini interaction did not contain steps"@),
        ),
    }
}

pub fn empty_interaction_error(value: &Json) -> (r: ProviderError)
    ensures
        r@ == empty_reply_error(value@),
{
    let ghost all = json::items_of(value@.field("steps"@));
    let mut types: Vec<String> = Vec::new();
    proof {
        assert(text::texts(types@) =~= Seq::<Seq<char>>::empty());
    }
    if let Some(steps) = array_of(value.get("steps")) {
        let n: usize = steps.len();
        let mut i: usize = 0;
        proof {
            json::lemma_items_view(steps@);
            assert(all.take(0) =~= Seq::<JsonView>::empty());
        }
        while i < n
            invariant
                i <= n,
                n == steps@.len(),
                all == json::items_view(steps@),
                all.len() == n,
                forall|j: int| 0 <= j < n ==> #[trigger] all[j] == steps@[j]@,
                text::texts(types@) == step_types(all.take(i as int)),
            decreases n - i,
        {
            proof {
                assert(all.take(i + 1).drop_last() =~= all.take(i as int));
                assert(all.take(i + 1).last() == steps@[i as int]@);
            }
            if let Some(s) = steps[i].get_text("type") {
                let copy = s.clone();
                proof {
                    text::lemma_texts_push(types@, copy);
                }
                types.push(copy);
            }
            i = i + 1;
        }
        proof {
            assert(all.take(n as int) =~= all);
        }
    }
    let mut message = "Gemini returned an empty interaction (status=".to_owned();
    match value.get_text("status") {
        Some(s) => {
            message.append(s.as_str());
        },
        None => {
            message.append("UNKNOWN");
        },
    }
    message.append(", steps=");
    message.append(scan::join(&types, ",").as_str());
    message.append(")");
    ProviderError { message, transient: true, retry_after: None }
}

pub fn parse_gemini_response(value: &Json, requested_model: &str, use_search: bool) -> (r: Result<
    AiAnswer,
    ProviderError,
>)
    ensures
        reply_outcome(r) == gemini_reply(value@, requested_model@, use_search),
{
    let words = ReplyWords { call: "google_search_call", output: "model_output", block: "text" };
    let steps = match array_of(value.get("steps")) {
        Some(steps) => steps,
        None => {
            return Err(ProviderError::permanent("Gemini interaction did not contain steps"));
        },
    };
    let (said, sources, search_calls) = read_parts(steps, &words, false);
    if scan::is_blank(said.as_str()) {
        return Err(empty_interaction_error(value));
    }
    if use_search && search_calls == 0 {
        return Err(ProviderError::transient("Gemini did not call native Google Search"));
    }
    Ok(AiAnswer { text: said, sources, model: requested_model.to_owned(), search_calls })
}

// ---------------------------------------------------------------------------------------------
// Any reply
// ---------------------------------------------------------------------------------------------

/// What a reply in a protocol says.
pub open spec fn format_reply(
    format: AiApiFormat,
    reply: JsonView,
    requested: Seq<char>,
    use_search: bool,
) -> Result<AnswerModel, ErrorModel> {
    match format {
        AiApiFormat::GeminiInteractions => gemini_reply(reply, requested, use_search),
        AiApiFormat::OpenaiChatCompletions => chat_reply(reply, requested),
        AiApiFormat::OpenaiResponses => responses_reply(reply, requested, use_search),
    }
}

/// The error message in a reply.
pub open spec fn error_text(format: AiApiFormat, reply: JsonView) -> Seq<char> {
    let named = second_child(reply, "error"@, "message"@);
    match format {
        AiApiFormat::GeminiInteractions => match json::text_of(named) {
            Some(s) => s,
            None => "Gemini returned an unknown error"@,
        },
        _ => match json::text_of(
            if named is Some {
                named
            } else {
                reply.field("message"@)
            },
        ) {
            Some(s) => s,
            None => "provider returned an unknown error"@,
        },
    }
}

/// What a reply means, given what reading its body brought.
pub open spec fn reply_meaning(
    format: AiApiFormat,
    status: u16,
    retry_after: Option<u64>,
    body: Result<JsonView, Seq<char>>,
    requested: Seq<char>,
    use_search: bool,
    api_key: Seq<char>,
) -> Result<AnswerModel, ErrorModel> {
    match body {
        Err(cause) => Err(
            provider_error::permanent_error(
                match format {
                    AiApiFormat::GeminiInteractions => "invalid Gemini JSON response: "@ + cause,
                    _ => "invalid OpenAI-compatible JSON response: "@ + cause,
                },
            ),
        ),
        Ok(reply) => if 200 <= status < 300 {
            format_reply(format, reply, requested, use_search)
        } else {
            Err(
                provider_error::http_error(
                    status,
                    error_text(format, reply),
                    retry_after,
                    api_key,
                ),
            )
        },
    }
}

pub open spec fn too_large(format: AiApiFormat) -> ErrorModel {
    provider_error::permanent_error(
        match format {
            AiApiFormat::GeminiInteractions => "Gemini response was too large"@,
            _ => "OpenAI-compatible response was too large"@,
        },
    )
}

fn error_message(format: AiApiFormat, value: &Json) -> (r: String)
    ensures
        r@ == error_text(format, value@),
{
    let named = step_twice(value, "error", "message");
    match format {
        AiApiFormat::GeminiInteractions => {
            if let Some(j) = named {
                if let Some(s) = j.as_str() {
                    return s.clone();
                }
            }
            "Gemini returned an unknown error".to_owned()
        },
        _ => {
            let found = match named {
                Some(j) => Some(j),
                None => value.get("message"),
            };
            if let Some(j) = found {
                if let Some(s) = j.as_str() {
                    return s.clone();
                }
            }
            "provider returned an unknown error".to_owned()
        },
    }
}

/// What a reply means, given what reading its body as JSON brought: the document, or why there is
/// none.
pub fn interpret_reply(
    format: AiApiFormat,
    status: u16,
    retry_after: Option<u64>,
    body: &Result<Json, String>,
    model: &str,
    use_search: bool,
    api_key: &str,
) -> (r: Result<AiAnswer, ProviderError>)
    ensures
        reply_outcome(r) == reply_meaning(
            format,
            status,
            retry_after,
            match *body {
                Ok(j) => Ok(j@),
                Err(e) => Err(e@),
            },
            model@,
            use_search,
            api_key@,
        ),
{
    match body {
        Err(cause) => {
            let mut message = match format {
                AiApiFormat::GeminiInteractions => "invalid Gemini JSON response: ".to_owned(),
                _ => "invalid OpenAI-compatible JSON response: ".to_owned(),
            };
            message.append(cause.as_str());
            Err(ProviderError::permanent(message.as_str()))
        },
        Ok(value) => {
            if status < 200 || status >= 300 {
                let message = error_message(format, value);
                return Err(ProviderError::http(status, message.as_str(), retry_after, api_key));
            }
            match format {
                AiApiFormat::GeminiInteractions => parse_gemini_response(value, model, use_search),
                AiApiFormat::OpenaiChatCompletions => parse_chat_completions_response(value, model),
                AiApiFormat::OpenaiResponses => parse_responses_response(value, model, use_search),
            }
        },
    }
}

/// The error of a reply of so many bytes, if that is too many.
pub fn size_error(format: AiApiFormat, bytes: u64) -> (r: Option<ProviderError>)
    ensures
        match r {
            Some(e) => bytes > MAX_AI_RESPONSE_BYTES && e@ == too_large(format),
            None => bytes <= MAX_AI_RESPONSE_BYTES,
        },
{
    if bytes > 4_194_304 {
        match format {
            AiApiFormat::GeminiInteractions => Some(
                ProviderError::permanent("Gemini response was too large"),
            ),
            _ => Some(ProviderError::permanent("OpenAI-compatible response was too large")),
        }
    } else {
        None
    }
}

/// Reads a reply: its status, what its header `Retry-After` says, and its body.
pub fn read_reply(
    format: AiApiFormat,
    status: u16,
    retry_after: Option<&str>,
    bytes: &[u8],
    model: &str,
    use_search: bool,
    api_key: &str,
) -> (r: Result<AiAnswer, ProviderError>)
    ensures
        bytes@.len() > MAX_AI_RESPONSE_BYTES ==> reply_outcome(r) == Err::<AnswerModel, ErrorModel>(
            too_large(format),
        ),
        bytes@.len() <= MAX_AI_RESPONSE_BYTES ==> reply_outcome(r) == reply_meaning(
            format,
            status,
            provider_error::retry_after_header(
                match retry_after {
                    Some(s) => Some(s@),
                    None => None,
                },
            ),
            json::parsed_json(bytes@),
            model@,
            use_search,
            api_key@,
        ),
{
    if let Some(e) = size_error(format, bytes.len() as u64) {
        return Err(e);
    }
    let body = json::read_json(bytes);
    interpret_reply(
        format,
        status,
        provider_error::retry_after_delay(retry_after),
        &body,
        model,
        use_search,
        api_key,
    )
}

// ---------------------------------------------------------------------------------------------
// Laws
// ---------------------------------------------------------------------------------------------

proof fn lemma_proper_blocks(blocks: Seq<JsonView>)
    ensures
        proper_sources(chat_blocks(blocks).sources),
    decreases blocks.len(),
{
    if blocks.len() > 0 {
        lemma_proper_blocks(blocks.drop_last());
        lemma_proper_annotations(
            chat_blocks(blocks.drop_last()).sources,
            json::items_of(blocks.last().field("annotations"@)),
            true,
        );
    }
}

proof fn lemma_proper_typed(d: Draft, blocks: Seq<JsonView>, kind: Seq<char>, nested: bool)
    requires
        proper_sources(d.sources),
    ensures
        proper_sources(typed_blocks(d, blocks, kind, nested).sources),
    decreases blocks.len(),
{
    if blocks.len() > 0 {
        lemma_proper_typed(d, blocks.drop_last(), kind, nested);
        lemma_proper_annotations(
            typed_blocks(d, blocks.drop_last(), kind, nested).sources,
            json::items_of(blocks.last().field("annotations"@)),
            nested,
        );
    }
}

proof fn lemma_proper_parts(
    parts: Seq<JsonView>,
    call: Seq<char>,
    output: Seq<char>,
    block: Seq<char>,
    nested: bool,
)
    ensures
        proper_sources(parts_draft(parts, call, output, block, nested).sources),
    decreases parts.len(),
{
    if parts.len() > 0 {
        lemma_proper_parts(parts.drop_last(), call, output, block, nested);
        lemma_proper_typed(
            parts_draft(parts.drop_last(), call, output, block, nested),
            json::items_of(parts.last().field("content"@)),
            block,
            nested,
        );
    }
}

/// An answer says something; its sources are behind HTTPS and none is named twice; and where a search
/// was asked of a protocol that has one, it was made.
pub proof fn law_answers(
    format: AiApiFormat,
    reply: JsonView,
    requested: Seq<char>,
    use_search: bool,
)
    ensures
        format_reply(format, reply, requested, use_search) matches Ok(answer) ==> {
            &&& !scan::blank(answer.text)
            &&& proper_sources(answer.sources)
            &&& use_search && format.searches() ==> answer.search_calls > 0
        },
{
    match format {
        AiApiFormat::GeminiInteractions => {
            lemma_proper_parts(
                json::items_of(reply.field("steps"@)),
                "google_search_call"@,
                "model_output"@,
                "text"@,
                false,
            );
        },
        AiApiFormat::OpenaiChatCompletions => {
            if let Some(choice) = second_child(reply, "choices"@, "0"@) {
                if let Some(message) = choice.child("message"@) {
                    if let Some(JsonView::Array(blocks)) = message.field("content"@) {
                        lemma_proper_blocks(blocks);
                        lemma_proper_annotations(
                            chat_blocks(blocks).sources,
                            json::items_of(message.field("annotations"@)),
                            true,
                        );
                    }
                    lemma_proper_annotations(
                        Seq::empty(),
                        json::items_of(message.field("annotations"@)),
                        true,
                    );
                }
            }
        },
        AiApiFormat::OpenaiResponses => {
            lemma_proper_parts(
                json::items_of(reply.field("output"@)),
                "web_search_call"@,
                "message"@,
                "output_text"@,
                true,
            );
        },
    }
}

/// Whether a part of a reply is of a type.
pub open spec fn is_type(part: JsonView, kind: Seq<char>) -> bool {
    part.field("type"@) == Some(JsonView::Text(kind))
}

/// The blocks of all parts of a type, in their order.
pub open spec fn blocks_in(parts: Seq<JsonView>, output: Seq<char>) -> Seq<JsonView> {
    parts.filter(|p: JsonView| is_type(p, output)).map_values(
        |p: JsonView| json::items_of(p.field("content"@)),
    ).flatten()
}

/// The texts of all blocks of a type, in their order.
pub open spec fn texts_in(blocks: Seq<JsonView>, kind: Seq<char>) -> Seq<Seq<char>> {
    blocks.filter(|b: JsonView| is_type(b, kind) && b.field("text"@) matches Some(JsonView::Text(_))).map_values(
        |b: JsonView| b.field("text"@)->Some_0->Text_0,
    )
}

proof fn lemma_flat_push<A>(x: Seq<Seq<A>>, s: Seq<A>)
    ensures
        x.push(s).flatten() == x.flatten() + s,
{
    x.lemma_flatten_push(s);
}

proof fn lemma_flat_empty<A>()
    ensures
        Seq::<Seq<A>>::empty().flatten() == Seq::<A>::empty(),
{
    assert(Seq::<Seq<A>>::empty().flatten() =~= Seq::<A>::empty());
}

proof fn lemma_flat_concat<A>(x: Seq<Seq<A>>, y: Seq<Seq<A>>)
    ensures
        (x + y).flatten() == x.flatten() + y.flatten(),
    decreases y.len(),
{
    if y.len() == 0 {
        assert(x + y =~= x);
        lemma_flat_empty::<A>();
        assert(y =~= Seq::<Seq<A>>::empty());
        assert(x.flatten() + y.flatten() =~= x.flatten());
    } else {
        assert(x + y =~= (x + y.drop_last()).push(y.last()));
        assert(y =~= y.drop_last().push(y.last()));
        lemma_flat_push(x + y.drop_last(), y.last());
        lemma_flat_push(y.drop_last(), y.last());
        lemma_flat_concat(x, y.drop_last());
        assert(x.flatten() + (y.drop_last().flatten() + y.last()) =~= x.flatten()
            + y.drop_last().flatten() + y.last());
    }
}

proof fn lemma_filter_push<A>(s: Seq<A>, a: A, f: spec_fn(A) -> bool)
    ensures
        s.push(a).filter(f) == if f(a) {
            s.filter(f).push(a)
        } else {
            s.filter(f)
        },
{
    reveal(Seq::filter);
    assert(s.push(a).drop_last() =~= s);
}

proof fn lemma_texts_push(blocks: Seq<JsonView>, block: JsonView, kind: Seq<char>)
    ensures
        texts_in(blocks.push(block), kind) == if is_type(block, kind) && block.field("text"@) matches Some(
            JsonView::Text(_),
        ) {
            texts_in(blocks, kind).push(block.field("text"@)->Some_0->Text_0)
        } else {
            texts_in(blocks, kind)
        },
{
    let f = |b: JsonView| is_type(b, kind) && b.field("text"@) matches Some(JsonView::Text(_));
    lemma_filter_push(blocks, block, f);
    assert(texts_in(blocks.push(block), kind) =~= if f(block) {
        texts_in(blocks, kind).push(block.field("text"@)->Some_0->Text_0)
    } else {
        texts_in(blocks, kind)
    });
}

proof fn lemma_texts_concat(a: Seq<JsonView>, b: Seq<JsonView>, kind: Seq<char>)
    ensures
        texts_in(a + b, kind) == texts_in(a, kind) + texts_in(b, kind),
    decreases b.len(),
{
    if b.len() == 0 {
        assert(a + b =~= a);
        lemma_no_texts(b, kind);
        assert(texts_in(a, kind) + texts_in(b, kind) =~= texts_in(a, kind));
    } else {
        assert(a + b =~= (a + b.drop_last()).push(b.last()));
        assert(b =~= b.drop_last().push(b.last()));
        lemma_texts_push(a + b.drop_last(), b.last(), kind);
        lemma_texts_push(b.drop_last(), b.last(), kind);
        lemma_texts_concat(a, b.drop_last(), kind);
        assert(texts_in(a + b, kind) =~= texts_in(a, kind) + texts_in(b, kind));
    }
}

proof fn lemma_no_texts(blocks: Seq<JsonView>, kind: Seq<char>)
    requires
        blocks.len() == 0,
    ensures
        texts_in(blocks, kind) == Seq::<Seq<char>>::empty(),
{
    reveal(Seq::filter);
    assert(texts_in(blocks, kind) =~= Seq::<Seq<char>>::empty());
}

proof fn lemma_typed_text(d: Draft, blocks: Seq<JsonView>, kind: Seq<char>, nested: bool)
    ensures
        typed_blocks(d, blocks, kind, nested).text == d.text + texts_in(blocks, kind).flatten(),
    decreases blocks.len(),
{
    if blocks.len() == 0 {
        lemma_no_texts(blocks, kind);
        lemma_flat_empty::<char>();
        assert(d.text + Seq::<char>::empty() =~= d.text);
    } else {
        let before = blocks.drop_last();
        let block = blocks.last();
        lemma_typed_text(d, before, kind, nested);
        assert(blocks =~= before.push(block));
        lemma_texts_push(before, block, kind);
        if is_type(block, kind) && block.field("text"@) matches Some(JsonView::Text(_)) {
            let s = block.field("text"@)->Some_0->Text_0;
            lemma_flat_push(texts_in(before, kind), s);
            assert(d.text + (texts_in(before, kind).flatten() + s) =~= d.text + texts_in(
                before,
                kind,
            ).flatten() + s);
        }
    }
}

proof fn lemma_blocks_push(parts: Seq<JsonView>, part: JsonView, output: Seq<char>)
    ensures
        blocks_in(parts.push(part), output) == if is_type(part, output) {
            blocks_in(parts, output) + json::items_of(part.field("content"@))
        } else {
            blocks_in(parts, output)
        },
{
    let f = |p: JsonView| is_type(p, output);
    let g = |p: JsonView| json::items_of(p.field("content"@));
    lemma_filter_push(parts, part, f);
    if f(part) {
        assert(parts.push(part).filter(f).map_values(g) =~= parts.filter(f).map_values(g).push(
            g(part),
        ));
        lemma_flat_push(parts.filter(f).map_values(g), g(part));
    }
}

proof fn lemma_parts_text(
    parts: Seq<JsonView>,
    call: Seq<char>,
    output: Seq<char>,
    block: Seq<char>,
    nested: bool,
)
    requires
        call != output,
    ensures
        ({
            let d = parts_draft(parts, call, output, block, nested);
            &&& d.text == texts_in(blocks_in(parts, output), block).flatten()
            &&& d.search_calls == parts.filter(|p: JsonView| is_type(p, call)).len()
        }),
    decreases parts.len(),
{
    let f = |p: JsonView| is_type(p, call);
    if parts.len() == 0 {
        reveal(Seq::filter);
        assert(parts.filter(|p: JsonView| is_type(p, output)).map_values(
            |p: JsonView| json::items_of(p.field("content"@)),
        ) =~= Seq::<Seq<JsonView>>::empty());
        lemma_flat_empty::<JsonView>();
        lemma_no_texts(blocks_in(parts, output), block);
        lemma_flat_empty::<char>();
    } else {
        let before = parts.drop_last();
        let part = parts.last();
        assert(parts =~= before.push(part));
        lemma_parts_text(before, call, output, block, nested);
        lemma_blocks_push(before, part, output);
        lemma_filter_push(before, part, f);
        let d = parts_draft(before, call, output, block, nested);
        let content = json::items_of(part.field("content"@));
        lemma_typed_calls(d, content, block, nested);
        if is_type(part, output) {
            lemma_typed_text(d, content, block, nested);
            lemma_texts_concat(blocks_in(before, output), content, block);
            lemma_flat_concat(texts_in(blocks_in(before, output), block), texts_in(content, block));
        }
    }
}

/// The text of an answer of Gemini is what all text blocks of all output steps say, in their order, and the
/// searches are the steps that called the search tool. It is answered exactly if that is not blank and a
/// search was made where one was asked for, by the model that was asked.
pub proof fn law_gemini_text(
    reply: JsonView,
    steps: Seq<JsonView>,
    requested: Seq<char>,
    use_search: bool,
)
    requires
        reply.field("steps"@) == Some(JsonView::Array(steps)),
    ensures
        ({
            let said = texts_in(blocks_in(steps, "model_output"@), "text"@).flatten();
            let calls = steps.filter(|p: JsonView| is_type(p, "google_search_call"@)).len();
            let r = gemini_reply(reply, requested, use_search);
            &&& r is Ok <==> !scan::blank(said) && (use_search ==> calls > 0)
            &&& r matches Ok(answer) ==> answer.text == said && answer.search_calls == calls
                && answer.model == requested
            &&& r matches Err(e) ==> e.transient && e.retry_after is None
        }),
{
    reveal_strlit("google_search_call");
    reveal_strlit("model_output");
    assert("google_search_call"@.len() != "model_output"@.len());
    lemma_parts_text(steps, "google_search_call"@, "model_output"@, "text"@, false);
}

/// A reply of Gemini without steps is an error that will not pass.
pub proof fn law_gemini_without_steps(reply: JsonView, requested: Seq<char>, use_search: bool)
    requires
        !(reply.field("steps"@) matches Some(JsonView::Array(_))),
    ensures
        gemini_reply(reply, requested, use_search) matches Err(e) && !e.transient,
{
}

/// The text of an answer in Responses is what all text blocks of all messages say, in their order; where
/// that is blank, what the reply gives as its text stands behind it. The searches are the parts that called
/// the search tool, and the model is the one that the reply names, or the one that was asked.
pub proof fn law_responses_text(
    reply: JsonView,
    parts: Seq<JsonView>,
    requested: Seq<char>,
    use_search: bool,
)
    requires
        reply.field("output"@) == Some(JsonView::Array(parts)) || (parts.len() == 0 && !(
        reply.field("output"@) matches Some(JsonView::Array(_)))),
    ensures
        ({
            let own = texts_in(blocks_in(parts, "message"@), "output_text"@).flatten();
            let said = if scan::blank(own) && reply.field("output_text"@) matches Some(
                JsonView::Text(_),
            ) {
                own + reply.field("output_text"@)->Some_0->Text_0
            } else {
                own
            };
            let calls = parts.filter(|p: JsonView| is_type(p, "web_search_call"@)).len();
            let r = responses_reply(reply, requested, use_search);
            &&& r is Ok <==> !scan::blank(said) && (use_search ==> calls > 0)
            &&& r matches Ok(answer) ==> answer.text == said && answer.search_calls == calls
                && answer.model == match reply.field("model"@) {
                Some(JsonView::Text(s)) => s,
                _ => requested,
            }
            &&& r matches Err(e) ==> e.transient && e.retry_after is None
        }),
{
    reveal_strlit("web_search_call");
    reveal_strlit("message");
    assert("web_search_call"@.len() != "message"@.len());
    lemma_parts_text(parts, "web_search_call"@, "message"@, "output_text"@, true);
    assert(json::items_of(reply.field("output"@)) =~= parts);
}

/// The text of a block in Chat Completions: under its name, or one level deeper.
pub open spec fn chat_text(block: JsonView) -> Seq<char> {
    match block.field("text"@) {
        Some(JsonView::Text(s)) => s,
        Some(inner) => match inner.child("value"@) {
            Some(JsonView::Text(s)) => s,
            _ => Seq::empty(),
        },
        None => Seq::empty(),
    }
}

proof fn lemma_chat_text(blocks: Seq<JsonView>)
    ensures
        chat_blocks(blocks).text == blocks.map_values(|b: JsonView| chat_text(b)).flatten(),
    decreases blocks.len(),
{
    let f = |b: JsonView| chat_text(b);
    if blocks.len() == 0 {
        assert(blocks.map_values(f) =~= Seq::<Seq<char>>::empty());
        lemma_flat_empty::<char>();
    } else {
        let before = blocks.drop_last();
        lemma_chat_text(before);
        assert(blocks.map_values(f) =~= before.map_values(f).push(chat_text(blocks.last())));
        lemma_flat_push(before.map_values(f), chat_text(blocks.last()));
        let b = blocks.last();
        assert(b is Object ==> b.child("text"@) == b.field("text"@));
        assert(block_text(b) is Some ==> block_text(b)->0 == chat_text(b)) by {
            lemma_child_of_array(b);
        }
        if block_text(b) is None {
            lemma_child_of_array(b);
            assert(chat_text(b) =~= Seq::<char>::empty());
            assert(chat_blocks(before).text + chat_text(b) =~= chat_blocks(before).text);
        }
    }
}

proof fn lemma_child_of_array(b: JsonView)
    ensures
        !(b is Object) ==> b.child("text"@) is None && b.field("text"@) is None,
{
    reveal_strlit("text");
    if let JsonView::Array(items) = b {
        assert("text"@[0] == 't');
        assert(number::unsigned_value("text"@, usize::MAX as nat) is Err);
    }
}

/// The text of an answer in Chat Completions is the content of its first choice's message: the text that it
/// is, or what all its blocks say, in their order. It is answered exactly if that is not blank.
pub proof fn law_chat_text(reply: JsonView, message: JsonView, requested: Seq<char>)
    requires
        reply.along(seq!["choices"@, "0"@, "message"@]) == Some(message),
    ensures
        ({
            let said = match message.field("content"@) {
                Some(JsonView::Text(s)) => s,
                Some(JsonView::Array(blocks)) => blocks.map_values(
                    |b: JsonView| chat_text(b),
                ).flatten(),
                _ => Seq::empty(),
            };
            let r = chat_reply(reply, requested);
            &&& r is Ok <==> !scan::blank(said)
            &&& r matches Ok(answer) ==> answer.text == said && answer.search_calls == 0
                && answer.model == match reply.field("model"@) {
                Some(JsonView::Text(s)) => s,
                _ => requested,
            }
            &&& r matches Err(e) ==> e.transient && e.retry_after is None
        }),
{
    let path = seq!["choices"@, "0"@, "message"@];
    let p1 = seq!["0"@, "message"@];
    let p2 = seq!["message"@];
    assert(path =~= seq!["choices"@] + p1);
    assert(p1 =~= seq!["0"@] + p2);
    assert(p2 =~= seq!["message"@] + Seq::<Seq<char>>::empty());
    json::law_paths(reply, "choices"@, p1, Seq::empty(), 0);
    let a = reply.child("choices"@)->0;
    json::law_paths(a, "0"@, p2, Seq::empty(), 0);
    let b = a.child("0"@)->0;
    json::law_paths(b, "message"@, Seq::empty(), Seq::empty(), 0);
    let c = b.child("message"@)->0;
    json::law_paths(c, "message"@, Seq::empty(), Seq::empty(), 0);
    assert(c == message);
    lemma_chat_calls(message);
    match message.field("content"@) {
        Some(JsonView::Text(s)) => {
            assert(Seq::<char>::empty() + s =~= s);
        },
        Some(JsonView::Array(blocks)) => {
            lemma_chat_text(blocks);
        },
        _ => {},
    }
}

/// A page that an annotation names: its address, if it is behind HTTPS, and its title.
pub open spec fn cited_page(annotation: JsonView, nested: bool) -> Option<SourceModel> {
    let inner = if nested && annotation.field("url_citation"@) is Some {
        annotation.field("url_citation"@)->0
    } else {
        annotation
    };
    match inner.field("url"@) {
        Some(JsonView::Text(url)) => if is_type(annotation, "url_citation"@) && scan::starts(
            url,
            "https://"@,
        ) {
            Some(
                SourceModel {
                    url,
                    title: match inner.field("title"@) {
                        Some(JsonView::Text(title)) => if scan::trimmed(title).len() == 0 {
                            "参考资料"@
                        } else {
                            title
                        },
                        _ => "参考资料"@,
                    },
                },
            )
        } else {
            None
        },
        _ => None,
    }
}

/// The sources of an answer are the pages that annotations name, in the order in which they are first
/// named, each once with the title that it first had: those that were there stay, a page that is new comes
/// behind them, and anything else changes nothing.
pub proof fn law_sources(
    sources: Seq<SourceModel>,
    annotations: Seq<JsonView>,
    annotation: JsonView,
    nested: bool,
)
    ensures
        ({
            let before = with_annotations(sources, annotations, nested);
            let after = with_annotations(sources, annotations.push(annotation), nested);
            &&& with_annotations(sources, Seq::empty(), nested) == sources
            &&& cited_page(annotation, nested) is None ==> after == before
            &&& cited_page(annotation, nested) matches Some(page) ==> {
                &&& (exists|i: int| 0 <= i < before.len() && (#[trigger] before[i]).url == page.url)
                    ==> after == before
                &&& (forall|i: int| 0 <= i < before.len() ==> (#[trigger] before[i]).url != page.url)
                    ==> after == before.push(page)
            }
        }),
{
    let all = annotations.push(annotation);
    assert(all.drop_last() =~= annotations);
    let inner = citation_of(annotation, nested);
    if let Some(JsonView::Text(title)) = inner.field("title"@) {
        scan::lemma_trimmed_blank(title);
    }
}

/// The annotations of all blocks of a type, in their order.
pub open spec fn annotations_in(blocks: Seq<JsonView>, kind: Seq<char>) -> Seq<JsonView> {
    blocks.filter(|b: JsonView| is_type(b, kind)).map_values(
        |b: JsonView| json::items_of(b.field("annotations"@)),
    ).flatten()
}

proof fn lemma_annotations_push(blocks: Seq<JsonView>, block: JsonView, kind: Seq<char>)
    ensures
        annotations_in(blocks.push(block), kind) == if is_type(block, kind) {
            annotations_in(blocks, kind) + json::items_of(block.field("annotations"@))
        } else {
            annotations_in(blocks, kind)
        },
{
    let f = |b: JsonView| is_type(b, kind);
    let g = |b: JsonView| json::items_of(b.field("annotations"@));
    lemma_filter_push(blocks, block, f);
    if f(block) {
        assert(blocks.push(block).filter(f).map_values(g) =~= blocks.filter(f).map_values(g).push(
            g(block),
        ));
        lemma_flat_push(blocks.filter(f).map_values(g), g(block));
    }
}

proof fn lemma_annotations_concat(a: Seq<JsonView>, b: Seq<JsonView>, kind: Seq<char>)
    ensures
        annotations_in(a + b, kind) == annotations_in(a, kind) + annotations_in(b, kind),
    decreases b.len(),
{
    if b.len() == 0 {
        assert(a + b =~= a);
        lemma_no_annotations(b, kind);
        assert(annotations_in(a, kind) + annotations_in(b, kind) =~= annotations_in(a, kind));
    } else {
        assert(a + b =~= (a + b.drop_last()).push(b.last()));
        assert(b =~= b.drop_last().push(b.last()));
        lemma_annotations_push(a + b.drop_last(), b.last(), kind);
        lemma_annotations_push(b.drop_last(), b.last(), kind);
        lemma_annotations_concat(a, b.drop_last(), kind);
        assert(annotations_in(a + b, kind) =~= annotations_in(a, kind) + annotations_in(b, kind));
    }
}

proof fn lemma_no_annotations(blocks: Seq<JsonView>, kind: Seq<char>)
    requires
        blocks.len() == 0,
    ensures
        annotations_in(blocks, kind) == Seq::<JsonView>::empty(),
{
    reveal(Seq::filter);
    assert(blocks.filter(|b: JsonView| is_type(b, kind)).map_values(
        |b: JsonView| json::items_of(b.field("annotations"@)),
    ) =~= Seq::<Seq<JsonView>>::empty());
    lemma_flat_empty::<JsonView>();
}

proof fn lemma_annotations_twice(
    sources: Seq<SourceModel>,
    a: Seq<JsonView>,
    b: Seq<JsonView>,
    nested: bool,
)
    ensures
        with_annotations(with_annotations(sources, a, nested), b, nested) == with_annotations(
            sources,
            a + b,
            nested,
        ),
    decreases b.len(),
{
    if b.len() == 0 {
        assert(a + b =~= a);
    } else {
        assert((a + b).drop_last() =~= a + b.drop_last());
        lemma_annotations_twice(sources, a, b.drop_last(), nested);
    }
}

proof fn lemma_typed_sources(d: Draft, blocks: Seq<JsonView>, kind: Seq<char>, nested: bool)
    ensures
        typed_blocks(d, blocks, kind, nested).sources == with_annotations(
            d.sources,
            annotations_in(blocks, kind),
            nested,
        ),
    decreases blocks.len(),
{
    if blocks.len() == 0 {
        lemma_no_annotations(blocks, kind);
    } else {
        let before = blocks.drop_last();
        let block = blocks.last();
        assert(blocks =~= before.push(block));
        lemma_typed_sources(d, before, kind, nested);
        lemma_annotations_push(before, block, kind);
        lemma_annotations_twice(
            d.sources,
            annotations_in(before, kind),
            json::items_of(block.field("annotations"@)),
            nested,
        );
    }
}

proof fn lemma_parts_sources(
    parts: Seq<JsonView>,
    call: Seq<char>,
    output: Seq<char>,
    block: Seq<char>,
    nested: bool,
)
    requires
        call != output,
    ensures
        parts_draft(parts, call, output, block, nested).sources == with_annotations(
            Seq::empty(),
            annotations_in(blocks_in(parts, output), block),
            nested,
        ),
    decreases parts.len(),
{
    if parts.len() == 0 {
        reveal(Seq::filter);
        assert(parts.filter(|p: JsonView| is_type(p, output)).map_values(
            |p: JsonView| json::items_of(p.field("content"@)),
        ) =~= Seq::<Seq<JsonView>>::empty());
        lemma_flat_empty::<JsonView>();
        lemma_no_annotations(blocks_in(parts, output), block);
    } else {
        let before = parts.drop_last();
        let part = parts.last();
        assert(parts =~= before.push(part));
        lemma_parts_sources(before, call, output, block, nested);
        lemma_blocks_push(before, part, output);
        let d = parts_draft(before, call, output, block, nested);
        let content = json::items_of(part.field("content"@));
        if is_type(part, output) {
            lemma_typed_sources(d, content, block, nested);
            lemma_annotations_concat(blocks_in(before, output), content, block);
            lemma_annotations_twice(
                Seq::empty(),
                annotations_in(blocks_in(before, output), block),
                annotations_in(content, block),
                nested,
            );
        }
    }
}

/// The sources of an answer are those that the annotations of the text blocks name, of Gemini and in
/// Responses.
pub proof fn law_answer_sources(
    reply: JsonView,
    parts: Seq<JsonView>,
    requested: Seq<char>,
    use_search: bool,
)
    ensures
        reply.field("steps"@) == Some(JsonView::Array(parts)) ==> (gemini_reply(
            reply,
            requested,
            use_search,
        ) matches Ok(answer) ==> answer.sources == with_annotations(
            Seq::empty(),
            annotations_in(blocks_in(parts, "model_output"@), "text"@),
            false,
        )),
        reply.field("output"@) == Some(JsonView::Array(parts)) ==> (responses_reply(
            reply,
            requested,
            use_search,
        ) matches Ok(answer) ==> answer.sources == with_annotations(
            Seq::empty(),
            annotations_in(blocks_in(parts, "message"@), "output_text"@),
            true,
        )),
{
    reveal_strlit("google_search_call");
    reveal_strlit("model_output");
    assert("google_search_call"@.len() != "model_output"@.len());
    reveal_strlit("web_search_call");
    reveal_strlit("message");
    assert("web_search_call"@.len() != "message"@.len());
    lemma_parts_sources(parts, "google_search_call"@, "model_output"@, "text"@, false);
    lemma_parts_sources(parts, "web_search_call"@, "message"@, "output_text"@, true);
}

proof fn lemma_chat_sources(blocks: Seq<JsonView>)
    ensures
        chat_blocks(blocks).sources == with_annotations(
            Seq::empty(),
            blocks.map_values(|b: JsonView| json::items_of(b.field("annotations"@))).flatten(),
            true,
        ),
    decreases blocks.len(),
{
    let g = |b: JsonView| json::items_of(b.field("annotations"@));
    if blocks.len() == 0 {
        assert(blocks.map_values(g) =~= Seq::<Seq<JsonView>>::empty());
        lemma_flat_empty::<JsonView>();
    } else {
        let before = blocks.drop_last();
        lemma_chat_sources(before);
        assert(blocks.map_values(g) =~= before.map_values(g).push(g(blocks.last())));
        lemma_flat_push(before.map_values(g), g(blocks.last()));
        lemma_annotations_twice(
            Seq::empty(),
            before.map_values(g).flatten(),
            g(blocks.last()),
            true,
        );
    }
}

/// The sources of an answer in Chat Completions are those that the annotations of its blocks name, and then
/// those of the message itself.
pub proof fn law_chat_sources(reply: JsonView, message: JsonView, requested: Seq<char>)
    requires
        reply.along(seq!["choices"@, "0"@, "message"@]) == Some(message),
    ensures
        chat_reply(reply, requested) matches Ok(answer) ==> answer.sources == with_annotations(
            Seq::empty(),
            (match message.field("content"@) {
                Some(JsonView::Array(blocks)) => blocks.map_values(
                    |b: JsonView| json::items_of(b.field("annotations"@)),
                ).flatten(),
                _ => Seq::empty(),
            }) + json::items_of(message.field("annotations"@)),
            true,
        ),
{
    let path = seq!["choices"@, "0"@, "message"@];
    let p1 = seq!["0"@, "message"@];
    let p2 = seq!["message"@];
    assert(path =~= seq!["choices"@] + p1);
    assert(p1 =~= seq!["0"@] + p2);
    assert(p2 =~= seq!["message"@] + Seq::<Seq<char>>::empty());
    json::law_paths(reply, "choices"@, p1, Seq::empty(), 0);
    let a = reply.child("choices"@)->0;
    json::law_paths(a, "0"@, p2, Seq::empty(), 0);
    let b = a.child("0"@)->0;
    json::law_paths(b, "message"@, Seq::empty(), Seq::empty(), 0);
    let c = b.child("message"@)->0;
    json::law_paths(c, "message"@, Seq::empty(), Seq::empty(), 0);
    assert(c == message);
    let own = json::items_of(message.field("annotations"@));
    match message.field("content"@) {
        Some(JsonView::Array(blocks)) => {
            lemma_chat_sources(blocks);
            let all = blocks.map_values(
                |b: JsonView| json::items_of(b.field("annotations"@)),
            ).flatten();
            lemma_annotations_twice(Seq::empty(), all, own, true);
        },
        _ => {
            assert(Seq::<JsonView>::empty() + own =~= own);
        },
    }
}

/// A reply is read in the protocol in which it was asked for if its status says that it succeeded; else it
/// is an error with the status, the message that the reply gives, and the time to wait.
pub proof fn law_reply_meaning(
    format: AiApiFormat,
    status: u16,
    retry_after: Option<u64>,
    reply: JsonView,
    requested: Seq<char>,
    use_search: bool,
    key: Seq<char>,
)
    ensures
        ({
            let r = reply_meaning(
                format,
                status,
                retry_after,
                Ok(reply),
                requested,
                use_search,
                key,
            );
            &&& 200 <= status <= 299 && format is GeminiInteractions ==> r == gemini_reply(
                reply,
                requested,
                use_search,
            )
            &&& 200 <= status <= 299 && format is OpenaiResponses ==> r == responses_reply(
                reply,
                requested,
                use_search,
            )
            &&& 200 <= status <= 299 && format is OpenaiChatCompletions ==> r == chat_reply(
                reply,
                requested,
            )
            &&& !(200 <= status <= 299) ==> (r matches Err(e) && e.retry_after == retry_after)
            &&& !(200 <= status <= 299) ==> forall|s: Seq<char>|
                reply.along(seq!["error"@, "message"@]) == Some(JsonView::Text(s)) && key.len() == 0
                    && s.len() <= 500 && #[trigger] provider_error::one_line(s) == s ==> (r matches Err(
                    e,
                ) && e.message == "provider HTTP "@ + number::decimal(status as nat) + ": "@ + s)
        }),
{
    if !(200 <= status <= 299) {
        let path = seq!["error"@, "message"@];
        let p1 = seq!["message"@];
        assert(path =~= seq!["error"@] + p1);
        assert(p1 =~= seq!["message"@] + Seq::<Seq<char>>::empty());
        json::law_paths(reply, "error"@, p1, Seq::empty(), 0);
        if reply.along(path) is Some {
            let a = reply.child("error"@)->0;
            json::law_paths(a, "message"@, Seq::empty(), Seq::empty(), 0);
            let c = a.child("message"@)->0;
            json::law_paths(c, "message"@, Seq::empty(), Seq::empty(), 0);
        }
    }
}

/// What a service says of an error: the message under `error`, or for the formats of OpenAI the message of
/// the reply itself.
pub proof fn law_error_texts(format: AiApiFormat, reply: JsonView, error: JsonView, s: Seq<char>)
    ensures
        reply.child("error"@) == Some(error) && error.child("message"@) == Some(JsonView::Text(s))
            ==> error_text(format, reply) == s,
        reply.child("error"@) is None && !(format is GeminiInteractions) && reply.field("message"@)
            == Some(JsonView::Text(s)) ==> error_text(format, reply) == s,
        reply.child("error"@) is None && !(format is GeminiInteractions) && reply.field("message"@)
            is None ==> error_text(format, reply) == "provider returned an unknown error"@,
        reply.child("error"@) is None && format is GeminiInteractions ==> error_text(format, reply)
            == "Gemini returned an unknown error"@,
        !too_large(format).transient,
        format is GeminiInteractions ==> too_large(format).message
            == "Gemini response was too large"@,
        !(format is GeminiInteractions) ==> too_large(format).message
            == "OpenAI-compatible response was too large"@,
{
}

/// An interaction without an answer may be tried again, and is told by its status and the kinds of its
/// steps in order.
pub proof fn law_empty_interaction(
    reply: JsonView,
    status: Seq<char>,
    steps: Seq<JsonView>,
    step: JsonView,
    kind: Seq<char>,
)
    ensures
        empty_reply_error(reply).transient,
        reply.field("status"@) == Some(JsonView::Text(status)) && reply.field("steps"@) == Some(
            JsonView::Array(steps),
        ) ==> empty_reply_error(reply).message == "Gemini returned an empty interaction (status="@
            + status + ", steps="@ + scan::joined(step_types(steps), ","@) + ")"@,
        reply.field("status"@) is None && reply.field("steps"@) == Some(JsonView::Array(steps))
            ==> empty_reply_error(reply).message
            == "Gemini returned an empty interaction (status="@ + "UNKNOWN"@ + ", steps="@
            + scan::joined(step_types(steps), ","@) + ")"@,
        step.field("type"@) == Some(JsonView::Text(kind)) ==> step_types(steps.push(step))
            == step_types(steps).push(kind),
        step.field("type"@) is None ==> step_types(steps.push(step)) == step_types(steps),
        step_types(Seq::empty()) == Seq::<Seq<char>>::empty(),
{
    assert(steps.push(step).drop_last() =~= steps);
}

/// A reply of a service may take four MiB.
pub proof fn law_limits()
    ensures
        MAX_AI_RESPONSE_BYTES == 4 * 1024 * 1024,
{
}

} // verus!
