//! Requests to AI services, in the protocols that there are.

use crate::base64_text;
use crate::config::AiApiFormat;
use crate::json;
use crate::json::Json;
use crate::json::JsonView;
use crate::number;
use crate::scan;
use crate::text;
use vstd::prelude::*;

verus! {

/// An image that goes with a question.
#[derive(Debug, PartialEq, Eq)]
pub struct AiImage {
    pub mime_type: String,
    pub base64_data: String,
    pub byte_len: usize,
}

#[verifier::ext_equal]
pub struct ImageModel {
    pub mime_type: Seq<char>,
    pub base64_data: Seq<char>,
    pub byte_len: nat,
}

impl View for AiImage {
    type V = ImageModel;

    open spec fn view(&self) -> ImageModel {
        ImageModel {
            mime_type: self.mime_type@,
            base64_data: self.base64_data@,
            byte_len: self.byte_len as nat,
        }
    }
}

pub open spec fn images_of(v: Seq<AiImage>) -> Seq<ImageModel> {
    Seq::new(v.len(), |i: int| v[i]@)
}

/// Media of a type, as a URL that holds it.
pub open spec fn data_url(mime_type: Seq<char>, base64_data: Seq<char>) -> Seq<char> {
    "data:"@ + mime_type + ";base64,"@ + base64_data
}

impl AiImage {
    /// An image from its bytes.
    pub fn new(mime_type: &str, bytes: &[u8]) -> (r: AiImage)
        ensures
            r@ == (ImageModel {
                mime_type: mime_type@,
                base64_data: base64_text::encoded(bytes@),
                byte_len: bytes@.len(),
            }),
    {
        AiImage {
            mime_type: mime_type.to_owned(),
            base64_data: base64_text::encode(bytes),
            byte_len: bytes.len(),
        }
    }
}

pub fn make_data_url(mime_type: &str, base64_data: &str) -> (r: String)
    ensures
        r@ == data_url(mime_type@, base64_data@),
{
    let mut url = "data:".to_owned();
    url.append(mime_type);
    url.append(";base64,");
    url.append(base64_data);
    url
}

// ---------------------------------------------------------------------------------------------
// Endpoints
// ---------------------------------------------------------------------------------------------

/// An API prefix with the name of an endpoint behind it, unless it ends with that already.
pub open spec fn with_endpoint(base_url: Seq<char>, suffix: Seq<char>) -> Seq<char> {
    if scan::ends(base_url, suffix) {
        base_url
    } else {
        base_url + "/"@ + suffix
    }
}

/// Where requests of a protocol go, given the API prefix.
pub open spec fn endpoint_of(format: AiApiFormat, base_url: Seq<char>) -> Seq<char> {
    match format {
        AiApiFormat::GeminiInteractions => if scan::ends(base_url, "/v1beta"@) {
            base_url + "/interactions"@
        } else {
            base_url + "/v1beta/interactions"@
        },
        AiApiFormat::OpenaiChatCompletions => with_endpoint(base_url, "chat/completions"@),
        AiApiFormat::OpenaiResponses => with_endpoint(base_url, "responses"@),
    }
}

/// An endpoint is appended once: the result ends with it, and appending it again changes nothing.
pub proof fn law_endpoint_once(base_url: Seq<char>, suffix: Seq<char>)
    ensures
        scan::ends(with_endpoint(base_url, suffix), suffix),
        with_endpoint(with_endpoint(base_url, suffix), suffix) == with_endpoint(base_url, suffix),
{
    if !scan::ends(base_url, suffix) {
        let r = base_url + "/"@ + suffix;
        assert(r.subrange(r.len() - suffix.len(), r.len() as int) =~= suffix);
    }
}

pub fn append_api_endpoint(base_url: &str, suffix: &str) -> (r: String)
    ensures
        r@ == with_endpoint(base_url@, suffix@),
{
    if scan::ends_with(base_url, suffix) {
        base_url.to_owned()
    } else {
        let mut url = base_url.to_owned();
        url.append("/");
        url.append(suffix);
        url
    }
}

pub fn api_endpoint(format: AiApiFormat, base_url: &str) -> (r: String)
    ensures
        r@ == endpoint_of(format, base_url@),
{
    match format {
        AiApiFormat::GeminiInteractions => {
            let mut url = base_url.to_owned();
            if scan::ends_with(base_url, "/v1beta") {
                url.append("/interactions");
            } else {
                url.append("/v1beta/interactions");
            }
            url
        },
        AiApiFormat::OpenaiChatCompletions => append_api_endpoint(base_url, "chat/completions"),
        AiApiFormat::OpenaiResponses => append_api_endpoint(base_url, "responses"),
    }
}

// ---------------------------------------------------------------------------------------------
// Bodies
// ---------------------------------------------------------------------------------------------

pub open spec fn integer(n: int) -> JsonView {
    JsonView::Number(number::signed_decimal(n))
}

/// A part of a message: its type, and a value under a name.
pub open spec fn typed(kind: Seq<char>, key: Seq<char>, value: JsonView) -> JsonView {
    json::empty_object().with("type"@, JsonView::Text(kind)).with(key, value)
}

pub open spec fn image_url(image: ImageModel) -> JsonView {
    JsonView::Text(data_url(image.mime_type, image.base64_data))
}

pub open spec fn chat_image(image: ImageModel) -> JsonView {
    typed("image_url"@, "image_url"@, json::empty_object().with("url"@, image_url(image)))
}

pub open spec fn responses_image(image: ImageModel) -> JsonView {
    typed("input_image"@, "image_url"@, image_url(image))
}

pub open spec fn gemini_image(image: ImageModel) -> JsonView {
    json::empty_object().with("type"@, JsonView::Text("image"@)).with(
        "mime_type"@,
        JsonView::Text(image.mime_type),
    ).with("data"@, JsonView::Text(image.base64_data))
}

pub open spec fn chat_message(role: Seq<char>, content: JsonView) -> JsonView {
    json::empty_object().with("role"@, JsonView::Text(role)).with("content"@, content)
}

/// A question in Chat Completions: a text, or parts if there are images.
pub open spec fn chat_content(query: Seq<char>, images: Seq<ImageModel>) -> JsonView {
    if images.len() == 0 {
        JsonView::Text(query)
    } else {
        JsonView::Array(
            Seq::empty().push(typed("text"@, "text"@, JsonView::Text(query))) + images.map_values(
                |i: ImageModel| chat_image(i),
            ),
        )
    }
}

/// The body of a Chat Completions request.
pub open spec fn chat_body(
    model: Seq<char>,
    system_prompt: Seq<char>,
    query: Seq<char>,
    images: Seq<ImageModel>,
    max_output_tokens: u32,
) -> JsonView {
    let messages = JsonView::Array(
        Seq::empty().push(chat_message("system"@, JsonView::Text(system_prompt))).push(
            chat_message("user"@, chat_content(query, images)),
        ),
    );
    json::empty_object().with("model"@, JsonView::Text(model)).with("messages"@, messages).with(
        "max_tokens"@,
        integer(max_output_tokens as int),
    ).with("stream"@, JsonView::Bool(false))
}

/// The instructions of a request: the system prompt, and for a search the order to search first.
pub open spec fn instructions(
    system_prompt: Seq<char>,
    order: Seq<char>,
    use_search: bool,
) -> Seq<char> {
    if use_search {
        system_prompt + order
    } else {
        system_prompt
    }
}

/// The body of a Responses request.
pub open spec fn responses_body(
    model: Seq<char>,
    system_prompt: Seq<char>,
    query: Seq<char>,
    images: Seq<ImageModel>,
    max_output_tokens: u32,
    use_search: bool,
) -> JsonView {
    let content = JsonView::Array(
        Seq::empty().push(typed("input_text"@, "text"@, JsonView::Text(query)))
            + images.map_values(|i: ImageModel| responses_image(i)),
    );
    let told = instructions(
        system_prompt,
        "\n\n本次请求必须先使用 web_search 获取相关资料，再基于搜索结果回答。"@,
        use_search,
    );
    let body = json::empty_object().with("model"@, JsonView::Text(model)).with(
        "instructions"@,
        JsonView::Text(told),
    ).with("input"@, json::one_item(chat_message("user"@, content))).with(
        "max_output_tokens"@,
        integer(max_output_tokens as int),
    ).with("store"@, JsonView::Bool(false)).with("stream"@, JsonView::Bool(false));
    with_tool(body, "web_search"@, use_search)
}

/// The body of a Gemini Interactions request.
pub open spec fn gemini_body(
    model: Seq<char>,
    system_prompt: Seq<char>,
    query: Seq<char>,
    images: Seq<ImageModel>,
    thinking_level: Seq<char>,
    max_output_tokens: u32,
    use_search: bool,
) -> JsonView {
    let input = JsonView::Array(
        images.map_values(|i: ImageModel| gemini_image(i)).push(
            typed("text"@, "text"@, JsonView::Text(query)),
        ),
    );
    let told = instructions(
        system_prompt,
        "\n\n本次请求必须先调用 Google Search 获取相关资料，再基于搜索结果回答。"@,
        use_search,
    );
    let generation = json::empty_object().with(
        "thinking_level"@,
        JsonView::Text(thinking_level),
    ).with("max_output_tokens"@, integer(max_output_tokens as int));
    let body = json::empty_object().with("model"@, JsonView::Text(model)).with("input"@, input).with(
        "system_instruction"@,
        JsonView::Text(told),
    ).with("generation_config"@, generation).with("store"@, JsonView::Bool(false));
    with_tool(body, "google_search"@, use_search)
}

/// A body, for a search with the one tool that is to be used.
pub open spec fn with_tool(body: JsonView, tool: Seq<char>, use_search: bool) -> JsonView {
    if use_search {
        body.with(
            "tools"@,
            json::one_item(json::empty_object().with("type"@, JsonView::Text(tool))),
        )
    } else {
        body
    }
}

fn typed_part(kind: &str, key: &str, value: Json) -> (r: Json)
    ensures
        r@ == typed(kind@, key@, value@),
{
    Json::object().with("type", Json::text(kind)).with(key, value)
}

fn image_url_json(image: &AiImage) -> (r: Json)
    ensures
        r@ == image_url(image@),
{
    Json::Text(make_data_url(image.mime_type.as_str(), image.base64_data.as_str()))
}

fn message(role: &str, content: Json) -> (r: Json)
    ensures
        r@ == chat_message(role@, content@),
{
    Json::object().with("role", Json::text(role)).with("content", content)
}

fn one_item(item: Json) -> (r: Json)
    ensures
        r@ == json::one_item(item@),
{
    let mut items: Vec<Json> = Vec::new();
    proof {
        json::lemma_items_push(items@, item);
        assert(json::items_view(items@) =~= Seq::<JsonView>::empty());
    }
    items.push(item);
    Json::Array(items)
}

fn two_items(first: Json, second: Json) -> (r: Json)
    ensures
        r@ == JsonView::Array(Seq::empty().push(first@).push(second@)),
{
    let mut items: Vec<Json> = Vec::new();
    proof {
        assert(json::items_view(items@) =~= Seq::<JsonView>::empty());
        json::lemma_items_push(items@, first);
    }
    items.push(first);
    proof {
        json::lemma_items_push(items@, second);
    }
    items.push(second);
    Json::Array(items)
}

fn tools(tool: &str) -> (r: Json)
    ensures
        r@ == json::one_item(json::empty_object().with("type"@, JsonView::Text(tool@))),
{
    one_item(Json::object().with("type", Json::text(tool)))
}

/// The order of an image's parts in the three protocols.
fn image_part(format: AiApiFormat, image: &AiImage) -> (r: Json)
    ensures
        r@ == image_part_of(format, image@),
{
    match format {
        AiApiFormat::OpenaiChatCompletions => typed_part(
            "image_url",
            "image_url",
            Json::object().with("url", image_url_json(image)),
        ),
        AiApiFormat::OpenaiResponses => typed_part(
            "input_image",
            "image_url",
            image_url_json(image),
        ),
        AiApiFormat::GeminiInteractions => Json::object().with("type", Json::text("image")).with(
            "mime_type",
            Json::text(image.mime_type.as_str()),
        ).with("data", Json::text(image.base64_data.as_str())),
    }
}

pub open spec fn image_part_of(format: AiApiFormat, image: ImageModel) -> JsonView {
    match format {
        AiApiFormat::OpenaiChatCompletions => chat_image(image),
        AiApiFormat::OpenaiResponses => responses_image(image),
        AiApiFormat::GeminiInteractions => gemini_image(image),
    }
}

/// Adds the parts of images to others.
fn add_images(parts: Vec<Json>, format: AiApiFormat, images: &[AiImage]) -> (r: Vec<Json>)
    ensures
        json::items_view(r@) == json::items_view(parts@) + images_of(images@).map_values(
            |i: ImageModel| image_part_of(format, i),
        ),
{
    let ghost before = json::items_view(parts@);
    let ghost all = images_of(images@).map_values(|i: ImageModel| image_part_of(format, i));
    let mut out = parts;
    let n: usize = images.len();
    let mut i: usize = 0;
    proof {
        assert(before + all.take(0) =~= before);
    }
    while i < n
        invariant
            i <= n,
            n == images@.len(),
            all == images_of(images@).map_values(|i: ImageModel| image_part_of(format, i)),
            json::items_view(out@) == before + all.take(i as int),
        decreases n - i,
    {
        let part = image_part(format, &images[i]);
        proof {
            assert(part@ == all[i as int]);
            json::lemma_items_push(out@, part);
            assert((before + all.take(i as int)).push(part@) =~= before + all.take(i + 1));
        }
        out.push(part);
        i = i + 1;
    }
    proof {
        assert(all.take(n as int) =~= all);
    }
    out
}

proof fn lemma_image_maps(images: Seq<ImageModel>)
    ensures
        images.map_values(
            |i: ImageModel| image_part_of(AiApiFormat::OpenaiChatCompletions, i),
        ) == images.map_values(|i: ImageModel| chat_image(i)),
        images.map_values(|i: ImageModel| image_part_of(AiApiFormat::OpenaiResponses, i))
            == images.map_values(|i: ImageModel| responses_image(i)),
        images.map_values(|i: ImageModel| image_part_of(AiApiFormat::GeminiInteractions, i))
            == images.map_values(|i: ImageModel| gemini_image(i)),
{
    assert(images.map_values(
        |i: ImageModel| image_part_of(AiApiFormat::OpenaiChatCompletions, i),
    ) =~= images.map_values(|i: ImageModel| chat_image(i)));
    assert(images.map_values(|i: ImageModel| image_part_of(AiApiFormat::OpenaiResponses, i))
        =~= images.map_values(|i: ImageModel| responses_image(i)));
    assert(images.map_values(|i: ImageModel| image_part_of(AiApiFormat::GeminiInteractions, i))
        =~= images.map_values(|i: ImageModel| gemini_image(i)));
}

pub fn build_chat_completions_body(
    model: &str,
    system_prompt: &str,
    query: &str,
    images: &[AiImage],
    max_output_tokens: u32,
) -> (r: Json)
    ensures
        r@ == chat_body(
            model@,
            system_prompt@,
            query@,
            images_of(images@),
            max_output_tokens,
        ),
{
    let content = if images.len() == 0 {
        Json::text(query)
    } else {
        let mut parts: Vec<Json> = Vec::new();
        let first = typed_part("text", "text", Json::text(query));
        proof {
            lemma_image_maps(images_of(images@));
            assert(json::items_view(parts@) =~= Seq::<JsonView>::empty());
            json::lemma_items_push(parts@, first);
        }
        parts.push(first);
        Json::Array(add_images(parts, AiApiFormat::OpenaiChatCompletions, images))
    };
    let messages = two_items(
        message("system", Json::text(system_prompt)),
        message("user", content),
    );
    Json::object().with("model", Json::text(model)).with("messages", messages).with(
        "max_tokens",
        Json::number(max_output_tokens as i64),
    ).with("stream", Json::Bool(false))
}

pub fn build_responses_body(
    model: &str,
    system_prompt: &str,
    query: &str,
    images: &[AiImage],
    max_output_tokens: u32,
    use_search: bool,
) -> (r: Json)
    ensures
        r@ == responses_body(
            model@,
            system_prompt@,
            query@,
            images_of(images@),
            max_output_tokens,
            use_search,
        ),
{
    let mut parts: Vec<Json> = Vec::new();
    let first = typed_part("input_text", "text", Json::text(query));
    proof {
        lemma_image_maps(images_of(images@));
        assert(json::items_view(parts@) =~= Seq::<JsonView>::empty());
        json::lemma_items_push(parts@, first);
    }
    parts.push(first);
    let content = Json::Array(add_images(parts, AiApiFormat::OpenaiResponses, images));
    let mut told = system_prompt.to_owned();
    if use_search {
        told.append(
            "\n\n本次请求必须先使用 web_search 获取相关资料，再基于搜索结果回答。",
        );
    }
    let body = Json::object().with("model", Json::text(model)).with(
        "instructions",
        Json::Text(told),
    ).with("input", one_item(message("user", content))).with(
        "max_output_tokens",
        Json::number(max_output_tokens as i64),
    ).with("store", Json::Bool(false)).with("stream", Json::Bool(false));
    if use_search {
        body.with("tools", tools("web_search"))
    } else {
        body
    }
}

pub fn build_gemini_body(
    model: &str,
    system_prompt: &str,
    query: &str,
    images: &[AiImage],
    thinking_level: &str,
    max_output_tokens: u32,
    use_search: bool,
) -> (r: Json)
    ensures
        r@ == gemini_body(
            model@,
            system_prompt@,
            query@,
            images_of(images@),
            thinking_level@,
            max_output_tokens,
            use_search,
        ),
{
    let empty: Vec<Json> = Vec::new();
    let mut input = add_images(empty, AiApiFormat::GeminiInteractions, images);
    let last = typed_part("text", "text", Json::text(query));
    proof {
        lemma_image_maps(images_of(images@));
        json::lemma_items_push(input@, last);
        assert(json::items_view(input@) =~= images_of(images@).map_values(
            |i: ImageModel| gemini_image(i),
        ));
    }
    input.push(last);
    let mut told = system_prompt.to_owned();
    if use_search {
        told.append(
            "\n\n本次请求必须先调用 Google Search 获取相关资料，再基于搜索结果回答。",
        );
    }
    let generation = Json::object().with("thinking_level", Json::text(thinking_level)).with(
        "max_output_tokens",
        Json::number(max_output_tokens as i64),
    );
    let body = Json::object().with("model", Json::text(model)).with(
        "input",
        Json::Array(input),
    ).with("system_instruction", Json::Text(told)).with("generation_config", generation).with(
        "store",
        Json::Bool(false),
    );
    if use_search {
        body.with("tools", tools("google_search"))
    } else {
        body
    }
}

// ---------------------------------------------------------------------------------------------
// Laws
// ---------------------------------------------------------------------------------------------

proof fn lemma_typed(kind: Seq<char>, key: Seq<char>, value: JsonView)
    requires
        key != "type"@,
    ensures
        typed(kind, key, value).field("type"@) == Some(JsonView::Text(kind)),
        typed(kind, key, value).field(key) == Some(value),
{
    json::law_empty_object();
    json::law_added_member(json::empty_object(), "type"@, JsonView::Text(kind));
    let j = json::empty_object().with("type"@, JsonView::Text(kind));
    json::law_added_member(j, key, value);
}

proof fn lemma_message(role: Seq<char>, content: JsonView)
    ensures
        chat_message(role, content).field("role"@) == Some(JsonView::Text(role)),
        chat_message(role, content).field("content"@) == Some(content),
{
    reveal_strlit("role");
    reveal_strlit("content");
    assert("role"@.len() != "content"@.len());
    json::law_empty_object();
    json::law_added_member(json::empty_object(), "role"@, JsonView::Text(role));
    let j = json::empty_object().with("role"@, JsonView::Text(role));
    json::law_added_member(j, "content"@, content);
}

/// In the body of a Chat Completions request, the message with the role of the system holds the system
/// prompt, and that of the user holds the question: as its content where there are no images, else as the
/// text of its first part, with the images behind it in their order.
pub proof fn law_chat_body(
    model: Seq<char>,
    system_prompt: Seq<char>,
    query: Seq<char>,
    images: Seq<ImageModel>,
    max_output_tokens: u32,
)
    ensures
        ({
            let body = chat_body(model, system_prompt, query, images, max_output_tokens);
            &&& body.field("model"@) == Some(JsonView::Text(model))
            &&& body.field("max_tokens"@) == Some(
                JsonView::Number(number::decimal(max_output_tokens as nat)),
            )
            &&& body.field("stream"@) == Some(JsonView::Bool(false))
            &&& body.field("tools"@) is None
            &&& body.field("messages"@) matches Some(JsonView::Array(messages)) && {
                &&& messages.len() == 2
                &&& messages[0].field("role"@) == Some(JsonView::Text("system"@))
                &&& messages[0].field("content"@) == Some(JsonView::Text(system_prompt))
                &&& messages[1].field("role"@) == Some(JsonView::Text("user"@))
                &&& images.len() == 0 ==> messages[1].field("content"@) == Some(
                    JsonView::Text(query),
                )
                &&& images.len() > 0 ==> (messages[1].field("content"@) matches Some(
                    JsonView::Array(parts),
                ) && {
                    &&& parts.len() == images.len() + 1
                    &&& parts[0].field("type"@) == Some(JsonView::Text("text"@))
                    &&& parts[0].field("text"@) == Some(JsonView::Text(query))
                    &&& forall|i: int|
                        0 <= i < images.len() ==> is_chat_image(
                            parts[i + 1],
                            #[trigger] images[i],
                        )
                })
            }
        }),
{
    reveal_strlit("model");
    reveal_strlit("messages");
    reveal_strlit("max_tokens");
    reveal_strlit("stream");
    reveal_strlit("tools");
    assert("model"@.len() != "messages"@.len());
    assert("model"@.len() != "max_tokens"@.len());
    assert("model"@.len() != "stream"@.len());
    assert("model"@[0] != "tools"@[0]);
    assert("messages"@.len() != "max_tokens"@.len());
    assert("messages"@.len() != "stream"@.len());
    assert("messages"@.len() != "tools"@.len());
    assert("max_tokens"@.len() != "stream"@.len());
    assert("max_tokens"@.len() != "tools"@.len());
    assert("stream"@.len() != "tools"@.len());
    let content = chat_content(query, images);
    let messages = Seq::empty().push(chat_message("system"@, JsonView::Text(system_prompt))).push(
        chat_message("user"@, content),
    );
    lemma_message("system"@, JsonView::Text(system_prompt));
    lemma_message("user"@, content);
    json::law_empty_object();
    let a = json::empty_object();
    json::law_added_member(a, "model"@, JsonView::Text(model));
    let b = a.with("model"@, JsonView::Text(model));
    json::law_added_member(b, "messages"@, JsonView::Array(messages));
    let c = b.with("messages"@, JsonView::Array(messages));
    json::law_added_member(c, "max_tokens"@, integer(max_output_tokens as int));
    let d = c.with("max_tokens"@, integer(max_output_tokens as int));
    json::law_added_member(d, "stream"@, JsonView::Bool(false));
    reveal_strlit("text");
    reveal_strlit("type");
    assert("text"@[1] != "type"@[1]);
    lemma_typed("text"@, "text"@, JsonView::Text(query));
    assert forall|i: int| 0 <= i < images.len() implies is_chat_image(
        chat_image(#[trigger] images[i]),
        images[i],
    ) by {
        lemma_chat_image(images[i]);
    }
}

/// An image as Chat Completions asks for it.
pub open spec fn is_chat_image(part: JsonView, image: ImageModel) -> bool {
    &&& part.field("type"@) == Some(JsonView::Text("image_url"@))
    &&& part.field("image_url"@) matches Some(inner) && inner.field("url"@) == Some(
        JsonView::Text("data:"@ + image.mime_type + ";base64,"@ + image.base64_data),
    )
}

proof fn lemma_chat_image(image: ImageModel)
    ensures
        is_chat_image(chat_image(image), image),
{
    reveal_strlit("type");
    reveal_strlit("image_url");
    assert("image_url"@.len() != "type"@.len());
    let inner = json::empty_object().with("url"@, image_url(image));
    json::law_empty_object();
    json::law_added_member(json::empty_object(), "url"@, image_url(image));
    lemma_typed("image_url"@, "image_url"@, inner);
}

/// An image as Responses asks for it.
pub open spec fn is_responses_image(part: JsonView, image: ImageModel) -> bool {
    &&& part.field("type"@) == Some(JsonView::Text("input_image"@))
    &&& part.field("image_url"@) == Some(
        JsonView::Text("data:"@ + image.mime_type + ";base64,"@ + image.base64_data),
    )
}

proof fn lemma_responses_image(image: ImageModel)
    ensures
        is_responses_image(responses_image(image), image),
{
    reveal_strlit("type");
    reveal_strlit("image_url");
    assert("image_url"@.len() != "type"@.len());
    lemma_typed("input_image"@, "image_url"@, image_url(image));
}

/// An image as Gemini Interactions asks for it.
pub open spec fn is_gemini_image(part: JsonView, image: ImageModel) -> bool {
    &&& part.field("type"@) == Some(JsonView::Text("image"@))
    &&& part.field("mime_type"@) == Some(JsonView::Text(image.mime_type))
    &&& part.field("data"@) == Some(JsonView::Text(image.base64_data))
}

proof fn lemma_gemini_image(image: ImageModel)
    ensures
        is_gemini_image(gemini_image(image), image),
{
    reveal_strlit("type");
    reveal_strlit("mime_type");
    reveal_strlit("data");
    assert("type"@[0] != "data"@[0]);
    json::law_empty_object();
    let a = json::empty_object();
    json::law_added_member(a, "type"@, JsonView::Text("image"@));
    let b = a.with("type"@, JsonView::Text("image"@));
    json::law_added_member(b, "mime_type"@, JsonView::Text(image.mime_type));
    let c = b.with("mime_type"@, JsonView::Text(image.mime_type));
    json::law_added_member(c, "data"@, JsonView::Text(image.base64_data));
}

/// Whether a body names exactly one tool, or none.
pub open spec fn names_tool(body: JsonView, tool: Seq<char>, use_search: bool) -> bool {
    if use_search {
        body.field("tools"@) matches Some(JsonView::Array(tools)) && tools.len() == 1
            && tools[0].field("type"@) == Some(JsonView::Text(tool))
    } else {
        body.field("tools"@) is None
    }
}

/// In the body of a Responses request, the instructions are the system prompt, for a search with the order
/// to search behind it; the input is one message of the user, which holds the question and behind it the
/// images in their order; and the tool is named exactly for a search.
pub proof fn law_responses_body(
    model: Seq<char>,
    system_prompt: Seq<char>,
    query: Seq<char>,
    images: Seq<ImageModel>,
    max_output_tokens: u32,
    use_search: bool,
)
    ensures
        ({
            let body = responses_body(
                model,
                system_prompt,
                query,
                images,
                max_output_tokens,
                use_search,
            );
            &&& body.field("model"@) == Some(JsonView::Text(model))
            &&& !use_search ==> body.field("instructions"@) == Some(JsonView::Text(system_prompt))
            &&& use_search ==> body.field("instructions"@) == Some(
                JsonView::Text(
                    system_prompt
                        + "\n\n本次请求必须先使用 web_search 获取相关资料，再基于搜索结果回答。"@,
                ),
            )
            &&& body.field("max_output_tokens"@) == Some(
                JsonView::Number(number::decimal(max_output_tokens as nat)),
            )
            &&& body.field("store"@) == Some(JsonView::Bool(false))
            &&& body.field("stream"@) == Some(JsonView::Bool(false))
            &&& names_tool(body, "web_search"@, use_search)
            &&& body.field("input"@) matches Some(JsonView::Array(input)) && {
                &&& input.len() == 1
                &&& input[0].field("role"@) == Some(JsonView::Text("user"@))
                &&& input[0].field("content"@) matches Some(JsonView::Array(parts)) && {
                    &&& parts.len() == images.len() + 1
                    &&& parts[0].field("type"@) == Some(JsonView::Text("input_text"@))
                    &&& parts[0].field("text"@) == Some(JsonView::Text(query))
                    &&& forall|i: int|
                        0 <= i < images.len() ==> is_responses_image(
                            parts[i + 1],
                            #[trigger] images[i],
                        )
                }
            }
        }),
{
    reveal_strlit("model");
    reveal_strlit("instructions");
    reveal_strlit("input");
    reveal_strlit("max_output_tokens");
    reveal_strlit("store");
    reveal_strlit("stream");
    reveal_strlit("tools");
    assert("model"@.len() != "instructions"@.len());
    assert("model"@[0] != "input"@[0]);
    assert("model"@.len() != "max_output_tokens"@.len());
    assert("model"@[0] != "store"@[0]);
    assert("model"@.len() != "stream"@.len());
    assert("model"@[0] != "tools"@[0]);
    assert("instructions"@.len() != "input"@.len());
    assert("instructions"@.len() != "max_output_tokens"@.len());
    assert("instructions"@.len() != "store"@.len());
    assert("instructions"@.len() != "stream"@.len());
    assert("instructions"@.len() != "tools"@.len());
    assert("input"@.len() != "max_output_tokens"@.len());
    assert("input"@[0] != "store"@[0]);
    assert("input"@.len() != "stream"@.len());
    assert("input"@[0] != "tools"@[0]);
    assert("max_output_tokens"@.len() != "store"@.len());
    assert("max_output_tokens"@.len() != "stream"@.len());
    assert("max_output_tokens"@.len() != "tools"@.len());
    assert("store"@.len() != "stream"@.len());
    assert("store"@[0] != "tools"@[0]);
    assert("stream"@.len() != "tools"@.len());
    reveal_strlit("text");
    reveal_strlit("type");
    assert("text"@[1] != "type"@[1]);
    let order = "\n\n本次请求必须先使用 web_search 获取相关资料，再基于搜索结果回答。"@;
    let told = instructions(system_prompt, order, use_search);
    let parts = Seq::empty().push(typed("input_text"@, "text"@, JsonView::Text(query)))
        + images.map_values(|i: ImageModel| responses_image(i));
    let content = JsonView::Array(parts);
    let input = json::one_item(chat_message("user"@, content));
    lemma_message("user"@, content);
    lemma_typed("input_text"@, "text"@, JsonView::Text(query));
    let n = integer(max_output_tokens as int);
    json::law_empty_object();
    let a = json::empty_object();
    json::law_added_member(a, "model"@, JsonView::Text(model));
    let b = a.with("model"@, JsonView::Text(model));
    json::law_added_member(b, "instructions"@, JsonView::Text(told));
    let c = b.with("instructions"@, JsonView::Text(told));
    json::law_added_member(c, "input"@, input);
    let d = c.with("input"@, input);
    json::law_added_member(d, "max_output_tokens"@, n);
    let e = d.with("max_output_tokens"@, n);
    json::law_added_member(e, "store"@, JsonView::Bool(false));
    let f = e.with("store"@, JsonView::Bool(false));
    json::law_added_member(f, "stream"@, JsonView::Bool(false));
    let g = f.with("stream"@, JsonView::Bool(false));
    lemma_tool(g, "web_search"@, use_search);
    assert forall|i: int| 0 <= i < images.len() implies is_responses_image(
        parts[i + 1],
        #[trigger] images[i],
    ) by {
        lemma_responses_image(images[i]);
    }
}

proof fn lemma_tool(body: JsonView, tool: Seq<char>, use_search: bool)
    requires
        body is Object,
        body.field("tools"@) is None,
    ensures
        names_tool(with_tool(body, tool, use_search), tool, use_search),
        forall|k: Seq<char>|
            k != "tools"@ ==> #[trigger] with_tool(body, tool, use_search).field(k) == body.field(k),
{
    let named = json::empty_object().with("type"@, JsonView::Text(tool));
    json::law_empty_object();
    json::law_added_member(json::empty_object(), "type"@, JsonView::Text(tool));
    json::law_added_member(body, "tools"@, json::one_item(named));
}

/// In the body of a Gemini request, the instructions are the system prompt, for a search with the order to
/// search behind it; the input is the images in their order and behind them the question; and the tool is
/// named exactly for a search.
pub proof fn law_gemini_body(
    model: Seq<char>,
    system_prompt: Seq<char>,
    query: Seq<char>,
    images: Seq<ImageModel>,
    thinking_level: Seq<char>,
    max_output_tokens: u32,
    use_search: bool,
)
    ensures
        ({
            let body = gemini_body(
                model,
                system_prompt,
                query,
                images,
                thinking_level,
                max_output_tokens,
                use_search,
            );
            &&& body.field("model"@) == Some(JsonView::Text(model))
            &&& !use_search ==> body.field("system_instruction"@) == Some(
                JsonView::Text(system_prompt),
            )
            &&& use_search ==> body.field("system_instruction"@) == Some(
                JsonView::Text(
                    system_prompt
                        + "\n\n本次请求必须先调用 Google Search 获取相关资料，再基于搜索结果回答。"@,
                ),
            )
            &&& body.field("generation_config"@) matches Some(generation) && {
                &&& generation.field("thinking_level"@) == Some(JsonView::Text(thinking_level))
                &&& generation.field("max_output_tokens"@) == Some(
                    JsonView::Number(number::decimal(max_output_tokens as nat)),
                )
            }
            &&& body.field("store"@) == Some(JsonView::Bool(false))
            &&& names_tool(body, "google_search"@, use_search)
            &&& body.field("input"@) matches Some(JsonView::Array(input)) && {
                &&& input.len() == images.len() + 1
                &&& forall|i: int|
                    0 <= i < images.len() ==> is_gemini_image(input[i], #[trigger] images[i])
                &&& input.last().field("type"@) == Some(JsonView::Text("text"@))
                &&& input.last().field("text"@) == Some(JsonView::Text(query))
            }
        }),
{
    reveal_strlit("model");
    reveal_strlit("input");
    reveal_strlit("system_instruction");
    reveal_strlit("generation_config");
    reveal_strlit("store");
    reveal_strlit("tools");
    assert("model"@[0] != "input"@[0]);
    assert("model"@.len() != "system_instruction"@.len());
    assert("model"@.len() != "generation_config"@.len());
    assert("model"@[0] != "store"@[0]);
    assert("model"@[0] != "tools"@[0]);
    assert("input"@.len() != "system_instruction"@.len());
    assert("input"@.len() != "generation_config"@.len());
    assert("input"@[0] != "store"@[0]);
    assert("input"@[0] != "tools"@[0]);
    assert("system_instruction"@.len() != "generation_config"@.len());
    assert("system_instruction"@.len() != "store"@.len());
    assert("system_instruction"@.len() != "tools"@.len());
    assert("generation_config"@.len() != "store"@.len());
    assert("generation_config"@.len() != "tools"@.len());
    assert("store"@[0] != "tools"@[0]);
    reveal_strlit("text");
    reveal_strlit("type");
    assert("text"@[1] != "type"@[1]);
    reveal_strlit("thinking_level");
    reveal_strlit("max_output_tokens");
    assert("thinking_level"@.len() != "max_output_tokens"@.len());
    let order = "\n\n本次请求必须先调用 Google Search 获取相关资料，再基于搜索结果回答。"@;
    let told = instructions(system_prompt, order, use_search);
    let parts = images.map_values(|i: ImageModel| gemini_image(i)).push(
        typed("text"@, "text"@, JsonView::Text(query)),
    );
    lemma_typed("text"@, "text"@, JsonView::Text(query));
    let input = JsonView::Array(parts);
    let n = integer(max_output_tokens as int);
    json::law_empty_object();
    let e0 = json::empty_object();
    json::law_added_member(e0, "thinking_level"@, JsonView::Text(thinking_level));
    let e1 = e0.with("thinking_level"@, JsonView::Text(thinking_level));
    json::law_added_member(e1, "max_output_tokens"@, n);
    let generation = e1.with("max_output_tokens"@, n);
    json::law_added_member(e0, "model"@, JsonView::Text(model));
    let b = e0.with("model"@, JsonView::Text(model));
    json::law_added_member(b, "input"@, input);
    let c = b.with("input"@, input);
    json::law_added_member(c, "system_instruction"@, JsonView::Text(told));
    let d = c.with("system_instruction"@, JsonView::Text(told));
    json::law_added_member(d, "generation_config"@, generation);
    let e = d.with("generation_config"@, generation);
    json::law_added_member(e, "store"@, JsonView::Bool(false));
    let f = e.with("store"@, JsonView::Bool(false));
    lemma_tool(f, "google_search"@, use_search);
    assert forall|i: int| 0 <= i < images.len() implies is_gemini_image(
        parts[i],
        #[trigger] images[i],
    ) by {
        lemma_gemini_image(images[i]);
    }
}

/// Requests of a protocol go to its endpoint behind the API prefix, whether the prefix has it already or
/// not.
pub proof fn law_endpoints(format: AiApiFormat, base_url: Seq<char>)
    ensures
        scan::starts(endpoint_of(format, base_url), base_url),
        format == AiApiFormat::GeminiInteractions ==> scan::ends(
            endpoint_of(format, base_url),
            "/v1beta/interactions"@,
        ),
        format == AiApiFormat::GeminiInteractions ==> endpoint_of(format, base_url + "/v1beta"@)
            == base_url + "/v1beta/interactions"@,
        format == AiApiFormat::OpenaiChatCompletions ==> endpoint_of(
            format,
            base_url + "/chat/completions"@,
        ) == base_url + "/chat/completions"@,
        format == AiApiFormat::OpenaiChatCompletions && !scan::ends(base_url, "chat/completions"@)
            ==> endpoint_of(format, base_url) == base_url + "/chat/completions"@,
        format == AiApiFormat::OpenaiResponses ==> endpoint_of(format, base_url + "/responses"@)
            == base_url + "/responses"@,
        format == AiApiFormat::OpenaiResponses && !scan::ends(base_url, "responses"@)
            ==> endpoint_of(format, base_url) == base_url + "/responses"@,
{
    reveal_strlit("/");
    reveal_strlit("/v1beta");
    reveal_strlit("/interactions");
    reveal_strlit("/v1beta/interactions");
    reveal_strlit("chat/completions");
    reveal_strlit("/chat/completions");
    reveal_strlit("responses");
    reveal_strlit("/responses");
    let e = endpoint_of(format, base_url);
    assert(e.subrange(0, base_url.len() as int) =~= base_url);
    assert("/v1beta"@ + "/interactions"@ =~= "/v1beta/interactions"@);
    assert("/"@ + "chat/completions"@ =~= "/chat/completions"@);
    assert("/"@ + "responses"@ =~= "/responses"@);
    assert(base_url + "/"@ + "chat/completions"@ =~= base_url + "/chat/completions"@);
    assert(base_url + "/"@ + "responses"@ =~= base_url + "/responses"@);
    let g = base_url + "/v1beta"@;
    assert(g.subrange(g.len() - 7, g.len() as int) =~= "/v1beta"@);
    assert(g + "/interactions"@ =~= base_url + "/v1beta/interactions"@);
    let c = base_url + "/chat/completions"@;
    assert(c.subrange(c.len() - 16, c.len() as int) =~= "chat/completions"@);
    let r = base_url + "/responses"@;
    assert(r.subrange(r.len() - 9, r.len() as int) =~= "responses"@);
    if format == AiApiFormat::GeminiInteractions {
        if scan::ends(base_url, "/v1beta"@) {
            assert(base_url.subrange(base_url.len() - 7, base_url.len() as int) =~= "/v1beta"@);
            assert(e.subrange(e.len() - 20, e.len() as int) =~= base_url.subrange(
                base_url.len() - 7,
                base_url.len() as int,
            ) + "/interactions"@);
        } else {
            assert(e.subrange(e.len() - 20, e.len() as int) =~= "/v1beta/interactions"@);
        }
    }
}

} // verus!
