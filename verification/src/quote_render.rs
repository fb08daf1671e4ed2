//! What the renderer of quotes answers, and what becomes of it.

use crate::base64_text;
use crate::base_url;
use crate::failure;
use crate::failure::Failure;
use crate::json;
use crate::json::Json;
use crate::json::JsonView;
use crate::number;
use crate::quote::QuoteOutput;
use crate::scan;
use crate::text;
use image::GenericImageView;
use vstd::prelude::*;

verus! {

/// The largest answer of the renderer that is taken, in bytes.
pub const MAX_QUOTE_RESPONSE_BYTES: usize = 12_582_912;

/// The largest picture in a sticker set, in bytes.
pub const MAX_STICKER_BYTES: usize = 512_000;

/// How long it is waited before a request is made again, in milliseconds.
pub const RETRY_PAUSE_MILLIS: u64 = 300;

// ---------------------------------------------------------------------------------------------
// Formats
// ---------------------------------------------------------------------------------------------

pub open spec fn begins(bytes: Seq<u8>, head: Seq<u8>) -> bool {
    bytes.len() >= head.len() && bytes.take(head.len() as int) == head
}

pub open spec fn webp(bytes: Seq<u8>) -> bool {
    bytes.len() >= 12 && bytes.subrange(0, 4) == seq![0x52u8, 0x49u8, 0x46u8, 0x46u8]
        && bytes.subrange(8, 12) == seq![0x57u8, 0x45u8, 0x42u8, 0x50u8]
}

pub open spec fn webm(bytes: Seq<u8>) -> bool {
    begins(bytes, seq![0x1au8, 0x45u8, 0xdfu8, 0xa3u8])
}

pub open spec fn png(bytes: Seq<u8>) -> bool {
    begins(bytes, seq![0x89u8, 0x50u8, 0x4eu8, 0x47u8, 0x0du8, 0x0au8, 0x1au8, 0x0au8])
}

/// Whether bytes are what a quote is to be made into.
pub open spec fn fitting(bytes: Seq<u8>, output: QuoteOutput) -> bool {
    match output {
        QuoteOutput::Sticker => webp(bytes) || webm(bytes),
        _ => png(bytes),
    }
}

pub open spec fn format_problem(bytes: Seq<u8>, output: QuoteOutput) -> Option<Seq<char>> {
    if fitting(bytes, output) {
        None
    } else if output == QuoteOutput::Sticker {
        Some("quote API did not return WebP/WebM"@)
    } else {
        Some("quote API did not return PNG"@)
    }
}

/// The three formats are told apart by how they begin.
pub proof fn law_formats_are_distinct(bytes: Seq<u8>)
    ensures
        !(webp(bytes) && webm(bytes)),
        !(webp(bytes) && png(bytes)),
        !(webm(bytes) && png(bytes)),
{
    if bytes.len() >= 4 {
        assert(bytes.subrange(0, 4)[0] == bytes[0]);
        assert(bytes.take(4)[0] == bytes[0]);
    }
    if bytes.len() >= 8 {
        assert(bytes.take(8)[0] == bytes[0]);
    }
}

pub fn is_webp(bytes: &[u8]) -> (r: bool)
    ensures
        r == webp(bytes@),
{
    if bytes.len() < 12 {
        return false;
    }
    let riff = bytes[0] == 0x52 && bytes[1] == 0x49 && bytes[2] == 0x46 && bytes[3] == 0x46;
    let name = bytes[8] == 0x57 && bytes[9] == 0x45 && bytes[10] == 0x42 && bytes[11] == 0x50;
    proof {
        let a = bytes@.subrange(0, 4);
        let b = bytes@.subrange(8, 12);
        assert(a[0] == bytes@[0] && a[1] == bytes@[1] && a[2] == bytes@[2] && a[3] == bytes@[3]);
        assert(b[0] == bytes@[8] && b[1] == bytes@[9] && b[2] == bytes@[10] && b[3]
            == bytes@[11]);
        if riff {
            assert(a =~= seq![0x52u8, 0x49u8, 0x46u8, 0x46u8]);
        }
        if name {
            assert(b =~= seq![0x57u8, 0x45u8, 0x42u8, 0x50u8]);
        }
    }
    riff && name
}

pub fn is_webm(bytes: &[u8]) -> (r: bool)
    ensures
        r == webm(bytes@),
{
    if bytes.len() < 4 {
        return false;
    }
    let good = bytes[0] == 0x1a && bytes[1] == 0x45 && bytes[2] == 0xdf && bytes[3] == 0xa3;
    proof {
        let a = bytes@.take(4);
        assert(a[0] == bytes@[0] && a[1] == bytes@[1] && a[2] == bytes@[2] && a[3] == bytes@[3]);
        if good {
            assert(a =~= seq![0x1au8, 0x45u8, 0xdfu8, 0xa3u8]);
        }
    }
    good
}

pub fn is_png(bytes: &[u8]) -> (r: bool)
    ensures
        r == png(bytes@),
{
    if bytes.len() < 8 {
        return false;
    }
    let good = bytes[0] == 0x89 && bytes[1] == 0x50 && bytes[2] == 0x4e && bytes[3] == 0x47
        && bytes[4] == 0x0d && bytes[5] == 0x0a && bytes[6] == 0x1a && bytes[7] == 0x0a;
    proof {
        let a = bytes@.take(8);
        assert(a[0] == bytes@[0] && a[1] == bytes@[1] && a[2] == bytes@[2] && a[3] == bytes@[3]
            && a[4] == bytes@[4] && a[5] == bytes@[5] && a[6] == bytes@[6] && a[7] == bytes@[7]);
        if good {
            assert(a =~= seq![
                0x89u8,
                0x50u8,
                0x4eu8,
                0x47u8,
                0x0du8,
                0x0au8,
                0x1au8,
                0x0au8,
            ]);
        }
    }
    good
}

/// Accepts bytes as what a quote is to be made into.
pub fn validate_quote_format(bytes: &[u8], output: QuoteOutput) -> (r: Result<(), Failure>)
    ensures
        failure::outcome(r) == failure::verdict(format_problem(bytes@, output)),
{
    match output {
        QuoteOutput::Sticker => if is_webp(bytes) || is_webm(bytes) {
            Ok(())
        } else {
            Err(Failure::new("quote API did not return WebP/WebM"))
        },
        _ => if is_png(bytes) {
            Ok(())
        } else {
            Err(Failure::new("quote API did not return PNG"))
        },
    }
}

/// Accepts bytes to send as a photo.
pub fn check_photo(bytes: &[u8]) -> (r: Result<(), Failure>)
    ensures
        failure::outcome(r) == if png(bytes@) {
            Ok::<(), Seq<char>>(())
        } else {
            Err("quote renderer did not return a PNG image"@)
        },
{
    if is_png(bytes) {
        Ok(())
    } else {
        Err(Failure::new("quote renderer did not return a PNG image"))
    }
}

// ---------------------------------------------------------------------------------------------
// Where requests go
// ---------------------------------------------------------------------------------------------

/// Where a request goes: to an address that ends as the format does, if the one that was given ends with
/// a format or with `/generate`.
pub open spec fn endpoint(base: Seq<char>, output: QuoteOutput) -> Seq<char> {
    let b = base_url::without_slashes(base);
    if scan::ends(b, ".webp"@) {
        b.take(b.len() - ".webp"@.len()) + "."@ + output.format_name()
    } else if scan::ends(b, ".png"@) {
        b.take(b.len() - ".png"@.len()) + "."@ + output.format_name()
    } else if scan::ends(b, "/generate"@) {
        b + "."@ + output.format_name()
    } else {
        b
    }
}

/// Where a request goes.
pub fn quote_endpoint(base: &str, output: QuoteOutput) -> (r: String)
    ensures
        r@ == endpoint(base@, output),
{
    let tidy = base_url::strip_slashes(base);
    proof {
        reveal_strlit(".webp");
        reveal_strlit(".png");
    }
    let t = text::chars(tidy.as_str());
    let k: usize = t.len();
    let mut out = if scan::ends_with(tidy.as_str(), ".webp") {
        text::slice(&t, 0, k - 5)
    } else if scan::ends_with(tidy.as_str(), ".png") {
        text::slice(&t, 0, k - 4)
    } else if scan::ends_with(tidy.as_str(), "/generate") {
        tidy
    } else {
        return tidy;
    };
    proof {
        let b = base_url::without_slashes(base@);
        if scan::ends(b, ".webp"@) {
            assert(out@ =~= b.take(b.len() - 5));
        } else if scan::ends(b, ".png"@) {
            assert(out@ =~= b.take(b.len() - 4));
        }
    }
    out.append(".");
    out.append(output.format());
    out
}

// ---------------------------------------------------------------------------------------------
// Reading an answer
// ---------------------------------------------------------------------------------------------

/// What stands behind the last comma of a text; all of it where there is none.
pub open spec fn behind_comma(s: Seq<char>) -> Seq<char>
    decreases s.len(),
{
    if s.len() == 0 {
        s
    } else if s.last() == ',' {
        Seq::empty()
    } else if s.drop_last().contains(',') {
        behind_comma(s.drop_last()).push(s.last())
    } else {
        s
    }
}

/// The picture that a text in Base64 holds.
pub open spec fn decoded_image(bytes: Result<Seq<u8>, Seq<char>>, output: QuoteOutput) -> Result<
    Seq<u8>,
    Seq<char>,
> {
    match bytes {
        Err(e) => Err(failure::because("quote API returned invalid base64 image data"@, e)),
        Ok(b) => if b.len() == 0 || b.len() > MAX_QUOTE_RESPONSE_BYTES {
            Err("quote API returned an empty or oversized image"@)
        } else {
            match format_problem(b, output) {
                Some(e) => Err(e),
                None => Ok(b),
            }
        },
    }
}

/// The text in Base64 that an answer in JSON holds.
pub open spec fn wrapped_image(value: Result<JsonView, Seq<char>>) -> Result<Seq<char>, Seq<char>> {
    match value {
        Err(e) => Err(failure::because("quote API returned an unsupported response"@, e)),
        Ok(j) => match json::text_of(j.field("image"@)) {
            Some(s) => Ok(behind_comma(s)),
            None => Err("quote API JSON response did not contain an image"@),
        },
    }
}

/// The picture in an answer: the answer itself, or a text in Base64 in an object.
pub open spec fn answered_image(bytes: Seq<u8>, output: QuoteOutput) -> Result<
    Seq<u8>,
    Seq<char>,
> {
    if bytes.len() == 0 || bytes.len() > MAX_QUOTE_RESPONSE_BYTES {
        Err("quote API returned an empty or oversized response"@)
    } else if webp(bytes) || webm(bytes) || png(bytes) {
        match format_problem(bytes, output) {
            Some(e) => Err(e),
            None => Ok(bytes),
        }
    } else {
        match wrapped_image(json::parsed_json(bytes)) {
            Err(e) => Err(e),
            Ok(s) => decoded_image(base64_text::decoded(s), output),
        }
    }
}

pub open spec fn bytes_outcome(r: Result<Vec<u8>, Failure>) -> Result<Seq<u8>, Seq<char>> {
    match r {
        Ok(v) => Ok(v@),
        Err(e) => Err(e@),
    }
}

/// A picture that comes out of an answer is not empty, not too large, and in the format that was asked
/// for.
pub proof fn law_answered_image_fits(bytes: Seq<u8>, output: QuoteOutput)
    ensures
        answered_image(bytes, output) matches Ok(b) ==> (0 < b.len() <= MAX_QUOTE_RESPONSE_BYTES
            && fitting(b, output)),
{
}

/// A picture comes through unchanged: as it is; and in Base64 under `image` in an object, where what stands
/// before a comma is left out, and what Base64 holds is taken.
pub proof fn law_picture_comes_through(
    picture: Seq<u8>,
    output: QuoteOutput,
    prefix: Seq<char>,
    encoded: Seq<char>,
    members: Seq<(Seq<char>, JsonView)>,
)
    requires
        0 < picture.len() <= MAX_QUOTE_RESPONSE_BYTES,
        fitting(picture, output),
        !encoded.contains(','),
    ensures
        answered_image(picture, output) == Ok::<Seq<u8>, Seq<char>>(picture),
        decoded_image(Ok(picture), output) == Ok::<Seq<u8>, Seq<char>>(picture),
        json::member(members, "image"@) == Some(JsonView::Text(encoded)) ==> wrapped_image(
            Ok(JsonView::Object(members)),
        ) == Ok::<Seq<char>, Seq<char>>(encoded),
        json::member(members, "image"@) == Some(JsonView::Text(prefix.push(',') + encoded))
            ==> wrapped_image(Ok(JsonView::Object(members))) == Ok::<Seq<char>, Seq<char>>(encoded),
{
    lemma_no_comma(encoded);
    lemma_behind_comma(prefix, encoded);
}

proof fn lemma_no_comma(s: Seq<char>)
    requires
        !s.contains(','),
    ensures
        behind_comma(s) == s,
{
    if s.len() > 0 {
        assert(s.contains(s.last()));
        if s.drop_last().contains(',') {
            let i = choose|i: int| 0 <= i < s.drop_last().len() && s.drop_last()[i] == ',';
            assert(s[i] == ',');
        }
    }
}

proof fn lemma_behind_comma(prefix: Seq<char>, rest: Seq<char>)
    requires
        !rest.contains(','),
    ensures
        behind_comma(prefix.push(',') + rest) == rest,
    decreases rest.len(),
{
    let s = prefix.push(',') + rest;
    if rest.len() == 0 {
        assert(s =~= prefix.push(','));
        assert(s.last() == ',');
        assert(rest =~= Seq::<char>::empty());
    } else {
        assert(rest.contains(rest.last()));
        assert(s.last() == rest.last());
        assert(s.drop_last() =~= prefix.push(',') + rest.drop_last());
        assert(s.drop_last()[prefix.len() as int] == ',');
        if rest.drop_last().contains(',') {
            let i = choose|i: int| 0 <= i < rest.drop_last().len() && rest.drop_last()[i] == ',';
            assert(rest[i] == ',');
        }
        lemma_behind_comma(prefix, rest.drop_last());
        assert(rest.drop_last().push(rest.last()) =~= rest);
    }
}

fn after_comma(s: &str) -> (r: String)
    ensures
        r@ == behind_comma(s@),
{
    let v = text::chars(s);
    let n: usize = v.len();
    let mut from: usize = 0;
    let mut i: usize = 0;
    proof {
        assert(s@.take(0) =~= Seq::<char>::empty());
        assert(s@.subrange(0, 0) =~= Seq::<char>::empty());
    }
    while i < n
        invariant
            from <= i <= n,
            n == v@.len(),
            v@ == s@,
            behind_comma(s@.take(i as int)) == s@.subrange(from as int, i as int),
            (from > 0) == s@.take(i as int).contains(','),
        decreases n - i,
    {
        let ghost upto = s@.take(i as int);
        let ghost next = s@.take(i + 1);
        proof {
            assert(next.drop_last() =~= upto);
            assert(next.last() == v@[i as int]);
            if upto.contains(',') {
                let j = choose|j: int| 0 <= j < upto.len() && upto[j] == ',';
                assert(next[j] == ',');
            }
            if next.contains(',') && next.last() != ',' {
                let j = choose|j: int| 0 <= j < next.len() && next[j] == ',';
                assert(upto[j] == ',');
            }
        }
        if v[i] == ',' {
            from = i + 1;
            proof {
                assert(next[i as int] == ',');
                assert(s@.subrange(from as int, i + 1) =~= Seq::<char>::empty());
            }
        } else {
            proof {
                assert(s@.subrange(from as int, i as int).push(v@[i as int]) =~= s@.subrange(
                    from as int,
                    i + 1,
                ));
                assert(next =~= s@.subrange(0, i + 1));
            }
        }
        i = i + 1;
    }
    proof {
        assert(s@.take(n as int) =~= s@);
    }
    text::slice(&v, from, n)
}

/// The picture that a text in Base64 holds, given what decoding it brought.
pub fn accept_image(bytes: Result<Vec<u8>, String>, output: QuoteOutput) -> (r: Result<
    Vec<u8>,
    Failure,
>)
    ensures
        bytes_outcome(r) == decoded_image(
            match bytes {
                Ok(b) => Ok(b@),
                Err(e) => Err(e@),
            },
            output,
        ),
{
    match bytes {
        Err(e) => Err(Failure::caused("quote API returned invalid base64 image data", e.as_str())),
        Ok(b) => {
            if b.len() == 0 || b.len() > MAX_QUOTE_RESPONSE_BYTES {
                return Err(Failure::new("quote API returned an empty or oversized image"));
            }
            match validate_quote_format(b.as_slice(), output) {
                Ok(()) => Ok(b),
                Err(e) => Err(e),
            }
        },
    }
}

/// The text in Base64 that an answer in JSON holds, given what parsing it brought.
pub fn unwrap_image(value: Result<Json, String>) -> (r: Result<String, Failure>)
    ensures
        failure::text_outcome(r) == wrapped_image(
            match value {
                Ok(j) => Ok(j@),
                Err(e) => Err(e@),
            },
        ),
{
    match value {
        Err(e) => Err(Failure::caused("quote API returned an unsupported response", e.as_str())),
        Ok(j) => match j.get_text("image") {
            Some(s) => Ok(after_comma(s.as_str())),
            None => Err(Failure::new("quote API JSON response did not contain an image")),
        },
    }
}

fn copied(bytes: &[u8]) -> (r: Vec<u8>)
    ensures
        r@ == bytes@,
{
    vstd::slice::slice_to_vec(bytes)
}

/// The picture in an answer of the renderer.
pub fn decode_quote_response(bytes: &[u8], output: QuoteOutput) -> (r: Result<Vec<u8>, Failure>)
    ensures
        bytes_outcome(r) == answered_image(bytes@, output),
{
    if bytes.len() == 0 || bytes.len() > MAX_QUOTE_RESPONSE_BYTES {
        return Err(Failure::new("quote API returned an empty or oversized response"));
    }
    if is_webp(bytes) || is_webm(bytes) || is_png(bytes) {
        return match validate_quote_format(bytes, output) {
            Ok(()) => Ok(copied(bytes)),
            Err(e) => Err(e),
        };
    }
    match unwrap_image(json::read_json(bytes)) {
        Err(e) => Err(e),
        Ok(encoded) => accept_image(base64_text::decode(encoded.as_str()), output),
    }
}

// ---------------------------------------------------------------------------------------------
// Asking for a quote
// ---------------------------------------------------------------------------------------------

/// What comes of a request.
pub enum RenderEvent {
    /// Nothing within so many seconds.
    TimedOut(u64),
    /// No answer, or not all of it, for a reason.
    Failed(String),
    /// More than is taken.
    TooLarge,
    /// An answer.
    Answered { status: u16, body: Vec<u8> },
}

pub enum RenderEventModel {
    TimedOut(u64),
    Failed(Seq<char>),
    TooLarge,
    Answered { status: u16, body: Seq<u8> },
}

impl View for RenderEvent {
    type V = RenderEventModel;

    open spec fn view(&self) -> RenderEventModel {
        match *self {
            RenderEvent::TimedOut(s) => RenderEventModel::TimedOut(s),
            RenderEvent::Failed(e) => RenderEventModel::Failed(e@),
            RenderEvent::TooLarge => RenderEventModel::TooLarge,
            RenderEvent::Answered { status, body } => RenderEventModel::Answered {
                status,
                body: body@,
            },
        }
    }
}

/// What is done next.
pub enum RenderAction {
    /// The request is made again after a pause.
    Again,
    /// It is over.
    Finish(Result<Vec<u8>, Failure>),
}

pub enum RenderActionModel {
    Again,
    Finish(Result<Seq<u8>, Seq<char>>),
}

impl View for RenderAction {
    type V = RenderActionModel;

    open spec fn view(&self) -> RenderActionModel {
        match *self {
            RenderAction::Again => RenderActionModel::Again,
            RenderAction::Finish(r) => RenderActionModel::Finish(bytes_outcome(r)),
        }
    }
}

pub open spec fn success(status: u16) -> bool {
    200 <= status < 300
}

/// Whether a status may be another one when asked again.
pub open spec fn worth_again(status: u16) -> bool {
    status == 429 || 500 <= status < 600
}

pub open spec fn render_problem(e: RenderEventModel) -> Seq<char> {
    match e {
        RenderEventModel::TimedOut(s) => "quote API timed out after "@ + number::decimal(s as nat)
            + "s"@,
        RenderEventModel::Failed(m) => m,
        RenderEventModel::TooLarge => "quote API response is too large"@,
        RenderEventModel::Answered { status, body } => "quote API returned HTTP "@
            + number::decimal(status as nat),
    }
}

/// What is done next, when this is the first request or the second.
pub open spec fn render_step(first: bool, e: RenderEventModel, output: QuoteOutput) -> RenderActionModel {
    match e {
        RenderEventModel::Answered { status, body } => if success(status) {
            RenderActionModel::Finish(answered_image(body, output))
        } else if first && worth_again(status) {
            RenderActionModel::Again
        } else {
            RenderActionModel::Finish(Err(render_problem(e)))
        },
        _ => if first {
            RenderActionModel::Again
        } else {
            RenderActionModel::Finish(Err(render_problem(e)))
        },
    }
}

/// A request is made twice at most, and not again once there is an answer that asking again cannot
/// better.
pub proof fn law_at_most_two_requests(e: RenderEventModel, output: QuoteOutput)
    ensures
        render_step(false, e, output) is Finish,
        e is Answered && !worth_again(e->status) ==> render_step(true, e, output) is Finish,
        !(e is Answered) ==> render_step(true, e, output) is Again,
{
}

fn render_failure(event: &RenderEvent) -> (r: Failure)
    ensures
        r@ == render_problem(event@),
{
    match event {
        RenderEvent::TimedOut(s) => {
            let mut out = "quote API timed out after ".to_owned();
            out.append(number::write(*s).as_str());
            out.append("s");
            Failure::of(out)
        },
        RenderEvent::Failed(m) => Failure::new(m.as_str()),
        RenderEvent::TooLarge => Failure::new("quote API response is too large"),
        RenderEvent::Answered { status, body: _ } => {
            let mut out = "quote API returned HTTP ".to_owned();
            out.append(number::write(*status as u64).as_str());
            Failure::of(out)
        },
    }
}

/// What is done next.
pub fn next_render_step(first: bool, event: RenderEvent, output: QuoteOutput) -> (r: RenderAction)
    ensures
        r@ == render_step(first, event@, output),
{
    let again = match &event {
        RenderEvent::Answered { status, body } => {
            if 200 <= *status && *status < 300 {
                return RenderAction::Finish(decode_quote_response(body.as_slice(), output));
            }
            first && (*status == 429 || (500 <= *status && *status < 600))
        },
        _ => first,
    };
    if again {
        RenderAction::Again
    } else {
        RenderAction::Finish(Err(render_failure(&event)))
    }
}

/// Whether an answer of so many bytes is taken.
pub fn response_fits(bytes: u64) -> (r: bool)
    ensures
        r == (bytes <= MAX_QUOTE_RESPONSE_BYTES),
{
    bytes <= MAX_QUOTE_RESPONSE_BYTES as u64
}

// ---------------------------------------------------------------------------------------------
// Stickers
// ---------------------------------------------------------------------------------------------

/// An image as the `image` crate holds it.
#[verifier::external_type_specification]
#[verifier::external_body]
pub struct ExDynamicImage(image::DynamicImage);

/// The size of an image, and how its pixels are stored.
#[derive(Clone, Copy, Debug, PartialEq, Eq)]
pub struct ImageShape {
    pub width: u32,
    pub height: u32,
    /// How many bytes a pixel takes.
    pub pixel_bytes: u8,
    /// How many samples a pixel has.
    pub channels: u8,
}

/// An image: its shape, its samples row by row, and its colour space.
pub struct ImageModel {
    pub shape: ImageShape,
    pub samples: Seq<u32>,
    pub space: Seq<u8>,
}

/// What an `image::DynamicImage` holds. A sample that is a float is taken by its bits, all that are no
/// numbers by the same ones.
pub uninterp spec fn image_contents(image: image::DynamicImage) -> ImageModel;

/// What `image::load_from_memory` makes of bytes: the image, or the message of its error.
pub uninterp spec fn loaded_image(bytes: Seq<u8>) -> Result<ImageModel, Seq<char>>;

/// What `DynamicImage::thumbnail` makes of an image within a square of the given side.
pub uninterp spec fn thumbnail(image: ImageModel, bound: u32) -> ImageModel;

/// What `DynamicImage::write_to` writes of an image in PNG, or the message of its error.
pub uninterp spec fn png_of(image: ImageModel) -> Result<Seq<u8>, Seq<char>>;

/// Reads an image with `image::load_from_memory`. What it holds, or the message of the error, is a
/// function of the bytes.
#[verifier::external_body]
fn load_image(bytes: &[u8]) -> (r: Result<image::DynamicImage, String>)
    ensures
        match r {
            Ok(i) => loaded_image(bytes@) == Ok::<ImageModel, Seq<char>>(image_contents(i)),
            Err(e) => loaded_image(bytes@) == Err::<ImageModel, Seq<char>>(e@),
        },
{
    image::load_from_memory(bytes).map_err(|e| e.to_string())
}

/// The shape of an image, by `dimensions` and, of its `color`, `bytes_per_pixel` and `channel_count`.
#[verifier::external_body]
fn image_shape(image: &image::DynamicImage) -> (r: ImageShape)
    ensures
        r == image_contents(*image).shape,
{
    let (width, height) = image.dimensions();
    let color = image.color();
    ImageShape {
        width,
        height,
        pixel_bytes: color.bytes_per_pixel(),
        channels: color.channel_count(),
    }
}

/// How many pixels of an image, at most, become one pixel when it is made to fit a square: along its
/// longer side the picture has as many pixels as the square, and along the shorter one as many as the
/// proportions ask for, rounded, but at least one. A few more are allowed for what rounding adds.
pub open spec fn block_pixels(shape: ImageShape, bound: u32) -> nat {
    let (long, short) = if shape.width >= shape.height {
        (shape.width as nat, shape.height as nat)
    } else {
        (shape.height as nat, shape.width as nat)
    };
    let across = 3 * long / (2 * bound as nat) + 3;
    (long / bound as nat + 3) * (if short <= across {
        short
    } else {
        across
    })
}

/// How many pixels may become one, so that their samples add up in 32 bits: the largest sample of two
/// bytes that many times, or the largest sample of one byte.
pub open spec fn most_block_pixels(shape: ImageShape) -> nat {
    if shape.pixel_bytes == 2 * shape.channels {
        65_536
    } else {
        16_777_216
    }
}

/// Whether an image can be made to fit a square of one of the sides that pictures for sticker sets have.
pub open spec fn shrinkable(shape: ImageShape, bound: u32) -> bool {
    320 <= bound <= 512 && block_pixels(shape, bound) <= most_block_pixels(shape)
}

/// Whether an image has exactly the samples of its pixels.
pub open spec fn filled(image: ImageModel) -> bool {
    image.samples.len() == image.shape.width * image.shape.height * image.shape.channels
}

/// Makes an image fit a square, with `DynamicImage::thumbnail`. What comes out is a function of the image
/// and the side, is no larger than the square, and has exactly the samples of its pixels. `thumbnail` adds
/// the samples of a block of pixels in 32 bits where they are integers, and overflows on blocks that are
/// too large: those are left out.
#[verifier::external_body]
fn shrink(image: &image::DynamicImage, bound: u32) -> (r: image::DynamicImage)
    requires
        shrinkable(image_contents(*image).shape, bound),
    ensures
        image_contents(r) == thumbnail(image_contents(*image), bound),
        filled(image_contents(r)),
        image_contents(r).shape.width <= bound,
        image_contents(r).shape.height <= bound,
{
    image.thumbnail(bound, bound)
}

/// Writes an image in PNG, with `DynamicImage::write_to`. What is written, or the message of the error, is
/// a function of the image. An image with other samples than those of its pixels is left out, as `write_to`
/// panics on it.
#[verifier::external_body]
fn write_png(image: &image::DynamicImage) -> (r: Result<Vec<u8>, String>)
    requires
        filled(image_contents(*image)),
        image_contents(*image).shape.width <= 512,
        image_contents(*image).shape.height <= 512,
    ensures
        match r {
            Ok(bytes) => png_of(image_contents(*image)) == Ok::<Seq<u8>, Seq<char>>(bytes@),
            Err(e) => png_of(image_contents(*image)) == Err::<Seq<u8>, Seq<char>>(e@),
        },
{
    let mut cursor = std::io::Cursor::new(Vec::new());
    image.write_to(&mut cursor, image::ImageFormat::Png).map_err(|e| e.to_string())?;
    Ok(cursor.into_inner())
}

/// A picture in PNG with its width and height. The parameter is the type of the bytes.
pub struct Picture<B> {
    pub bytes: B,
    pub width: u32,
    pub height: u32,
}

impl View for Picture<Vec<u8>> {
    type V = Picture<Seq<u8>>;

    open spec fn view(&self) -> Picture<Seq<u8>> {
        Picture { bytes: self.bytes@, width: self.width, height: self.height }
    }
}

/// The squares that a picture for a sticker set is tried to fit in.
pub open spec fn next_bound(bound: u32) -> u32 {
    if bound == 512 {
        448
    } else if bound == 448 {
        384
    } else {
        320
    }
}

/// Whether a picture is small enough; the last one is taken as it is.
pub open spec fn small_enough(bytes: nat, bound: u32) -> bool {
    bytes <= MAX_STICKER_BYTES || bound == 320
}

/// The largest of the pictures, from one size on, that is small enough.
pub open spec fn first_small(image: ImageModel, bound: u32) -> Result<Picture<Seq<u8>>, Seq<char>>
    decreases bound,
{
    let small = thumbnail(image, bound);
    if !shrinkable(image.shape, bound) {
        Err("图片像素过多，无法缩小"@)
    } else {
        match png_of(small) {
            Err(e) => Err(e),
            Ok(bytes) => if bound <= 320 || small_enough(bytes.len(), bound) {
                Ok(Picture { bytes, width: small.shape.width, height: small.shape.height })
            } else {
                first_small(image, next_bound(bound))
            },
        }
    }
}

/// A picture for a sticker set, out of an image.
pub open spec fn normalized(bytes: Seq<u8>) -> Result<Picture<Seq<u8>>, Seq<char>> {
    match loaded_image(bytes) {
        Err(e) => Err(failure::because("无法解码图片"@, e)),
        Ok(image) => first_small(image, 512),
    }
}

/// An image with samples of one byte can be made a picture for a sticker set if it has no more pixels than
/// fit in 512 MiB.
pub proof fn law_ordinary_photos_shrink(shape: ImageShape, bound: u32)
    requires
        320 <= bound <= 512,
        shape.pixel_bytes == shape.channels,
        shape.channels > 0,
        shape.width * shape.height <= 536_870_912,
    ensures
        shrinkable(shape, bound),
{
    let (long, short) = if shape.width >= shape.height {
        (shape.width as nat, shape.height as nat)
    } else {
        (shape.height as nat, shape.width as nat)
    };
    let b = bound as nat;
    let x = long / b;
    let y = 3 * long / (2 * b) + 3;
    let m = if short <= y {
        short
    } else {
        y
    };
    assert(long * short == shape.width * shape.height) by (nonlinear_arith)
        requires
            (long == shape.width && short == shape.height) || (long == shape.height && short
                == shape.width),
    ;
    // A block is `x + 3` pixels long and `m` pixels across.
    assert(x * b <= long) by (nonlinear_arith)
        requires
            x == long / b,
            b > 0,
    ;
    assert(x * m * 320 <= 536_870_912) by (nonlinear_arith)
        requires
            x * b <= long,
            m <= short,
            b >= 320,
            long * short <= 536_870_912,
            m >= 0,
            x >= 0,
    ;
    assert(m * m <= 4_000_000) by {
        assert((m - 3) * (2 * b) <= 3 * long) by (nonlinear_arith)
            requires
                m <= 3 * long / (2 * b) + 3,
                b > 0,
        ;
        assert(m <= short);
        assert((m - 3) * m * 640 <= 3 * 536_870_912) by (nonlinear_arith)
            requires
                (m - 3) * (2 * b) <= 3 * long,
                0 <= m <= short,
                b >= 320,
                long * short <= 536_870_912,
        ;
        assert(m * m <= 4_000_000) by (nonlinear_arith)
            requires
                (m - 3) * m * 640 <= 3 * 536_870_912,
                m >= 0,
        ;
    }
    assert(m <= 2_000) by (nonlinear_arith)
        requires
            m * m <= 4_000_000,
            m >= 0,
    ;
    assert((x + 3) * m == x * m + 3 * m) by (nonlinear_arith);
}

/// Whether a picture is small enough for a sticker set; the last one is taken as it is.
pub fn fits_sticker_set(bytes: usize, bound: u32) -> (r: bool)
    ensures
        r == small_enough(bytes as nat, bound),
{
    bytes <= MAX_STICKER_BYTES || bound == 320
}

/// Whether an image can be made to fit a square of one of the sides that pictures for sticker sets have.
pub fn can_shrink(shape: ImageShape, bound: u32) -> (r: bool)
    ensures
        r == shrinkable(shape, bound),
{
    if bound < 320 || bound > 512 {
        return false;
    }
    let (long, short): (u64, u64) = if shape.width >= shape.height {
        (shape.width as u64, shape.height as u64)
    } else {
        (shape.height as u64, shape.width as u64)
    };
    let side: u64 = bound as u64;
    let along: u64 = long / side + 3;
    let across: u64 = 3 * long / (2 * side) + 3;
    let least: u64 = if short <= across {
        short
    } else {
        across
    };
    assert(along <= 0x1_0000_0000 && along * least <= 0xffff_ffff_ffff_ffff) by (nonlinear_arith)
        requires
            along == long / side + 3,
            long <= 0xffff_ffff,
            side >= 320,
            least <= 0xffff_ffff,
    ;
    let most: u64 = if shape.pixel_bytes as u16 == 2 * shape.channels as u16 {
        65_536
    } else {
        16_777_216
    };
    along * least <= most
}

/// A picture for a sticker set, out of an image.
pub fn normalize_photo_sticker(bytes: &[u8]) -> (r: Result<Picture<Vec<u8>>, Failure>)
    ensures
        match (r, normalized(bytes@)) {
            (Ok(a), Ok(b)) => a@ == b,
            (Err(a), Err(b)) => a@ == b,
            _ => false,
        },
        r matches Ok(p) ==> p.width <= 512 && p.height <= 512,
{
    let image = match load_image(bytes) {
        Ok(image) => image,
        Err(e) => {
            return Err(Failure::caused("无法解码图片", e.as_str()));
        },
    };
    let shape = image_shape(&image);
    let mut bound: u32 = 512;
    loop
        invariant
            bound == 512 || bound == 448 || bound == 384 || bound == 320,
            shape == image_contents(image).shape,
            normalized(bytes@) == first_small(image_contents(image), bound),
        decreases bound,
    {
        if !can_shrink(shape, bound) {
            return Err(Failure::new("图片像素过多，无法缩小"));
        }
        let small = shrink(&image, bound);
        let made = image_shape(&small);
        match write_png(&small) {
            Err(e) => {
                return Err(Failure::of(e));
            },
            Ok(written) => {
                if fits_sticker_set(written.len(), bound) {
                    return Ok(
                        Picture { bytes: written, width: made.width, height: made.height },
                    );
                }
            },
        }
        bound = if bound == 512 {
            448
        } else if bound == 448 {
            384
        } else {
            320
        };
    }
}

/// How a sticker is sent.
#[derive(Debug, PartialEq, Eq)]
pub struct StickerShape {
    pub video: bool,
    pub file_name: String,
    pub mime_type: String,
    pub width: u32,
    pub height: u32,
}

/// Width and height of the image that bytes hold, or why there is none.
pub open spec fn image_size(bytes: Seq<u8>) -> Result<(u32, u32), Seq<char>> {
    match loaded_image(bytes) {
        Ok(image) => Ok((image.shape.width, image.shape.height)),
        Err(e) => Err(e),
    }
}

/// The size of a still sticker, given what looking at it brought.
pub open spec fn still_size(size: Result<(u32, u32), Seq<char>>) -> (u32, u32) {
    match size {
        Ok(s) => s,
        Err(_) => (512, 768),
    }
}

/// The size of a still sticker, given what looking at it brought.
pub fn sticker_size(size: Result<(u32, u32), String>) -> (r: (u32, u32))
    ensures
        r == still_size(
            match size {
                Ok(s) => Ok(s),
                Err(e) => Err(e@),
            },
        ),
{
    match size {
        Ok(s) => s,
        Err(_) => (512, 768),
    }
}

/// How a sticker is sent.
pub fn sticker_shape(bytes: &[u8]) -> (r: StickerShape)
    ensures
        r.video == webm(bytes@),
        r.file_name@ == if webm(bytes@) {
            "quote.webm"@
        } else {
            "quote.webp"@
        },
        r.mime_type@ == if webm(bytes@) {
            "video/webm"@
        } else {
            "image/webp"@
        },
        (r.width, r.height) == if webm(bytes@) {
            (512u32, 512u32)
        } else {
            still_size(image_size(bytes@))
        },
{
    if is_webm(bytes) {
        StickerShape {
            video: true,
            file_name: "quote.webm".to_owned(),
            mime_type: "video/webm".to_owned(),
            width: 512,
            height: 512,
        }
    } else {
        let size = match load_image(bytes) {
            Ok(image) => {
                let shape = image_shape(&image);
                Ok((shape.width, shape.height))
            },
            Err(e) => Err(e),
        };
        let (width, height) = sticker_size(size);
        StickerShape {
            video: false,
            file_name: "quote.webp".to_owned(),
            mime_type: "image/webp".to_owned(),
            width,
            height,
        }
    }
}

// ---------------------------------------------------------------------------------------------
// Laws of requests and stickers
// ---------------------------------------------------------------------------------------------

/// A request goes to where the renderer makes the format that is wanted: the name of a format at the end of
/// the address is exchanged, and behind the name of the service one is put.
pub proof fn law_render_endpoint(base: Seq<char>, output: QuoteOutput)
    ensures
        ({
            let format = if output is Sticker {
                "webp"@
            } else {
                "png"@
            };
            &&& endpoint(base + ".webp"@, output) == base + "."@ + format
            &&& endpoint(base + ".png"@, output) == base + "."@ + format
            &&& endpoint(base + "/generate"@, output) == base + "/generate"@ + "."@ + format
            &&& base.len() > 0 && base.last() != '/' && !scan::ends(base, ".webp"@) && !scan::ends(
                base,
                ".png"@,
            ) && !scan::ends(base, "/generate"@) ==> endpoint(base, output) == base
            &&& endpoint(base.push('/'), output) == endpoint(base, output)
        }),
{
    reveal_strlit(".webp");
    reveal_strlit(".png");
    reveal_strlit("/generate");
    let a = base + ".webp"@;
    assert(a.subrange(a.len() - 5, a.len() as int) =~= ".webp"@);
    assert(a.last() == 'p');
    assert(a.take(a.len() - 5) =~= base);
    let b = base + ".png"@;
    assert(b.subrange(b.len() - 4, b.len() as int) =~= ".png"@);
    assert(b.last() == 'g');
    assert(b.take(b.len() - 4) =~= base);
    if scan::ends(b, ".webp"@) {
        assert(b.subrange(b.len() - 5, b.len() as int)[4] == 'g');
    }
    let c = base + "/generate"@;
    assert(c.subrange(c.len() - 9, c.len() as int) =~= "/generate"@);
    assert(c.last() == 'e');
    if scan::ends(c, ".webp"@) {
        assert(c.subrange(c.len() - 5, c.len() as int)[4] == 'e');
    }
    if scan::ends(c, ".png"@) {
        assert(c.subrange(c.len() - 4, c.len() as int)[3] == 'e');
    }
    let d = base.push('/');
    assert(d.drop_last() =~= base);
}

/// What is said of pictures by their first bytes.
pub proof fn law_formats(middle: Seq<u8>, rest: Seq<u8>)
    requires
        middle.len() == 4,
    ensures
        webp(seq![0x52u8, 0x49u8, 0x46u8, 0x46u8] + middle + seq![0x57u8, 0x45u8, 0x42u8, 0x50u8] + rest),
        webm(seq![0x1au8, 0x45u8, 0xdfu8, 0xa3u8] + rest),
        png(seq![0x89u8, 0x50u8, 0x4eu8, 0x47u8, 0x0du8, 0x0au8, 0x1au8, 0x0au8] + rest),
        fitting(rest, QuoteOutput::Sticker) <==> webp(rest) || webm(rest),
        fitting(rest, QuoteOutput::Image) <==> png(rest),
        fitting(rest, QuoteOutput::Stories) <==> png(rest),
        rest.len() < 4 ==> !webp(rest) && !webm(rest) && !png(rest),
{
    let a = seq![0x52u8, 0x49u8, 0x46u8, 0x46u8] + middle + seq![0x57u8, 0x45u8, 0x42u8, 0x50u8]
        + rest;
    assert(a.subrange(0, 4) =~= seq![0x52u8, 0x49u8, 0x46u8, 0x46u8]);
    assert(a.subrange(8, 12) =~= seq![0x57u8, 0x45u8, 0x42u8, 0x50u8]);
    let b = seq![0x1au8, 0x45u8, 0xdfu8, 0xa3u8] + rest;
    assert(b.take(4) =~= seq![0x1au8, 0x45u8, 0xdfu8, 0xa3u8]);
    let c = seq![0x89u8, 0x50u8, 0x4eu8, 0x47u8, 0x0du8, 0x0au8, 0x1au8, 0x0au8] + rest;
    assert(c.take(8) =~= seq![0x89u8, 0x50u8, 0x4eu8, 0x47u8, 0x0du8, 0x0au8, 0x1au8, 0x0au8]);
}

/// What the renderer answers is used if it succeeded; a request is made again, once, if nothing came, if the
/// service was busy or if it broke down; and a failure says what happened.
pub proof fn law_render_course(
    first: bool,
    status: u16,
    body: Seq<u8>,
    seconds: u64,
    message: Seq<char>,
    output: QuoteOutput,
)
    ensures
        ({
            let e = RenderEventModel::Answered { status, body };
            &&& 200 <= status <= 299 ==> render_step(first, e, output) == RenderActionModel::Finish(
                answered_image(body, output),
            )
            &&& status == 429 || 500 <= status <= 599 ==> render_step(true, e, output) is Again
            &&& 300 <= status <= 428 || 430 <= status <= 499 ==> render_step(true, e, output)
                == RenderActionModel::Finish(
                Err("quote API returned HTTP "@ + number::decimal(status as nat)),
            )
            &&& !(200 <= status <= 299) ==> render_step(false, e, output)
                == RenderActionModel::Finish(
                Err("quote API returned HTTP "@ + number::decimal(status as nat)),
            )
            &&& render_step(false, RenderEventModel::TimedOut(seconds), output)
                == RenderActionModel::Finish(
                Err("quote API timed out after "@ + number::decimal(seconds as nat) + "s"@),
            )
            &&& render_step(false, RenderEventModel::Failed(message), output)
                == RenderActionModel::Finish(Err(message))
        }),
{
}

/// The picture for a sticker set is the largest of those with sides of 512, 448, 384 and 320 that takes no
/// more than 500 KiB, and the last one in any case.
pub proof fn law_sticker_sizes(image: ImageModel, a: Seq<u8>, b: Seq<u8>, c: Seq<u8>, d: Seq<u8>)
    requires
        shrinkable(image.shape, 512),
        shrinkable(image.shape, 448),
        shrinkable(image.shape, 384),
        shrinkable(image.shape, 320),
        png_of(thumbnail(image, 512)) == Ok::<Seq<u8>, Seq<char>>(a),
        png_of(thumbnail(image, 448)) == Ok::<Seq<u8>, Seq<char>>(b),
        png_of(thumbnail(image, 384)) == Ok::<Seq<u8>, Seq<char>>(c),
        png_of(thumbnail(image, 320)) == Ok::<Seq<u8>, Seq<char>>(d),
    ensures
        ({
            let r = first_small(image, 512);
            let side: u32 = if a.len() <= 512_000 {
                512
            } else if b.len() <= 512_000 {
                448
            } else if c.len() <= 512_000 {
                384
            } else {
                320
            };
            r matches Ok(p) && p.bytes == (if a.len() <= 512_000 {
                a
            } else if b.len() <= 512_000 {
                b
            } else if c.len() <= 512_000 {
                c
            } else {
                d
            }) && p.width == thumbnail(image, side).shape.width && p.height == thumbnail(
                image,
                side,
            ).shape.height
        }),
{
    reveal_with_fuel(first_small, 4);
}

/// What is said of a picture that did not come, or came in another format.
pub proof fn law_render_texts(bytes: Seq<u8>, j: JsonView, cause: Seq<char>)
    ensures
        !fitting(bytes, QuoteOutput::Sticker) ==> format_problem(bytes, QuoteOutput::Sticker)
            == Some("quote API did not return WebP/WebM"@),
        !fitting(bytes, QuoteOutput::Image) ==> format_problem(bytes, QuoteOutput::Image) == Some(
            "quote API did not return PNG"@,
        ),
        !fitting(bytes, QuoteOutput::Stories) ==> format_problem(bytes, QuoteOutput::Stories)
            == Some("quote API did not return PNG"@),
        fitting(bytes, QuoteOutput::Stories) ==> format_problem(bytes, QuoteOutput::Stories) is None,
        render_problem(RenderEventModel::TooLarge) == "quote API response is too large"@,
        wrapped_image(Err(cause)) == Err::<Seq<char>, Seq<char>>(
            "quote API returned an unsupported response"@ + ": "@ + cause,
        ),
        j.field("image"@) is None ==> wrapped_image(Ok(j)) == Err::<Seq<char>, Seq<char>>(
            "quote API JSON response did not contain an image"@,
        ),
        still_size(Err(cause)) == (512u32, 768u32),
{
}

/// A picture may take twelve MiB on the way, one for a sticker set 500 KiB; a second request waits for 300
/// milliseconds.
pub proof fn law_limits()
    ensures
        MAX_QUOTE_RESPONSE_BYTES == 12 * 1024 * 1024,
        MAX_STICKER_BYTES == 500 * 1024,
        RETRY_PAUSE_MILLIS == 300,
{
}

} // verus!
