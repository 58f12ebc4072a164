//! What the responses of the API mean and how they are shown.

use crate::json::{field, opt_json, opt_str, then_array, then_field, then_u64, Json, JsonView};
use crate::text::{
    all_in, decimal, first_in, has_text, law_put_around, lemma_first_in, lower, number_text, only, opt_text, range_of, same_ignoring_case, same_letters, split,
    split_text, texts, to_chars, trim, trimmed, CharClass,
};
use vstd::prelude::*;
use vstd::string::*;

verus! {

/// The message of a failure.
pub open spec fn failure<T>(r: Result<T, String>) -> Option<Seq<char>> {
    match r {
        Ok(_) => None,
        Err(e) => Some(e@),
    }
}

/// How a response body was classified.
#[derive(Clone, Copy, Debug, PartialEq, Eq, Structural)]
pub enum BodyKind {
    /// Valid JSON: a normal success or an error body.
    Json,
    /// No body at all, which is not the same as a JSON `null`.
    Empty,
    /// A body that is not JSON.
    ParseFailed,
    /// A 404 with a body that is HTML and not JSON: a path that leads nowhere.
    UnroutedHtml404,
}

/// A response of the API.
pub struct ApiResponse {
    status: u16,
    body: Json,
    kind: BodyKind,
}

pub struct ResponseView {
    pub status: u16,
    pub body: JsonView,
    pub kind: BodyKind,
}

impl View for ApiResponse {
    type V = ResponseView;

    closed spec fn view(&self) -> ResponseView {
        ResponseView { status: self.status, body: self.body@, kind: self.kind }
    }
}

/// A body that the server meant, with a status that says so.
pub open spec fn success(r: ResponseView) -> bool {
    200 <= r.status < 300 && (r.kind is Json || r.kind is Empty)
}

/// The parsed body, where there is one.
pub open spec fn body_of(r: ResponseView) -> Option<JsonView> {
    if r.kind is Json {
        Some(r.body)
    } else {
        None
    }
}

/// What is shown of a body in an error message; `compact` is the JSON body
/// written on one line.
pub open spec fn detail_of(kind: BodyKind, bin: Seq<char>, compact: Seq<char>) -> Seq<char> {
    match kind {
        BodyKind::UnroutedHtml404 =>
        "This path returned an HTML 404, not a JSON:API response. If you were addressing a resource, its name may be wrong - run `"@
            + bin
            + " resources` to see valid ones. Otherwise an upstream proxy or CDN likely returned an HTML page (its body is previewed on stderr)."@,
        BodyKind::ParseFailed => "(response body was not valid JSON - see warning above)"@,
        BodyKind::Empty => "(no response body)"@,
        BodyKind::Json => compact,
    }
}

/// A JSON body written out, on one line and over several.
pub struct Rendered {
    pub compact: String,
    pub pretty: String,
}

impl ApiResponse {
    pub fn new(status: u16, body: Json, kind: BodyKind) -> (r: ApiResponse)
        ensures
            r@ == (ResponseView { status, body: body@, kind }),
    {
        ApiResponse { status, body, kind }
    }

    pub fn status(&self) -> (r: u16)
        ensures
            r == self@.status,
    {
        self.status
    }

    pub fn is_success(&self) -> (r: bool)
        ensures
            r == success(self@),
    {
        200 <= self.status && self.status < 300 && (self.kind == BodyKind::Json || self.kind
            == BodyKind::Empty)
    }

    /// The parsed body, or `None` where there was none or it was not JSON.
    pub fn body(&self) -> (r: Option<&Json>)
        ensures
            opt_json(r) == body_of(self@),
    {
        match self.kind {
            BodyKind::Json => Some(&self.body),
            _ => None,
        }
    }

    /// The body whether or not it was parsed; `Null` where it was not.
    pub fn raw_body(&self) -> (r: &Json)
        ensures
            r@ == self@.body,
    {
        &self.body
    }

    pub fn into_raw_body(self) -> (r: Json)
        ensures
            r@ == self@.body,
    {
        self.body
    }

    /// The body as an error message shows it.
    pub fn error_detail(&self, bin: &str, compact: &str) -> (r: String)
        ensures
            r@ == detail_of(self@.kind, bin@, compact@),
    {
        match self.kind {
            BodyKind::UnroutedHtml404 =>
            "This path returned an HTML 404, not a JSON:API response. If you were addressing a resource, its name may be wrong - run `".to_owned().concat(
                bin,
            ).concat(
                " resources` to see valid ones. Otherwise an upstream proxy or CDN likely returned an HTML page (its body is previewed on stderr).",
            ),
            BodyKind::ParseFailed =>
            "(response body was not valid JSON - see warning above)".to_owned(),
            BodyKind::Empty => "(no response body)".to_owned(),
            BodyKind::Json => compact.to_owned(),
        }
    }
}

/// The media type of a `Content-Type` header, without its parameters, is HTML.
pub open spec fn is_html(content_type: Option<Seq<char>>) -> bool {
    content_type matches Some(ct) && same_letters(
        trim(split(ct, ';')[0], CharClass::White),
        "text/html"@,
    )
}

/// The most characters of a body that a warning shows.
pub const PREVIEW_LENGTH: usize = 200;

/// The warning about a body that is not JSON.
pub open spec fn parse_warning(error: Seq<char>, text: Seq<char>) -> Seq<char> {
    "Warning: response body was not valid JSON ("@ + error + "): "@ + (if text.len()
        > PREVIEW_LENGTH {
        text.take(PREVIEW_LENGTH as int) + "..."@
    } else {
        text
    })
}

/// A response with this status, content type and text, of which `parsed` is
/// what the JSON parser said.
pub open spec fn classified(
    status: u16,
    content_type: Option<Seq<char>>,
    text: Seq<char>,
    parsed: Result<JsonView, Seq<char>>,
) -> ResponseView {
    if all_in(text, CharClass::White) {
        ResponseView { status, body: JsonView::Null, kind: BodyKind::Empty }
    } else {
        match parsed {
            Ok(body) => ResponseView { status, body, kind: BodyKind::Json },
            Err(_) => ResponseView {
                status,
                body: JsonView::Null,
                kind: if status == 404 && is_html(content_type) {
                    BodyKind::UnroutedHtml404
                } else {
                    BodyKind::ParseFailed
                },
            },
        }
    }
}

/// What is warned of a body that is neither blank nor JSON.
pub open spec fn body_warning(text: Seq<char>, parsed: Result<JsonView, Seq<char>>) -> Option<
    Seq<char>,
> {
    if all_in(text, CharClass::White) {
        None
    } else {
        match parsed {
            Ok(_) => None,
            Err(e) => Some(parse_warning(e, text)),
        }
    }
}

pub open spec fn parsed_view(parsed: Result<Json, String>) -> Result<JsonView, Seq<char>> {
    match parsed {
        Ok(j) => Ok(j@),
        Err(e) => Err(e@),
    }
}

proof fn lemma_split_nonempty(s: Seq<char>, sep: char)
    ensures
        split(s, sep).len() > 0,
{
}

/// Makes a response of what came over the wire, with a warning where its
/// body was neither blank nor JSON.
pub fn send(
    status: u16,
    content_type: Option<&str>,
    text: &str,
    parsed: Result<Json, String>,
) -> (r: (ApiResponse, Option<String>))
    ensures
        r.0@ == classified(status, opt_str(content_type), text@, parsed_view(parsed)),
        opt_text(r.1) == body_warning(text@, parsed_view(parsed)),
{
    if only(text, CharClass::White) {
        return (ApiResponse::new(status, Json::Null, BodyKind::Empty), None);
    }
    match parsed {
        Ok(body) => (ApiResponse::new(status, body, BodyKind::Json), None),
        Err(e) => {
            let html = match content_type {
                Some(ct) => {
                    let parts = split_text(ct, ';');
                    proof {
                        lemma_split_nonempty(ct@, ';');
                        assert(texts(parts@)[0] == parts@[0]@);
                    }
                    same_ignoring_case(
                        trimmed(parts[0].as_str(), CharClass::White).as_str(),
                        "text/html",
                    )
                },
                None => false,
            };
            let kind = if status == 404 && html {
                BodyKind::UnroutedHtml404
            } else {
                BodyKind::ParseFailed
            };
            let chars = to_chars(text);
            let shown = if chars.len() > PREVIEW_LENGTH {
                let head = range_of(&chars, 0, PREVIEW_LENGTH);
                assert(head@ =~= text@.take(PREVIEW_LENGTH as int));
                head.concat("...")
            } else {
                text.to_owned()
            };
            let warning = "Warning: response body was not valid JSON (".to_owned().concat(
                e.as_str(),
            ).concat("): ").concat(shown.as_str());
            (ApiResponse::new(status, Json::Null, kind), Some(warning))
        },
    }
}

pub open spec fn error_line(r: ResponseView, bin: Seq<char>, compact: Seq<char>) -> Seq<char> {
    "Error "@ + decimal(r.status as nat) + ": "@ + detail_of(r.kind, bin, compact)
}

pub(crate) fn error_text(response: &ApiResponse, bin: &str, compact: &str) -> (r: String)
    ensures
        r@ == error_line(response@, bin@, compact@),
{
    "Error ".to_owned().concat(number_text(response.status as u128).as_str()).concat(": ").concat(
        response.error_detail(bin, compact).as_str(),
    )
}

/// The line under a list that says how much of it is shown.
pub open spec fn trailer_of(body: JsonView) -> Option<Seq<char>> {
    match then_u64(then_field(field(body, "meta"@), "total"@)) {
        Some(total) => {
            let shown = match then_array(field(body, "data"@)) {
                Some(items) => items.len(),
                None => 0,
            };
            Some("showing "@ + decimal(shown) + " of "@ + decimal(total as nat))
        },
        None => None,
    }
}

/// What `list` prints, or the error it ends with.
pub open spec fn list_output(
    r: ResponseView,
    bin: Seq<char>,
    compact: Seq<char>,
    pretty: Seq<char>,
) -> Result<Seq<Seq<char>>, Seq<char>> {
    if !success(r) {
        Err(error_line(r, bin, compact))
    } else {
        match body_of(r) {
            None => Err(
                "Error "@ + decimal(r.status as nat)
                    + ": list response had no body (expected a JSON:API collection)."@,
            ),
            Some(body) => match trailer_of(body) {
                Some(t) => Ok(seq![pretty, t]),
                None => Ok(seq![pretty]),
            },
        }
    }
}

pub open spec fn lines_view(r: Result<Vec<String>, String>) -> Result<Seq<Seq<char>>, Seq<char>> {
    match r {
        Ok(v) => Ok(texts(v@)),
        Err(e) => Err(e@),
    }
}

/// What `list` prints, or the error it ends with. A list without a body is an
/// error: an empty list has one.
pub fn print_list_response(response: &ApiResponse, bin: &str, rendered: &Rendered) -> (r: Result<
    Vec<String>,
    String,
>)
    ensures
        lines_view(r) == list_output(response@, bin@, rendered.compact@, rendered.pretty@),
{
    if !response.is_success() {
        return Err(error_text(response, bin, rendered.compact.as_str()));
    }
    let body = match response.body() {
        Some(b) => b,
        None => {
            return Err(
                "Error ".to_owned().concat(number_text(response.status as u128).as_str()).concat(
                    ": list response had no body (expected a JSON:API collection).",
                ),
            );
        },
    };
    let mut out: Vec<String> = Vec::new();
    out.push(rendered.pretty.clone());
    let total = match body.get("meta") {
        Some(meta) => match meta.get("total") {
            Some(t) => t.as_u64(),
            None => None,
        },
        None => None,
    };
    if let Some(total) = total {
        let shown: usize = match body.get("data") {
            Some(d) => match d.as_array() {
                Some(items) => items.len(),
                None => 0,
            },
            None => 0,
        };
        out.push(
            "showing ".to_owned().concat(number_text(shown as u128).as_str()).concat(
                " of ",
            ).concat(number_text(total as u128).as_str()),
        );
        assert(texts(out@) =~= seq![rendered.pretty@, trailer_of(body@)->Some_0]);
    } else {
        assert(texts(out@) =~= seq![rendered.pretty@]);
    }
    Ok(out)
}

/// What a single resource prints, or the error it ends with.
pub open spec fn single_output(
    r: ResponseView,
    bin: Seq<char>,
    compact: Seq<char>,
    pretty: Seq<char>,
) -> Result<Option<Seq<char>>, Seq<char>> {
    if !success(r) {
        Err(error_line(r, bin, compact))
    } else if body_of(r) is Some {
        Ok(Some(pretty))
    } else {
        Ok(None)
    }
}

pub open spec fn shown_view(r: Result<Option<String>, String>) -> Result<
    Option<Seq<char>>,
    Seq<char>,
> {
    match r {
        Ok(shown) => Ok(opt_text(shown)),
        Err(e) => Err(e@),
    }
}

/// What a single resource prints: its body, nothing where there is none, or
/// the error it ends with.
pub fn print_response(response: &ApiResponse, bin: &str, rendered: &Rendered) -> (r: Result<
    Option<String>,
    String,
>)
    ensures
        shown_view(r) == single_output(response@, bin@, rendered.compact@, rendered.pretty@),
{
    if !response.is_success() {
        return Err(error_text(response, bin, rendered.compact.as_str()));
    }
    match response.body() {
        Some(_) => Ok(Some(rendered.pretty.clone())),
        None => Ok(None),
    }
}

/// What counts as success: a status in the two hundreds, with a body that is
/// JSON or none.
pub proof fn law_success_is_meant(r: ResponseView)
    ensures
        success(r) <==> r.status / 100 == 2 && r.kind != BodyKind::ParseFailed && r.kind
            != BodyKind::UnroutedHtml404,
        body_of(r) is Some <==> r.kind == BodyKind::Json,
        body_of(r) matches Some(b) ==> b == r.body,
{
}

/// What comes over the wire keeps its status. It is blank, or it is what the
/// parser made of it, or it is neither and then has no body.
pub proof fn law_responses_are_what_came(
    status: u16,
    content_type: Option<Seq<char>>,
    text: Seq<char>,
    parsed: Result<JsonView, Seq<char>>,
)
    ensures
        ({
            let r = classified(status, content_type, text, parsed);
            let blank = forall|i: int| 0 <= i < text.len() ==> CharClass::White.holds(#[trigger] text[i]);
            &&& r.status == status
            &&& blank ==> r.kind == BodyKind::Empty && r.body == JsonView::Null
            &&& !blank && parsed is Ok ==> r.kind == BodyKind::Json && r.body == parsed->Ok_0
            &&& !blank && parsed is Err ==> r.body == JsonView::Null && r.kind == (if status == 404
                && is_html(content_type) {
                BodyKind::UnroutedHtml404
            } else {
                BodyKind::ParseFailed
            })
            &&& success(r) ==> blank || parsed is Ok
        }),
        !is_html(None),
{
}

/// Only the media type says whether a body is HTML, whatever its case, and not
/// the parameters behind it.
pub proof fn law_parameters_do_not_make_html(media: Seq<char>, rest: Seq<char>)
    requires
        !media.contains(';'),
    ensures
        is_html(Some(media)) <==> lower(trim(media, CharClass::White)) == lower("text/html"@),
        is_html(Some(media + seq![';'] + rest)) == is_html(Some(media)),
{
    let whole = media + seq![';'] + rest;
    let k = CharClass::Is(';');
    lemma_first_in(media, k);
    lemma_first_in(whole, k);
    let i = first_in(whole, k);
    let m = first_in(media, k);
    if m < media.len() {
        assert(media.contains(media[m]));
    }
    assert(whole[media.len() as int] == ';');
    if i < media.len() {
        assert(whole[i] == media[i]);
        assert(media.contains(media[i]));
    }
    if i > media.len() {
        assert(!k.holds(whole[media.len() as int]));
    }
    assert(i == media.len());
    assert(whole.take(i) =~= media);
    assert(split(whole, ';')[0] == media);
    assert(split(media, ';')[0] == media);
}

/// A body that is not JSON is shown up to a length, and what is left out is
/// marked.
pub proof fn law_previews_are_short(error: Seq<char>, text: Seq<char>)
    ensures
        ({
            let start = "Warning: response body was not valid JSON ("@ + error + "): "@;
            &&& text.len() <= 200 ==> parse_warning(error, text) == start + text
            &&& text.len() > 200 ==> parse_warning(error, text) == start + (text.take(200) + "..."@)
        }),
{
}

/// An error shows the status and the body that the API sent; where it sent no
/// JSON, what is shown does not depend on any.
pub proof fn law_errors_show_status_and_body(
    r: ResponseView,
    bin: Seq<char>,
    compact: Seq<char>,
    other: Seq<char>,
)
    ensures
        r.kind == BodyKind::Json ==> error_line(r, bin, compact) == "Error "@ + decimal(
            r.status as nat,
        ) + ": "@ + compact,
        r.kind != BodyKind::Json ==> error_line(r, bin, compact) == error_line(r, bin, other),
        r.kind == BodyKind::Empty ==> detail_of(r.kind, bin, compact) == "(no response body)"@,
        r.kind == BodyKind::ParseFailed ==> detail_of(r.kind, bin, compact)
            == "(response body was not valid JSON - see warning above)"@,
        r.kind == BodyKind::UnroutedHtml404 ==> has_text(detail_of(r.kind, bin, compact), bin),
{
    law_put_around(
        "This path returned an HTML 404, not a JSON:API response. If you were addressing a resource, its name may be wrong - run `"@,
        bin,
        " resources` to see valid ones. Otherwise an upstream proxy or CDN likely returned an HTML page (its body is previewed on stderr)."@,
    );
}

/// A list shows its body, and how much of the whole that is where the server
/// says how much there is.
pub proof fn law_lists_are_shown(
    r: ResponseView,
    bin: Seq<char>,
    compact: Seq<char>,
    pretty: Seq<char>,
    total: u64,
    items: Seq<JsonView>,
)
    ensures
        list_output(r, bin, compact, pretty) is Ok <==> success(r) && r.kind == BodyKind::Json,
        list_output(r, bin, compact, pretty) matches Ok(lines) ==> lines.len() > 0 && lines[0]
            == pretty,
        !success(r) ==> list_output(r, bin, compact, pretty) == Err::<Seq<Seq<char>>, Seq<char>>(
            error_line(r, bin, compact),
        ),
        list_output(r, bin, compact, pretty) is Ok && then_u64(
            then_field(field(r.body, "meta"@), "total"@),
        ) == Some(total) && field(r.body, "data"@) == Some(JsonView::Array(items)) ==> list_output(
            r,
            bin,
            compact,
            pretty,
        )->Ok_0 == seq![
            pretty,
            "showing "@ + decimal(items.len()) + " of "@ + decimal(total as nat),
        ],
        list_output(r, bin, compact, pretty) is Ok && then_u64(
            then_field(field(r.body, "meta"@), "total"@),
        ) == Some(total) && !(field(r.body, "data"@) matches Some(JsonView::Array(_)))
            ==> list_output(r, bin, compact, pretty)->Ok_0 == seq![
            pretty,
            "showing "@ + decimal(0) + " of "@ + decimal(total as nat),
        ],
        list_output(r, bin, compact, pretty) is Ok && then_u64(
            then_field(field(r.body, "meta"@), "total"@),
        ) is None ==> list_output(r, bin, compact, pretty)->Ok_0 == seq![pretty],
{
}

/// A single resource shows its body, or nothing where it has none; a refusal
/// is never shown as success.
pub proof fn law_single_resources_are_shown(
    r: ResponseView,
    bin: Seq<char>,
    compact: Seq<char>,
    pretty: Seq<char>,
)
    ensures
        single_output(r, bin, compact, pretty) is Ok <==> success(r),
        success(r) && r.kind == BodyKind::Json ==> single_output(r, bin, compact, pretty) == Ok::<
            Option<Seq<char>>,
            Seq<char>,
        >(Some(pretty)),
        success(r) && r.kind == BodyKind::Empty ==> single_output(r, bin, compact, pretty) == Ok::<
            Option<Seq<char>>,
            Seq<char>,
        >(None),
        !success(r) ==> single_output(r, bin, compact, pretty) == Err::<
            Option<Seq<char>>,
            Seq<char>,
        >(error_line(r, bin, compact)),
{
}

/// A body is warned of exactly where it is there and is not JSON.
pub proof fn law_odd_bodies_are_warned_of(text: Seq<char>, parsed: Result<JsonView, Seq<char>>)
    ensures
        body_warning(text, parsed) is Some <==> parsed is Err && exists|i: int|
            0 <= i < text.len() && !CharClass::White.holds(#[trigger] text[i]),
        parsed matches Err(e) ==> (body_warning(text, parsed) matches Some(w) ==> w == parse_warning(
            e,
            text,
        )),
{
}

} // verus!
