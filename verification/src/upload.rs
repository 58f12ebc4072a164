//! Uploading files: what is asked of the API, where a file may be sent, and
//! how the uploaded files are attached.

use crate::address::{
    host_refusal, private_network_rejection_reason_for_parsed_url, url_view, ParsedUrl, UrlView,
};
use crate::client::{post_request, post_view, ApiClient, ApiRequest, PairsView, RequestBody};
use crate::client::{
    auth_headers, base_of, law_posts_go_out_as_given, origins, ClientView, HttpMethod, OriginCheck,
    RequestBodyView, RequestView,
};
use crate::format::{json_type, json_type_name};
use crate::json::{
    and_field, field, fields_view, items_view, lemma_lookup_at, lookup, no_fields, object, opt_str, text, then_text,
    FieldsView, Json, JsonNumber, JsonView, NumberView,
};
use crate::order::{add_key, in_order, insert_key, law_insert_key};
use crate::outside::{
    base64_standard, encode_base64_standard, md5_digest, md5_of, parse_url, url_of,
};
use crate::response::{body_of, detail_of, failure, success, ApiResponse, BodyKind, ResponseView};
use crate::text::{
    add_line, begins_with, decimal, find_last, last_of, law_last_place, lower, lowered, no_lines,
    number_text, opt_text, range_of, same, same_ignoring_case, same_letters, starts_with,
    text_pairs, texts, to_chars,
};
use vstd::prelude::*;
use vstd::string::*;

verus! {

/// A file is not read beyond this many bytes: 26 MiB.
pub const MAX_UPLOAD_BYTES: u64 = 27262976;

/// The file types that are taken, as every refusal names them.
pub const ACCEPTED_TYPES: &'static str =
    " - Kiln only accepts a specific allow-list of file types (images, PDF, JSON/XML/ZIP, the Office spreadsheet type, plain text/CSV/Markdown).";

/// A file as the user named it. `name` is the last part of the path, if it has
/// one; what is not Unicode in it has been replaced, and `name_is_unicode` and
/// `extension_is_unicode` say whether that was so.
pub struct NamedFile {
    pub path: String,
    pub name: Option<String>,
    pub name_is_unicode: bool,
    pub extension_is_unicode: bool,
}

pub struct FileView {
    pub path: Seq<char>,
    pub name: Option<Seq<char>>,
    pub name_is_unicode: bool,
    pub extension_is_unicode: bool,
}

impl View for NamedFile {
    type V = FileView;

    open spec fn view(&self) -> FileView {
        FileView {
            path: self.path@,
            name: opt_text(self.name),
            name_is_unicode: self.name_is_unicode,
            extension_is_unicode: self.extension_is_unicode,
        }
    }
}

/// What stands behind the last dot of a file name; nothing where the name
/// begins with its only dot.
pub open spec fn extension(name: Seq<char>) -> Option<Seq<char>> {
    let i = last_of(name, '.');
    if i <= 0 || name == ".."@ {
        None
    } else {
        Some(name.skip(i + 1))
    }
}

/// The content type of files with an extension, whatever its case.
pub open spec fn mime_type(ext: Seq<char>) -> Option<Seq<char>> {
    if same_letters("png"@, ext) {
        Some("image/png"@)
    } else if same_letters("jpg"@, ext) {
        Some("image/jpeg"@)
    } else if same_letters("jpeg"@, ext) {
        Some("image/jpeg"@)
    } else if same_letters("webp"@, ext) {
        Some("image/webp"@)
    } else if same_letters("gif"@, ext) {
        Some("image/gif"@)
    } else if same_letters("svg"@, ext) {
        Some("image/svg+xml"@)
    } else if same_letters("bmp"@, ext) {
        Some("image/bmp"@)
    } else if same_letters("tif"@, ext) {
        Some("image/tiff"@)
    } else if same_letters("tiff"@, ext) {
        Some("image/tiff"@)
    } else if same_letters("pdf"@, ext) {
        Some("application/pdf"@)
    } else if same_letters("json"@, ext) {
        Some("application/json"@)
    } else if same_letters("xml"@, ext) {
        Some("application/xml"@)
    } else if same_letters("zip"@, ext) {
        Some("application/zip"@)
    } else if same_letters("xlsx"@, ext) {
        Some("application/vnd.openxmlformats-officedocument.spreadsheetml.sheet"@)
    } else if same_letters("xls"@, ext) {
        Some("application/vnd.ms-excel"@)
    } else if same_letters("csv"@, ext) {
        Some("text/csv"@)
    } else if same_letters("md"@, ext) {
        Some("text/markdown"@)
    } else if same_letters("txt"@, ext) {
        Some("text/plain"@)
    } else {
        None
    }
}

/// The content type of a file name.
pub open spec fn content_type(name: Seq<char>) -> Option<Seq<char>> {
    match extension(name) {
        Some(ext) => mime_type(ext),
        None => None,
    }
}

/// A name that begins with its only dot.
pub open spec fn is_dotfile(name: Seq<char>) -> bool {
    name.len() > 0 && name[0] == '.' && !name.skip(1).contains('.')
}

pub open spec fn name_extension(name: Option<Seq<char>>) -> Option<Seq<char>> {
    match name {
        Some(n) => extension(n),
        None => None,
    }
}

/// What is said of a file whose type is not taken.
pub open spec fn untyped(f: FileView) -> Seq<char> {
    match name_extension(f.name) {
        Some(ext) => if f.extension_is_unicode {
            f.path + " has an unrecognized file extension (."@ + ext + ")"@ + ACCEPTED_TYPES@
        } else {
            f.path + " has a file extension with non-UTF-8 bytes (."@ + ext + ")"@ + ACCEPTED_TYPES@
        },
        None => if f.name is Some && f.name_is_unicode && is_dotfile(f.name->0) {
            f.path
                + " is a dotfile with no extension (Rust's Path::extension() treats the whole name as the stem here)"@
                + ACCEPTED_TYPES@
        } else {
            f.path + " has no file extension"@ + ACCEPTED_TYPES@
        },
    }
}

/// What keeps a file from being read.
pub open spec fn file_refusal(path: Seq<char>, regular: bool, length: u64) -> Option<Seq<char>> {
    if !regular {
        Some(path + " is not a regular file - refusing to upload it."@)
    } else if length > MAX_UPLOAD_BYTES {
        Some(
            path + " is too large to upload ("@ + decimal(length as nat) + " bytes; limit is "@
                + decimal(MAX_UPLOAD_BYTES as nat) + " bytes)"@,
        )
    } else {
        None
    }
}

/// What the API is told of a file before it is uploaded.
pub open spec fn blob(
    name: Seq<char>,
    byte_size: nat,
    checksum: Seq<char>,
    content_type: Seq<char>,
) -> JsonView {
    JsonView::Object(
        seq![
            (
                "blob"@,
                JsonView::Object(
                    seq![
                        ("filename"@, JsonView::Text(name)),
                        ("byte_size"@, JsonView::Number(NumberView::Unsigned(byte_size as u64))),
                        ("checksum"@, JsonView::Text(checksum)),
                        ("content_type"@, JsonView::Text(content_type)),
                    ],
                ),
            ),
        ],
    )
}

/// What the API is told of a file with these bytes, or why the file is not
/// uploaded.
pub open spec fn prepared(f: FileView, bytes: Seq<u8>) -> Result<JsonView, Seq<char>> {
    if bytes.len() > MAX_UPLOAD_BYTES {
        Err(
            f.path + " is too large to upload (limit is "@ + decimal(MAX_UPLOAD_BYTES as nat)
                + " bytes)"@,
        )
    } else {
        match f.name {
            Some(n) => match content_type(n) {
                Some(t) => Ok(blob(n, bytes.len(), base64_standard(md5_of(bytes)), t)),
                None => Err(untyped(f)),
            },
            None => Err(untyped(f)),
        }
    }
}

pub open spec fn json_result(r: Result<Json, String>) -> Result<JsonView, Seq<char>> {
    match r {
        Ok(j) => Ok(j@),
        Err(e) => Err(e@),
    }
}

/// What stands behind the last dot of a file name.
pub fn extension_of(name: &str) -> (r: Option<String>)
    ensures
        opt_text(r) == extension(name@),
{
    let chars = to_chars(name);
    if same(name, "..") {
        return None;
    }
    assert(chars@.subrange(0, chars@.len() as int) =~= chars@);
    match find_last(chars.as_slice(), 0, chars.len(), '.') {
        Some(i) => if i > 0 {
            assert(i + 1 <= chars.len());
            assert(chars@.skip(i + 1) =~= chars@.subrange(i + 1, chars@.len() as int));
            Some(range_of(chars.as_slice(), i + 1, chars.len()))
        } else {
            None
        },
        None => None,
    }
}

/// The content type of a file name, where its extension is one that is taken.
pub fn content_type_for(name: &str) -> (r: Option<&'static str>)
    ensures
        opt_str(r) == content_type(name@),
{
    match extension_of(name) {
        Some(ext) => mime_type_of(ext.as_str()),
        None => None,
    }
}

fn mime_type_of(ext: &str) -> (r: Option<&'static str>)
    ensures
        opt_str(r) == mime_type(ext@),
{
    if same_ignoring_case("png", ext) {
        Some("image/png")
    } else if same_ignoring_case("jpg", ext) {
        Some("image/jpeg")
    } else if same_ignoring_case("jpeg", ext) {
        Some("image/jpeg")
    } else if same_ignoring_case("webp", ext) {
        Some("image/webp")
    } else if same_ignoring_case("gif", ext) {
        Some("image/gif")
    } else if same_ignoring_case("svg", ext) {
        Some("image/svg+xml")
    } else if same_ignoring_case("bmp", ext) {
        Some("image/bmp")
    } else if same_ignoring_case("tif", ext) {
        Some("image/tiff")
    } else if same_ignoring_case("tiff", ext) {
        Some("image/tiff")
    } else if same_ignoring_case("pdf", ext) {
        Some("application/pdf")
    } else if same_ignoring_case("json", ext) {
        Some("application/json")
    } else if same_ignoring_case("xml", ext) {
        Some("application/xml")
    } else if same_ignoring_case("zip", ext) {
        Some("application/zip")
    } else if same_ignoring_case("xlsx", ext) {
        Some("application/vnd.openxmlformats-officedocument.spreadsheetml.sheet")
    } else if same_ignoring_case("xls", ext) {
        Some("application/vnd.ms-excel")
    } else if same_ignoring_case("csv", ext) {
        Some("text/csv")
    } else if same_ignoring_case("md", ext) {
        Some("text/markdown")
    } else if same_ignoring_case("txt", ext) {
        Some("text/plain")
    } else {
        None
    }
}

fn untyped_message(file: &NamedFile) -> (r: String)
    ensures
        r@ == untyped(file@),
{
    let path = file.path.clone();
    let ext = match &file.name {
        Some(n) => extension_of(n.as_str()),
        None => None,
    };
    match ext {
        Some(ext) => if file.extension_is_unicode {
            path.concat(" has an unrecognized file extension (.").concat(ext.as_str()).concat(
                ")",
            ).concat(ACCEPTED_TYPES)
        } else {
            path.concat(" has a file extension with non-UTF-8 bytes (.").concat(
                ext.as_str(),
            ).concat(")").concat(ACCEPTED_TYPES)
        },
        None => {
            let dotfile = match &file.name {
                Some(n) => file.name_is_unicode && is_dotfile_name(n.as_str()),
                None => false,
            };
            if dotfile {
                path.concat(
                    " is a dotfile with no extension (Rust's Path::extension() treats the whole name as the stem here)",
                ).concat(ACCEPTED_TYPES)
            } else {
                path.concat(" has no file extension").concat(ACCEPTED_TYPES)
            }
        },
    }
}

fn is_dotfile_name(name: &str) -> (r: bool)
    ensures
        r == is_dotfile(name@),
{
    let chars = to_chars(name);
    if chars.len() == 0 || chars[0] != '.' {
        return false;
    }
    let mut i: usize = 1;
    while i < chars.len()
        invariant
            chars@ == name@,
            1 <= i <= chars@.len(),
            chars@[0] == '.',
            forall|j: int| 1 <= j < i ==> chars@[j] != '.',
        decreases chars@.len() - i,
    {
        if chars[i] == '.' {
            assert(name@.skip(1)[i - 1] == '.');
            return false;
        }
        i = i + 1;
    }
    true
}

/// Whether a file of this length may be read, and if not, why.
pub fn check_file(path: &str, regular: bool, length: u64) -> (r: Result<(), String>)
    ensures
        match r {
            Ok(_) => file_refusal(path@, regular, length) is None,
            Err(e) => file_refusal(path@, regular, length) == Some(e@),
        },
{
    if !regular {
        return Err(path.to_owned().concat(" is not a regular file - refusing to upload it."));
    }
    if length > MAX_UPLOAD_BYTES {
        return Err(
            path.to_owned().concat(" is too large to upload (").concat(
                number_text(length as u128).as_str(),
            ).concat(" bytes; limit is ").concat(
                number_text(MAX_UPLOAD_BYTES as u128).as_str(),
            ).concat(" bytes)"),
        );
    }
    Ok(())
}

/// What the API is told of a file before it is uploaded.
pub fn blob_request(name: &str, byte_size: u64, checksum: &str, content_type: &str) -> (r: Json)
    ensures
        r@ == blob(name@, byte_size as nat, checksum@, content_type@),
{
    let fields = and_field(no_fields(), "filename", text(name));
    let fields = and_field(fields, "byte_size", Json::Number(JsonNumber::Unsigned(byte_size)));
    let fields = and_field(fields, "checksum", text(checksum));
    let fields = and_field(fields, "content_type", text(content_type));
    assert(fields_view(fields@) =~= seq![
        ("filename"@, JsonView::Text(name@)),
        ("byte_size"@, JsonView::Number(NumberView::Unsigned(byte_size))),
        ("checksum"@, JsonView::Text(checksum@)),
        ("content_type"@, JsonView::Text(content_type@)),
    ]);
    object(and_field(no_fields(), "blob", object(fields)))
}

/// What the API is told of a file that has been read, or why the file is not
/// uploaded: it is too long after all, or not of a type that is taken. The
/// checksum is the MD5 digest in base64.
pub fn prepare_upload(file: &NamedFile, bytes: &[u8]) -> (r: Result<Json, String>)
    ensures
        json_result(r) == prepared(file@, bytes@),
{
    if bytes.len() as u64 > MAX_UPLOAD_BYTES {
        return Err(
            file.path.clone().concat(" is too large to upload (limit is ").concat(
                number_text(MAX_UPLOAD_BYTES as u128).as_str(),
            ).concat(" bytes)"),
        );
    }
    let name = match &file.name {
        Some(n) => n,
        None => {
            return Err(untyped_message(file));
        },
    };
    match content_type_for(name.as_str()) {
        Some(t) => {
            let digest = md5_digest(bytes);
            let checksum = encode_base64_standard(digest.as_slice());
            Ok(blob_request(name.as_str(), bytes.len() as u64, checksum.as_str(), t))
        },
        None => Err(untyped_message(file)),
    }
}

/// Where uploads are announced.
pub open spec fn setup_url(base: Seq<char>) -> Seq<char> {
    base + "/rails/active_storage/direct_uploads"@
}

pub open spec fn setup_headers() -> PairsView {
    seq![("Content-Type"@, "application/json"@)]
}

/// The request that announces an upload, and what is said of it.
pub open spec fn announcement(c: ClientView, blob: JsonView) -> Result<
    (RequestView, Option<Seq<char>>),
    Seq<char>,
> {
    post_request(
        c,
        setup_url(base_of(c)),
        setup_headers(),
        RequestBodyView::Json(blob),
        origins(url_of(base_of(c)), url_of(setup_url(base_of(c)))),
    )
}

/// The request that announces an upload.
pub fn setup_request(client: &ApiClient, blob: Json) -> (r: Result<
    (ApiRequest, Option<String>),
    String,
>)
    ensures
        post_view(r) == announcement(client@, blob@),
{
    let url = client.base_url_trimmed().concat("/rails/active_storage/direct_uploads");
    let mut headers: Vec<(String, String)> = Vec::new();
    headers.push(("Content-Type".to_owned(), "application/json".to_owned()));
    assert(text_pairs(headers@) =~= setup_headers());
    client.raw_post(url.as_str(), headers.as_slice(), RequestBody::Json(blob))
}

/// What the answer to an announced upload holds: the id under which the file
/// can be attached, the description of the upload, and its URL.
pub open spec fn ticket_fields(r: ResponseView, bin: Seq<char>, compact: Seq<char>) -> Result<
    (Seq<char>, JsonView, Seq<char>),
    Seq<char>,
> {
    if !success(r) {
        Err(
            "Direct upload setup failed ("@ + decimal(r.status as nat) + "): "@ + detail_of(
                r.kind,
                bin,
                compact,
            ),
        )
    } else {
        match body_of(r) {
            None => Err(
                "Direct upload setup succeeded ("@ + decimal(r.status as nat)
                    + ") but returned no usable JSON body."@,
            ),
            Some(body) => match (
                then_text(field(body, "signed_id"@)),
                field(body, "direct_upload"@),
            ) {
                (None, _) => Err("Direct upload response missing signed_id"@),
                (_, None) => Err("Direct upload response missing direct_upload object"@),
                (Some(id), Some(upload)) => match then_text(field(upload, "url"@)) {
                    None => Err("Direct upload response missing direct_upload.url"@),
                    Some(url) => Ok((id, upload, url)),
                },
            },
        }
    }
}

/// Whether a file may be sent to a URL: over TLS, unless that is waived with a
/// warning, and not into a private network. The first part is what is warned
/// of, the second why it may not.
pub open spec fn upload_url_check(url: Seq<char>, parsed: Option<UrlView>, force_insecure: bool) -> (
    Seq<Seq<char>>,
    Option<Seq<char>>,
) {
    match parsed {
        Some(u) => if u.scheme == "http"@ && !force_insecure {
            (
                Seq::empty(),
                Some(
                    "Error: direct upload URL is non-TLS (http://) - file bytes would be transmitted in plaintext.\nPass --force-insecure or set KLAAY_ALLOW_INSECURE=1 (or =true / =yes) if this is intentional."@,
                ),
            )
        } else if u.scheme == "http"@ || u.scheme == "https"@ {
            (
                if u.scheme == "http"@ {
                    seq![
                        "Warning: direct upload URL is non-TLS (http://); file bytes will be transmitted in plaintext."@,
                    ]
                } else {
                    Seq::empty()
                },
                match host_refusal(u.host) {
                    Some(reason) => Some(
                        "Direct upload response returned a URL pointing at "@ + reason
                            + ", refusing to upload to it: "@ + url,
                    ),
                    None => None,
                },
            )
        } else {
            (
                Seq::empty(),
                Some("Direct upload response returned a non-http(s) upload URL: "@ + url),
            )
        },
        None => (
            Seq::empty(),
            Some("Direct upload response returned a non-http(s) upload URL: "@ + url),
        ),
    }
}

/// The headers that are passed on to the storage, whatever their case.
pub open spec fn passed_on(name: Seq<char>) -> bool {
    let k = lower(name);
    ||| k == "content-type"@
    ||| k == "content-md5"@
    ||| k == "content-disposition"@
    ||| k == "x-amz-checksum-crc32"@
    ||| k == "x-amz-checksum-crc32c"@
    ||| k == "x-amz-checksum-sha256"@
    ||| k == "x-amz-content-sha256"@
    ||| k == "x-amz-sdk-checksum-algorithm"@
    ||| starts_with(k, "x-goog-"@)
    ||| starts_with(k, "x-ms-"@)
}

/// The headers among `fields` that are passed on, in their order.
pub open spec fn headers_in(fields: FieldsView) -> PairsView
    decreases fields.len(),
{
    if fields.len() == 0 {
        Seq::empty()
    } else {
        let rest = headers_in(fields.drop_last());
        match fields.last() {
            (k, JsonView::Text(v)) => if passed_on(k) {
                rest.push((k, v))
            } else {
                rest
            },
            _ => rest,
        }
    }
}

/// What is said of the headers that would be passed on but are no text.
pub open spec fn header_warnings(fields: FieldsView) -> Seq<Seq<char>>
    decreases fields.len(),
{
    if fields.len() == 0 {
        Seq::empty()
    } else {
        let rest = header_warnings(fields.drop_last());
        let k = fields.last().0;
        let v = fields.last().1;
        if passed_on(k) && !(v is Text) {
            rest.push(
                "Warning: direct upload header '"@ + k + "' has a non-string value ("@ + json_type(v)
                    + "), skipping - the blob PUT may fail."@,
            )
        } else {
            rest
        }
    }
}

/// The headers of an upload, and what is said of them.
pub open spec fn upload_headers(upload: JsonView) -> (PairsView, Seq<Seq<char>>) {
    match field(upload, "headers"@) {
        None => (Seq::empty(), Seq::empty()),
        Some(JsonView::Object(fields)) => (headers_in(fields), header_warnings(fields)),
        Some(v) => (
            Seq::empty(),
            seq![
                "Warning: direct upload response has a non-object 'headers' field ("@ + json_type(v)
                    + ") - proceeding without forwarding headers, the blob PUT may fail."@,
            ],
        ),
    }
}

/// Where a file is to be sent, with which headers, and the id it then has.
pub struct UploadTicket {
    pub signed_id: String,
    pub url: String,
    pub headers: Vec<(String, String)>,
}

pub struct TicketView {
    pub signed_id: Seq<char>,
    pub url: Seq<char>,
    pub headers: PairsView,
}

impl View for UploadTicket {
    type V = TicketView;

    open spec fn view(&self) -> TicketView {
        TicketView {
            signed_id: self.signed_id@,
            url: self.url@,
            headers: text_pairs(self.headers@),
        }
    }
}

pub open spec fn ticket_result(r: Result<UploadTicket, String>) -> Result<TicketView, Seq<char>> {
    match r {
        Ok(t) => Ok(t@),
        Err(e) => Err(e@),
    }
}

/// What becomes of an announced upload whose URL reads as `parsed`: the
/// ticket or the refusal, and the warnings.
pub open spec fn ticket(
    fields: (Seq<char>, JsonView, Seq<char>),
    parsed: Option<UrlView>,
    force_insecure: bool,
) -> (Result<TicketView, Seq<char>>, Seq<Seq<char>>) {
    let check = upload_url_check(fields.2, parsed, force_insecure);
    match check.1 {
        Some(e) => (Err(e), check.0),
        None => (
            Ok(
                TicketView {
                    signed_id: fields.0,
                    url: fields.2,
                    headers: upload_headers(fields.1).0,
                },
            ),
            check.0 + upload_headers(fields.1).1,
        ),
    }
}

fn is_passed_on(name: &str) -> (r: bool)
    ensures
        r == passed_on(name@),
{
    let k = lowered(name);
    let k = k.as_str();
    same(k, "content-type") || same(k, "content-md5") || same(k, "content-disposition") || same(
        k,
        "x-amz-checksum-crc32",
    ) || same(k, "x-amz-checksum-crc32c") || same(k, "x-amz-checksum-sha256") || same(
        k,
        "x-amz-content-sha256",
    ) || same(k, "x-amz-sdk-checksum-algorithm") || begins_with(k, "x-goog-") || begins_with(
        k,
        "x-ms-",
    )
}

fn headers_to_send(upload: &Json, warnings: &mut Vec<String>) -> (r: Vec<(String, String)>)
    ensures
        text_pairs(r@) == upload_headers(upload@).0,
        texts(final(warnings)@) == texts(old(warnings)@) + upload_headers(upload@).1,
{
    let mut out: Vec<(String, String)> = Vec::new();
    let ghost before = texts(warnings@);
    assert(text_pairs(out@) =~= Seq::empty());
    assert(before =~= before + Seq::<Seq<char>>::empty());
    let headers = match upload.get("headers") {
        None => {
            return out;
        },
        Some(h) => h,
    };
    let fields = match headers.as_object() {
        None => {
            add_line(
                warnings,
                "Warning: direct upload response has a non-object 'headers' field (".to_owned().concat(
                    json_type_name(headers),
                ).concat(
                    ") - proceeding without forwarding headers, the blob PUT may fail.",
                ),
            );
            assert(texts(warnings@) =~= before + upload_headers(upload@).1);
            return out;
        },
        Some(f) => f,
    };
    let ghost all = fields_view(fields@);
    let mut i: usize = 0;
    while i < fields.len()
        invariant
            i <= fields@.len(),
            all == fields_view(fields@),
            text_pairs(out@) == headers_in(all.take(i as int)),
            texts(warnings@) == before + header_warnings(all.take(i as int)),
        decreases fields@.len() - i,
    {
        assert(all.take(i + 1).drop_last() =~= all.take(i as int));
        let name = fields[i].0.as_str();
        let value = &fields[i].1;
        assert(all[i as int] == (name@, value@));
        if is_passed_on(name) {
            match value.as_str() {
                Some(v) => {
                    let ghost sent = out@;
                    out.push((name.to_owned(), v.to_owned()));
                    assert(text_pairs(out@) =~= text_pairs(sent).push((name@, v@)));
                },
                None => {
                    add_line(
                        warnings,
                        "Warning: direct upload header '".to_owned().concat(name).concat(
                            "' has a non-string value (",
                        ).concat(json_type_name(value)).concat(
                            "), skipping - the blob PUT may fail.",
                        ),
                    );
                    assert(texts(warnings@) =~= before + header_warnings(all.take(i + 1)));
                },
            }
        }
        i = i + 1;
    }
    assert(all.take(i as int) =~= all);
    out
}

/// The ticket of an announced upload whose URL has been taken apart. A file
/// goes out over TLS, unless that is waived, and never to an address of a
/// private network.
pub fn ticket_for(
    signed_id: &str,
    upload: &Json,
    url: &str,
    parsed: &Option<ParsedUrl>,
    force_insecure: bool,
) -> (r: (Result<UploadTicket, String>, Vec<String>))
    ensures
        (ticket_result(r.0), texts(r.1@)) == ticket(
            (signed_id@, upload@, url@),
            url_view(*parsed),
            force_insecure,
        ),
{
    let mut warnings = no_lines();
    let unknown = "Direct upload response returned a non-http(s) upload URL: ".to_owned().concat(
        url,
    );
    let u = match parsed {
        Some(u) => u,
        None => {
            return (Err(unknown), warnings);
        },
    };
    if same(u.scheme.as_str(), "http") {
        if !force_insecure {
            return (
                Err(
                    "Error: direct upload URL is non-TLS (http://) - file bytes would be transmitted in plaintext.\nPass --force-insecure or set KLAAY_ALLOW_INSECURE=1 (or =true / =yes) if this is intentional.".to_owned(),
                ),
                warnings,
            );
        }
        add_line(
            &mut warnings,
            "Warning: direct upload URL is non-TLS (http://); file bytes will be transmitted in plaintext.".to_owned(),
        );
    } else if !same(u.scheme.as_str(), "https") {
        return (Err(unknown), warnings);
    }
    assert(texts(warnings@) =~= upload_url_check(url@, url_view(*parsed), force_insecure).0);
    if let Some(reason) = private_network_rejection_reason_for_parsed_url(u) {
        return (
            Err(
                "Direct upload response returned a URL pointing at ".to_owned().concat(
                    reason,
                ).concat(", refusing to upload to it: ").concat(url),
            ),
            warnings,
        );
    }
    let headers = headers_to_send(upload, &mut warnings);
    let ticket = UploadTicket { signed_id: signed_id.to_owned(), url: url.to_owned(), headers };
    (Ok(ticket), warnings)
}

/// What the answer to an announced upload allows: the ticket or the refusal,
/// and the warnings.
pub open spec fn granted(
    r: ResponseView,
    bin: Seq<char>,
    compact: Seq<char>,
    force_insecure: bool,
) -> (Result<TicketView, Seq<char>>, Seq<Seq<char>>) {
    match ticket_fields(r, bin, compact) {
        Ok(f) => ticket(f, url_of(f.2), force_insecure),
        Err(e) => (Err(e), Seq::empty()),
    }
}

/// What the answer to an announced upload allows: the ticket or the refusal,
/// and what is warned of. `compact` is the body of the answer on one line.
pub fn upload_ticket(response: &ApiResponse, bin: &str, compact: &str, force_insecure: bool) -> (r: (
    Result<UploadTicket, String>,
    Vec<String>,
))
    ensures
        (ticket_result(r.0), texts(r.1@)) == granted(response@, bin@, compact@, force_insecure),
{
    let none = no_lines();
    if !response.is_success() {
        return (
            Err(
                "Direct upload setup failed (".to_owned().concat(
                    number_text(response.status() as u128).as_str(),
                ).concat("): ").concat(response.error_detail(bin, compact).as_str()),
            ),
            none,
        );
    }
    let body = match response.body() {
        Some(b) => b,
        None => {
            return (
                Err(
                    "Direct upload setup succeeded (".to_owned().concat(
                        number_text(response.status() as u128).as_str(),
                    ).concat(") but returned no usable JSON body."),
                ),
                none,
            );
        },
    };
    let signed_id = match body.get("signed_id") {
        Some(v) => v.as_str(),
        None => None,
    };
    let signed_id = match signed_id {
        Some(id) => id,
        None => {
            return (Err("Direct upload response missing signed_id".to_owned()), none);
        },
    };
    let upload = match body.get("direct_upload") {
        Some(u) => u,
        None => {
            return (Err("Direct upload response missing direct_upload object".to_owned()), none);
        },
    };
    let url = match upload.get("url") {
        Some(v) => v.as_str(),
        None => None,
    };
    let url = match url {
        Some(u) => u,
        None => {
            return (Err("Direct upload response missing direct_upload.url".to_owned()), none);
        },
    };
    let parsed = parse_url(url);
    ticket_for(signed_id, upload, url, &parsed, force_insecure)
}

/// What went wrong where the storage does not have the file.
pub open spec fn storage_failure(r: ResponseView, bin: Seq<char>, compact: Seq<char>) -> Option<
    Seq<char>,
> {
    if success(r) {
        None
    } else {
        Some(
            "File upload to blob storage failed with status "@ + decimal(r.status as nat) + ": "@
                + detail_of(r.kind, bin, compact),
        )
    }
}

/// What the storage's answer to the file means: that it has the file, or what
/// went wrong.
pub fn finish_upload(response: &ApiResponse, bin: &str, compact: &str) -> (r: Result<(), String>)
    ensures
        failure(r) == storage_failure(response@, bin@, compact@),
{
    if response.is_success() {
        Ok(())
    } else {
        Err(
            "File upload to blob storage failed with status ".to_owned().concat(
                number_text(response.status() as u128).as_str(),
            ).concat(": ").concat(response.error_detail(bin, compact).as_str()),
        )
    }
}

/// What is said where files had been uploaded before one could not be.
pub open spec fn orphan_note(prior_successes: nat) -> Option<Seq<char>> {
    if prior_successes == 0 {
        None
    } else if prior_successes == 1 {
        Some(
            "Note: "@ + decimal(prior_successes) + " earlier "@ + "file"@ + " in this --file batch "@
                + "was"@
                + " already uploaded to blob storage but won't end up attached to anything, since this request will now fail."@,
        )
    } else {
        Some(
            "Note: "@ + decimal(prior_successes) + " earlier "@ + "files"@ + " in this --file batch "@
                + "were"@
                + " already uploaded to blob storage but won't end up attached to anything, since this request will now fail."@,
        )
    }
}

/// What is said where files had been uploaded before one could not be.
pub fn warn_about_orphaned_prior_uploads(prior_successes: usize) -> (r: Option<String>)
    ensures
        opt_text(r) == orphan_note(prior_successes as nat),
{
    if prior_successes == 0 {
        return None;
    }
    let (files, were) = if prior_successes == 1 {
        ("file", "was")
    } else {
        ("files", "were")
    };
    Some(
        "Note: ".to_owned().concat(number_text(prior_successes as u128).as_str()).concat(
            " earlier ",
        ).concat(files).concat(" in this --file batch ").concat(were).concat(
            " already uploaded to blob storage but won't end up attached to anything, since this request will now fail.",
        ),
    )
}

/// The lines that end a batch of uploads.
pub open spec fn failed(prior_successes: nat, message: Seq<char>) -> Seq<Seq<char>> {
    match orphan_note(prior_successes) {
        Some(note) => seq![message, note],
        None => seq![message],
    }
}

/// The lines that end a batch of uploads: what went wrong, and what became of
/// the files before.
pub fn fail(prior_successes: usize, message: String) -> (r: Vec<String>)
    ensures
        texts(r@) == failed(prior_successes as nat, message@),
{
    let mut lines: Vec<String> = Vec::new();
    lines.push(message);
    if let Some(note) = warn_about_orphaned_prior_uploads(prior_successes) {
        lines.push(note);
    }
    assert(texts(lines@) =~= failed(prior_successes as nat, message@));
    lines
}

/// The attachments that hold one file. They would need an object where the
/// uploads of a batch make a list.
pub open spec fn holds_one(relationship: Seq<char>) -> bool {
    ||| relationship == "logo"@
    ||| relationship == "source"@
    ||| relationship == "icon"@
    ||| relationship == "export"@
    ||| relationship == "data_agreement"@
    ||| relationship == "soc2_report"@
    ||| relationship == "iso27001_report"@
    ||| relationship == "security_questionnaire"@
    ||| relationship == "privacy_policy_document"@
    ||| relationship == "terms_of_use_document"@
}

pub open spec fn holds_one_message(relationship: Seq<char>) -> Seq<char> {
    "Error: \""@ + relationship
        + "\" is a single-file (has_one) attachment - it needs a single object, not the array this generic --file path builds. Not yet supported; ask for it if you need it."@
}

/// The ids of the files uploaded for a relationship, in the order of the
/// uploads.
pub open spec fn ids_of(records: PairsView, relationship: Seq<char>) -> Seq<Seq<char>>
    decreases records.len(),
{
    if records.len() == 0 {
        Seq::empty()
    } else {
        let rest = ids_of(records.drop_last(), relationship);
        if records.last().0 == relationship {
            rest.push(records.last().1)
        } else {
            rest
        }
    }
}

/// The relationships that files were uploaded for, each once and in order.
pub open spec fn relationships_in(records: PairsView) -> Seq<Seq<char>>
    decreases records.len(),
{
    if records.len() == 0 {
        Seq::empty()
    } else {
        insert_key(relationships_in(records.drop_last()), records.last().0)
    }
}

/// A reference to an uploaded file.
pub open spec fn blob_reference(id: Seq<char>) -> JsonView {
    JsonView::Object(
        seq![("type"@, JsonView::Text("active_storage_blobs"@)), ("id"@, JsonView::Text(id))],
    )
}

/// What a relationship to these files is.
pub open spec fn blob_references(ids: Seq<Seq<char>>) -> JsonView {
    JsonView::Object(
        seq![("data"@, JsonView::Array(Seq::new(ids.len(), |i: int| blob_reference(ids[i]))))],
    )
}

/// The relationships of a batch of uploads.
pub open spec fn relationship_fields(records: PairsView) -> FieldsView {
    let keys = relationships_in(records);
    Seq::new(keys.len(), |i: int| (keys[i], blob_references(ids_of(records, keys[i]))))
}

/// A batch of uploads: the relationship and the id of each file uploaded so
/// far.
pub struct UploadBatch {
    records: Vec<(String, String)>,
}

impl View for UploadBatch {
    type V = PairsView;

    closed spec fn view(&self) -> PairsView {
        text_pairs(self.records@)
    }
}

impl UploadBatch {
    pub fn new() -> (r: UploadBatch)
        ensures
            r@ == PairsView::empty(),
    {
        let r = UploadBatch { records: Vec::new() };
        assert(r@ =~= PairsView::empty());
        r
    }

    /// How many files have been uploaded.
    pub fn successes(&self) -> (r: usize)
        ensures
            r == self@.len(),
    {
        self.records.len()
    }

    /// Refuses a file for an attachment that holds one, with the lines that
    /// end the batch.
    pub fn check_relationship(&self, relationship: &str) -> (r: Result<(), Vec<String>>)
        ensures
            match r {
                Ok(_) => !holds_one(relationship@),
                Err(lines) => holds_one(relationship@) && texts(lines@) == failed(
                    self@.len(),
                    holds_one_message(relationship@),
                ),
            },
    {
        if same(relationship, "logo") || same(relationship, "source") || same(relationship, "icon")
            || same(relationship, "export") || same(relationship, "data_agreement") || same(
            relationship,
            "soc2_report",
        ) || same(relationship, "iso27001_report") || same(relationship, "security_questionnaire")
            || same(relationship, "privacy_policy_document") || same(
            relationship,
            "terms_of_use_document",
        ) {
            let message = "Error: \"".to_owned().concat(relationship).concat(
                "\" is a single-file (has_one) attachment - it needs a single object, not the array this generic --file path builds. Not yet supported; ask for it if you need it.",
            );
            Err(fail(self.records.len(), message))
        } else {
            Ok(())
        }
    }

    /// Notes an uploaded file.
    pub fn record(&mut self, relationship: &str, signed_id: &str)
        ensures
            final(self)@ == old(self)@.push((relationship@, signed_id@)),
    {
        self.records.push((relationship.to_owned(), signed_id.to_owned()));
        assert(self@ =~= old(self)@.push((relationship@, signed_id@)));
    }

    fn references(&self, relationship: &str) -> (r: Json)
        ensures
            r@ == blob_references(ids_of(self@, relationship@)),
    {
        let ghost all = text_pairs(self.records@);
        let ghost mut ids: Seq<Seq<char>> = Seq::empty();
        let mut items: Vec<Json> = Vec::new();
        let mut i: usize = 0;
        while i < self.records.len()
            invariant
                i <= self.records@.len(),
                all == text_pairs(self.records@),
                ids == ids_of(all.take(i as int), relationship@),
                items_view(items@) == Seq::new(ids.len(), |i: int| blob_reference(ids[i])),
            decreases self.records@.len() - i,
        {
            assert(all.take(i + 1).drop_last() =~= all.take(i as int));
            if same(self.records[i].0.as_str(), relationship) {
                let id = self.records[i].1.as_str();
                let fields = and_field(no_fields(), "type", text("active_storage_blobs"));
                let fields = and_field(fields, "id", text(id));
                assert(fields_view(fields@) =~= seq![
                    ("type"@, JsonView::Text("active_storage_blobs"@)),
                    ("id"@, JsonView::Text(id@)),
                ]);
                let item = object(fields);
                let ghost before = items@;
                items.push(item);
                proof {
                    assert(item@ == blob_reference(id@));
                    assert(items_view(items@) =~= items_view(before).push(item@));
                    let more = ids.push(id@);
                    assert(items_view(items@) =~= Seq::new(
                        more.len(),
                        |i: int| blob_reference(more[i]),
                    ));
                    ids = more;
                }
            }
            i = i + 1;
        }
        assert(all.take(i as int) =~= all);
        let list = Json::Array(items);
        proof {
            list.lemma_view();
        }
        object(and_field(no_fields(), "data", list))
    }

    /// The relationships of the batch as the API takes them: the files of each
    /// in the order of their uploads, the relationships in the order of their
    /// names.
    pub fn build_relationships(&self) -> (r: Json)
        ensures
            r@ == JsonView::Object(relationship_fields(self@)),
    {
        let ghost all = text_pairs(self.records@);
        let mut keys: Vec<String> = Vec::new();
        assert(texts(keys@) =~= Seq::empty());
        let mut i: usize = 0;
        while i < self.records.len()
            invariant
                i <= self.records@.len(),
                all == text_pairs(self.records@),
                in_order(texts(keys@)),
                texts(keys@) == relationships_in(all.take(i as int)),
            decreases self.records@.len() - i,
        {
            assert(all.take(i + 1).drop_last() =~= all.take(i as int));
            add_key(&mut keys, self.records[i].0.as_str());
            i = i + 1;
        }
        assert(all.take(i as int) =~= all);
        let mut fields = no_fields();
        let mut n: usize = 0;
        while n < keys.len()
            invariant
                n <= keys@.len(),
                texts(keys@) == relationships_in(self@),
                fields_view(fields@) == relationship_fields(self@).take(n as int),
            decreases keys@.len() - n,
        {
            let refs = self.references(keys[n].as_str());
            assert(texts(keys@)[n as int] == keys@[n as int]@);
            fields = and_field(fields, keys[n].as_str(), refs);
            assert(relationship_fields(self@).take(n + 1) =~= relationship_fields(self@).take(
                n as int,
            ).push(relationship_fields(self@)[n as int]));
            n = n + 1;
        }
        assert(relationship_fields(self@).take(n as int) =~= relationship_fields(self@));
        object(fields)
    }
}

/// What is done next in a batch.
pub enum BatchNext {
    /// Upload this file for this relationship.
    Upload { relationship: String, path: String },
    /// The batch has failed; these lines say why.
    Fail(Vec<String>),
    /// Every file is uploaded; these relationships attach them.
    Attach(Json),
}

pub enum BatchNextView {
    Upload { relationship: Seq<char>, path: Seq<char> },
    Fail(Seq<Seq<char>>),
    Attach(JsonView),
}

impl View for BatchNext {
    type V = BatchNextView;

    open spec fn view(&self) -> BatchNextView {
        match self {
            BatchNext::Upload { relationship, path } => BatchNextView::Upload {
                relationship: relationship@,
                path: path@,
            },
            BatchNext::Fail(lines) => BatchNextView::Fail(texts(lines@)),
            BatchNext::Attach(json) => BatchNextView::Attach(json@),
        }
    }
}

/// What is done next about `files`, each a relationship and a path, once
/// `records` have been uploaded: they go one by one, and the first that cannot
/// be attached ends the batch.
pub open spec fn batch_next(records: PairsView, files: PairsView) -> BatchNextView {
    if records.len() >= files.len() {
        BatchNextView::Attach(JsonView::Object(relationship_fields(records)))
    } else {
        let file = files[records.len() as int];
        if holds_one(file.0) {
            BatchNextView::Fail(failed(records.len(), holds_one_message(file.0)))
        } else {
            BatchNextView::Upload { relationship: file.0, path: file.1 }
        }
    }
}

impl UploadBatch {
    /// What is done next about these files.
    pub fn next(&self, files: &[(String, String)]) -> (r: BatchNext)
        ensures
            r@ == batch_next(self@, text_pairs(files@)),
    {
        if self.records.len() >= files.len() {
            return BatchNext::Attach(self.build_relationships());
        }
        let file = &files[self.records.len()];
        match self.check_relationship(file.0.as_str()) {
            Ok(_) => BatchNext::Upload { relationship: file.0.clone(), path: file.1.clone() },
            Err(lines) => BatchNext::Fail(lines),
        }
    }
}

/// A batch in which each file was uploaded in its turn ends with every one of
/// them attached: the id that the file got is among those of its relationship.
pub proof fn law_whole_batch_is_attached(records: PairsView, files: PairsView, i: int)
    requires
        records.len() == files.len(),
        forall|j: int| 0 <= j < files.len() ==> (#[trigger] records[j]).0 == files[j].0,
        0 <= i < files.len(),
    ensures
        batch_next(records, files) == BatchNextView::Attach(
            JsonView::Object(relationship_fields(records)),
        ),
        ids_of(records, files[i].0).contains(records[i].1),
        lookup(relationship_fields(records), files[i].0) == Some(
            blob_references(ids_of(records, files[i].0)),
        ),
{
    lemma_id_among(records, i);
    law_every_upload_is_attached(records, files[i].0);
}

proof fn lemma_id_among(records: PairsView, i: int)
    requires
        0 <= i < records.len(),
    ensures
        ids_of(records, records[i].0).contains(records[i].1),
    decreases records.len(),
{
    let key = records[i].0;
    let rest = records.drop_last();
    if i < rest.len() {
        lemma_id_among(rest, i);
        let n = ids_of(rest, key).index_of(records[i].1);
        assert(ids_of(records, key)[n] == records[i].1);
    } else {
        let ids = ids_of(records, key);
        assert(ids[ids.len() - 1] == records[i].1);
    }
}

/// The relationships that files were uploaded for stand in the order of their
/// names, and there are no others.
pub proof fn law_relationships_in_order(records: PairsView)
    ensures
        in_order(relationships_in(records)),
        forall|k: Seq<char>|
            #[trigger] relationships_in(records).contains(k) == (exists|i: int|
                0 <= i < records.len() && (#[trigger] records[i]).0 == k),
    decreases records.len(),
{
    if records.len() > 0 {
        let rest = records.drop_last();
        law_relationships_in_order(rest);
        law_insert_key(relationships_in(rest), records.last().0);
        assert forall|k: Seq<char>|
            #[trigger] relationships_in(records).contains(k) == (exists|i: int|
                0 <= i < records.len() && (#[trigger] records[i]).0 == k) by {
            if relationships_in(rest).contains(k) {
                let i = choose|i: int| 0 <= i < rest.len() && (#[trigger] rest[i]).0 == k;
                assert(records[i].0 == k);
            }
            if k == records.last().0 {
                assert(records[records.len() - 1].0 == k);
            }
            if exists|i: int| 0 <= i < records.len() && (#[trigger] records[i]).0 == k {
                let i = choose|i: int| 0 <= i < records.len() && (#[trigger] records[i]).0 == k;
                if i < records.len() - 1 {
                    assert(rest[i].0 == k);
                }
            }
        }
    }
}

/// Every file that was uploaded for a relationship is attached through it, in
/// the order of the uploads, and a relationship without uploads is not
/// mentioned.
pub proof fn law_every_upload_is_attached(records: PairsView, relationship: Seq<char>)
    ensures
        lookup(relationship_fields(records), relationship) == (if ids_of(records, relationship).len()
            > 0 {
            Some(blob_references(ids_of(records, relationship)))
        } else {
            None
        }),
{
    let fields = relationship_fields(records);
    let keys = relationships_in(records);
    law_relationships_in_order(records);
    lemma_ids_present(records, relationship);
    if keys.contains(relationship) {
        let i = keys.index_of(relationship);
        assert forall|j: int| 0 <= j < i implies (#[trigger] fields[j]).0 != relationship by {
            crate::order::lemma_precedes_total(keys[j], keys[i]);
        }
        crate::json::lemma_lookup_at(fields, relationship, i);
    } else {
        assert forall|j: int| 0 <= j < fields.len() implies (#[trigger] fields[j]).0
            != relationship by {
            assert(keys.contains(keys[j]));
        }
        crate::json::lemma_lookup_at(fields, relationship, fields.len() as int);
    }
}

proof fn lemma_ids_present(records: PairsView, relationship: Seq<char>)
    ensures
        (ids_of(records, relationship).len() > 0) == (exists|i: int|
            0 <= i < records.len() && (#[trigger] records[i]).0 == relationship),
    decreases records.len(),
{
    if records.len() > 0 {
        let rest = records.drop_last();
        lemma_ids_present(rest, relationship);
        if records.last().0 == relationship {
            assert(records[records.len() - 1].0 == relationship);
        } else if exists|i: int|
            0 <= i < records.len() && (#[trigger] records[i]).0 == relationship {
            let i = choose|i: int|
                0 <= i < records.len() && (#[trigger] records[i]).0 == relationship;
            assert(rest[i].0 == relationship);
        } else if ids_of(rest, relationship).len() > 0 {
            let i = choose|i: int| 0 <= i < rest.len() && (#[trigger] rest[i]).0 == relationship;
            assert(records[i].0 == relationship);
        }
    }
}

/// Only a URL of http or https whose host is not known to be private gets a
/// file, and http only where that was asked for.
pub proof fn law_files_leave_safely(
    fields: (Seq<char>, JsonView, Seq<char>),
    parsed: Option<UrlView>,
    force_insecure: bool,
)
    ensures
        ticket(fields, parsed, force_insecure).0 is Ok <==> (parsed is Some && host_refusal(
            parsed->0.host,
        ) is None && (parsed->0.scheme == "https"@ || (parsed->0.scheme == "http"@
            && force_insecure))),
{
    reveal_strlit("http");
    reveal_strlit("https");
    assert("http"@.len() != "https"@.len());
}

/// Only headers of the list are passed on.
pub proof fn law_only_listed_headers_are_passed_on(fields: FieldsView, i: int)
    requires
        0 <= i < headers_in(fields).len(),
    ensures
        passed_on(headers_in(fields)[i].0),
    decreases fields.len(),
{
    if fields.len() > 0 {
        let rest = headers_in(fields.drop_last());
        if i < rest.len() {
            law_only_listed_headers_are_passed_on(fields.drop_last(), i);
        }
    }
}

/// Each header of the answer is sent to the storage with its value where its
/// name, whatever its case, is one that the storage checks or signs, and it is
/// a text; no other header is sent, and their order stays. One that should have
/// been a text is told of.
pub proof fn law_each_header(fields: FieldsView, name: Seq<char>, value: JsonView)
    ensures
        ({
            let k = lower(name);
            let listed = k == "content-type"@ || k == "content-md5"@
                || k == "content-disposition"@ || k == "x-amz-checksum-crc32"@
                || k == "x-amz-checksum-crc32c"@ || k == "x-amz-checksum-sha256"@
                || k == "x-amz-content-sha256"@ || k == "x-amz-sdk-checksum-algorithm"@
                || starts_with(k, "x-goog-"@) || starts_with(k, "x-ms-"@);
            let after = fields.push((name, value));
            &&& listed && value is Text ==> headers_in(after) == headers_in(fields).push(
                (name, value->Text_0),
            )
            &&& !listed || !(value is Text) ==> headers_in(after) == headers_in(fields)
            &&& listed && !(value is Text) ==> header_warnings(after).len() == header_warnings(
                fields,
            ).len() + 1
            &&& !listed || value is Text ==> header_warnings(after) == header_warnings(fields)
        }),
        headers_in(Seq::empty()).len() == 0,
        header_warnings(Seq::empty()).len() == 0,
{
    assert(fields.push((name, value)).drop_last() =~= fields);
}

/// Every header that the storage checks or signs arrives there with its value,
/// and nothing arrives that was not in the answer.
pub proof fn law_listed_headers_arrive(fields: FieldsView, i: int, h: (Seq<char>, Seq<char>))
    ensures
        0 <= i < fields.len() && fields[i].1 is Text && ({
            let k = lower(fields[i].0);
            k == "content-type"@ || k == "content-md5"@ || k == "content-disposition"@
                || k == "x-amz-checksum-crc32"@ || k == "x-amz-checksum-crc32c"@
                || k == "x-amz-checksum-sha256"@ || k == "x-amz-content-sha256"@
                || k == "x-amz-sdk-checksum-algorithm"@ || starts_with(k, "x-goog-"@)
                || starts_with(k, "x-ms-"@)
        }) ==> headers_in(fields).contains((fields[i].0, fields[i].1->Text_0)),
        headers_in(fields).contains(h) ==> fields.contains((h.0, JsonView::Text(h.1))),
    decreases fields.len(),
{
    if fields.len() > 0 {
        let rest = fields.drop_last();
        let all = headers_in(fields);
        let some = headers_in(rest);
        law_listed_headers_arrive(rest, i, h);
        law_each_header(rest, fields.last().0, fields.last().1);
        assert(rest.push(fields.last()) =~= fields);
        if 0 <= i < fields.len() && fields[i].1 is Text {
            let mine = (fields[i].0, fields[i].1->Text_0);
            if i < rest.len() {
                assert(rest[i] == fields[i]);
                if some.contains(mine) {
                    let j = choose|j: int| 0 <= j < some.len() && some[j] == mine;
                    assert(all[j] == mine);
                }
            } else if all == some.push(mine) {
                assert(all[some.len() as int] == mine);
            }
        }
        if all.contains(h) {
            let j = choose|j: int| 0 <= j < all.len() && all[j] == h;
            if j < some.len() {
                assert(some[j] == h);
                let n = choose|n: int|
                    0 <= n < rest.len() && rest[n] == (h.0, JsonView::Text(h.1));
                assert(fields[n] == (h.0, JsonView::Text(h.1)));
            } else {
                assert(fields[fields.len() - 1] == (h.0, JsonView::Text(h.1)));
            }
        }
    }
}

/// The headers of an upload are those that its description lists.
pub proof fn law_headers_come_from_the_answer(upload: JsonView)
    ensures
        field(upload, "headers"@) matches Some(JsonView::Object(fields)) ==> upload_headers(
            upload,
        ).0 == headers_in(fields) && upload_headers(upload).1 == header_warnings(fields),
        field(upload, "headers"@) is None ==> upload_headers(upload).0.len() == 0 && upload_headers(
            upload,
        ).1.len() == 0,
        field(upload, "headers"@) matches Some(v) && !(v is Object) ==> upload_headers(
            upload,
        ).0.len() == 0 && upload_headers(upload).1.len() == 1,
{
}

/// A ticket is the id, the URL and the headers of the answer; plain text on the
/// wire is warned of, and nothing else is but odd headers.
pub proof fn law_ticket_is_the_answer(
    fields: (Seq<char>, JsonView, Seq<char>),
    parsed: Option<UrlView>,
    force_insecure: bool,
)
    ensures
        ticket(fields, parsed, force_insecure).0 matches Ok(t) ==> {
            &&& t.signed_id == fields.0
            &&& t.url == fields.2
            &&& t.headers == upload_headers(fields.1).0
            &&& parsed->0.scheme == "https"@ ==> ticket(fields, parsed, force_insecure).1
                == upload_headers(fields.1).1
            &&& parsed->0.scheme == "http"@ ==> ticket(fields, parsed, force_insecure).1 == seq![
                "Warning: direct upload URL is non-TLS (http://); file bytes will be transmitted in plaintext."@,
            ] + upload_headers(fields.1).1
        },
{
    reveal_strlit("http");
    reveal_strlit("https");
    assert("http"@.len() != "https"@.len());
    assert(Seq::<Seq<char>>::empty() + upload_headers(fields.1).1 =~= upload_headers(fields.1).1);
}

/// An answer with an id, a description and a URL leads to the ticket that they
/// are; an answer without one of them, or a refusal, leads to none.
pub proof fn law_answers_grant_tickets(
    r: ResponseView,
    bin: Seq<char>,
    compact: Seq<char>,
    force_insecure: bool,
    id: Seq<char>,
    upload: JsonView,
    url: Seq<char>,
)
    ensures
        success(r) && r.kind == BodyKind::Json && field(r.body, "signed_id"@) == Some(
            JsonView::Text(id),
        ) && field(r.body, "direct_upload"@) == Some(upload) && field(upload, "url"@) == Some(
            JsonView::Text(url),
        ) ==> granted(r, bin, compact, force_insecure) == ticket(
            (id, upload, url),
            url_of(url),
            force_insecure,
        ),
        granted(r, bin, compact, force_insecure).0 matches Ok(t) ==> {
            &&& success(r) && r.kind == BodyKind::Json
            &&& field(r.body, "signed_id"@) == Some(JsonView::Text(t.signed_id))
            &&& field(r.body, "direct_upload"@) matches Some(d)
            &&& field(d, "url"@) == Some(JsonView::Text(t.url))
        },
{
}

/// An upload is announced to the API itself, as JSON and with what is said of
/// the file.
pub proof fn law_uploads_are_announced(c: ClientView, blob: JsonView)
    ensures
        announcement(c, blob) matches Ok(p) ==> {
            &&& p.0.method == HttpMethod::Post
            &&& p.0.url == base_of(c) + "/rails/active_storage/direct_uploads"@
            &&& p.0.body == RequestBodyView::Json(blob)
            &&& p.0.headers == auth_headers(c) + seq![("Content-Type"@, "application/json"@)]
                || p.0.headers == seq![("Content-Type"@, "application/json"@)]
            &&& p.1 is None ==> p.0.headers == auth_headers(c) + seq![
                ("Content-Type"@, "application/json"@),
            ]
        },
        announcement(c, blob) is Ok <==> (starts_with(
            base_of(c) + "/rails/active_storage/direct_uploads"@,
            "https://"@,
        ) || starts_with(base_of(c) + "/rails/active_storage/direct_uploads"@, "http://"@)) && origins(
            url_of(base_of(c)),
            url_of(base_of(c) + "/rails/active_storage/direct_uploads"@),
        ) != OriginCheck::ParseError,
{
    law_posts_go_out_as_given(
        c,
        setup_url(base_of(c)),
        setup_headers(),
        RequestBodyView::Json(blob),
        origins(url_of(base_of(c)), url_of(setup_url(base_of(c)))),
    );
}

/// A file name ends with its extension: what follows the last dot, unless the
/// name begins with that dot.
pub proof fn law_extensions(stem: Seq<char>, ext: Seq<char>)
    requires
        !ext.contains('.'),
    ensures
        stem.len() > 0 && ext.len() > 0 ==> extension(stem + seq!['.'] + ext) == Some(ext),
        extension(seq!['.'] + ext) is None,
        extension(ext) is None,
{
    let name = stem + seq!['.'] + ext;
    let hidden = seq!['.'] + ext;
    law_last_place(name, '.');
    law_last_place(hidden, '.');
    law_last_place(ext, '.');
    assert(name[stem.len() as int] == '.');
    assert(hidden[0] == '.');
    let i = last_of(name, '.');
    if i > stem.len() {
        assert(name[i] == ext[i - stem.len() - 1]);
        assert(ext.contains(ext[i - stem.len() - 1]));
    }
    if i < stem.len() {
        assert(name[stem.len() as int] != '.');
    }
    assert(name.skip(i + 1) =~= ext);
    if last_of(hidden, '.') > 0 {
        assert(hidden[last_of(hidden, '.')] == ext[last_of(hidden, '.') - 1]);
        assert(ext.contains(ext[last_of(hidden, '.') - 1]));
    }
    if last_of(ext, '.') >= 0 {
        assert(ext.contains(ext[last_of(ext, '.')]));
    }
    reveal_strlit("..");
    if stem.len() > 0 && ext.len() > 0 {
        assert(name.len() >= 3);
    }
}

/// The file types that are taken, by extension, whatever its case; no other
/// extension is taken.
#[verifier::rlimit(60)]
pub proof fn law_file_types(ext: Seq<char>)
    ensures
        lower(ext) == "png"@ ==> mime_type(ext) == Some("image/png"@),
        lower(ext) == "jpg"@ ==> mime_type(ext) == Some("image/jpeg"@),
        lower(ext) == "jpeg"@ ==> mime_type(ext) == Some("image/jpeg"@),
        lower(ext) == "webp"@ ==> mime_type(ext) == Some("image/webp"@),
        lower(ext) == "gif"@ ==> mime_type(ext) == Some("image/gif"@),
        lower(ext) == "svg"@ ==> mime_type(ext) == Some("image/svg+xml"@),
        lower(ext) == "bmp"@ ==> mime_type(ext) == Some("image/bmp"@),
        lower(ext) == "tif"@ ==> mime_type(ext) == Some("image/tiff"@),
        lower(ext) == "tiff"@ ==> mime_type(ext) == Some("image/tiff"@),
        lower(ext) == "pdf"@ ==> mime_type(ext) == Some("application/pdf"@),
        lower(ext) == "json"@ ==> mime_type(ext) == Some("application/json"@),
        lower(ext) == "xml"@ ==> mime_type(ext) == Some("application/xml"@),
        lower(ext) == "zip"@ ==> mime_type(ext) == Some("application/zip"@),
        lower(ext) == "xlsx"@ ==> mime_type(ext) == Some("application/vnd.openxmlformats-officedocument.spreadsheetml.sheet"@),
        lower(ext) == "xls"@ ==> mime_type(ext) == Some("application/vnd.ms-excel"@),
        lower(ext) == "csv"@ ==> mime_type(ext) == Some("text/csv"@),
        lower(ext) == "md"@ ==> mime_type(ext) == Some("text/markdown"@),
        lower(ext) == "txt"@ ==> mime_type(ext) == Some("text/plain"@),
        mime_type(ext) is Some <==> lower(ext) == "png"@
            || lower(ext) == "jpg"@
            || lower(ext) == "jpeg"@
            || lower(ext) == "webp"@
            || lower(ext) == "gif"@
            || lower(ext) == "svg"@
            || lower(ext) == "bmp"@
            || lower(ext) == "tif"@
            || lower(ext) == "tiff"@
            || lower(ext) == "pdf"@
            || lower(ext) == "json"@
            || lower(ext) == "xml"@
            || lower(ext) == "zip"@
            || lower(ext) == "xlsx"@
            || lower(ext) == "xls"@
            || lower(ext) == "csv"@
            || lower(ext) == "md"@
            || lower(ext) == "txt"@,
{
    reveal_strlit("png");
    reveal_strlit("jpg");
    reveal_strlit("jpeg");
    reveal_strlit("webp");
    reveal_strlit("gif");
    reveal_strlit("svg");
    reveal_strlit("bmp");
    reveal_strlit("tif");
    reveal_strlit("tiff");
    reveal_strlit("pdf");
    reveal_strlit("json");
    reveal_strlit("xml");
    reveal_strlit("zip");
    reveal_strlit("xlsx");
    reveal_strlit("xls");
    reveal_strlit("csv");
    reveal_strlit("md");
    reveal_strlit("txt");
    assert("png"@ =~= seq!['p', 'n', 'g']);
    assert(lower("png"@) =~= "png"@);
    assert("jpg"@ =~= seq!['j', 'p', 'g']);
    assert(lower("jpg"@) =~= "jpg"@);
    assert("jpeg"@ =~= seq!['j', 'p', 'e', 'g']);
    assert(lower("jpeg"@) =~= "jpeg"@);
    assert("webp"@ =~= seq!['w', 'e', 'b', 'p']);
    assert(lower("webp"@) =~= "webp"@);
    assert("gif"@ =~= seq!['g', 'i', 'f']);
    assert(lower("gif"@) =~= "gif"@);
    assert("svg"@ =~= seq!['s', 'v', 'g']);
    assert(lower("svg"@) =~= "svg"@);
    assert("bmp"@ =~= seq!['b', 'm', 'p']);
    assert(lower("bmp"@) =~= "bmp"@);
    assert("tif"@ =~= seq!['t', 'i', 'f']);
    assert(lower("tif"@) =~= "tif"@);
    assert("tiff"@ =~= seq!['t', 'i', 'f', 'f']);
    assert(lower("tiff"@) =~= "tiff"@);
    assert("pdf"@ =~= seq!['p', 'd', 'f']);
    assert(lower("pdf"@) =~= "pdf"@);
    assert("json"@ =~= seq!['j', 's', 'o', 'n']);
    assert(lower("json"@) =~= "json"@);
    assert("xml"@ =~= seq!['x', 'm', 'l']);
    assert(lower("xml"@) =~= "xml"@);
    assert("zip"@ =~= seq!['z', 'i', 'p']);
    assert(lower("zip"@) =~= "zip"@);
    assert("xlsx"@ =~= seq!['x', 'l', 's', 'x']);
    assert(lower("xlsx"@) =~= "xlsx"@);
    assert("xls"@ =~= seq!['x', 'l', 's']);
    assert(lower("xls"@) =~= "xls"@);
    assert("csv"@ =~= seq!['c', 's', 'v']);
    assert(lower("csv"@) =~= "csv"@);
    assert("md"@ =~= seq!['m', 'd']);
    assert(lower("md"@) =~= "md"@);
    assert("txt"@ =~= seq!['t', 'x', 't']);
    assert(lower("txt"@) =~= "txt"@);
}

/// A file is read exactly where it is an ordinary one and not above the limit
/// of 26 MiB.
pub proof fn law_files_that_are_read(path: Seq<char>, regular: bool, length: u64)
    ensures
        file_refusal(path, regular, length) is None <==> regular && length <= 26 * 1024 * 1024,
{
}

/// What the API is told of a file: its name, its size, the checksum of its
/// bytes and its type. It is told exactly of files of a type that is taken and
/// not above the limit.
pub proof fn law_files_are_described(f: FileView, bytes: Seq<u8>)
    ensures
        prepared(f, bytes) is Ok <==> bytes.len() <= 26 * 1024 * 1024 && f.name is Some
            && content_type(f.name->0) is Some,
        prepared(f, bytes) matches Ok(told) ==> {
            &&& field(told, "blob"@) matches Some(b)
            &&& field(b, "filename"@) == Some(JsonView::Text(f.name->0))
            &&& field(b, "byte_size"@) == Some(
                JsonView::Number(NumberView::Unsigned(bytes.len() as u64)),
            )
            &&& field(b, "checksum"@) == Some(JsonView::Text(base64_standard(md5_of(bytes))))
            &&& field(b, "content_type"@) == Some(JsonView::Text(content_type(f.name->0)->0))
        },
{
    if prepared(f, bytes) is Ok {
        let n = f.name->0;
        let t = content_type(n)->0;
        let inner = blob(n, bytes.len(), base64_standard(md5_of(bytes)), t)->Object_0[0].1->Object_0;
        reveal_strlit("filename");
        reveal_strlit("byte_size");
        reveal_strlit("checksum");
        reveal_strlit("content_type");
        assert("filename"@.len() == 8 && "byte_size"@.len() == 9 && "checksum"@.len() == 8
            && "content_type"@.len() == 12);
        assert("filename"@[0] == 'f' && "checksum"@[0] == 'c');
        lemma_lookup_at(inner, "filename"@, 0);
        lemma_lookup_at(inner, "byte_size"@, 1);
        lemma_lookup_at(inner, "checksum"@, 2);
        lemma_lookup_at(inner, "content_type"@, 3);
    }
}

/// The name alone decides the type of a file, and a name without a type that
/// is taken has none.
pub proof fn law_types_follow_names(stem: Seq<char>, ext: Seq<char>)
    requires
        !ext.contains('.'),
        stem.len() > 0,
        ext.len() > 0,
    ensures
        content_type(stem + seq!['.'] + ext) == mime_type(ext),
        content_type(ext) is None,
{
    law_extensions(stem, ext);
}

/// The storage has a file exactly where it says so, and its refusal is told
/// with its status.
pub proof fn law_storage_failures_are_told(r: ResponseView, bin: Seq<char>, compact: Seq<char>)
    ensures
        storage_failure(r, bin, compact) is None <==> success(r),
        !success(r) && r.kind == BodyKind::Json ==> storage_failure(r, bin, compact) == Some(
            "File upload to blob storage failed with status "@ + decimal(r.status as nat) + ": "@
                + compact,
        ),
        !success(r) ==> storage_failure(r, bin, compact) == Some(
            "File upload to blob storage failed with status "@ + decimal(r.status as nat) + ": "@
                + detail_of(r.kind, bin, compact),
        ),
{
}

/// The attachments that hold one file and so take none of a list.
pub proof fn law_single_attachments(relationship: Seq<char>)
    ensures
        holds_one(relationship) <==> (relationship == "logo"@ || relationship == "source"@
            || relationship == "icon"@ || relationship == "export"@
            || relationship == "data_agreement"@ || relationship == "soc2_report"@
            || relationship == "iso27001_report"@ || relationship == "security_questionnaire"@
            || relationship == "privacy_policy_document"@
            || relationship == "terms_of_use_document"@),
{
}

/// Files go one by one and in order, none is left out, and they are attached
/// only when all of them are uploaded.
pub proof fn law_batch_goes_in_order(records: PairsView, files: PairsView)
    ensures
        records.len() < files.len() && !holds_one(files[records.len() as int].0) ==> batch_next(
            records,
            files,
        ) == (BatchNextView::Upload {
            relationship: files[records.len() as int].0,
            path: files[records.len() as int].1,
        }),
        records.len() < files.len() && holds_one(files[records.len() as int].0) ==> batch_next(
            records,
            files,
        ) is Fail,
        records.len() >= files.len() ==> batch_next(records, files) is Attach,
{
}

/// What was uploaded before a failure is counted, and told where there was any.
pub proof fn law_lost_uploads_are_counted(prior_successes: nat, message: Seq<char>)
    ensures
        failed(prior_successes, message).len() > 0 && failed(prior_successes, message)[0] == message,
        prior_successes == 0 ==> failed(prior_successes, message).len() == 1,
        prior_successes > 0 ==> failed(prior_successes, message).len() == 2 && starts_with(
            failed(prior_successes, message)[1],
            "Note: "@ + decimal(prior_successes) + " earlier file"@,
        ),
{
    if prior_successes > 0 {
        let start = "Note: "@ + decimal(prior_successes) + " earlier file"@;
        let note = orphan_note(prior_successes)->0;
        reveal_strlit(" earlier ");
        reveal_strlit("file");
        reveal_strlit("files");
        reveal_strlit(" earlier file");
        assert(" earlier file"@ =~= " earlier "@ + "file"@);
        assert("files"@.take(4) =~= "file"@);
        assert(note.take(start.len() as int) =~= start);
    }
}

/// A relationship refers to the files that were uploaded for it, each by its
/// id, in the order of the uploads.
pub proof fn law_references_are_the_ids(ids: Seq<Seq<char>>, i: int)
    requires
        0 <= i < ids.len(),
    ensures
        field(blob_references(ids), "data"@) matches Some(JsonView::Array(items)) && items.len()
            == ids.len() && field(items[i], "type"@) == Some(JsonView::Text("active_storage_blobs"@))
            && field(items[i], "id"@) == Some(JsonView::Text(ids[i])),
{
    let one = blob_reference(ids[i])->Object_0;
    reveal_strlit("type");
    reveal_strlit("id");
    assert("type"@.len() == 4 && "id"@.len() == 2);
    lemma_lookup_at(one, "type"@, 0);
    lemma_lookup_at(one, "id"@, 1);
    lemma_lookup_at(blob_references(ids)->Object_0, "data"@, 0);
}

/// An upload is added behind the earlier ones of its relationship, and to no
/// other.
pub proof fn law_each_upload_is_listed(
    records: PairsView,
    relationship: Seq<char>,
    id: Seq<char>,
    other: Seq<char>,
)
    ensures
        ids_of(records.push((relationship, id)), relationship) == ids_of(records, relationship).push(
            id,
        ),
        other != relationship ==> ids_of(records.push((relationship, id)), other) == ids_of(
            records,
            other,
        ),
        ids_of(Seq::empty(), other).len() == 0,
{
    assert(records.push((relationship, id)).drop_last() =~= records);
}

/// A file that is not taken is named, with its extension where it has one.
pub proof fn law_refused_files_are_named(f: FileView, bytes: Seq<u8>, ext: Seq<char>)
    ensures
        prepared(f, bytes) matches Err(e) ==> starts_with(e, f.path),
        f.name is Some && extension(f.name->0) == Some(ext) && f.extension_is_unicode && mime_type(
            ext,
        ) is None && bytes.len() <= 26 * 1024 * 1024 ==> (prepared(f, bytes) matches Err(e)
            && starts_with(e, f.path + " has an unrecognized file extension (."@ + ext + ")"@)),
        !(f.name is Some && extension(f.name->0) is Some) && bytes.len() <= 26 * 1024 * 1024
            ==> prepared(f, bytes) is Err,
{
    if prepared(f, bytes) is Err {
        let e = prepared(f, bytes)->Err_0;
        assert(e.take(f.path.len() as int) =~= f.path);
        let start = f.path + " has an unrecognized file extension (."@ + ext + ")"@;
        if f.name is Some && extension(f.name->0) == Some(ext) && f.extension_is_unicode
            && mime_type(ext) is None && bytes.len() <= 26 * 1024 * 1024 {
            assert(e == start + ACCEPTED_TYPES@);
            assert(e.take(start.len() as int) =~= start);
        }
    }
}

/// A URL that no file is sent to is told with the reason and the URL, and a
/// single attachment with its name.
pub proof fn law_refused_targets_are_named(
    url: Seq<char>,
    u: UrlView,
    force_insecure: bool,
    relationship: Seq<char>,
)
    ensures
        u.scheme == "https"@ && host_refusal(u.host) is Some ==> upload_url_check(
            url,
            Some(u),
            force_insecure,
        ).1 == Some(
            "Direct upload response returned a URL pointing at "@ + host_refusal(u.host)->0
                + ", refusing to upload to it: "@ + url,
        ),
        u.scheme != "https"@ && u.scheme != "http"@ ==> upload_url_check(
            url,
            Some(u),
            force_insecure,
        ).1 == Some("Direct upload response returned a non-http(s) upload URL: "@ + url),
        upload_url_check(url, None, force_insecure).1 is Some,
        holds_one_message(relationship) == "Error: \""@ + relationship
            + "\" is a single-file (has_one) attachment - it needs a single object, not the array this generic --file path builds. Not yet supported; ask for it if you need it."@,
{
    reveal_strlit("http");
    reveal_strlit("https");
    assert("http"@.len() != "https"@.len());
}

/// An answer that grants no upload is told with what is missing.
pub proof fn law_missing_parts_are_told(
    r: ResponseView,
    bin: Seq<char>,
    compact: Seq<char>,
    force_insecure: bool,
)
    ensures
        !success(r) ==> granted(r, bin, compact, force_insecure).0 == Err::<TicketView, Seq<char>>(
            "Direct upload setup failed ("@ + decimal(r.status as nat) + "): "@ + detail_of(
                r.kind,
                bin,
                compact,
            ),
        ),
        success(r) && r.kind == BodyKind::Json && !(field(r.body, "signed_id"@) matches Some(
            JsonView::Text(_),
        )) ==> granted(r, bin, compact, force_insecure).0 == Err::<TicketView, Seq<char>>(
            "Direct upload response missing signed_id"@,
        ),
        granted(r, bin, compact, force_insecure).0 is Err && ticket_fields(r, bin, compact) is Err
            ==> granted(r, bin, compact, force_insecure).1.len() == 0,
{
}

/// A file is hidden and without an extension exactly where its name is a dot and
/// then text without one.
pub proof fn law_hidden_files(name: Seq<char>, rest: Seq<char>)
    ensures
        is_dotfile(seq!['.'] + rest) <==> !rest.contains('.'),
        is_dotfile(name) ==> name[0] == '.' && name == seq!['.'] + name.skip(1),
        name.len() == 0 || name[0] != '.' ==> !is_dotfile(name),
{
    assert((seq!['.'] + rest).skip(1) =~= rest);
    if is_dotfile(name) {
        assert(name =~= seq!['.'] + name.skip(1));
    }
}

} // verus!
