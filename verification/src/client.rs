//! The requests that the API client sends.

use crate::address::{host_view, url_view, Host, ParsedUrl, UrlView};
use crate::json::{and_field, no_fields, object, Json, JsonView};
use crate::outside::{parse_url, quoted, quoted_text, url_of, wipe};
use crate::response::failure;
use crate::text::{
    all_in, begins_with, decimal, holds_char, law_trimmed_ends, number_text, only, opt_text, same, starts_with,
    text_pairs, trim_end, without_end, CharClass,
};
use vstd::prelude::*;
use vstd::string::*;

verus! {

/// The methods that an arbitrary path can be called with.
#[derive(Clone, Copy, Debug, PartialEq, Eq, Structural)]
pub enum HttpMethod {
    Get,
    Post,
    Patch,
    Put,
    Delete,
}

impl HttpMethod {
    pub open spec fn name(self) -> Seq<char> {
        match self {
            HttpMethod::Get => "GET"@,
            HttpMethod::Post => "POST"@,
            HttpMethod::Patch => "PATCH"@,
            HttpMethod::Put => "PUT"@,
            HttpMethod::Delete => "DELETE"@,
        }
    }

    /// A method that sends a body.
    pub open spec fn writes(self) -> bool {
        self is Post || self is Patch || self is Put
    }

    pub fn as_str(self) -> (r: &'static str)
        ensures
            r@ == self.name(),
    {
        match self {
            HttpMethod::Get => "GET",
            HttpMethod::Post => "POST",
            HttpMethod::Patch => "PATCH",
            HttpMethod::Put => "PUT",
            HttpMethod::Delete => "DELETE",
        }
    }

    /// Whether the method sends a body.
    pub fn has_body(self) -> (r: bool)
        ensures
            r == self.writes(),
    {
        match self {
            HttpMethod::Post | HttpMethod::Patch | HttpMethod::Put => true,
            _ => false,
        }
    }
}

/// The body of a request.
pub enum RequestBody {
    /// The request has none.
    Absent,
    /// The request has one, of no bytes.
    Empty,
    /// This value, written as JSON.
    Json(Json),
    /// These bytes.
    Bytes(Vec<u8>),
    /// This text, in UTF-8.
    Text(String),
}

pub enum RequestBodyView {
    Absent,
    Empty,
    Json(JsonView),
    Bytes(Seq<u8>),
    Text(Seq<char>),
}

impl View for RequestBody {
    type V = RequestBodyView;

    open spec fn view(&self) -> RequestBodyView {
        match self {
            RequestBody::Absent => RequestBodyView::Absent,
            RequestBody::Empty => RequestBodyView::Empty,
            RequestBody::Json(j) => RequestBodyView::Json(j@),
            RequestBody::Bytes(b) => RequestBodyView::Bytes(b@),
            RequestBody::Text(t) => RequestBodyView::Text(t@),
        }
    }
}

/// A request, ready to be sent. The query is not yet percent-encoded.
pub struct ApiRequest {
    pub method: HttpMethod,
    pub url: String,
    pub query: Vec<(String, String)>,
    pub headers: Vec<(String, String)>,
    pub body: RequestBody,
    pub follow_redirects: bool,
}

pub type PairsView = Seq<(Seq<char>, Seq<char>)>;

pub struct RequestView {
    pub method: HttpMethod,
    pub url: Seq<char>,
    pub query: PairsView,
    pub headers: PairsView,
    pub body: RequestBodyView,
    pub follow_redirects: bool,
}

impl View for ApiRequest {
    type V = RequestView;

    open spec fn view(&self) -> RequestView {
        RequestView {
            method: self.method,
            url: self.url@,
            query: text_pairs(self.query@),
            headers: text_pairs(self.headers@),
            body: self.body@,
            follow_redirects: self.follow_redirects,
        }
    }
}

pub open spec fn opt_owned(v: Option<Json>) -> Option<JsonView> {
    match v {
        Some(j) => Some(j@),
        None => None,
    }
}

pub open spec fn request_view(r: Result<ApiRequest, String>) -> Result<RequestView, Seq<char>> {
    match r {
        Ok(q) => Ok(q@),
        Err(e) => Err(e@),
    }
}

/// What a list is narrowed and ordered by.
pub struct ListParams {
    pub filters: Vec<(String, String)>,
    pub sort: Option<String>,
    pub related: Option<String>,
    pub fields: Option<(String, String)>,
    pub page_number: Option<u32>,
    pub page_size: Option<u32>,
}

pub struct ListView {
    pub filters: PairsView,
    pub sort: Option<Seq<char>>,
    pub related: Option<Seq<char>>,
    pub fields: Option<(Seq<char>, Seq<char>)>,
    pub page_number: Option<u32>,
    pub page_size: Option<u32>,
}

pub open spec fn opt_pair(v: Option<(String, String)>) -> Option<(Seq<char>, Seq<char>)> {
    match v {
        Some(p) => Some((p.0@, p.1@)),
        None => None,
    }
}

impl View for ListParams {
    type V = ListView;

    open spec fn view(&self) -> ListView {
        ListView {
            filters: text_pairs(self.filters@),
            sort: opt_text(self.sort),
            related: opt_text(self.related),
            fields: opt_pair(self.fields),
            page_number: self.page_number,
            page_size: self.page_size,
        }
    }
}

/// Why `value` cannot be part of a path; `name` is what it is called.
pub open spec fn segment_error(value: Seq<char>, name: Seq<char>) -> Option<Seq<char>> {
    if value.len() == 0 {
        Some("Error: "@ + name + " must not be empty."@)
    } else if !all_in(value, CharClass::PathSegment) {
        Some(
            "Error: invalid "@ + name + " "@ + quoted(value)
                + " - must contain only ASCII alphanumerics, hyphens, and underscores."@,
        )
    } else {
        None
    }
}

/// Why `value` cannot be what a list is sorted by or taken together with.
pub open spec fn query_error(value: Seq<char>, name: Seq<char>) -> Option<Seq<char>> {
    if value.len() == 0 {
        Some("Error: "@ + name + " must not be empty."@)
    } else if !all_in(value, CharClass::QueryValue) {
        Some(
            "Error: invalid "@ + name + " "@ + quoted(value)
                + " - must contain only ASCII alphanumerics, hyphens, underscores, dots, and commas."@,
        )
    } else {
        None
    }
}

/// Why a stored token cannot be sent; `bin` is the name of the program.
pub open spec fn token_error(token: Seq<char>, bin: Seq<char>) -> Option<Seq<char>> {
    if token.len() == 0 {
        Some("Stored token is empty - run `"@ + bin + " login` again."@)
    } else if !all_in(token, CharClass::Token) {
        Some("Stored token contains invalid characters - run `"@ + bin + " login` again."@)
    } else {
        None
    }
}

/// The client: where the API is, and the header that authenticates to it.
pub struct ApiClient {
    base_url: String,
    auth_header: Option<String>,
}

pub struct ClientView {
    pub base_url: Seq<char>,
    pub auth: Option<Seq<char>>,
}

impl View for ApiClient {
    type V = ClientView;

    closed spec fn view(&self) -> ClientView {
        ClientView { base_url: self.base_url@, auth: opt_text(self.auth_header) }
    }
}

/// The client for a server, or why the token cannot be sent.
pub open spec fn client_for(base_url: Seq<char>, token: Option<Seq<char>>, bin: Seq<char>) -> Result<
    ClientView,
    Seq<char>,
> {
    match token {
        None => Ok(ClientView { base_url, auth: None }),
        Some(t) => match token_error(t, bin) {
            None => Ok(ClientView { base_url, auth: Some("Bearer "@ + t) }),
            Some(e) => Err(e),
        },
    }
}

pub open spec fn client_result(r: Result<ApiClient, String>) -> Result<ClientView, Seq<char>> {
    match r {
        Ok(c) => Ok(c@),
        Err(e) => Err(e@),
    }
}

/// The base URL without trailing slashes.
pub open spec fn base_of(c: ClientView) -> Seq<char> {
    trim_end(c.base_url, CharClass::Is('/'))
}

/// The headers that authenticate.
pub open spec fn auth_headers(c: ClientView) -> PairsView {
    match c.auth {
        Some(a) => seq![("Authorization"@, a)],
        None => Seq::empty(),
    }
}

/// The header that the API wants on every write.
pub open spec fn json_header() -> (Seq<char>, Seq<char>) {
    ("Content-Type"@, "application/vnd.api+json"@)
}

/// How many of the filters have this key.
pub open spec fn times(filters: PairsView, key: Seq<char>) -> nat
    decreases filters.len(),
{
    if filters.len() == 0 {
        0
    } else {
        times(filters.drop_last(), key) + (if filters.last().0 == key {
            1nat
        } else {
            0nat
        })
    }
}

/// The query key of a filter: an array where the filter is given repeatedly.
pub open spec fn filter_key(filters: PairsView, key: Seq<char>) -> Seq<char> {
    if times(filters, key) > 1 {
        "filter["@ + key + "][]"@
    } else {
        "filter["@ + key + "]"@
    }
}

/// The filters as query parameters, in their order.
pub open spec fn filter_query(filters: PairsView) -> PairsView {
    Seq::new(filters.len(), |i: int| (filter_key(filters, filters[i].0), filters[i].1))
}

/// What is wrong with the first filter key that is wrong.
pub open spec fn filters_error(filters: PairsView) -> Option<Seq<char>>
    decreases filters.len(),
{
    if filters.len() == 0 {
        None
    } else {
        match filters_error(filters.drop_last()) {
            Some(e) => Some(e),
            None => segment_error(filters.last().0, "filter key"@),
        }
    }
}

pub open spec fn opt_query_error(value: Option<Seq<char>>, name: Seq<char>) -> Option<Seq<char>> {
    match value {
        Some(v) => query_error(v, name),
        None => None,
    }
}

pub open spec fn fields_error(fields: Option<(Seq<char>, Seq<char>)>) -> Option<Seq<char>> {
    match fields {
        Some(f) => segment_error(f.0, "fields type"@),
        None => None,
    }
}

/// The first failure of a chain of checks.
pub open spec fn first_error(a: Option<Seq<char>>, b: Option<Seq<char>>) -> Option<Seq<char>> {
    match a {
        Some(e) => Some(e),
        None => b,
    }
}

pub open spec fn opt_param(key: Seq<char>, value: Option<Seq<char>>) -> PairsView {
    match value {
        Some(v) => seq![(key, v)],
        None => Seq::empty(),
    }
}

pub open spec fn fields_param(fields: Option<(Seq<char>, Seq<char>)>) -> PairsView {
    match fields {
        Some(f) => seq![("fields["@ + f.0 + "]"@, f.1)],
        None => Seq::empty(),
    }
}

pub open spec fn page_param(key: Seq<char>, n: Option<u32>) -> PairsView {
    match n {
        Some(n) => seq![(key, decimal(n as nat))],
        None => Seq::empty(),
    }
}

/// What stops a list request.
pub open spec fn list_error(resource: Seq<char>, p: ListView) -> Option<Seq<char>> {
    first_error(
        segment_error(resource, "resource"@),
        first_error(
            filters_error(p.filters),
            first_error(
                opt_query_error(p.sort, "sort"@),
                first_error(opt_query_error(p.related, "include"@), fields_error(p.fields)),
            ),
        ),
    )
}

/// The query of a list request.
pub open spec fn list_query(p: ListView) -> PairsView {
    filter_query(p.filters) + opt_param("sort"@, p.sort) + opt_param("include"@, p.related)
        + fields_param(p.fields) + page_param("page[number]"@, p.page_number) + page_param(
        "page[size]"@,
        p.page_size,
    )
}

/// A list request.
pub open spec fn list_request(c: ClientView, resource: Seq<char>, p: ListView) -> Result<
    RequestView,
    Seq<char>,
> {
    match list_error(resource, p) {
        Some(e) => Err(e),
        None => Ok(
            RequestView {
                method: HttpMethod::Get,
                url: base_of(c) + ("/"@ + resource),
                query: list_query(p),
                headers: auth_headers(c),
                body: RequestBodyView::Absent,
                follow_redirects: true,
            },
        ),
    }
}

/// A request for one resource.
pub open spec fn get_request(
    c: ClientView,
    resource: Seq<char>,
    id: Seq<char>,
    related: Option<Seq<char>>,
    fields: Option<(Seq<char>, Seq<char>)>,
) -> Result<RequestView, Seq<char>> {
    match first_error(
        segment_error(resource, "resource"@),
        first_error(
            segment_error(id, "id"@),
            first_error(opt_query_error(related, "include"@), fields_error(fields)),
        ),
    ) {
        Some(e) => Err(e),
        None => Ok(
            RequestView {
                method: HttpMethod::Get,
                url: base_of(c) + ("/"@ + resource + "/"@ + id),
                query: opt_param("include"@, related) + fields_param(fields),
                headers: auth_headers(c),
                body: RequestBodyView::Absent,
                follow_redirects: true,
            },
        ),
    }
}

/// A resource is written as the `data` of its request.
pub open spec fn envelope(data: JsonView) -> JsonView {
    JsonView::Object(seq![("data"@, data)])
}

pub open spec fn write_request(
    c: ClientView,
    method: HttpMethod,
    path: Seq<char>,
    data: JsonView,
) -> RequestView {
    RequestView {
        method,
        url: base_of(c) + path,
        query: Seq::empty(),
        headers: auth_headers(c).push(json_header()),
        body: RequestBodyView::Json(envelope(data)),
        follow_redirects: true,
    }
}

/// A request that creates a resource.
pub open spec fn create_request(c: ClientView, resource: Seq<char>, data: JsonView) -> Result<
    RequestView,
    Seq<char>,
> {
    match segment_error(resource, "resource"@) {
        Some(e) => Err(e),
        None => Ok(write_request(c, HttpMethod::Post, "/"@ + resource, data)),
    }
}

/// A request that changes a resource.
pub open spec fn update_request(
    c: ClientView,
    resource: Seq<char>,
    id: Seq<char>,
    data: JsonView,
) -> Result<RequestView, Seq<char>> {
    match first_error(segment_error(resource, "resource"@), segment_error(id, "id"@)) {
        Some(e) => Err(e),
        None => Ok(write_request(c, HttpMethod::Patch, "/"@ + resource + "/"@ + id, data)),
    }
}

/// The path of a call begins with a slash, written or not.
pub open spec fn full_path(path: Seq<char>) -> Seq<char> {
    if starts_with(path, "/"@) {
        path
    } else {
        "/"@ + path
    }
}

/// A call of an arbitrary path.
pub open spec fn call_request(
    c: ClientView,
    method: HttpMethod,
    path: Seq<char>,
    data: Option<JsonView>,
) -> RequestView {
    call_at(c, method, full_path(path), data)
}

/// A call of a path that begins with a slash.
pub open spec fn call_at(
    c: ClientView,
    method: HttpMethod,
    path: Seq<char>,
    data: Option<JsonView>,
) -> RequestView {
    let typed = method is Delete || (method.writes() && data is Some);
    RequestView {
        method,
        url: base_of(c) + path,
        query: Seq::empty(),
        headers: if typed {
            auth_headers(c).push(json_header())
        } else {
            auth_headers(c)
        },
        body: if method.writes() {
            match data {
                Some(v) => RequestBodyView::Json(v),
                None => RequestBodyView::Empty,
            }
        } else {
            RequestBodyView::Absent
        },
        follow_redirects: true,
    }
}

/// What is said of a path that carries a query or a fragment.
pub open spec fn path_note(path: Seq<char>) -> Option<Seq<char>> {
    if path.contains('?') || path.contains('#') {
        Some(
            "Note: "@ + path
                + " contains \"?\" or \"#\" - it will be forwarded verbatim as part of the URL."@,
        )
    } else {
        None
    }
}

/// A request that deletes one resource.
pub open spec fn delete_request(c: ClientView, resource: Seq<char>, id: Seq<char>) -> Result<
    RequestView,
    Seq<char>,
> {
    match first_error(segment_error(resource, "resource"@), segment_error(id, "id"@)) {
        Some(e) => Err(e),
        None => Ok(
            RequestView {
                method: HttpMethod::Delete,
                url: base_of(c) + ("/"@ + resource + "/"@ + id),
                query: Seq::empty(),
                headers: auth_headers(c).push(json_header()),
                body: RequestBodyView::Absent,
                follow_redirects: true,
            },
        ),
    }
}

/// Whether two URLs lead to the same server.
#[derive(Clone, Copy, Debug, PartialEq, Eq, Structural)]
pub enum OriginCheck {
    Same,
    Different,
    /// One of them is no URL, or its port is unknown.
    ParseError,
}

/// Two URLs have the same origin where scheme, host and port are the same.
pub open spec fn origins(a: Option<UrlView>, b: Option<UrlView>) -> OriginCheck {
    match (a, b) {
        (Some(a), Some(b)) => if a.port is None || b.port is None {
            OriginCheck::ParseError
        } else if a == b {
            OriginCheck::Same
        } else {
            OriginCheck::Different
        },
        _ => OriginCheck::ParseError,
    }
}

/// The schemes that a request can be sent to.
pub open spec fn web_scheme(url: Seq<char>) -> bool {
    starts_with(url, "https://"@) || starts_with(url, "http://"@)
}

/// A POST outside the resources, and what is said of it. The token goes along
/// only to the server of the API itself.
pub open spec fn post_request(
    c: ClientView,
    url: Seq<char>,
    headers: PairsView,
    body: RequestBodyView,
    origin: OriginCheck,
) -> Result<(RequestView, Option<Seq<char>>), Seq<char>> {
    if !web_scheme(url) {
        Err("Error: raw_post URL must use http or https scheme: "@ + url)
    } else if origin is ParseError {
        Err(
            "Error: could not parse "@ + url + " or "@ + base_of(c)
                + " to check same-origin - refusing to send this request."@,
        )
    } else {
        Ok(
            (
                RequestView {
                    method: HttpMethod::Post,
                    url,
                    query: Seq::empty(),
                    headers: if origin is Same {
                        auth_headers(c) + headers
                    } else {
                        headers
                    },
                    body,
                    follow_redirects: false,
                },
                if origin is Same {
                    None
                } else {
                    Some(
                        "Warning: could not confirm "@ + url + " is the same server as "@ + base_of(c)
                            + " - sending this request without the Authorization header (a 401 response likely follows)."@,
                    )
                },
            ),
        )
    }
}

/// A PUT to a storage URL, which carries its own authorization.
pub open spec fn put_request(url: Seq<char>, headers: PairsView, body: Seq<u8>) -> Result<
    RequestView,
    Seq<char>,
> {
    if !web_scheme(url) {
        Err("Error: raw_put URL must use http or https scheme: "@ + url)
    } else {
        Ok(
            RequestView {
                method: HttpMethod::Put,
                url,
                query: Seq::empty(),
                headers,
                body: RequestBodyView::Bytes(body),
                follow_redirects: false,
            },
        )
    }
}

pub open spec fn post_view(r: Result<(ApiRequest, Option<String>), String>) -> Result<
    (RequestView, Option<Seq<char>>),
    Seq<char>,
> {
    match r {
        Ok(p) => Ok((p.0@, opt_text(p.1))),
        Err(e) => Err(e@),
    }
}

fn same_host(a: &Option<Host>, b: &Option<Host>) -> (r: bool)
    ensures
        r == (host_view(*a) == host_view(*b)),
{
    match (a, b) {
        (Some(Host::Domain(x)), Some(Host::Domain(y))) => same(x.as_str(), y.as_str()),
        (Some(Host::Ipv4(x)), Some(Host::Ipv4(y))) => *x == *y,
        (Some(Host::Ipv6(x)), Some(Host::Ipv6(y))) => *x == *y,
        (None, None) => true,
        _ => false,
    }
}

/// Compares the origins of two URLs that have been taken apart.
pub fn compare_origins(a: &Option<ParsedUrl>, b: &Option<ParsedUrl>) -> (r: OriginCheck)
    ensures
        r == origins(url_view(*a), url_view(*b)),
{
    match (a, b) {
        (Some(a), Some(b)) => match (a.port, b.port) {
            (Some(p), Some(q)) => if same(a.scheme.as_str(), b.scheme.as_str()) && same_host(
                &a.host,
                &b.host,
            ) && p == q {
                OriginCheck::Same
            } else {
                OriginCheck::Different
            },
            _ => OriginCheck::ParseError,
        },
        _ => OriginCheck::ParseError,
    }
}

/// Whether two URLs share scheme, host and port. Both are parsed: a prefix of
/// a URL says nothing about its host.
pub fn check_origin(a: &str, b: &str) -> (r: OriginCheck)
    ensures
        r == origins(url_of(a@), url_of(b@)),
{
    let a = parse_url(a);
    let b = parse_url(b);
    compare_origins(&a, &b)
}

fn push_pair(list: &mut Vec<(String, String)>, key: String, value: String)
    ensures
        text_pairs(final(list)@) == text_pairs(old(list)@).push((key@, value@)),
{
    list.push((key, value));
    assert(text_pairs(list@) =~= text_pairs(old(list)@).push((key@, value@)));
}

fn copy_pairs(list: &[(String, String)]) -> (r: Vec<(String, String)>)
    ensures
        text_pairs(r@) == text_pairs(list@),
{
    let mut out: Vec<(String, String)> = Vec::new();
    let mut i: usize = 0;
    while i < list.len()
        invariant
            i <= list@.len(),
            text_pairs(out@) == text_pairs(list@).take(i as int),
        decreases list@.len() - i,
    {
        push_pair(&mut out, list[i].0.clone(), list[i].1.clone());
        i = i + 1;
        assert(text_pairs(list@).take(i as int) =~= text_pairs(list@).take(i - 1).push(
            text_pairs(list@)[i - 1],
        ));
    }
    assert(text_pairs(list@).take(i as int) =~= text_pairs(list@));
    out
}

fn times_given(filters: &[(String, String)], key: &str) -> (r: usize)
    ensures
        r == times(text_pairs(filters@), key@),
{
    let ghost all = text_pairs(filters@);
    let mut n: usize = 0;
    let mut i: usize = 0;
    while i < filters.len()
        invariant
            i <= filters@.len(),
            n <= i,
            all == text_pairs(filters@),
            n == times(all.take(i as int), key@),
        decreases filters@.len() - i,
    {
        assert(all.take(i + 1).drop_last() =~= all.take(i as int));
        if same(filters[i].0.as_str(), key) {
            n = n + 1;
        }
        i = i + 1;
    }
    assert(all.take(i as int) =~= all);
    n
}

impl ApiClient {
    /// A client for the API at `base_url`. A token that cannot be sent is
    /// refused.
    pub fn new(base_url: String, token: Option<String>, bin: &str) -> (r: Result<ApiClient, String>)
        ensures
            client_result(r) == client_for(base_url@, opt_text(token), bin@),
    {
        match token {
            None => Ok(ApiClient { base_url, auth_header: None }),
            Some(t) => {
                let mut t = t;
                match Self::build_auth_header(&mut t, bin) {
                    Ok(h) => Ok(ApiClient { base_url, auth_header: Some(h) }),
                    Err(e) => Err(e),
                }
            },
        }
    }

    /// The header that a token is sent in. Either way the token is wiped.
    fn build_auth_header(token: &mut String, bin: &str) -> (r: Result<String, String>)
        ensures
            final(token)@ == Seq::<char>::empty(),
            match r {
                Ok(h) => token_error(old(token)@, bin@) is None && h@ == "Bearer "@ + old(token)@,
                Err(e) => token_error(old(token)@, bin@) == Some(e@),
            },
    {
        if token.as_str().unicode_len() == 0 {
            wipe(token);
            return Err("Stored token is empty - run `".to_owned().concat(bin).concat(" login` again."));
        }
        if !only(token.as_str(), CharClass::Token) {
            wipe(token);
            return Err(
                "Stored token contains invalid characters - run `".to_owned().concat(bin).concat(
                    " login` again.",
                ),
            );
        }
        let header = "Bearer ".to_owned().concat(token.as_str());
        wipe(token);
        Ok(header)
    }

    /// The base URL without trailing slashes.
    pub fn base_url_trimmed(&self) -> (r: String)
        ensures
            r@ == base_of(self@),
    {
        without_end(self.base_url.as_str(), CharClass::Is('/'))
    }

    fn url(&self, path: &str) -> (r: String)
        ensures
            r@ == base_of(self@) + path@,
    {
        self.base_url_trimmed().concat(path)
    }

    /// Refuses a value that cannot stand in a path as it is.
    pub fn validate_path_segment(value: &str, name: &str) -> (r: Result<(), String>)
        ensures
            failure(r) == segment_error(value@, name@),
    {
        if value.unicode_len() == 0 {
            return Err("Error: ".to_owned().concat(name).concat(" must not be empty."));
        }
        if !only(value, CharClass::PathSegment) {
            return Err(
                "Error: invalid ".to_owned().concat(name).concat(" ").concat(
                    quoted_text(value).as_str(),
                ).concat(" - must contain only ASCII alphanumerics, hyphens, and underscores."),
            );
        }
        Ok(())
    }

    fn validate_query_value(value: &str, name: &str) -> (r: Result<(), String>)
        ensures
            failure(r) == query_error(value@, name@),
    {
        if value.unicode_len() == 0 {
            return Err("Error: ".to_owned().concat(name).concat(" must not be empty."));
        }
        if !only(value, CharClass::QueryValue) {
            return Err(
                "Error: invalid ".to_owned().concat(name).concat(" ").concat(
                    quoted_text(value).as_str(),
                ).concat(
                    " - must contain only ASCII alphanumerics, hyphens, underscores, dots, and commas.",
                ),
            );
        }
        Ok(())
    }

    fn attach_auth(&self) -> (r: Vec<(String, String)>)
        ensures
            text_pairs(r@) == auth_headers(self@),
    {
        let mut headers: Vec<(String, String)> = Vec::new();
        match &self.auth_header {
            Some(auth) => push_pair(&mut headers, "Authorization".to_owned(), auth.clone()),
            None => {},
        }
        assert(text_pairs(headers@) =~= auth_headers(self@));
        headers
    }

    fn typed_headers(&self) -> (r: Vec<(String, String)>)
        ensures
            text_pairs(r@) == auth_headers(self@).push(json_header()),
    {
        let mut headers = self.attach_auth();
        push_pair(
            &mut headers,
            "Content-Type".to_owned(),
            "application/vnd.api+json".to_owned(),
        );
        headers
    }

    fn filters_query(filters: &[(String, String)]) -> (r: Result<Vec<(String, String)>, String>)
        ensures
            match r {
                Ok(q) => filters_error(text_pairs(filters@)) is None && text_pairs(q@)
                    == filter_query(text_pairs(filters@)),
                Err(e) => filters_error(text_pairs(filters@)) == Some(e@),
            },
    {
        let ghost all = text_pairs(filters@);
        let mut query: Vec<(String, String)> = Vec::new();
        let mut i: usize = 0;
        while i < filters.len()
            invariant
                i <= filters@.len(),
                all == text_pairs(filters@),
                filters_error(all.take(i as int)) is None,
                text_pairs(query@) == filter_query(all).take(i as int),
            decreases filters@.len() - i,
        {
            let key = filters[i].0.as_str();
            assert(all.take(i + 1).drop_last() =~= all.take(i as int));
            if let Err(e) = Self::validate_path_segment(key, "filter key") {
                proof {
                    lemma_filters_error(all, i + 1);
                }
                return Err(e);
            }
            let name = if times_given(filters, key) > 1 {
                "filter[".to_owned().concat(key).concat("][]")
            } else {
                "filter[".to_owned().concat(key).concat("]")
            };
            push_pair(&mut query, name, filters[i].1.clone());
            i = i + 1;
            assert(filter_query(all).take(i as int) =~= filter_query(all).take(i - 1).push(
                filter_query(all)[i - 1],
            ));
        }
        assert(all.take(i as int) =~= all);
        assert(filter_query(all).take(i as int) =~= filter_query(all));
        Ok(query)
    }

    fn add_related(query: &mut Vec<(String, String)>, related: &Option<String>) -> (r: Result<
        (),
        String,
    >)
        ensures
            failure(r) == opt_query_error(opt_text(*related), "include"@),
            r is Ok ==> text_pairs(final(query)@) == text_pairs(old(query)@) + opt_param(
                "include"@,
                opt_text(*related),
            ),
    {
        match related {
            Some(v) => {
                Self::validate_query_value(v.as_str(), "include")?;
                push_pair(query, "include".to_owned(), v.clone());
            },
            None => {},
        }
        assert(text_pairs(query@) =~= text_pairs(old(query)@) + opt_param(
            "include"@,
            opt_text(*related),
        ));
        Ok(())
    }

    fn add_fields(query: &mut Vec<(String, String)>, fields: &Option<(String, String)>) -> (r: Result<
        (),
        String,
    >)
        ensures
            failure(r) == fields_error(opt_pair(*fields)),
            r is Ok ==> text_pairs(final(query)@) == text_pairs(old(query)@) + fields_param(
                opt_pair(*fields),
            ),
    {
        match fields {
            Some(f) => {
                Self::validate_path_segment(f.0.as_str(), "fields type")?;
                push_pair(
                    query,
                    "fields[".to_owned().concat(f.0.as_str()).concat("]"),
                    f.1.clone(),
                );
            },
            None => {},
        }
        assert(text_pairs(query@) =~= text_pairs(old(query)@) + fields_param(opt_pair(*fields)));
        Ok(())
    }

    fn add_page(query: &mut Vec<(String, String)>, key: &str, n: Option<u32>)
        ensures
            text_pairs(final(query)@) == text_pairs(old(query)@) + page_param(key@, n),
    {
        if let Some(n) = n {
            push_pair(query, key.to_owned(), number_text(n as u128));
        }
        assert(text_pairs(query@) =~= text_pairs(old(query)@) + page_param(key@, n));
    }

    /// The request for a list of resources.
    pub fn list(&self, resource: &str, params: &ListParams) -> (r: Result<ApiRequest, String>)
        ensures
            request_view(r) == list_request(self@, resource@, params@),
    {
        Self::validate_path_segment(resource, "resource")?;
        let mut query = Self::filters_query(params.filters.as_slice())?;
        if let Some(sort) = &params.sort {
            Self::validate_query_value(sort.as_str(), "sort")?;
            push_pair(&mut query, "sort".to_owned(), sort.clone());
        }
        assert(text_pairs(query@) =~= filter_query(params@.filters) + opt_param(
            "sort"@,
            params@.sort,
        ));
        Self::add_related(&mut query, &params.related)?;
        Self::add_fields(&mut query, &params.fields)?;
        Self::add_page(&mut query, "page[number]", params.page_number);
        Self::add_page(&mut query, "page[size]", params.page_size);
        let path = "/".to_owned().concat(resource);
        Ok(
            ApiRequest {
                method: HttpMethod::Get,
                url: self.url(path.as_str()),
                query,
                headers: self.attach_auth(),
                body: RequestBody::Absent,
                follow_redirects: true,
            },
        )
    }

    /// The request for one resource.
    pub fn get_one(
        &self,
        resource: &str,
        id: &str,
        related: &Option<String>,
        fields: &Option<(String, String)>,
    ) -> (r: Result<ApiRequest, String>)
        ensures
            request_view(r) == get_request(
                self@,
                resource@,
                id@,
                opt_text(*related),
                opt_pair(*fields),
            ),
    {
        Self::validate_path_segment(resource, "resource")?;
        Self::validate_path_segment(id, "id")?;
        let mut query: Vec<(String, String)> = Vec::new();
        assert(text_pairs(query@) =~= Seq::empty());
        Self::add_related(&mut query, related)?;
        Self::add_fields(&mut query, fields)?;
        assert(text_pairs(query@) =~= opt_param("include"@, opt_text(*related)) + fields_param(
            opt_pair(*fields),
        ));
        let path = "/".to_owned().concat(resource).concat("/").concat(id);
        Ok(
            ApiRequest {
                method: HttpMethod::Get,
                url: self.url(path.as_str()),
                query,
                headers: self.attach_auth(),
                body: RequestBody::Absent,
                follow_redirects: true,
            },
        )
    }

    /// The request that creates a resource.
    pub fn create(&self, resource: &str, data: Json) -> (r: Result<ApiRequest, String>)
        ensures
            request_view(r) == create_request(self@, resource@, data@),
    {
        Self::validate_path_segment(resource, "resource")?;
        let path = "/".to_owned().concat(resource);
        Ok(self.write(HttpMethod::Post, path.as_str(), data))
    }

    /// The request that changes a resource.
    pub fn update(&self, resource: &str, id: &str, data: Json) -> (r: Result<ApiRequest, String>)
        ensures
            request_view(r) == update_request(self@, resource@, id@, data@),
    {
        Self::validate_path_segment(resource, "resource")?;
        Self::validate_path_segment(id, "id")?;
        let path = "/".to_owned().concat(resource).concat("/").concat(id);
        Ok(self.write(HttpMethod::Patch, path.as_str(), data))
    }

    /// The request that deletes a resource.
    pub fn delete_one(&self, resource: &str, id: &str) -> (r: Result<ApiRequest, String>)
        ensures
            request_view(r) == delete_request(self@, resource@, id@),
    {
        Self::validate_path_segment(resource, "resource")?;
        Self::validate_path_segment(id, "id")?;
        let path = "/".to_owned().concat(resource).concat("/").concat(id);
        let query: Vec<(String, String)> = Vec::new();
        assert(text_pairs(query@) =~= Seq::empty());
        Ok(
            ApiRequest {
                method: HttpMethod::Delete,
                url: self.url(path.as_str()),
                query,
                headers: self.typed_headers(),
                body: RequestBody::Absent,
                follow_redirects: true,
            },
        )
    }

    fn write(&self, method: HttpMethod, path: &str, data: Json) -> (r: ApiRequest)
        ensures
            r@ == write_request(self@, method, path@, data@),
    {
        let query: Vec<(String, String)> = Vec::new();
        assert(text_pairs(query@) =~= Seq::empty());
        let body = object(and_field(no_fields(), "data", data));
        ApiRequest {
            method,
            url: self.url(path),
            query,
            headers: self.typed_headers(),
            body: RequestBody::Json(body),
            follow_redirects: true,
        }
    }

    /// The request that calls an arbitrary path, and what is said of the path.
    /// A DELETE sends no body.
    pub fn call(&self, method: HttpMethod, path: &str, data: Option<Json>) -> (r: (
        ApiRequest,
        Option<String>,
    ))
        requires
            method is Delete ==> data is None,
        ensures
            r.0@ == call_request(self@, method, path@, opt_owned(data)),
            opt_text(r.1) == path_note(path@),
    {
        let note = if holds_char(path, '?') || holds_char(path, '#') {
            Some(
                "Note: ".to_owned().concat(path).concat(
                    " contains \"?\" or \"#\" - it will be forwarded verbatim as part of the URL.",
                ),
            )
        } else {
            None
        };
        let path = if begins_with(path, "/") {
            path.to_owned()
        } else {
            "/".to_owned().concat(path)
        };
        if method.has_body() {
            return (self.call_write(method, path.as_str(), data), note);
        }
        let headers = if method == HttpMethod::Delete {
            self.typed_headers()
        } else {
            self.attach_auth()
        };
        let query: Vec<(String, String)> = Vec::new();
        assert(text_pairs(query@) =~= Seq::empty());
        let request = ApiRequest {
            method,
            url: self.url(path.as_str()),
            query,
            headers,
            body: RequestBody::Absent,
            follow_redirects: true,
        };
        (request, note)
    }

    /// The body goes out as it was given; without one no content type is
    /// claimed.
    fn call_write(&self, method: HttpMethod, path: &str, data: Option<Json>) -> (r: ApiRequest)
        requires
            method.writes(),
        ensures
            r@ == call_at(self@, method, path@, opt_owned(data)),
    {
        let query: Vec<(String, String)> = Vec::new();
        assert(text_pairs(query@) =~= Seq::empty());
        let url = self.url(path);
        match data {
            Some(v) => ApiRequest {
                method,
                url,
                query,
                headers: self.typed_headers(),
                body: RequestBody::Json(v),
                follow_redirects: true,
            },
            None => ApiRequest {
                method,
                url,
                query,
                headers: self.attach_auth(),
                body: RequestBody::Empty,
                follow_redirects: true,
            },
        }
    }

    /// The POST to a URL whose origin has been compared with that of the API.
    pub fn post_to(
        &self,
        url: &str,
        headers: &[(String, String)],
        body: RequestBody,
        origin: OriginCheck,
    ) -> (r: Result<(ApiRequest, Option<String>), String>)
        ensures
            post_view(r) == post_request(self@, url@, text_pairs(headers@), body@, origin),
    {
        if !begins_with(url, "https://") && !begins_with(url, "http://") {
            return Err("Error: raw_post URL must use http or https scheme: ".to_owned().concat(url));
        }
        let base = self.base_url_trimmed();
        let (all, warning) = match origin {
            OriginCheck::Same => {
                let mut all = self.attach_auth();
                let mut rest = copy_pairs(headers);
                let ghost before = all@;
                let ghost added = rest@;
                all.append(&mut rest);
                assert(text_pairs(all@) =~= text_pairs(before) + text_pairs(added));
                (all, None)
            },
            OriginCheck::Different => (
                copy_pairs(headers),
                Some(
                    "Warning: could not confirm ".to_owned().concat(url).concat(
                        " is the same server as ",
                    ).concat(base.as_str()).concat(
                        " - sending this request without the Authorization header (a 401 response likely follows).",
                    ),
                ),
            ),
            OriginCheck::ParseError => {
                return Err(
                    "Error: could not parse ".to_owned().concat(url).concat(" or ").concat(
                        base.as_str(),
                    ).concat(" to check same-origin - refusing to send this request."),
                );
            },
        };
        let query: Vec<(String, String)> = Vec::new();
        assert(text_pairs(query@) =~= Seq::empty());
        Ok(
            (
                ApiRequest {
                    method: HttpMethod::Post,
                    url: url.to_owned(),
                    query,
                    headers: all,
                    body,
                    follow_redirects: false,
                },
                warning,
            ),
        )
    }

    /// The POST to an arbitrary URL. It carries the token only where the URL
    /// has the origin of the API, and follows no redirect.
    pub fn raw_post(&self, url: &str, headers: &[(String, String)], body: RequestBody) -> (r: Result<
        (ApiRequest, Option<String>),
        String,
    >)
        ensures
            post_view(r) == post_request(
                self@,
                url@,
                text_pairs(headers@),
                body@,
                origins(url_of(base_of(self@)), url_of(url@)),
            ),
    {
        let base = self.base_url_trimmed();
        let origin = check_origin(base.as_str(), url);
        self.post_to(url, headers, body, origin)
    }

    /// The PUT to a storage URL. It carries no token and follows no redirect.
    pub fn raw_put(url: &str, headers: &[(String, String)], body: Vec<u8>) -> (r: Result<
        ApiRequest,
        String,
    >)
        ensures
            request_view(r) == put_request(url@, text_pairs(headers@), body@),
    {
        if !begins_with(url, "https://") && !begins_with(url, "http://") {
            return Err("Error: raw_put URL must use http or https scheme: ".to_owned().concat(url));
        }
        let query: Vec<(String, String)> = Vec::new();
        assert(text_pairs(query@) =~= Seq::empty());
        Ok(
            ApiRequest {
                method: HttpMethod::Put,
                url: url.to_owned(),
                query,
                headers: copy_pairs(headers),
                body: RequestBody::Bytes(body),
                follow_redirects: false,
            },
        )
    }
}

proof fn lemma_filters_error(filters: PairsView, i: int)
    requires
        0 <= i <= filters.len(),
        filters_error(filters.take(i)) is Some,
    ensures
        filters_error(filters) == filters_error(filters.take(i)),
    decreases filters.len() - i,
{
    if i < filters.len() {
        assert(filters.take(i + 1).drop_last() =~= filters.take(i));
        lemma_filters_error(filters, i + 1);
    } else {
        assert(filters.take(i) =~= filters);
    }
}

/// A request to an arbitrary URL carries a header of the caller's only, unless
/// the URL has scheme, host and port of the API; and it follows no redirect.
pub proof fn law_token_stays_with_its_origin(
    c: ClientView,
    url: Seq<char>,
    headers: PairsView,
    body: RequestBodyView,
    base: Option<UrlView>,
    target: Option<UrlView>,
)
    ensures
        match post_request(c, url, headers, body, origins(base, target)) {
            Ok(p) => !p.0.follow_redirects && (base != target ==> p.0.headers == headers),
            Err(_) => true,
        },
{
}

/// A character that ends a part of a path, or could stand for one that does.
pub open spec fn delimits(c: char) -> bool {
    c == '/' || c == '?' || c == '#' || c == '%' || c == '.' || c == '\0'
}

/// A part of a path, with nothing in it that ends it.
pub open spec fn plain_part(s: Seq<char>) -> bool {
    s.len() > 0 && forall|i: int| 0 <= i < s.len() ==> !delimits(#[trigger] s[i])
}

/// The path of a request for a resource holds its name, and its id where it has
/// one, and neither can reach into another part of the URL.
pub proof fn law_resource_paths_are_plain(
    c: ClientView,
    resource: Seq<char>,
    id: Seq<char>,
    p: ListView,
    related: Option<Seq<char>>,
    fields: Option<(Seq<char>, Seq<char>)>,
)
    ensures
        list_request(c, resource, p) matches Ok(q) ==> plain_part(resource) && q.url == base_of(c)
            + ("/"@ + resource),
        get_request(c, resource, id, related, fields) matches Ok(q) ==> plain_part(resource)
            && plain_part(id) && q.url == base_of(c) + ("/"@ + resource + "/"@ + id),
        delete_request(c, resource, id) matches Ok(q) ==> plain_part(resource) && plain_part(id)
            && q.url == base_of(c) + ("/"@ + resource + "/"@ + id),
        segment_error(resource, "resource"@) is None ==> plain_part(resource),
{
    lemma_part(resource);
    lemma_part(id);
}

proof fn lemma_part(s: Seq<char>)
    ensures
        s.len() > 0 && all_in(s, CharClass::PathSegment) ==> plain_part(s),
{
    if s.len() > 0 && all_in(s, CharClass::PathSegment) {
        assert forall|i: int| 0 <= i < s.len() implies !delimits(#[trigger] s[i]) by {
            assert(CharClass::PathSegment.holds(s[i]));
        }
    }
}

/// A filter given once keeps its plain key; one given again and again is sent
/// as an array, each value of it.
pub proof fn law_repeated_filters_are_arrays(filters: PairsView, i: int)
    requires
        0 <= i < filters.len(),
    ensures
        filter_query(filters).len() == filters.len(),
        filter_query(filters)[i].1 == filters[i].1,
        (exists|j: int| 0 <= j < filters.len() && j != i && (#[trigger] filters[j]).0 == filters[i].0)
            ==> filter_query(filters)[i].0 == "filter["@ + filters[i].0 + "][]"@,
        !(exists|j: int|
            0 <= j < filters.len() && j != i && (#[trigger] filters[j]).0 == filters[i].0)
            ==> filter_query(filters)[i].0 == "filter["@ + filters[i].0 + "]"@,
{
    let key = filters[i].0;
    if exists|j: int| 0 <= j < filters.len() && j != i && (#[trigger] filters[j]).0 == key {
        let j = choose|j: int| 0 <= j < filters.len() && j != i && (#[trigger] filters[j]).0 == key;
        if i < j {
            lemma_times_two(filters, key, i, j);
        } else {
            lemma_times_two(filters, key, j, i);
        }
    } else {
        lemma_times_one(filters, key, i);
    }
}

proof fn lemma_times_positive(filters: PairsView, key: Seq<char>, i: int)
    requires
        0 <= i < filters.len(),
        filters[i].0 == key,
    ensures
        times(filters, key) >= 1,
    decreases filters.len(),
{
    if i < filters.len() - 1 {
        lemma_times_positive(filters.drop_last(), key, i);
    }
}

proof fn lemma_times_two(filters: PairsView, key: Seq<char>, i: int, j: int)
    requires
        0 <= i < j < filters.len(),
        filters[i].0 == key,
        filters[j].0 == key,
    ensures
        times(filters, key) > 1,
    decreases filters.len(),
{
    if j < filters.len() - 1 {
        lemma_times_two(filters.drop_last(), key, i, j);
    } else {
        lemma_times_positive(filters.drop_last(), key, i);
    }
}

proof fn lemma_times_none(filters: PairsView, key: Seq<char>)
    requires
        forall|j: int| 0 <= j < filters.len() ==> (#[trigger] filters[j]).0 != key,
    ensures
        times(filters, key) == 0,
    decreases filters.len(),
{
    if filters.len() > 0 {
        lemma_times_none(filters.drop_last(), key);
    }
}

proof fn lemma_times_one(filters: PairsView, key: Seq<char>, i: int)
    requires
        0 <= i < filters.len(),
        filters[i].0 == key,
        forall|j: int|
            0 <= j < filters.len() && j != i ==> (#[trigger] filters[j]).0 != key,
    ensures
        times(filters, key) == 1,
    decreases filters.len(),
{
    if i < filters.len() - 1 {
        lemma_times_one(filters.drop_last(), key, i);
    } else {
        lemma_times_none(filters.drop_last(), key);
    }
}

/// A text of ASCII letters and digits, hyphens and underscores, and of the
/// characters of `more`.
pub open spec fn spelled(s: Seq<char>, more: Seq<char>) -> bool {
    s.len() > 0 && forall|i: int|
        0 <= i < s.len() ==> {
            let n = #[trigger] s[i] as int;
            48 <= n <= 57 || 65 <= n <= 90 || 97 <= n <= 122 || n == 45 || n == 95 || more.contains(
                s[i],
            )
        }
}

/// What may stand in a path, in a query and in a token, character by
/// character; and an error is given for everything else.
pub proof fn law_values_are_spelled(value: Seq<char>, name: Seq<char>, bin: Seq<char>)
    ensures
        segment_error(value, name) is None <==> spelled(value, Seq::empty()),
        query_error(value, name) is None <==> spelled(value, seq!['.', ',']),
        token_error(value, bin) is None <==> spelled(value, seq!['.']),
{
    let dot = seq!['.'];
    let both = seq!['.', ','];
    assert forall|c: char| #[trigger] dot.contains(c) <==> c == '.' by {
        assert(dot[0] == '.');
    }
    assert forall|c: char| #[trigger] both.contains(c) <==> c == '.' || c == ',' by {
        assert(both[0] == '.' && both[1] == ',');
    }
    if all_in(value, CharClass::PathSegment) {
        assert forall|i: int| 0 <= i < value.len() implies {
            let n = #[trigger] value[i] as int;
            48 <= n <= 57 || 65 <= n <= 90 || 97 <= n <= 122 || n == 45 || n == 95
        } by {
            assert(CharClass::PathSegment.holds(value[i]));
        }
    }
    if all_in(value, CharClass::QueryValue) {
        assert forall|i: int| 0 <= i < value.len() implies {
            let n = #[trigger] value[i] as int;
            48 <= n <= 57 || 65 <= n <= 90 || 97 <= n <= 122 || n == 45 || n == 95 || both.contains(
                value[i],
            )
        } by {
            assert(CharClass::QueryValue.holds(value[i]));
        }
    }
    if all_in(value, CharClass::Token) {
        assert forall|i: int| 0 <= i < value.len() implies {
            let n = #[trigger] value[i] as int;
            48 <= n <= 57 || 65 <= n <= 90 || 97 <= n <= 122 || n == 45 || n == 95 || dot.contains(
                value[i],
            )
        } by {
            assert(CharClass::Token.holds(value[i]));
        }
    }
    if spelled(value, Seq::empty()) {
        assert(all_in(value, CharClass::PathSegment));
    }
    if spelled(value, both) {
        assert(all_in(value, CharClass::QueryValue));
    }
    if spelled(value, dot) {
        assert(all_in(value, CharClass::Token));
    }
}

/// A client keeps the server that it is for, and sends the token, the whole
/// token, as its bearer. Without a token it sends none.
pub proof fn law_clients_carry_their_token(
    base_url: Seq<char>,
    token: Option<Seq<char>>,
    bin: Seq<char>,
)
    ensures
        client_for(base_url, token, bin) is Ok <==> (token matches Some(t) ==> spelled(
            t,
            seq!['.'],
        )),
        client_for(base_url, token, bin) matches Ok(c) ==> c.base_url == base_url && auth_headers(c)
            == (match token {
            Some(t) => seq![("Authorization"@, "Bearer "@ + t)],
            None => Seq::empty(),
        }),
{
    if let Some(t) = token {
        law_values_are_spelled(t, Seq::empty(), bin);
    }
}

/// The base of all URLs ends with no slash, and is the URL of the server but
/// for slashes at its end.
pub proof fn law_base_has_no_slash(c: ClientView)
    ensures
        base_of(c).len() > 0 ==> base_of(c).last() != '/',
        base_of(c).len() <= c.base_url.len(),
        base_of(c) == c.base_url.take(base_of(c).len() as int),
        forall|i: int| base_of(c).len() <= i < c.base_url.len() ==> #[trigger] c.base_url[i] == '/',
{
    law_trimmed_ends(c.base_url, CharClass::Is('/'));
    let n = base_of(c).len() as int;
    assert forall|i: int| n <= i < c.base_url.len() implies #[trigger] c.base_url[i] == '/' by {
        assert(c.base_url.skip(n)[i - n] == c.base_url[i]);
    }
}

/// A resource is read with GET, created with POST, changed with PATCH and
/// deleted with DELETE, at its own path and with the token; what is written is
/// the data as it was given.
pub proof fn law_requests_do_what_they_are_for(
    c: ClientView,
    resource: Seq<char>,
    id: Seq<char>,
    data: JsonView,
    p: ListView,
    related: Option<Seq<char>>,
    fields: Option<(Seq<char>, Seq<char>)>,
)
    ensures
        list_request(c, resource, p) matches Ok(q) ==> q.method == HttpMethod::Get && q.url
            == base_of(c) + ("/"@ + resource) && q.headers == auth_headers(c) && q.body
            == RequestBodyView::Absent,
        get_request(c, resource, id, related, fields) matches Ok(q) ==> q.method == HttpMethod::Get
            && q.url == base_of(c) + ("/"@ + resource + "/"@ + id) && q.headers == auth_headers(c)
            && q.body == RequestBodyView::Absent,
        delete_request(c, resource, id) matches Ok(q) ==> q.method == HttpMethod::Delete && q.url
            == base_of(c) + ("/"@ + resource + "/"@ + id) && q.query.len() == 0 && q.headers
            == auth_headers(c).push(("Content-Type"@, "application/vnd.api+json"@)) && q.body
            == RequestBodyView::Absent,
        create_request(c, resource, data) matches Ok(q) ==> q.method == HttpMethod::Post && q.url
            == base_of(c) + ("/"@ + resource) && q.query.len() == 0 && q.headers == auth_headers(
            c,
        ).push(("Content-Type"@, "application/vnd.api+json"@)) && q.body == RequestBodyView::Json(
            JsonView::Object(seq![("data"@, data)]),
        ),
        update_request(c, resource, id, data) matches Ok(q) ==> q.method == HttpMethod::Patch
            && q.url == base_of(c) + ("/"@ + resource + "/"@ + id) && q.query.len() == 0
            && q.headers == auth_headers(c).push(("Content-Type"@, "application/vnd.api+json"@))
            && q.body == RequestBodyView::Json(JsonView::Object(seq![("data"@, data)])),
{
}

/// Which requests are made at all: those whose parts can stand in a URL.
pub proof fn law_requests_are_made(
    c: ClientView,
    resource: Seq<char>,
    id: Seq<char>,
    data: JsonView,
    p: ListView,
    related: Option<Seq<char>>,
    fields: Option<(Seq<char>, Seq<char>)>,
)
    ensures
        ({
            let none = Seq::<char>::empty();
            let loose = seq!['.', ','];
            let shaped = (related matches Some(v) ==> spelled(v, loose)) && (fields matches Some(f)
                ==> spelled(f.0, none));
            &&& get_request(c, resource, id, related, fields) is Ok <==> spelled(resource, none)
                && spelled(id, none) && shaped
            &&& delete_request(c, resource, id) is Ok <==> spelled(resource, none) && spelled(
                id,
                none,
            )
            &&& create_request(c, resource, data) is Ok <==> spelled(resource, none)
            &&& update_request(c, resource, id, data) is Ok <==> spelled(resource, none) && spelled(
                id,
                none,
            )
            &&& list_request(c, resource, p) is Ok <==> spelled(resource, none) && (p.sort matches
                Some(v) ==> spelled(v, loose)) && (p.related matches Some(v) ==> spelled(v, loose))
                && (p.fields matches Some(f) ==> spelled(f.0, none)) && forall|i: int|
                0 <= i < p.filters.len() ==> spelled((#[trigger] p.filters[i]).0, none)
        }),
{
    law_values_are_spelled(resource, "resource"@, Seq::empty());
    law_values_are_spelled(id, "id"@, Seq::empty());
    if let Some(v) = related {
        law_values_are_spelled(v, "include"@, Seq::empty());
    }
    if let Some(f) = fields {
        law_values_are_spelled(f.0, "fields type"@, Seq::empty());
    }
    if let Some(v) = p.sort {
        law_values_are_spelled(v, "sort"@, Seq::empty());
    }
    if let Some(v) = p.related {
        law_values_are_spelled(v, "include"@, Seq::empty());
    }
    if let Some(f) = p.fields {
        law_values_are_spelled(f.0, "fields type"@, Seq::empty());
    }
    lemma_filters_accepted(p.filters);
}

proof fn lemma_filters_accepted(filters: PairsView)
    ensures
        filters_error(filters) is None <==> forall|i: int|
            0 <= i < filters.len() ==> spelled((#[trigger] filters[i]).0, Seq::empty()),
    decreases filters.len(),
{
    if filters.len() > 0 {
        let rest = filters.drop_last();
        lemma_filters_accepted(rest);
        law_values_are_spelled(filters.last().0, "filter key"@, Seq::empty());
        if forall|i: int| 0 <= i < rest.len() ==> spelled((#[trigger] rest[i]).0, Seq::empty()) {
            if spelled(filters.last().0, Seq::empty()) {
                assert forall|i: int| 0 <= i < filters.len() implies spelled(
                    (#[trigger] filters[i]).0,
                    Seq::empty(),
                ) by {
                    if i < rest.len() {
                        assert(rest[i] == filters[i]);
                    }
                }
            } else {
                assert(!spelled(filters[filters.len() - 1].0, Seq::empty()));
            }
        } else {
            let i = choose|i: int|
                0 <= i < rest.len() && !spelled((#[trigger] rest[i]).0, Seq::empty());
            assert(!spelled(filters[i].0, Seq::empty()));
        }
    }
}

/// Everything that a list is narrowed and ordered by is asked for, and nothing
/// else is.
pub proof fn law_list_asks_for_everything(p: ListView)
    ensures
        ({
            let q = list_query(p);
            let one = |b: bool| if b {
                1int
            } else {
                0int
            };
            &&& q.len() == p.filters.len() + one(p.sort is Some) + one(p.related is Some) + one(
                p.fields is Some,
            ) + one(p.page_number is Some) + one(p.page_size is Some)
            &&& forall|i: int|
                0 <= i < p.filters.len() ==> (#[trigger] q[i]).1 == p.filters[i].1 && starts_with(
                    q[i].0,
                    "filter["@ + p.filters[i].0 + "]"@,
                )
            &&& p.sort matches Some(v) ==> q.contains(("sort"@, v))
            &&& p.related matches Some(v) ==> q.contains(("include"@, v))
            &&& p.fields matches Some(f) ==> q.contains(("fields["@ + f.0 + "]"@, f.1))
            &&& p.page_number matches Some(n) ==> q.contains(("page[number]"@, decimal(n as nat)))
            &&& p.page_size matches Some(n) ==> q.contains(("page[size]"@, decimal(n as nat)))
        }),
{
    let q = list_query(p);
    let a = filter_query(p.filters);
    let b = a + opt_param("sort"@, p.sort);
    let c = b + opt_param("include"@, p.related);
    let d = c + fields_param(p.fields);
    let e = d + page_param("page[number]"@, p.page_number);
    assert(q == e + page_param("page[size]"@, p.page_size));
    assert forall|i: int| 0 <= i < p.filters.len() implies (#[trigger] q[i]).1 == p.filters[i].1
        && starts_with(q[i].0, "filter["@ + p.filters[i].0 + "]"@) by {
        assert(q[i] == a[i]);
        let start = "filter["@ + p.filters[i].0 + "]"@;
        reveal_strlit("]");
        reveal_strlit("][]");
        assert(("filter["@ + p.filters[i].0 + "][]"@).take(start.len() as int) =~= start);
        assert(start.take(start.len() as int) =~= start);
    }
    if p.sort is Some {
        assert(q[a.len() as int] == ("sort"@, p.sort->0));
    }
    if p.related is Some {
        assert(q[b.len() as int] == ("include"@, p.related->0));
    }
    if p.fields is Some {
        assert(q[c.len() as int] == ("fields["@ + (p.fields->0).0 + "]"@, (p.fields->0).1));
    }
    if p.page_number is Some {
        assert(q[d.len() as int] == ("page[number]"@, decimal(p.page_number->0 as nat)));
    }
    if p.page_size is Some {
        assert(q[e.len() as int] == ("page[size]"@, decimal(p.page_size->0 as nat)));
    }
}

/// One resource is asked for with what goes along and the fields that are
/// wanted of it, and with nothing else.
pub proof fn law_one_resource_is_asked_for(
    c: ClientView,
    resource: Seq<char>,
    id: Seq<char>,
    related: Option<Seq<char>>,
    fields: Option<(Seq<char>, Seq<char>)>,
)
    ensures
        get_request(c, resource, id, related, fields) matches Ok(q) ==> {
            &&& related is None && fields is None ==> q.query.len() == 0
            &&& related is Some != fields is Some ==> q.query.len() == 1
            &&& related is Some && fields is Some ==> q.query.len() == 2
            &&& related matches Some(v) ==> q.query.contains(("include"@, v))
            &&& fields matches Some(f) ==> q.query.contains(("fields["@ + f.0 + "]"@, f.1))
        },
{
    let q = opt_param("include"@, related) + fields_param(fields);
    if related is Some {
        assert(q[0] == ("include"@, related->0));
    }
    if fields is Some {
        assert(q[opt_param("include"@, related).len() as int] == (
            "fields["@ + (fields->0).0 + "]"@,
            (fields->0).1,
        ));
    }
}

/// A call goes to the path that was given, with a slash before it, by the
/// method that was given and with the body that was given, as it is; methods
/// that send no body send none.
pub proof fn law_calls_go_out_as_given(
    c: ClientView,
    method: HttpMethod,
    path: Seq<char>,
    data: Option<JsonView>,
)
    ensures
        ({
            let q = call_request(c, method, path, data);
            let slash = path.len() > 0 && path[0] == '/';
            let plain = method == HttpMethod::Get || method == HttpMethod::Delete;
            &&& q.method == method
            &&& slash ==> q.url == base_of(c) + path
            &&& !slash ==> q.url == base_of(c) + ("/"@ + path)
            &&& q.query.len() == 0
            &&& plain ==> q.body == RequestBodyView::Absent
            &&& !plain && data is Some ==> q.body == RequestBodyView::Json(data->0)
            &&& !plain && data is None ==> q.body == RequestBodyView::Empty
            &&& q.headers == (if method == HttpMethod::Delete || (!plain && data is Some) {
                auth_headers(c).push(("Content-Type"@, "application/vnd.api+json"@))
            } else {
                auth_headers(c)
            })
        }),
        path_note(path) is Some <==> path.contains('?') || path.contains('#'),
{
    reveal_strlit("/");
    if path.len() > 0 {
        assert(path.take(1) =~= seq![path[0]]);
        assert("/"@ =~= seq!['/']);
        if starts_with(path, "/"@) {
            assert(path.take(1)[0] == '/');
        }
    }
}

/// The name of a method is what it is called on the wire, and only the methods
/// that write send a body.
pub proof fn law_methods(m: HttpMethod)
    ensures
        m == HttpMethod::Get ==> m.name() == "GET"@ && !m.writes(),
        m == HttpMethod::Delete ==> m.name() == "DELETE"@ && !m.writes(),
        m == HttpMethod::Post ==> m.name() == "POST"@ && m.writes(),
        m == HttpMethod::Patch ==> m.name() == "PATCH"@ && m.writes(),
        m == HttpMethod::Put ==> m.name() == "PUT"@ && m.writes(),
{
}

/// Two URLs have the same origin exactly where scheme, host and port are the
/// same and known.
pub proof fn law_origins(a: UrlView, b: UrlView)
    ensures
        origins(Some(a), Some(b)) == OriginCheck::Same <==> a.scheme == b.scheme && a.host == b.host
            && a.port is Some && a.port == b.port,
        origins(Some(a), Some(b)) == OriginCheck::ParseError <==> a.port is None || b.port is None,
        origins(Some(a), None) == OriginCheck::ParseError,
        origins(None, Some(b)) == OriginCheck::ParseError,
{
}

/// A POST outside the resources goes where it is told, with the body and all
/// the headers that it is given, and with the token exactly where the server is
/// the same one; it is refused where that is not known.
pub proof fn law_posts_go_out_as_given(
    c: ClientView,
    url: Seq<char>,
    headers: PairsView,
    body: RequestBodyView,
    origin: OriginCheck,
)
    ensures
        post_request(c, url, headers, body, origin) is Ok <==> (starts_with(url, "https://"@)
            || starts_with(url, "http://"@)) && origin != OriginCheck::ParseError,
        post_request(c, url, headers, body, origin) matches Ok(p) ==> {
            &&& p.0.method == HttpMethod::Post && p.0.url == url && p.0.body == body
            &&& p.0.query.len() == 0 && !p.0.follow_redirects
            &&& origin == OriginCheck::Same ==> p.0.headers == auth_headers(c) + headers
                && p.1 is None
            &&& origin != OriginCheck::Same ==> p.0.headers == headers && p.1 is Some
        },
{
}

/// A file goes to storage as it is, with the headers that storage wants and
/// without the token.
pub proof fn law_puts_go_out_as_given(url: Seq<char>, headers: PairsView, body: Seq<u8>)
    ensures
        put_request(url, headers, body) is Ok <==> starts_with(url, "https://"@) || starts_with(
            url,
            "http://"@,
        ),
        put_request(url, headers, body) matches Ok(q) ==> q.method == HttpMethod::Put && q.url
            == url && q.query.len() == 0 && q.headers == headers && q.body
            == RequestBodyView::Bytes(body) && !q.follow_redirects,
{
}

/// What is refused is told with its name and, where there is one, its value.
pub proof fn law_refused_values_are_named(value: Seq<char>, name: Seq<char>, bin: Seq<char>)
    ensures
        segment_error(Seq::empty(), name) == Some("Error: "@ + name + " must not be empty."@),
        query_error(Seq::empty(), name) == Some("Error: "@ + name + " must not be empty."@),
        value.len() > 0 && !spelled(value, Seq::empty()) ==> segment_error(value, name) == Some(
            "Error: invalid "@ + name + " "@ + quoted(value)
                + " - must contain only ASCII alphanumerics, hyphens, and underscores."@,
        ),
        value.len() > 0 && !spelled(value, seq!['.', ',']) ==> query_error(value, name) == Some(
            "Error: invalid "@ + name + " "@ + quoted(value)
                + " - must contain only ASCII alphanumerics, hyphens, underscores, dots, and commas."@,
        ),
        token_error(Seq::empty(), bin) == Some(
            "Stored token is empty - run `"@ + bin + " login` again."@,
        ),
        value.len() > 0 ==> (token_error(value, bin) matches Some(e) ==> e
            == "Stored token contains invalid characters - run `"@ + bin + " login` again."@),
{
    law_values_are_spelled(value, name, bin);
}

/// Of several faults of a request the first part at fault is told: the resource,
/// then the id, then what goes along and the fields.
pub proof fn law_first_fault_is_told(
    c: ClientView,
    resource: Seq<char>,
    id: Seq<char>,
    data: JsonView,
    p: ListView,
    related: Option<Seq<char>>,
    fields: Option<(Seq<char>, Seq<char>)>,
)
    ensures
        segment_error(resource, "resource"@) matches Some(e) ==> {
            &&& list_request(c, resource, p) == Err::<RequestView, Seq<char>>(e)
            &&& get_request(c, resource, id, related, fields) == Err::<RequestView, Seq<char>>(e)
            &&& delete_request(c, resource, id) == Err::<RequestView, Seq<char>>(e)
            &&& create_request(c, resource, data) == Err::<RequestView, Seq<char>>(e)
            &&& update_request(c, resource, id, data) == Err::<RequestView, Seq<char>>(e)
        },
        segment_error(resource, "resource"@) is None ==> (segment_error(id, "id"@) matches Some(e)
            ==> {
            &&& get_request(c, resource, id, related, fields) == Err::<RequestView, Seq<char>>(e)
            &&& delete_request(c, resource, id) == Err::<RequestView, Seq<char>>(e)
            &&& update_request(c, resource, id, data) == Err::<RequestView, Seq<char>>(e)
        }),
{
}

/// A request to another server, or to no known one, is told with both servers; a
/// URL that no request goes to is told too.
pub proof fn law_other_servers_are_told(
    c: ClientView,
    url: Seq<char>,
    path: Seq<char>,
    headers: PairsView,
    body: RequestBodyView,
    bytes: Seq<u8>,
    origin: OriginCheck,
)
    ensures
        post_request(c, url, headers, body, origin) matches Ok(p) ==> (p.1 matches Some(w) ==> w
            == "Warning: could not confirm "@ + url + " is the same server as "@ + base_of(c)
            + " - sending this request without the Authorization header (a 401 response likely follows)."@),
        !starts_with(url, "https://"@) && !starts_with(url, "http://"@) ==> post_request(
            c,
            url,
            headers,
            body,
            origin,
        ) == Err::<(RequestView, Option<Seq<char>>), Seq<char>>(
            "Error: raw_post URL must use http or https scheme: "@ + url,
        ) && put_request(url, headers, bytes) == Err::<RequestView, Seq<char>>(
            "Error: raw_put URL must use http or https scheme: "@ + url,
        ),
        starts_with(url, "https://"@) || starts_with(url, "http://"@) ==> post_request(
            c,
            url,
            headers,
            body,
            OriginCheck::ParseError,
        ) == Err::<(RequestView, Option<Seq<char>>), Seq<char>>(
            "Error: could not parse "@ + url + " or "@ + base_of(c)
                + " to check same-origin - refusing to send this request."@,
        ),
        path_note(path) is Some <==> path.contains('?') || path.contains('#'),
        path_note(path) matches Some(n) ==> starts_with(n, "Note: "@ + path),
{
    if path_note(path) is Some {
        let n = path_note(path)->0;
        let start = "Note: "@ + path;
        assert(n.take(start.len() as int) =~= start);
    }
}

/// The requests for resources follow redirects, and so do the calls of a path.
pub proof fn law_which_requests_follow_redirects(
    c: ClientView,
    resource: Seq<char>,
    id: Seq<char>,
    data: JsonView,
    p: ListView,
    related: Option<Seq<char>>,
    fields: Option<(Seq<char>, Seq<char>)>,
    method: HttpMethod,
    path: Seq<char>,
    sent: Option<JsonView>,
)
    ensures
        list_request(c, resource, p) matches Ok(q) ==> q.follow_redirects,
        get_request(c, resource, id, related, fields) matches Ok(q) ==> q.follow_redirects,
        delete_request(c, resource, id) matches Ok(q) ==> q.follow_redirects,
        create_request(c, resource, data) matches Ok(q) ==> q.follow_redirects,
        update_request(c, resource, id, data) matches Ok(q) ==> q.follow_redirects,
        call_request(c, method, path, sent).follow_redirects,
{
}

/// Of what a list is asked for with, the first part at fault is told: a filter,
/// then the order, then what goes along, then the fields.
pub proof fn law_faults_of_a_list_are_told(
    c: ClientView,
    resource: Seq<char>,
    p: ListView,
    id: Seq<char>,
    i: int,
)
    requires
        segment_error(resource, "resource"@) is None,
    ensures
        0 <= i < p.filters.len() && segment_error(p.filters[i].0, "filter key"@) is Some && (
        forall|j: int|
            0 <= j < i ==> segment_error((#[trigger] p.filters[j]).0, "filter key"@) is None)
            ==> list_request(c, resource, p) == Err::<RequestView, Seq<char>>(
            segment_error(p.filters[i].0, "filter key"@)->0,
        ),
        p.filters.len() == 0 ==> (p.sort matches Some(v) ==> (query_error(v, "sort"@) matches Some(e)
            ==> list_request(c, resource, p) == Err::<RequestView, Seq<char>>(e))),
        p.filters.len() == 0 && p.sort is None ==> (p.related matches Some(v) ==> (query_error(
            v,
            "include"@,
        ) matches Some(e) ==> list_request(c, resource, p) == Err::<RequestView, Seq<char>>(e))),
        p.filters.len() == 0 && p.sort is None && p.related is None ==> (p.fields matches Some(f)
            ==> (segment_error(f.0, "fields type"@) matches Some(e) ==> list_request(c, resource, p)
            == Err::<RequestView, Seq<char>>(e))),
        segment_error(id, "id"@) is None ==> (p.related matches Some(v) ==> (query_error(
            v,
            "include"@,
        ) matches Some(e) ==> get_request(c, resource, id, p.related, p.fields) == Err::<
            RequestView,
            Seq<char>,
        >(e))),
        segment_error(id, "id"@) is None && p.related is None ==> (p.fields matches Some(f) ==> (
        segment_error(f.0, "fields type"@) matches Some(e) ==> get_request(
            c,
            resource,
            id,
            p.related,
            p.fields,
        ) == Err::<RequestView, Seq<char>>(e))),
{
    if 0 <= i < p.filters.len() && segment_error(p.filters[i].0, "filter key"@) is Some && (
    forall|j: int|
        0 <= j < i ==> segment_error((#[trigger] p.filters[j]).0, "filter key"@) is None) {
        lemma_first_filter_error(p.filters, i);
    }
}

proof fn lemma_first_filter_error(filters: PairsView, i: int)
    requires
        0 <= i < filters.len(),
        segment_error(filters[i].0, "filter key"@) is Some,
        forall|j: int|
            0 <= j < i ==> segment_error((#[trigger] filters[j]).0, "filter key"@) is None,
    ensures
        filters_error(filters) == segment_error(filters[i].0, "filter key"@),
    decreases filters.len(),
{
    let before = filters.drop_last();
    if i < filters.len() - 1 {
        assert(before[i] == filters[i]);
        assert forall|j: int| 0 <= j < i implies segment_error(
            (#[trigger] before[j]).0,
            "filter key"@,
        ) is None by {
            assert(before[j] == filters[j]);
        }
        lemma_first_filter_error(before, i);
    } else {
        lemma_no_filter_error(before);
    }
}

proof fn lemma_no_filter_error(filters: PairsView)
    requires
        forall|j: int|
            0 <= j < filters.len() ==> segment_error((#[trigger] filters[j]).0, "filter key"@)
                is None,
    ensures
        filters_error(filters) is None,
    decreases filters.len(),
{
    if filters.len() > 0 {
        let before = filters.drop_last();
        assert forall|j: int| 0 <= j < before.len() implies segment_error(
            (#[trigger] before[j]).0,
            "filter key"@,
        ) is None by {
            assert(before[j] == filters[j]);
        }
        lemma_no_filter_error(before);
    }
}

} // verus!
