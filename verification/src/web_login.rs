//! Signing in through the browser. The browser comes back with a code to this
//! machine, or, where it cannot, the user types a code in.

use crate::address::{url_view, ParsedUrl, UrlView};
use crate::client::{
    auth_headers, base_of, law_posts_go_out_as_given, origins, post_request, post_view, ApiClient,
    ApiRequest, ClientView, HttpMethod, OriginCheck, PairsView, RequestBody, RequestBodyView,
    RequestView,
};
use crate::config::{
    classify_parsed, enforce_verdict, enforced, verdict, Config, SettingsView, VerdictView,
};
use crate::json::{field, then_field, then_get, then_str, then_text, JsonView};
use crate::outside::{
    base64_url, encode_base64_url, parse_url, random_bytes, sha256_digest, sha256_of, url_of,
};
use crate::response::{body_of, detail_of, success, ApiResponse, BodyKind, ResponseView};
use crate::sso::{after_first_word, first_word, law_query_of_a_request, query_in};
use crate::text::{
    add_line, all_in, byte_length, decimal, has_text, law_put_around, law_split_first,
    law_split_once, no_lines, number_text, one_line, opt_text, same, split, split_at_first,
    split_once, split_text, starts_with, text_pairs, texts, to_chars, trim_end, without_end,
    CharClass,
};
use vstd::prelude::*;
use vstd::string::*;
use vstd::utf8::encode_utf8;

verus! {

/// How long a sign-in is waited for, in seconds. The server gives up sooner.
pub const LOGIN_TIMEOUT_SECONDS: u64 = 360;

/// How long it takes until the server is asked again, in seconds.
pub const POLL_INTERVAL_SECONDS: u64 = 3;

/// How long it takes until the server is asked again, in seconds, where it has
/// been asked for `elapsed` seconds: one interval, or two where one is to be
/// added. What is added comes before the time is tested.
pub open spec fn poll_pause(extra: bool, elapsed: u64) -> Option<u64> {
    let added: u64 = if extra {
        POLL_INTERVAL_SECONDS
    } else {
        0
    };
    if elapsed + added >= LOGIN_TIMEOUT_SECONDS {
        None
    } else {
        Some((added + POLL_INTERVAL_SECONDS) as u64)
    }
}

/// How long it takes until the server is asked again, unless the time for it
/// is over.
pub fn poll_wait(extra: bool, elapsed: u64) -> (r: Option<u64>)
    ensures
        r == poll_pause(extra, elapsed),
{
    if extra {
        if elapsed >= LOGIN_TIMEOUT_SECONDS - POLL_INTERVAL_SECONDS {
            None
        } else {
            Some(POLL_INTERVAL_SECONDS + POLL_INTERVAL_SECONDS)
        }
    } else if elapsed >= LOGIN_TIMEOUT_SECONDS {
        None
    } else {
        Some(POLL_INTERVAL_SECONDS)
    }
}

/// The server is asked at intervals, for as long as a sign-in is waited for and
/// no longer than one interval beyond that.
pub proof fn law_polling_ends(extra: bool, elapsed: u64)
    ensures
        elapsed >= LOGIN_TIMEOUT_SECONDS ==> poll_pause(extra, elapsed) is None,
        poll_pause(extra, elapsed) matches Some(n) ==> n >= POLL_INTERVAL_SECONDS && elapsed + n
            < LOGIN_TIMEOUT_SECONDS + POLL_INTERVAL_SECONDS,
{
}

/// What is said where the system gives no random bytes.
pub open spec fn no_randomness(error: Seq<char>) -> Seq<char> {
    "Could not obtain OS randomness for the sign-in secret: "@ + error
}

/// A secret of 32 random bytes, in URL-safe base64. Nothing is said of which
/// bytes they are.
pub fn random_secret() -> (r: Result<String, String>)
    ensures
        match r {
            Ok(s) => s@.len() == 43 && all_in(s@, CharClass::PathSegment) && exists|b: Seq<u8>|
                b.len() == 32 && s@ == #[trigger] base64_url(b),
            Err(m) => exists|e: Seq<char>| m@ == #[trigger] no_randomness(e),
        },
{
    match random_bytes(32) {
        Ok(bytes) => Ok(secret_from(bytes.as_slice())),
        Err(e) => {
            let message = "Could not obtain OS randomness for the sign-in secret: ".to_owned().concat(
                e.as_str(),
            );
            assert(message@ == no_randomness(e@));
            Err(message)
        },
    }
}

/// The secret that these bytes are.
pub fn secret_from(bytes: &[u8]) -> (r: String)
    requires
        bytes@.len() == 32,
    ensures
        r@ == base64_url(bytes@),
        r@.len() == 43,
        all_in(r@, CharClass::PathSegment),
{
    encode_base64_url(bytes)
}

/// What the server is told of a secret: its SHA-256 digest in URL-safe base64.
pub open spec fn challenge(verifier: Seq<char>) -> Seq<char> {
    base64_url(sha256_of(encode_utf8(verifier)))
}

/// What the server is told of a secret.
pub fn challenge_for(verifier: &str) -> (r: String)
    ensures
        r@ == challenge(verifier@),
        r@.len() == 43,
        all_in(r@, CharClass::PathSegment),
{
    let digest = sha256_digest(verifier.as_bytes());
    encode_base64_url(digest.as_slice())
}

/// The value of the first parameter named `code`.
pub open spec fn code_value(parts: Seq<Seq<char>>) -> Option<Seq<char>>
    decreases parts.len(),
{
    if parts.len() == 0 {
        None
    } else {
        match split_once(parts[0], '=') {
            Some(p) => if p.0 == "code"@ {
                Some(p.1)
            } else {
                code_value(parts.drop_first())
            },
            None => code_value(parts.drop_first()),
        }
    }
}

pub open spec fn plus_as_space(s: Seq<char>) -> Seq<char> {
    Seq::new(
        s.len(),
        |i: int|
            if s[i] == '+' {
                ' '
            } else {
                s[i]
            },
    )
}

/// The code that a request line brings.
pub open spec fn code_in(line: Seq<char>) -> Option<Seq<char>> {
    match split_once(first_word(after_first_word(line)), '?') {
        Some(p) => match code_value(split(p.1, '&')) {
            Some(v) => if v.len() > 0 {
                Some(plus_as_space(v))
            } else {
                None
            },
            None => None,
        },
        None => None,
    }
}

fn find_code(query: &str) -> (r: Option<String>)
    ensures
        opt_text(r) == code_value(split(query@, '&')),
{
    let parts = split_text(query, '&');
    let ghost all = texts(parts@);
    let mut i: usize = 0;
    assert(all.skip(0) =~= all);
    while i < parts.len()
        invariant
            i <= parts@.len(),
            all == texts(parts@),
            all == split(query@, '&'),
            code_value(all) == code_value(all.skip(i as int)),
        decreases parts@.len() - i,
    {
        assert(all.skip(i as int)[0] == parts@[i as int]@);
        assert(all.skip(i as int).drop_first() =~= all.skip(i + 1));
        if let Some((key, value)) = split_at_first(parts[i].as_str(), '=') {
            if same(key.as_str(), "code") {
                return Some(value);
            }
        }
        i = i + 1;
    }
    None
}

fn spaces_for_plus(s: &str) -> (r: String)
    ensures
        r@ == plus_as_space(s@),
{
    let chars = to_chars(s);
    let mut out: String = String::new();
    for i in 0..chars.len()
        invariant
            chars@ == s@,
            out@ == plus_as_space(s@).take(i as int),
    {
        out.push(
            if chars[i] == '+' {
                ' '
            } else {
                chars[i]
            },
        );
        assert(plus_as_space(s@).take(i + 1) =~= plus_as_space(s@).take(i as int).push(
            plus_as_space(s@)[i as int],
        ));
    }
    assert(plus_as_space(s@).take(chars@.len() as int) =~= plus_as_space(s@));
    out
}

/// The code that a request line brings, if any.
pub fn code_from_request_line(line: &str) -> (r: Option<String>)
    ensures
        opt_text(r) == code_in(line@),
{
    let query = query_in(line);
    match find_code(query.as_str()) {
        Some(v) => if v.as_str().unicode_len() > 0 {
            proof {
                lemma_no_code_without_query(line@);
            }
            Some(spaces_for_plus(v.as_str()))
        } else {
            None
        },
        None => None,
    }
}

proof fn lemma_no_code_without_query(line: Seq<char>)
    ensures
        split_once(first_word(after_first_word(line)), '?') is None ==> code_value(
            split(Seq::<char>::empty(), '&'),
        ) is None,
{
    let none = Seq::<char>::empty();
    let parts = split(none, '&');
    assert(parts =~= seq![none]);
    assert(split_once(none, '=') is None);
    assert(parts.drop_first() =~= Seq::<Seq<char>>::empty());
    assert(code_value(parts.drop_first()) is None);
}

/// What the browser shows then.
pub open spec fn page_text(found: bool) -> Seq<char> {
    if found {
        "<!doctype html><meta charset=utf-8><title>Signed in</title><p>You are signed in. You can close this window and go back to your terminal."@
    } else {
        "<!doctype html><meta charset=utf-8><title>Sign-in failed</title><p>That reply carried no sign-in code. Go back to your terminal and run the command again."@
    }
}

pub open spec fn page_response(found: bool) -> Seq<char> {
    "HTTP/1.1 200 OK\r\nContent-Type: text/html; charset=utf-8\r\nContent-Length: "@ + decimal(
        encode_utf8(page_text(found)).len(),
    ) + "\r\nConnection: close\r\n\r\n"@ + page_text(found)
}

/// The code that the browser brought, and what it is answered.
pub fn wait_for_code(request_line: &str) -> (r: (Option<String>, String))
    ensures
        opt_text(r.0) == code_in(request_line@),
        r.1@ == page_response(code_in(request_line@) is Some),
{
    let code = code_from_request_line(request_line);
    let page = match &code {
        Some(_) =>
        "<!doctype html><meta charset=utf-8><title>Signed in</title><p>You are signed in. You can close this window and go back to your terminal.",
        None =>
        "<!doctype html><meta charset=utf-8><title>Sign-in failed</title><p>That reply carried no sign-in code. Go back to your terminal and run the command again.",
    };
    let answer =
        "HTTP/1.1 200 OK\r\nContent-Type: text/html; charset=utf-8\r\nContent-Length: ".to_owned().concat(
        number_text(byte_length(page) as u128).as_str(),
    ).concat("\r\nConnection: close\r\n\r\n").concat(page);
    (code, answer)
}

/// What the answer to a poll means.
#[derive(Clone, Copy, Debug, PartialEq, Eq, Structural)]
pub enum PollStep {
    /// Nobody has approved the request yet.
    Wait,
    /// The token is here.
    Done,
    /// The request is used up.
    Spent,
    /// Something passing: wait once more as long.
    BackOff,
    /// Something that waiting does not mend.
    Fail,
}

pub open spec fn poll_meaning(status: u16) -> PollStep {
    if status == 200 {
        PollStep::Done
    } else if status == 202 {
        PollStep::Wait
    } else if status == 404 {
        PollStep::Spent
    } else if status == 429 || 500 <= status < 600 {
        PollStep::BackOff
    } else {
        PollStep::Fail
    }
}

/// What a status means to the poll. A rate limit and a fault of the server
/// pass, so they do not end the sign-in.
pub fn poll_step(status: u16) -> (r: PollStep)
    ensures
        r == poll_meaning(status),
{
    if status == 200 {
        PollStep::Done
    } else if status == 202 {
        PollStep::Wait
    } else if status == 404 {
        PollStep::Spent
    } else if status == 429 || (500 <= status && status < 600) {
        PollStep::BackOff
    } else {
        PollStep::Fail
    }
}

/// A text among the attributes of a response.
pub open spec fn attribute(r: ResponseView, name: Seq<char>) -> Option<Seq<char>> {
    then_text(then_field(then_field(then_field(body_of(r), "data"@), "attributes"@), name))
}

/// A text among the attributes of a response.
pub fn string_attribute(response: &ApiResponse, name: &str) -> (r: Option<String>)
    ensures
        opt_text(r) == attribute(response@, name@),
{
    match then_str(then_get(then_get(then_get(response.body(), "data"), "attributes"), name)) {
        Some(s) => Some(s.to_owned()),
        None => None,
    }
}

/// The token of a response, or that there is none.
pub open spec fn token_in(r: ResponseView) -> Result<Seq<char>, Seq<char>> {
    match attribute(r, "token"@) {
        Some(t) => Ok(t),
        None => Err("The sign-in completed but the server's response carried no token."@),
    }
}

/// The page to sign in on, with what is said of it, or why it cannot be used:
/// the one that was asked for, else the one that the server names, else the
/// default.
pub open spec fn sign_in_page(
    c: SettingsView,
    announced: Option<Seq<char>>,
    parsed: Option<UrlView>,
) -> Result<(Seq<char>, Option<Seq<char>>), Seq<char>> {
    match announced {
        Some(url) => if c.web_url_explicit {
            Ok((c.web_url, None))
        } else {
            match enforced(verdict(url, parsed), c.force_insecure) {
                Ok(warning) => Ok((url, warning)),
                Err(e) => Err(
                    "The server announced a sign-in page URL that can't be used: "@ + e,
                ),
            }
        },
        None => Ok(
            (
                c.web_url,
                if c.web_url_explicit {
                    None
                } else {
                    Some(
                        "Note: this server doesn't announce its sign-in page; opening "@ + c.web_url
                            + " - pass --web-url if that's the wrong web app for "@ + c.api_url
                            + "."@,
                    )
                },
            ),
        ),
    }
}

/// What a response announces as the page to sign in on.
pub open spec fn announced_page(r: ResponseView) -> Option<Seq<char>> {
    match attribute(r, "web_url"@) {
        Some(w) => Some(trim_end(w, CharClass::Is('/'))),
        None => None,
    }
}

pub open spec fn page_of(c: SettingsView, r: ResponseView) -> Result<
    (Seq<char>, Option<Seq<char>>),
    Seq<char>,
> {
    let announced = announced_page(r);
    sign_in_page(
        c,
        announced,
        match announced {
            Some(url) => url_of(url),
            None => None,
        },
    )
}

pub open spec fn page_result(r: Result<(String, Option<String>), String>) -> Result<
    (Seq<char>, Option<Seq<char>>),
    Seq<char>,
> {
    match r {
        Ok(p) => Ok((p.0@, opt_text(p.1))),
        Err(e) => Err(e@),
    }
}

/// The page to sign in on, where the one that the server names has been taken
/// apart.
pub fn choose_web_url(config: &Config, announced: Option<String>, parsed: &Option<ParsedUrl>) -> (r: Result<
    (String, Option<String>),
    String,
>)
    ensures
        page_result(r) == sign_in_page(config@, opt_text(announced), url_view(*parsed)),
{
    match announced {
        Some(url) => if config.web_url_explicit() {
            Ok((config.web_url().to_owned(), None))
        } else {
            let v = classify_parsed(url.as_str(), parsed);
            match enforce_verdict(v, config.force_insecure()) {
                Ok(warning) => Ok((url, warning)),
                Err(e) => Err(
                    "The server announced a sign-in page URL that can't be used: ".to_owned().concat(
                        e.as_str(),
                    ),
                ),
            }
        },
        None => {
            let note = if config.web_url_explicit() {
                None
            } else {
                Some(
                    "Note: this server doesn't announce its sign-in page; opening ".to_owned().concat(
                        config.web_url(),
                    ).concat(" - pass --web-url if that's the wrong web app for ").concat(
                        config.api_url(),
                    ).concat("."),
                )
            };
            Ok((config.web_url().to_owned(), note))
        },
    }
}

/// The page to sign in on. A server that stands for a test system sends its
/// users to its own page, but not to one that is not safe.
pub fn resolve_web_url(config: &Config, response: &ApiResponse) -> (r: Result<
    (String, Option<String>),
    String,
>)
    ensures
        page_result(r) == page_of(config@, response@),
{
    match string_attribute(response, "web_url") {
        Some(w) => {
            let url = without_end(w.as_str(), CharClass::Is('/'));
            let parsed = parse_url(url.as_str());
            choose_web_url(config, Some(url), &parsed)
        },
        None => choose_web_url(config, None, &None),
    }
}

/// What a request to sign in through the browser says.
pub open spec fn loopback_body(challenge: Seq<char>, port: u16) -> Seq<char> {
    "{\"data\":{\"type\":\"cli_auth_requests\",\"attributes\":{\"kind\":\"loopback\",\"client\":\"cli\",\"code_challenge\":\""@
        + challenge + "\",\"redirect_port\":"@ + decimal(port as nat) + "}}}"@
}

/// What a request to sign in with a code to type in says.
pub open spec fn device_body() -> Seq<char> {
    "{\"data\":{\"type\":\"cli_auth_requests\",\"attributes\":{\"kind\":\"device\",\"client\":\"cli\"}}}"@
}

/// What the token is asked for with: the code of the browser and the secret.
pub open spec fn claim_body(code: Seq<char>, verifier: Seq<char>) -> Seq<char> {
    "{\"data\":{\"type\":\"cli_auth_requests\",\"attributes\":{\"code\":\""@ + code
        + "\",\"code_verifier\":\""@ + verifier + "\"}}}"@
}

pub open spec fn device_claim_body(device_code: Seq<char>) -> Seq<char> {
    "{\"data\":{\"type\":\"cli_auth_requests\",\"attributes\":{\"device_code\":\""@ + device_code
        + "\"}}}"@
}

pub open spec fn json_headers() -> PairsView {
    seq![("Content-Type"@, "application/json"@)]
}

/// A request of the sign-in, and what is said of it.
pub open spec fn sign_in_request(c: ClientView, url: Seq<char>, body: Seq<char>) -> Result<
    (RequestView, Option<Seq<char>>),
    Seq<char>,
> {
    post_request(
        c,
        url,
        json_headers(),
        RequestBodyView::Text(body),
        origins(url_of(base_of(c)), url_of(url)),
    )
}

pub(crate) fn post_text(client: &ApiClient, url: &str, body: String) -> (r: Result<
    (ApiRequest, Option<String>),
    String,
>)
    ensures
        post_view(r) == sign_in_request(client@, url@, body@),
{
    let mut headers: Vec<(String, String)> = Vec::new();
    headers.push(("Content-Type".to_owned(), "application/json".to_owned()));
    assert(text_pairs(headers@) =~= json_headers());
    client.raw_post(url, headers.as_slice(), RequestBody::Text(body))
}

/// What a refused request to sign in is answered, or what is warned of.
pub open spec fn registration(r: ResponseView, bin: Seq<char>, compact: Seq<char>) -> Result<
    Seq<Seq<char>>,
    Seq<Seq<char>>,
> {
    if !success(r) {
        Err(
            seq![
                "Could not start a browser sign-in ("@ + decimal(r.status as nat) + "): "@
                    + detail_of(r.kind, bin, compact),
                "If this Klaay environment predates the current sign-in support, upgrade the server, or ask an administrator for a token and run `"@
                    + bin + " login --with-token`."@,
            ],
        )
    } else {
        match attribute(r, "deprecation_warning"@) {
            Some(w) => Ok(seq!["Warning: "@ + w]),
            None => Ok(Seq::empty()),
        }
    }
}

pub open spec fn registration_result(r: Result<Vec<String>, Vec<String>>) -> Result<
    Seq<Seq<char>>,
    Seq<Seq<char>>,
> {
    match r {
        Ok(lines) => Ok(texts(lines@)),
        Err(lines) => Err(texts(lines@)),
    }
}

/// Whether the request to sign in was taken: what is warned of, or the lines
/// that say why not.
pub fn register(response: &ApiResponse, bin: &str, compact: &str) -> (r: Result<
    Vec<String>,
    Vec<String>,
>)
    ensures
        registration_result(r) == registration(response@, bin@, compact@),
{
    if !response.is_success() {
        let mut lines = one_line(
            "Could not start a browser sign-in (".to_owned().concat(
                number_text(response.status() as u128).as_str(),
            ).concat("): ").concat(response.error_detail(bin, compact).as_str()),
        );
        add_line(
            &mut lines,
            "If this Klaay environment predates the current sign-in support, upgrade the server, or ask an administrator for a token and run `".to_owned().concat(
                bin,
            ).concat(" login --with-token`."),
        );
        assert(texts(lines@) =~= registration(response@, bin@, compact@)->Err_0);
        return Err(lines);
    }
    match string_attribute(response, "deprecation_warning") {
        Some(w) => Ok(one_line("Warning: ".to_owned().concat(w.as_str()))),
        None => Ok(no_lines()),
    }
}

/// What is made of a secret for the server is its SHA-256 digest in base64.
pub proof fn law_challenge_is_the_digest(verifier: Seq<char>)
    ensures
        challenge(verifier) == base64_url(sha256_of(encode_utf8(verifier))),
{
}

/// The code of a query is the value of its first parameter `code`, wherever it
/// stands; without such a parameter there is none.
pub proof fn law_first_code_counts(parts: Seq<Seq<char>>, at: int, value: Seq<char>)
    requires
        0 <= at <= parts.len(),
        at < parts.len() ==> parts[at] == "code="@ + value,
        forall|i: int| 0 <= i < at ==> !starts_with(#[trigger] parts[i], "code="@),
    ensures
        at < parts.len() ==> code_value(parts) == Some(value),
        at == parts.len() ==> code_value(parts) is None,
    decreases parts.len(),
{
    reveal_strlit("code");
    reveal_strlit("code=");
    assert("code="@ =~= "code"@ + seq!['=']);
    if parts.len() > 0 {
        let p = parts[0];
        law_split_once(p, '=');
        if at == 0 {
            assert(p =~= "code"@ + seq!['='] + value);
            assert(!"code"@.contains('='));
            law_split_first("code"@, '=', value);
        } else {
            let rest = parts.drop_first();
            if let Some(q) = split_once(p, '=') {
                if q.0 == "code"@ {
                    assert(p =~= "code="@ + q.1);
                    law_put_around("code="@, q.1, Seq::empty());
                }
            }
            assert forall|i: int| 0 <= i < at - 1 implies !starts_with(
                #[trigger] rest[i],
                "code="@,
            ) by {
                assert(rest[i] == parts[i + 1]);
            }
            if at < parts.len() {
                assert(rest[at - 1] == parts[at]);
            }
            law_first_code_counts(rest, at - 1, value);
        }
    }
}

/// The code that the browser brings is that of the query of its request, with
/// spaces for plus signs; an empty one is none.
pub proof fn law_code_comes_from_the_query(
    method: Seq<char>,
    path: Seq<char>,
    query: Seq<char>,
    version: Seq<char>,
)
    requires
        method.len() > 0,
        forall|i: int| 0 <= i < method.len() ==> !CharClass::White.holds(#[trigger] method[i]),
        forall|i: int| 0 <= i < path.len() ==> !CharClass::White.holds(#[trigger] path[i]),
        forall|i: int| 0 <= i < query.len() ==> !CharClass::White.holds(#[trigger] query[i]),
        !path.contains('?'),
    ensures
        ({
            let line = method + seq![' '] + (path + seq!['?'] + query) + (seq![' '] + version);
            match code_value(split(query, '&')) {
                Some(v) => if v.len() > 0 {
                    code_in(line) == Some(plus_as_space(v))
                } else {
                    code_in(line) is None
                },
                None => code_in(line) is None,
            }
        }),
{
    law_query_of_a_request(method, path, query, version);
    law_split_first(path, '?', query);
}

/// A plus sign stands for a space, and everything else for itself.
pub proof fn law_plus_is_a_space(s: Seq<char>, i: int)
    requires
        0 <= i < s.len(),
    ensures
        plus_as_space(s).len() == s.len(),
        s[i] == '+' ==> plus_as_space(s)[i] == ' ',
        s[i] != '+' ==> plus_as_space(s)[i] == s[i],
{
}

/// The browser is answered with a page whose length is told, and the page says
/// that the sign-in worked only where it did.
pub proof fn law_browser_gets_a_page(found: bool)
    ensures
        page_response(found)
            == "HTTP/1.1 200 OK\r\nContent-Type: text/html; charset=utf-8\r\nContent-Length: "@
            + decimal(encode_utf8(page_text(found)).len()) + "\r\nConnection: close\r\n\r\n"@
            + page_text(found),
        starts_with(
            page_text(found),
            if found {
                "<!doctype html><meta charset=utf-8><title>Signed in</title>"@
            } else {
                "<!doctype html><meta charset=utf-8><title>Sign-in failed</title>"@
            },
        ),
{
    reveal_strlit("<!doctype html><meta charset=utf-8><title>Signed in</title>");
    reveal_strlit("<!doctype html><meta charset=utf-8><title>Sign-in failed</title>");
    reveal_strlit(
        "<!doctype html><meta charset=utf-8><title>Signed in</title><p>You are signed in. You can close this window and go back to your terminal.",
    );
    reveal_strlit(
        "<!doctype html><meta charset=utf-8><title>Sign-in failed</title><p>That reply carried no sign-in code. Go back to your terminal and run the command again.",
    );
    if found {
        let start = "<!doctype html><meta charset=utf-8><title>Signed in</title>"@;
        assert(page_text(found).take(start.len() as int) =~= start);
    } else {
        let start = "<!doctype html><meta charset=utf-8><title>Sign-in failed</title>"@;
        assert(page_text(found).take(start.len() as int) =~= start);
    }
}

/// An attribute of a response is the text that its data has under the name.
pub proof fn law_attributes_are_read(r: ResponseView, name: Seq<char>, value: Seq<char>)
    ensures
        attribute(r, name) == Some(value) <==> r.kind == BodyKind::Json && (field(
            r.body,
            "data"@,
        ) matches Some(data) && (field(data, "attributes"@) matches Some(attributes) && field(
            attributes,
            name,
        ) == Some(JsonView::Text(value)))),
        token_in(r) == Ok::<Seq<char>, Seq<char>>(value) <==> attribute(r, "token"@) == Some(value),
{
}

/// The page to sign in on: what the user asked for comes first, then what the
/// server announces, if it may be used, and then the default, which is told of.
pub proof fn law_sign_in_page(c: SettingsView, url: Seq<char>, parsed: Option<UrlView>)
    ensures
        c.web_url_explicit ==> sign_in_page(c, Some(url), parsed) == Ok::<
            (Seq<char>, Option<Seq<char>>),
            Seq<char>,
        >((c.web_url, None)) && sign_in_page(c, None, parsed) == Ok::<
            (Seq<char>, Option<Seq<char>>),
            Seq<char>,
        >((c.web_url, None)),
        !c.web_url_explicit ==> match verdict(url, parsed) {
            VerdictView::Safe => sign_in_page(c, Some(url), parsed) == Ok::<
                (Seq<char>, Option<Seq<char>>),
                Seq<char>,
            >((url, None)),
            VerdictView::PlaintextRisk(m) => if c.force_insecure {
                sign_in_page(c, Some(url), parsed) == Ok::<
                    (Seq<char>, Option<Seq<char>>),
                    Seq<char>,
                >((url, Some("Warning: "@ + m)))
            } else {
                sign_in_page(c, Some(url), parsed) is Err
            },
            VerdictView::UrlProblem(_) => sign_in_page(c, Some(url), parsed) is Err,
        },
        !c.web_url_explicit ==> (sign_in_page(c, None, parsed) matches Ok(p) && p.0 == c.web_url
            && p.1 is Some),
{
}

/// What the server announces is read as it is but for slashes at its end.
pub proof fn law_announced_page_is_used(c: SettingsView, r: ResponseView)
    ensures
        attribute(r, "web_url"@) matches Some(w) ==> page_of(c, r) == sign_in_page(
            c,
            Some(trim_end(w, CharClass::Is('/'))),
            url_of(trim_end(w, CharClass::Is('/'))),
        ),
        attribute(r, "web_url"@) is None ==> page_of(c, r) == sign_in_page(c, None, None),
{
}

/// What the server is told at each point of a sign-in, as JSON: the challenge
/// and the port, the code and the secret, or the long code.
pub proof fn law_sign_in_bodies(challenge: Seq<char>, port: u16, code: Seq<char>, verifier: Seq<char>)
    ensures
        loopback_body(challenge, port)
            == "{\"data\":{\"type\":\"cli_auth_requests\",\"attributes\":{\"kind\":\"loopback\",\"client\":\"cli\",\"code_challenge\":\""@
            + challenge + "\",\"redirect_port\":"@ + decimal(port as nat) + "}}}"@,
        claim_body(code, verifier)
            == "{\"data\":{\"type\":\"cli_auth_requests\",\"attributes\":{\"code\":\""@ + code
            + "\",\"code_verifier\":\""@ + verifier + "\"}}}"@,
        device_claim_body(code)
            == "{\"data\":{\"type\":\"cli_auth_requests\",\"attributes\":{\"device_code\":\""@ + code
            + "\"}}}"@,
        device_body()
            == "{\"data\":{\"type\":\"cli_auth_requests\",\"attributes\":{\"kind\":\"device\",\"client\":\"cli\"}}}"@,
{
}

/// A request of the sign-in is a POST of this text, said to be JSON, to this
/// URL.
pub proof fn law_sign_in_requests(c: ClientView, url: Seq<char>, body: Seq<char>)
    ensures
        sign_in_request(c, url, body) matches Ok(p) ==> p.0.method == HttpMethod::Post && p.0.url
            == url && p.0.body == RequestBodyView::Text(body) && p.0.headers.contains(
            ("Content-Type"@, "application/json"@),
        ) && (p.0.headers == seq![("Content-Type"@, "application/json"@)] || p.0.headers
            == auth_headers(c) + seq![("Content-Type"@, "application/json"@)]),
        sign_in_request(c, url, body) is Ok <==> (starts_with(url, "https://"@) || starts_with(
            url,
            "http://"@,
        )) && origins(url_of(base_of(c)), url_of(url)) != OriginCheck::ParseError,
{
    law_posts_go_out_as_given(
        c,
        url,
        json_headers(),
        RequestBodyView::Text(body),
        origins(url_of(base_of(c)), url_of(url)),
    );
    assert(json_headers()[0] == ("Content-Type"@, "application/json"@));
    let all = auth_headers(c) + json_headers();
    assert(all[auth_headers(c).len() as int] == ("Content-Type"@, "application/json"@));
}

/// A sign-in is begun exactly where the server says so, and what it warns of is
/// passed on.
pub proof fn law_registrations(r: ResponseView, bin: Seq<char>, compact: Seq<char>)
    ensures
        registration(r, bin, compact) is Ok <==> success(r),
        success(r) ==> registration(r, bin, compact) == Ok::<Seq<Seq<char>>, Seq<Seq<char>>>(
            match attribute(r, "deprecation_warning"@) {
                Some(w) => seq!["Warning: "@ + w],
                None => Seq::empty(),
            },
        ),
        !success(r) ==> (registration(r, bin, compact) matches Err(lines) && lines.len() == 2
            && lines[0] == "Could not start a browser sign-in ("@ + decimal(r.status as nat) + "): "@
            + detail_of(r.kind, bin, compact) && has_text(lines[1], bin)),
{
    law_put_around(
        "If this Klaay environment predates the current sign-in support, upgrade the server, or ask an administrator for a token and run `"@,
        bin,
        " login --with-token`."@,
    );
}

/// The server is asked every three seconds for six minutes, and where it is
/// under strain only half as often.
pub proof fn law_polling_intervals(elapsed: u64)
    ensures
        elapsed < 360 ==> poll_pause(false, elapsed) == Some(3u64),
        elapsed >= 360 ==> poll_pause(false, elapsed) is None,
        elapsed < 357 ==> poll_pause(true, elapsed) == Some(6u64),
        elapsed >= 357 ==> poll_pause(true, elapsed) is None,
{
}

/// What the status of a poll means: only an answer of success ends the wait with
/// a token, only a missing session ends it for good.
pub proof fn law_statuses_of_a_poll(status: u16)
    ensures
        poll_meaning(status) == PollStep::Done <==> status == 200,
        poll_meaning(status) == PollStep::Wait <==> status == 202,
        poll_meaning(status) == PollStep::Spent <==> status == 404,
        poll_meaning(status) == PollStep::BackOff <==> status == 429 || status / 100 == 5,
        poll_meaning(status) == PollStep::Fail <==> status != 200 && status != 202 && status != 404
            && status != 429 && status / 100 != 5,
{
}

/// A page that was asked for is the one that is opened, whatever is announced; a
/// page that nobody announced is told, with the server that it is opened for.
pub proof fn law_pages_are_told(c: SettingsView, url: Seq<char>, parsed: Option<UrlView>)
    ensures
        c.web_url_explicit ==> sign_in_page(c, Some(url), parsed) == Ok::<
            (Seq<char>, Option<Seq<char>>),
            Seq<char>,
        >((c.web_url, None)) && sign_in_page(c, None, parsed) == sign_in_page(
            c,
            Some(url),
            parsed,
        ),
        !c.web_url_explicit ==> sign_in_page(c, None, parsed) == Ok::<
            (Seq<char>, Option<Seq<char>>),
            Seq<char>,
        >(
            (
                c.web_url,
                Some(
                    "Note: this server doesn't announce its sign-in page; opening "@ + c.web_url
                        + " - pass --web-url if that's the wrong web app for "@ + c.api_url + "."@,
                ),
            ),
        ),
        !c.web_url_explicit ==> match enforced(verdict(url, parsed), c.force_insecure) {
            Ok(w) => sign_in_page(c, Some(url), parsed) == Ok::<
                (Seq<char>, Option<Seq<char>>),
                Seq<char>,
            >((url, w)),
            Err(e) => sign_in_page(c, Some(url), parsed) == Err::<
                (Seq<char>, Option<Seq<char>>),
                Seq<char>,
            >("The server announced a sign-in page URL that can't be used: "@ + e),
        },
{
}

/// Where the system gives no random bytes, that is told with the cause.
pub proof fn law_absent_randomness_is_told(error: Seq<char>)
    ensures
        no_randomness(error) == "Could not obtain OS randomness for the sign-in secret: "@ + error,
{
}

} // verus!
