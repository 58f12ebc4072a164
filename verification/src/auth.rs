//! Tokens: what they look like, what they say, and what logging in and out
//! comes to.

use crate::json::{
    as_i64, as_text, as_u64, field, opt_json, then_field, then_get, then_str, then_text, Json,
    JsonView, NumberView,
};
use crate::outside::{base64_url_bytes, decode_base64_url, wipe};
use crate::response::{
    body_of, detail_of, failure, success, ApiResponse, BodyKind, ResponseView,
};
use crate::text::{
    add_line, all_in, decimal, ends_with, law_put_around, law_split_first, number_text, one_line,
    only, opt_text, split, split_text, texts, trim, trimmed, CharClass,
};
use crate::token_store::{SaveErrorView, SaveTokenError, StoredToken, TokenView};
use vstd::prelude::*;
use vstd::string::*;

verus! {

/// The bytes of the claims that a token carries: the middle one of its three
/// parts. Whether the token is genuine is not looked at.
pub open spec fn claims_bytes(token: Seq<char>) -> Option<Seq<u8>> {
    let parts = split(token, '.');
    if parts.len() == 3 {
        base64_url_bytes(parts[1])
    } else {
        None
    }
}

/// The bytes of the claims that a token carries.
pub fn decode_jwt_payload(token: &str) -> (r: Option<Vec<u8>>)
    ensures
        match r {
            Some(b) => claims_bytes(token@) == Some(b@),
            None => claims_bytes(token@) is None,
        },
{
    let parts = split_text(token, '.');
    assert(texts(parts@).len() == parts@.len());
    if parts.len() != 3 {
        return None;
    }
    assert(texts(parts@)[1] == parts@[1]@);
    decode_base64_url(parts[1].as_str())
}

/// A token is three parts with dots between them, none of them empty, of the
/// characters of URL-safe base64.
pub open spec fn token_shaped(token: Seq<char>) -> bool {
    let parts = split(token, '.');
    &&& all_in(token, CharClass::Token)
    &&& parts.len() == 3
    &&& forall|i: int| 0 <= i < parts.len() ==> (#[trigger] parts[i]).len() > 0
}

/// Whether a text looks like a token.
pub fn token_shape_ok(token: &str) -> (r: bool)
    ensures
        r == token_shaped(token@),
{
    let parts = split_text(token, '.');
    let ghost all = split(token@, '.');
    assert(texts(parts@).len() == parts@.len());
    if !only(token, CharClass::Token) || parts.len() != 3 {
        return false;
    }
    assert(all[0] == parts@[0]@ && all[1] == parts@[1]@ && all[2] == parts@[2]@);
    parts[0].as_str().unicode_len() > 0 && parts[1].as_str().unicode_len() > 0
        && parts[2].as_str().unicode_len() > 0
}

/// A token has claims to read wherever it is shaped like one and its middle
/// part is base64.
pub proof fn law_shaped_tokens_have_claims(token: Seq<char>)
    requires
        token_shaped(token),
    ensures
        claims_bytes(token) == base64_url_bytes(split(token, '.')[1]),
{
}

/// A time below one day in its largest unit.
#[derive(Clone, Copy, Debug, PartialEq, Eq, Structural)]
pub enum SubDayMagnitude {
    Hours(u64),
    Minutes(u64),
    UnderMinute,
}

pub open spec fn magnitude(abs_seconds: u64) -> SubDayMagnitude {
    if abs_seconds >= 3600 {
        SubDayMagnitude::Hours(abs_seconds / 3600)
    } else if abs_seconds >= 60 {
        SubDayMagnitude::Minutes(abs_seconds / 60)
    } else {
        SubDayMagnitude::UnderMinute
    }
}

/// A time in whole hours, or else in whole minutes, or else less.
pub fn sub_day_magnitude(abs_seconds: u64) -> (r: SubDayMagnitude)
    ensures
        r == magnitude(abs_seconds),
{
    let hours: u64 = abs_seconds / 3600;
    if hours != 0 {
        return SubDayMagnitude::Hours(hours);
    }
    let minutes: u64 = abs_seconds / 60;
    if minutes != 0 {
        SubDayMagnitude::Minutes(minutes)
    } else {
        SubDayMagnitude::UnderMinute
    }
}

/// A time relative to now, `diff` seconds ahead, in words.
pub open spec fn relative_time(diff: int) -> Seq<char> {
    let days = if diff >= 0 {
        diff / 86400
    } else {
        -diff / 86400
    };
    if diff >= 0 {
        if days == 0 {
            match magnitude(diff as u64) {
                SubDayMagnitude::Hours(n) => "in "@ + decimal(n as nat) + " hours"@,
                SubDayMagnitude::Minutes(n) => "in "@ + decimal(n as nat) + " minutes"@,
                SubDayMagnitude::UnderMinute => "expires in less than a minute"@,
            }
        } else {
            "in "@ + decimal(days as nat) + " days"@
        }
    } else {
        if days == 0 {
            match magnitude((-diff) as u64) {
                SubDayMagnitude::Hours(n) => decimal(n as nat) + " hours ago (expired)"@,
                SubDayMagnitude::Minutes(n) => decimal(n as nat) + " minutes ago (expired)"@,
                SubDayMagnitude::UnderMinute => "less than a minute ago (expired)"@,
            }
        } else {
            decimal(days as nat) + " days ago (expired)"@
        }
    }
}

/// When something expires, in words. `now` is missing where the clock stands
/// before 1970; a time that is out of reach is not known either.
pub open spec fn expiry_text(unix_ts: i64, now: Option<u64>) -> Seq<char> {
    match now {
        Some(n) => if n > i64::MAX || unix_ts - n <= i64::MIN {
            "(unknown)"@
        } else {
            relative_time(unix_ts - n)
        },
        None => "(unknown)"@,
    }
}

/// When something expires, in words.
pub fn format_timestamp(unix_ts: i64, now: Option<u64>) -> (r: String)
    ensures
        r@ == expiry_text(unix_ts, now),
{
    let now: u64 = match now {
        Some(n) => n,
        None => {
            return "(unknown)".to_owned();
        },
    };
    if now > i64::MAX as u64 {
        return "(unknown)".to_owned();
    }
    let diff: i128 = unix_ts as i128 - now as i128;
    if diff <= i64::MIN as i128 {
        return "(unknown)".to_owned();
    }
    let ahead = diff >= 0;
    let abs: u64 = if ahead {
        diff as u64
    } else {
        (-diff) as u64
    };
    let days: u64 = abs / 86400;
    if days != 0 {
        let n = number_text(days as u128);
        return if ahead {
            "in ".to_owned().concat(n.as_str()).concat(" days")
        } else {
            n.concat(" days ago (expired)")
        };
    }
    match sub_day_magnitude(abs) {
        SubDayMagnitude::Hours(n) => {
            let n = number_text(n as u128);
            if ahead {
                "in ".to_owned().concat(n.as_str()).concat(" hours")
            } else {
                n.concat(" hours ago (expired)")
            }
        },
        SubDayMagnitude::Minutes(n) => {
            let n = number_text(n as u128);
            if ahead {
                "in ".to_owned().concat(n.as_str()).concat(" minutes")
            } else {
                n.concat(" minutes ago (expired)")
            }
        },
        SubDayMagnitude::UnderMinute => if ahead {
            "expires in less than a minute".to_owned()
        } else {
            "less than a minute ago (expired)".to_owned()
        },
    }
}

pub open spec fn unsaved_lines(error: SaveErrorView) -> Seq<Seq<char>> {
    match error {
        SaveErrorView::CorruptedFile(detail) => seq![
            "Warning: logged in, but your existing credentials file appears corrupted, so the new token could not be stored there: "@
                + detail,
            "Fix or remove the file it describes by hand, then run `klaay login` again."@,
        ],
        SaveErrorView::Other(detail) => seq![
            "Warning: logged in, but the token could not be stored: "@ + detail,
            "You'll need to log in again for your next command."@,
        ],
    }
}

/// What is said where a login worked but its token was not kept.
pub fn save_or_warn(error: &SaveTokenError) -> (r: Vec<String>)
    ensures
        texts(r@) == unsaved_lines(error@),
{
    let mut lines: Vec<String> = Vec::new();
    match error {
        SaveTokenError::CorruptedFile(detail) => {
            lines.push(
                "Warning: logged in, but your existing credentials file appears corrupted, so the new token could not be stored there: ".to_owned().concat(
                    detail.as_str(),
                ),
            );
            lines.push(
                "Fix or remove the file it describes by hand, then run `klaay login` again.".to_owned(),
            );
            assert(texts(lines@) =~= seq![
                "Warning: logged in, but your existing credentials file appears corrupted, so the new token could not be stored there: "@
                    + detail@,
                "Fix or remove the file it describes by hand, then run `klaay login` again."@,
            ]);
        },
        SaveTokenError::Other(detail) => {
            lines.push(
                "Warning: logged in, but the token could not be stored: ".to_owned().concat(
                    detail.as_str(),
                ),
            );
            lines.push("You'll need to log in again for your next command.".to_owned());
            assert(texts(lines@) =~= seq![
                "Warning: logged in, but the token could not be stored: "@ + detail@,
                "You'll need to log in again for your next command."@,
            ]);
        },
    }
    lines
}

/// An id is a number, or a text.
pub open spec fn id_text(v: JsonView) -> Option<Seq<char>> {
    match as_u64(v) {
        Some(n) => Some(decimal(n as nat)),
        None => as_text(v),
    }
}

pub open spec fn then_id(v: Option<JsonView>) -> Option<Seq<char>> {
    match v {
        Some(x) => id_text(x),
        None => None,
    }
}

/// An id, whether it is a number or a text.
pub fn json_id_string(v: &Json) -> (r: Option<String>)
    ensures
        opt_text(r) == id_text(v@),
{
    match v.as_u64() {
        Some(n) => Some(number_text(n as u128)),
        None => match v.as_str() {
            Some(s) => Some(s.to_owned()),
            None => None,
        },
    }
}

fn then_id_string(v: Option<&Json>) -> (r: Option<String>)
    ensures
        opt_text(r) == then_id(opt_json(v)),
{
    match v {
        Some(j) => json_id_string(j),
        None => None,
    }
}

/// What is said of a text that does not look like a token.
pub open spec fn shape_fault(token: Seq<char>) -> Option<Seq<char>> {
    if token_shaped(token) {
        None
    } else {
        Some("That value doesn't look like a Klaay API token."@)
    }
}

/// Refuses what does not look like a token, and wipes it.
pub fn check_token(token: &mut String) -> (r: Result<(), String>)
    ensures
        failure(r) == shape_fault(old(token)@),
        final(token)@ == (if shape_fault(old(token)@) is None {
            old(token)@
        } else {
            Seq::empty()
        }),
{
    if token_shape_ok(token.as_str()) {
        Ok(())
    } else {
        wipe(token);
        Err("That value doesn't look like a Klaay API token.".to_owned())
    }
}

/// What the server says of the user.
pub open spec fn me_attribute(r: ResponseView, name: Seq<char>) -> Option<JsonView> {
    then_field(
        then_field(
            then_field(body_of(r), "data"@),
            "attributes"@,
        ),
        name,
    )
}

pub open spec fn or_else(a: Option<Seq<char>>, b: Option<Seq<char>>) -> Option<Seq<char>> {
    match a {
        Some(x) => Some(x),
        None => b,
    }
}

pub open spec fn or_text(a: Option<Seq<char>>, b: Seq<char>) -> Seq<char> {
    match a {
        Some(x) => x,
        None => b,
    }
}

/// The time at which the claims end.
pub open spec fn expiry(claims: JsonView) -> Option<i64> {
    match field(claims, "exp"@) {
        Some(v) => as_i64(v),
        None => None,
    }
}

/// What is kept of a login: the account is the one that the server names, else
/// the one of the claims.
pub open spec fn kept(
    r: ResponseView,
    claims: JsonView,
    token: Seq<char>,
    api_url: Seq<char>,
) -> TokenView {
    TokenView {
        token,
        api_url,
        account_id: or_else(
            then_id(me_attribute(r, "current_account_id"@)),
            then_id(field(claims, "account_id"@)),
        ),
        email: then_text(me_attribute(r, "email"@)),
    }
}

/// What is said of a login.
pub open spec fn welcome(email: Option<Seq<char>>, exp: Option<i64>, now: Option<u64>) -> Seq<char> {
    let start = "Logged in as "@ + or_text(email, "(unknown email)"@);
    match exp {
        Some(t) => start + "\nToken stored (expires "@ + expiry_text(t, now) + ")"@,
        None => start,
    }
}

fn attribute_of<'a>(response: &'a ApiResponse, name: &str) -> (r: Option<&'a Json>)
    ensures
        opt_json(r) == me_attribute(response@, name@),
{
    then_get(then_get(then_get(response.body(), "data"), "attributes"), name)
}

fn expiry_of(claims: &Json) -> (r: Option<i64>)
    ensures
        r == expiry(claims@),
{
    match claims.get("exp") {
        Some(v) => v.as_i64(),
        None => None,
    }
}

fn owned(v: Option<&str>) -> (r: Option<String>)
    ensures
        opt_text(r) == (match v {
            Some(s) => Some(s@),
            None => None,
        }),
{
    match v {
        Some(s) => Some(s.to_owned()),
        None => None,
    }
}

/// What is kept and said of a login, or why the token is not accepted.
pub open spec fn logged_in(
    r: ResponseView,
    compact: Seq<char>,
    claims: JsonView,
    token: Seq<char>,
    api_url: Seq<char>,
    now: Option<u64>,
    bin: Seq<char>,
) -> Result<(TokenView, Seq<char>), Seq<char>> {
    if success(r) {
        let stored = kept(r, claims, token, api_url);
        Ok((stored, welcome(stored.email, expiry(claims), now)))
    } else {
        Err(
            "The token was not accepted by "@ + api_url + " ("@ + decimal(r.status as nat) + "): "@
                + detail_of(r.kind, bin, compact),
        )
    }
}

pub open spec fn login_result(r: Result<(StoredToken, String), String>) -> Result<
    (TokenView, Seq<char>),
    Seq<char>,
> {
    match r {
        Ok(p) => Ok((p.0@, p.1@)),
        Err(e) => Err(e@),
    }
}

/// A login once the server has been asked about the token: what is kept and
/// what is said, or why the token is not accepted.
pub fn login_with_token(
    response: &ApiResponse,
    compact: &str,
    claims: &Json,
    token: String,
    api_url: &str,
    now: Option<u64>,
    bin: &str,
) -> (r: Result<(StoredToken, String), String>)
    ensures
        login_result(r) == logged_in(response@, compact@, claims@, token@, api_url@, now, bin@),
{
    if !response.is_success() {
        return Err(
            "The token was not accepted by ".to_owned().concat(api_url).concat(" (").concat(
                number_text(response.status() as u128).as_str(),
            ).concat("): ").concat(response.error_detail(bin, compact).as_str()),
        );
    }
    let email = owned(then_str(attribute_of(response, "email")));
    let account_id = match then_id_string(attribute_of(response, "current_account_id")) {
        Some(id) => Some(id),
        None => then_id_string(claims.get("account_id")),
    };
    let start = "Logged in as ".to_owned().concat(
        match &email {
            Some(e) => e.as_str(),
            None => "(unknown email)",
        },
    );
    let message = match expiry_of(claims) {
        Some(t) => start.concat("\nToken stored (expires ").concat(
            format_timestamp(t, now).as_str(),
        ).concat(")"),
        None => start,
    };
    let stored = StoredToken { token, api_url: api_url.to_owned(), account_id, email };
    Ok((stored, message))
}

/// The token that was entered, or that there is none.
pub open spec fn entered_token(entered: Seq<char>, interactive: bool) -> Result<
    Seq<char>,
    Seq<char>,
> {
    let t = if interactive {
        entered
    } else {
        trim(entered, CharClass::White)
    };
    if t.len() > 0 {
        Ok(t)
    } else {
        Err("Token cannot be empty."@)
    }
}

pub open spec fn text_result(r: Result<String, String>) -> Result<Seq<char>, Seq<char>> {
    match r {
        Ok(t) => Ok(t@),
        Err(e) => Err(e@),
    }
}

/// A token as it was entered: typed in as it is, or a line without the space
/// around it. An empty one is refused.
pub fn login_with_stdin_token(entered: &str, interactive: bool) -> (r: Result<String, String>)
    ensures
        text_result(r) == entered_token(entered@, interactive),
{
    let token = if interactive {
        entered.to_owned()
    } else {
        trimmed(entered, CharClass::White)
    };
    if token.as_str().unicode_len() == 0 {
        Err("Token cannot be empty.".to_owned())
    } else {
        Ok(token)
    }
}

pub open spec fn identity(stored: TokenView, exp: Option<i64>, now: Option<u64>) -> Seq<char> {
    let start = or_text(stored.email, "(unknown email)"@) + "  account="@ + or_text(
        stored.account_id,
        "(none)"@,
    );
    match exp {
        Some(t) => start + "  expires "@ + expiry_text(t, now),
        None => start,
    }
}

/// Who is logged in, or that the session has ended.
pub open spec fn session(
    r: ResponseView,
    compact: Seq<char>,
    stored: TokenView,
    claims: JsonView,
    now: Option<u64>,
    bin: Seq<char>,
) -> Result<Seq<char>, Seq<Seq<char>>> {
    if success(r) {
        Ok(identity(stored, expiry(claims), now))
    } else {
        Err(
            seq![
                "Session is no longer valid ("@ + decimal(r.status as nat) + "): "@ + detail_of(
                    r.kind,
                    bin,
                    compact,
                ),
                "Run `klaay login` again."@,
            ],
        )
    }
}

pub open spec fn line_or_lines(r: Result<String, Vec<String>>) -> Result<Seq<char>, Seq<Seq<char>>> {
    match r {
        Ok(line) => Ok(line@),
        Err(lines) => Err(texts(lines@)),
    }
}

/// Who is logged in, once the server has been asked, or the lines that say
/// that nobody is.
pub fn whoami(
    response: &ApiResponse,
    compact: &str,
    stored: &StoredToken,
    claims: &Json,
    now: Option<u64>,
    bin: &str,
) -> (r: Result<String, Vec<String>>)
    ensures
        line_or_lines(r) == session(response@, compact@, stored@, claims@, now, bin@),
{
    if !response.is_success() {
        let mut lines = one_line(
            "Session is no longer valid (".to_owned().concat(
                number_text(response.status() as u128).as_str(),
            ).concat("): ").concat(response.error_detail(bin, compact).as_str()),
        );
        add_line(&mut lines, "Run `klaay login` again.".to_owned());
        assert(texts(lines@) =~= seq![
            "Session is no longer valid ("@ + decimal(response@.status as nat) + "): "@
                + detail_of(response@.kind, bin@, compact@),
            "Run `klaay login` again."@,
        ]);
        return Err(lines);
    }
    let email = match &stored.email {
        Some(e) => e.as_str(),
        None => "(unknown email)",
    };
    let account = match &stored.account_id {
        Some(a) => a.as_str(),
        None => "(none)",
    };
    let start = email.to_owned().concat("  account=").concat(account);
    match expiry_of(claims) {
        Some(t) => Ok(start.concat("  expires ").concat(format_timestamp(t, now).as_str())),
        None => Ok(start),
    }
}

/// What is said of a logout.
pub open spec fn logged_out(removed: Result<bool, String>) -> Result<Seq<char>, Seq<Seq<char>>> {
    match removed {
        Ok(true) => Ok("Logged out (credentials removed)"@),
        Ok(false) => Ok("Not logged in."@),
        Err(e) => Err(
            seq![
                "Warning: logout may be incomplete: "@ + e@,
                "Your credentials might still be present."@,
            ],
        ),
    }
}

/// What is said of a logout: whether there was anything to remove, or the
/// lines that say that it may still be there.
pub fn logout(removed: Result<bool, String>) -> (r: Result<&'static str, Vec<String>>)
    ensures
        match r {
            Ok(line) => logged_out(removed) == Ok::<Seq<char>, Seq<Seq<char>>>(line@),
            Err(lines) => logged_out(removed) == Err::<Seq<char>, Seq<Seq<char>>>(texts(lines@)),
        },
{
    match removed {
        Ok(true) => Ok("Logged out (credentials removed)"),
        Ok(false) => Ok("Not logged in."),
        Err(e) => {
            let mut lines = one_line(
                "Warning: logout may be incomplete: ".to_owned().concat(e.as_str()),
            );
            add_line(&mut lines, "Your credentials might still be present.".to_owned());
            assert(texts(lines@) =~= seq![
                "Warning: logout may be incomplete: "@ + e@,
                "Your credentials might still be present."@,
            ]);
            Err(lines)
        },
    }
}

/// The token that a command is run with, or why it cannot be run.
pub open spec fn required(loaded: Option<StoredToken>) -> Result<StoredToken, Seq<char>> {
    match loaded {
        None => Err("Not logged in. Run `klaay login` first."@),
        Some(t) => if token_shaped(t.token@) {
            Ok(t)
        } else {
            Err("Stored token is invalid - run `klaay login` again."@)
        },
    }
}

/// The token that a command is run with, or why it cannot be run. A token that
/// does not look like one is not sent anywhere.
pub fn require_login(loaded: Option<StoredToken>) -> (r: Result<StoredToken, String>)
    ensures
        match r {
            Ok(t) => required(loaded) == Ok::<StoredToken, Seq<char>>(t),
            Err(e) => required(loaded) == Err::<StoredToken, Seq<char>>(e@),
        },
{
    match loaded {
        None => Err("Not logged in. Run `klaay login` first.".to_owned()),
        Some(stored) => if token_shape_ok(stored.token.as_str()) {
            Ok(stored)
        } else {
            let mut stored = stored;
            stored.zeroize();
            Err("Stored token is invalid - run `klaay login` again.".to_owned())
        },
    }
}

proof fn lemma_end_of_end(a: Seq<char>, b: Seq<char>, end: Seq<char>)
    requires
        ends_with(b, end),
    ensures
        ends_with(a + b, end),
{
    let whole = a + b;
    assert(whole.skip(whole.len() - end.len()) =~= b.skip(b.len() - end.len()));
}

/// A time that has come is shown as one that has come, and no other is.
pub proof fn law_expired_is_shown_as_expired(diff: int)
    requires
        i64::MIN < diff <= i64::MAX,
    ensures
        (diff < 0) == ends_with(relative_time(diff), "ago (expired)"@),
{
    let end = "ago (expired)"@;
    reveal_strlit("ago (expired)");
    if diff < 0 {
        let n = magnitude((-diff) as u64);
        let days = -diff / 86400;
        reveal_strlit(" hours ago (expired)");
        reveal_strlit(" minutes ago (expired)");
        reveal_strlit(" days ago (expired)");
        reveal_strlit("less than a minute ago (expired)");
        assert(" hours ago (expired)"@.skip(7) =~= end);
        assert(" minutes ago (expired)"@.skip(9) =~= end);
        assert(" days ago (expired)"@.skip(6) =~= end);
        assert("less than a minute ago (expired)"@.skip(19) =~= end);
        if days == 0 {
            match n {
                SubDayMagnitude::Hours(h) => lemma_end_of_end(
                    decimal(h as nat),
                    " hours ago (expired)"@,
                    end,
                ),
                SubDayMagnitude::Minutes(m) => lemma_end_of_end(
                    decimal(m as nat),
                    " minutes ago (expired)"@,
                    end,
                ),
                SubDayMagnitude::UnderMinute => {},
            }
        } else {
            lemma_end_of_end(decimal(days as nat), " days ago (expired)"@, end);
        }
    } else {
        reveal_strlit(" hours");
        reveal_strlit(" minutes");
        reveal_strlit(" days");
        reveal_strlit("expires in less than a minute");
        let shown = relative_time(diff);
        assert(shown.last() != ')');
        if ends_with(shown, end) {
            assert(shown.skip(shown.len() - end.len()).last() == shown.last());
        }
    }
}

/// A token is made of three parts, and its claims are the middle one. It is
/// taken exactly where no part is empty and all of them are of the characters
/// of URL-safe base64.
pub proof fn law_tokens_have_three_parts(a: Seq<char>, b: Seq<char>, c: Seq<char>)
    requires
        !a.contains('.'),
        !b.contains('.'),
        !c.contains('.'),
    ensures
        ({
            let token = a + seq!['.'] + (b + seq!['.'] + c);
            &&& claims_bytes(token) == base64_url_bytes(b)
            &&& token_shaped(token) <==> a.len() > 0 && b.len() > 0 && c.len() > 0 && all_in(
                a,
                CharClass::PathSegment,
            ) && all_in(b, CharClass::PathSegment) && all_in(c, CharClass::PathSegment)
        }),
        claims_bytes(a) is None && !token_shaped(a),
        claims_bytes(a + seq!['.'] + b) is None && !token_shaped(a + seq!['.'] + b),
{
    let tail = b + seq!['.'] + c;
    let token = a + seq!['.'] + tail;
    law_split_first(a, '.', tail);
    law_split_first(b, '.', c);
    law_split_first(c, '.', c);
    law_split_first(a, '.', b);
    let parts = split(token, '.');
    assert(parts =~= seq![a, b, c]);
    assert(split(a + seq!['.'] + b, '.') =~= seq![a, b]);
    assert(split(a, '.') =~= seq![a]);
    if all_in(token, CharClass::Token) {
        let m: int = a.len() + 1int;
        let n: int = a.len() + b.len() + 2int;
        assert(token.subrange(0, a.len() as int) =~= a);
        assert(token.subrange(m, m + b.len()) =~= b);
        assert(token.subrange(n, n + c.len()) =~= c);
        lemma_part_of_token(token, a, 0);
        lemma_part_of_token(token, b, m);
        lemma_part_of_token(token, c, n);
    }
    if all_in(a, CharClass::PathSegment) && all_in(b, CharClass::PathSegment) && all_in(
        c,
        CharClass::PathSegment,
    ) {
        assert forall|i: int| 0 <= i < token.len() implies CharClass::Token.holds(
            #[trigger] token[i],
        ) by {
            if i < a.len() {
                assert(token[i] == a[i]);
                assert(CharClass::PathSegment.holds(a[i]));
            } else if i > a.len() && i < a.len() + 1 + b.len() {
                assert(token[i] == b[i - a.len() - 1]);
                assert(CharClass::PathSegment.holds(b[i - a.len() - 1]));
            } else if i > a.len() + 1 + b.len() {
                assert(token[i] == c[i - a.len() - b.len() - 2]);
                assert(CharClass::PathSegment.holds(c[i - a.len() - b.len() - 2]));
            }
        }
    }
    if a.len() > 0 && b.len() > 0 && c.len() > 0 {
        assert forall|i: int| 0 <= i < parts.len() implies (#[trigger] parts[i]).len() > 0 by {}
    } else {
        assert(parts[0].len() == 0 || parts[1].len() == 0 || parts[2].len() == 0);
    }
}

proof fn lemma_part_of_token(token: Seq<char>, part: Seq<char>, at: int)
    requires
        all_in(token, CharClass::Token),
        !part.contains('.'),
        0 <= at,
        at + part.len() <= token.len(),
        token.subrange(at, at + part.len()) == part,
    ensures
        all_in(part, CharClass::PathSegment),
{
    assert forall|i: int| 0 <= i < part.len() implies CharClass::PathSegment.holds(
        #[trigger] part[i],
    ) by {
        assert(part[i] == token.subrange(at, at + part.len())[i]);
        assert(CharClass::Token.holds(token[at + i]));
        assert(part.contains(part[i]));
    }
}

/// A time is told in whole days, else hours, else minutes, of what is left or
/// has passed.
pub proof fn law_times_in_words(n: int)
    requires
        0 <= n <= i64::MAX,
    ensures
        n < 60 ==> relative_time(n) == "expires in less than a minute"@,
        60 <= n < 3600 ==> relative_time(n) == "in "@ + decimal((n / 60) as nat) + " minutes"@,
        3600 <= n < 86400 ==> relative_time(n) == "in "@ + decimal((n / 3600) as nat) + " hours"@,
        86400 <= n ==> relative_time(n) == "in "@ + decimal((n / 86400) as nat) + " days"@,
        0 < n < 60 ==> relative_time(-n) == "less than a minute ago (expired)"@,
        60 <= n < 3600 ==> relative_time(-n) == decimal((n / 60) as nat)
            + " minutes ago (expired)"@,
        3600 <= n < 86400 ==> relative_time(-n) == decimal((n / 3600) as nat)
            + " hours ago (expired)"@,
        86400 <= n ==> relative_time(-n) == decimal((n / 86400) as nat) + " days ago (expired)"@,
{
}

/// When something expires is told relative to now, wherever now and the
/// distance are known.
pub proof fn law_expiry_is_relative_to_now(unix_ts: i64, now: u64)
    ensures
        now <= i64::MAX && unix_ts - now > i64::MIN ==> expiry_text(unix_ts, Some(now))
            == relative_time(unix_ts - now),
        now > i64::MAX || unix_ts - now <= i64::MIN ==> expiry_text(unix_ts, Some(now))
            == "(unknown)"@,
        expiry_text(unix_ts, None) == "(unknown)"@,
{
}

/// What is kept of a login is the token for the server, with the account and
/// the address that the server names; the claims fill in for an account that it
/// does not name. It is kept exactly where the server takes the token.
pub proof fn law_login_keeps_the_token(
    r: ResponseView,
    compact: Seq<char>,
    claims: JsonView,
    token: Seq<char>,
    api_url: Seq<char>,
    now: Option<u64>,
    bin: Seq<char>,
)
    ensures
        logged_in(r, compact, claims, token, api_url, now, bin) is Ok <==> success(r),
        logged_in(r, compact, claims, token, api_url, now, bin) matches Ok(p) ==> {
            let t = p.0;
            let email = then_text(me_attribute(r, "email"@));
            let own = then_id(me_attribute(r, "current_account_id"@));
            &&& t.token == token && t.api_url == api_url
            &&& t.email == email
            &&& own is Some ==> t.account_id == own
            &&& own is None ==> t.account_id == then_id(field(claims, "account_id"@))
            &&& p.1 == welcome(email, expiry(claims), now)
        },
        !success(r) ==> logged_in(r, compact, claims, token, api_url, now, bin) == Err::<
            (TokenView, Seq<char>),
            Seq<char>,
        >(
            "The token was not accepted by "@ + api_url + " ("@ + decimal(r.status as nat) + "): "@
                + detail_of(r.kind, bin, compact),
        ),
{
}

/// Where the server's words on the user and the times of the claims are read.
pub proof fn law_claims_are_read(r: ResponseView, claims: JsonView, name: Seq<char>, v: JsonView)
    ensures
        me_attribute(r, name) == Some(v) <==> r.kind == BodyKind::Json && (field(
            r.body,
            "data"@,
        ) matches Some(data) && (field(data, "attributes"@) matches Some(attributes) && field(
            attributes,
            name,
        ) == Some(v))),
        field(claims, "exp"@) == Some(v) ==> expiry(claims) == as_i64(v),
        field(claims, "exp"@) is None ==> expiry(claims) is None,
        v matches JsonView::Text(s) ==> id_text(v) == Some(s),
        v matches JsonView::Number(NumberView::Unsigned(n)) ==> id_text(v) == Some(
            decimal(n as nat),
        ),
        !(v is Text) && !(v is Number) ==> id_text(v) is None,
{
}

/// A token that is typed in counts as it is, and one that is read as a line
/// without the space around it; an empty one is refused.
pub proof fn law_tokens_are_taken_as_entered(entered: Seq<char>)
    ensures
        entered.len() > 0 ==> entered_token(entered, true) == Ok::<Seq<char>, Seq<char>>(entered),
        trim(entered, CharClass::White).len() > 0 ==> entered_token(entered, false) == Ok::<
            Seq<char>,
            Seq<char>,
        >(trim(entered, CharClass::White)),
        entered.len() == 0 ==> entered_token(entered, true) is Err,
        trim(entered, CharClass::White).len() == 0 ==> entered_token(entered, false) is Err,
{
}

/// Who is logged in is told exactly where the server takes the token: by
/// address, account and expiry.
pub proof fn law_session_is_told(
    r: ResponseView,
    compact: Seq<char>,
    stored: TokenView,
    claims: JsonView,
    now: Option<u64>,
    bin: Seq<char>,
)
    ensures
        session(r, compact, stored, claims, now, bin) is Ok <==> success(r),
        success(r) && stored.email is Some && stored.account_id is Some && expiry(claims) is Some
            ==> session(r, compact, stored, claims, now, bin) == Ok::<Seq<char>, Seq<Seq<char>>>(
            stored.email->0 + "  account="@ + stored.account_id->0 + "  expires "@ + expiry_text(
                expiry(claims)->0,
                now,
            ),
        ),
        success(r) && stored.email is None && stored.account_id is None && expiry(claims) is None
            ==> session(r, compact, stored, claims, now, bin) == Ok::<Seq<char>, Seq<Seq<char>>>(
            "(unknown email)"@ + "  account="@ + "(none)"@,
        ),
        !success(r) ==> (session(r, compact, stored, claims, now, bin) matches Err(lines)
            && lines.len() == 2 && lines[0] == "Session is no longer valid ("@ + decimal(
            r.status as nat,
        ) + "): "@ + detail_of(r.kind, bin, compact)),
{
}

/// A logout says that credentials were removed only where they were, that there
/// were none only where there were none, and that they may still be there
/// wherever that is so.
pub proof fn law_logout_is_told(removed: Result<bool, String>)
    ensures
        removed == Ok::<bool, String>(true) <==> logged_out(removed) == Ok::<
            Seq<char>,
            Seq<Seq<char>>,
        >("Logged out (credentials removed)"@),
        removed == Ok::<bool, String>(false) <==> logged_out(removed) == Ok::<
            Seq<char>,
            Seq<Seq<char>>,
        >("Not logged in."@),
        removed matches Err(e) ==> (logged_out(removed) matches Err(lines) && lines.len() == 2
            && lines[0] == "Warning: logout may be incomplete: "@ + e@),
{
    reveal_strlit("Not logged in.");
    reveal_strlit("Logged out (credentials removed)");
    assert("Not logged in."@.len() != "Logged out (credentials removed)"@.len());
}

/// A command is run with the token that was kept, as it is, and only with one
/// that looks like a token.
pub proof fn law_commands_need_a_token(loaded: Option<StoredToken>, token: Seq<char>)
    ensures
        shape_fault(token) is None <==> token_shaped(token),
        required(loaded) matches Ok(t) ==> loaded == Some(t) && token_shaped(t.token@),
        required(loaded) is Ok <==> loaded is Some && token_shaped(loaded->0.token@),
{
}

/// What is said of a token that was not kept names the reason.
pub proof fn law_unsaved_tokens_are_told(detail: Seq<char>)
    ensures
        unsaved_lines(SaveErrorView::Other(detail)).len() == 2 && unsaved_lines(
            SaveErrorView::Other(detail),
        )[0] == "Warning: logged in, but the token could not be stored: "@ + detail,
        unsaved_lines(SaveErrorView::CorruptedFile(detail)).len() == 2 && ends_with(
            unsaved_lines(SaveErrorView::CorruptedFile(detail))[0],
            detail,
        ),
{
    law_put_around(
        "Warning: logged in, but your existing credentials file appears corrupted, so the new token could not be stored there: "@,
        detail,
        Seq::empty(),
    );
}

/// Who is logged in is told first, and then, where it is known, when the token
/// expires.
pub proof fn law_welcome_tells_who(e: Seq<char>, at: i64, now: Option<u64>)
    ensures
        welcome(Some(e), None, now) == "Logged in as "@ + e,
        welcome(None, None, now) == "Logged in as "@ + "(unknown email)"@,
        welcome(Some(e), Some(at), now) == welcome(Some(e), None, now)
            + "\nToken stored (expires "@ + expiry_text(at, now) + ")"@,
        welcome(None, Some(at), now) == welcome(None, None, now) + "\nToken stored (expires "@
            + expiry_text(at, now) + ")"@,
{
}

} // verus!
