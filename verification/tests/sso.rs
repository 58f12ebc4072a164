use klaay::provider::{
    login_google, login_microsoft, GoogleAction, GoogleEvent, GoogleState, GoogleStep,
    MicrosoftAction, MicrosoftEvent, MicrosoftState, UsedUrl,
};
use klaay::sso::{
    await_redirect_loop, device_prompt, judge_redirect, microsoft_endpoints, poll_seconds,
    query_in, redirect_uri, respond, sanitize_for_display, scopes, time_left, unexpected_redirect,
    HeaderEvent, HeaderReader, HeaderStep, Redirect, RedirectEvent, RedirectStep, SsoProvider, DENIED_REPLY,
    FAILED_REPLY, WAITING_REPLY,
};

fn pairs(p: &[(&str, &str)]) -> Vec<(String, String)> {
    p.iter().map(|(a, b)| (a.to_string(), b.to_string())).collect()
}

fn request(line: &str, complete: bool) -> RedirectEvent {
    RedirectEvent::Request { line: line.to_string(), complete }
}

fn line(t: &str) -> HeaderEvent {
    HeaderEvent::Line(t.to_string())
}

#[test]
fn control_and_direction_characters_are_replaced() {
    let mut all = String::new();
    let mut expected = String::new();
    for c in (0u32..=0x10ffff).filter_map(char::from_u32) {
        let hidden = c.is_control()
            || matches!(c,
                '\u{200E}' | '\u{200F}' | '\u{202A}'..='\u{202E}' | '\u{2066}'..='\u{2069}'
                | '\u{2028}' | '\u{2029}' | '\u{E0000}'..='\u{E007F}' | '\u{FFF9}'..='\u{FFFB}');
        all.push(c);
        expected.push(if hidden { '?' } else { c });
    }
    assert_eq!(sanitize_for_display(&all), expected);
}

#[test]
fn the_query_stands_in_the_second_word() {
    assert_eq!(query_in("GET /x?a=b?c HTTP/1.1\r\n"), "a=b?c");
    assert_eq!(query_in("GET /x HTTP/1.1"), "");
    assert_eq!(query_in("GET"), "");
    assert_eq!(query_in(""), "");
    assert_eq!(query_in("\u{3000}GET\u{2003}/?q\u{85}z"), "q");
}

#[test]
fn a_redirect_counts_only_with_its_state() {
    let judge = |p: &[(&str, &str)]| judge_redirect(&pairs(p), "S");
    assert!(matches!(judge(&[("code", "C"), ("state", "S")]), Redirect::Code(c) if c == "C"));
    assert!(matches!(judge(&[("code", "C"), ("state", "T")]), Redirect::Spurious));
    assert!(matches!(judge(&[("code", "C")]), Redirect::Spurious));
    assert!(matches!(judge(&[("error", "e"), ("state", "T")]), Redirect::Spurious));
    assert!(matches!(judge(&[("state", "S")]), Redirect::Spurious));
    assert!(matches!(
        judge(&[("code", "C"), ("state", "S"), ("error", "no\u{1b}")]),
        Redirect::Denied(m) if m == "Sign-in was not completed: no?"
    ));
    assert!(matches!(
        judge(&[("error", "no"), ("error_description", "why\n"), ("state", "S")]),
        Redirect::Denied(m) if m == "Sign-in was not completed: no - why?"
    ));
}

#[test]
fn the_first_value_of_a_key_stands() {
    let judge = |p: &[(&str, &str)]| judge_redirect(&pairs(p), "S");
    assert!(matches!(
        judge(&[("code", ""), ("code", "A"), ("code", "B"), ("state", "S"), ("state", "T")]),
        Redirect::Code(c) if c == "A"
    ));
    let long = "e".repeat(600);
    assert!(matches!(
        judge(&[("error", &long), ("state", "S")]),
        Redirect::Denied(m) if m == format!("Sign-in was not completed: {}", "e".repeat(512))
    ));
}

#[test]
fn a_redirect_is_waited_for() {
    let step = |e: RedirectEvent| await_redirect_loop(e, "S+/");
    assert!(matches!(
        step(request("GET /?code=a%20b&state=S%2B%2F HTTP/1.1\r\n", true)),
        RedirectStep::Code(c) if c == "a b"
    ));
    assert!(matches!(
        step(request("GET /?code=a&state=S%2B%2F HTTP/1.1\r\n", false)),
        RedirectStep::Wait(m) if m == WAITING_REPLY
    ));
    assert!(matches!(step(request("GET /favicon.ico", true)), RedirectStep::Wait(_)));
    assert!(matches!(
        step(request("GET /?error=access_denied&state=S%2B%2F x", true)),
        RedirectStep::GiveUp(Some(r), m)
            if r == DENIED_REPLY && m == "Sign-in was not completed: access_denied"
    ));
    assert!(matches!(
        step(RedirectEvent::TimedOut),
        RedirectStep::GiveUp(None, m) if m == "Timed out waiting for the browser sign-in redirect."
    ));
    assert!(matches!(
        step(RedirectEvent::Disconnected),
        RedirectStep::GiveUp(None, m)
            if m == "Internal error: the loopback listener's accept thread exited unexpectedly."
    ));
    assert!(matches!(
        step(RedirectEvent::ReadTimeoutFailed("e".to_string())),
        RedirectStep::GiveUp(None, m) if m == "Could not set read timeout on connection: e"
    ));
    assert!(matches!(
        step(RedirectEvent::WriteTimeoutFailed("e".to_string())),
        RedirectStep::GiveUp(None, m) if m == "Could not set write timeout on connection: e"
    ));
}

#[test]
fn a_redirect_is_waited_for_five_minutes_in_all() {
    let ready = |elapsed: u128| await_redirect_loop(RedirectEvent::Ready { elapsed }, "S");
    assert!(matches!(ready(0), RedirectStep::Accept(300_000_000_000)));
    assert!(matches!(ready(299_999_999_999), RedirectStep::Accept(1)));
    assert!(matches!(
        ready(300_000_000_000),
        RedirectStep::GiveUp(None, m) if m == "Timed out waiting for the browser sign-in redirect."
    ));
    assert!(matches!(ready(u128::MAX), RedirectStep::GiveUp(None, _)));
}

#[test]
fn headers_are_read_for_five_seconds_in_all() {
    let ready = |elapsed: u128| {
        next(HeaderReader::new(), line("GET /\n"))
            .read_request_headers(HeaderEvent::Ready { elapsed })
    };
    let HeaderStep::Read(reader, nanos) = ready(4_999_999_998) else { panic!("time is left") };
    assert_eq!(nanos, 2);
    assert_eq!(done(reader, line("\n")), ("GET /\n".to_string(), true, None));
    let slow = "Warning: OAuth redirect request took too long to send its headers - sign-in may not complete.";
    assert!(matches!(
        ready(5_000_000_000),
        HeaderStep::Done { request_line, complete: false, warning: Some(w) }
            if request_line == "GET /\n" && w == slow
    ));
}

#[test]
fn what_is_left_of_a_time() {
    assert_eq!(time_left(10, 0), Some(10));
    assert_eq!(time_left(10, 9), Some(1));
    assert_eq!(time_left(10, 10), None);
    assert_eq!(time_left(0, 0), None);
    assert_eq!(scopes(), vec!["openid", "email", "profile"]);
}

#[test]
fn a_reply_is_a_short_page() {
    assert_eq!(
        respond("a\r\nb\0é"),
        "HTTP/1.1 200 OK\r\nContent-Length: 7\r\nContent-Type: text/plain; charset=utf-8\r\nConnection: close\r\n\r\na  b é"
    );
}

fn next(reader: HeaderReader, event: HeaderEvent) -> HeaderReader {
    match reader.read_request_headers(event) {
        HeaderStep::More(r) => r,
        _ => panic!("expected to read on"),
    }
}

fn done(reader: HeaderReader, event: HeaderEvent) -> (String, bool, Option<String>) {
    match reader.read_request_headers(event) {
        HeaderStep::Done { request_line, complete, warning } => (request_line, complete, warning),
        _ => panic!("expected to be done"),
    }
}

#[test]
fn headers_end_at_the_empty_line() {
    let r = next(HeaderReader::new(), line("GET / HTTP/1.1\r\n"));
    let r = next(r, line("Cookie: x\r\n"));
    assert_eq!(done(r, line("\r\n")), ("GET / HTTP/1.1\r\n".to_string(), true, None));
    assert_eq!(done(HeaderReader::new(), line("\n")), (String::new(), true, None));
}

#[test]
fn headers_that_do_not_end_are_told_of() {
    let first = || next(HeaderReader::new(), line("GET /\n"));
    let slow = "Warning: OAuth redirect request took too long to send its headers - sign-in may not complete.";
    let cut = "Warning: OAuth redirect request headers exceeded the read limit and were truncated - sign-in may not complete.";
    let short = "Warning: OAuth redirect request ended without a complete set of headers - sign-in may not complete.";
    let warning = |e: HeaderEvent| {
        let (l, complete, warning) = done(first(), e);
        assert_eq!(l, "GET /\n");
        assert!(!complete);
        warning.unwrap()
    };
    assert_eq!(warning(HeaderEvent::TooSlow), slow);
    assert_eq!(
        warning(HeaderEvent::TimeoutFailed),
        "Warning: could not set read timeout on OAuth redirect connection - skipping."
    );
    assert_eq!(
        warning(HeaderEvent::Failed("e".to_string())),
        "Warning: I/O error reading OAuth redirect request headers: e - sign-in may not complete."
    );
    assert_eq!(warning(line("")), short);
    let r = next(HeaderReader::new(), line(&"x".repeat(65536)));
    assert_eq!(done(r, line("")).2.unwrap(), cut);
    let r = next(HeaderReader::new(), line(&"é".repeat(32768)));
    assert_eq!(done(r, line("")).2.unwrap(), cut);
    let mut r = HeaderReader::new();
    for _ in 0..99 {
        r = next(r, line("a\n"));
    }
    assert_eq!(done(r, line("a\n")), ("a\n".to_string(), false, Some(short.to_string())));
}

#[test]
fn tenants_are_held_to_their_form() {
    let e = microsoft_endpoints(None).ok().unwrap();
    assert_eq!(e.authorize, "https://login.microsoftonline.com/organizations/oauth2/v2.0/authorize");
    assert_eq!(e.token, "https://login.microsoftonline.com/organizations/oauth2/v2.0/token");
    assert_eq!(
        e.device_code,
        "https://login.microsoftonline.com/organizations/oauth2/v2.0/devicecode"
    );
    let ok = |t: &str| microsoft_endpoints(Some(t.to_string())).is_ok();
    assert!(ok("contoso.com"));
    assert!(ok(""));
    assert!(ok(&"a".repeat(253)));
    for bad in [".a", "a.", "a..b", "-a", "a-", "a/b", "a%2F", "é"] {
        assert!(!ok(bad), "{bad}");
    }
    assert_eq!(
        microsoft_endpoints(Some("a\"b".to_string())).err().unwrap(),
        "MICROSOFT_AUTH_CLI_TENANT is not a valid Azure tenant identifier (must contain only alphanumerics, hyphens, and dots, and must not start/end with - or ., or contain \"..\"): \"a\\\"b\""
    );
    let long = "a".repeat(254);
    assert_eq!(
        microsoft_endpoints(Some(long.clone())).err().unwrap(),
        format!("MICROSOFT_AUTH_CLI_TENANT is too long (max 253 characters): {long:?}")
    );
}

#[test]
fn the_rest_of_a_provider_sign_in() {
    assert_eq!(poll_seconds(10), 10);
    assert_eq!(poll_seconds(u64::MAX), 900);
    assert_eq!(
        device_prompt(Some("https://x/y".to_string()), "u", "c"),
        "To sign in, open this link: https://x/y"
    );
    assert_eq!(device_prompt(None, "u", "c"), "To sign in, visit u and enter code c");
    assert_eq!(redirect_uri(8080), "http://127.0.0.1:8080");
    assert_eq!(unexpected_redirect(299), None);
    assert_eq!(unexpected_redirect(400), None);
    assert_eq!(
        unexpected_redirect(302).unwrap(),
        "token/device-code endpoint returned an unexpected redirect (status 302) instead of a token response"
    );
}

#[test]
fn a_provider_must_return_an_id_token() {
    let google = SsoProvider::Google;
    let microsoft = SsoProvider::Microsoft;
    assert_eq!(google.id_token_from(Ok(Some("t".to_string()))), Ok("t".to_string()));
    assert_eq!(
        google.id_token_from(Ok(None)).unwrap_err(),
        "Google didn't return an id_token - check that the 'openid' scope was granted."
    );
    assert_eq!(
        microsoft.id_token_from(Ok(None)).unwrap_err(),
        "Microsoft didn't return an id_token - check that the 'openid' scope was granted."
    );
    assert_eq!(
        google.id_token_from(Err("e".to_string())).unwrap_err(),
        "Token exchange failed: e"
    );
    assert_eq!(
        microsoft.id_token_from(Err("e".to_string())).unwrap_err(),
        "Device-code sign-in failed: e"
    );
}

fn google_fails(state: GoogleState, event: GoogleEvent) -> String {
    let GoogleStep { action, said, warned, .. } = login_google(state, event);
    assert!(matches!(action, GoogleAction::Fail(None)));
    assert!(said.is_empty());
    assert_eq!(warned.len(), 1);
    warned[0].clone()
}

#[test]
fn a_sign_in_through_google_goes_by_the_browser() {
    let step = login_google(GoogleState::Starting, GoogleEvent::Listening(8080));
    assert!(matches!(
        step.action,
        GoogleAction::Build { redirect, scopes }
            if redirect == "http://127.0.0.1:8080" && scopes == ["openid", "email", "profile"]
    ));
    let step = login_google(step.state, GoogleEvent::Built("https://u?state=S".to_string()));
    assert!(matches!(&step.action, GoogleAction::OpenBrowser(u) if u == "https://u?state=S"));
    assert!(step.said.is_empty() && step.warned.is_empty());
    let step = login_google(step.state, GoogleEvent::BrowserOpened);
    assert!(matches!(step.action, GoogleAction::AwaitRedirect));
    assert_eq!(
        step.said,
        vec![
            "Opening your browser for sign-in...",
            "Waiting for sign-in... (press Ctrl+C to cancel)",
        ]
    );
    let step = login_google(step.state, GoogleEvent::Returned("C".to_string()));
    assert!(matches!(&step.action, GoogleAction::Exchange(c) if c == "C"));
    let step = login_google(step.state, GoogleEvent::Exchanged(Ok(Some("ID".to_string()))));
    assert!(matches!(step.action, GoogleAction::Finish(t) if t == "ID"));
}

#[test]
fn a_sign_in_through_google_says_what_went_wrong() {
    let e = || "e".to_string();
    assert!(google_fails(GoogleState::Starting, GoogleEvent::NoClientId)
        .starts_with("Google SSO isn't configured yet: set GOOGLE_AUTH_CLI_CLIENT_ID to"));
    assert_eq!(
        google_fails(GoogleState::Starting, GoogleEvent::BindFailed(e())),
        "Could not bind a loopback port for the OAuth redirect: e"
    );
    assert_eq!(
        google_fails(GoogleState::Starting, GoogleEvent::PortFailed(e())),
        "Could not determine the loopback listener's port: e"
    );
    let bad = |used: UsedUrl| google_fails(GoogleState::Building, GoogleEvent::BadUrl(used, e()));
    assert_eq!(bad(UsedUrl::Authorize), "Invalid Google auth URL: e");
    assert_eq!(bad(UsedUrl::Token), "Invalid Google token URL: e");
    assert_eq!(bad(UsedUrl::Redirect), "Invalid redirect URL: e");
    let step = login_google(
        GoogleState::Opening("https://u".to_string()),
        GoogleEvent::BrowserFailed(e()),
    );
    assert!(matches!(step.action, GoogleAction::AwaitRedirect));
    assert_eq!(
        step.warned,
        vec![
            "Could not open a browser automatically (e).",
            "Please open the following URL manually: https://u",
            "Warning: this URL contains a one-time CSRF token. If it appears in logs or shared terminal history, press Ctrl+C and re-run to get a fresh token.",
        ]
    );
    let step = login_google(GoogleState::Exchanging, GoogleEvent::Exchanged(Err(e())));
    assert!(matches!(step.action, GoogleAction::Fail(Some(r)) if r == FAILED_REPLY));
    assert_eq!(step.warned, vec!["Token exchange failed: e"]);
}

#[test]
fn a_sign_in_through_microsoft_is_polled_for() {
    let step = login_microsoft(MicrosoftState::Starting, MicrosoftEvent::Configured(None));
    assert!(matches!(
        step.action,
        MicrosoftAction::Build(e, scopes)
            if e.device_code == "https://login.microsoftonline.com/organizations/oauth2/v2.0/devicecode"
                && scopes == ["openid", "email", "profile"]
    ));
    let step = login_microsoft(
        step.state,
        MicrosoftEvent::Prompt {
            complete_uri: None,
            uri: "https://m".to_string(),
            user_code: "AB".to_string(),
            expires_in: 1000,
        },
    );
    assert!(matches!(step.action, MicrosoftAction::Poll(900)));
    assert_eq!(
        step.said,
        vec![
            "To sign in, visit https://m and enter code AB",
            "Waiting for sign-in... (press Ctrl+C to cancel)",
        ]
    );
    let step =
        login_microsoft(step.state, MicrosoftEvent::Exchanged(Ok(Some("ID".to_string()))));
    assert!(matches!(step.action, MicrosoftAction::Finish(t) if t == "ID"));
    let warned = |s: MicrosoftState, e: MicrosoftEvent| {
        let step = login_microsoft(s, e);
        assert!(matches!(step.action, MicrosoftAction::Fail));
        step.warned[0].clone()
    };
    assert!(warned(MicrosoftState::Starting, MicrosoftEvent::NoClientId)
        .starts_with("Microsoft SSO isn't configured yet: set MICROSOFT_AUTH_CLI_CLIENT_ID to"));
    assert!(warned(
        MicrosoftState::Starting,
        MicrosoftEvent::Configured(Some("a/b".to_string()))
    )
    .starts_with("MICROSOFT_AUTH_CLI_TENANT is not a valid Azure tenant identifier"));
    assert_eq!(
        warned(
            MicrosoftState::Building,
            MicrosoftEvent::BadUrl(UsedUrl::DeviceCode, "e".to_string())
        ),
        "Invalid Microsoft device authorization URL: e"
    );
    assert_eq!(
        warned(MicrosoftState::Building, MicrosoftEvent::Refused("e".to_string())),
        "Could not start device-code sign-in: e"
    );
    assert_eq!(
        warned(MicrosoftState::Polling, MicrosoftEvent::Exchanged(Ok(None))),
        "Microsoft didn't return an id_token - check that the 'openid' scope was granted."
    );
}
