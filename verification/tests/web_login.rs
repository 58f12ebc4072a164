use klaay::client::{ApiClient, ApiRequest, HttpMethod, RequestBody};
use klaay::config::{Config, EnvVar, Environment};
use klaay::json::Json;
use klaay::response::{ApiResponse, BodyKind};
use klaay::sign_in::{SignIn, SignInAction, SignInEvent, SignInState};
use klaay::web_login::{
    challenge_for, code_from_request_line, poll_step, poll_wait, random_secret, register, resolve_web_url,
    secret_from, string_attribute, wait_for_code, PollStep,
};

fn obj(fields: Vec<(&str, Json)>) -> Json {
    Json::Object(fields.into_iter().map(|(k, v)| (k.to_string(), v)).collect())
}

fn s(t: &str) -> Json {
    Json::Text(t.to_string())
}

fn with_attributes(status: u16, fields: Vec<(&str, Json)>) -> ApiResponse {
    ApiResponse::new(
        status,
        obj(vec![("data", obj(vec![("attributes", obj(fields))]))]),
        BodyKind::Json,
    )
}

fn config(api: &str, web: Option<&str>) -> Config {
    let env = Environment {
        api_url: EnvVar::Unset,
        web_url: EnvVar::Unset,
        allow_insecure: EnvVar::Unset,
    };
    Config::resolve(Some(api.to_string()), web.map(|w| w.to_string()), false, &env).0.unwrap()
}

fn client(config: &Config) -> ApiClient {
    ApiClient::new(config.api_url().to_string(), None, "klaay").ok().unwrap()
}

fn body_text(request: &ApiRequest) -> String {
    match &request.body {
        RequestBody::Text(t) => t.clone(),
        RequestBody::Bytes(b) => String::from_utf8(b.clone()).unwrap(),
        _ => panic!("expected a written body"),
    }
}

#[test]
fn a_server_error_backs_off_instead_of_ending_the_sign_in() {
    assert_eq!(poll_step(500), PollStep::BackOff);
    assert_eq!(poll_step(502), PollStep::BackOff);
    assert_eq!(poll_step(503), PollStep::BackOff);
    assert_eq!(poll_step(504), PollStep::BackOff);
}

#[test]
fn poll_step_reads_the_settled_answers() {
    assert_eq!(poll_step(200), PollStep::Done);
    assert_eq!(poll_step(202), PollStep::Wait);
    assert_eq!(poll_step(404), PollStep::Spent);
    assert_eq!(poll_step(429), PollStep::BackOff);
}

#[test]
fn a_client_error_ends_the_sign_in() {
    assert_eq!(poll_step(400), PollStep::Fail);
    assert_eq!(poll_step(403), PollStep::Fail);
}

#[test]
fn the_ends_of_the_server_errors_back_off() {
    assert_eq!(poll_step(599), PollStep::BackOff);
    assert_eq!(poll_step(600), PollStep::Fail);
    assert_eq!(poll_step(499), PollStep::Fail);
    assert_eq!(poll_step(201), PollStep::Fail);
}

#[test]
fn random_secret_is_43_base64url_chars() {
    let secret = random_secret().unwrap();
    assert_eq!(secret.len(), 43);
    assert!(secret.chars().all(|c| c.is_ascii_alphanumeric() || c == '-' || c == '_'));
}

#[test]
fn two_secrets_differ() {
    assert_ne!(random_secret().unwrap(), random_secret().unwrap());
}

#[test]
fn a_secret_is_its_bytes_in_base64() {
    let bytes: Vec<u8> = (0u8..32).collect();
    assert_eq!(secret_from(&bytes), "AAECAwQFBgcICQoLDA0ODxAREhMUFRYXGBkaGxwdHh8");
    assert_eq!(secret_from(&[0xff; 32]), "__________________________________________8");
}

#[test]
fn challenge_is_the_rfc_7636_s256_example() {
    assert_eq!(
        challenge_for("dBjftJeZ4CVP-mB92K27uhbUJU1p1r_wW1gFWFOEjXk"),
        "E9Melhoa2OwvFrEMTJguCHaoeK1t8URWbuGJSstw-cM"
    );
}

#[test]
fn challenge_carries_no_padding() {
    assert!(!challenge_for("anything").contains('='));
}

#[test]
fn code_comes_out_of_the_request_line() {
    assert_eq!(
        code_from_request_line("GET /?code=abc123 HTTP/1.1\r\n").map(|c| c.to_string()),
        Some("abc123".to_string())
    );
}

#[test]
fn code_is_found_among_other_parameters() {
    assert_eq!(
        code_from_request_line("GET /?state=x&code=abc123&other=y HTTP/1.1\r\n")
            .map(|c| c.to_string()),
        Some("abc123".to_string())
    );
}

#[test]
fn a_reply_with_no_code_yields_none() {
    assert!(code_from_request_line("GET / HTTP/1.1\r\n").is_none());
    assert!(code_from_request_line("GET /?code= HTTP/1.1\r\n").is_none());
    assert!(code_from_request_line("garbage\r\n").is_none());
}

#[test]
fn the_first_code_counts_and_a_plus_is_a_space() {
    let code = |line: &str| code_from_request_line(line);
    assert_eq!(code("GET /?code=a+b%20=c HTTP/1.1").unwrap(), "a b%20=c");
    assert_eq!(code("GET /?code=&code=x HTTP/1.1"), None);
    assert_eq!(code("GET /?code&code=x HTTP/1.1").unwrap(), "x");
    assert_eq!(code("GET\u{a0}/a?b?code=1&code=2 x").unwrap(), "2");
    assert_eq!(code(""), None);
}

#[test]
fn the_browser_is_told_how_it_went() {
    let (code, reply) = wait_for_code("GET /?code=abc HTTP/1.1\r\n");
    assert_eq!(code.unwrap(), "abc");
    let page = "<!doctype html><meta charset=utf-8><title>Signed in</title><p>You are signed in. You can close this window and go back to your terminal.";
    assert_eq!(
        reply,
        format!("HTTP/1.1 200 OK\r\nContent-Type: text/html; charset=utf-8\r\nContent-Length: {}\r\nConnection: close\r\n\r\n{page}", page.len())
    );
    let (code, reply) = wait_for_code("x");
    assert!(code.is_none());
    assert!(reply.ends_with("<title>Sign-in failed</title><p>That reply carried no sign-in code. Go back to your terminal and run the command again."));
}

#[test]
fn attributes_are_read_from_the_data() {
    let r = with_attributes(200, vec![("a", s("1")), ("n", Json::Null)]);
    assert_eq!(string_attribute(&r, "a").unwrap(), "1");
    assert_eq!(string_attribute(&r, "n"), None);
    assert_eq!(string_attribute(&r, "b"), None);
    assert_eq!(
        string_attribute(&ApiResponse::new(200, Json::Null, BodyKind::Empty), "a"),
        None
    );
}

#[test]
fn the_sign_in_page_is_where_the_server_says() {
    let default = config("https://api.x.com", None);
    let announced = with_attributes(200, vec![("web_url", s("https://web.x.com//"))]);
    assert_eq!(
        resolve_web_url(&default, &announced),
        Ok(("https://web.x.com".to_string(), None))
    );
    let own = config("https://api.x.com", Some("https://own.x.com"));
    assert_eq!(resolve_web_url(&own, &announced), Ok(("https://own.x.com".to_string(), None)));
    let silent = with_attributes(200, vec![]);
    assert_eq!(
        resolve_web_url(&default, &silent),
        Ok((
            "https://app.klaay.com".to_string(),
            Some("Note: this server doesn't announce its sign-in page; opening https://app.klaay.com - pass --web-url if that's the wrong web app for https://api.x.com.".to_string())
        ))
    );
    assert_eq!(resolve_web_url(&own, &silent), Ok(("https://own.x.com".to_string(), None)));
    let plain = with_attributes(200, vec![("web_url", s("http://web.x.com"))]);
    assert!(resolve_web_url(&default, &plain)
        .unwrap_err()
        .starts_with("The server announced a sign-in page URL that can't be used: http://web.x.com is not HTTPS"));
    assert!(resolve_web_url(&own, &plain).is_ok());
}

#[test]
fn a_refused_registration_is_explained() {
    let r = ApiResponse::new(404, s("x"), BodyKind::Json);
    assert_eq!(
        register(&r, "klaay", "\"x\"").unwrap_err(),
        vec![
            "Could not start a browser sign-in (404): \"x\"",
            "If this Klaay environment predates the current sign-in support, upgrade the server, or ask an administrator for a token and run `klaay login --with-token`.",
        ]
    );
    let r = with_attributes(200, vec![("deprecation_warning", s("soon gone"))]);
    assert_eq!(register(&r, "klaay", "").unwrap(), vec!["Warning: soon gone"]);
    assert!(register(&with_attributes(200, vec![]), "klaay", "").unwrap().is_empty());
}

#[test]
fn a_browser_sign_in_runs_to_its_token() {
    let config = config("https://api.x.com", None);
    let client = client(&config);
    let flow = SignIn { client: &client, config: &config, bin: "klaay" };
    let verifier = "dBjftJeZ4CVP-mB92K27uhbUJU1p1r_wW1gFWFOEjXk";
    let step = flow.begin_with(4321, verifier.to_string());
    let SignInAction::Send(request) = step.action else { panic!("registers first") };
    assert_eq!(request.method, HttpMethod::Post);
    assert_eq!(request.url, "https://api.x.com/cli_auth_requests");
    assert_eq!(
        body_text(&request),
        r#"{"data":{"type":"cli_auth_requests","attributes":{"kind":"loopback","client":"cli","code_challenge":"E9Melhoa2OwvFrEMTJguCHaoeK1t8URWbuGJSstw-cM","redirect_port":4321}}}"#
    );
    assert!(!body_text(&request).contains(verifier));

    let answer =
        with_attributes(
            201,
            vec![
                ("request_id", s("R1")),
                ("user_code", s("AB-CD")),
                ("web_url", s("https://w.x.com/")),
            ],
        );
    let step = flow.login_via_browser(step.state, SignInEvent::Answer(answer, String::new()));
    let SignInAction::OpenBrowser(url) = step.action else { panic!("opens the browser") };
    assert_eq!(url, "https://w.x.com/login?app=cli&request=R1");

    let step = flow.login_via_browser(step.state, SignInEvent::BrowserOpened);
    assert!(matches!(step.action, SignInAction::WaitForBrowser));
    assert_eq!(
        step.said,
        vec![
            "Opening your browser for sign-in...",
            "Verification code: AB-CD",
            "Waiting for you to finish signing in... (press Ctrl+C to cancel)",
        ]
    );

    let step =
        flow.login_via_browser(step.state, SignInEvent::Returned(Some("CODE".to_string())));
    let SignInAction::Send(request) = step.action else { panic!("claims the token") };
    assert_eq!(request.url, "https://api.x.com/cli_auth_requests/claim");
    assert_eq!(
        body_text(&request),
        format!(r#"{{"data":{{"type":"cli_auth_requests","attributes":{{"code":"CODE","code_verifier":"{verifier}"}}}}}}"#)
    );

    let answer = with_attributes(200, vec![("token", s("a.b.c"))]);
    let step = flow.login_via_browser(step.state, SignInEvent::Answer(answer, String::new()));
    assert!(matches!(step.action, SignInAction::LogIn(t) if t == "a.b.c"));
}

#[test]
fn a_browser_sign_in_falls_back_to_the_typed_code() {
    let config = config("https://api.x.com", None);
    let client = client(&config);
    let flow = SignIn { client: &client, config: &config, bin: "klaay" };
    let step = flow
        .login_via_browser(SignInState::Listening, SignInEvent::ListenFailed("busy".to_string()));
    assert!(matches!(step.action, SignInAction::UseDevice));
    assert_eq!(
        step.warned,
        vec![
            "Could not listen on 127.0.0.1 for the sign-in reply (busy).",
            "Falling back to the code you type in yourself.",
        ]
    );
    let step =
        flow.login_via_browser(SignInState::Listening, SignInEvent::PortFailed("odd".to_string()));
    assert!(matches!(step.action, SignInAction::UseDevice));
    assert_eq!(step.warned, vec!["Could not read the local sign-in port (odd)."]);
    let step = flow.login_via_browser(
        SignInState::Opening("v".to_string(), Some("AB-CD".to_string())),
        SignInEvent::BrowserFailed("none".to_string()),
    );
    assert!(matches!(step.action, SignInAction::UseDevice));
    assert_eq!(
        step.warned,
        vec![
            "Could not open a browser automatically (none).",
            "Falling back to the code you type in yourself.",
        ]
    );
}

#[test]
fn a_browser_sign_in_without_a_code_shows_none() {
    let config = config("https://api.x.com", None);
    let client = client(&config);
    let flow = SignIn { client: &client, config: &config, bin: "klaay" };
    let step = flow.login_via_browser(
        SignInState::Opening("v".to_string(), None),
        SignInEvent::BrowserOpened,
    );
    assert_eq!(
        step.said,
        vec![
            "Opening your browser for sign-in...",
            "Waiting for you to finish signing in... (press Ctrl+C to cancel)",
        ]
    );
}

#[test]
fn polling_goes_on_for_six_minutes() {
    assert_eq!(poll_wait(false, 0), Some(3));
    assert_eq!(poll_wait(true, 0), Some(6));
    assert_eq!(poll_wait(false, 359), Some(3));
    assert_eq!(poll_wait(false, 360), None);
    assert_eq!(poll_wait(true, 356), Some(6));
    assert_eq!(poll_wait(true, 357), None);
    assert_eq!(poll_wait(true, u64::MAX), None);
}

#[test]
fn a_typed_code_is_polled_for() {
    let config = config("https://api.x.com", None);
    let client = client(&config);
    let flow = SignIn { client: &client, config: &config, bin: "klaay" };
    let step = flow.login_via_device();
    let SignInAction::Send(request) = step.action else { panic!("registers first") };
    assert_eq!(
        body_text(&request),
        r#"{"data":{"type":"cli_auth_requests","attributes":{"kind":"device","client":"cli"}}}"#
    );
    let answer = with_attributes(201, vec![("device_code", s("LONG")), ("user_code", s("AB-CD"))]);
    let step = flow.login_via_browser(step.state, SignInEvent::Answer(answer, String::new()));
    assert!(matches!(step.action, SignInAction::Poll { extra: false }));
    assert_eq!(
        step.said,
        vec![
            "Open this page in any browser: https://app.klaay.com/device",
            "Then type this code: AB-CD",
            "Waiting for you to finish signing in... (press Ctrl+C to cancel)",
        ]
    );
    assert!(step.said.iter().chain(step.warned.iter()).all(|l| !l.contains("LONG")));
    let (wait, request) = flow.poll_for_token("LONG", false, 0).unwrap();
    assert_eq!(wait, 3);
    assert!(flow.poll_for_token("LONG", false, 360).is_none());
    let request = request.ok().unwrap().0;
    assert_eq!(request.url, "https://api.x.com/cli_auth_requests/claim");
    assert_eq!(
        body_text(&request),
        r#"{"data":{"type":"cli_auth_requests","attributes":{"device_code":"LONG"}}}"#
    );
    let empty = |status: u16| ApiResponse::new(status, Json::Null, BodyKind::Empty);
    let step = flow.login_via_browser(
        step.state,
        SignInEvent::Answer(empty(202), String::new()),
    );
    assert!(matches!(step.action, SignInAction::Poll { extra: false }));
    let step = flow.login_via_browser(
        step.state,
        SignInEvent::Answer(empty(503), String::new()),
    );
    assert!(matches!(step.action, SignInAction::Poll { extra: true }));
    let answer = with_attributes(200, vec![("token", s("a.b.c"))]);
    let step = flow.login_via_browser(step.state, SignInEvent::Answer(answer, String::new()));
    assert!(matches!(step.action, SignInAction::LogIn(t) if t == "a.b.c"));
}

#[test]
fn a_sign_in_that_cannot_go_on_says_why() {
    let config = config("https://api.x.com", None);
    let client = client(&config);
    let flow = SignIn { client: &client, config: &config, bin: "klaay" };
    let warned = |state: SignInState, event: SignInEvent| {
        let step = flow.login_via_browser(state, event);
        assert!(matches!(step.action, SignInAction::Stop));
        step.warned
    };
    let polling = || SignInState::Polling("LONG".to_string());
    let answer = |status: u16| {
        SignInEvent::Answer(ApiResponse::new(status, s("x"), BodyKind::Json), "\"x\"".to_string())
    };
    assert_eq!(
        warned(SignInState::Registering("v".to_string()), answer(200)),
        vec!["The server accepted the sign-in but named no request to approve."]
    );
    assert_eq!(
        warned(SignInState::DeviceRegistering, answer(200)),
        vec!["This Klaay environment does not offer the type-in sign-in."]
    );
    assert_eq!(
        warned(SignInState::Waiting("v".to_string()), SignInEvent::Returned(None)),
        vec!["The browser never came back with a sign-in reply."]
    );
    assert_eq!(
        warned(SignInState::Claiming, answer(401)),
        vec!["The sign-in could not be completed (401): \"x\""]
    );
    assert_eq!(
        warned(SignInState::Claiming, answer(200)),
        vec!["The sign-in completed but the server's response carried no token."]
    );
    assert_eq!(
        warned(polling(), answer(404)),
        vec!["The sign-in request expired or was already used - run `klaay login` again."]
    );
    assert_eq!(warned(polling(), answer(400)), vec!["Sign-in polling failed (400): \"x\""]);
    assert_eq!(
        warned(polling(), SignInEvent::TimedOut),
        vec!["Timed out waiting for the browser sign-in."]
    );
}
