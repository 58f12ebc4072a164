//! The sign-in through the browser, step by step: each step takes what
//! happened and says what is to be done next.

use crate::client::{
    post_view, ApiClient, ApiRequest, ClientView, HttpMethod, RequestBodyView, RequestView,
};
use crate::config::{Config, SettingsView};
use crate::outside::base64_url;
use crate::response::{detail_of, success, ApiResponse, ResponseView};
use crate::text::{
    add_line, all_in, decimal, no_lines, number_text, one_line, opt_text, texts, CharClass,
};
use crate::web_login::{
    attribute, challenge, challenge_for, claim_body, device_body, device_claim_body,
    law_sign_in_requests, loopback_body,
    no_randomness, page_of, poll_meaning, poll_pause, poll_step, poll_wait, post_text, random_secret, register,
    registration, resolve_web_url, sign_in_request, string_attribute, token_in, PollStep,
};
use vstd::prelude::*;
use vstd::string::*;

verus! {

/// Who signs in where.
pub struct SignIn<'a> {
    pub client: &'a ApiClient,
    pub config: &'a Config,
    pub bin: &'a str,
}

pub struct SignInView {
    pub client: ClientView,
    pub config: SettingsView,
    pub bin: Seq<char>,
}

impl<'a> View for SignIn<'a> {
    type V = SignInView;

    open spec fn view(&self) -> SignInView {
        SignInView { client: self.client@, config: self.config@, bin: self.bin@ }
    }
}

/// How far the sign-in has come.
pub enum SignInState {
    /// A place for the browser to come back to is being made.
    Listening,
    /// The server has been asked to let someone sign in; the secret is kept.
    Registering(String),
    /// The browser is being opened; the code that it will show is kept, where
    /// there is one.
    Opening(String, Option<String>),
    /// The browser is waited for.
    Waiting(String),
    /// The server has been asked for the token.
    Claiming,
    /// The server has been asked for a code to type in.
    DeviceRegistering,
    /// The server is asked again and again for the token.
    Polling(String),
    Over,
}

pub enum SignInStateView {
    Listening,
    Registering(Seq<char>),
    Opening(Seq<char>, Option<Seq<char>>),
    Waiting(Seq<char>),
    Claiming,
    DeviceRegistering,
    Polling(Seq<char>),
    Over,
}

impl View for SignInState {
    type V = SignInStateView;

    open spec fn view(&self) -> SignInStateView {
        match self {
            SignInState::Listening => SignInStateView::Listening,
            SignInState::Registering(v) => SignInStateView::Registering(v@),
            SignInState::Opening(v, c) => SignInStateView::Opening(v@, opt_text(*c)),
            SignInState::Waiting(v) => SignInStateView::Waiting(v@),
            SignInState::Claiming => SignInStateView::Claiming,
            SignInState::DeviceRegistering => SignInStateView::DeviceRegistering,
            SignInState::Polling(c) => SignInStateView::Polling(c@),
            SignInState::Over => SignInStateView::Over,
        }
    }
}

/// What happened.
pub enum SignInEvent {
    /// There is no place for the browser to come back to.
    ListenFailed(String),
    PortFailed(String),
    /// The server answered; the text is the body on one line.
    Answer(ApiResponse, String),
    BrowserOpened,
    BrowserFailed(String),
    /// The browser came back, with a code or without.
    Returned(Option<String>),
    TimedOut,
}

pub enum SignInEventView {
    ListenFailed(Seq<char>),
    PortFailed(Seq<char>),
    Answer(ResponseView, Seq<char>),
    BrowserOpened,
    BrowserFailed(Seq<char>),
    Returned(Option<Seq<char>>),
    TimedOut,
}

impl View for SignInEvent {
    type V = SignInEventView;

    open spec fn view(&self) -> SignInEventView {
        match self {
            SignInEvent::ListenFailed(e) => SignInEventView::ListenFailed(e@),
            SignInEvent::PortFailed(e) => SignInEventView::PortFailed(e@),
            SignInEvent::Answer(r, t) => SignInEventView::Answer(r@, t@),
            SignInEvent::BrowserOpened => SignInEventView::BrowserOpened,
            SignInEvent::BrowserFailed(e) => SignInEventView::BrowserFailed(e@),
            SignInEvent::Returned(c) => SignInEventView::Returned(
                match c {
                    Some(x) => Some(x@),
                    None => None,
                },
            ),
            SignInEvent::TimedOut => SignInEventView::TimedOut,
        }
    }
}

/// What is to be done.
pub enum SignInAction {
    Send(ApiRequest),
    OpenBrowser(String),
    WaitForBrowser,
    /// Begin again with a code to type in.
    UseDevice,
    /// Wait one interval, or one more than that, and ask for the token.
    Poll { extra: bool },
    /// Log in with this token.
    LogIn(String),
    /// Give up.
    Stop,
}

pub enum SignInActionView {
    Send(RequestView),
    OpenBrowser(Seq<char>),
    WaitForBrowser,
    UseDevice,
    Poll { extra: bool },
    LogIn(Seq<char>),
    Stop,
}

impl View for SignInAction {
    type V = SignInActionView;

    open spec fn view(&self) -> SignInActionView {
        match self {
            SignInAction::Send(q) => SignInActionView::Send(q@),
            SignInAction::OpenBrowser(u) => SignInActionView::OpenBrowser(u@),
            SignInAction::WaitForBrowser => SignInActionView::WaitForBrowser,
            SignInAction::UseDevice => SignInActionView::UseDevice,
            SignInAction::Poll { extra } => SignInActionView::Poll { extra: *extra },
            SignInAction::LogIn(t) => SignInActionView::LogIn(t@),
            SignInAction::Stop => SignInActionView::Stop,
        }
    }
}

/// What is said before it, as output and as warnings, and the state then.
pub struct SignInStep {
    pub state: SignInState,
    pub action: SignInAction,
    pub said: Vec<String>,
    pub warned: Vec<String>,
}

pub struct SignInStepView {
    pub state: SignInStateView,
    pub action: SignInActionView,
    pub said: Seq<Seq<char>>,
    pub warned: Seq<Seq<char>>,
}

impl View for SignInStep {
    type V = SignInStepView;

    open spec fn view(&self) -> SignInStepView {
        SignInStepView {
            state: self.state@,
            action: self.action@,
            said: texts(self.said@),
            warned: texts(self.warned@),
        }
    }
}

/// The events that can happen in a state.
pub open spec fn may_follow(state: SignInStateView, event: SignInEventView) -> bool {
    match state {
        SignInStateView::Listening => event is ListenFailed || event is PortFailed,
        SignInStateView::Registering(_) => event is Answer,
        SignInStateView::Opening(_, _) => event is BrowserOpened || event is BrowserFailed,
        SignInStateView::Waiting(_) => event is Returned,
        SignInStateView::Claiming => event is Answer,
        SignInStateView::DeviceRegistering => event is Answer,
        SignInStateView::Polling(_) => event is Answer || event is TimedOut,
        SignInStateView::Over => false,
    }
}

pub open spec fn given_up(warned: Seq<Seq<char>>) -> SignInStepView {
    SignInStepView {
        state: SignInStateView::Over,
        action: SignInActionView::Stop,
        said: Seq::empty(),
        warned,
    }
}

pub open spec fn quiet(
    state: SignInStateView,
    action: SignInActionView,
    warned: Seq<Seq<char>>,
) -> SignInStepView {
    SignInStepView { state, action, said: Seq::empty(), warned }
}

pub open spec fn fallback_line() -> Seq<char> {
    "Falling back to the code you type in yourself."@
}

pub open spec fn waiting_line() -> Seq<char> {
    "Waiting for you to finish signing in... (press Ctrl+C to cancel)"@
}

/// The code that the browser shows, too, before the sign-in is approved.
pub open spec fn verification_line(user_code: Seq<char>) -> Seq<char> {
    "Verification code: "@ + user_code
}

/// What is said once the browser is open.
pub open spec fn opened_lines(user_code: Option<Seq<char>>) -> Seq<Seq<char>> {
    match user_code {
        Some(c) => seq![
            "Opening your browser for sign-in..."@,
            verification_line(c),
            waiting_line(),
        ],
        None => seq!["Opening your browser for sign-in..."@, waiting_line()],
    }
}

/// A request goes out, unless it cannot.
pub open spec fn sending(
    r: Result<(RequestView, Option<Seq<char>>), Seq<char>>,
    state: SignInStateView,
) -> SignInStepView {
    match r {
        Ok(p) => quiet(
            state,
            SignInActionView::Send(p.0),
            match p.1 {
                Some(note) => seq![note],
                None => Seq::empty(),
            },
        ),
        Err(e) => given_up(seq![e]),
    }
}

/// The server is asked to let someone sign in with the browser.
pub open spec fn registering(s: SignInView, port: u16, verifier: Seq<char>) -> SignInStepView {
    sending(
        sign_in_request(
            s.client,
            s.config.api_url + "/cli_auth_requests"@,
            loopback_body(challenge(verifier), port),
        ),
        SignInStateView::Registering(verifier),
    )
}

/// The server is asked for a code to type in.
pub open spec fn device_registering(s: SignInView) -> SignInStepView {
    sending(
        sign_in_request(s.client, s.config.api_url + "/cli_auth_requests"@, device_body()),
        SignInStateView::DeviceRegistering,
    )
}

/// The request for the token of a code that was typed in.
pub open spec fn token_request(s: SignInView, device_code: Seq<char>) -> Result<
    (RequestView, Option<Seq<char>>),
    Seq<char>,
> {
    sign_in_request(
        s.client,
        s.config.api_url + "/cli_auth_requests/claim"@,
        device_claim_body(device_code),
    )
}

/// The page that the browser is sent to.
pub open spec fn opening(s: SignInView, verifier: Seq<char>, r: ResponseView, compact: Seq<char>) -> SignInStepView {
    match registration(r, s.bin, compact) {
        Err(lines) => given_up(lines),
        Ok(warned) => match attribute(r, "request_id"@) {
            None => given_up(
                warned.push(
                    "The server accepted the sign-in but named no request to approve."@,
                ),
            ),
            Some(id) => match page_of(s.config, r) {
                Err(e) => given_up(warned.push(e)),
                Ok(p) => quiet(
                    SignInStateView::Opening(verifier, attribute(r, "user_code"@)),
                    SignInActionView::OpenBrowser(p.0 + "/login?app=cli&request="@ + id),
                    match p.1 {
                        Some(note) => warned.push(note),
                        None => warned,
                    },
                ),
            },
        },
    }
}

/// The code to type in is shown.
pub open spec fn prompting(s: SignInView, r: ResponseView, compact: Seq<char>) -> SignInStepView {
    match registration(r, s.bin, compact) {
        Err(lines) => given_up(lines),
        Ok(warned) => match attribute(r, "device_code"@) {
            None => given_up(
                warned.push("This Klaay environment does not offer the type-in sign-in."@),
            ),
            Some(code) => match attribute(r, "verification_uri"@) {
                Some(uri) => polling(warned, code, uri, attribute(r, "user_code"@)),
                None => match page_of(s.config, r) {
                    Err(e) => given_up(warned.push(e)),
                    Ok(p) => polling(
                        match p.1 {
                            Some(note) => warned.push(note),
                            None => warned,
                        },
                        code,
                        p.0 + "/device"@,
                        attribute(r, "user_code"@),
                    ),
                },
            },
        },
    }
}

pub open spec fn polling(
    warned: Seq<Seq<char>>,
    device_code: Seq<char>,
    uri: Seq<char>,
    user_code: Option<Seq<char>>,
) -> SignInStepView {
    SignInStepView {
        state: SignInStateView::Polling(device_code),
        action: SignInActionView::Poll { extra: false },
        said: seq![
            "Open this page in any browser: "@ + uri,
            "Then type this code: "@ + (match user_code {
                Some(c) => c,
                None => Seq::empty(),
            }),
            waiting_line(),
        ],
        warned,
    }
}

/// A response that should bring the token.
pub open spec fn logging_in(r: ResponseView) -> SignInStepView {
    match token_in(r) {
        Ok(t) => quiet(SignInStateView::Over, SignInActionView::LogIn(t), Seq::empty()),
        Err(e) => given_up(seq![e]),
    }
}

/// What follows from an answer to a poll.
pub open spec fn polled(s: SignInView, device_code: Seq<char>, r: ResponseView, compact: Seq<char>) -> SignInStepView {
    match poll_meaning(r.status) {
        PollStep::Wait => quiet(
            SignInStateView::Polling(device_code),
            SignInActionView::Poll { extra: false },
            Seq::empty(),
        ),
        PollStep::BackOff => quiet(
            SignInStateView::Polling(device_code),
            SignInActionView::Poll { extra: true },
            Seq::empty(),
        ),
        PollStep::Done => logging_in(r),
        PollStep::Spent => given_up(
            seq![
                "The sign-in request expired or was already used - run `"@ + s.bin
                    + " login` again."@,
            ],
        ),
        PollStep::Fail => given_up(
            seq![
                "Sign-in polling failed ("@ + decimal(r.status as nat) + "): "@ + detail_of(
                    r.kind,
                    s.bin,
                    compact,
                ),
            ],
        ),
    }
}

/// What follows from an event.
pub open spec fn sign_in_step(s: SignInView, state: SignInStateView, event: SignInEventView) -> SignInStepView {
    match (state, event) {
        (SignInStateView::Listening, SignInEventView::ListenFailed(e)) => quiet(
            SignInStateView::Over,
            SignInActionView::UseDevice,
            seq![
                "Could not listen on 127.0.0.1 for the sign-in reply ("@ + e + ")."@,
                fallback_line(),
            ],
        ),
        (SignInStateView::Listening, SignInEventView::PortFailed(e)) => quiet(
            SignInStateView::Over,
            SignInActionView::UseDevice,
            seq!["Could not read the local sign-in port ("@ + e + ")."@],
        ),
        (SignInStateView::Registering(v), SignInEventView::Answer(r, t)) => opening(s, v, r, t),
        (SignInStateView::Opening(v, c), SignInEventView::BrowserOpened) => SignInStepView {
            state: SignInStateView::Waiting(v),
            action: SignInActionView::WaitForBrowser,
            said: opened_lines(c),
            warned: Seq::empty(),
        },
        (SignInStateView::Opening(_, _), SignInEventView::BrowserFailed(e)) => quiet(
            SignInStateView::Over,
            SignInActionView::UseDevice,
            seq!["Could not open a browser automatically ("@ + e + ")."@, fallback_line()],
        ),
        (SignInStateView::Waiting(_), SignInEventView::Returned(None)) => given_up(
            seq!["The browser never came back with a sign-in reply."@],
        ),
        (SignInStateView::Waiting(v), SignInEventView::Returned(Some(code))) => sending(
            sign_in_request(
                s.client,
                s.config.api_url + "/cli_auth_requests/claim"@,
                claim_body(code, v),
            ),
            SignInStateView::Claiming,
        ),
        (SignInStateView::Claiming, SignInEventView::Answer(r, t)) => if success(r) {
            logging_in(r)
        } else {
            given_up(
                seq![
                    "The sign-in could not be completed ("@ + decimal(r.status as nat) + "): "@
                        + detail_of(r.kind, s.bin, t),
                ],
            )
        },
        (SignInStateView::DeviceRegistering, SignInEventView::Answer(r, t)) => prompting(s, r, t),
        (SignInStateView::Polling(c), SignInEventView::Answer(r, t)) => polled(s, c, r, t),
        (SignInStateView::Polling(_), SignInEventView::TimedOut) => given_up(
            seq!["Timed out waiting for the browser sign-in."@],
        ),
        _ => given_up(Seq::empty()),
    }
}

fn give_up(warned: Vec<String>) -> (r: SignInStep)
    ensures
        r@ == given_up(texts(warned@)),
{
    SignInStep {
        state: SignInState::Over,
        action: SignInAction::Stop,
        said: no_lines(),
        warned,
    }
}

fn give_up_with(line: String) -> (r: SignInStep)
    ensures
        r@ == given_up(seq![line@]),
{
    give_up(one_line(line))
}

fn go_on(state: SignInState, action: SignInAction, warned: Vec<String>) -> (r: SignInStep)
    ensures
        r@ == quiet(state@, action@, texts(warned@)),
{
    SignInStep { state, action, said: no_lines(), warned }
}

fn say_opened(user_code: Option<String>) -> (r: Vec<String>)
    ensures
        texts(r@) == opened_lines(opt_text(user_code)),
{
    let ghost code = opt_text(user_code);
    let mut said = one_line("Opening your browser for sign-in...".to_owned());
    if let Some(c) = user_code {
        add_line(&mut said, "Verification code: ".to_owned().concat(c.as_str()));
    }
    add_line(
        &mut said,
        "Waiting for you to finish signing in... (press Ctrl+C to cancel)".to_owned(),
    );
    assert(texts(said@) =~= opened_lines(code));
    said
}

fn two_lines(first: String, second: &str) -> (r: Vec<String>)
    ensures
        texts(r@) == seq![first@, second@],
{
    let mut lines = one_line(first);
    add_line(&mut lines, second.to_owned());
    assert(texts(lines@) =~= seq![first@, second@]);
    lines
}

fn send(request: Result<(ApiRequest, Option<String>), String>, state: SignInState) -> (r: SignInStep)
    ensures
        r@ == sending(post_view(request), state@),
{
    match request {
        Ok((q, note)) => {
            let warned = match note {
                Some(n) => one_line(n),
                None => no_lines(),
            };
            go_on(state, SignInAction::Send(q), warned)
        },
        Err(e) => give_up_with(e),
    }
}

fn log_in(response: &ApiResponse) -> (r: SignInStep)
    ensures
        r@ == logging_in(response@),
{
    match string_attribute(response, "token") {
        Some(t) => go_on(SignInState::Over, SignInAction::LogIn(t), no_lines()),
        None => give_up_with(
            "The sign-in completed but the server's response carried no token.".to_owned(),
        ),
    }
}

fn start_polling(
    warned: Vec<String>,
    device_code: String,
    uri: &str,
    user_code: Option<String>,
) -> (r: SignInStep)
    ensures
        r@ == polling(texts(warned@), device_code@, uri@, opt_text(user_code)),
{
    let shown = match &user_code {
        Some(c) => c.clone(),
        None => String::new(),
    };
    let mut said = one_line("Open this page in any browser: ".to_owned().concat(uri));
    add_line(&mut said, "Then type this code: ".to_owned().concat(shown.as_str()));
    add_line(
        &mut said,
        "Waiting for you to finish signing in... (press Ctrl+C to cancel)".to_owned(),
    );
    assert(texts(said@) =~= polling(
        texts(warned@),
        device_code@,
        uri@,
        opt_text(user_code),
    ).said);
    SignInStep {
        state: SignInState::Polling(device_code),
        action: SignInAction::Poll { extra: false },
        said,
        warned,
    }
}

impl<'a> SignIn<'a> {
    /// Asks the server to let someone sign in with the browser, which comes
    /// back to this port. The server gets what was made of a new secret, and
    /// nothing is said of which one.
    pub fn begin(&self, port: u16) -> (r: SignInStep)
        ensures
            (exists|e: Seq<char>| r@ == given_up(seq![#[trigger] no_randomness(e)])) || exists|
                b: Seq<u8>,
            |
                b.len() == 32 && (#[trigger] base64_url(b)).len() == 43 && all_in(
                    base64_url(b),
                    CharClass::PathSegment,
                ) && r@ == registering(self@, port, base64_url(b)),
    {
        match random_secret() {
            Ok(v) => self.begin_with(port, v),
            Err(e) => give_up_with(e),
        }
    }

    /// Asks the server to let someone sign in with the browser, with this
    /// secret.
    pub fn begin_with(&self, port: u16, verifier: String) -> (r: SignInStep)
        ensures
            r@ == registering(self@, port, verifier@),
    {
        let url = self.config.api_url().to_owned().concat("/cli_auth_requests");
        let body =
            "{\"data\":{\"type\":\"cli_auth_requests\",\"attributes\":{\"kind\":\"loopback\",\"client\":\"cli\",\"code_challenge\":\"".to_owned().concat(
            challenge_for(verifier.as_str()).as_str(),
        ).concat("\",\"redirect_port\":").concat(number_text(port as u128).as_str()).concat("}}}");
        send(post_text(self.client, url.as_str(), body), SignInState::Registering(verifier))
    }

    /// Asks the server for a code to type in.
    pub fn login_via_device(&self) -> (r: SignInStep)
        ensures
            r@ == device_registering(self@),
    {
        let url = self.config.api_url().to_owned().concat("/cli_auth_requests");
        let body =
            "{\"data\":{\"type\":\"cli_auth_requests\",\"attributes\":{\"kind\":\"device\",\"client\":\"cli\"}}}".to_owned();
        send(post_text(self.client, url.as_str(), body), SignInState::DeviceRegistering)
    }

    /// How long it takes until the token of a code that was typed in is asked
    /// for, and the request that asks for it; nothing once `elapsed` seconds
    /// are too many.
    pub fn poll_for_token(&self, device_code: &str, extra: bool, elapsed: u64) -> (r: Option<
        (u64, Result<(ApiRequest, Option<String>), String>),
    >)
        ensures
            match r {
                None => poll_pause(extra, elapsed) is None,
                Some((wait, request)) => poll_pause(extra, elapsed) == Some(wait) && post_view(
                    request,
                ) == token_request(self@, device_code@),
            },
    {
        let wait: u64 = match poll_wait(extra, elapsed) {
            Some(wait) => wait,
            None => {
                return None;
            },
        };
        let url = self.config.api_url().to_owned().concat("/cli_auth_requests/claim");
        let body =
            "{\"data\":{\"type\":\"cli_auth_requests\",\"attributes\":{\"device_code\":\"".to_owned().concat(
            device_code,
        ).concat("\"}}}");
        Some((wait, post_text(self.client, url.as_str(), body)))
    }

    fn open_page(&self, verifier: String, response: &ApiResponse, compact: &str) -> (r: SignInStep)
        ensures
            r@ == opening(self@, verifier@, response@, compact@),
    {
        let mut warned = match register(response, self.bin, compact) {
            Ok(w) => w,
            Err(lines) => {
                return give_up(lines);
            },
        };
        let id = match string_attribute(response, "request_id") {
            Some(id) => id,
            None => {
                add_line(
                    &mut warned,
                    "The server accepted the sign-in but named no request to approve.".to_owned(),
                );
                return give_up(warned);
            },
        };
        match resolve_web_url(self.config, response) {
            Err(e) => {
                add_line(&mut warned, e);
                give_up(warned)
            },
            Ok((page, note)) => {
                if let Some(note) = note {
                    add_line(&mut warned, note);
                }
                let url = page.concat("/login?app=cli&request=").concat(id.as_str());
                let user_code = string_attribute(response, "user_code");
                go_on(
                    SignInState::Opening(verifier, user_code),
                    SignInAction::OpenBrowser(url),
                    warned,
                )
            },
        }
    }

    fn show_code(&self, response: &ApiResponse, compact: &str) -> (r: SignInStep)
        ensures
            r@ == prompting(self@, response@, compact@),
    {
        let mut warned = match register(response, self.bin, compact) {
            Ok(w) => w,
            Err(lines) => {
                return give_up(lines);
            },
        };
        let device_code = match string_attribute(response, "device_code") {
            Some(c) => c,
            None => {
                add_line(
                    &mut warned,
                    "This Klaay environment does not offer the type-in sign-in.".to_owned(),
                );
                return give_up(warned);
            },
        };
        let user_code = string_attribute(response, "user_code");
        match string_attribute(response, "verification_uri") {
            Some(uri) => start_polling(warned, device_code, uri.as_str(), user_code),
            None => match resolve_web_url(self.config, response) {
                Err(e) => {
                    add_line(&mut warned, e);
                    give_up(warned)
                },
                Ok((page, note)) => {
                    if let Some(note) = note {
                        add_line(&mut warned, note);
                    }
                    start_polling(warned, device_code, page.concat("/device").as_str(), user_code)
                },
            },
        }
    }

    fn after_poll(&self, device_code: String, response: &ApiResponse, compact: &str) -> (r: SignInStep)
        ensures
            r@ == polled(self@, device_code@, response@, compact@),
    {
        match poll_step(response.status()) {
            PollStep::Wait => go_on(
                SignInState::Polling(device_code),
                SignInAction::Poll { extra: false },
                no_lines(),
            ),
            PollStep::BackOff => go_on(
                SignInState::Polling(device_code),
                SignInAction::Poll { extra: true },
                no_lines(),
            ),
            PollStep::Done => log_in(response),
            PollStep::Spent => give_up_with(
                "The sign-in request expired or was already used - run `".to_owned().concat(
                    self.bin,
                ).concat(" login` again."),
            ),
            PollStep::Fail => give_up_with(
                "Sign-in polling failed (".to_owned().concat(
                    number_text(response.status() as u128).as_str(),
                ).concat("): ").concat(response.error_detail(self.bin, compact).as_str()),
            ),
        }
    }

    /// One step of the sign-in. Where the browser cannot be used, it begins
    /// again with a code to type in.
    pub fn login_via_browser(&self, state: SignInState, event: SignInEvent) -> (r: SignInStep)
        requires
            may_follow(state@, event@),
        ensures
            r@ == sign_in_step(self@, state@, event@),
    {
        match (state, event) {
            (SignInState::Listening, SignInEvent::ListenFailed(e)) => go_on(
                SignInState::Over,
                SignInAction::UseDevice,
                two_lines(
                    "Could not listen on 127.0.0.1 for the sign-in reply (".to_owned().concat(
                        e.as_str(),
                    ).concat(")."),
                    "Falling back to the code you type in yourself.",
                ),
            ),
            (SignInState::Listening, SignInEvent::PortFailed(e)) => go_on(
                SignInState::Over,
                SignInAction::UseDevice,
                one_line(
                    "Could not read the local sign-in port (".to_owned().concat(
                        e.as_str(),
                    ).concat(")."),
                ),
            ),
            (SignInState::Registering(v), SignInEvent::Answer(r, t)) => self.open_page(
                v,
                &r,
                t.as_str(),
            ),
            (SignInState::Opening(v, c), SignInEvent::BrowserOpened) => SignInStep {
                state: SignInState::Waiting(v),
                action: SignInAction::WaitForBrowser,
                said: say_opened(c),
                warned: no_lines(),
            },
            (SignInState::Opening(_, _), SignInEvent::BrowserFailed(e)) => go_on(
                SignInState::Over,
                SignInAction::UseDevice,
                two_lines(
                    "Could not open a browser automatically (".to_owned().concat(
                        e.as_str(),
                    ).concat(")."),
                    "Falling back to the code you type in yourself.",
                ),
            ),
            (SignInState::Waiting(_), SignInEvent::Returned(None)) => give_up_with(
                "The browser never came back with a sign-in reply.".to_owned(),
            ),
            (SignInState::Waiting(v), SignInEvent::Returned(Some(code))) => {
                let url = self.config.api_url().to_owned().concat("/cli_auth_requests/claim");
                let body =
                    "{\"data\":{\"type\":\"cli_auth_requests\",\"attributes\":{\"code\":\"".to_owned().concat(
                    code.as_str(),
                ).concat("\",\"code_verifier\":\"").concat(v.as_str()).concat("\"}}}");
                send(post_text(self.client, url.as_str(), body), SignInState::Claiming)
            },
            (SignInState::Claiming, SignInEvent::Answer(r, t)) => if r.is_success() {
                log_in(&r)
            } else {
                give_up_with(
                    "The sign-in could not be completed (".to_owned().concat(
                        number_text(r.status() as u128).as_str(),
                    ).concat("): ").concat(r.error_detail(self.bin, t.as_str()).as_str()),
                )
            },
            (SignInState::DeviceRegistering, SignInEvent::Answer(r, t)) => self.show_code(
                &r,
                t.as_str(),
            ),
            (SignInState::Polling(c), SignInEvent::Answer(r, t)) => self.after_poll(
                c,
                &r,
                t.as_str(),
            ),
            (SignInState::Polling(_), SignInEvent::TimedOut) => give_up_with(
                "Timed out waiting for the browser sign-in.".to_owned(),
            ),
            _ => give_up(no_lines()),
        }
    }
}

/// The secret stays as it is from its making until the token is asked for
/// with it.
pub proof fn law_secret_is_kept(s: SignInView, state: SignInStateView, event: SignInEventView)
    requires
        may_follow(state, event),
    ensures
        match sign_in_step(s, state, event).state {
            SignInStateView::Opening(v, _) => state == SignInStateView::Registering(v),
            SignInStateView::Waiting(v) => state matches SignInStateView::Opening(w, _) && w == v,
            SignInStateView::Registering(_) => false,
            _ => true,
        },
        match (state, event, sign_in_step(s, state, event).action) {
            (
                SignInStateView::Waiting(v),
                SignInEventView::Returned(Some(code)),
                SignInActionView::Send(q),
            ) => q.body == RequestBodyView::Text(claim_body(code, v)),
            _ => true,
        },
{
}

/// A code that the server wants compared is shown before the browser is waited
/// for.
pub proof fn law_verification_code_is_shown(
    s: SignInView,
    verifier: Seq<char>,
    r: ResponseView,
    compact: Seq<char>,
)
    requires
        attribute(r, "user_code"@) is Some,
    ensures
        ({
            let first = sign_in_step(
                s,
                SignInStateView::Registering(verifier),
                SignInEventView::Answer(r, compact),
            );
            let second = sign_in_step(s, first.state, SignInEventView::BrowserOpened);
            first.action is OpenBrowser ==> {
                &&& second.action is WaitForBrowser
                &&& second.said.contains(verification_line(attribute(r, "user_code"@)->0))
            }
        }),
{
    let c = attribute(r, "user_code"@)->0;
    assert(opened_lines(Some(c))[1] == verification_line(c));
}

/// A login happens only with the token that the server sent.
pub proof fn law_login_needs_a_token(s: SignInView, state: SignInStateView, event: SignInEventView)
    requires
        may_follow(state, event),
    ensures
        match sign_in_step(s, state, event).action {
            SignInActionView::LogIn(t) => event is Answer && token_in(event->Answer_0) == Ok::<
                Seq<char>,
                Seq<char>,
            >(t) && (state is Claiming && success(event->Answer_0) || state is Polling
                && event->Answer_0.status == 200),
            _ => true,
        },
{
}

/// Until the token is asked for, nothing of the secret is sent or shown but
/// its challenge.
pub proof fn law_only_the_challenge_goes_out(
    s: SignInView,
    port: u16,
    v1: Seq<char>,
    v2: Seq<char>,
    user_code: Option<Seq<char>>,
    event: SignInEventView,
)
    ensures
        challenge(v1) == challenge(v2) ==> registering(s, port, v1).action == registering(
            s,
            port,
            v2,
        ).action,
        registering(s, port, v1).said == registering(s, port, v2).said,
        same_outside(
            sign_in_step(s, SignInStateView::Registering(v1), event),
            sign_in_step(s, SignInStateView::Registering(v2), event),
        ),
        same_outside(
            sign_in_step(s, SignInStateView::Opening(v1, user_code), event),
            sign_in_step(s, SignInStateView::Opening(v2, user_code), event),
        ),
{
}

/// Two steps that do and show the same.
pub open spec fn same_outside(a: SignInStepView, b: SignInStepView) -> bool {
    a.action == b.action && a.said == b.said && a.warned == b.warned
}

/// The long code that the token is polled for with is shown nowhere: what is
/// shown is the same for another one.
pub proof fn law_device_code_is_not_shown(
    s: SignInView,
    a: ResponseView,
    b: ResponseView,
    compact: Seq<char>,
    c1: Seq<char>,
    c2: Seq<char>,
    event: SignInEventView,
)
    requires
        success(a) && success(b),
        attribute(a, "device_code"@) is Some && attribute(b, "device_code"@) is Some,
        attribute(a, "deprecation_warning"@) == attribute(b, "deprecation_warning"@),
        attribute(a, "user_code"@) == attribute(b, "user_code"@),
        attribute(a, "verification_uri"@) == attribute(b, "verification_uri"@),
        attribute(a, "web_url"@) == attribute(b, "web_url"@),
    ensures
        same_outside(
            sign_in_step(
                s,
                SignInStateView::DeviceRegistering,
                SignInEventView::Answer(a, compact),
            ),
            sign_in_step(
                s,
                SignInStateView::DeviceRegistering,
                SignInEventView::Answer(b, compact),
            ),
        ),
        same_outside(
            sign_in_step(s, SignInStateView::Polling(c1), event),
            sign_in_step(s, SignInStateView::Polling(c2), event),
        ),
{
}

/// The token is polled for with the device code that the server gave, and with
/// the same one each time.
pub proof fn law_device_code_is_polled_with(
    s: SignInView,
    r: ResponseView,
    compact: Seq<char>,
    state: SignInStateView,
    event: SignInEventView,
    code: Seq<char>,
)
    ensures
        ({
            let first = sign_in_step(
                s,
                SignInStateView::DeviceRegistering,
                SignInEventView::Answer(r, compact),
            );
            &&& first.action is Poll ==> success(r) && attribute(r, "device_code"@) is Some
                && first.state == SignInStateView::Polling(attribute(r, "device_code"@)->0)
            &&& attribute(r, "device_code"@) is None ==> first.action == SignInActionView::Stop
        }),
        ({
            let next = sign_in_step(s, state, event);
            &&& state is Polling && next.action is Poll ==> next.state == state
            &&& next.state is Polling ==> state is DeviceRegistering || next.state == state
            &&& next.action is Poll <==> next.state is Polling
        }),
        token_request(s, code) matches Ok(p) ==> p.0.method == HttpMethod::Post && p.0.url
            == s.config.api_url + "/cli_auth_requests/claim"@ && p.0.body == RequestBodyView::Text(
            "{\"data\":{\"type\":\"cli_auth_requests\",\"attributes\":{\"device_code\":\""@ + code
                + "\"}}}"@,
        ),
{
    law_sign_in_requests(
        s.client,
        s.config.api_url + "/cli_auth_requests/claim"@,
        device_claim_body(code),
    );
}

/// The user is told which page to open and which code to type in: the page that
/// the server names, else the device page of the web app, and the short code.
pub proof fn law_code_to_type_is_shown(
    s: SignInView,
    r: ResponseView,
    compact: Seq<char>,
)
    requires
        success(r),
        attribute(r, "device_code"@) is Some,
        attribute(r, "user_code"@) is Some,
    ensures
        ({
            let step = sign_in_step(
                s,
                SignInStateView::DeviceRegistering,
                SignInEventView::Answer(r, compact),
            );
            let code = "Then type this code: "@ + attribute(r, "user_code"@)->0;
            &&& attribute(r, "verification_uri"@) matches Some(uri) ==> step.action is Poll
                && step.said.len() == 3 && step.said[0] == "Open this page in any browser: "@ + uri
                && step.said[1] == code
            &&& attribute(r, "verification_uri"@) is None ==> match page_of(s.config, r) {
                Ok(p) => step.action is Poll && step.said.len() == 3 && step.said[0]
                    == "Open this page in any browser: "@ + (p.0 + "/device"@) && step.said[1]
                    == code,
                Err(e) => step.action == SignInActionView::Stop && step.warned.contains(e),
            }
            &&& step.action is Poll ==> step.action == SignInActionView::Poll { extra: false }
        }),
{
    if attribute(r, "verification_uri"@) is None {
        if let Err(e) = page_of(s.config, r) {
            let warned = registration(r, s.bin, compact)->Ok_0;
            assert(warned.push(e)[warned.len() as int] == e);
        }
    }
}

/// What the answers to a poll lead to: the token logs in, an approval that is
/// still missing is waited for, a server under strain is given more time, and
/// everything else ends the sign-in.
pub proof fn law_answers_to_a_poll(
    s: SignInView,
    code: Seq<char>,
    r: ResponseView,
    compact: Seq<char>,
)
    ensures
        ({
            let step = sign_in_step(
                s,
                SignInStateView::Polling(code),
                SignInEventView::Answer(r, compact),
            );
            &&& r.status == 200 && attribute(r, "token"@) is Some ==> step.action
                == SignInActionView::LogIn(attribute(r, "token"@)->0)
            &&& r.status == 200 && attribute(r, "token"@) is None ==> step.action
                == SignInActionView::Stop
            &&& r.status == 202 ==> step.action == SignInActionView::Poll { extra: false }
            &&& r.status == 429 || 500 <= r.status <= 599 ==> step.action == SignInActionView::Poll {
                extra: true,
            }
            &&& r.status != 200 && r.status != 202 && r.status != 429 && !(500 <= r.status <= 599)
                ==> step.action == SignInActionView::Stop && step.warned.len() == 1
            &&& step.action is Poll ==> step.said.len() == 0 && step.warned.len() == 0
            &&& step.action is Poll ==> step.state == SignInStateView::Polling(code)
        }),
        sign_in_step(s, SignInStateView::Polling(code), SignInEventView::TimedOut).action
            == SignInActionView::Stop,
{
}

/// A sign-in in the browser begins with the challenge and the port, at the
/// server of the settings, and keeps the secret.
pub proof fn law_sign_in_begins(s: SignInView, port: u16, verifier: Seq<char>)
    ensures
        ({
            let step = registering(s, port, verifier);
            &&& step.action matches SignInActionView::Send(q) ==> {
                &&& step.state == SignInStateView::Registering(verifier)
                &&& q.method == HttpMethod::Post
                &&& q.url == s.config.api_url + "/cli_auth_requests"@
                &&& q.body == RequestBodyView::Text(
                    "{\"data\":{\"type\":\"cli_auth_requests\",\"attributes\":{\"kind\":\"loopback\",\"client\":\"cli\",\"code_challenge\":\""@
                        + challenge(verifier) + "\",\"redirect_port\":"@ + decimal(port as nat)
                        + "}}}"@,
                )
            }
            &&& step.action is Send || step.action is Stop
        }),
        ({
            let step = device_registering(s);
            &&& step.action matches SignInActionView::Send(q) ==> {
                &&& step.state == SignInStateView::DeviceRegistering
                &&& q.method == HttpMethod::Post
                &&& q.url == s.config.api_url + "/cli_auth_requests"@
                &&& q.body == RequestBodyView::Text(
                    "{\"data\":{\"type\":\"cli_auth_requests\",\"attributes\":{\"kind\":\"device\",\"client\":\"cli\"}}}"@,
                )
            }
            &&& step.action is Send || step.action is Stop
        }),
        sign_in_request(
            s.client,
            s.config.api_url + "/cli_auth_requests"@,
            loopback_body(challenge(verifier), port),
        ) is Ok ==> registering(s, port, verifier).action is Send,
        sign_in_request(
            s.client,
            s.config.api_url + "/cli_auth_requests"@,
            device_body(),
        ) is Ok ==> device_registering(s).action is Send,
{
    law_sign_in_requests(
        s.client,
        s.config.api_url + "/cli_auth_requests"@,
        loopback_body(challenge(verifier), port),
    );
    law_sign_in_requests(s.client, s.config.api_url + "/cli_auth_requests"@, device_body());
}

/// The browser is sent to the login page of the web app, with the request that
/// the server named; without such a request, or such a page, it is not.
pub proof fn law_browser_is_sent_to_the_login_page(
    s: SignInView,
    verifier: Seq<char>,
    r: ResponseView,
    compact: Seq<char>,
)
    ensures
        ({
            let step = sign_in_step(
                s,
                SignInStateView::Registering(verifier),
                SignInEventView::Answer(r, compact),
            );
            match (success(r), attribute(r, "request_id"@), page_of(s.config, r)) {
                (true, Some(id), Ok(p)) => {
                    &&& step.action == SignInActionView::OpenBrowser(
                        p.0 + "/login?app=cli&request="@ + id,
                    )
                    &&& step.state == SignInStateView::Opening(verifier, attribute(r, "user_code"@))
                    &&& p.1 matches Some(note) ==> step.warned.contains(note)
                },
                _ => step.action == SignInActionView::Stop && step.warned.len() > 0,
            }
        }),
{
    if success(r) && attribute(r, "request_id"@) is Some && page_of(s.config, r) is Ok {
        let warned = registration(r, s.bin, compact)->Ok_0;
        if let Some(note) = page_of(s.config, r)->Ok_0.1 {
            assert(warned.push(note)[warned.len() as int] == note);
        }
    }
}

/// The token is asked for with the code that the browser brought and with the
/// secret, at the server of the settings; its answer logs in with its token.
pub proof fn law_token_is_claimed(
    s: SignInView,
    verifier: Seq<char>,
    code: Seq<char>,
    r: ResponseView,
    compact: Seq<char>,
)
    ensures
        ({
            let step = sign_in_step(
                s,
                SignInStateView::Waiting(verifier),
                SignInEventView::Returned(Some(code)),
            );
            &&& step.action matches SignInActionView::Send(q) ==> {
                &&& step.state == SignInStateView::Claiming
                &&& q.method == HttpMethod::Post
                &&& q.url == s.config.api_url + "/cli_auth_requests/claim"@
                &&& q.body == RequestBodyView::Text(
                    "{\"data\":{\"type\":\"cli_auth_requests\",\"attributes\":{\"code\":\""@ + code
                        + "\",\"code_verifier\":\""@ + verifier + "\"}}}"@,
                )
            }
            &&& sign_in_request(
                s.client,
                s.config.api_url + "/cli_auth_requests/claim"@,
                claim_body(code, verifier),
            ) is Ok ==> step.action is Send
        }),
        sign_in_step(
            s,
            SignInStateView::Waiting(verifier),
            SignInEventView::Returned(None),
        ).action == SignInActionView::Stop,
        ({
            let step = sign_in_step(
                s,
                SignInStateView::Claiming,
                SignInEventView::Answer(r, compact),
            );
            &&& success(r) && attribute(r, "token"@) is Some ==> step.action
                == SignInActionView::LogIn(attribute(r, "token"@)->0)
            &&& !(success(r) && attribute(r, "token"@) is Some) ==> step.action
                == SignInActionView::Stop && step.warned.len() == 1
        }),
{
    law_sign_in_requests(
        s.client,
        s.config.api_url + "/cli_auth_requests/claim"@,
        claim_body(code, verifier),
    );
}

/// Where the browser cannot be used, the sign-in begins again with a code to
/// type in; an open browser is waited for.
pub proof fn law_sign_in_falls_back(
    s: SignInView,
    verifier: Seq<char>,
    user_code: Option<Seq<char>>,
    e: Seq<char>,
)
    ensures
        sign_in_step(s, SignInStateView::Listening, SignInEventView::ListenFailed(e)).action
            == SignInActionView::UseDevice,
        sign_in_step(s, SignInStateView::Listening, SignInEventView::PortFailed(e)).action
            == SignInActionView::UseDevice,
        sign_in_step(
            s,
            SignInStateView::Opening(verifier, user_code),
            SignInEventView::BrowserFailed(e),
        ).action == SignInActionView::UseDevice,
        sign_in_step(
            s,
            SignInStateView::Opening(verifier, user_code),
            SignInEventView::BrowserOpened,
        ).action == SignInActionView::WaitForBrowser,
        sign_in_step(
            s,
            SignInStateView::Opening(verifier, user_code),
            SignInEventView::BrowserOpened,
        ).state == SignInStateView::Waiting(verifier),
{
}

/// What the server warns of when a sign-in begins is passed on to the user.
pub proof fn law_server_warnings_are_passed_on(
    s: SignInView,
    verifier: Seq<char>,
    r: ResponseView,
    compact: Seq<char>,
    w: Seq<char>,
)
    requires
        success(r),
        attribute(r, "deprecation_warning"@) == Some(w),
    ensures
        sign_in_step(
            s,
            SignInStateView::Registering(verifier),
            SignInEventView::Answer(r, compact),
        ).warned.contains("Warning: "@ + w),
        sign_in_step(
            s,
            SignInStateView::DeviceRegistering,
            SignInEventView::Answer(r, compact),
        ).warned.contains("Warning: "@ + w),
{
    let a = sign_in_step(
        s,
        SignInStateView::Registering(verifier),
        SignInEventView::Answer(r, compact),
    ).warned;
    let b = sign_in_step(
        s,
        SignInStateView::DeviceRegistering,
        SignInEventView::Answer(r, compact),
    ).warned;
    assert(a[0] == "Warning: "@ + w);
    assert(b[0] == "Warning: "@ + w);
}

/// What ends a sign-in without a token, or lets it go on without a browser, is
/// told with its cause.
pub proof fn law_causes_are_told(
    s: SignInView,
    verifier: Seq<char>,
    code: Seq<char>,
    user_code: Option<Seq<char>>,
    e: Seq<char>,
    r: ResponseView,
    compact: Seq<char>,
)
    ensures
        ({
            let step = sign_in_step(
                s,
                SignInStateView::Polling(code),
                SignInEventView::Answer(r, compact),
            );
            &&& r.status == 404 ==> step.warned == seq![
                "The sign-in request expired or was already used - run `"@ + s.bin
                    + " login` again."@,
            ]
            &&& r.status < 200 || r.status == 201 || 203 <= r.status < 404 ==> step.warned == seq![
                "Sign-in polling failed ("@ + decimal(r.status as nat) + "): "@ + detail_of(
                    r.kind,
                    s.bin,
                    compact,
                ),
            ]
        }),
        !success(r) ==> sign_in_step(
            s,
            SignInStateView::Claiming,
            SignInEventView::Answer(r, compact),
        ).warned == seq![
            "The sign-in could not be completed ("@ + decimal(r.status as nat) + "): "@
                + detail_of(r.kind, s.bin, compact),
        ],
        sign_in_step(s, SignInStateView::Polling(code), SignInEventView::TimedOut).warned == seq![
            "Timed out waiting for the browser sign-in."@,
        ],
        sign_in_step(
            s,
            SignInStateView::Waiting(verifier),
            SignInEventView::Returned(None),
        ).warned == seq!["The browser never came back with a sign-in reply."@],
        sign_in_step(
            s,
            SignInStateView::Listening,
            SignInEventView::ListenFailed(e),
        ).warned[0] == "Could not listen on 127.0.0.1 for the sign-in reply ("@ + e + ")."@,
        sign_in_step(s, SignInStateView::Listening, SignInEventView::PortFailed(e)).warned == seq![
            "Could not read the local sign-in port ("@ + e + ")."@,
        ],
        sign_in_step(
            s,
            SignInStateView::Opening(verifier, user_code),
            SignInEventView::BrowserFailed(e),
        ).warned[0] == "Could not open a browser automatically ("@ + e + ")."@,
{
}

/// A code to compare with the one in the browser is shown where there is one.
pub proof fn law_code_to_compare_is_told(s: SignInView, verifier: Seq<char>, code: Seq<char>)
    ensures
        sign_in_step(
            s,
            SignInStateView::Opening(verifier, Some(code)),
            SignInEventView::BrowserOpened,
        ).said.contains("Verification code: "@ + code),
{
    let said = sign_in_step(
        s,
        SignInStateView::Opening(verifier, Some(code)),
        SignInEventView::BrowserOpened,
    ).said;
    assert(said[1] == "Verification code: "@ + code);
}

} // verus!
