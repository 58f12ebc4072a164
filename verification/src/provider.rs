//! Signing in through an identity provider, from one step to the next.

use crate::sso::{
    asked_scopes, device_prompt, microsoft_endpoints, microsoft_url, poll_seconds, redirect_uri, scopes, tenant_error,
    MicrosoftEndpoints, SsoProvider, FAILED_REPLY, MAX_POLL_SECONDS,
};
use crate::text::{add_line, decimal, no_lines, one_line, opt_text, texts};
use vstd::prelude::*;
use vstd::string::*;

verus! {

/// Where Google's sign-in is found.
pub const GOOGLE_AUTHORIZE: &'static str = "https://accounts.google.com/o/oauth2/v2/auth";

/// Where Google gives a token for a code.
pub const GOOGLE_TOKEN: &'static str = "https://oauth2.googleapis.com/token";

/// A URL that a sign-in is built from.
#[derive(Clone, Copy, Debug, PartialEq, Eq, Structural)]
pub enum UsedUrl {
    Authorize,
    Token,
    Redirect,
    DeviceCode,
}

/// What is said of a URL that cannot be used.
pub open spec fn bad_url(provider: SsoProvider, used: UsedUrl, error: Seq<char>) -> Seq<char> {
    match used {
        UsedUrl::Authorize => "Invalid "@ + provider.title() + " auth URL: "@ + error,
        UsedUrl::Token => "Invalid "@ + provider.title() + " token URL: "@ + error,
        UsedUrl::Redirect => "Invalid redirect URL: "@ + error,
        UsedUrl::DeviceCode => "Invalid "@ + provider.title() + " device authorization URL: "@
            + error,
    }
}

fn report_bad_url(provider: SsoProvider, used: UsedUrl, error: &str) -> (r: String)
    ensures
        r@ == bad_url(provider, used, error@),
{
    let title = match provider {
        SsoProvider::Google => "Google",
        SsoProvider::Microsoft => "Microsoft",
    };
    match used {
        UsedUrl::Authorize => "Invalid ".to_owned().concat(title).concat(" auth URL: ").concat(
            error,
        ),
        UsedUrl::Token => "Invalid ".to_owned().concat(title).concat(" token URL: ").concat(error),
        UsedUrl::Redirect => "Invalid redirect URL: ".to_owned().concat(error),
        UsedUrl::DeviceCode => "Invalid ".to_owned().concat(title).concat(
            " device authorization URL: ",
        ).concat(error),
    }
}

pub open spec fn no_google_client() -> Seq<char> {
    "Google SSO isn't configured yet: set GOOGLE_AUTH_CLI_CLIENT_ID to the CLI's Desktop-app OAuth client id (the same value the server's GOOGLE_AUTH_CLI_CLIENT_ID env var must also be set to).\nThis requires a separate Google Cloud Console registration (Desktop app type) - see the plan's SSO prerequisite note."@
}

pub open spec fn no_microsoft_client() -> Seq<char> {
    "Microsoft SSO isn't configured yet: set MICROSOFT_AUTH_CLI_CLIENT_ID to the CLI's public-client Entra app id (the same value the server's MICROSOFT_AUTH_CLI_CLIENT_ID env var must also be set to).\nThis requires a separate Azure Entra registration (public client, device-code flow enabled) - see the plan's SSO prerequisite note."@
}

pub open spec fn sign_in_wait() -> Seq<char> {
    "Waiting for sign-in... (press Ctrl+C to cancel)"@
}

/// How far a sign-in through Google has come.
pub enum GoogleState {
    /// A place for the browser to come back to is being made.
    Starting,
    /// The client is being built.
    Building,
    /// The browser is being opened at this URL.
    Opening(String),
    /// The browser is waited for.
    Waiting,
    /// The code is being exchanged for the identity.
    Exchanging,
    Over,
}

pub enum GoogleStateView {
    Starting,
    Building,
    Opening(Seq<char>),
    Waiting,
    Exchanging,
    Over,
}

impl View for GoogleState {
    type V = GoogleStateView;

    open spec fn view(&self) -> GoogleStateView {
        match self {
            GoogleState::Starting => GoogleStateView::Starting,
            GoogleState::Building => GoogleStateView::Building,
            GoogleState::Opening(url) => GoogleStateView::Opening(url@),
            GoogleState::Waiting => GoogleStateView::Waiting,
            GoogleState::Exchanging => GoogleStateView::Exchanging,
            GoogleState::Over => GoogleStateView::Over,
        }
    }
}

/// What happened.
pub enum GoogleEvent {
    /// The program has no client id.
    NoClientId,
    BindFailed(String),
    PortFailed(String),
    /// The browser can come back to this port.
    Listening(u16),
    BadUrl(UsedUrl, String),
    /// The client is built; the browser has to be sent to this URL.
    Built(String),
    BrowserOpened,
    BrowserFailed(String),
    /// The browser came back with this code, and with the state that was sent
    /// out.
    Returned(String),
    /// The provider answered to the code.
    Exchanged(Result<Option<String>, String>),
}

pub enum GoogleEventView {
    NoClientId,
    BindFailed(Seq<char>),
    PortFailed(Seq<char>),
    Listening(u16),
    BadUrl(UsedUrl, Seq<char>),
    Built(Seq<char>),
    BrowserOpened,
    BrowserFailed(Seq<char>),
    Returned(Seq<char>),
    Exchanged(Result<Option<Seq<char>>, Seq<char>>),
}

pub open spec fn exchange_view(r: Result<Option<String>, String>) -> Result<
    Option<Seq<char>>,
    Seq<char>,
> {
    match r {
        Ok(t) => Ok(opt_text(t)),
        Err(e) => Err(e@),
    }
}

impl View for GoogleEvent {
    type V = GoogleEventView;

    open spec fn view(&self) -> GoogleEventView {
        match self {
            GoogleEvent::NoClientId => GoogleEventView::NoClientId,
            GoogleEvent::BindFailed(e) => GoogleEventView::BindFailed(e@),
            GoogleEvent::PortFailed(e) => GoogleEventView::PortFailed(e@),
            GoogleEvent::Listening(port) => GoogleEventView::Listening(*port),
            GoogleEvent::BadUrl(used, e) => GoogleEventView::BadUrl(*used, e@),
            GoogleEvent::Built(url) => GoogleEventView::Built(url@),
            GoogleEvent::BrowserOpened => GoogleEventView::BrowserOpened,
            GoogleEvent::BrowserFailed(e) => GoogleEventView::BrowserFailed(e@),
            GoogleEvent::Returned(code) => GoogleEventView::Returned(code@),
            GoogleEvent::Exchanged(r) => GoogleEventView::Exchanged(exchange_view(*r)),
        }
    }
}

/// What is done next.
pub enum GoogleAction {
    /// Build the client, which sends the browser back to this address and asks
    /// for these scopes.
    Build { redirect: String, scopes: Vec<String> },
    OpenBrowser(String),
    AwaitRedirect,
    /// Exchange this code for the identity.
    Exchange(String),
    /// The provider vouches for this identity.
    Finish(String),
    /// Send this to the browser that waits, if there is one, and give up.
    Fail(Option<&'static str>),
}

pub enum GoogleActionView {
    Build { redirect: Seq<char>, scopes: Seq<Seq<char>> },
    OpenBrowser(Seq<char>),
    AwaitRedirect,
    Exchange(Seq<char>),
    Finish(Seq<char>),
    Fail(Option<Seq<char>>),
}

impl View for GoogleAction {
    type V = GoogleActionView;

    open spec fn view(&self) -> GoogleActionView {
        match self {
            GoogleAction::Build { redirect, scopes } => GoogleActionView::Build {
                redirect: redirect@,
                scopes: texts(scopes@),
            },
            GoogleAction::OpenBrowser(url) => GoogleActionView::OpenBrowser(url@),
            GoogleAction::AwaitRedirect => GoogleActionView::AwaitRedirect,
            GoogleAction::Exchange(code) => GoogleActionView::Exchange(code@),
            GoogleAction::Finish(t) => GoogleActionView::Finish(t@),
            GoogleAction::Fail(reply) => GoogleActionView::Fail(
                match reply {
                    Some(text) => Some(text@),
                    None => None,
                },
            ),
        }
    }
}

/// What is done next, what is said and warned of before it, and the state then.
pub struct GoogleStep {
    pub state: GoogleState,
    pub action: GoogleAction,
    pub said: Vec<String>,
    pub warned: Vec<String>,
}

pub struct GoogleStepView {
    pub state: GoogleStateView,
    pub action: GoogleActionView,
    pub said: Seq<Seq<char>>,
    pub warned: Seq<Seq<char>>,
}

impl View for GoogleStep {
    type V = GoogleStepView;

    open spec fn view(&self) -> GoogleStepView {
        GoogleStepView {
            state: self.state@,
            action: self.action@,
            said: texts(self.said@),
            warned: texts(self.warned@),
        }
    }
}

/// The events that can happen in a state.
pub open spec fn google_may_follow(state: GoogleStateView, event: GoogleEventView) -> bool {
    match state {
        GoogleStateView::Starting => event is NoClientId || event is BindFailed
            || event is PortFailed || event is Listening,
        GoogleStateView::Building => event is BadUrl || event is Built,
        GoogleStateView::Opening(_) => event is BrowserOpened || event is BrowserFailed,
        GoogleStateView::Waiting => event is Returned,
        GoogleStateView::Exchanging => event is Exchanged,
        GoogleStateView::Over => false,
    }
}

pub open spec fn google_on(state: GoogleStateView, action: GoogleActionView) -> GoogleStepView {
    GoogleStepView { state, action, said: Seq::empty(), warned: Seq::empty() }
}

pub open spec fn google_failed(reply: Option<Seq<char>>, message: Seq<char>) -> GoogleStepView {
    GoogleStepView {
        state: GoogleStateView::Over,
        action: GoogleActionView::Fail(reply),
        said: Seq::empty(),
        warned: seq![message],
    }
}

/// What a provider vouched for, or what is said where it did not.
pub open spec fn identity(provider: SsoProvider, exchange: Result<Option<Seq<char>>, Seq<char>>) -> Result<
    Seq<char>,
    Seq<char>,
> {
    match exchange {
        Ok(Some(t)) => Ok(t),
        Ok(None) => Err(
            provider.title()
                + " didn't return an id_token - check that the 'openid' scope was granted."@,
        ),
        Err(e) => Err(provider.failure_start() + e),
    }
}

/// What follows from an event.
pub open spec fn google_step(state: GoogleStateView, event: GoogleEventView) -> GoogleStepView {
    match (state, event) {
        (GoogleStateView::Starting, GoogleEventView::NoClientId) => google_failed(
            None,
            no_google_client(),
        ),
        (GoogleStateView::Starting, GoogleEventView::BindFailed(e)) => google_failed(
            None,
            "Could not bind a loopback port for the OAuth redirect: "@ + e,
        ),
        (GoogleStateView::Starting, GoogleEventView::PortFailed(e)) => google_failed(
            None,
            "Could not determine the loopback listener's port: "@ + e,
        ),
        (GoogleStateView::Starting, GoogleEventView::Listening(port)) => google_on(
            GoogleStateView::Building,
            GoogleActionView::Build {
                redirect: "http://127.0.0.1:"@ + decimal(port as nat),
                scopes: asked_scopes(),
            },
        ),
        (GoogleStateView::Building, GoogleEventView::BadUrl(used, e)) => google_failed(
            None,
            bad_url(SsoProvider::Google, used, e),
        ),
        (GoogleStateView::Building, GoogleEventView::Built(url)) => google_on(
            GoogleStateView::Opening(url),
            GoogleActionView::OpenBrowser(url),
        ),
        (GoogleStateView::Opening(_), GoogleEventView::BrowserOpened) => GoogleStepView {
            state: GoogleStateView::Waiting,
            action: GoogleActionView::AwaitRedirect,
            said: seq!["Opening your browser for sign-in..."@, sign_in_wait()],
            warned: Seq::empty(),
        },
        (GoogleStateView::Opening(url), GoogleEventView::BrowserFailed(e)) => GoogleStepView {
            state: GoogleStateView::Waiting,
            action: GoogleActionView::AwaitRedirect,
            said: seq![sign_in_wait()],
            warned: seq![
                "Could not open a browser automatically ("@ + e + ")."@,
                "Please open the following URL manually: "@ + url,
                "Warning: this URL contains a one-time CSRF token. If it appears in logs or shared terminal history, press Ctrl+C and re-run to get a fresh token."@,
            ],
        },
        (GoogleStateView::Waiting, GoogleEventView::Returned(code)) => google_on(
            GoogleStateView::Exchanging,
            GoogleActionView::Exchange(code),
        ),
        (GoogleStateView::Exchanging, GoogleEventView::Exchanged(r)) => match identity(
            SsoProvider::Google,
            r,
        ) {
            Ok(t) => google_on(GoogleStateView::Over, GoogleActionView::Finish(t)),
            Err(message) => google_failed(Some(FAILED_REPLY@), message),
        },
        _ => google_failed(None, Seq::empty()),
    }
}

fn go_on(state: GoogleState, action: GoogleAction) -> (r: GoogleStep)
    ensures
        r@ == google_on(state@, action@),
{
    let r = GoogleStep { state, action, said: no_lines(), warned: no_lines() };
    assert(r@ =~= google_on(state@, action@));
    r
}

fn give_up(reply: Option<&'static str>, message: String) -> (r: GoogleStep)
    ensures
        r@ == google_failed(
            match reply {
                Some(text) => Some(text@),
                None => None,
            },
            message@,
        ),
{
    GoogleStep {
        state: GoogleState::Over,
        action: GoogleAction::Fail(reply),
        said: no_lines(),
        warned: one_line(message),
    }
}

/// One step of a sign-in through Google: the browser is opened at Google and
/// sent back to this machine with a code, and the code is exchanged for the
/// identity.
pub fn login_google(state: GoogleState, event: GoogleEvent) -> (r: GoogleStep)
    requires
        google_may_follow(state@, event@),
    ensures
        r@ == google_step(state@, event@),
{
    match (state, event) {
        (GoogleState::Starting, GoogleEvent::NoClientId) => give_up(
            None,
            "Google SSO isn't configured yet: set GOOGLE_AUTH_CLI_CLIENT_ID to the CLI's Desktop-app OAuth client id (the same value the server's GOOGLE_AUTH_CLI_CLIENT_ID env var must also be set to).\nThis requires a separate Google Cloud Console registration (Desktop app type) - see the plan's SSO prerequisite note.".to_owned(),
        ),
        (GoogleState::Starting, GoogleEvent::BindFailed(e)) => give_up(
            None,
            "Could not bind a loopback port for the OAuth redirect: ".to_owned().concat(e.as_str()),
        ),
        (GoogleState::Starting, GoogleEvent::PortFailed(e)) => give_up(
            None,
            "Could not determine the loopback listener's port: ".to_owned().concat(e.as_str()),
        ),
        (GoogleState::Starting, GoogleEvent::Listening(port)) => go_on(
            GoogleState::Building,
            GoogleAction::Build { redirect: redirect_uri(port), scopes: scopes() },
        ),
        (GoogleState::Building, GoogleEvent::BadUrl(used, e)) => give_up(
            None,
            report_bad_url(SsoProvider::Google, used, e.as_str()),
        ),
        (GoogleState::Building, GoogleEvent::Built(url)) => go_on(
            GoogleState::Opening(url.clone()),
            GoogleAction::OpenBrowser(url),
        ),
        (GoogleState::Opening(_), GoogleEvent::BrowserOpened) => {
            let mut said = one_line("Opening your browser for sign-in...".to_owned());
            add_line(&mut said, "Waiting for sign-in... (press Ctrl+C to cancel)".to_owned());
            assert(texts(said@) =~= seq!["Opening your browser for sign-in..."@, sign_in_wait()]);
            GoogleStep {
                state: GoogleState::Waiting,
                action: GoogleAction::AwaitRedirect,
                said,
                warned: no_lines(),
            }
        },
        (GoogleState::Opening(url), GoogleEvent::BrowserFailed(e)) => {
            let mut warned = one_line(
                "Could not open a browser automatically (".to_owned().concat(e.as_str()).concat(
                    ").",
                ),
            );
            add_line(
                &mut warned,
                "Please open the following URL manually: ".to_owned().concat(url.as_str()),
            );
            add_line(
                &mut warned,
                "Warning: this URL contains a one-time CSRF token. If it appears in logs or shared terminal history, press Ctrl+C and re-run to get a fresh token.".to_owned(),
            );
            assert(texts(warned@) =~= seq![
                "Could not open a browser automatically ("@ + e@ + ")."@,
                "Please open the following URL manually: "@ + url@,
                "Warning: this URL contains a one-time CSRF token. If it appears in logs or shared terminal history, press Ctrl+C and re-run to get a fresh token."@,
            ]);
            GoogleStep {
                state: GoogleState::Waiting,
                action: GoogleAction::AwaitRedirect,
                said: one_line("Waiting for sign-in... (press Ctrl+C to cancel)".to_owned()),
                warned,
            }
        },
        (GoogleState::Waiting, GoogleEvent::Returned(code)) => go_on(
            GoogleState::Exchanging,
            GoogleAction::Exchange(code),
        ),
        (GoogleState::Exchanging, GoogleEvent::Exchanged(r)) => match SsoProvider::Google.id_token_from(
            r,
        ) {
            Ok(t) => go_on(GoogleState::Over, GoogleAction::Finish(t)),
            Err(message) => give_up(Some(FAILED_REPLY), message),
        },
        _ => give_up(None, String::new()),
    }
}

/// How far a sign-in through Microsoft has come.
#[derive(Clone, Copy, Debug, PartialEq, Eq, Structural)]
pub enum MicrosoftState {
    Starting,
    /// The client is being built, and asks for a code to type in.
    Building,
    /// The provider is asked again and again for the identity.
    Polling,
    Over,
}

/// What happened.
pub enum MicrosoftEvent {
    /// The program has no client id.
    NoClientId,
    /// It has one, and this tenant if any.
    Configured(Option<String>),
    BadUrl(UsedUrl, String),
    /// The provider gave no code to type in.
    Refused(String),
    /// The provider gave one, for so many seconds.
    Prompt { complete_uri: Option<String>, uri: String, user_code: String, expires_in: u64 },
    /// The provider answered in the end.
    Exchanged(Result<Option<String>, String>),
}

pub enum MicrosoftEventView {
    NoClientId,
    Configured(Option<Seq<char>>),
    BadUrl(UsedUrl, Seq<char>),
    Refused(Seq<char>),
    Prompt {
        complete_uri: Option<Seq<char>>,
        uri: Seq<char>,
        user_code: Seq<char>,
        expires_in: u64,
    },
    Exchanged(Result<Option<Seq<char>>, Seq<char>>),
}

impl View for MicrosoftEvent {
    type V = MicrosoftEventView;

    open spec fn view(&self) -> MicrosoftEventView {
        match self {
            MicrosoftEvent::NoClientId => MicrosoftEventView::NoClientId,
            MicrosoftEvent::Configured(tenant) => MicrosoftEventView::Configured(opt_text(*tenant)),
            MicrosoftEvent::BadUrl(used, e) => MicrosoftEventView::BadUrl(*used, e@),
            MicrosoftEvent::Refused(e) => MicrosoftEventView::Refused(e@),
            MicrosoftEvent::Prompt { complete_uri, uri, user_code, expires_in } =>
                MicrosoftEventView::Prompt {
                complete_uri: opt_text(*complete_uri),
                uri: uri@,
                user_code: user_code@,
                expires_in: *expires_in,
            },
            MicrosoftEvent::Exchanged(r) => MicrosoftEventView::Exchanged(exchange_view(*r)),
        }
    }
}

/// What is done next.
pub enum MicrosoftAction {
    /// Build the client with these endpoints, and ask for a code to type in
    /// and for these scopes.
    Build(MicrosoftEndpoints, Vec<String>),
    /// Poll for the identity, for so many seconds at most.
    Poll(u64),
    /// The provider vouches for this identity.
    Finish(String),
    Fail,
}

pub enum MicrosoftActionView {
    Build {
        authorize: Seq<char>,
        token: Seq<char>,
        device_code: Seq<char>,
        scopes: Seq<Seq<char>>,
    },
    Poll(u64),
    Finish(Seq<char>),
    Fail,
}

impl View for MicrosoftAction {
    type V = MicrosoftActionView;

    open spec fn view(&self) -> MicrosoftActionView {
        match self {
            MicrosoftAction::Build(e, scopes) => MicrosoftActionView::Build {
                authorize: e.authorize@,
                token: e.token@,
                device_code: e.device_code@,
                scopes: texts(scopes@),
            },
            MicrosoftAction::Poll(seconds) => MicrosoftActionView::Poll(*seconds),
            MicrosoftAction::Finish(t) => MicrosoftActionView::Finish(t@),
            MicrosoftAction::Fail => MicrosoftActionView::Fail,
        }
    }
}

/// What is done next, what is said and warned of before it, and the state then.
pub struct MicrosoftStep {
    pub state: MicrosoftState,
    pub action: MicrosoftAction,
    pub said: Vec<String>,
    pub warned: Vec<String>,
}

pub struct MicrosoftStepView {
    pub state: MicrosoftState,
    pub action: MicrosoftActionView,
    pub said: Seq<Seq<char>>,
    pub warned: Seq<Seq<char>>,
}

impl View for MicrosoftStep {
    type V = MicrosoftStepView;

    open spec fn view(&self) -> MicrosoftStepView {
        MicrosoftStepView {
            state: self.state,
            action: self.action@,
            said: texts(self.said@),
            warned: texts(self.warned@),
        }
    }
}

/// The events that can happen in a state.
pub open spec fn microsoft_may_follow(state: MicrosoftState, event: MicrosoftEventView) -> bool {
    match state {
        MicrosoftState::Starting => event is NoClientId || event is Configured,
        MicrosoftState::Building => event is BadUrl || event is Refused || event is Prompt,
        MicrosoftState::Polling => event is Exchanged,
        MicrosoftState::Over => false,
    }
}

pub open spec fn microsoft_on(
    state: MicrosoftState,
    action: MicrosoftActionView,
    said: Seq<Seq<char>>,
) -> MicrosoftStepView {
    MicrosoftStepView { state, action, said, warned: Seq::empty() }
}

pub open spec fn microsoft_failed(message: Seq<char>) -> MicrosoftStepView {
    MicrosoftStepView {
        state: MicrosoftState::Over,
        action: MicrosoftActionView::Fail,
        said: Seq::empty(),
        warned: seq![message],
    }
}

/// The sign-in of a tenant, or why there is none.
pub open spec fn microsoft_built(tenant: Option<Seq<char>>) -> MicrosoftStepView {
    let t = match tenant {
        Some(t) => t,
        None => "organizations"@,
    };
    match tenant_error(t) {
        Some(e) => microsoft_failed(e),
        None => microsoft_on(
            MicrosoftState::Building,
            MicrosoftActionView::Build {
                authorize: microsoft_url(t, "authorize"@),
                token: microsoft_url(t, "token"@),
                device_code: microsoft_url(t, "devicecode"@),
                scopes: asked_scopes(),
            },
            Seq::empty(),
        ),
    }
}

/// How the user is told to sign in.
pub open spec fn prompt_text(complete_uri: Option<Seq<char>>, uri: Seq<char>, user_code: Seq<char>) -> Seq<
    char,
> {
    match complete_uri {
        Some(link) => "To sign in, open this link: "@ + link,
        None => "To sign in, visit "@ + uri + " and enter code "@ + user_code,
    }
}

/// What follows from an event.
pub open spec fn microsoft_step(state: MicrosoftState, event: MicrosoftEventView) -> MicrosoftStepView {
    match (state, event) {
        (MicrosoftState::Starting, MicrosoftEventView::NoClientId) => microsoft_failed(
            no_microsoft_client(),
        ),
        (MicrosoftState::Starting, MicrosoftEventView::Configured(tenant)) => microsoft_built(
            tenant,
        ),
        (MicrosoftState::Building, MicrosoftEventView::BadUrl(used, e)) => microsoft_failed(
            bad_url(SsoProvider::Microsoft, used, e),
        ),
        (MicrosoftState::Building, MicrosoftEventView::Refused(e)) => microsoft_failed(
            "Could not start device-code sign-in: "@ + e,
        ),
        (
            MicrosoftState::Building,
            MicrosoftEventView::Prompt { complete_uri, uri, user_code, expires_in },
        ) => microsoft_on(
            MicrosoftState::Polling,
            MicrosoftActionView::Poll(
                if expires_in <= MAX_POLL_SECONDS {
                    expires_in
                } else {
                    MAX_POLL_SECONDS
                },
            ),
            seq![prompt_text(complete_uri, uri, user_code), sign_in_wait()],
        ),
        (MicrosoftState::Polling, MicrosoftEventView::Exchanged(r)) => match identity(
            SsoProvider::Microsoft,
            r,
        ) {
            Ok(t) => microsoft_on(
                MicrosoftState::Over,
                MicrosoftActionView::Finish(t),
                Seq::empty(),
            ),
            Err(message) => microsoft_failed(message),
        },
        _ => microsoft_failed(Seq::empty()),
    }
}

fn next(state: MicrosoftState, action: MicrosoftAction, said: Vec<String>) -> (r: MicrosoftStep)
    ensures
        r@ == microsoft_on(state, action@, texts(said@)),
{
    MicrosoftStep { state, action, said, warned: no_lines() }
}

fn stop(message: String) -> (r: MicrosoftStep)
    ensures
        r@ == microsoft_failed(message@),
{
    MicrosoftStep {
        state: MicrosoftState::Over,
        action: MicrosoftAction::Fail,
        said: no_lines(),
        warned: one_line(message),
    }
}

/// One step of a sign-in through Microsoft: the user types in a code that the
/// provider gave, and the provider is polled for the identity.
pub fn login_microsoft(state: MicrosoftState, event: MicrosoftEvent) -> (r: MicrosoftStep)
    requires
        microsoft_may_follow(state, event@),
    ensures
        r@ == microsoft_step(state, event@),
{
    match (state, event) {
        (MicrosoftState::Starting, MicrosoftEvent::NoClientId) => stop(
            "Microsoft SSO isn't configured yet: set MICROSOFT_AUTH_CLI_CLIENT_ID to the CLI's public-client Entra app id (the same value the server's MICROSOFT_AUTH_CLI_CLIENT_ID env var must also be set to).\nThis requires a separate Azure Entra registration (public client, device-code flow enabled) - see the plan's SSO prerequisite note.".to_owned(),
        ),
        (MicrosoftState::Starting, MicrosoftEvent::Configured(tenant)) => match microsoft_endpoints(
            tenant,
        ) {
            Ok(e) => next(
                MicrosoftState::Building,
                MicrosoftAction::Build(e, scopes()),
                no_lines(),
            ),
            Err(message) => stop(message),
        },
        (MicrosoftState::Building, MicrosoftEvent::BadUrl(used, e)) => stop(
            report_bad_url(SsoProvider::Microsoft, used, e.as_str()),
        ),
        (MicrosoftState::Building, MicrosoftEvent::Refused(e)) => stop(
            "Could not start device-code sign-in: ".to_owned().concat(e.as_str()),
        ),
        (
            MicrosoftState::Building,
            MicrosoftEvent::Prompt { complete_uri, uri, user_code, expires_in },
        ) => {
            let ghost link = opt_text(complete_uri);
            let prompt = device_prompt(complete_uri, uri.as_str(), user_code.as_str());
            let ghost first = prompt_text(link, uri@, user_code@);
            assert(prompt@ == first);
            let mut said = one_line(prompt);
            add_line(&mut said, "Waiting for sign-in... (press Ctrl+C to cancel)".to_owned());
            assert(texts(said@) =~= seq![first, sign_in_wait()]);
            next(MicrosoftState::Polling, MicrosoftAction::Poll(poll_seconds(expires_in)), said)
        },
        (MicrosoftState::Polling, MicrosoftEvent::Exchanged(r)) => match SsoProvider::Microsoft.id_token_from(
            r,
        ) {
            Ok(t) => next(MicrosoftState::Over, MicrosoftAction::Finish(t), no_lines()),
            Err(message) => stop(message),
        },
        _ => stop(String::new()),
    }
}

/// An identity comes from the provider's answer and from nowhere else, and
/// only a code that the browser brought is exchanged.
pub proof fn law_identity_comes_from_the_provider(
    google: GoogleStateView,
    google_event: GoogleEventView,
    microsoft: MicrosoftState,
    microsoft_event: MicrosoftEventView,
)
    ensures
        match google_step(google, google_event).action {
            GoogleActionView::Finish(t) => google is Exchanging && google_event
                == GoogleEventView::Exchanged(Ok(Some(t))),
            GoogleActionView::Exchange(code) => google is Waiting && google_event
                == GoogleEventView::Returned(code),
            _ => true,
        },
        match microsoft_step(microsoft, microsoft_event).action {
            MicrosoftActionView::Finish(t) => microsoft is Polling && microsoft_event
                == MicrosoftEventView::Exchanged(Ok(Some(t))),
            _ => true,
        },
{
}

/// The URL of a sign-in, which holds its state, is shown only where the browser
/// could not be opened at it.
pub proof fn law_url_is_shown_where_needed(u1: Seq<char>, u2: Seq<char>)
    ensures
        google_step(GoogleStateView::Opening(u1), GoogleEventView::BrowserOpened) == google_step(
            GoogleStateView::Opening(u2),
            GoogleEventView::BrowserOpened,
        ),
        google_step(GoogleStateView::Building, GoogleEventView::Built(u1)).said.len() == 0,
        google_step(GoogleStateView::Building, GoogleEventView::Built(u1)).warned.len() == 0,
{
}

/// A sign-in through Google goes from step to step: the browser is sent to the
/// URL that was built and comes back to this machine, its code is exchanged,
/// and the identity ends it.
pub proof fn law_google_goes_on(port: u16, url: Seq<char>, code: Seq<char>, t: Seq<char>, e: Seq<char>)
    ensures
        ({
            let step = google_step(GoogleStateView::Starting, GoogleEventView::Listening(port));
            step.state == GoogleStateView::Building && step.action == (GoogleActionView::Build {
                redirect: "http://127.0.0.1:"@ + decimal(port as nat),
                scopes: seq!["openid"@, "email"@, "profile"@],
            })
        }),
        ({
            let step = google_step(GoogleStateView::Building, GoogleEventView::Built(url));
            step.state == GoogleStateView::Opening(url) && step.action
                == GoogleActionView::OpenBrowser(url)
        }),
        ({
            let step = google_step(GoogleStateView::Opening(url), GoogleEventView::BrowserOpened);
            step.state == GoogleStateView::Waiting && step.action == GoogleActionView::AwaitRedirect
                && step.warned.len() == 0
        }),
        ({
            let step = google_step(
                GoogleStateView::Opening(url),
                GoogleEventView::BrowserFailed(e),
            );
            step.state == GoogleStateView::Waiting && step.action == GoogleActionView::AwaitRedirect
                && step.warned.contains("Please open the following URL manually: "@ + url)
        }),
        ({
            let step = google_step(GoogleStateView::Waiting, GoogleEventView::Returned(code));
            step.state == GoogleStateView::Exchanging && step.action == GoogleActionView::Exchange(
                code,
            )
        }),
        google_step(GoogleStateView::Exchanging, GoogleEventView::Exchanged(Ok(Some(t)))).action
            == GoogleActionView::Finish(t),
        google_step(GoogleStateView::Exchanging, GoogleEventView::Exchanged(Ok(None))).action is Fail,
        google_step(GoogleStateView::Exchanging, GoogleEventView::Exchanged(Err(e))).action is Fail,
        google_step(GoogleStateView::Exchanging, GoogleEventView::Exchanged(Err(e))).warned == seq![
            "Token exchange failed: "@ + e,
        ],
        google_step(GoogleStateView::Starting, GoogleEventView::NoClientId).action is Fail,
        google_step(GoogleStateView::Starting, GoogleEventView::BindFailed(e)).action is Fail,
        google_step(GoogleStateView::Starting, GoogleEventView::PortFailed(e)).action is Fail,
{
    let step = google_step(GoogleStateView::Opening(url), GoogleEventView::BrowserFailed(e));
    assert(step.warned[1] == "Please open the following URL manually: "@ + url);
}

/// A sign-in through Microsoft goes from step to step: the endpoints of the
/// tenant, the code to type in, and the polling, no longer than the provider
/// says and not above a quarter of an hour.
pub proof fn law_microsoft_goes_on(
    tenant: Seq<char>,
    link: Seq<char>,
    uri: Seq<char>,
    user_code: Seq<char>,
    expires_in: u64,
    t: Seq<char>,
    e: Seq<char>,
)
    ensures
        ({
            let step = microsoft_step(
                MicrosoftState::Starting,
                MicrosoftEventView::Configured(Some(tenant)),
            );
            &&& tenant_error(tenant) is None ==> step.state == MicrosoftState::Building
                && step.action == (MicrosoftActionView::Build {
                authorize: "https://login.microsoftonline.com/"@ + tenant + "/oauth2/v2.0/"@
                    + "authorize"@,
                token: "https://login.microsoftonline.com/"@ + tenant + "/oauth2/v2.0/"@ + "token"@,
                device_code: "https://login.microsoftonline.com/"@ + tenant + "/oauth2/v2.0/"@
                    + "devicecode"@,
                scopes: seq!["openid"@, "email"@, "profile"@],
            })
            &&& tenant_error(tenant) matches Some(m) ==> step.action == MicrosoftActionView::Fail
                && step.warned == seq![m]
        }),
        microsoft_step(MicrosoftState::Starting, MicrosoftEventView::Configured(None))
            == microsoft_step(
            MicrosoftState::Starting,
            MicrosoftEventView::Configured(Some("organizations"@)),
        ),
        ({
            let whole = microsoft_step(
                MicrosoftState::Building,
                MicrosoftEventView::Prompt { complete_uri: Some(link), uri, user_code, expires_in },
            );
            let parts = microsoft_step(
                MicrosoftState::Building,
                MicrosoftEventView::Prompt { complete_uri: None, uri, user_code, expires_in },
            );
            &&& whole.state == MicrosoftState::Polling && whole.action == parts.action
            &&& expires_in <= 900 ==> whole.action == MicrosoftActionView::Poll(expires_in)
            &&& expires_in > 900 ==> whole.action == MicrosoftActionView::Poll(900)
            &&& whole.said.len() == 2 && whole.said[0] == "To sign in, open this link: "@ + link
            &&& parts.said.len() == 2 && parts.said[0] == "To sign in, visit "@ + uri
                + " and enter code "@ + user_code
        }),
        microsoft_step(
            MicrosoftState::Polling,
            MicrosoftEventView::Exchanged(Ok(Some(t))),
        ).action == MicrosoftActionView::Finish(t),
        microsoft_step(
            MicrosoftState::Polling,
            MicrosoftEventView::Exchanged(Ok(None)),
        ).action == MicrosoftActionView::Fail,
        microsoft_step(MicrosoftState::Polling, MicrosoftEventView::Exchanged(Err(e))).warned
            == seq!["Device-code sign-in failed: "@ + e],
        microsoft_step(MicrosoftState::Building, MicrosoftEventView::Refused(e)).action
            == MicrosoftActionView::Fail,
        microsoft_step(MicrosoftState::Starting, MicrosoftEventView::NoClientId).action
            == MicrosoftActionView::Fail,
{
}

/// A URL that cannot be used ends the sign-in and is named.
pub proof fn law_bad_urls_are_named(e: Seq<char>)
    ensures
        bad_url(SsoProvider::Google, UsedUrl::Authorize, e) == "Invalid "@ + "Google"@
            + " auth URL: "@ + e,
        bad_url(SsoProvider::Google, UsedUrl::Token, e) == "Invalid "@ + "Google"@ + " token URL: "@
            + e,
        bad_url(SsoProvider::Google, UsedUrl::Redirect, e) == "Invalid redirect URL: "@ + e,
        bad_url(SsoProvider::Microsoft, UsedUrl::DeviceCode, e) == "Invalid "@ + "Microsoft"@
            + " device authorization URL: "@ + e,
        GOOGLE_AUTHORIZE@ == "https://accounts.google.com/o/oauth2/v2/auth"@,
        GOOGLE_TOKEN@ == "https://oauth2.googleapis.com/token"@,
{
}

/// What keeps a sign-in with a provider from going on is told with its cause.
pub proof fn law_causes_are_told(e: Seq<char>, used: Seq<char>)
    ensures
        microsoft_step(MicrosoftState::Building, MicrosoftEventView::Refused(e)).warned == seq![
            "Could not start device-code sign-in: "@ + e,
        ],
        google_step(GoogleStateView::Starting, GoogleEventView::BindFailed(e)).warned == seq![
            "Could not bind a loopback port for the OAuth redirect: "@ + e,
        ],
        google_step(GoogleStateView::Starting, GoogleEventView::PortFailed(e)).warned == seq![
            "Could not determine the loopback listener's port: "@ + e,
        ],
        google_step(GoogleStateView::Opening(used), GoogleEventView::BrowserFailed(e)).warned[0]
            == "Could not open a browser automatically ("@ + e + ")."@,
{
}

} // verus!
