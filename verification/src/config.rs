//! Which servers are talked to, and where settings are kept.

use crate::address::{is_loopback_host, loopback_host, url_view, ParsedUrl, UrlView};
use crate::outside::{parse_url, url_of};
use crate::text::{
    add_line, lower, lowered, no_lines, opt_text, same, starts_with, texts, trim_end, without_end,
    CharClass,
};
use vstd::prelude::*;
use vstd::string::*;

verus! {

pub const DEFAULT_API_URL: &'static str = "https://api.klaay.com";

/// The web app that hosts the sign-in page.
pub const DEFAULT_WEB_URL: &'static str = "https://app.klaay.com";

/// A variable of the environment. One that is not Unicode comes as it is
/// shown.
pub enum EnvVar {
    Unset,
    Value(String),
    NotUnicode(String),
}

pub enum VarView {
    Unset,
    Value(Seq<char>),
    NotUnicode(Seq<char>),
}

impl View for EnvVar {
    type V = VarView;

    open spec fn view(&self) -> VarView {
        match self {
            EnvVar::Unset => VarView::Unset,
            EnvVar::Value(v) => VarView::Value(v@),
            EnvVar::NotUnicode(v) => VarView::NotUnicode(v@),
        }
    }
}

/// The variables that settings are read from: `KLAAY_API_URL`,
/// `KLAAY_WEB_URL` and `KLAAY_ALLOW_INSECURE`.
pub struct Environment {
    pub api_url: EnvVar,
    pub web_url: EnvVar,
    pub allow_insecure: EnvVar,
}

pub struct EnvironmentView {
    pub api_url: VarView,
    pub web_url: VarView,
    pub allow_insecure: VarView,
}

impl View for Environment {
    type V = EnvironmentView;

    open spec fn view(&self) -> EnvironmentView {
        EnvironmentView {
            api_url: self.api_url@,
            web_url: self.web_url@,
            allow_insecure: self.allow_insecure@,
        }
    }
}

/// The settings before they are checked.
pub struct Settings {
    pub api_url: String,
    pub web_url: String,
    pub web_url_explicit: bool,
    pub force_insecure: bool,
}

pub struct SettingsView {
    pub api_url: Seq<char>,
    pub web_url: Seq<char>,
    pub web_url_explicit: bool,
    pub force_insecure: bool,
}

impl View for Settings {
    type V = SettingsView;

    open spec fn view(&self) -> SettingsView {
        SettingsView {
            api_url: self.api_url@,
            web_url: self.web_url@,
            web_url_explicit: self.web_url_explicit,
            force_insecure: self.force_insecure,
        }
    }
}

/// The settings that hold for this run. They have been checked.
#[derive(Debug, PartialEq)]
pub struct Config {
    api_url: String,
    web_url: String,
    web_url_explicit: bool,
    force_insecure: bool,
}

impl Config {
    #[verifier::type_invariant]
    closed spec fn well_formed(self) -> bool {
        checked(self@)
    }
}

impl View for Config {
    type V = SettingsView;

    closed spec fn view(&self) -> SettingsView {
        SettingsView {
            api_url: self.api_url@,
            web_url: self.web_url@,
            web_url_explicit: self.web_url_explicit,
            force_insecure: self.force_insecure,
        }
    }
}

/// What a URL is before anything is sent to it.
#[derive(Debug, PartialEq, Eq)]
pub enum UrlVerdict {
    Safe,
    /// No request can reach it.
    UrlProblem(String),
    /// Credentials would travel to it in plain text.
    PlaintextRisk(String),
}

pub enum VerdictView {
    Safe,
    UrlProblem(Seq<char>),
    PlaintextRisk(Seq<char>),
}

impl View for UrlVerdict {
    type V = VerdictView;

    open spec fn view(&self) -> VerdictView {
        match self {
            UrlVerdict::Safe => VerdictView::Safe,
            UrlVerdict::UrlProblem(m) => VerdictView::UrlProblem(m@),
            UrlVerdict::PlaintextRisk(m) => VerdictView::PlaintextRisk(m@),
        }
    }
}

/// HTTPS is safe, and so is plain HTTP to the machine itself.
pub open spec fn verdict(url: Seq<char>, parsed: Option<UrlView>) -> VerdictView {
    match parsed {
        None => VerdictView::UrlProblem(
            url + " is not a valid URL - requests will likely fail."@,
        ),
        Some(u) => if u.scheme == "https"@ {
            VerdictView::Safe
        } else if u.scheme == "http"@ {
            if loopback_host(u.host) {
                VerdictView::Safe
            } else {
                VerdictView::PlaintextRisk(
                    url
                        + " is not HTTPS - sign-in credentials would travel to it in plain text."@,
                )
            }
        } else {
            VerdictView::UrlProblem(
                url + " uses the \""@ + u.scheme
                    + "\" scheme - only http and https are supported."@,
            )
        },
    }
}

/// Whether a URL may be used: `Ok` with what is warned of, or the reason why
/// not. Plain text can be allowed; a URL that leads nowhere cannot.
pub open spec fn enforced(v: VerdictView, allow_insecure: bool) -> Result<
    Option<Seq<char>>,
    Seq<char>,
> {
    match v {
        VerdictView::Safe => Ok(None),
        VerdictView::UrlProblem(m) => Err(m),
        VerdictView::PlaintextRisk(m) => if allow_insecure {
            Ok(Some("Warning: "@ + m))
        } else {
            Err(
                m
                    + "\nPass --force-insecure or set KLAAY_ALLOW_INSECURE=1 (or =true / =yes) if this is intentional."@,
            )
        },
    }
}

pub open spec fn enforced_view(r: Result<Option<String>, String>) -> Result<
    Option<Seq<char>>,
    Seq<char>,
> {
    match r {
        Ok(w) => Ok(opt_text(w)),
        Err(e) => Err(e@),
    }
}

/// A URL setting: the flag, else the variable, else the default, without
/// trailing slashes.
pub open spec fn chosen(flag: Option<Seq<char>>, var: VarView, default_url: Seq<char>) -> Seq<char> {
    trim_end(
        match (flag, var) {
            (Some(f), _) => f,
            (None, VarView::Value(v)) => v,
            _ => default_url,
        },
        CharClass::Is('/'),
    )
}

/// What is said of a variable that would have been read but is not Unicode.
pub open spec fn not_unicode_warning(
    flag: Option<Seq<char>>,
    var: VarView,
    name: Seq<char>,
    default_url: Seq<char>,
) -> Seq<Seq<char>> {
    match (flag, var) {
        (None, VarView::NotUnicode(v)) => seq![
            "Warning: "@ + name + " contains non-UTF-8 bytes ("@ + v
                + ") - ignoring it and using the default ("@ + default_url + ")."@,
        ],
        _ => Seq::empty(),
    }
}

/// The values that mean yes, whatever their case.
pub open spec fn means_yes(v: Seq<char>) -> bool {
    lower(v) == "1"@ || lower(v) == "true"@ || lower(v) == "yes"@
}

/// What is said of `KLAAY_ALLOW_INSECURE`.
pub open spec fn allow_warning(var: VarView, force_insecure: bool) -> Seq<Seq<char>> {
    match var {
        VarView::Unset => Seq::empty(),
        VarView::NotUnicode(v) => seq![
            "Warning: KLAAY_ALLOW_INSECURE contains non-UTF-8 bytes ("@ + v + ") - ignoring it."@,
        ],
        VarView::Value(v) => if v.len() > 0 && !means_yes(v) {
            seq![
                "Warning: KLAAY_ALLOW_INSECURE="@ + v
                    + " is not a recognized value (use \"1\", \"true\", or \"yes\") - ignoring it"@
                    + (if force_insecure {
                    " (--force-insecure is already covering this run, but the env var is still worth fixing)"@
                } else {
                    ""@
                }) + "."@,
            ]
        } else {
            Seq::empty()
        },
    }
}

/// The settings that flags and environment ask for.
pub open spec fn settings(
    api_flag: Option<Seq<char>>,
    web_flag: Option<Seq<char>>,
    force_insecure: bool,
    env: EnvironmentView,
) -> SettingsView {
    SettingsView {
        api_url: chosen(api_flag, env.api_url, DEFAULT_API_URL@),
        web_url: chosen(web_flag, env.web_url, DEFAULT_WEB_URL@),
        web_url_explicit: web_flag is Some || env.web_url is Value,
        force_insecure: force_insecure || (env.allow_insecure matches VarView::Value(v)
            && means_yes(v)),
    }
}

pub open spec fn settings_warnings(
    api_flag: Option<Seq<char>>,
    web_flag: Option<Seq<char>>,
    force_insecure: bool,
    env: EnvironmentView,
) -> Seq<Seq<char>> {
    not_unicode_warning(api_flag, env.api_url, "KLAAY_API_URL"@, DEFAULT_API_URL@)
        + not_unicode_warning(web_flag, env.web_url, "KLAAY_WEB_URL"@, DEFAULT_WEB_URL@)
        + allow_warning(env.allow_insecure, force_insecure)
}

pub open spec fn opt_line(line: Option<Seq<char>>) -> Seq<Seq<char>> {
    match line {
        Some(l) => seq![l],
        None => Seq::empty(),
    }
}

/// Whether the settings may be used, with the URLs read as `api` and `web`,
/// and what is warned of.
pub open spec fn settled(s: SettingsView, api: Option<UrlView>, web: Option<UrlView>) -> (
    Result<SettingsView, Seq<char>>,
    Seq<Seq<char>>,
) {
    match enforced(verdict(s.api_url, api), s.force_insecure) {
        Err(e) => (Err("--api-url / KLAAY_API_URL: "@ + e), Seq::empty()),
        Ok(first) => match enforced(verdict(s.web_url, web), s.force_insecure) {
            Err(e) => (Err("--web-url / KLAAY_WEB_URL: "@ + e), opt_line(first)),
            Ok(second) => (Ok(s), opt_line(first) + opt_line(second)),
        },
    }
}

/// A URL without a slash at its end.
pub open spec fn ends_bare(url: Seq<char>) -> bool {
    url.len() == 0 || url.last() != '/'
}

/// What every configuration is: neither URL ends with a slash, and both may be
/// used.
pub open spec fn checked(s: SettingsView) -> bool {
    &&& ends_bare(s.api_url)
    &&& ends_bare(s.web_url)
    &&& enforced(verdict(s.api_url, url_of(s.api_url)), s.force_insecure) is Ok
    &&& enforced(verdict(s.web_url, url_of(s.web_url)), s.force_insecure) is Ok
}

pub open spec fn settings_result(r: Result<Settings, String>) -> Result<SettingsView, Seq<char>> {
    match r {
        Ok(s) => Ok(s@),
        Err(e) => Err(e@),
    }
}

pub open spec fn config_result(r: Result<Config, String>) -> Result<SettingsView, Seq<char>> {
    match r {
        Ok(c) => Ok(c@),
        Err(e) => Err(e@),
    }
}

/// What a URL that has been taken apart is before anything is sent to it.
pub fn classify_parsed(url: &str, parsed: &Option<ParsedUrl>) -> (r: UrlVerdict)
    ensures
        r@ == verdict(url@, url_view(*parsed)),
{
    match parsed {
        None => UrlVerdict::UrlProblem(
            url.to_owned().concat(" is not a valid URL - requests will likely fail."),
        ),
        Some(u) => if same(u.scheme.as_str(), "https") {
            UrlVerdict::Safe
        } else if same(u.scheme.as_str(), "http") {
            if is_loopback_host(&u.host) {
                UrlVerdict::Safe
            } else {
                UrlVerdict::PlaintextRisk(
                    url.to_owned().concat(
                        " is not HTTPS - sign-in credentials would travel to it in plain text.",
                    ),
                )
            }
        } else {
            UrlVerdict::UrlProblem(
                url.to_owned().concat(" uses the \"").concat(u.scheme.as_str()).concat(
                    "\" scheme - only http and https are supported.",
                ),
            )
        },
    }
}

/// What a URL is before anything is sent to it. It is parsed: what it begins
/// with says nothing about its host.
pub fn classify_api_url(api_url: &str) -> (r: UrlVerdict)
    ensures
        r@ == verdict(api_url@, url_of(api_url@)),
{
    let parsed = parse_url(api_url);
    classify_parsed(api_url, &parsed)
}

/// Whether a URL of this verdict may be used, and what is warned of.
pub fn enforce_verdict(verdict: UrlVerdict, allow_insecure: bool) -> (r: Result<
    Option<String>,
    String,
>)
    ensures
        enforced_view(r) == enforced(verdict@, allow_insecure),
{
    match verdict {
        UrlVerdict::Safe => Ok(None),
        UrlVerdict::UrlProblem(message) => Err(message),
        UrlVerdict::PlaintextRisk(message) => block_or_warn(allow_insecure, message.as_str()),
    }
}

/// Whether a URL may be used, and what is warned of.
pub fn enforce_secure(api_url: &str, allow_insecure: bool) -> (r: Result<Option<String>, String>)
    ensures
        enforced_view(r) == enforced(verdict(api_url@, url_of(api_url@)), allow_insecure),
{
    enforce_verdict(classify_api_url(api_url), allow_insecure)
}

fn block_or_warn(allow_insecure: bool, message: &str) -> (r: Result<Option<String>, String>)
    ensures
        enforced_view(r) == enforced(VerdictView::PlaintextRisk(message@), allow_insecure),
{
    if allow_insecure {
        Ok(Some("Warning: ".to_owned().concat(message)))
    } else {
        Err(
            message.to_owned().concat(
                "\nPass --force-insecure or set KLAAY_ALLOW_INSECURE=1 (or =true / =yes) if this is intentional.",
            ),
        )
    }
}

fn choose_url(
    flag: Option<String>,
    var: &EnvVar,
    name: &str,
    default_url: &str,
    lines: &mut Vec<String>,
) -> (r: String)
    ensures
        r@ == chosen(opt_text(flag), var@, default_url@),
        texts(final(lines)@) == texts(old(lines)@) + not_unicode_warning(
            opt_text(flag),
            var@,
            name@,
            default_url@,
        ),
{
    let ghost before = texts(lines@);
    let url = match flag {
        Some(f) => f,
        None => match var {
            EnvVar::Value(v) => v.clone(),
            EnvVar::Unset => default_url.to_owned(),
            EnvVar::NotUnicode(v) => {
                add_line(
                    lines,
                    "Warning: ".to_owned().concat(name).concat(
                        " contains non-UTF-8 bytes (",
                    ).concat(v.as_str()).concat(") - ignoring it and using the default (").concat(
                        default_url,
                    ).concat(")."),
                );
                default_url.to_owned()
            },
        },
    };
    assert(texts(lines@) =~= before + not_unicode_warning(
        opt_text(flag),
        var@,
        name@,
        default_url@,
    ));
    without_end(url.as_str(), CharClass::Is('/'))
}

fn allows_insecure(var: &EnvVar, force_insecure: bool, lines: &mut Vec<String>) -> (r: bool)
    ensures
        r == (var@ matches VarView::Value(v) && means_yes(v)),
        texts(final(lines)@) == texts(old(lines)@) + allow_warning(var@, force_insecure),
{
    let ghost before = texts(lines@);
    let yes = match var {
        EnvVar::Unset => false,
        EnvVar::NotUnicode(v) => {
            add_line(
                lines,
                "Warning: KLAAY_ALLOW_INSECURE contains non-UTF-8 bytes (".to_owned().concat(
                    v.as_str(),
                ).concat(") - ignoring it."),
            );
            false
        },
        EnvVar::Value(v) => {
            let low = lowered(v.as_str());
            let yes = same(low.as_str(), "1") || same(low.as_str(), "true") || same(
                low.as_str(),
                "yes",
            );
            if !yes && v.as_str().unicode_len() > 0 {
                let note = if force_insecure {
                    " (--force-insecure is already covering this run, but the env var is still worth fixing)"
                } else {
                    ""
                };
                add_line(
                    lines,
                    "Warning: KLAAY_ALLOW_INSECURE=".to_owned().concat(v.as_str()).concat(
                        " is not a recognized value (use \"1\", \"true\", or \"yes\") - ignoring it",
                    ).concat(note).concat("."),
                );
            }
            yes
        },
    };
    assert(texts(lines@) =~= before + allow_warning(var@, force_insecure));
    yes
}

impl Settings {
    /// The settings that flags and environment ask for, and what is said of
    /// the environment.
    pub fn gather(
        api_url_flag: Option<String>,
        web_url_flag: Option<String>,
        force_insecure: bool,
        env: &Environment,
    ) -> (r: (Settings, Vec<String>))
        ensures
            r.0@ == settings(opt_text(api_url_flag), opt_text(web_url_flag), force_insecure, env@),
            texts(r.1@) == settings_warnings(
                opt_text(api_url_flag),
                opt_text(web_url_flag),
                force_insecure,
                env@,
            ),
    {
        let web_url_explicit = web_url_flag.is_some() || match env.web_url {
            EnvVar::Value(_) => true,
            _ => false,
        };
        let mut lines = no_lines();
        let api_url = choose_url(
            api_url_flag,
            &env.api_url,
            "KLAAY_API_URL",
            DEFAULT_API_URL,
            &mut lines,
        );
        let web_url = choose_url(
            web_url_flag,
            &env.web_url,
            "KLAAY_WEB_URL",
            DEFAULT_WEB_URL,
            &mut lines,
        );
        let allowed = allows_insecure(&env.allow_insecure, force_insecure, &mut lines);
        assert(texts(lines@) =~= settings_warnings(
            opt_text(api_url_flag),
            opt_text(web_url_flag),
            force_insecure,
            env@,
        ));
        let settings = Settings {
            api_url,
            web_url,
            web_url_explicit,
            force_insecure: force_insecure || allowed,
        };
        (settings, lines)
    }

    /// Checks the settings, whose URLs have been taken apart.
    pub fn settle(self, api: &Option<ParsedUrl>, web: &Option<ParsedUrl>) -> (r: (
        Result<Settings, String>,
        Vec<String>,
    ))
        ensures
            (settings_result(r.0), texts(r.1@)) == settled(self@, url_view(*api), url_view(*web)),
    {
        let mut lines = no_lines();
        match enforce_verdict(classify_parsed(self.api_url.as_str(), api), self.force_insecure) {
            Err(e) => {
                return (Err("--api-url / KLAAY_API_URL: ".to_owned().concat(e.as_str())), lines);
            },
            Ok(Some(warning)) => add_line(&mut lines, warning),
            Ok(None) => {},
        }
        match enforce_verdict(classify_parsed(self.web_url.as_str(), web), self.force_insecure) {
            Err(e) => {
                return (Err("--web-url / KLAAY_WEB_URL: ".to_owned().concat(e.as_str())), lines);
            },
            Ok(Some(warning)) => add_line(&mut lines, warning),
            Ok(None) => {},
        }
        assert(texts(lines@) =~= settled(self@, url_view(*api), url_view(*web)).1);
        (Ok(self), lines)
    }
}

impl Config {
    /// The settings of this run, and what is said of them: a flag comes before
    /// its variable of the environment, and that before the default.
    pub fn resolve(
        api_url_flag: Option<String>,
        web_url_flag: Option<String>,
        force_insecure: bool,
        env: &Environment,
    ) -> (r: (Result<Config, String>, Vec<String>))
        ensures
            ({
                let api = opt_text(api_url_flag);
                let web = opt_text(web_url_flag);
                let s = settings(api, web, force_insecure, env@);
                let end = settled(s, url_of(s.api_url), url_of(s.web_url));
                config_result(r.0) == end.0 && texts(r.1@) == settings_warnings(
                    api,
                    web,
                    force_insecure,
                    env@,
                ) + end.1
            }),
            r.0 matches Ok(c) ==> checked(c@),
    {
        let ghost api_text = opt_text(api_url_flag);
        let ghost web_text = opt_text(web_url_flag);
        let (settings, first) = Settings::gather(api_url_flag, web_url_flag, force_insecure, env);
        let api = parse_url(settings.api_url.as_str());
        let web = parse_url(settings.web_url.as_str());
        let (result, rest) = settings.settle(&api, &web);
        let mut lines = first;
        let mut rest = rest;
        let ghost a = lines@;
        let ghost b = rest@;
        lines.append(&mut rest);
        assert(texts(lines@) =~= texts(a) + texts(b));
        proof {
            law_accepted_settings_are_checked(api_text, web_text, force_insecure, env@);
        }
        let result = match result {
            Ok(s) => Ok(
                Config {
                    api_url: s.api_url,
                    web_url: s.web_url,
                    web_url_explicit: s.web_url_explicit,
                    force_insecure: s.force_insecure,
                },
            ),
            Err(e) => Err(e),
        };
        (result, lines)
    }

    pub fn api_url(&self) -> (r: &str)
        ensures
            r@ == self@.api_url,
            checked(self@),
    {
        proof {
            use_type_invariant(self);
        }
        self.api_url.as_str()
    }

    pub fn web_url(&self) -> (r: &str)
        ensures
            r@ == self@.web_url,
            checked(self@),
    {
        proof {
            use_type_invariant(self);
        }
        self.web_url.as_str()
    }

    /// Whether the web URL was asked for and is not the default.
    pub fn web_url_explicit(&self) -> (r: bool)
        ensures
            r == self@.web_url_explicit,
    {
        self.web_url_explicit
    }

    /// Whether plain text on the wire was asked for.
    pub fn force_insecure(&self) -> (r: bool)
        ensures
            r == self@.force_insecure,
            checked(self@),
    {
        proof {
            use_type_invariant(self);
        }
        self.force_insecure
    }

    /// Holds another URL to the standard of the settings.
    pub fn check_url_security(&self, url: &str) -> (r: Result<Option<String>, String>)
        ensures
            enforced_view(r) == enforced(verdict(url@, url_of(url@)), self@.force_insecure),
    {
        enforce_secure(url, self.force_insecure)
    }
}

/// A path below a directory.
pub struct ConfigPath<B> {
    pub base: B,
    pub parts: Vec<String>,
}

pub open spec fn path_view<B>(p: Option<ConfigPath<B>>) -> Option<(B, Seq<Seq<char>>)> {
    match p {
        Some(x) => Some((x.base, texts(x.parts@))),
        None => None,
    }
}

pub open spec fn below<B>(base: Option<B>, parts: Seq<Seq<char>>) -> Option<(B, Seq<Seq<char>>)> {
    match base {
        Some(b) => Some((b, parts)),
        None => None,
    }
}

/// The directory of the settings.
pub open spec fn config_parts() -> Seq<Seq<char>> {
    seq!["klaay"@]
}

/// The file of the credentials.
pub open spec fn credentials_parts() -> Seq<Seq<char>> {
    seq!["klaay"@, "credentials.json"@]
}

/// The file of the API description.
pub open spec fn cache_parts() -> Seq<Seq<char>> {
    seq!["klaay"@, "openapi-cache.json"@]
}

/// Where the settings are kept, below the directory that the system has for
/// settings.
pub fn config_dir<B>(base: Option<B>) -> (r: Option<ConfigPath<B>>)
    ensures
        path_view(r) == below(base, config_parts()),
{
    match base {
        Some(base) => {
            let mut parts: Vec<String> = Vec::new();
            parts.push("klaay".to_owned());
            assert(texts(parts@) =~= seq!["klaay"@]);
            Some(ConfigPath { base, parts })
        },
        None => None,
    }
}

fn in_config_dir<B>(base: Option<B>, name: &str) -> (r: Option<ConfigPath<B>>)
    ensures
        path_view(r) == below(base, seq!["klaay"@, name@]),
{
    match config_dir(base) {
        Some(dir) => {
            assert(texts(dir.parts@) == seq!["klaay"@]);
            let mut parts = dir.parts;
            add_line(&mut parts, name.to_owned());
            assert(texts(parts@) =~= seq!["klaay"@, name@]);
            Some(ConfigPath { base: dir.base, parts })
        },
        None => None,
    }
}

/// Where tokens are kept when the keychain is not. One file for all servers.
pub fn credentials_fallback_path<B>(base: Option<B>) -> (r: Option<ConfigPath<B>>)
    ensures
        path_view(r) == below(base, credentials_parts()),
{
    in_config_dir(base, "credentials.json")
}

/// Where the description of the API is kept.
pub fn openapi_cache_path<B>(base: Option<B>) -> (r: Option<ConfigPath<B>>)
    ensures
        path_view(r) == below(base, cache_parts()),
{
    in_config_dir(base, "openapi-cache.json")
}

/// Slashes at the end of a URL do not matter.
pub proof fn law_trailing_slashes_do_not_matter(url: Seq<char>, var: VarView, default_url: Seq<char>)
    ensures
        chosen(Some(url.push('/')), var, default_url) == chosen(Some(url), var, default_url),
{
    assert(url.push('/').drop_last() =~= url);
}

/// What flags and environment ask for is checked once it is accepted, and is
/// changed no more.
pub proof fn law_accepted_settings_are_checked(
    api_flag: Option<Seq<char>>,
    web_flag: Option<Seq<char>>,
    force_insecure: bool,
    env: EnvironmentView,
)
    ensures
        ({
            let s = settings(api_flag, web_flag, force_insecure, env);
            match settled(s, url_of(s.api_url), url_of(s.web_url)).0 {
                Ok(t) => t == s && checked(t),
                Err(_) => !checked(s),
            }
        }),
{
    lemma_chosen_ends_bare(api_flag, env.api_url, DEFAULT_API_URL@);
    lemma_chosen_ends_bare(web_flag, env.web_url, DEFAULT_WEB_URL@);
}

proof fn lemma_chosen_ends_bare(flag: Option<Seq<char>>, var: VarView, default_url: Seq<char>)
    ensures
        ends_bare(chosen(flag, var, default_url)),
{
    lemma_trim_end(
        match (flag, var) {
            (Some(f), _) => f,
            (None, VarView::Value(v)) => v,
            _ => default_url,
        },
        CharClass::Is('/'),
    );
}

proof fn lemma_trim_end(s: Seq<char>, k: CharClass)
    ensures
        trim_end(s, k).len() > 0 ==> !k.holds(trim_end(s, k).last()),
    decreases s.len(),
{
    if s.len() > 0 && k.holds(s.last()) {
        lemma_trim_end(s.drop_last(), k);
    }
}

/// Settings that are accepted have URLs that are safe, unless plain text was
/// asked for, and then URLs that can be reached at all.
pub proof fn law_accepted_urls_are_safe(s: SettingsView, api: Option<UrlView>, web: Option<UrlView>)
    ensures
        settled(s, api, web).0 is Ok <==> {
            &&& verdict(s.api_url, api) is Safe || (s.force_insecure && verdict(
                s.api_url,
                api,
            ) is PlaintextRisk)
            &&& verdict(s.web_url, web) is Safe || (s.force_insecure && verdict(
                s.web_url,
                web,
            ) is PlaintextRisk)
        },
{
}

/// What a URL is by its scheme and host: HTTPS is safe, plain HTTP only to the
/// machine itself, and nothing else can be used.
pub proof fn law_which_urls_are_safe(url: Seq<char>, u: UrlView)
    ensures
        u.scheme == "https"@ ==> verdict(url, Some(u)) is Safe,
        u.scheme == "http"@ && loopback_host(u.host) ==> verdict(url, Some(u)) is Safe,
        u.scheme == "http"@ && !loopback_host(u.host) ==> verdict(url, Some(u))
            == VerdictView::PlaintextRisk(
            url + " is not HTTPS - sign-in credentials would travel to it in plain text."@,
        ),
        u.scheme != "http"@ && u.scheme != "https"@ ==> verdict(url, Some(u))
            == VerdictView::UrlProblem(
            url + " uses the \""@ + u.scheme + "\" scheme - only http and https are supported."@,
        ),
        verdict(url, None) == VerdictView::UrlProblem(
            url + " is not a valid URL - requests will likely fail."@,
        ),
{
    reveal_strlit("http");
    reveal_strlit("https");
    assert("http"@.len() != "https"@.len());
}

/// A safe URL is used without a word, one that cannot be used never is, and
/// plain text is used only where it was asked for, with a warning.
pub proof fn law_what_is_enforced(m: Seq<char>, allow_insecure: bool)
    ensures
        enforced(VerdictView::Safe, allow_insecure) == Ok::<Option<Seq<char>>, Seq<char>>(None),
        enforced(VerdictView::UrlProblem(m), allow_insecure) == Err::<
            Option<Seq<char>>,
            Seq<char>,
        >(m),
        enforced(VerdictView::PlaintextRisk(m), true) == Ok::<Option<Seq<char>>, Seq<char>>(
            Some("Warning: "@ + m),
        ),
        enforced(VerdictView::PlaintextRisk(m), false) is Err,
{
}

/// A flag comes before its variable, and that before the default; slashes at
/// the end go.
pub proof fn law_flags_come_first(
    flag: Seq<char>,
    value: Seq<char>,
    var: VarView,
    default_url: Seq<char>,
)
    ensures
        chosen(Some(flag), var, default_url) == trim_end(flag, CharClass::Is('/')),
        chosen(None, VarView::Value(value), default_url) == trim_end(value, CharClass::Is('/')),
        chosen(None, VarView::Unset, default_url) == trim_end(default_url, CharClass::Is('/')),
        chosen(None, VarView::NotUnicode(value), default_url) == trim_end(
            default_url,
            CharClass::Is('/'),
        ),
{
}

/// The settings are those of their own flags and variables: neither URL is
/// taken for the other, and plain text is allowed by the flag or by a variable
/// that says yes.
pub proof fn law_settings_are_as_asked(
    api_flag: Option<Seq<char>>,
    web_flag: Option<Seq<char>>,
    force_insecure: bool,
    env: EnvironmentView,
)
    ensures
        ({
            let s = settings(api_flag, web_flag, force_insecure, env);
            &&& s.api_url == chosen(api_flag, env.api_url, "https://api.klaay.com"@)
            &&& s.web_url == chosen(web_flag, env.web_url, "https://app.klaay.com"@)
            &&& s.web_url_explicit <==> web_flag is Some || env.web_url is Value
            &&& force_insecure ==> s.force_insecure
            &&& !force_insecure ==> (s.force_insecure <==> (env.allow_insecure matches
                VarView::Value(v) && (lower(v) == "1"@ || lower(v) == "true"@ || lower(v)
                == "yes"@)))
        }),
{
}

/// A variable that would have been read but cannot be is told of, and a value
/// that means neither yes nor nothing is told of too; nothing else is.
pub proof fn law_settings_are_warned_of(
    api_flag: Option<Seq<char>>,
    web_flag: Option<Seq<char>>,
    force_insecure: bool,
    env: EnvironmentView,
)
    ensures
        ({
            let api = api_flag is None && env.api_url is NotUnicode;
            let web = web_flag is None && env.web_url is NotUnicode;
            let allow = env.allow_insecure is NotUnicode || (env.allow_insecure matches
                VarView::Value(v) && v.len() > 0 && lower(v) != "1"@ && lower(v) != "true"@ && lower(
                v,
            ) != "yes"@);
            let one = |b: bool| if b {
                1int
            } else {
                0int
            };
            settings_warnings(api_flag, web_flag, force_insecure, env).len() == one(api) + one(web)
                + one(allow)
        }),
        env.api_url is NotUnicode && api_flag is None ==> settings_warnings(
            api_flag,
            web_flag,
            force_insecure,
            env,
        )[0] == "Warning: KLAAY_API_URL contains non-UTF-8 bytes ("@ + env.api_url->NotUnicode_0
            + ") - ignoring it and using the default (https://api.klaay.com)."@,
{
    if env.api_url is NotUnicode && api_flag is None {
        let v = env.api_url->NotUnicode_0;
        reveal_strlit("Warning: ");
        reveal_strlit("KLAAY_API_URL");
        reveal_strlit(" contains non-UTF-8 bytes (");
        reveal_strlit("Warning: KLAAY_API_URL contains non-UTF-8 bytes (");
        reveal_strlit(") - ignoring it and using the default (");
        reveal_strlit("https://api.klaay.com");
        reveal_strlit(").");
        reveal_strlit(") - ignoring it and using the default (https://api.klaay.com).");
        assert("Warning: KLAAY_API_URL contains non-UTF-8 bytes ("@ =~= "Warning: "@
            + "KLAAY_API_URL"@ + " contains non-UTF-8 bytes ("@);
        assert(") - ignoring it and using the default (https://api.klaay.com)."@
            =~= ") - ignoring it and using the default ("@ + "https://api.klaay.com"@ + ")."@);
        let line = settings_warnings(api_flag, web_flag, force_insecure, env)[0];
        assert(line == "Warning: "@ + "KLAAY_API_URL"@ + " contains non-UTF-8 bytes ("@ + v
            + ") - ignoring it and using the default ("@ + "https://api.klaay.com"@ + ")."@);
        assert(line =~= "Warning: KLAAY_API_URL contains non-UTF-8 bytes ("@ + v
            + ") - ignoring it and using the default (https://api.klaay.com)."@);
    }
}

/// Settings are refused with the flag that is at fault, the one for the API
/// first; what is accepted is not changed, and each warning is passed on.
pub proof fn law_faults_are_named(s: SettingsView, api: Option<UrlView>, web: Option<UrlView>)
    ensures
        match (
            enforced(verdict(s.api_url, api), s.force_insecure),
            enforced(verdict(s.web_url, web), s.force_insecure),
        ) {
            (Err(e), _) => settled(s, api, web).0 == Err::<SettingsView, Seq<char>>(
                "--api-url / KLAAY_API_URL: "@ + e,
            ),
            (Ok(_), Err(e)) => settled(s, api, web).0 == Err::<SettingsView, Seq<char>>(
                "--web-url / KLAAY_WEB_URL: "@ + e,
            ),
            (Ok(a), Ok(b)) => {
                &&& settled(s, api, web).0 == Ok::<SettingsView, Seq<char>>(s)
                &&& a is None && b is None ==> settled(s, api, web).1.len() == 0
                &&& a is Some ==> settled(s, api, web).1.len() > 0 && settled(s, api, web).1[0]
                    == a->0
                &&& b is Some ==> settled(s, api, web).1.len() > 0 && settled(s, api, web).1.last()
                    == b->0
            },
        },
{
}

/// No URL of the settings ends in a slash, and a value that does not say whether
/// to allow what is insecure is told.
pub proof fn law_urls_have_no_slash(
    api_flag: Option<Seq<char>>,
    web_flag: Option<Seq<char>>,
    force_insecure: bool,
    env: EnvironmentView,
    v: Seq<char>,
)
    ensures
        ({
            let s = settings(api_flag, web_flag, force_insecure, env);
            &&& s.api_url.len() > 0 ==> s.api_url.last() != '/'
            &&& s.web_url.len() > 0 ==> s.web_url.last() != '/'
        }),
        ends_bare(v) <==> (v.len() > 0 ==> v.last() != '/'),
        allow_warning(VarView::NotUnicode(v), force_insecure) == seq![
            "Warning: KLAAY_ALLOW_INSECURE contains non-UTF-8 bytes ("@ + v + ") - ignoring it."@,
        ],
        allow_warning(VarView::Value(v), force_insecure).len() > 0 ==> starts_with(
            allow_warning(VarView::Value(v), force_insecure)[0],
            "Warning: KLAAY_ALLOW_INSECURE="@ + v + " is not a recognized value"@,
        ),
{
    lemma_chosen_ends_bare(api_flag, env.api_url, DEFAULT_API_URL@);
    lemma_chosen_ends_bare(web_flag, env.web_url, DEFAULT_WEB_URL@);
    if allow_warning(VarView::Value(v), force_insecure).len() > 0 {
        let line = allow_warning(VarView::Value(v), force_insecure)[0];
        reveal_strlit(" is not a recognized value");
        reveal_strlit(
            " is not a recognized value (use \"1\", \"true\", or \"yes\") - ignoring it",
        );
        let start = "Warning: KLAAY_ALLOW_INSECURE="@ + v + " is not a recognized value"@;
        assert(line.take(start.len() as int) =~= start);
    }
}

/// What is kept lies below the given directory, and only there; the credentials
/// and the API description are two files in the directory of the settings.
pub proof fn law_files_lie_in_one_directory<B>(base: B)
    ensures
        below(Some(base), config_parts()) == Some((base, seq!["klaay"@])),
        below(None::<B>, config_parts()) is None,
        below(Some(base), credentials_parts()) == Some(
            (base, config_parts().push("credentials.json"@)),
        ),
        below(Some(base), cache_parts()) == Some(
            (base, config_parts().push("openapi-cache.json"@)),
        ),
        credentials_parts() != cache_parts(),
{
    assert(credentials_parts() =~= config_parts().push("credentials.json"@));
    assert(cache_parts() =~= config_parts().push("openapi-cache.json"@));
    reveal_strlit("credentials.json");
    reveal_strlit("openapi-cache.json");
    assert(credentials_parts()[1].len() != cache_parts()[1].len());
}

} // verus!
