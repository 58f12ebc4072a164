use klaay::address::{is_loopback_host, Host, ParsedUrl};
use klaay::config::{
    classify_api_url, classify_parsed, config_dir, credentials_fallback_path, enforce_secure,
    openapi_cache_path, Config, EnvVar, Environment, Settings, UrlVerdict, DEFAULT_API_URL,
    DEFAULT_WEB_URL,
};

fn unset() -> Environment {
    Environment { api_url: EnvVar::Unset, web_url: EnvVar::Unset, allow_insecure: EnvVar::Unset }
}

fn value(s: &str) -> EnvVar {
    EnvVar::Value(s.to_string())
}

fn host_of(url: &url::Url) -> Option<Host> {
    match url.host() {
        Some(url::Host::Domain(d)) => Some(Host::Domain(d.to_string())),
        Some(url::Host::Ipv4(a)) => Some(Host::Ipv4(u32::from(a))),
        Some(url::Host::Ipv6(a)) => Some(Host::Ipv6(u128::from(a))),
        None => None,
    }
}

fn assert_loopback(url_str: &str, expected: bool) {
    let parsed = url::Url::parse(url_str).expect("valid URL");
    assert_eq!(is_loopback_host(&host_of(&parsed)), expected, "{url_str}");
}

#[test]
fn recognizes_localhost_hostname() {
    assert_loopback("http://localhost", true);
}

#[test]
fn recognizes_localhost_hostname_case_insensitively() {
    assert_loopback("http://LOCALHOST", true);
    assert_loopback("http://Localhost", true);
}

#[test]
fn recognizes_localhost_trailing_dot_fqdn_form() {
    assert_loopback("http://localhost.", true);
    assert_loopback("http://LOCALHOST.", true);
}

#[test]
fn recognizes_ipv4_loopback() {
    assert_loopback("http://127.0.0.1", true);
    assert_loopback("http://127.0.0.2", true);
}

#[test]
fn recognizes_ipv6_loopback_bracketed_form() {
    assert_loopback("http://[::1]:3000", true);
}

#[test]
fn recognizes_ipv6_loopback_non_canonical_form() {
    assert_loopback("http://[0:0:0:0:0:0:0:1]", true);
}

#[test]
fn rejects_double_bracketed_ipv6_malformed_host() {
    assert!(url::Url::parse("http://[[::1]]:3000").is_err());
    assert!(matches!(classify_api_url("http://[[::1]]:3000"), UrlVerdict::UrlProblem(_)));
}

#[test]
fn rejects_non_loopback_hostname() {
    assert_loopback("http://example.com", false);
    assert_loopback("http://localhost.evil.com", false);
}

#[test]
fn rejects_non_loopback_ip() {
    assert_loopback("http://8.8.8.8", false);
    assert_loopback("http://[fc00::1]", false);
}

#[test]
fn rejects_missing_host() {
    assert!(!is_loopback_host(&None));
}

#[test]
fn only_one_trailing_dot_is_dropped() {
    assert!(!is_loopback_host(&Some(Host::Domain("localhost..".to_string()))));
    assert!(!is_loopback_host(&Some(Host::Domain(".".to_string()))));
    assert!(!is_loopback_host(&Some(Host::Domain(String::new()))));
}

#[test]
fn https_url_is_ok() {
    assert_eq!(classify_api_url("https://api.klaay.com"), UrlVerdict::Safe);
}

#[test]
fn default_api_url_is_safe() {
    assert_eq!(classify_api_url(DEFAULT_API_URL), UrlVerdict::Safe);
}

#[test]
fn loopback_http_url_is_ok() {
    assert_eq!(classify_api_url("http://localhost:3000"), UrlVerdict::Safe);
    assert_eq!(classify_api_url("http://127.0.0.1:3000"), UrlVerdict::Safe);
    assert_eq!(classify_api_url("http://localhost.:3000"), UrlVerdict::Safe);
}

#[test]
fn non_loopback_http_url_is_plaintext_risk() {
    assert!(matches!(classify_api_url("http://api.klaay.com"), UrlVerdict::PlaintextRisk(_)));
}

#[test]
fn non_http_scheme_is_url_problem() {
    assert!(matches!(classify_api_url("ftp://api.klaay.com"), UrlVerdict::UrlProblem(_)));
}

#[test]
fn unparseable_url_is_url_problem() {
    assert!(matches!(classify_api_url("not a url"), UrlVerdict::UrlProblem(_)));
}

#[test]
fn empty_host_http_url_fails_to_parse_is_url_problem() {
    assert!(matches!(classify_api_url("http://"), UrlVerdict::UrlProblem(_)));
}

#[test]
fn verdicts_say_what_is_wrong() {
    assert_eq!(
        classify_api_url("not a url"),
        UrlVerdict::UrlProblem(
            "not a url is not a valid URL - requests will likely fail.".to_string()
        )
    );
    assert_eq!(
        classify_api_url("ftp://x"),
        UrlVerdict::UrlProblem(
            "ftp://x uses the \"ftp\" scheme - only http and https are supported.".to_string()
        )
    );
    assert_eq!(
        classify_parsed(
            "http://x",
            &Some(ParsedUrl { scheme: "http".to_string(), host: None, port: None })
        ),
        UrlVerdict::PlaintextRisk(
            "http://x is not HTTPS - sign-in credentials would travel to it in plain text."
                .to_string()
        )
    );
}

#[test]
fn plain_text_can_be_allowed_but_not_a_bad_url() {
    assert_eq!(enforce_secure("https://x.com", false), Ok(None));
    assert_eq!(
        enforce_secure("http://x.com", true),
        Ok(Some(
            "Warning: http://x.com is not HTTPS - sign-in credentials would travel to it in plain text."
                .to_string()
        ))
    );
    assert_eq!(
        enforce_secure("http://x.com", false),
        Err("http://x.com is not HTTPS - sign-in credentials would travel to it in plain text.\nPass --force-insecure or set KLAAY_ALLOW_INSECURE=1 (or =true / =yes) if this is intentional.".to_string())
    );
    assert!(enforce_secure("nowhere", true).is_err());
}

#[test]
fn resolve_accepts_a_safe_https_url() {
    let config = Config::resolve(Some("https://api.klaay.com".to_string()), None, false, &unset())
        .0
        .expect("an https URL should resolve without error");
    assert_eq!(config.api_url(), "https://api.klaay.com");
}

#[test]
fn resolve_rejects_an_unparseable_url_regardless_of_force_insecure() {
    assert!(Config::resolve(Some("not a valid url".to_string()), None, true, &unset()).0.is_err());
}

#[test]
fn resolve_rejects_a_non_http_scheme_regardless_of_force_insecure() {
    assert!(
        Config::resolve(Some("ftp://api.klaay.com".to_string()), None, true, &unset()).0.is_err()
    );
}

#[test]
fn resolve_rejects_a_plaintext_url_without_force_insecure() {
    assert!(
        Config::resolve(Some("http://example.com".to_string()), None, false, &unset()).0.is_err()
    );
}

#[test]
fn resolve_accepts_a_plaintext_url_with_force_insecure() {
    assert!(
        Config::resolve(Some("http://example.com".to_string()), None, true, &unset()).0.is_ok()
    );
}

#[test]
fn resolve_defaults_web_url_and_normalizes_a_flag_override() {
    let config = Config::resolve(Some("https://api.klaay.com".to_string()), None, false, &unset())
        .0
        .expect("resolves");
    assert_eq!(config.web_url(), DEFAULT_WEB_URL);
    assert!(!config.web_url_explicit());

    let config = Config::resolve(
        Some("https://api.klaay.com".to_string()),
        Some("https://web.example.com///".to_string()),
        false,
        &unset(),
    )
    .0
    .expect("resolves");
    assert_eq!(config.web_url(), "https://web.example.com");
    assert!(config.web_url_explicit());
}

#[test]
fn resolve_falls_back_to_klaay_web_url_env_var_when_flag_is_none() {
    let env = Environment { web_url: value("https://web.env.example.com/"), ..unset() };
    let config = Config::resolve(Some("https://api.klaay.com".to_string()), None, false, &env)
        .0
        .expect("resolves");
    assert_eq!(config.web_url(), "https://web.env.example.com");
    assert!(config.web_url_explicit());
}

#[test]
fn resolve_rejects_a_plaintext_web_url_and_names_the_web_flag() {
    let err = Config::resolve(
        Some("https://api.klaay.com".to_string()),
        Some("http://web.example.com".to_string()),
        false,
        &unset(),
    )
    .0
    .expect_err("plaintext web url must be rejected");
    assert!(err.contains("--web-url"), "error should name the web flag: {err}");
}

#[test]
fn resolve_falls_back_to_klaay_api_url_env_var_when_flag_is_none() {
    let env = Environment { api_url: value("https://from-env.example.com"), ..unset() };
    let result = Config::resolve(None, None, false, &env).0;
    assert_eq!(
        result.expect("a safe https URL from the env var should resolve").api_url(),
        "https://from-env.example.com"
    );
}

#[test]
fn resolve_reads_klaay_allow_insecure_env_var_as_an_opt_in() {
    let env = Environment { allow_insecure: value("true"), ..unset() };
    let result = Config::resolve(Some("http://example.com".to_string()), None, false, &env).0;
    assert!(result.is_ok());
    assert!(result.unwrap().force_insecure());
}

#[test]
fn resolve_does_not_treat_an_unrecognized_klaay_allow_insecure_value_as_truthy() {
    let env = Environment { allow_insecure: value("on"), ..unset() };
    let (result, warnings) =
        Config::resolve(Some("http://example.com".to_string()), None, false, &env);
    assert!(result.is_err());
    assert_eq!(
        warnings,
        vec!["Warning: KLAAY_ALLOW_INSECURE=on is not a recognized value (use \"1\", \"true\", or \"yes\") - ignoring it.".to_string()]
    );
}

#[test]
fn yes_is_read_whatever_its_case_and_an_empty_value_is_not_yes() {
    for v in ["1", "TRUE", "Yes", "yEs"] {
        let env = Environment { allow_insecure: value(v), ..unset() };
        let (result, _) = Config::resolve(Some("http://e.com".to_string()), None, false, &env);
        assert!(result.is_ok(), "{v}");
    }
    let env = Environment { allow_insecure: value(""), ..unset() };
    let (result, warnings) = Config::resolve(Some("http://e.com".to_string()), None, false, &env);
    assert!(result.is_err());
    assert!(warnings.is_empty());
}

#[test]
fn the_flag_is_named_where_it_covers_a_bad_variable() {
    let env = Environment { allow_insecure: value("ON"), ..unset() };
    let (result, warnings) = Config::resolve(None, None, true, &env);
    assert!(result.is_ok());
    assert_eq!(
        warnings,
        vec!["Warning: KLAAY_ALLOW_INSECURE=ON is not a recognized value (use \"1\", \"true\", or \"yes\") - ignoring it (--force-insecure is already covering this run, but the env var is still worth fixing).".to_string()]
    );
}

#[test]
fn variables_that_are_not_unicode_are_passed_over_with_a_warning() {
    let env = Environment {
        api_url: EnvVar::NotUnicode("\"\\xFF\"".to_string()),
        web_url: EnvVar::NotUnicode("\"w\"".to_string()),
        allow_insecure: EnvVar::NotUnicode("\"a\"".to_string()),
    };
    let (result, warnings) = Config::resolve(None, None, false, &env);
    let config = result.expect("the defaults are safe");
    assert_eq!(config.api_url(), DEFAULT_API_URL);
    assert!(!config.force_insecure());
    assert_eq!(
        warnings,
        vec![
            "Warning: KLAAY_API_URL contains non-UTF-8 bytes (\"\\xFF\") - ignoring it and using the default (https://api.klaay.com).".to_string(),
            "Warning: KLAAY_WEB_URL contains non-UTF-8 bytes (\"w\") - ignoring it and using the default (https://app.klaay.com).".to_string(),
            "Warning: KLAAY_ALLOW_INSECURE contains non-UTF-8 bytes (\"a\") - ignoring it.".to_string(),
        ]
    );
    let env = Environment { api_url: EnvVar::NotUnicode("x".to_string()), ..unset() };
    let (_, warnings) = Config::resolve(Some("https://a.com".to_string()), None, false, &env);
    assert!(warnings.is_empty());
}

#[test]
fn a_flag_comes_before_its_variable() {
    let env = Environment { api_url: value("https://env.com"), ..unset() };
    let config =
        Config::resolve(Some("https://flag.com/".to_string()), None, false, &env).0.unwrap();
    assert_eq!(config.api_url(), "https://flag.com");
}

#[test]
fn both_plain_text_urls_are_warned_of() {
    let (result, warnings) = Config::resolve(
        Some("http://a.com".to_string()),
        Some("http://b.com".to_string()),
        true,
        &unset(),
    );
    assert!(result.is_ok());
    assert_eq!(warnings.len(), 2);
    assert!(warnings[0].starts_with("Warning: http://a.com is not HTTPS"));
    assert!(warnings[1].starts_with("Warning: http://b.com is not HTTPS"));
    let err = Config::resolve(Some("x".to_string()), None, false, &unset()).0.unwrap_err();
    assert_eq!(
        err,
        "--api-url / KLAAY_API_URL: x is not a valid URL - requests will likely fail."
    );
}

#[test]
fn another_url_is_held_to_the_same_standard() {
    let strict = Config::resolve(None, None, false, &unset()).0.unwrap();
    assert!(strict.check_url_security("http://a.com").is_err());
    let loose = Config::resolve(None, None, true, &unset()).0.unwrap();
    assert!(loose.check_url_security("http://a.com").unwrap().is_some());
}

#[test]
fn paths_lie_below_the_directory_for_settings() {
    let dir = config_dir(Some("/home/x/.config")).unwrap();
    assert_eq!(dir.base, "/home/x/.config");
    assert_eq!(dir.parts, vec!["klaay".to_string()]);
    assert_eq!(
        credentials_fallback_path(Some(1)).unwrap().parts,
        vec!["klaay".to_string(), "credentials.json".to_string()]
    );
    assert_eq!(
        openapi_cache_path(Some(1)).unwrap().parts,
        vec!["klaay".to_string(), "openapi-cache.json".to_string()]
    );
    assert!(credentials_fallback_path::<u8>(None).is_none());
    assert!(openapi_cache_path::<u8>(None).is_none());
}

fn parsed(scheme: &str, host: &str) -> Option<ParsedUrl> {
    Some(ParsedUrl {
        scheme: scheme.to_string(),
        host: Some(Host::Domain(host.to_string())),
        port: None,
    })
}

#[test]
fn every_configuration_has_been_checked() {
    for (api, force) in [
        ("https://a.com///", false),
        ("http://localhost:3000/", false),
        ("http://a.com/x/", true),
    ] {
        let config = Config::resolve(Some(api.to_string()), Some(api.to_string()), force, &unset())
            .0
            .unwrap();
        for url in [config.api_url(), config.web_url()] {
            assert!(!url.ends_with('/'));
            assert!(enforce_secure(url, config.force_insecure()).is_ok());
        }
    }
}

#[test]
fn settings_are_settled_by_the_parts_of_their_urls() {
    let settings = || Settings {
        api_url: "https://a.com".to_string(),
        web_url: "http://b.com".to_string(),
        web_url_explicit: true,
        force_insecure: false,
    };
    let safe = parsed("https", "a.com");
    let plain = parsed("http", "b.com");
    let (settled, warnings) = settings().settle(&safe, &safe);
    let settled = settled.ok().unwrap();
    assert_eq!(settled.api_url, "https://a.com");
    assert_eq!(settled.web_url, "http://b.com");
    assert!(settled.web_url_explicit && !settled.force_insecure);
    assert!(warnings.is_empty());
    let (refused, _) = settings().settle(&safe, &plain);
    assert!(refused.err().unwrap().starts_with("--web-url / KLAAY_WEB_URL: http://b.com is not"));
    let (refused, _) = settings().settle(&None, &safe);
    assert_eq!(
        refused.err().unwrap(),
        "--api-url / KLAAY_API_URL: https://a.com is not a valid URL - requests will likely fail."
    );
}
