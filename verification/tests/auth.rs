use klaay::auth::{
    check_token, decode_jwt_payload, format_timestamp, json_id_string, login_with_stdin_token,
    login_with_token, logout, require_login, save_or_warn, sub_day_magnitude, token_shape_ok,
    whoami, SubDayMagnitude,
};
use klaay::json::{Json, JsonNumber};
use klaay::response::{ApiResponse, BodyKind};
use klaay::token_store::{SaveTokenError, StoredToken};

fn obj(fields: Vec<(&str, Json)>) -> Json {
    Json::Object(fields.into_iter().map(|(k, v)| (k.to_string(), v)).collect())
}

fn s(t: &str) -> Json {
    Json::Text(t.to_string())
}

fn stored(token: &str) -> StoredToken {
    StoredToken {
        token: token.to_string(),
        api_url: "https://a.com".to_string(),
        account_id: None,
        email: None,
    }
}

fn me(fields: Vec<(&str, Json)>) -> ApiResponse {
    ApiResponse::new(
        200,
        obj(vec![("data", obj(vec![("attributes", obj(fields))]))]),
        BodyKind::Json,
    )
}

#[test]
fn a_payload_is_the_middle_of_three_parts() {
    assert_eq!(decode_jwt_payload("x.eyJhIjoxfQ.y").unwrap(), b"{\"a\":1}");
    assert_eq!(decode_jwt_payload("x.eyJhIjoxfQ"), None);
    assert_eq!(decode_jwt_payload("x.eyJhIjoxfQ.y.z"), None);
    assert_eq!(decode_jwt_payload("x.eyJhIjoxfQ==.y"), None);
    assert_eq!(decode_jwt_payload("x.+/.y"), None);
    assert_eq!(decode_jwt_payload("..").unwrap(), b"");
}

#[test]
fn tokens_have_three_filled_parts() {
    assert!(token_shape_ok("a-.b_.C9"));
    for bad in ["", "a.b", "a.b.c.d", "..", "a..c", ".b.c", "a.b.", "a.b.c ", "a.b.\u{e9}"] {
        assert!(!token_shape_ok(bad), "{bad}");
    }
}

#[test]
fn short_times_are_given_in_hours_or_minutes() {
    assert_eq!(sub_day_magnitude(0), SubDayMagnitude::UnderMinute);
    assert_eq!(sub_day_magnitude(59), SubDayMagnitude::UnderMinute);
    assert_eq!(sub_day_magnitude(60), SubDayMagnitude::Minutes(1));
    assert_eq!(sub_day_magnitude(3599), SubDayMagnitude::Minutes(59));
    assert_eq!(sub_day_magnitude(3600), SubDayMagnitude::Hours(1));
    assert_eq!(sub_day_magnitude(u64::MAX), SubDayMagnitude::Hours(u64::MAX / 3600));
}

#[test]
fn times_are_given_from_now() {
    let at = |t: i64| format_timestamp(t, Some(1_000_000));
    assert_eq!(at(1_000_000 + 86400 * 3 + 5), "in 3 days");
    assert_eq!(at(1_000_000 + 7200), "in 2 hours");
    assert_eq!(at(1_000_000 + 120), "in 2 minutes");
    assert_eq!(at(1_000_000), "expires in less than a minute");
    assert_eq!(at(1_000_000 - 1), "less than a minute ago (expired)");
    assert_eq!(at(1_000_000 - 61), "1 minutes ago (expired)");
    assert_eq!(at(1_000_000 - 3600), "1 hours ago (expired)");
    assert_eq!(at(1_000_000 - 86400), "1 days ago (expired)");
    assert_eq!(at(i64::MIN), "(unknown)");
    assert_eq!(at(i64::MAX), format!("in {} days", (i64::MAX - 1_000_000) / 86400));
    assert_eq!(format_timestamp(0, None), "(unknown)");
    assert_eq!(format_timestamp(0, Some(u64::MAX)), "(unknown)");
}

#[test]
fn ids_are_numbers_or_texts() {
    assert_eq!(json_id_string(&Json::Number(JsonNumber::Unsigned(7))).unwrap(), "7");
    assert_eq!(json_id_string(&s("x")).unwrap(), "x");
    assert_eq!(json_id_string(&Json::Number(JsonNumber::Negative(-1))), None);
    assert_eq!(json_id_string(&Json::Null), None);
}

#[test]
fn a_token_of_no_shape_is_wiped() {
    let mut token = "secret".to_string();
    assert_eq!(
        check_token(&mut token).unwrap_err(),
        "That value doesn't look like a Klaay API token."
    );
    assert_eq!(token, "");
    let mut token = "a.b.c".to_string();
    assert_eq!(check_token(&mut token), Ok(()));
    assert_eq!(token, "a.b.c");
}

#[test]
fn a_login_is_stored_with_what_the_server_says() {
    let claims = obj(vec![
        ("account_id", Json::Number(JsonNumber::Unsigned(5))),
        ("exp", Json::Number(JsonNumber::Unsigned(3600))),
    ]);
    let login = |r: &ApiResponse, claims: &Json| {
        login_with_token(r, "C", claims, "a.b.c".to_string(), "https://a.com", Some(0), "klaay")
    };
    let r = me(vec![("email", s("e@x")), ("current_account_id", s("9"))]);
    let (kept, said) = login(&r, &claims).ok().unwrap();
    assert_eq!(kept.token, "a.b.c");
    assert_eq!(kept.api_url, "https://a.com");
    assert_eq!(kept.account_id.unwrap(), "9");
    assert_eq!(kept.email.unwrap(), "e@x");
    assert_eq!(said, "Logged in as e@x\nToken stored (expires in 1 hours)");
    let (kept, said) = login(&me(vec![]), &claims).ok().unwrap();
    assert_eq!(kept.account_id.unwrap(), "5");
    assert_eq!(said, "Logged in as (unknown email)\nToken stored (expires in 1 hours)");
    let (kept, said) = login(&me(vec![]), &Json::Null).ok().unwrap();
    assert!(kept.account_id.is_none());
    assert_eq!(said, "Logged in as (unknown email)");
    let r = ApiResponse::new(401, Json::Null, BodyKind::Json);
    assert_eq!(
        login(&r, &claims).err().unwrap(),
        "The token was not accepted by https://a.com (401): C"
    );
}

#[test]
fn a_piped_token_is_trimmed() {
    assert_eq!(login_with_stdin_token(" a.b.c\r\n", false), Ok("a.b.c".to_string()));
    assert_eq!(login_with_stdin_token(" a", true), Ok(" a".to_string()));
    assert_eq!(login_with_stdin_token(" \n", false).unwrap_err(), "Token cannot be empty.");
    assert_eq!(login_with_stdin_token("", true).unwrap_err(), "Token cannot be empty.");
}

#[test]
fn who_is_logged_in_is_told() {
    let mut kept = stored("a.b.c");
    let r = me(vec![]);
    assert_eq!(
        whoami(&r, "C", &kept, &Json::Null, Some(0), "klaay").unwrap(),
        "(unknown email)  account=(none)"
    );
    kept.email = Some("e@x".to_string());
    kept.account_id = Some("9".to_string());
    let claims = obj(vec![("exp", Json::Number(JsonNumber::Negative(-5)))]);
    assert_eq!(
        whoami(&r, "C", &kept, &claims, Some(0), "klaay").unwrap(),
        "e@x  account=9  expires less than a minute ago (expired)"
    );
    let r = ApiResponse::new(401, Json::Null, BodyKind::Json);
    assert_eq!(
        whoami(&r, "C", &kept, &claims, Some(0), "klaay").unwrap_err(),
        vec!["Session is no longer valid (401): C", "Run `klaay login` again."]
    );
}

#[test]
fn a_logout_says_what_it_did() {
    assert_eq!(logout(Ok(true)), Ok("Logged out (credentials removed)"));
    assert_eq!(logout(Ok(false)), Ok("Not logged in."));
    assert_eq!(
        logout(Err("x".to_string())).unwrap_err(),
        vec![
            "Warning: logout may be incomplete: x",
            "Your credentials might still be present.",
        ]
    );
}

#[test]
fn a_stored_token_must_be_there_and_sound() {
    assert_eq!(require_login(Some(stored("a.b.c"))).ok().unwrap().token, "a.b.c");
    assert_eq!(
        require_login(None).err().unwrap(),
        "Not logged in. Run `klaay login` first."
    );
    assert_eq!(
        require_login(Some(stored("a.b"))).err().unwrap(),
        "Stored token is invalid - run `klaay login` again."
    );
}

#[test]
fn a_token_that_was_not_kept_is_told_of() {
    assert_eq!(
        save_or_warn(&SaveTokenError::CorruptedFile("d".to_string())),
        vec![
            "Warning: logged in, but your existing credentials file appears corrupted, so the new token could not be stored there: d",
            "Fix or remove the file it describes by hand, then run `klaay login` again.",
        ]
    );
    assert_eq!(
        save_or_warn(&SaveTokenError::Other("d".to_string())),
        vec![
            "Warning: logged in, but the token could not be stored: d",
            "You'll need to log in again for your next command.",
        ]
    );
}
