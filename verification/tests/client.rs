use klaay::client::{
    check_origin, ApiClient, ApiRequest, HttpMethod, ListParams, OriginCheck, RequestBody,
};
use klaay::json::{Json, JsonNumber};
use klaay::response::{
    print_list_response, print_response, send, ApiResponse, BodyKind, Rendered,
};

fn obj(fields: Vec<(&str, Json)>) -> Json {
    Json::Object(fields.into_iter().map(|(k, v)| (k.to_string(), v)).collect())
}

fn s(t: &str) -> Json {
    Json::Text(t.to_string())
}

fn client() -> ApiClient {
    ApiClient::new("https://api.x.com//".to_string(), Some("to-k_e.n".to_string()), "klaay")
        .ok()
        .unwrap()
}

fn pairs(p: &[(&str, &str)]) -> Vec<(String, String)> {
    p.iter().map(|(a, b)| (a.to_string(), b.to_string())).collect()
}

fn no_params() -> ListParams {
    ListParams {
        filters: vec![],
        sort: None,
        related: None,
        fields: None,
        page_number: None,
        page_size: None,
    }
}

fn error<T>(r: Result<T, String>) -> String {
    match r {
        Ok(_) => panic!("expected an error"),
        Err(e) => e,
    }
}

fn rendered() -> Rendered {
    Rendered { compact: "COMPACT".to_string(), pretty: "PRETTY".to_string() }
}

fn has_auth(request: &ApiRequest) -> bool {
    request.headers.contains(&("Authorization".to_string(), "Bearer to-k_e.n".to_string()))
}

#[test]
fn methods_are_spelled_in_capitals() {
    let all = [
        (HttpMethod::Get, "GET", false),
        (HttpMethod::Post, "POST", true),
        (HttpMethod::Patch, "PATCH", true),
        (HttpMethod::Put, "PUT", true),
        (HttpMethod::Delete, "DELETE", false),
    ];
    for (m, text, body) in all {
        assert_eq!(m.as_str(), text);
        assert_eq!(m.has_body(), body);
    }
}

#[test]
fn bad_tokens_make_no_client() {
    let new = |t: &str| error(ApiClient::new(String::new(), Some(t.to_string()), "klaay"));
    assert_eq!(new(""), "Stored token is empty - run `klaay login` again.");
    assert_eq!(new("a b"), "Stored token contains invalid characters - run `klaay login` again.");
    assert_eq!(new("é"), "Stored token contains invalid characters - run `klaay login` again.");
}

#[test]
fn the_base_url_loses_its_slashes() {
    assert_eq!(client().base_url_trimmed(), "https://api.x.com");
}

#[test]
fn path_segments_hold_letters_digits_hyphens_and_underscores() {
    assert_eq!(ApiClient::validate_path_segment("aZ09-_", "id"), Ok(()));
    assert_eq!(
        ApiClient::validate_path_segment("", "id").unwrap_err(),
        "Error: id must not be empty."
    );
    assert_eq!(
        ApiClient::validate_path_segment("a/\"b\n", "id").unwrap_err(),
        "Error: invalid id \"a/\\\"b\\n\" - must contain only ASCII alphanumerics, hyphens, and underscores."
    );
}

#[test]
fn a_list_request_carries_its_query_in_order() {
    let params = ListParams {
        filters: pairs(&[("state", "a"), ("q", ""), ("state", "b")]),
        sort: Some("-name".to_string()),
        related: Some("owners.x,y".to_string()),
        fields: Some(("tasks".to_string(), "a,b!".to_string())),
        page_number: Some(2),
        page_size: Some(4294967295),
    };
    let request = client().list("tasks", &params).ok().unwrap();
    assert_eq!(request.method, HttpMethod::Get);
    assert_eq!(request.url, "https://api.x.com/tasks");
    assert_eq!(
        request.query,
        pairs(&[
            ("filter[state][]", "a"),
            ("filter[q]", ""),
            ("filter[state][]", "b"),
            ("sort", "-name"),
            ("include", "owners.x,y"),
            ("fields[tasks]", "a,b!"),
            ("page[number]", "2"),
            ("page[size]", "4294967295"),
        ])
    );
    assert_eq!(request.headers, pairs(&[("Authorization", "Bearer to-k_e.n")]));
    assert!(matches!(request.body, RequestBody::Absent));
    assert!(request.follow_redirects);
}

#[test]
fn bad_list_arguments_are_refused() {
    let c = client();
    let list = |r: &str, p: ListParams| error(c.list(r, &p));
    assert!(list("a/b", no_params()).starts_with("Error: invalid resource \"a/b\""));
    assert!(list("a", ListParams { filters: pairs(&[("x[", "")]), ..no_params() })
        .starts_with("Error: invalid filter key \"x[\""));
    assert_eq!(
        list("a", ListParams { sort: Some("a b".to_string()), ..no_params() }),
        "Error: invalid sort \"a b\" - must contain only ASCII alphanumerics, hyphens, underscores, dots, and commas."
    );
    assert_eq!(
        list("a", ListParams { related: Some(String::new()), ..no_params() }),
        "Error: include must not be empty."
    );
    assert_eq!(
        list(
            "a",
            ListParams { fields: Some((String::new(), "x".to_string())), ..no_params() }
        ),
        "Error: fields type must not be empty."
    );
}

#[test]
fn one_resource_is_asked_for_by_id() {
    let request = client()
        .get_one(
            "tasks",
            "7",
            &Some("owner".to_string()),
            &Some(("tasks".to_string(), "a".to_string())),
        )
        .ok()
        .unwrap();
    assert_eq!(request.url, "https://api.x.com/tasks/7");
    assert_eq!(request.query, pairs(&[("include", "owner"), ("fields[tasks]", "a")]));
    assert!(error(client().get_one("tasks", "..", &None, &None)).starts_with("Error: invalid id"));
}

#[test]
fn writes_are_wrapped_in_data() {
    let request = client().create("tasks", s("x")).ok().unwrap();
    assert_eq!(request.method, HttpMethod::Post);
    assert_eq!(request.url, "https://api.x.com/tasks");
    assert_eq!(
        request.headers,
        pairs(&[
            ("Authorization", "Bearer to-k_e.n"),
            ("Content-Type", "application/vnd.api+json"),
        ])
    );
    let RequestBody::Json(body) = request.body else { panic!("expected JSON") };
    assert_eq!(body.get("data").unwrap().as_str(), Some("x"));
    let request = client().update("tasks", "7", Json::Null).ok().unwrap();
    assert_eq!(request.method, HttpMethod::Patch);
    assert_eq!(request.url, "https://api.x.com/tasks/7");
    let request = client().delete_one("tasks", "7").ok().unwrap();
    assert_eq!(request.method, HttpMethod::Delete);
    assert!(matches!(request.body, RequestBody::Absent));
    assert_eq!(request.headers[1].1, "application/vnd.api+json");
    assert!(client().create("", Json::Null).is_err());
    assert!(client().update("a", "", Json::Null).is_err());
    assert!(client().delete_one("a", "b c").is_err());
}

#[test]
fn a_call_goes_to_the_path_as_it_is() {
    let (request, note) = client().call(HttpMethod::Get, "me", None);
    assert_eq!(request.url, "https://api.x.com/me");
    assert!(note.is_none());
    assert!(has_auth(&request));
    let (request, note) = client().call(HttpMethod::Post, "/a?b", None);
    assert_eq!(request.url, "https://api.x.com/a?b");
    assert_eq!(
        note.unwrap(),
        "Note: /a?b contains \"?\" or \"#\" - it will be forwarded verbatim as part of the URL."
    );
    assert!(matches!(request.body, RequestBody::Empty));
    assert_eq!(request.headers.len(), 1);
    let (request, _) = client().call(HttpMethod::Put, "/a", Some(s("v")));
    assert!(matches!(request.body, RequestBody::Json(Json::Text(t)) if t == "v"));
    assert_eq!(request.headers[1].0, "Content-Type");
    let (request, _) = client().call(HttpMethod::Delete, "/a", None);
    assert_eq!(request.headers[1].1, "application/vnd.api+json");
    assert!(matches!(request.body, RequestBody::Absent));
}

#[test]
fn the_token_goes_to_its_own_server_only() {
    let post = |url: &str| {
        client()
            .raw_post(url, &pairs(&[("X", "1")]), RequestBody::Empty)
            .map(|(r, w)| (has_auth(&r), r.follow_redirects, r.headers.len(), w))
    };
    assert_eq!(post("https://API.x.com:443/y"), Ok((true, false, 2, None)));
    let (auth, _, count, warning) = post("https://api.x.com.evil.com/y").unwrap();
    assert!(!auth);
    assert_eq!(count, 1);
    assert_eq!(
        warning.unwrap(),
        "Warning: could not confirm https://api.x.com.evil.com/y is the same server as https://api.x.com - sending this request without the Authorization header (a 401 response likely follows)."
    );
    assert!(!post("http://api.x.com/y").unwrap().0);
    assert!(!post("https://api.x.com:444/y").unwrap().0);
    assert_eq!(
        post("https://").unwrap_err(),
        "Error: could not parse https:// or https://api.x.com to check same-origin - refusing to send this request."
    );
    assert_eq!(
        post("file:///x").unwrap_err(),
        "Error: raw_post URL must use http or https scheme: file:///x"
    );
}

#[test]
fn origins_are_scheme_host_and_port() {
    assert_eq!(check_origin("http://a.com", "http://A.com:80/x"), OriginCheck::Same);
    assert_eq!(check_origin("http://a.com", "http://b.com"), OriginCheck::Different);
    assert_eq!(check_origin("odd://a", "odd://a"), OriginCheck::ParseError);
    assert_eq!(check_origin("odd://a:1", "odd://a:1"), OriginCheck::Same);
    assert_eq!(check_origin("", "http://a.com"), OriginCheck::ParseError);
    assert_eq!(check_origin("http://127.1", "http://127.0.0.1"), OriginCheck::Same);
    assert_eq!(check_origin("http://[::1]", "http://[0::1]"), OriginCheck::Same);
}

#[test]
fn a_put_carries_no_token() {
    let request =
        ApiClient::raw_put("https://api.x.com/x", &pairs(&[("A", "b")]), vec![1, 2]).ok().unwrap();
    assert_eq!(request.headers, pairs(&[("A", "b")]));
    assert!(!request.follow_redirects);
    assert!(matches!(request.body, RequestBody::Bytes(b) if b == vec![1, 2]));
    assert_eq!(
        error(ApiClient::raw_put("HTTPS://x", &[], vec![])),
        "Error: raw_put URL must use http or https scheme: HTTPS://x"
    );
}

#[test]
fn answers_are_told_apart() {
    let (r, w) = send(200, None, "{}", Ok(obj(vec![])));
    assert!(r.is_success());
    assert!(r.body().is_some());
    assert!(w.is_none());
    let (r, w) = send(204, None, " \n\u{2003}", Err("x".to_string()));
    assert!(r.is_success());
    assert!(r.body().is_none());
    assert!(r.raw_body().is_null());
    assert_eq!(r.error_detail("klaay", ""), "(no response body)");
    assert!(w.is_none());
    let (r, w) = send(200, Some("text/html"), "<p>", Err("bad".to_string()));
    assert!(!r.is_success());
    assert_eq!(
        r.error_detail("klaay", ""),
        "(response body was not valid JSON - see warning above)"
    );
    assert_eq!(w.unwrap(), "Warning: response body was not valid JSON (bad): <p>");
    let (r, _) = send(404, Some(" Text/HTML ; charset=utf-8"), "<p>", Err("bad".to_string()));
    assert_eq!(
        r.error_detail("klaay", ""),
        "This path returned an HTML 404, not a JSON:API response. If you were addressing a resource, its name may be wrong - run `klaay resources` to see valid ones. Otherwise an upstream proxy or CDN likely returned an HTML page (its body is previewed on stderr)."
    );
    let (r, _) = send(404, Some("text/html"), "1", Ok(s("x")));
    assert_eq!(r.error_detail("klaay", "\"x\""), "\"x\"");
    let (r, _) = send(404, Some("text/plain"), "<p>", Err("bad".to_string()));
    assert!(r.error_detail("klaay", "").starts_with("(response body"));
}

#[test]
fn previews_are_cut_off() {
    let exact = "é".repeat(200);
    let (_, w) = send(500, None, &exact, Err("e".to_string()));
    assert_eq!(w.unwrap(), format!("Warning: response body was not valid JSON (e): {exact}"));
    let (_, w) = send(500, None, &format!("{exact}x"), Err("e".to_string()));
    assert_eq!(w.unwrap(), format!("Warning: response body was not valid JSON (e): {exact}..."));
}

#[test]
fn success_is_a_status_in_the_two_hundreds() {
    for status in [199u16, 200, 204, 299, 300, 404] {
        let r = ApiResponse::new(status, Json::Null, BodyKind::Json);
        assert_eq!(r.is_success(), (200..300).contains(&status));
        assert_eq!(r.status(), status);
    }
    assert!(ApiResponse::new(200, s("x"), BodyKind::ParseFailed).body().is_none());
    assert_eq!(
        ApiResponse::new(200, s("x"), BodyKind::Json).into_raw_body().as_str(),
        Some("x")
    );
}

#[test]
fn a_list_is_printed_with_its_count() {
    let body = |total: Json| {
        obj(vec![
            ("data", Json::Array(vec![Json::Null, Json::Null])),
            ("meta", obj(vec![("total", total)])),
        ])
    };
    let n = |n: u64| Json::Number(JsonNumber::Unsigned(n));
    let print = |status: u16, b: Json, k: BodyKind| {
        print_list_response(&ApiResponse::new(status, b, k), "klaay", &rendered())
    };
    assert_eq!(print(200, body(n(9)), BodyKind::Json).unwrap(), vec!["PRETTY", "showing 2 of 9"]);
    assert_eq!(print(200, body(s("9")), BodyKind::Json).unwrap(), vec!["PRETTY"]);
    assert_eq!(
        print(200, obj(vec![("meta", obj(vec![("total", n(3))]))]), BodyKind::Json).unwrap(),
        vec!["PRETTY", "showing 0 of 3"]
    );
    assert_eq!(print(500, Json::Null, BodyKind::Json).unwrap_err(), "Error 500: COMPACT");
    assert_eq!(
        print(204, Json::Null, BodyKind::Empty).unwrap_err(),
        "Error 204: list response had no body (expected a JSON:API collection)."
    );
}

#[test]
fn an_answer_is_printed_where_it_has_a_body() {
    let print = |status: u16, k: BodyKind| {
        print_response(&ApiResponse::new(status, Json::Null, k), "klaay", &rendered())
    };
    assert_eq!(print(200, BodyKind::Json), Ok(Some("PRETTY".to_string())));
    assert_eq!(print(204, BodyKind::Empty), Ok(None));
    assert_eq!(print(404, BodyKind::Empty).unwrap_err(), "Error 404: (no response body)");
}
