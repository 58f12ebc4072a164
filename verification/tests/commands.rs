use klaay::client::HttpMethod;
use klaay::commands::{
    api_url_help, login_mode, merge_relationships, parse_fields_arg, parse_file_flags,
    parse_filter_flags, parse_json_arg, prepare_call, prepare_create, prepare_update,
    print_deleted, require_data_is_object, require_relationships_is_object_or_absent, set_type,
    warn_if_orphaned_upload, web_url_help, LoginMode,
};
use klaay::format::json_type_name;
use klaay::json::{find_field, put_field, Json, JsonNumber};
use klaay::response::{ApiResponse, BodyKind};

fn fields(f: Vec<(&str, Json)>) -> Vec<(String, Json)> {
    f.into_iter().map(|(k, v)| (k.to_string(), v)).collect()
}

fn obj(f: Vec<(&str, Json)>) -> Json {
    Json::Object(fields(f))
}

fn s(t: &str) -> Json {
    Json::Text(t.to_string())
}

fn n(n: u64) -> Json {
    Json::Number(JsonNumber::Unsigned(n))
}

fn texts(t: &[&str]) -> Vec<String> {
    t.iter().map(|x| x.to_string()).collect()
}

fn text_at(f: &Vec<(String, Json)>, key: &str) -> String {
    find_field(f, key).unwrap().as_str().unwrap().to_string()
}

#[test]
fn help_names_the_defaults() {
    assert_eq!(
        api_url_help(),
        "Override the API base URL (defaults to https://api.klaay.com, or the KLAAY_API_URL env var if set)."
    );
    assert_eq!(
        web_url_help(),
        "Override the web app URL the browser sign-in opens (defaults to https://app.klaay.com, or the KLAAY_WEB_URL env var if set)."
    );
}

#[test]
fn flags_pick_the_way_to_sign_in() {
    assert_eq!(login_mode(false, false), LoginMode::Browser);
    assert_eq!(login_mode(true, false), LoginMode::Device);
    assert_eq!(login_mode(false, true), LoginMode::WithToken);
}

#[test]
fn json_types_have_names() {
    let all = [
        (Json::Null, "null"),
        (Json::Bool(true), "boolean"),
        (n(1), "number"),
        (s(""), "string"),
        (Json::Array(vec![]), "array"),
        (obj(vec![]), "object"),
    ];
    for (v, name) in all {
        assert_eq!(json_type_name(&v), name);
    }
}

#[test]
fn data_must_be_a_json_object() {
    assert_eq!(parse_json_arg(Ok(s("x")), "--data").ok().unwrap().as_str(), Some("x"));
    assert_eq!(
        parse_json_arg(Err("e".to_string()), "--data").err().unwrap(),
        "--data is not valid JSON: e"
    );
    assert_eq!(require_data_is_object(&obj(vec![])), Ok(()));
    assert_eq!(
        require_data_is_object(&Json::Array(vec![])).unwrap_err(),
        "--data must be a JSON object (got a array)"
    );
}

#[test]
fn filters_are_keys_and_values() {
    assert_eq!(
        parse_filter_flags(&texts(&["a=b=c", "d="])).unwrap(),
        vec![("a".to_string(), "b=c".to_string()), ("d".to_string(), String::new())]
    );
    assert_eq!(
        parse_filter_flags(&texts(&["ok=1", "nope"])).unwrap_err(),
        "Invalid --filter value (expected key=value): nope"
    );
    assert_eq!(
        parse_filter_flags(&texts(&["=x"])).unwrap_err(),
        "Invalid --filter value (key must not be empty): =x"
    );
    assert!(parse_filter_flags(&[]).unwrap().is_empty());
}

#[test]
fn files_are_relationships_and_paths() {
    assert_eq!(
        parse_file_flags(&texts(&["files=./a"])).unwrap(),
        vec![("files".to_string(), "./a".to_string())]
    );
    assert_eq!(
        parse_file_flags(&texts(&["files="])).unwrap_err(),
        "Invalid --file value (value must not be empty): files="
    );
    assert_eq!(
        parse_file_flags(&texts(&["a=", "nope"])).unwrap_err(),
        "Invalid --file value (expected key=value): nope"
    );
}

#[test]
fn fields_have_a_type_and_names() {
    assert_eq!(parse_fields_arg(None), Ok(None));
    assert_eq!(
        parse_fields_arg(Some("t:a,b:c")),
        Ok(Some(("t".to_string(), "a,b:c".to_string())))
    );
    for bad in ["t", ":a", "t:", ""] {
        assert_eq!(
            parse_fields_arg(Some(bad)).unwrap_err(),
            format!("Invalid --fields value (expected type:field1,field2): {bad}")
        );
    }
}

#[test]
fn the_type_is_set_unless_another_stands_there() {
    let mut f = fields(vec![("a", n(1))]);
    assert_eq!(set_type(&mut f, "tasks"), Ok(()));
    assert_eq!(text_at(&f, "type"), "tasks");
    assert_eq!(set_type(&mut f, "tasks"), Ok(()));
    assert_eq!(
        set_type(&mut f, "users").unwrap_err(),
        vec![
            "Error: --data specified type \"tasks\", which conflicts with resource \"users\".",
            "Remove the \"type\" key from --data, or make it match \"users\".",
        ]
    );
    assert_eq!(
        set_type(&mut fields(vec![("type", Json::Null)]), "users").unwrap_err(),
        vec!["Error: --data 'type' was not a string (got a null) - cannot set resource type."]
    );
}

const NOTE: &str = "Note: the file upload(s) above already completed before this failure - the uploaded blob(s) exist in ActiveStorage but aren't attached to anything.";

#[test]
fn relationships_are_merged_and_none_is_lost() {
    let mut f = fields(vec![("relationships", obj(vec![("b", n(1))]))]);
    assert_eq!(merge_relationships(&mut f, obj(vec![("a", n(2))])), Ok(()));
    let merged = find_field(&f, "relationships").unwrap();
    assert_eq!(merged.get("a").unwrap().as_u64(), Some(2));
    assert_eq!(merged.get("b").unwrap().as_u64(), Some(1));
    assert_eq!(
        merge_relationships(&mut f, obj(vec![("b", n(3))])).unwrap_err(),
        vec![
            "Error: --data 'relationships' already specifies \"b\", which conflicts with --file b=<path>.",
            "Remove one of them - both can't apply to the same relationship.",
            NOTE,
        ]
    );
    let mut f = fields(vec![]);
    assert_eq!(merge_relationships(&mut f, obj(vec![("a", n(2))])), Ok(()));
    assert!(find_field(&f, "relationships").unwrap().get("a").is_some());
    assert_eq!(
        merge_relationships(&mut f, s("x")).unwrap_err(),
        vec![
            "Internal error: uploaded relationships were not a JSON object (got a string) - file relationship(s) were not attached.",
            NOTE,
        ]
    );
    let mut f = fields(vec![("relationships", n(1))]);
    assert_eq!(
        merge_relationships(&mut f, obj(vec![])).unwrap_err(),
        vec![
            "Error: --data 'relationships' was not a JSON object (got a number) - cannot merge uploaded file relationships.",
            "Fix the --data 'relationships' field to be a JSON object, or omit it and let --file build it.",
            NOTE,
        ]
    );
    assert_eq!(require_relationships_is_object_or_absent(&f).unwrap_err().len(), 2);
    assert_eq!(require_relationships_is_object_or_absent(&fields(vec![])), Ok(()));
}

#[test]
fn a_new_resource_has_its_type() {
    let f = prepare_create("tasks", None).ok().unwrap();
    assert_eq!(f.len(), 1);
    assert_eq!(text_at(&f, "type"), "tasks");
    let f = prepare_create("tasks", Some(Ok(obj(vec![("attributes", n(1))])))).ok().unwrap();
    assert!(find_field(&f, "attributes").is_some());
    let err = |r: &str, d: Result<Json, String>| prepare_create(r, Some(d)).err().unwrap();
    assert!(err("a b", Ok(obj(vec![])))[0].starts_with("Error: invalid resource"));
    assert_eq!(err("a", Err("e".to_string())), vec!["--data is not valid JSON: e"]);
    assert_eq!(err("a", Ok(n(1))), vec!["--data must be a JSON object (got a number)"]);
    assert_eq!(err("a", Ok(obj(vec![("relationships", Json::Null)]))).len(), 2);
}

#[test]
fn a_change_has_type_and_id() {
    let (f, w) = prepare_update("tasks", "7", None).ok().unwrap();
    assert_eq!(text_at(&f, "id"), "7");
    assert_eq!(text_at(&f, "type"), "tasks");
    assert!(w.is_none());
    let with_id = |v: Json| prepare_update("tasks", "7", Some(Ok(obj(vec![("id", v)]))));
    let (f, w) = with_id(Json::Null).ok().unwrap();
    assert_eq!(text_at(&f, "id"), "7");
    assert_eq!(
        w.unwrap(),
        "Warning: --data 'id' is null - using the command-line id \"7\" instead."
    );
    assert!(with_id(s("7")).is_ok());
    assert_eq!(
        with_id(s("8\"")).err().unwrap(),
        vec![
            "Error: --data specified id \"8\\\"\", which conflicts with the command-line id \"7\".",
            "Remove the \"id\" key from --data, or make it match \"7\".",
        ]
    );
    assert_eq!(
        with_id(n(7)).err().unwrap(),
        vec!["Error: --data 'id' was not a string (got a number) - JSON:API resource ids must be strings."]
    );
    assert!(prepare_update("tasks", "", None).is_err());
}

#[test]
fn a_call_without_a_body_takes_no_data() {
    assert!(matches!(prepare_call(HttpMethod::Get, None), Ok(None)));
    assert_eq!(
        prepare_call(HttpMethod::Delete, Some(Ok(obj(vec![])))).err().unwrap(),
        "Error: --data is not sent for DELETE requests (it has no request body)."
    );
    assert_eq!(
        prepare_call(HttpMethod::Get, Some(Err("e".to_string()))).err().unwrap(),
        "--data is not valid JSON: e"
    );
    assert_eq!(
        prepare_call(HttpMethod::Put, Some(Ok(s("x")))).err().unwrap(),
        "--data must be a JSON object (got a string)"
    );
    assert!(matches!(prepare_call(HttpMethod::Patch, Some(Ok(obj(vec![])))), Ok(Some(_))));
}

#[test]
fn lost_uploads_are_told_of() {
    let ok = ApiResponse::new(200, Json::Null, BodyKind::Json);
    let bad = ApiResponse::new(422, Json::Null, BodyKind::Json);
    assert_eq!(warn_if_orphaned_upload(&ok, true), None);
    assert_eq!(warn_if_orphaned_upload(&bad, false), None);
    assert_eq!(warn_if_orphaned_upload(&bad, true).unwrap(), NOTE);
}

#[test]
fn a_deletion_is_confirmed() {
    let ok = ApiResponse::new(204, Json::Null, BodyKind::Empty);
    assert_eq!(print_deleted(&ok, "tasks", "7", "klaay", ""), Ok("Deleted tasks/7".to_string()));
    let bad = ApiResponse::new(404, Json::Null, BodyKind::Json);
    assert_eq!(
        print_deleted(&bad, "tasks", "7", "klaay", "C").unwrap_err(),
        "Error 404: C"
    );
}

#[test]
fn a_field_that_was_put_is_found() {
    let mut f = fields(vec![("b", n(1)), ("d", n(2))]);
    put_field(&mut f, "c", n(3));
    put_field(&mut f, "d", n(4));
    assert_eq!(find_field(&f, "c").unwrap().as_u64(), Some(3));
    assert_eq!(find_field(&f, "d").unwrap().as_u64(), Some(4));
    assert_eq!(find_field(&f, "b").unwrap().as_u64(), Some(1));
    assert!(find_field(&f, "a").is_none());
}

#[test]
fn numbers_are_read_by_sign() {
    let unsigned = |n: u64| Json::Number(JsonNumber::Unsigned(n));
    let negative = |n: i64| Json::Number(JsonNumber::Negative(n));
    assert_eq!(unsigned(u64::MAX).as_u64(), Some(u64::MAX));
    assert_eq!(unsigned(u64::MAX).as_i64(), None);
    assert_eq!(unsigned(5).as_i64(), Some(5));
    assert_eq!(negative(-5).as_i64(), Some(-5));
    assert_eq!(negative(-5).as_u64(), None);
    assert_eq!(Json::Number(JsonNumber::Other("1.5".to_string())).as_u64(), None);
}
