use klaay::cache::{
    cache_entry, cached_spec, fetch_spec, SpecAction, SpecEvent, SpecPlace, SpecState, SpecStep,
    WriteFault,
};
use klaay::client::{ApiClient, HttpMethod};
use klaay::json::Json;
use klaay::response::{ApiResponse, BodyKind};
use klaay::schema::{
    describe, list_resources, print_query_surface, structured_filter_types, suggest_resources,
    tag_description,
};

fn obj(fields: Vec<(&str, Json)>) -> Json {
    Json::Object(fields.into_iter().map(|(k, v)| (k.to_string(), v)).collect())
}

fn arr(items: Vec<Json>) -> Json {
    Json::Array(items)
}

fn s(t: &str) -> Json {
    Json::Text(t.to_string())
}

fn param(name: &str, place: &str, kind: &str) -> Json {
    obj(vec![("name", s(name)), ("in", s(place)), ("schema", obj(vec![("type", s(kind))]))])
}

fn example() -> Json {
    let item = obj(vec![(
        "properties",
        obj(vec![
            ("attributes", obj(vec![("properties", obj(vec![("title", obj(vec![])), ("id", obj(vec![]))]))])),
            ("relationships", obj(vec![("properties", obj(vec![("owner", obj(vec![]))]))])),
        ]),
    )]);
    let get = obj(vec![
        ("tags", arr(vec![s("Task")])),
        ("parameters", arr(vec![param("filter[State]", "query", "array")])),
        (
            "responses",
            obj(vec![(
                "200",
                obj(vec![(
                    "content",
                    obj(vec![(
                        "application/json",
                        obj(vec![(
                            "schema",
                            obj(vec![("properties", obj(vec![("data", obj(vec![("items", item)]))]))]),
                        )]),
                    )]),
                )]),
            )]),
        ),
    ]);
    obj(vec![
        (
            "tags",
            arr(vec![
                obj(vec![("name", s("Other")), ("description", s("no"))]),
                obj(vec![
                    ("name", s("Task")),
                    ("description", s("# Tasks\nThings to do.\n\n| Filters |\n| --- |\n| search |\n")),
                ]),
            ]),
        ),
        (
            "paths",
            obj(vec![
                ("/zebras", obj(vec![("post", obj(vec![]))])),
                ("/tasks/{id}", obj(vec![("get", obj(vec![]))])),
                ("/tasks", obj(vec![("get", get), ("post", obj(vec![])), ("delete", obj(vec![]))])),
                ("/none", obj(vec![("patch", obj(vec![]))])),
            ]),
        ),
    ])
}

#[test]
fn suggest_resources_matches_singular_input_and_prefers_short_names() {
    let doc = obj(vec![(
        "paths",
        obj(vec![
            ("/selected_controls", obj(vec![])),
            ("/control_templates", obj(vec![])),
            ("/control_template_required_policy_templates", obj(vec![])),
            ("/selected_controls/{id}", obj(vec![])),
            ("/policies", obj(vec![])),
        ]),
    )]);
    let suggestions = suggest_resources(&doc, "control");
    assert_eq!(
        suggestions,
        vec![
            "control_templates".to_string(),
            "selected_controls".to_string(),
            "control_template_required_policy_templates".to_string(),
        ]
    );
    assert_eq!(suggest_resources(&doc, "zzz"), Vec::<String>::new());
}

#[test]
fn suggest_resources_does_not_flood_on_a_short_query() {
    let doc = obj(vec![(
        "paths",
        obj(vec![
            ("/selected_controls", obj(vec![])),
            ("/policies", obj(vec![])),
            ("/vendors", obj(vec![])),
        ]),
    )]);
    assert_eq!(suggest_resources(&doc, "s"), Vec::<String>::new());
    assert_eq!(suggest_resources(&doc, "e"), Vec::<String>::new());
}

#[test]
fn five_suggestions_at_most_in_a_fixed_order() {
    let doc = obj(vec![(
        "paths",
        obj(vec![
            ("/", obj(vec![])),
            ("/xab6", obj(vec![])),
            ("/ab2", obj(vec![])),
            ("/ab1", obj(vec![])),
            ("/abc5", obj(vec![])),
            ("/ab3", obj(vec![])),
            ("/ABs", obj(vec![])),
        ]),
    )]);
    assert_eq!(suggest_resources(&doc, "AB"), vec!["ABs", "ab1", "ab2", "ab3", "abc5"]);
    assert!(suggest_resources(&obj(vec![]), "ab").is_empty());
}

#[test]
fn structured_filter_types_reads_bracketed_query_params_only() {
    let op = obj(vec![(
        "parameters",
        arr(vec![
            param("Authorization", "header", "string"),
            param("filter[state_include]", "query", "array"),
            param("filter[search]", "query", "string"),
            param("sort", "query", "string"),
            param("resource_type", "path", "string"),
        ]),
    )]);
    let types = structured_filter_types(&op);
    assert_eq!(types.get("state_include"), Some(&true));
    assert_eq!(types.get("search"), Some(&false));
    assert_eq!(types.len(), 2);
    assert!(structured_filter_types(&obj(vec![])).is_empty());
}

#[test]
fn the_query_surface_merges_both_sources() {
    let op = obj(vec![(
        "parameters",
        arr(vec![param("filter[B]", "query", "array"), param("filter[c]", "query", "string")]),
    )]);
    let lines = print_query_surface(
        &op,
        &vec!["c".to_string(), "A".to_string()],
        &vec!["name".to_string(), "id".to_string()],
    );
    assert_eq!(
        lines,
        vec![
            "filters (pass with `--filter <name>=<value>`):",
            "  a",
            "  b [array; repeat --filter b=<value> for multiple values]",
            "  c [scalar]",
            "",
            "sortable fields (pass with `--sort <field>`, `-` prefix for descending):",
            "  name, id\n",
        ]
    );
    assert!(print_query_surface(&obj(vec![]), &vec![], &vec![]).is_empty());
}

#[test]
fn the_first_tag_of_a_name_describes_it() {
    let doc = example();
    assert!(tag_description(&doc, "Task").unwrap().starts_with("# Tasks"));
    assert_eq!(tag_description(&doc, "Nobody"), None);
}

#[test]
fn resources_are_listed_in_columns_and_in_order() {
    let lines = list_resources(&example()).unwrap();
    assert_eq!(
        lines,
        vec![
            format!("{:<45} {:<25} {}", "/tasks", "GET/POST/DELETE", "Things to do."),
            format!("{:<45} {:<25} {}", "/zebras", "POST", ""),
        ]
    );
    assert_eq!(list_resources(&obj(vec![])).unwrap_err(), "Spec has no paths");
}

#[test]
fn columns_grow_with_their_contents() {
    let long = format!("/{}", "é".repeat(60));
    let doc = Json::Object(vec![(
        "paths".to_string(),
        Json::Object(vec![
            (long.clone(), obj(vec![("get", obj(vec![]))])),
            ("/a".to_string(), obj(vec![("get", obj(vec![]))])),
        ]),
    )]);
    let lines = list_resources(&doc).unwrap();
    assert_eq!(lines[0], format!("{:<61} {:<25} ", "/a", "GET"));
    assert_eq!(lines[1], format!("{long} {:<25} ", "GET"));
}

#[test]
fn a_resource_is_described() {
    let lines = describe(&example(), "/tasks", "klaay").unwrap();
    assert_eq!(lines[0], "tasks\n");
    assert!(lines[1].starts_with("# tasks\n\n## What it is"));
    assert!(!lines[1].ends_with('\n'));
    assert_eq!(lines[2], "\n---\n");
    assert_eq!(
        &lines[3..],
        &[
            "## API reference (live, from GET /openapi)\n",
            "# Tasks",
            "Things to do.",
            "",
            "filters (pass with `--filter <name>=<value>`):",
            "  search",
            "  state [array; repeat --filter state=<value> for multiple values]",
            "",
            "known attributes (from a captured example response - not necessarily exhaustive, and doesn't distinguish creatable/updatable/read-only):",
            "  id, title",
            "\nrelationships seen in a captured example (pass --include <name> to fetch; target type isn't always captured in the spec, so treat this as a starting point, not exhaustive):",
            "  owner",
        ]
    );
}

#[test]
fn what_is_missing_in_a_description_is_said() {
    let item = |v: Json| {
        obj(vec![(
            "get",
            obj(vec![(
                "responses",
                obj(vec![(
                    "200",
                    obj(vec![(
                        "content",
                        obj(vec![(
                            "application/json",
                            obj(vec![("schema", obj(vec![("properties", obj(vec![("data", v)]))]))]),
                        )]),
                    )]),
                )]),
            )]),
        )])
    };
    let doc = obj(vec![(
        "paths",
        obj(vec![
            ("/r", item(obj(vec![("oneOf", arr(vec![]))]))),
            (
                "/e",
                item(obj(vec![(
                    "properties",
                    obj(vec![("relationships", obj(vec![("properties", obj(vec![]))]))]),
                )])),
            ),
        ]),
    )]);
    let lines = describe(&doc, "r", "klaay").unwrap();
    assert_eq!(lines[2], "(no tag description available)\n");
    assert!(lines[3].starts_with("note: this resource's schema uses $ref/allOf/anyOf/oneOf"));
    assert_eq!(
        lines[4],
        "\nno relationships captured in the spec's example for this resource - it may still have some; try `klaay get r <id> --include <name>` with a guessed name, or check app/resources/r_resource.rb in the Kiln source if you have it."
    );
    let lines = describe(&doc, "e", "klaay").unwrap();
    assert_eq!(
        lines[3],
        "\nthe spec's captured example explicitly lists no relationships for this resource."
    );
}

#[test]
fn resources_that_cannot_be_described_say_why() {
    let doc = example();
    assert_eq!(
        describe(&doc, "//", "klaay").unwrap_err(),
        "Resource name must not be empty. Run `klaay resources` to see what's available."
    );
    assert_eq!(
        describe(&doc, "a/\"b", "klaay").unwrap_err(),
        "\"a/\\\"b\" looks like a path with multiple segments; `describe` expects a single resource name (e.g. `selected_controls`). Run `klaay resources` to see what's available."
    );
    assert_eq!(
        describe(&doc, "task", "klaay").unwrap_err(),
        "No resource found at path /task. Did you mean: tasks? Run `klaay resources` to see everything available."
    );
    assert_eq!(
        describe(&doc, "qqq", "klaay").unwrap_err(),
        "No resource found at path /qqq. Run `klaay resources` to see everything available."
    );
    assert_eq!(
        describe(&doc, "zebras", "klaay").unwrap(),
        vec!["/zebras: no GET operation (write-only or action route)"]
    );
}

fn client() -> ApiClient {
    ApiClient::new("https://a.com/".to_string(), Some("t.o.k".to_string()), "klaay").ok().unwrap()
}

fn fetch_on(refresh: bool, state: SpecState, event: SpecEvent) -> SpecStep {
    let place =
        SpecPlace { dir: "/d".to_string(), path: "/p".to_string(), temp: "/t".to_string() };
    fetch_spec(&client(), refresh, "klaay", &place, state, event)
}

fn is_done(step: &SpecStep, doc: &str) -> bool {
    matches!(&step.action, SpecAction::Done(d) if d.as_str() == Some(doc))
}

#[test]
fn what_was_cached_is_read_back_for_its_server_only() {
    let entry = cache_entry("https://a.com", s("doc"));
    let back = cached_spec(&entry, "https://a.com").unwrap();
    assert_eq!(back.as_str(), Some("doc"));
    assert!(cached_spec(&entry, "https://b.com").is_none());
    assert!(cached_spec(&obj(vec![("spec", s("doc"))]), "https://a.com").is_none());
    assert!(cached_spec(&obj(vec![("api_url", s("https://a.com"))]), "https://a.com").is_none());
    let read = |refresh: bool, c: Option<Json>| {
        fetch_on(refresh, SpecState::Reading, SpecEvent::Cached(c))
    };
    assert!(is_done(&read(false, Some(entry.copy())), "doc"));
    for step in [
        read(true, Some(entry)),
        read(false, None),
        read(false, Some(cache_entry("https://b.com", s("doc")))),
    ] {
        let SpecAction::Send(request) = step.action else { panic!("expected a request") };
        assert_eq!(request.method, HttpMethod::Get);
        assert_eq!(request.url, "https://a.com/openapi");
        assert_eq!(request.headers.len(), 1);
        assert!(matches!(step.state, SpecState::Asking));
    }
}

#[test]
fn a_refused_description_is_reported() {
    let r = ApiResponse::new(500, s("x"), BodyKind::Json);
    let step = fetch_on(false, SpecState::Asking, SpecEvent::Answer(r, "\"x\"".to_string()));
    assert!(matches!(
        step.action,
        SpecAction::Fail(e) if e == "Could not fetch /openapi (500): \"x\""
    ));
}

#[test]
fn a_fresh_description_is_written_and_used() {
    let r = ApiResponse::new(200, s("doc"), BodyKind::Json);
    let step = fetch_on(false, SpecState::Asking, SpecEvent::Answer(r, String::new()));
    assert!(matches!(step.action, SpecAction::MakeDirectory));
    let step = fetch_on(false, step.state, SpecEvent::DirectoryMade(None));
    assert!(matches!(step.action, SpecAction::RestrictDirectory));
    let step = fetch_on(false, step.state, SpecEvent::Restricted(Some("e".to_string())));
    assert_eq!(
        step.warning.unwrap(),
        "Warning: could not tighten permissions on cache directory /d: e"
    );
    let SpecAction::Write(entry) = step.action else { panic!("expected a write") };
    assert_eq!(entry.get("api_url").unwrap().as_str(), Some("https://a.com"));
    assert_eq!(entry.get("spec").unwrap().as_str(), Some("doc"));
    let step = fetch_on(false, step.state, SpecEvent::Written(None));
    assert!(matches!(step.action, SpecAction::Rename));
    let step = fetch_on(false, step.state, SpecEvent::Renamed(None));
    assert!(is_done(&step, "doc"));
    assert!(is_done(
        &fetch_on(false, SpecState::Reading, SpecEvent::Cached(Some(entry))),
        "doc"
    ));
}

#[test]
fn a_description_that_cannot_be_written_is_used_all_the_same() {
    let e = || Some("e".to_string());
    let step = fetch_on(false, SpecState::Directory(s("doc")), SpecEvent::NoPlace);
    assert!(is_done(&step, "doc"));
    let step = fetch_on(false, SpecState::Directory(s("doc")), SpecEvent::DirectoryMade(e()));
    assert!(is_done(&step, "doc"));
    assert_eq!(step.warning.unwrap(), "Warning: could not create cache directory /d: e");
    let written = |taken: bool| {
        fetch_on(
            false,
            SpecState::Writing(s("doc")),
            SpecEvent::Written(Some(WriteFault { error: "e".to_string(), taken })),
        )
    };
    let step = written(true);
    assert!(is_done(&step, "doc"));
    assert_eq!(step.warning.unwrap(), "Warning: could not write spec cache to /t: e");
    let step = written(false);
    assert!(matches!(step.action, SpecAction::RemoveTemp));
    assert!(is_done(&fetch_on(false, step.state, SpecEvent::Removed), "doc"));
    let step = fetch_on(false, SpecState::Renaming(s("doc")), SpecEvent::Renamed(e()));
    assert!(matches!(step.action, SpecAction::RemoveTemp));
    assert_eq!(step.warning.unwrap(), "Warning: could not replace spec cache at /p: e");
}
