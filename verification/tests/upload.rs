use klaay::address::{
    parse_ipv4, private_network_rejection_reason_for_parsed_url, Host, ParsedUrl,
};
use klaay::client::{ApiClient, HttpMethod, RequestBody};
use klaay::direct_upload::{FileProblem, Upload, UploadAction, UploadEvent, UploadState};
use klaay::json::{Json, JsonNumber};
use klaay::response::{ApiResponse, BodyKind};
use klaay::upload::{
    check_file, content_type_for, extension_of, fail, finish_upload, prepare_upload, ticket_for,
    upload_ticket, warn_about_orphaned_prior_uploads, BatchNext, NamedFile, UploadBatch,
    MAX_UPLOAD_BYTES,
};

fn obj(fields: Vec<(&str, Json)>) -> Json {
    Json::Object(fields.into_iter().map(|(k, v)| (k.to_string(), v)).collect())
}

fn s(t: &str) -> Json {
    Json::Text(t.to_string())
}

fn parsed(url: &str) -> ParsedUrl {
    let u = url::Url::parse(url).expect("test URL literal should always parse");
    ParsedUrl {
        scheme: u.scheme().to_string(),
        host: match u.host() {
            Some(url::Host::Domain(d)) => Some(Host::Domain(d.to_string())),
            Some(url::Host::Ipv4(a)) => Some(Host::Ipv4(u32::from(a))),
            Some(url::Host::Ipv6(a)) => Some(Host::Ipv6(u128::from(a))),
            None => None,
        },
        port: u.port_or_known_default(),
    }
}

fn named(path: &str, name: &str) -> NamedFile {
    NamedFile {
        path: path.to_string(),
        name: Some(name.to_string()),
        name_is_unicode: true,
        extension_is_unicode: true,
    }
}

fn reason(url: &str) -> Option<&'static str> {
    private_network_rejection_reason_for_parsed_url(&parsed(url))
}

#[test]
fn content_type_for_recognizes_known_extensions() {
    assert_eq!(content_type_for("photo.png"), Some("image/png"));
    assert_eq!(content_type_for("report.PDF"), Some("application/pdf"));
    assert_eq!(content_type_for("data.XLS"), Some("application/vnd.ms-excel"));
}

#[test]
fn content_type_for_returns_none_for_unrecognized_extension() {
    assert_eq!(content_type_for("file.xyz"), None);
}

#[test]
fn content_type_for_returns_none_for_no_extension() {
    assert_eq!(content_type_for("Makefile"), None);
}

#[test]
fn content_type_for_returns_none_for_dotfile_with_no_inner_dot() {
    assert_eq!(content_type_for(".env"), None);
}

#[test]
fn content_type_for_treats_dotfile_with_inner_dot_as_an_extension() {
    assert_eq!(content_type_for(".env.bak"), None);
}

#[test]
fn every_listed_extension_has_its_type() {
    let table = [
        ("png", "image/png"),
        ("jpg", "image/jpeg"),
        ("jpeg", "image/jpeg"),
        ("webp", "image/webp"),
        ("gif", "image/gif"),
        ("svg", "image/svg+xml"),
        ("bmp", "image/bmp"),
        ("tif", "image/tiff"),
        ("tiff", "image/tiff"),
        ("pdf", "application/pdf"),
        ("json", "application/json"),
        ("xml", "application/xml"),
        ("zip", "application/zip"),
        ("xlsx", "application/vnd.openxmlformats-officedocument.spreadsheetml.sheet"),
        ("xls", "application/vnd.ms-excel"),
        ("csv", "text/csv"),
        ("md", "text/markdown"),
        ("txt", "text/plain"),
    ];
    for (ext, mime) in table {
        assert_eq!(content_type_for(&format!("a.{ext}")), Some(mime));
        assert_eq!(content_type_for(&format!("a.b.{}", ext.to_uppercase())), Some(mime));
    }
}

#[test]
fn extensions_are_those_of_paths() {
    for name in ["a.b", "a.b.c", ".env", ".env.bak", "a", "a.", "..a", "...", "é.ü"] {
        assert_eq!(
            extension_of(name).as_deref(),
            std::path::Path::new(name).extension().map(|e| e.to_str().unwrap()),
            "{name}"
        );
    }
}

#[test]
fn private_network_rejection_reason_rejects_ipv4_loopback() {
    assert!(reason("https://127.0.0.1/direct_upload").is_some());
}

#[test]
fn private_network_rejection_reason_rejects_ipv4_private_range() {
    assert!(reason("https://10.0.0.1/direct_upload").is_some());
    assert!(reason("https://192.168.1.1/direct_upload").is_some());
}

#[test]
fn private_network_rejection_reason_rejects_ipv4_link_local() {
    assert!(reason("https://169.254.169.254/latest").is_some());
}

#[test]
fn private_network_rejection_reason_rejects_bracketed_ipv6_loopback() {
    assert!(reason("https://[::1]/direct_upload").is_some());
}

#[test]
fn private_network_rejection_reason_rejects_ipv6_link_local() {
    assert!(reason("https://[fe80::1]/direct_upload").is_some());
}

#[test]
fn private_network_rejection_reason_rejects_ipv6_unique_local() {
    assert!(reason("https://[fc00::1]/direct_upload").is_some());
}

#[test]
fn private_network_rejection_reason_allows_public_hostname() {
    assert_eq!(reason("https://blob-storage.example.com/direct_upload"), None);
}

#[test]
fn private_network_rejection_reason_allows_public_ipv4() {
    assert_eq!(reason("https://8.8.8.8/direct_upload"), None);
}

#[test]
fn each_private_range_ends_where_it_should() {
    let link = Some("a link-local address (this range includes cloud metadata endpoints)");
    let unique = Some("a unique local (private) IPv6 address");
    let private = Some("a private (RFC 1918) address");
    assert_eq!(reason("https://127.255.255.255/"), Some("a loopback address"));
    assert_eq!(reason("https://128.0.0.0/"), None);
    assert_eq!(reason("https://172.16.0.0/"), private);
    assert_eq!(reason("https://172.31.255.255/"), private);
    assert_eq!(reason("https://172.32.0.0/"), None);
    assert_eq!(reason("https://172.15.255.255/"), None);
    assert_eq!(reason("https://169.254.0.0/"), link);
    assert_eq!(reason("https://169.255.0.0/"), None);
    assert_eq!(reason("https://0.0.0.0/"), Some("the unspecified address"));
    assert_eq!(reason("https://0.0.0.1/"), None);
    assert_eq!(reason("https://[::]/"), Some("the unspecified address"));
    assert_eq!(reason("https://[::1]/"), Some("a loopback address"));
    assert_eq!(reason("https://[febf:ffff::]/"), link);
    assert_eq!(reason("https://[fec0::]/"), None);
    assert_eq!(reason("https://[fdff:ffff::1]/"), unique);
    assert_eq!(reason("https://[fe00::]/"), None);
    assert_eq!(reason("https://[fbff::]/"), None);
    assert_eq!(reason("data:text"), Some("a URL with no host"));
    assert_eq!(reason("other://127.0.0.1/"), Some("a loopback address"));
}

#[test]
fn dotted_addresses_have_four_plain_parts() {
    assert_eq!(parse_ipv4("1.2.3.4"), Some(0x01020304));
    assert_eq!(parse_ipv4("255.255.255.255"), Some(u32::MAX));
    assert_eq!(parse_ipv4("0.0.0.0"), Some(0));
    for text in [
        "256.1.1.1", "1.2.3", "1.2.3.4.5", "01.2.3.4", "1..2.3", "a.b.c.d", "", "1.2.3.4 ",
        "+1.2.3.4", "1.2.3.0004",
    ] {
        assert_eq!(parse_ipv4(text), None, "{text}");
    }
}

#[test]
fn earlier_files_of_a_failed_batch_are_told_of() {
    assert_eq!(warn_about_orphaned_prior_uploads(0), None);
    assert_eq!(
        warn_about_orphaned_prior_uploads(1).unwrap(),
        "Note: 1 earlier file in this --file batch was already uploaded to blob storage but won't end up attached to anything, since this request will now fail."
    );
    assert_eq!(
        fail(2, "no".to_string()),
        vec![
            "no",
            "Note: 2 earlier files in this --file batch were already uploaded to blob storage but won't end up attached to anything, since this request will now fail.",
        ]
    );
    assert_eq!(fail(0, "no".to_string()), vec!["no"]);
}

#[test]
fn only_regular_files_of_a_fair_size_are_taken() {
    assert_eq!(MAX_UPLOAD_BYTES, 26 * 1024 * 1024);
    assert_eq!(check_file("f", true, MAX_UPLOAD_BYTES), Ok(()));
    assert_eq!(
        check_file("f", true, MAX_UPLOAD_BYTES + 1).unwrap_err(),
        "f is too large to upload (27262977 bytes; limit is 27262976 bytes)"
    );
    assert_eq!(
        check_file("f", false, 0).unwrap_err(),
        "f is not a regular file - refusing to upload it."
    );
}

#[test]
fn a_blob_names_its_file_size_and_checksum() {
    let json = prepare_upload(&named("dir/a.txt", "a.txt"), b"hello").ok().unwrap();
    let blob = json.get("blob").unwrap();
    assert_eq!(blob.get("filename").unwrap().as_str(), Some("a.txt"));
    assert_eq!(blob.get("byte_size").unwrap().as_i64(), Some(5));
    assert_eq!(blob.get("checksum").unwrap().as_str(), Some("XUFAKrxLKna5cZ2REBfFkg=="));
    assert_eq!(blob.get("content_type").unwrap().as_str(), Some("text/plain"));
}

#[test]
fn files_of_no_known_type_say_why() {
    let tail = " - Kiln only accepts a specific allow-list of file types (images, PDF, JSON/XML/ZIP, the Office spreadsheet type, plain text/CSV/Markdown).";
    let why = |f: NamedFile| prepare_upload(&f, b"").err().unwrap();
    assert_eq!(why(named("p", "a.xyz")), format!("p has an unrecognized file extension (.xyz){tail}"));
    assert_eq!(why(named("p", "LICENSE")), format!("p has no file extension{tail}"));
    assert_eq!(
        why(named("p", ".env")),
        format!("p is a dotfile with no extension (Rust's Path::extension() treats the whole name as the stem here){tail}")
    );
    let f = NamedFile { extension_is_unicode: false, name_is_unicode: false, ..named("p", "a.\u{FFFD}") };
    assert_eq!(why(f), format!("p has a file extension with non-UTF-8 bytes (.\u{FFFD}){tail}"));
    let f = NamedFile { name_is_unicode: false, ..named("p", ".\u{FFFD}") };
    assert_eq!(why(f), format!("p has no file extension{tail}"));
    let f = NamedFile { name: None, ..named("..", "") };
    assert_eq!(why(f), format!(".. has no file extension{tail}"));
}

fn ticket_body(url: &str, headers: Option<Json>) -> Json {
    let mut upload = vec![("url", s(url))];
    if let Some(h) = headers {
        upload.push(("headers", h));
    }
    obj(vec![("signed_id", s("SID")), ("direct_upload", obj(upload))])
}

fn answer(status: u16, body: Json) -> ApiResponse {
    ApiResponse::new(status, body, BodyKind::Json)
}

#[test]
fn a_ticket_carries_the_listed_headers_only() {
    let headers = obj(vec![
        ("Content-Type", s("text/plain")),
        ("Content-Length", s("3")),
        ("Authorization", s("secret")),
        ("X-Amz-Checksum-Crc32C", s("c")),
        ("x-goog-anything", s("g")),
        ("X-MS-Blob-Type", s("b")),
        ("Content-MD5", Json::Number(JsonNumber::Unsigned(1))),
        ("x-other", Json::Null),
    ]);
    let (ticket, lines) = upload_ticket(
        &answer(200, ticket_body("https://blob.example.com/x", Some(headers))),
        "klaay",
        "",
        false,
    );
    let ticket = ticket.ok().unwrap();
    assert_eq!(ticket.signed_id, "SID");
    assert_eq!(ticket.url, "https://blob.example.com/x");
    let expected: Vec<(String, String)> = vec![
        ("Content-Type", "text/plain"),
        ("X-Amz-Checksum-Crc32C", "c"),
        ("x-goog-anything", "g"),
        ("X-MS-Blob-Type", "b"),
    ]
    .into_iter()
    .map(|(a, b)| (a.to_string(), b.to_string()))
    .collect();
    assert_eq!(ticket.headers, expected);
    assert_eq!(
        lines,
        vec!["Warning: direct upload header 'Content-MD5' has a non-string value (number), skipping - the blob PUT may fail."]
    );
}

#[test]
fn headers_of_another_shape_are_left_behind() {
    let (ticket, lines) = upload_ticket(
        &answer(200, ticket_body("https://b.com", Some(s("x")))),
        "klaay",
        "",
        false,
    );
    assert!(ticket.ok().unwrap().headers.is_empty());
    assert_eq!(
        lines,
        vec!["Warning: direct upload response has a non-object 'headers' field (string) - proceeding without forwarding headers, the blob PUT may fail."]
    );
    let (ticket, lines) =
        upload_ticket(&answer(200, ticket_body("https://b.com", None)), "klaay", "", false);
    assert!(ticket.ok().unwrap().headers.is_empty());
    assert!(lines.is_empty());
}

#[test]
fn answers_without_a_ticket_say_what_is_missing() {
    let err = |r: ApiResponse| upload_ticket(&r, "klaay", "{}", false).0.err().unwrap();
    assert_eq!(err(answer(422, obj(vec![]))), "Direct upload setup failed (422): {}");
    assert_eq!(
        err(ApiResponse::new(204, Json::Null, BodyKind::Empty)),
        "Direct upload setup succeeded (204) but returned no usable JSON body."
    );
    assert_eq!(err(answer(200, obj(vec![]))), "Direct upload response missing signed_id");
    assert_eq!(
        err(answer(200, obj(vec![("signed_id", s("x"))]))),
        "Direct upload response missing direct_upload object"
    );
    assert_eq!(
        err(answer(200, obj(vec![("signed_id", s("x")), ("direct_upload", obj(vec![]))]))),
        "Direct upload response missing direct_upload.url"
    );
}

#[test]
fn a_file_leaves_for_a_safe_address_only() {
    let at = |url: &str, force: bool| {
        let (ticket, lines) =
            upload_ticket(&answer(200, ticket_body(url, None)), "klaay", "", force);
        (ticket.map(|t| t.url), lines)
    };
    assert_eq!(
        at("http://b.com", false).0.unwrap_err(),
        "Error: direct upload URL is non-TLS (http://) - file bytes would be transmitted in plaintext.\nPass --force-insecure or set KLAAY_ALLOW_INSECURE=1 (or =true / =yes) if this is intentional."
    );
    let (url, lines) = at("HTTP://b.com", true);
    assert_eq!(url.unwrap(), "HTTP://b.com");
    assert_eq!(
        lines,
        vec!["Warning: direct upload URL is non-TLS (http://); file bytes will be transmitted in plaintext."]
    );
    assert_eq!(
        at("ftp://b.com", true).0.unwrap_err(),
        "Direct upload response returned a non-http(s) upload URL: ftp://b.com"
    );
    assert_eq!(
        at("nowhere", true).0.unwrap_err(),
        "Direct upload response returned a non-http(s) upload URL: nowhere"
    );
    assert_eq!(
        at("https://169.254.169.254/x", true).0.unwrap_err(),
        "Direct upload response returned a URL pointing at a link-local address (this range includes cloud metadata endpoints), refusing to upload to it: https://169.254.169.254/x"
    );
    let body = obj(vec![("url", s("https://b.com"))]);
    assert!(ticket_for("SID", &body, "https://b.com", &Some(parsed("https://b.com")), false)
        .0
        .is_ok());
}

#[test]
fn a_refused_file_is_reported() {
    assert!(finish_upload(&answer(200, Json::Null), "klaay", "null").is_ok());
    assert_eq!(
        finish_upload(&answer(403, s("no")), "klaay", "\"no\"").unwrap_err(),
        "File upload to blob storage failed with status 403: \"no\""
    );
}

#[test]
fn uploads_are_grouped_by_relationship_in_order() {
    let mut batch = UploadBatch::new();
    assert_eq!(batch.check_relationship("files"), Ok(()));
    batch.record("files", "1");
    batch.record("docs", "2");
    batch.record("files", "3");
    assert_eq!(batch.successes(), 3);
    let json = batch.build_relationships();
    let fields = json.as_object().unwrap();
    assert_eq!(fields.len(), 2);
    assert_eq!(fields[0].0, "docs");
    assert_eq!(fields[1].0, "files");
    let ids: Vec<&str> = fields[1]
        .1
        .get("data")
        .unwrap()
        .as_array()
        .unwrap()
        .iter()
        .map(|b| {
            assert_eq!(b.get("type").unwrap().as_str(), Some("active_storage_blobs"));
            b.get("id").unwrap().as_str().unwrap()
        })
        .collect();
    assert_eq!(ids, vec!["1", "3"]);
    assert!(UploadBatch::new().build_relationships().as_object().unwrap().is_empty());
}

#[test]
fn single_file_relationships_are_refused() {
    let mut batch = UploadBatch::new();
    batch.record("files", "1");
    for name in [
        "logo", "source", "icon", "export", "data_agreement", "soc2_report", "iso27001_report",
        "security_questionnaire", "privacy_policy_document", "terms_of_use_document",
    ] {
        let lines = batch.check_relationship(name).unwrap_err();
        assert_eq!(
            lines[0],
            format!("Error: \"{name}\" is a single-file (has_one) attachment - it needs a single object, not the array this generic --file path builds. Not yet supported; ask for it if you need it.")
        );
        assert_eq!(lines.len(), 2);
    }
}

#[test]
fn an_upload_goes_from_file_to_blob() {
    let client =
        ApiClient::new("https://api.klaay.com".to_string(), Some("tok".to_string()), "klaay")
            .ok()
            .unwrap();
    let upload = Upload {
        client: &client,
        file: named("d/a.txt", "a.txt"),
        prior_successes: 0,
        force_insecure: false,
        bin: "klaay".to_string(),
    };
    let step =
        upload.direct_upload(UploadState::Opening, UploadEvent::Opened { regular: true, length: 5 });
    assert!(matches!(step.action, UploadAction::ReadFile));
    let step = upload.direct_upload(step.state, UploadEvent::Read(b"hello".to_vec()));
    let UploadAction::Send(request) = step.action else { panic!("the blob is announced first") };
    assert_eq!(request.method, HttpMethod::Post);
    assert_eq!(request.url, "https://api.klaay.com/rails/active_storage/direct_uploads");
    assert!(request.headers.contains(&("Authorization".to_string(), "Bearer tok".to_string())));
    let step = upload.direct_upload(
        step.state,
        UploadEvent::Answer(answer(200, ticket_body("https://b.com/x", None)), String::new()),
    );
    let UploadAction::Send(request) = step.action else { panic!("the bytes go next") };
    assert_eq!(request.method, HttpMethod::Put);
    assert_eq!(request.url, "https://b.com/x");
    assert!(matches!(request.body, RequestBody::Bytes(b) if b == b"hello"));
    assert!(request.headers.is_empty());
    assert!(!request.follow_redirects);
    assert_eq!(step.lines, vec!["Uploading d/a.txt..."]);
    let step = upload.direct_upload(
        step.state,
        UploadEvent::Answer(ApiResponse::new(200, Json::Null, BodyKind::Empty), String::new()),
    );
    assert!(matches!(step.action, UploadAction::Finish(id) if id == "SID"));
    assert_eq!(step.lines, vec!["Uploading d/a.txt... done"]);
}

#[test]
fn an_upload_stops_at_the_first_fault() {
    let client =
        ApiClient::new("https://api.klaay.com".to_string(), None, "klaay").ok().unwrap();
    let upload = Upload {
        client: &client,
        file: named("f.txt", "f.txt"),
        prior_successes: 1,
        force_insecure: false,
        bin: "klaay".to_string(),
    };
    let lines = |state: UploadState, event: UploadEvent| match upload
        .direct_upload(state, event)
        .action
    {
        UploadAction::Fail(lines) => lines,
        _ => panic!("expected the upload to fail"),
    };
    let got = lines(
        UploadState::Opening,
        UploadEvent::Problem(FileProblem::Open, "gone".to_string()),
    );
    assert_eq!(got[0], "Could not open f.txt: gone");
    assert_eq!(got.len(), 2);
    let got = lines(
        UploadState::Opening,
        UploadEvent::Problem(FileProblem::Stat, "gone".to_string()),
    );
    assert_eq!(got[0], "Could not stat f.txt: gone");
    let got = lines(
        UploadState::Reading,
        UploadEvent::Problem(FileProblem::Read, "gone".to_string()),
    );
    assert_eq!(got[0], "Could not read f.txt: gone");
    let got =
        lines(UploadState::Reading, UploadEvent::Read(vec![0; MAX_UPLOAD_BYTES as usize + 1]));
    assert_eq!(got[0], "f.txt is too large to upload (limit is 27262976 bytes)");
    let got = lines(
        UploadState::Announcing(vec![1]),
        UploadEvent::Answer(answer(500, s("x")), "\"x\"".to_string()),
    );
    assert_eq!(got[0], "Direct upload setup failed (500): \"x\"");
    let got = lines(
        UploadState::Sending("SID".to_string()),
        UploadEvent::Answer(answer(500, s("x")), "\"x\"".to_string()),
    );
    assert_eq!(got[0], "File upload to blob storage failed with status 500: \"x\"");
}

#[test]
fn a_batch_goes_file_by_file() {
    let files: Vec<(String, String)> = vec![
        ("files".to_string(), "a.txt".to_string()),
        ("logo".to_string(), "b.png".to_string()),
    ];
    let mut batch = UploadBatch::new();
    let BatchNext::Upload { relationship, path } = batch.next(&files) else {
        panic!("expected an upload")
    };
    assert_eq!((relationship.as_str(), path.as_str()), ("files", "a.txt"));
    batch.record(&relationship, "1");
    let BatchNext::Fail(lines) = batch.next(&files) else { panic!("expected a failure") };
    assert_eq!(lines.len(), 2);
    let BatchNext::Attach(json) = batch.next(&files[..1]) else {
        panic!("expected the relationships")
    };
    let ids = json.get("files").unwrap().get("data").unwrap().as_array().unwrap();
    assert_eq!(ids[0].get("id").unwrap().as_str(), Some("1"));
}
