use klaay::leftovers::{
    cache_temp_name, credential_temp_name, is_cache_temp_name, is_credential_temp_name,
    is_removable, is_stale, leftover_warning,
};
use klaay::order::{add_key, comes_before, TextMap};
use klaay::secure_write::{
    atomic_write_secure, refuse_write, WriteAction, WriteNext, WriteState,
};
use klaay::skills::lookup;
use klaay::text::{
    byte_length, find_last, holds_text, joined, lowered, number_text, split_at_first, split_text,
    to_chars, trimmed, CharClass,
};
use klaay::token_store::{
    delete, keychain_delete_result, load, load_file_map, save, CredentialMap, DeleteAction,
    DeleteEvent, DeleteState, DeleteStep, FileOutcome, FileRead, KeychainRead, KeychainRemoval,
    KeychainWrite, LoadAction, LoadEvent, LoadFileMapError, LoadState, LoadStep, Removal,
    SaveAction, SaveEvent, SaveState, SaveStep, SaveTokenError, StoredToken, KEYRING_SERVICE,
};

fn stored(token: &str, api_url: &str) -> StoredToken {
    StoredToken {
        token: token.to_string(),
        api_url: api_url.to_string(),
        account_id: Some("1".to_string()),
        email: None,
    }
}

fn map(urls: &[&str]) -> CredentialMap {
    let mut m = TextMap::new();
    for u in urls {
        m.insert(u, stored("t", u));
    }
    m
}

fn keys(m: &CredentialMap) -> Vec<String> {
    m.entries().iter().map(|e| e.0.clone()).collect()
}

fn load_error() -> LoadFileMapError {
    LoadFileMapError::Io("x".to_string())
}

#[test]
fn tokens_are_kept_under_the_documented_service() {
    assert_eq!(KEYRING_SERVICE, "klaay-cli");
}

#[test]
fn a_token_can_be_copied_and_wiped() {
    let mut a = stored("t", "u");
    let b = a.copy();
    a.zeroize();
    assert_eq!(a.token, "");
    assert_eq!(a.api_url, "");
    assert!(a.account_id.is_none());
    assert_eq!(b.token, "t");
    assert_eq!(b.account_id.unwrap(), "1");
}

#[test]
fn reading_the_file_tells_faults_apart() {
    let read = |r: FileRead| load_file_map(r, "/p", "klaay");
    let message = |r: FileRead| match read(r) {
        Ok(_) => panic!("expected an error"),
        Err(e) => e.message(),
    };
    assert!(read(FileRead::Missing).ok().unwrap().is_empty());
    assert_eq!(read(FileRead::Tokens(map(&["b", "a"]))).ok().unwrap().len(), 2);
    assert_eq!(
        message(FileRead::NoPath),
        "configuration error: could not determine the credentials file path (is HOME/USERPROFILE set?)"
    );
    assert_eq!(
        message(FileRead::Failed("e".to_string())),
        "I/O error: could not read credentials file /p: e"
    );
    assert_eq!(
        message(FileRead::NotParsed("e".to_string())),
        "parse error: credentials file /p could not be parsed (e) - remove or fix it manually, then run `klaay login` again"
    );
}

fn save_on(state: SaveState, event: SaveEvent) -> SaveStep {
    save(state, event, "/d", "/p")
}

fn try_keychain(write: KeychainWrite) -> SaveStep {
    save_on(SaveState::Keychain(stored("new", "U")), SaveEvent::Keychain(write))
}

fn text(t: &str) -> String {
    t.to_string()
}

fn failure(step: SaveStep) -> SaveTokenError {
    match step.action {
        SaveAction::Fail(e) => e,
        _ => panic!("expected a failure"),
    }
}

#[test]
fn a_token_goes_to_the_keychain_and_leaves_the_file() {
    let step = try_keychain(KeychainWrite::Stored);
    assert!(matches!(step.action, SaveAction::LoadFile));
    assert!(step.said.is_none());
    let tidy = |m: Result<CredentialMap, LoadFileMapError>| {
        save_on(SaveState::Tidying(text("U")), SaveEvent::Loaded(m))
    };
    assert!(matches!(tidy(Ok(map(&["V"]))).action, SaveAction::Done));
    assert!(matches!(tidy(Err(load_error())).action, SaveAction::Done));
    let step = save_on(step.state, SaveEvent::Loaded(Ok(map(&["U"]))));
    assert!(matches!(step.action, SaveAction::RemoveFile));
    let step = save_on(step.state, SaveEvent::File(FileOutcome::Missing));
    assert!(matches!(step.action, SaveAction::Done));
    assert!(step.said.is_none());
    let step = tidy(Ok(map(&["U", "V"])));
    let SaveAction::WriteFile { tokens, clean_up } = step.action else {
        panic!("expected a write")
    };
    assert_eq!(keys(&tokens), vec!["V"]);
    assert!(!clean_up);
    let said = |o: FileOutcome| {
        let step = save_on(SaveState::Removing(text("U")), SaveEvent::File(o));
        assert!(matches!(step.action, SaveAction::Done));
        step.said
    };
    assert_eq!(said(FileOutcome::Done), None);
    assert_eq!(said(FileOutcome::NoPath), None);
    assert_eq!(
        said(FileOutcome::Failed(text("e"))).unwrap(),
        "Warning: could not remove stale file-fallback entry for U after keychain write (e); it may be served on a future keychain failure."
    );
    assert_eq!(
        said(FileOutcome::NotSerialized(text("e"))).unwrap(),
        "Warning: could not serialize file-fallback credentials while removing the stale entry for U after keychain write (e); it may be served on a future keychain failure."
    );
}

#[test]
fn a_token_goes_to_the_file_where_there_is_no_keychain() {
    let step = try_keychain(KeychainWrite::Unavailable(text("e")));
    assert_eq!(
        step.said.unwrap(),
        "Warning: could not construct a keyring entry (e); falling back to file."
    );
    assert!(matches!(step.action, SaveAction::MakeDirectory));
    let step = try_keychain(KeychainWrite::Failed(text("e")));
    assert_eq!(
        step.said.unwrap(),
        "Warning: could not store token in OS keychain (e); falling back to file."
    );
    let step = save_on(step.state, SaveEvent::DirectoryMade(None));
    assert!(matches!(step.action, SaveAction::RestrictDirectory));
    let step = save_on(step.state, SaveEvent::Restricted(Some(text("e"))));
    assert!(matches!(step.action, SaveAction::LoadFile));
    assert_eq!(
        step.said.unwrap(),
        "Warning: could not set permissions on config directory /d: e"
    );
    let step = save_on(step.state, SaveEvent::Loaded(Ok(map(&["W", "A", "U"]))));
    let SaveAction::WriteFile { tokens, clean_up } = step.action else {
        panic!("expected a write")
    };
    assert!(clean_up);
    assert_eq!(keys(&tokens), vec!["A", "U", "W"]);
    assert_eq!(tokens.get("U").unwrap().token, "new");
    assert_eq!(tokens.get("A").unwrap().token, "t");
    let step = save_on(step.state, SaveEvent::File(FileOutcome::Done));
    assert!(matches!(step.action, SaveAction::Done));
    assert_eq!(
        step.said.unwrap(),
        "Note: the OS keychain wasn't usable, storing the token in /p instead (permissions restricted to your user)."
    );
    let found = load(LoadState::File, LoadEvent::Loaded(Ok(tokens)), "U", "klaay");
    assert!(matches!(found.action, LoadAction::Answer(Some(s)) if s.token == "new"));
}

#[test]
fn a_token_that_cannot_be_kept_is_told_of() {
    assert_eq!(
        failure(try_keychain(KeychainWrite::NotSerialized(text("e")))).message(),
        "could not serialize token: e"
    );
    let directory = || SaveState::Directory(stored("new", "U"));
    let loading = || SaveState::Loading(stored("new", "U"));
    assert_eq!(
        failure(save_on(directory(), SaveEvent::NoHome)).message(),
        "could not determine your home directory (no HOME/USERPROFILE set)"
    );
    assert_eq!(
        failure(save_on(directory(), SaveEvent::DirectoryMade(Some(text("e"))))).message(),
        "could not create config directory /d: e"
    );
    let parse = failure(save_on(
        loading(),
        SaveEvent::Loaded(Err(LoadFileMapError::Parse(text("p")))),
    ));
    assert_eq!(parse.message(), "corrupted credentials file: p");
    assert!(matches!(parse, SaveTokenError::CorruptedFile(m) if m == "p"));
    assert_eq!(
        failure(save_on(loading(), SaveEvent::Loaded(Err(load_error())))).message(),
        "I/O error: x"
    );
    let written = |o: FileOutcome| failure(save_on(SaveState::Writing, SaveEvent::File(o))).message();
    assert_eq!(written(FileOutcome::Failed(text("e"))), "e");
    assert_eq!(
        written(FileOutcome::NotSerialized(text("e"))),
        "could not serialize credentials: e"
    );
    assert_eq!(written(FileOutcome::NoPath), "could not determine credentials file path");
}

#[test]
fn a_token_is_read_from_the_keychain_first() {
    let read = |r: KeychainRead| -> LoadStep {
        load(LoadState::Keychain, LoadEvent::Keychain(r), "U", "klaay")
    };
    assert!(matches!(
        read(KeychainRead::Found(stored("t", "U"))).action,
        LoadAction::Answer(Some(s)) if s.token == "t"
    ));
    let step = read(KeychainRead::Absent);
    assert!(matches!(step.action, LoadAction::LoadFile));
    assert!(step.warning.is_none());
    let step = read(KeychainRead::Unavailable(text("e")));
    assert!(matches!(step.action, LoadAction::LoadFile));
    assert_eq!(
        step.warning.unwrap(),
        "Warning: could not construct a keyring entry for U (e); falling back to file."
    );
    let step = read(KeychainRead::Failed(text("e")));
    assert_eq!(step.state, LoadState::File);
    assert_eq!(
        step.warning.unwrap(),
        "Warning: could not read keyring entry for U (e); falling back to file."
    );
    let step = read(KeychainRead::NotParsed(text("e")));
    assert!(matches!(step.action, LoadAction::Answer(None)));
    assert_eq!(
        step.warning.unwrap(),
        "Warning: keyring entry for U could not be parsed (e) - treating as not logged in. Run `klaay logout` then `klaay login` again to recover."
    );
    let file = |m: Result<CredentialMap, LoadFileMapError>| {
        load(LoadState::File, LoadEvent::Loaded(m), "U", "klaay")
    };
    assert!(matches!(
        file(Ok(map(&["U", "V"]))).action,
        LoadAction::Answer(Some(s)) if s.api_url == "U"
    ));
    assert!(matches!(file(Ok(map(&["V"]))).action, LoadAction::Answer(None)));
    let step = file(Err(load_error()));
    assert!(matches!(step.action, LoadAction::Answer(None)));
    assert_eq!(step.warning.unwrap(), "Warning: I/O error: x");
}

fn delete_on(state: DeleteState, event: DeleteEvent) -> DeleteStep {
    delete(state, event, "U", "/p")
}

fn answer(step: DeleteStep) -> Result<bool, String> {
    match step.action {
        DeleteAction::Answer(a) => a,
        _ => panic!("expected an answer"),
    }
}

#[test]
fn a_keychain_that_cannot_be_reached_is_no_empty_one() {
    let clear = |k: KeychainRemoval| {
        let step = delete_on(DeleteState::Keychain, DeleteEvent::Keychain(k));
        assert!(matches!(step.action, DeleteAction::LoadFile));
        match step.state {
            DeleteState::Loading(r) => (r, step.warning),
            _ => panic!("expected to read the file"),
        }
    };
    let (r, w) = clear(KeychainRemoval::Removed);
    assert_eq!(r, Removal { removed_something: true, keychain_delete_failed: false });
    assert!(w.is_none());
    let (r, w) = clear(KeychainRemoval::Absent);
    assert_eq!(r, Removal { removed_something: false, keychain_delete_failed: false });
    assert!(w.is_none());
    let (r, w) = clear(KeychainRemoval::Failed(text("e")));
    assert_eq!(r, Removal { removed_something: false, keychain_delete_failed: true });
    assert_eq!(w.unwrap(), "Warning: could not remove keyring entry: e");
    let (r, w) = clear(KeychainRemoval::Unavailable(text("e")));
    assert_eq!(r, Removal { removed_something: false, keychain_delete_failed: true });
    assert_eq!(
        w.unwrap(),
        "Warning: could not construct a keyring entry (e); the keychain credential may not have been removed."
    );
    assert_eq!(keychain_delete_result(true, true), Ok(true));
    assert_eq!(keychain_delete_result(true, false), Ok(true));
    assert_eq!(keychain_delete_result(false, false), Ok(false));
    assert_eq!(
        keychain_delete_result(false, true).unwrap_err(),
        "the keychain credential could not be removed due to a transient error (see the warning above), and no file-fallback entry existed for this API URL - it may still be present in the keychain; try logout again"
    );
}

#[test]
fn a_token_is_removed_from_the_file() {
    let nothing = Removal { removed_something: false, keychain_delete_failed: false };
    let failed = Removal { removed_something: false, keychain_delete_failed: true };
    let open = |r: Removal, m: Result<CredentialMap, LoadFileMapError>| {
        delete_on(DeleteState::Loading(r), DeleteEvent::Loaded(m))
    };
    let step = open(nothing, Ok(map(&["U"])));
    assert!(matches!(step.action, DeleteAction::RemoveFile));
    assert_eq!(step.state, DeleteState::Removing);
    let step = open(failed, Ok(map(&["U", "V"])));
    assert_eq!(step.state, DeleteState::Rewriting);
    assert!(matches!(step.action, DeleteAction::WriteFile(m) if keys(&m) == vec!["V"]));
    assert_eq!(answer(open(nothing, Ok(map(&["V"])))), Ok(false));
    assert!(answer(open(failed, Ok(map(&["V"])))).is_err());
    let step = open(nothing, Err(load_error()));
    assert_eq!(step.warning.as_deref(), Some("Warning: I/O error: x"));
    assert_eq!(
        answer(step).unwrap_err(),
        "the credentials file could not be read (see the warning above), so a token for this API URL may still be present in it; fix or remove the file and try logout again"
    );
    let gone = Removal { removed_something: true, keychain_delete_failed: false };
    assert_eq!(answer(open(gone, Err(load_error()))), Ok(true));
    assert_eq!(
        answer(open(failed, Err(load_error()))),
        keychain_delete_result(false, true)
    );
    let removed = |o: FileOutcome| answer(delete_on(DeleteState::Removing, DeleteEvent::File(o)));
    let rewritten =
        |o: FileOutcome| answer(delete_on(DeleteState::Rewriting, DeleteEvent::File(o)));
    assert_eq!(removed(FileOutcome::Done), Ok(true));
    assert_eq!(removed(FileOutcome::Missing), Ok(true));
    assert_eq!(
        removed(FileOutcome::Failed(text("e"))).unwrap_err(),
        "could not remove credentials file /p: e"
    );
    assert_eq!(rewritten(FileOutcome::Done), Ok(true));
    assert_eq!(rewritten(FileOutcome::Failed(text("e"))).unwrap_err(), "e");
    assert_eq!(
        rewritten(FileOutcome::NotSerialized(text("e"))).unwrap_err(),
        "could not serialize remaining credentials: e"
    );
    let no_path = "could not determine credentials file path to complete logout - the file-fallback entry for this API URL is still present on disk (only the in-memory copy was updated); set HOME/USERPROFILE and run logout again to actually remove it";
    assert_eq!(removed(FileOutcome::NoPath).unwrap_err(), no_path);
    assert_eq!(rewritten(FileOutcome::NoPath).unwrap_err(), no_path);
}

fn write_on(state: WriteState, error: Option<&str>) -> WriteNext {
    atomic_write_secure(state, error.map(|e| e.to_string()), "T", "P")
}

#[test]
fn a_file_is_written_beside_and_renamed() {
    let n = write_on(WriteState::Creating, None);
    assert!(matches!(n.action, WriteAction::Write));
    let n = write_on(n.state, None);
    assert!(matches!(n.action, WriteAction::Sync));
    let n = write_on(n.state, None);
    assert!(matches!(n.action, WriteAction::Rename));
    let n = write_on(n.state, None);
    assert!(matches!(n.action, WriteAction::Done));
    assert!(n.warning.is_none());
}

#[test]
fn a_failed_write_is_cleaned_up() {
    let n = write_on(WriteState::Creating, Some("e"));
    assert!(matches!(
        n.action,
        WriteAction::Fail(m) if m == "could not create temp credentials file T: e"
    ));
    let cases = [
        (WriteState::Writing, "could not write temp credentials file T: e", "write"),
        (WriteState::Syncing, "could not flush temp credentials file T: e", "sync"),
        (WriteState::Renaming, "could not replace credentials file P: e", "rename"),
    ];
    for (state, message, word) in cases {
        let n = write_on(state, Some("e"));
        assert!(matches!(n.action, WriteAction::Remove));
        let n = write_on(n.state, Some("r"));
        assert!(matches!(n.action, WriteAction::Fail(m) if m == message));
        assert_eq!(
            n.warning.unwrap(),
            format!("Warning: could not clean up temp credentials file T ({word} failed: e; removal of temp file also failed: r)")
        );
    }
    let n = write_on(WriteState::Writing, Some("e"));
    let n = write_on(n.state, None);
    assert!(matches!(n.action, WriteAction::Fail(_)));
    assert!(n.warning.is_none());
    assert_eq!(
        refuse_write("P"),
        "the OS credential store is unavailable, and this platform has no ACL-restricted fallback file storage implemented yet, so the token can't be stored safely at P"
    );
}

#[test]
fn leftover_files_are_known_by_their_names() {
    let name = credential_temp_name(Some("credentials.json"), 12, 34, 5);
    assert_eq!(name, "credentials.json.12-34-5.tmp");
    assert_eq!(credential_temp_name(None, 1, 2, 3), "credentials.1-2-3.tmp");
    let ours = |n: &str| is_credential_temp_name(n, "credentials.json");
    assert!(ours(&name));
    for other in [
        "credentials.json.tmp",
        "credentials.json..tmp",
        "credentials.json.12345.tmp",
        "credentials.json.1-2.tmp",
        "credentials.json.1-2-3-4.tmp",
        "credentials.json.editor-backup-x.tmp",
        "credentials.json",
        "other.json.1-2-3.tmp",
        "credentials.json.1-2-3",
    ] {
        assert!(!ours(other), "{other}");
    }
    assert!(is_cache_temp_name(&cache_temp_name(7, 8)));
    assert!(!is_cache_temp_name("openapi-cache.json"));
}

#[test]
fn leftovers_go_after_an_hour() {
    assert!(!is_stale(3600, 0));
    assert!(is_stale(3600, 1));
    assert!(is_stale(3601, 0));
    assert!(is_removable(true, Some((4000, 0))));
    assert!(!is_removable(false, Some((4000, 0))));
    assert!(!is_removable(true, None));
    assert!(!is_removable(true, Some((1, 0))));
    assert_eq!(
        leftover_warning("/p", "e"),
        "Warning: could not remove stale credential temp file /p (e); it holds cleartext tokens and should be deleted manually."
    );
}

#[test]
fn maps_keep_their_keys_in_order() {
    let mut m: TextMap<u8> = TextMap::new();
    for (k, v) in [("b", 1), ("a", 2), ("b", 3), ("é", 4), ("ab", 5)] {
        m.insert(k, v);
    }
    assert_eq!(
        m.entries().iter().map(|e| e.0.as_str()).collect::<Vec<&str>>(),
        vec!["a", "ab", "b", "é"]
    );
    assert_eq!(m.get("b"), Some(&3));
    assert_eq!(m.remove("b"), Some(3));
    assert_eq!(m.remove("b"), None);
    assert_eq!(m.len(), 3);
    let mut keys: Vec<String> = Vec::new();
    for k in ["z", "a", "z", "m"] {
        add_key(&mut keys, k);
    }
    assert_eq!(keys, vec!["a", "m", "z"]);
}

#[test]
fn texts_are_ordered_as_std_orders_them() {
    let words = ["", "a", "A", "ab", "b", "é", "\u{FFFF}", "\u{10000}", "z", "aa"];
    for a in words {
        for b in words {
            assert_eq!(comes_before(a, b), a < b, "{a} {b}");
        }
    }
}

#[test]
fn white_space_is_what_std_says() {
    for c in (0u32..=0x10ffff).filter_map(char::from_u32) {
        assert_eq!(CharClass::White.has(c), c.is_whitespace(), "{c:?}");
    }
}

#[test]
fn texts_are_taken_apart_as_std_does() {
    assert_eq!(split_text("a,b,,", ','), vec!["a", "b", "", ""]);
    assert_eq!(split_text("", ','), vec![""]);
    assert_eq!(
        split_at_first("a=b=c", '='),
        "a=b=c".split_once('=').map(|(a, b)| (a.to_string(), b.to_string()))
    );
    assert_eq!(split_at_first("abc", '='), None);
    assert_eq!(trimmed(" \u{2003}é x\n", CharClass::White), "é x");
    assert_eq!(lowered("AbÉ"), "abÉ");
    assert_eq!(number_text(0), "0");
    assert_eq!(number_text(u128::MAX), u128::MAX.to_string());
    assert_eq!(joined(&["a".to_string(), "b".to_string()], ", "), "a, b");
    assert_eq!(joined(&[], ", "), "");
    assert_eq!(byte_length("aé\u{10000}"), 7);
    assert!(holds_text("abc", ""));
    assert!(holds_text("aabc", "abc"));
    assert!(!holds_text("ab", "abc"));
    assert_eq!(find_last(&to_chars("a.b.c"), 0, 5, '.'), Some(3));
    assert_eq!(find_last(&to_chars("a.b.c"), 0, 1, '.'), None);
}

#[test]
fn guidance_is_found_by_resource() {
    for name in [
        "accounts", "account_information_answers", "account_users",
        "collected_evidence_selected_controls", "collected_evidences", "compliance_stats",
        "conversations", "devices", "evidence_checks", "framework_selections", "incidents",
        "messages", "policies", "policy_versions", "selected_controls", "selected_risk_scenarios",
        "tasks", "teams", "users", "vendors", "workstreams",
    ] {
        assert!(lookup(name).unwrap().starts_with(&format!("# {name}\n")), "{name}");
    }
    assert_eq!(lookup("Tasks"), None);
    assert_eq!(lookup(""), None);
}
