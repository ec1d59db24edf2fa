use passwd_lib::backend::{
    has_encrypted_data, snapshot_or_empty, FileAction, GithubStorage, LocalFileStore, LocalStorage,
    SaveAction, SaveEvent, SaveState,
};
use passwd_lib::config::{Config, GithubStorageConfig, LocalStorageConfig};
use passwd_lib::crypto::EncryptedData;
use passwd_lib::error::{ErrorKind, VaultError};
use passwd_lib::github::{
    author_from, committer_from, status_class, Author, Committer, GitHubStoreConfig, GithubClient,
    GithubFileContent, Lookup, StatusClass,
};
use passwd_lib::password::{
    Password, PasswordCreateRequest, PasswordSearchQuery, PasswordUpdateRequest, Timestamp,
};
use passwd_lib::store::{StorageData, StorageTarget};
use passwd_lib::text::{chars_to_string, push_decimal, str_eq, str_to_chars};

fn blob() -> EncryptedData {
    EncryptedData { ciphertext: vec![1, 2, 3], nonce: vec![0; 12], salt: vec![0; 16] }
}

fn record(id: &str, title: &str, description: &str) -> Password {
    let t = Timestamp { secs: 1, nanos: 2 };
    Password {
        id: id.to_string(),
        title: title.to_string(),
        description: description.to_string(),
        tags: vec!["t".to_string()],
        username: "u".to_string(),
        encrypted_password: blob(),
        url: None,
        created_at: t,
        updated_at: t,
    }
}

fn ids(records: &[Password]) -> Vec<String> {
    records.iter().map(|p| p.id.clone()).collect()
}

fn client() -> GithubClient {
    GithubClient::new("me".to_string(), "vault".to_string(), "tok".to_string(), "main".to_string())
}

fn file(content: &str, encoding: &str) -> GithubFileContent {
    GithubFileContent {
        content: content.to_string(),
        encoding: encoding.to_string(),
        sha: "abc123".to_string(),
        size: 0,
        name: "passwords.json".to_string(),
        path: "data/passwords.json".to_string(),
    }
}

#[test]
fn snapshot_insert_counts_and_replaces() {
    let now = Timestamp { secs: 10, nanos: 0 };
    let mut data = StorageData::empty("1", Timestamp { secs: 0, nanos: 0 });
    assert_eq!(data.metadata.password_count, 0);
    assert!(!data.insert(record("a", "email", ""), now));
    assert!(!data.insert(record("b", "bank", ""), now));
    assert_eq!(data.metadata.password_count, 2);
    assert_eq!(data.metadata.last_sync, now);
    assert!(data.insert(record("a", "email (new)", ""), now));
    assert_eq!(data.metadata.password_count, 2);
    assert_eq!(data.len(), 2);
    assert_eq!(ids(&data.passwords), vec!["a", "b"]);
    assert_eq!(data.get("a").unwrap().title, "email (new)");
    assert!(data.get("zz").is_none());
    assert!(data.is_well_formed());
}

#[test]
fn snapshot_remove_counts_and_leaves_others() {
    let now = Timestamp { secs: 10, nanos: 0 };
    let later = Timestamp { secs: 20, nanos: 0 };
    let mut data = StorageData::empty("1", now);
    data.insert(record("a", "email", ""), now);
    data.insert(record("b", "bank", ""), now);
    data.insert(record("c", "chat", ""), now);
    assert!(!data.remove("zz", later));
    assert_eq!(data.metadata.last_sync, now);
    assert_eq!(data.metadata.password_count, 3);
    assert!(data.remove("b", later));
    assert_eq!(data.metadata.last_sync, later);
    assert_eq!(data.metadata.password_count, 2);
    assert_eq!(ids(&data.passwords), vec!["a", "c"]);
    assert!(!data.contains_id("b"));
    assert!(data.contains_id("c"));
    assert_eq!(data.find("c"), Some(1));
    assert!(data.is_well_formed());
}

#[test]
fn snapshot_search_matches_title_and_description_only() {
    let now = Timestamp { secs: 10, nanos: 0 };
    let mut data = StorageData::empty("1", now);
    data.insert(record("a", "email", "work account"), now);
    data.insert(record("b", "bank", "my email is on file"), now);
    data.insert(record("c", "chat", "nothing"), now);
    let mut tagged = record("d", "door", "code");
    tagged.tags = vec!["email".to_string()];
    tagged.username = "email".to_string();
    data.insert(tagged, now);
    assert_eq!(ids(&data.search("email")), vec!["a", "b"]);
    assert_eq!(ids(&data.search("mai")), vec!["a", "b"]);
    assert_eq!(ids(&data.search("Email")), Vec::<String>::new());
    assert_eq!(ids(&data.search("")), vec!["a", "b", "c", "d"]);
    assert_eq!(ids(&data.search("emails")), Vec::<String>::new());
}

#[test]
fn snapshot_from_records_keeps_the_later_duplicate() {
    let t = Timestamp { secs: 5, nanos: 6 };
    let data = StorageData::from_records(
        "1.0.0",
        t,
        vec![record("a", "first", ""), record("b", "bank", ""), record("a", "second", "")],
    );
    assert_eq!(data.metadata.version, "1.0.0");
    assert_eq!(data.metadata.last_sync, t);
    assert_eq!(data.metadata.password_count, 2);
    assert_eq!(ids(&data.passwords), vec!["a", "b"]);
    assert_eq!(data.passwords[0].title, "second");
    assert!(data.is_well_formed());
}

#[test]
fn ill_formed_snapshots_are_told_apart() {
    let t = Timestamp { secs: 0, nanos: 0 };
    let mut data = StorageData::empty("1", t);
    data.insert(record("a", "x", ""), t);
    data.metadata.password_count = 5;
    assert!(!data.is_well_formed());
    data.metadata.password_count = 2;
    data.passwords.push(record("a", "y", ""));
    assert!(!data.is_well_formed());
}

#[test]
fn new_snapshot_is_empty() {
    let data = StorageData::new();
    assert_eq!(data.metadata.version, "1");
    assert_eq!(data.metadata.password_count, 0);
    assert!(data.passwords.is_empty());
    assert!(!has_encrypted_data(&data));
    let copy = data.clone();
    assert_eq!(copy.metadata.version, "1");
}

#[test]
fn missing_resource_loads_as_empty_snapshot() {
    let now = Timestamp { secs: 3, nanos: 4 };
    let empty = snapshot_or_empty(None, now);
    assert_eq!(empty.metadata.version, "1.0.0");
    assert_eq!(empty.metadata.password_count, 0);
    assert_eq!(empty.metadata.last_sync, now);
    assert!(empty.passwords.is_empty());
    let mut held = StorageData::empty("1", now);
    held.insert(record("a", "x", ""), now);
    let same = snapshot_or_empty(Some(held), Timestamp { secs: 9, nanos: 9 });
    assert_eq!(same.metadata.version, "1");
    assert_eq!(ids(&same.passwords), vec!["a"]);
    assert!(has_encrypted_data(&same));
}

#[test]
fn record_creation_and_update() {
    let request = PasswordCreateRequest {
        title: "email".to_string(),
        description: "d".to_string(),
        tags: vec!["x".to_string(), "y".to_string()],
        username: "a@b.com".to_string(),
        password: "secret1".to_string(),
        url: Some("https://mail".to_string()),
        key: "mypass".to_string(),
    };
    let mut p = Password::new(request, blob());
    assert_eq!(p.id.len(), 36);
    assert_eq!(p.title, "email");
    assert_eq!(p.tags, vec!["x", "y"]);
    assert_eq!(p.username, "a@b.com");
    assert_eq!(p.url.as_deref(), Some("https://mail"));
    assert_eq!(p.created_at, p.updated_at);
    assert!(p.created_at.secs > 1_600_000_000);
    assert_eq!(p.encrypted_password.ciphertext, vec![1, 2, 3]);
    let other = Password::new(
        PasswordCreateRequest {
            title: "t".to_string(),
            description: String::new(),
            tags: vec![],
            username: String::new(),
            password: String::new(),
            url: None,
            key: String::new(),
        },
        blob(),
    );
    assert_ne!(p.id, other.id);

    let id = p.id.clone();
    let created = p.created_at;
    let at = Timestamp { secs: 99, nanos: 1 };
    let new_blob = EncryptedData { ciphertext: vec![9], nonce: vec![1; 12], salt: vec![2; 16] };
    p.update_at(
        PasswordUpdateRequest {
            id: id.clone(),
            title: Some("mail".to_string()),
            description: None,
            tags: None,
            username: Some("c@d.com".to_string()),
            password: Some("n".to_string()),
            url: None,
        },
        new_blob,
        at,
    );
    assert_eq!(p.id, id);
    assert_eq!(p.title, "mail");
    assert_eq!(p.description, "d");
    assert_eq!(p.tags, vec!["x", "y"]);
    assert_eq!(p.username, "c@d.com");
    assert_eq!(p.url.as_deref(), Some("https://mail"));
    assert_eq!(p.encrypted_password.ciphertext, vec![9]);
    assert_eq!(p.created_at, created);
    assert_eq!(p.updated_at, at);
    let copy = p.clone();
    assert_eq!(copy.title, "mail");
    p.update(
        PasswordUpdateRequest {
            id,
            title: None,
            description: Some("dd".to_string()),
            tags: Some(vec![]),
            username: None,
            password: None,
            url: Some("u".to_string()),
        },
        blob(),
    );
    assert_eq!(p.title, "mail");
    assert_eq!(p.description, "dd");
    assert!(p.tags.is_empty());
    assert_eq!(p.url.as_deref(), Some("u"));
    assert_eq!(p.created_at, created);
    let q = PasswordSearchQuery { keyword: "k".to_string(), tags: None };
    assert_eq!(q.keyword, "k");
}

#[test]
fn target_names() {
    assert_eq!(StorageTarget::Local.to_string(), "Local");
    assert_eq!(StorageTarget::GitHub.to_string(), "GitHub");
    assert_eq!(StorageTarget::GitHub.name(), "GitHub");
    assert_eq!(StorageTarget::from_name("local"), Some(StorageTarget::Local));
    assert_eq!(StorageTarget::from_name("github"), Some(StorageTarget::GitHub));
    assert_eq!(StorageTarget::from_name("Local"), None);
    assert_eq!(StorageTarget::from_name(""), None);
}

#[test]
fn text_helpers() {
    assert!(str_eq("abc", "abc"));
    assert!(!str_eq("abc", "abd"));
    assert!(!str_eq("abc", "ab"));
    assert!(str_eq("", ""));
    assert!(str_eq("é界", "é界"));
    assert_eq!(str_to_chars("aé界"), vec!['a', 'é', '界']);
    assert_eq!(chars_to_string(&vec!['a', 'é', '界']), "aé界");
    for (n, text) in [(0u64, "0"), (7, "7"), (10, "10"), (409, "409"), (12345, "12345")] {
        let mut s = String::from("n=");
        push_decimal(&mut s, n);
        assert_eq!(s, format!("n={}", text));
    }
    let mut s = String::new();
    push_decimal(&mut s, u64::MAX);
    assert_eq!(s, "18446744073709551615");
}

#[test]
fn github_addresses_and_headers() {
    let c = client();
    assert_eq!(c.repo_url(), "https://api.github.com/repos/me/vault");
    assert_eq!(
        c.contents_url("data/passwords.json"),
        "https://api.github.com/repos/me/vault/contents/data/passwords.json"
    );
    assert_eq!(c.authorization(), "Bearer tok");
}

#[test]
fn github_status_classes() {
    assert_eq!(status_class(200), StatusClass::Success);
    assert_eq!(status_class(201), StatusClass::Success);
    assert_eq!(status_class(299), StatusClass::Success);
    assert_eq!(status_class(199), StatusClass::Failure);
    assert_eq!(status_class(300), StatusClass::Failure);
    assert_eq!(status_class(404), StatusClass::NotFound);
    assert_eq!(status_class(409), StatusClass::Conflict);
    assert_eq!(status_class(412), StatusClass::Conflict);
    assert_eq!(status_class(422), StatusClass::Conflict);
    assert_eq!(status_class(401), StatusClass::Failure);
    assert_eq!(status_class(500), StatusClass::Failure);
}

#[test]
fn github_lookup_answers() {
    match GithubClient::get_file(200, Some(file("", "base64")), "").unwrap() {
        Lookup::Found(f) => assert_eq!(f.sha, "abc123"),
        Lookup::Missing => panic!("expected the file"),
    }
    assert!(matches!(GithubClient::get_file(404, None, "Not Found").unwrap(), Lookup::Missing));
    let e = GithubClient::get_file(200, None, "garbage").unwrap_err();
    assert_eq!(e.kind, ErrorKind::SerializationFailure);
    let e = GithubClient::get_file(500, None, "boom").unwrap_err();
    assert_eq!(e.kind, ErrorKind::NetworkFailure);
    assert_eq!(e.to_string(), "GitHub API error (500): boom");
    let e = GithubClient::get_file(401, Some(file("", "base64")), "Bad credentials").unwrap_err();
    assert_eq!(e.kind, ErrorKind::NetworkFailure);
    assert_eq!(e.to_string(), "GitHub API error (401): Bad credentials");
}

#[test]
fn github_write_answers() {
    assert!(GithubClient::write_outcome(200, "").is_ok());
    assert!(GithubClient::write_outcome(201, "").is_ok());
    let e = GithubClient::write_outcome(409, "sha mismatch").unwrap_err();
    assert_eq!(e.kind, ErrorKind::ConflictFailure);
    assert_eq!(e.to_string(), "GitHub API error (409): sha mismatch");
    assert_eq!(GithubClient::write_outcome(422, "").unwrap_err().kind, ErrorKind::ConflictFailure);
    assert_eq!(GithubClient::write_outcome(500, "").unwrap_err().kind, ErrorKind::NetworkFailure);
    assert_eq!(GithubClient::write_outcome(404, "").unwrap_err().kind, ErrorKind::NetworkFailure);
}

#[test]
fn github_request_bodies() {
    let c = client();
    let req = c.create_or_update_file("{\"a\":1}\n", "msg", Some("abc123"), None, None).unwrap();
    assert!(req.author.is_none() && req.committer.is_none());
    assert_eq!(req.content, "eyJhIjoxfQo=");
    assert_eq!(req.message, "msg");
    assert_eq!(req.sha.as_deref(), Some("abc123"));
    assert_eq!(req.branch, "main");
    let author = Author { name: "Ann".to_string(), email: "ann@example.com".to_string() };
    let committer = Committer { name: "Bob".to_string(), email: "bob@example.com".to_string() };
    let req = c.create_or_update_file("hello", "m", None, Some(author), Some(committer)).unwrap();
    assert_eq!(req.content, "aGVsbG8=");
    assert!(req.sha.is_none());
    assert_eq!(req.author.as_ref().unwrap().name, "Ann");
    assert_eq!(req.author.as_ref().unwrap().email, "ann@example.com");
    assert_eq!(req.committer.as_ref().unwrap().name, "Bob");
    assert_eq!(req.committer.as_ref().unwrap().email, "bob@example.com");
    let del = c.delete_file("remove", "abc123");
    assert_eq!(del.message, "remove");
    assert_eq!(del.sha, "abc123");
    assert_eq!(del.branch, "main");
}

#[test]
fn github_content_decoding() {
    let c = client();
    assert_eq!(c.decode_file_content(&file("aGVsbG8=", "base64")).unwrap(), "hello");
    assert_eq!(c.decode_file_content(&file("aGVs\nbG8=\n", "base64")).unwrap(), "hello");
    assert_eq!(c.decode_file_content(&file("", "base64")).unwrap(), "");
    let e = c.decode_file_content(&file("aGVsbG8=", "utf-8")).unwrap_err();
    assert_eq!(e.kind, ErrorKind::SerializationFailure);
    let e = c.decode_file_content(&file("not base64!", "base64")).unwrap_err();
    assert_eq!(e.kind, ErrorKind::SerializationFailure);
    let e = c.decode_file_content(&file("/w==", "base64")).unwrap_err();
    assert_eq!(e.kind, ErrorKind::SerializationFailure);
    let long = "a snapshot that is long enough to be wrapped over several lines ✓";
    let sent = c.create_or_update_file(long, "m", None, None, None).unwrap();
    let mut wrapped = String::new();
    for (i, ch) in sent.content.chars().enumerate() {
        if i % 7 == 0 {
            wrapped.push('\n');
        }
        wrapped.push(ch);
    }
    wrapped.push_str("\n\n");
    assert_eq!(c.decode_file_content(&file(&wrapped, "base64")).unwrap(), long);
    let req = c.create_or_update_file("snapshot ✓", "m", None, None, None).unwrap();
    assert_eq!(c.decode_file_content(&file(&req.content, "base64")).unwrap(), "snapshot ✓");
}

#[test]
fn github_identity() {
    let mut cfg = GitHubStoreConfig {
        owner: "me".to_string(),
        repo: "vault".to_string(),
        file_path: "p.json".to_string(),
        branch: None,
        author_name: Some("Ann".to_string()),
        author_email: None,
    };
    assert!(cfg.get_author().is_none());
    assert!(cfg.get_committer().is_none());
    cfg.author_email = Some("ann@example.com".to_string());
    let a = cfg.get_author().unwrap();
    assert_eq!((a.name.as_str(), a.email.as_str()), ("Ann", "ann@example.com"));
    let c = cfg.get_committer().unwrap();
    assert_eq!((c.name.as_str(), c.email.as_str()), ("Ann", "ann@example.com"));
}

fn hosted() -> GithubStorage {
    GithubStorage::new(
        "me".to_string(),
        "vault".to_string(),
        "tok".to_string(),
        "main".to_string(),
        "data/p.json".to_string(),
    )
}

#[test]
fn hosted_save_updates_an_existing_file() {
    let s = hosted();
    let (state, action) = s.save_step(
        SaveState::Idle,
        SaveEvent::Start { content: "hello".to_string(), password_count: 3 },
    );
    match &action {
        SaveAction::Get { url } => {
            assert_eq!(url, "https://api.github.com/repos/me/vault/contents/data/p.json")
        }
        _ => panic!("expected a lookup"),
    }
    let (state, action) =
        s.save_step(state, SaveEvent::Revision(Ok(Lookup::Found(file("", "base64")))));
    match &action {
        SaveAction::Put { url, body } => {
            assert_eq!(url, "https://api.github.com/repos/me/vault/contents/data/p.json");
            assert_eq!(body.message, "Update passwords - 3 items");
            assert_eq!(body.content, "aGVsbG8=");
            assert_eq!(body.sha.as_deref(), Some("abc123"));
            assert_eq!(body.branch, "main");
        }
        _ => panic!("expected a write"),
    }
    assert!(matches!(state, SaveState::AwaitingWrite));
    let (state, action) =
        s.save_step(state, SaveEvent::Written { status: 200, text: String::new() });
    assert!(matches!(state, SaveState::Finished));
    assert!(matches!(action, SaveAction::Finish { outcome: Ok(()) }));
}

#[test]
fn hosted_save_creates_a_missing_file_without_revision() {
    let s = hosted();
    let (state, _) = s.save_step(
        SaveState::Idle,
        SaveEvent::Start { content: "hello".to_string(), password_count: 0 },
    );
    let (state, action) = s.save_step(state, SaveEvent::Revision(Ok(Lookup::Missing)));
    match &action {
        SaveAction::Put { body, .. } => {
            assert!(body.sha.is_none());
            assert_eq!(body.message, "Update passwords - 0 items");
        }
        _ => panic!("expected a write"),
    }
    let (_, action) = s.save_step(state, SaveEvent::Written { status: 201, text: String::new() });
    assert!(matches!(action, SaveAction::Finish { outcome: Ok(()) }));
}

#[test]
fn hosted_save_ends_on_a_failed_lookup_without_writing() {
    let s = hosted();
    for (kind, text) in [
        (ErrorKind::NetworkFailure, "GitHub API error (500): boom"),
        (ErrorKind::NetworkFailure, "timeout"),
        (ErrorKind::SerializationFailure, "Failed to parse response"),
    ] {
        let (state, _) = s.save_step(
            SaveState::Idle,
            SaveEvent::Start { content: "hello".to_string(), password_count: 0 },
        );
        let (state, action) =
            s.save_step(state, SaveEvent::Revision(Err(VaultError::new(kind, text))));
        assert!(matches!(state, SaveState::Finished));
        match action {
            SaveAction::Finish { outcome: Err(e) } => {
                assert_eq!(e.kind, kind);
                assert_eq!(e.to_string(), text);
            }
            _ => panic!("expected the save to end with the lookup's failure"),
        }
    }
}

#[test]
fn hosted_save_commits_under_the_configured_identity() {
    let plain = hosted();
    assert!(plain.get_author().is_none() && plain.get_committer().is_none());
    let half = hosted().with_identity(Some("Ann".to_string()), None);
    assert!(half.get_author().is_none() && half.get_committer().is_none());
    let s = hosted().with_identity(Some("Ann".to_string()), Some("ann@example.com".to_string()));
    assert_eq!(s.file_path, "data/p.json");
    assert_eq!(s.client.owner, "me");
    for lookup in [Lookup::Missing, Lookup::Found(file("", "base64"))] {
        let (state, _) = s.save_step(
            SaveState::Idle,
            SaveEvent::Start { content: "hello".to_string(), password_count: 1 },
        );
        let (_, action) = s.save_step(state, SaveEvent::Revision(Ok(lookup)));
        match &action {
            SaveAction::Put { body, .. } => {
                let a = body.author.as_ref().unwrap();
                let c = body.committer.as_ref().unwrap();
                assert_eq!((a.name.as_str(), a.email.as_str()), ("Ann", "ann@example.com"));
                assert_eq!((c.name.as_str(), c.email.as_str()), ("Ann", "ann@example.com"));
            }
            _ => panic!("expected a write"),
        }
    }
    let (state, _) = half.save_step(
        SaveState::Idle,
        SaveEvent::Start { content: "hello".to_string(), password_count: 1 },
    );
    let (_, action) = half.save_step(state, SaveEvent::Revision(Ok(Lookup::Missing)));
    match &action {
        SaveAction::Put { body, .. } => {
            assert!(body.author.is_none() && body.committer.is_none())
        }
        _ => panic!("expected a write"),
    }
    assert!(author_from(&None, &Some("e".to_string())).is_none());
    assert!(committer_from(&Some("n".to_string()), &None).is_none());
    assert_eq!(author_from(&Some("n".to_string()), &Some("e".to_string())).unwrap().name, "n");
    assert_eq!(committer_from(&Some("n".to_string()), &Some("e".to_string())).unwrap().email, "e");
}

#[test]
fn probe_succeeds_on_success_statuses_only() {
    assert!(GithubClient::probe_outcome(200, "").is_ok());
    assert!(GithubClient::probe_outcome(204, "").is_ok());
    for status in [404u16, 401, 409, 500, 301] {
        let e = GithubClient::probe_outcome(status, "no").unwrap_err();
        assert_eq!(e.kind, ErrorKind::NetworkFailure);
        assert_eq!(e.to_string(), format!("GitHub API error ({}): no", status));
    }
}

#[test]
fn hosted_save_reports_conflict_and_does_not_retry() {
    let s = hosted();
    let (state, action) = s.save_step(
        SaveState::AwaitingWrite,
        SaveEvent::Written { status: 409, text: "is at 9f2 but expected abc123".to_string() },
    );
    assert!(matches!(state, SaveState::Finished));
    match action {
        SaveAction::Finish { outcome: Err(e) } => {
            assert_eq!(e.kind, ErrorKind::ConflictFailure);
            assert_eq!(e.to_string(), "GitHub API error (409): is at 9f2 but expected abc123");
        }
        _ => panic!("expected a failure"),
    }
    let (_, action) = s.save_step(
        SaveState::AwaitingWrite,
        SaveEvent::Written { status: 503, text: "down".to_string() },
    );
    match action {
        SaveAction::Finish { outcome: Err(e) } => assert_eq!(e.kind, ErrorKind::NetworkFailure),
        _ => panic!("expected a failure"),
    }
    let (_, action) =
        s.save_step(SaveState::AwaitingWrite, SaveEvent::Unreachable("timeout".to_string()));
    match action {
        SaveAction::Finish { outcome: Err(e) } => {
            assert_eq!(e.kind, ErrorKind::NetworkFailure);
            assert_eq!(e.to_string(), "timeout");
        }
        _ => panic!("expected a failure"),
    }
    let (state, action) =
        s.save_step(SaveState::Finished, SaveEvent::Unreachable("x".to_string()));
    assert!(matches!(state, SaveState::Finished));
    match action {
        SaveAction::Finish { outcome: Err(e) } => assert_eq!(e.kind, ErrorKind::NotFoundFailure),
        _ => panic!("expected a failure"),
    }
}

#[test]
fn hosted_load_reads_a_lookup() {
    let s = hosted();
    assert_eq!(s.load(Ok(Lookup::Found(file("aGVsbG8=", "base64")))).unwrap().unwrap(), "hello");
    assert!(s.load(Ok(Lookup::Missing)).unwrap().is_none());
    let e = s.load(Err(VaultError::new(ErrorKind::NetworkFailure, "down"))).unwrap_err();
    assert_eq!(e.kind, ErrorKind::NetworkFailure);
    assert_eq!(e.to_string(), "down");
    let e = s.load(Ok(Lookup::Found(file("%%%", "base64")))).unwrap_err();
    assert_eq!(e.kind, ErrorKind::SerializationFailure);
    assert_eq!(s.test_connection(), "https://api.github.com/repos/me/vault");
    assert_eq!(GithubStorage::commit_message(12), "Update passwords - 12 items");
}

#[test]
fn local_save_writes_a_temporary_file_then_renames() {
    let s = LocalStorage::new("/data/vault/passwords.json".to_string());
    assert_eq!(s.temp_path(), "/data/vault/passwords.json.tmp");
    let steps = s.save("{}".to_string());
    assert_eq!(steps.len(), 3);
    match &steps[0] {
        FileAction::CreateParentDirs { path } => assert_eq!(path, "/data/vault/passwords.json"),
        _ => panic!("expected directories first"),
    }
    match &steps[1] {
        FileAction::Write { path, content } => {
            assert_eq!(path, "/data/vault/passwords.json.tmp");
            assert_eq!(content, "{}");
        }
        _ => panic!("expected the write second"),
    }
    match &steps[2] {
        FileAction::Rename { from, to } => {
            assert_eq!(from, "/data/vault/passwords.json.tmp");
            assert_eq!(to, "/data/vault/passwords.json");
        }
        _ => panic!("expected the rename last"),
    }
    match s.test_connection() {
        FileAction::CreateParentDirs { path } => assert_eq!(path, "/data/vault/passwords.json"),
        _ => panic!("expected directories"),
    }
    assert_eq!(LocalFileStore::new("f".to_string()).file_path, "f");
}

#[test]
fn config_defaults_and_validation() {
    let mut c = Config::new();
    assert!(c.is_first_setup);
    assert_eq!(c.version, "1.0.0");
    assert_eq!(c.security.encryption_salt, vec![0u8; 32]);
    assert!(!c.security.double_encrypt_descriptions);
    assert!(c.storage.github_storage.is_none());
    assert!(c.storage.local_storage.as_ref().unwrap().enabled);
    let e = c.validate().unwrap_err();
    assert_eq!(e.kind, ErrorKind::NotFoundFailure);
    assert_eq!(e.to_string(), "Local storage path cannot be empty");
    c.storage.local_storage = Some(LocalStorageConfig { enabled: true, data_path: "/p".to_string() });
    assert!(c.validate().is_ok());
    c.storage.github_storage = Some(GithubStorageConfig {
        enabled: true,
        owner: "me".to_string(),
        repo: String::new(),
        branch: "main".to_string(),
        token: "t".to_string(),
        file_path: "p.json".to_string(),
        author_name: None,
        author_email: None,
    });
    let e = c.validate().unwrap_err();
    assert_eq!(e.to_string(), "GitHub storage configuration is incomplete");
    c.storage.github_storage.as_mut().unwrap().enabled = false;
    assert!(c.validate().is_ok());
    c.set_encryption_salt(vec![1, 2, 3]);
    assert_eq!(c.security.encryption_salt, vec![1, 2, 3]);
    assert_eq!(c.version, "1.0.0");
    let d = Config::default();
    assert!(d.is_first_setup);
}

#[test]
fn snapshot_update_changes_one_record_in_place() {
    let t = Timestamp { secs: 1, nanos: 0 };
    let later = Timestamp { secs: 2, nanos: 0 };
    let mut data = StorageData::empty("1", t);
    data.insert(record("a", "email", "d"), t);
    data.insert(record("b", "bank", "d"), t);
    let change = |id: &str| PasswordUpdateRequest {
        id: id.to_string(),
        title: Some("mail".to_string()),
        description: None,
        tags: None,
        username: None,
        password: None,
        url: Some("https://mail".to_string()),
    };
    let secret = EncryptedData { ciphertext: vec![7], nonce: vec![1; 12], salt: vec![2; 16] };
    assert!(!data.update("zz", change("zz"), secret.clone(), later));
    assert_eq!(data.metadata.last_sync, t);
    assert!(data.update("a", change("a"), secret, later));
    assert_eq!(data.metadata.last_sync, later);
    assert_eq!(data.metadata.password_count, 2);
    assert_eq!(ids(&data.passwords), vec!["a", "b"]);
    assert_eq!(data.passwords[0].title, "mail");
    assert_eq!(data.passwords[0].description, "d");
    assert_eq!(data.passwords[0].url.as_deref(), Some("https://mail"));
    assert_eq!(data.passwords[0].encrypted_password.ciphertext, vec![7]);
    assert_eq!(data.passwords[0].created_at, Timestamp { secs: 1, nanos: 2 });
    assert_eq!(data.passwords[0].updated_at, later);
    assert_eq!(data.passwords[1].title, "bank");
    assert!(data.is_well_formed());
}
