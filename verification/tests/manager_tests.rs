use passwd_lib::config::{Config, GithubStorageConfig, LocalStorageConfig};
use passwd_lib::error::{ErrorKind, VaultError};
use passwd_lib::generator::{
    clock_seed, generate_password, get_random_char, pick_char, seed_of, shuffle_chars,
    shuffle_with_seed, simple_rng, PasswordGeneratorConfig,
};
use passwd_lib::generator::password_from_draws;
use passwd_lib::manager::{
    build_storages_from_config, get_storage_status, save_data, PasswordManager, SaveReport,
};
use passwd_lib::password::{Password, PasswordCreateRequest, PasswordUpdateRequest, Timestamp};
use passwd_lib::store::{StorageData, StorageTarget};

fn config(local: bool, github: bool) -> Config {
    let mut c = Config::new();
    c.storage.local_storage =
        Some(LocalStorageConfig { enabled: local, data_path: "/data/passwords.json".to_string() });
    c.storage.github_storage = Some(GithubStorageConfig {
        enabled: github,
        owner: "me".to_string(),
        repo: "vault".to_string(),
        branch: "main".to_string(),
        token: "tok".to_string(),
        file_path: "p.json".to_string(),
        author_name: Some("Ann".to_string()),
        author_email: Some("ann@example.com".to_string()),
    });
    c
}

fn request(title: &str, password: &str, key: &str) -> PasswordCreateRequest {
    PasswordCreateRequest {
        title: title.to_string(),
        description: String::new(),
        tags: vec![],
        username: "a@b.com".to_string(),
        password: password.to_string(),
        url: None,
        key: key.to_string(),
    }
}

fn ids(records: &[Password]) -> Vec<String> {
    records.iter().map(|p| p.id.clone()).collect()
}

fn counts_hold(m: &PasswordManager) -> bool {
    [&m.cache.local, &m.cache.github].iter().all(|entry| match entry {
        Some(d) => d.metadata.password_count == d.passwords.len() && d.is_well_formed(),
        None => true,
    })
}

#[test]
fn add_search_decrypt_delete() {
    let mut m = PasswordManager::new(config(true, false)).unwrap();
    m.load_data_to_cache(StorageTarget::Local, StorageData::new()).unwrap();
    let id = m.add_password(request("email", "secret1", "mypass")).unwrap();
    assert_eq!(id.len(), 36);

    let found = m.search_passwords("email");
    assert_eq!(found.len(), 1);
    assert_eq!(found[0].id, id);
    assert_eq!(found[0].title, "email");
    assert_eq!(found[0].username, "a@b.com");
    assert_ne!(found[0].encrypted_password.ciphertext, "secret1".as_bytes());
    assert_eq!(m.decrypt_password("mypass", &found[0].encrypted_password).unwrap(), "secret1");
    assert_eq!(
        m.decrypt_password("wrong", &found[0].encrypted_password).unwrap_err().kind,
        ErrorKind::CryptoFailure
    );
    assert_eq!(ids(&m.search_passwords("mai")), vec![id.clone()]);
    assert!(m.search_passwords("bank").is_empty());

    m.delete_password(&id).unwrap();
    assert!(m.search_passwords("email").is_empty());
    assert_eq!(m.cache.local.as_ref().unwrap().metadata.password_count, 0);
    let e = m.delete_password(&id).unwrap_err();
    assert_eq!(e.kind, ErrorKind::NotFoundFailure);
}

#[test]
fn add_starts_a_snapshot_where_none_is_cached() {
    let mut m = PasswordManager::new(config(true, true)).unwrap();
    assert!(m.cache.local.is_none());
    let id = m.add_password(request("email", "secret1", "mypass")).unwrap();
    for entry in [&m.cache.local, &m.cache.github] {
        let d = entry.as_ref().unwrap();
        assert_eq!(d.metadata.version, "1");
        assert_eq!(d.metadata.password_count, 1);
        assert_eq!(ids(&d.passwords), vec![id.clone()]);
    }
    assert_eq!(
        m.cache.local.as_ref().unwrap().metadata.last_sync,
        m.cache.github.as_ref().unwrap().metadata.last_sync
    );
}

#[test]
fn add_touches_enabled_backends_only() {
    let mut m = PasswordManager::new(config(true, false)).unwrap();
    let id = m.add_password(request("email", "secret1", "mypass")).unwrap();
    assert_eq!(ids(&m.cache.local.as_ref().unwrap().passwords), vec![id]);
    assert!(m.cache.github.is_none());
    assert!(m.is_enabled(StorageTarget::Local));
    assert!(!m.is_enabled(StorageTarget::GitHub));
    assert_eq!(m.get_enabled_storages(), vec![StorageTarget::Local]);
    let e = m.load_data_to_cache(StorageTarget::GitHub, StorageData::new()).unwrap_err();
    assert_eq!(e.kind, ErrorKind::NotFoundFailure);
    assert!(m.cache.github.is_none());
    let e = m.get_all_passwords_from_storage(StorageTarget::GitHub).unwrap_err();
    assert_eq!(e.kind, ErrorKind::NotFoundFailure);
    let e = m.search_passwords_in_storage("email", StorageTarget::GitHub).unwrap_err();
    assert_eq!(e.kind, ErrorKind::NotFoundFailure);
    assert_eq!(m.search_passwords_in_storage("email", StorageTarget::Local).unwrap().len(), 1);
    assert_eq!(m.get_all_passwords_from_storage(StorageTarget::Local).unwrap().len(), 1);
}

#[test]
fn count_matches_records_after_any_sequence() {
    let mut m = PasswordManager::new(config(true, true)).unwrap();
    m.load_data_to_cache(StorageTarget::Local, StorageData::new()).unwrap();
    assert!(counts_hold(&m));
    let a = m.add_password(request("a", "1", "k")).unwrap();
    assert!(counts_hold(&m));
    let b = m.add_password(request("b", "2", "k")).unwrap();
    assert!(counts_hold(&m));
    m.delete_password(&a).unwrap();
    assert!(counts_hold(&m));
    assert!(m.delete_password("no such id").is_err());
    assert!(counts_hold(&m));
    let c = m.add_password(request("c", "3", "k")).unwrap();
    m.delete_password(&b).unwrap();
    assert!(counts_hold(&m));
    for entry in [&m.cache.local, &m.cache.github] {
        let d = entry.as_ref().unwrap();
        assert_eq!(d.metadata.password_count, 1);
        assert_eq!(ids(&d.passwords), vec![c.clone()]);
    }
}

#[test]
fn backends_are_not_merged_and_search_unions_by_id() {
    let t = Timestamp { secs: 1, nanos: 0 };
    let mut m = PasswordManager::new(config(true, true)).unwrap();
    let mut local = StorageData::empty("1", t);
    let mut hosted = StorageData::empty("1", t);
    let mut seed = PasswordManager::new(config(true, false)).unwrap();
    seed.add_password(request("email local", "1", "k")).unwrap();
    seed.add_password(request("email shared", "2", "k")).unwrap();
    let made = seed.cache.local.as_ref().unwrap().passwords.clone();
    local.insert(made[0].clone(), t);
    local.insert(made[1].clone(), t);
    let mut newer = made[1].clone();
    newer.title = "email shared (hosted)".to_string();
    hosted.insert(newer, t);
    m.load_data_to_cache(StorageTarget::Local, local).unwrap();
    m.load_data_to_cache(StorageTarget::GitHub, hosted).unwrap();

    assert_eq!(m.get_all_passwords_from_storage(StorageTarget::Local).unwrap().len(), 2);
    assert_eq!(m.get_all_passwords_from_storage(StorageTarget::GitHub).unwrap().len(), 1);
    let found = m.search_passwords("email");
    assert_eq!(ids(&found), vec![made[0].id.clone(), made[1].id.clone()]);
    assert_eq!(found[1].title, "email shared (hosted)");
    let only_local = m.search_passwords_in_storage("email", StorageTarget::Local).unwrap();
    assert_eq!(only_local[1].title, "email shared");

    m.delete_password(&made[0].id).unwrap();
    assert_eq!(m.cache.local.as_ref().unwrap().metadata.password_count, 1);
    assert_eq!(m.cache.github.as_ref().unwrap().metadata.password_count, 1);
    assert_eq!(m.cache.github.as_ref().unwrap().metadata.last_sync, t);
}

#[test]
fn partial_failure_is_reported_and_undoes_nothing() {
    let mut m = PasswordManager::new(config(true, true)).unwrap();
    let id = m.add_password(request("email", "secret1", "mypass")).unwrap();
    let jobs = m.save_plan();
    assert_eq!(jobs.len(), 2);
    assert_eq!(jobs[0].target, StorageTarget::Local);
    assert_eq!(jobs[1].target, StorageTarget::GitHub);
    assert_eq!(ids(&jobs[0].data.passwords), vec![id.clone()]);
    assert_eq!(ids(&jobs[1].data.passwords), vec![id.clone()]);
    for (job, entry) in jobs.iter().zip([&m.cache.local, &m.cache.github]) {
        let cached = entry.as_ref().unwrap();
        assert_eq!(job.data.metadata.version, cached.metadata.version);
        assert_eq!(job.data.metadata.last_sync, cached.metadata.last_sync);
        assert_eq!(job.data.metadata.password_count, cached.metadata.password_count);
        assert_eq!(cached.metadata.last_sync, cached.passwords[0].created_at);
    }

    let reports = vec![
        SaveReport { target: StorageTarget::Local, result: Ok(()) },
        SaveReport {
            target: StorageTarget::GitHub,
            result: Err(VaultError::new(ErrorKind::NetworkFailure, "timeout")),
        },
    ];
    let e = save_data(&reports).unwrap_err();
    assert_eq!(e.kind, ErrorKind::NetworkFailure);
    assert_eq!(e.to_string(), "Failed to save to GitHub: timeout");
    assert!(!e.to_string().contains("Local"));

    assert_eq!(ids(&m.search_passwords("email")), vec![id.clone()]);
    assert_eq!(ids(&m.cache.local.as_ref().unwrap().passwords), vec![id.clone()]);
    assert_eq!(ids(&m.cache.github.as_ref().unwrap().passwords), vec![id]);
}

#[test]
fn failed_backend_stays_behind_until_a_later_save() {
    let mut m = PasswordManager::new(config(true, true)).unwrap();
    let mut on_disk = StorageData::new();
    let mut on_remote = StorageData::new();
    m.load_data_to_cache(StorageTarget::Local, on_disk.clone()).unwrap();
    m.load_data_to_cache(StorageTarget::GitHub, on_remote.clone()).unwrap();

    let id = m.add_password(request("email", "secret1", "mypass")).unwrap();
    let mut reports = Vec::new();
    for job in m.save_plan() {
        let result = match job.target {
            StorageTarget::Local => {
                on_disk = job.data;
                Ok(())
            }
            StorageTarget::GitHub => Err(VaultError::new(ErrorKind::NetworkFailure, "unreachable")),
        };
        reports.push(SaveReport { target: job.target, result });
    }
    let e = save_data(&reports).unwrap_err();
    assert!(e.to_string().contains("GitHub"));
    assert!(!e.to_string().contains("Local"));
    assert_eq!(ids(&on_disk.passwords), vec![id.clone()]);
    assert_eq!(on_disk.metadata.password_count, 1);
    assert!(on_remote.passwords.is_empty());
    assert_eq!(ids(&m.cache.github.as_ref().unwrap().passwords), vec![id.clone()]);

    let mut reports = Vec::new();
    for job in m.save_plan() {
        match job.target {
            StorageTarget::Local => on_disk = job.data,
            StorageTarget::GitHub => on_remote = job.data,
        }
        reports.push(SaveReport { target: job.target, result: Ok(()) });
    }
    assert!(save_data(&reports).is_ok());
    assert_eq!(ids(&on_remote.passwords), vec![id]);
}

#[test]
fn every_failed_save_is_named() {
    assert!(save_data(&vec![]).is_ok());
    assert!(save_data(&vec![SaveReport { target: StorageTarget::Local, result: Ok(()) }]).is_ok());
    let reports = vec![
        SaveReport {
            target: StorageTarget::Local,
            result: Err(VaultError::new(ErrorKind::IOFailure, "disk full")),
        },
        SaveReport {
            target: StorageTarget::GitHub,
            result: Err(VaultError::new(ErrorKind::ConflictFailure, "stale revision")),
        },
    ];
    let e = save_data(&reports).unwrap_err();
    assert_eq!(e.kind, ErrorKind::IOFailure);
    assert_eq!(
        e.to_string(),
        "Failed to save to Local: disk full\nFailed to save to GitHub: stale revision"
    );
}

#[test]
fn configuration_is_swapped_whole() {
    let mut m = PasswordManager::new(config(true, true)).unwrap();
    let id = m.add_password(request("email", "secret1", "mypass")).unwrap();
    let mut moved = config(true, false);
    moved.storage.local_storage.as_mut().unwrap().data_path = "/other/p.json".to_string();
    m.update_config(moved).unwrap();
    assert_eq!(m.storages.local.as_ref().unwrap().data_path, "/other/p.json");
    assert!(m.is_enabled(StorageTarget::Local));
    assert!(!m.is_enabled(StorageTarget::GitHub));
    assert!(m.cache.github.is_none());
    assert_eq!(ids(&m.cache.local.as_ref().unwrap().passwords), vec![id.clone()]);
    assert_eq!(m.save_plan().len(), 1);

    let mut broken = config(true, true);
    broken.storage.local_storage.as_mut().unwrap().data_path = String::new();
    let e = m.update_config(broken).unwrap_err();
    assert_eq!(e.kind, ErrorKind::NotFoundFailure);
    assert!(!m.is_enabled(StorageTarget::GitHub));
    assert_eq!(ids(&m.cache.local.as_ref().unwrap().passwords), vec![id]);

    m.update_config(config(false, false)).unwrap();
    assert!(m.get_enabled_storages().is_empty());
    assert!(m.cache.local.is_none());
    assert!(m.add_password(request("x", "y", "z")).is_ok());
    assert!(m.search_passwords("x").is_empty());
}

#[test]
fn storages_follow_the_configuration() {
    let s = build_storages_from_config(&config(true, true)).unwrap();
    assert_eq!(s.local.as_ref().unwrap().data_path, "/data/passwords.json");
    let g = s.github.as_ref().unwrap();
    assert_eq!(g.client.owner, "me");
    assert_eq!(g.client.repo, "vault");
    assert_eq!(g.client.token, "tok");
    assert_eq!(g.client.branch, "main");
    assert_eq!(g.file_path, "p.json");
    assert_eq!(g.author_name.as_deref(), Some("Ann"));
    assert_eq!(g.author_email.as_deref(), Some("ann@example.com"));
    let m = PasswordManager::new(config(true, true)).unwrap();
    assert_eq!(m.storages.local.as_ref().unwrap().data_path, "/data/passwords.json");
    assert_eq!(m.storages.github.as_ref().unwrap().client.repo, "vault");
    assert_eq!(m.storages.github.as_ref().unwrap().author_name.as_deref(), Some("Ann"));
    let s = build_storages_from_config(&config(false, false)).unwrap();
    assert!(s.local.is_none() && s.github.is_none());
    let e = PasswordManager::new(Config::new()).unwrap_err();
    assert_eq!(e.kind, ErrorKind::NotFoundFailure);
    assert_eq!(e.to_string(), "DATA_PATH not set");
}

#[test]
fn content_match_is_plain_substring() {
    assert!(PasswordManager::is_content_match("my email", "email"));
    assert!(PasswordManager::is_content_match("email", ""));
    assert!(!PasswordManager::is_content_match("email", "Email"));
    assert!(!PasswordManager::is_content_match("ema", "email"));
    let t = Timestamp { secs: 0, nanos: 0 };
    let data = StorageData::empty("1", t);
    assert!(PasswordManager::search_in_storagedata("x", &data).is_empty());
}

#[test]
fn generator_steps_are_exact() {
    assert_eq!(simple_rng(0), 12345);
    assert_eq!(simple_rng(1), 1103527590);
    assert_eq!(simple_rng(12345), 1406932606);
    assert_eq!(simple_rng(u64::MAX), 1043980748);
    let letters: Vec<char> = "abcdefghijklmnopqrstuvwxyz".chars().collect();
    assert_eq!(pick_char(&letters, 0), 'v');
    assert_eq!(pick_char(&letters, 1), 'w');
    assert_eq!(pick_char(&letters, 5), 'e');
    assert_eq!(pick_char(&vec!['x'], 77), 'x');
    let mut s: Vec<char> = "abcdef".chars().collect();
    shuffle_with_seed(&mut s, 0);
    assert_eq!(s.iter().collect::<String>(), "bdcfae");
    let mut s: Vec<char> = "abcdef".chars().collect();
    shuffle_with_seed(&mut s, 42);
    assert_eq!(s.iter().collect::<String>(), "eabfdc");
    let mut one = vec!['z'];
    shuffle_with_seed(&mut one, 3);
    assert_eq!(one, vec!['z']);
    let mut none: Vec<char> = vec![];
    shuffle_with_seed(&mut none, 3);
    assert!(none.is_empty());
}

#[test]
fn shuffle_rearranges() {
    let mut s: Vec<char> = "hello world".chars().collect();
    shuffle_chars(&mut s);
    let mut got = s.clone();
    got.sort();
    let mut want: Vec<char> = "hello world".chars().collect();
    want.sort();
    assert_eq!(got, want);
    assert!("abc".contains(get_random_char("abc")));
}

#[test]
fn generated_passwords_meet_the_configuration() {
    let config = PasswordGeneratorConfig::default();
    let p = generate_password(&config).unwrap();
    assert_eq!(p.chars().count(), 16);
    assert!(p.chars().any(|c| c.is_ascii_lowercase()));
    assert!(p.chars().any(|c| c.is_ascii_uppercase()));
    assert!(p.chars().any(|c| c.is_ascii_digit()));
    assert!(p.chars().any(|c| "!@#$%^&*()_+-=[]{}|;:,.<>?".contains(c)));

    let digits = PasswordGeneratorConfig {
        length: 40,
        exclude_chars: Some("012345678".to_string()),
        require_uppercase: false,
        require_lowercase: false,
        require_numbers: true,
        require_symbols: false,
    };
    let p = generate_password(&digits).unwrap();
    assert_eq!(p.len(), 40);
    assert!(p.chars().all(|c| c.is_ascii_digit()));
    assert!(p.chars().filter(|c| *c != '9').count() <= 1);

    let short = PasswordGeneratorConfig { length: 2, ..PasswordGeneratorConfig::default() };
    assert_eq!(generate_password(&short).unwrap().len(), 4);
    let m = PasswordManager::new(config_for_generator()).unwrap();
    assert_eq!(m.generate_password(&config).unwrap().len(), 16);
}

fn config_for_generator() -> Config {
    config(false, false)
}

#[test]
fn generator_refuses_an_empty_alphabet() {
    let none = PasswordGeneratorConfig {
        length: 8,
        exclude_chars: None,
        require_uppercase: false,
        require_lowercase: false,
        require_numbers: false,
        require_symbols: false,
    };
    assert_eq!(generate_password(&none).unwrap_err().kind, ErrorKind::InvalidInput);
    let all_excluded = PasswordGeneratorConfig {
        length: 8,
        exclude_chars: Some("0123456789".to_string()),
        require_uppercase: false,
        require_lowercase: false,
        require_numbers: true,
        require_symbols: false,
    };
    assert_eq!(generate_password(&all_excluded).unwrap_err().kind, ErrorKind::InvalidInput);
}

#[test]
fn draws_select_by_remainder() {
    let alphabet = vec!['a', 'b', 'c'];
    assert_eq!(password_from_draws(&alphabet, &vec![0, 1, 2, 3, 4, u32::MAX]), "abcaba");
    assert_eq!(password_from_draws(&alphabet, &vec![]), "");
}

#[test]
fn status_follows_the_load() {
    let t = Timestamp { secs: 7, nanos: 8 };
    let mut seed = PasswordManager::new(config(true, false)).unwrap();
    seed.add_password(request("a", "1", "k")).unwrap();
    let mut data = StorageData::empty("1", t);
    data.insert(seed.cache.local.as_ref().unwrap().passwords[0].clone(), t);
    let ok = get_storage_status(&Ok(data));
    assert!(ok.enabled && ok.connected);
    assert_eq!(ok.password_count, 1);
    assert_eq!(ok.last_sync, Some(t));
    assert!(ok.error.is_none());
    let down = get_storage_status(&Err(VaultError::new(ErrorKind::NetworkFailure, "down")));
    assert!(down.enabled && !down.connected);
    assert_eq!(down.password_count, 0);
    assert!(down.last_sync.is_none());
    assert_eq!(down.error.as_deref(), Some("down"));
}

#[test]
fn records_are_found_by_identifier_per_backend() {
    let mut m = PasswordManager::new(config(true, true)).unwrap();
    let id = m.add_password(request("email", "secret1", "mypass")).unwrap();
    m.update_config(config(true, false)).unwrap();
    let found = m.get_password_by_id_from_storage(&id, StorageTarget::Local).unwrap().unwrap();
    assert_eq!(found.title, "email");
    assert!(m.get_password_by_id_from_storage("nope", StorageTarget::Local).unwrap().is_none());
    let e = m.get_password_by_id_from_storage(&id, StorageTarget::GitHub).unwrap_err();
    assert_eq!(e.kind, ErrorKind::NotFoundFailure);
}

#[test]
fn seeds_count_nanoseconds_and_wrap() {
    assert_eq!(seed_of(Timestamp { secs: 0, nanos: 0 }), 0);
    assert_eq!(seed_of(Timestamp { secs: 1, nanos: 5 }), 1_000_000_005);
    assert_eq!(
        seed_of(Timestamp { secs: 1_700_000_000, nanos: 123_456_789 }),
        1_700_000_000_123_456_789
    );
    assert_eq!(seed_of(Timestamp { secs: -3, nanos: 7 }), 7);
    assert_eq!(seed_of(Timestamp { secs: i64::MAX, nanos: 999_999_999 }), u64::MAX);
    assert!(clock_seed() > 1_600_000_000_000_000_000);
}

fn change(id: &str, title: Option<&str>, password: Option<&str>) -> PasswordUpdateRequest {
    PasswordUpdateRequest {
        id: id.to_string(),
        title: title.map(|t| t.to_string()),
        description: None,
        tags: None,
        username: None,
        password: password.map(|p| p.to_string()),
        url: None,
    }
}

#[test]
fn update_changes_the_record_in_every_snapshot_that_holds_it() {
    let mut m = PasswordManager::new(config(true, true)).unwrap();
    m.load_data_to_cache(StorageTarget::Local, StorageData::empty("1.0.0", Timestamp { secs: 1, nanos: 0 }))
        .unwrap();
    let id = m.add_password(request("email", "secret1", "mypass")).unwrap();
    let other = m.add_password(request("bank", "secret2", "mypass")).unwrap();
    let before = m.cache.local.as_ref().unwrap().passwords[0].clone();

    m.update_password(&id, change(&id, Some("mail"), None), "ignored").unwrap();
    for entry in [&m.cache.local, &m.cache.github] {
        let d = entry.as_ref().unwrap();
        assert_eq!(ids(&d.passwords), vec![id.clone(), other.clone()]);
        assert_eq!(d.metadata.password_count, 2);
        let p = &d.passwords[0];
        assert_eq!(p.title, "mail");
        assert_eq!(p.username, "a@b.com");
        assert_eq!(p.created_at, before.created_at);
        assert_eq!(p.updated_at, d.metadata.last_sync);
        assert_eq!(p.encrypted_password.ciphertext, before.encrypted_password.ciphertext);
        assert_eq!(m.decrypt_password("mypass", &p.encrypted_password).unwrap(), "secret1");
        assert_eq!(d.passwords[1].title, "bank");
    }
    assert_eq!(m.cache.local.as_ref().unwrap().metadata.version, "1.0.0");
    assert_eq!(m.cache.github.as_ref().unwrap().metadata.version, "1");

    m.update_password(&id, change(&id, None, Some("secret9")), "newpass").unwrap();
    let p = &m.cache.github.as_ref().unwrap().passwords[0];
    assert_eq!(p.title, "mail");
    assert_eq!(m.decrypt_password("newpass", &p.encrypted_password).unwrap(), "secret9");
    assert!(m.decrypt_password("mypass", &p.encrypted_password).is_err());
    assert_eq!(
        m.cache.local.as_ref().unwrap().passwords[0].encrypted_password.ciphertext,
        p.encrypted_password.ciphertext
    );

    let e = m.update_password("nope", change("nope", Some("x"), None), "k").unwrap_err();
    assert_eq!(e.kind, ErrorKind::NotFoundFailure);
    assert!(counts_hold(&m));
}

#[test]
fn update_keeps_each_snapshots_own_secret() {
    let t = Timestamp { secs: 1, nanos: 0 };
    let mut seed = PasswordManager::new(config(true, false)).unwrap();
    let id = seed.add_password(request("email", "local secret", "k")).unwrap();
    let local_record = seed.cache.local.as_ref().unwrap().passwords[0].clone();
    let mut hosted_record = local_record.clone();
    hosted_record.encrypted_password.ciphertext = vec![9; 20];
    let mut local = StorageData::empty("1", t);
    local.insert(local_record, t);
    let mut hosted = StorageData::empty("1", t);
    hosted.insert(hosted_record, t);
    let mut m = PasswordManager::new(config(true, true)).unwrap();
    m.load_data_to_cache(StorageTarget::Local, local).unwrap();
    m.load_data_to_cache(StorageTarget::GitHub, hosted).unwrap();

    let at = Timestamp { secs: 50, nanos: 0 };
    assert!(m.update_record(&id, &change(&id, Some("mail"), None), None, at));
    let l = &m.cache.local.as_ref().unwrap().passwords[0];
    let h = &m.cache.github.as_ref().unwrap().passwords[0];
    assert_eq!((l.title.as_str(), h.title.as_str()), ("mail", "mail"));
    assert_eq!((l.updated_at, h.updated_at), (at, at));
    assert_eq!(h.encrypted_password.ciphertext, vec![9; 20]);
    assert_ne!(l.encrypted_password.ciphertext, h.encrypted_password.ciphertext);
    assert_eq!(m.cache.local.as_ref().unwrap().metadata.last_sync, at);
    assert!(!m.update_record("nope", &change("nope", None, None), None, at));
    let copy = change(&id, Some("a"), Some("b")).clone();
    assert_eq!(copy.title.as_deref(), Some("a"));
    assert_eq!(copy.password.as_deref(), Some("b"));
}

#[test]
fn version_stays_through_add_and_delete() {
    let mut m = PasswordManager::new(config(true, true)).unwrap();
    m.load_data_to_cache(StorageTarget::Local, StorageData::empty("1.0.0", Timestamp { secs: 1, nanos: 0 }))
        .unwrap();
    let id = m.add_password(request("email", "secret1", "mypass")).unwrap();
    assert_eq!(m.cache.local.as_ref().unwrap().metadata.version, "1.0.0");
    assert_eq!(m.cache.github.as_ref().unwrap().metadata.version, "1");
    m.delete_password(&id).unwrap();
    assert_eq!(m.cache.local.as_ref().unwrap().metadata.version, "1.0.0");
    assert_eq!(m.cache.github.as_ref().unwrap().metadata.version, "1");
}
