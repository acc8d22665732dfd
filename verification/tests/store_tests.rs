use fj_ex::store::creds::{
    default_cookie_path, entry_has_auth, entry_has_complete_creds, CookieJar, CookieRecord,
    CredsStore, StoreEntry,
};
use fj_ex::store::file::{
    backup_path, backup_path_at, load_step, lock_step, read_needs_lock, temp_file_name_at,
    temp_store_file_name, update_creds_store, LoadStep, LockMode, LockStep,
};
use fj_ex::store::repair::{
    entry_from_fields, repair_creds_store_at, repair_creds_store_from_raw,
    repair_invalid_store_text,
};
use fj_ex::store::{
    app_data_base_dir, check_ui_creds, check_web_cookie_jar, get_store_entry, get_ui_creds,
    keys_store_paths, store_key, ui_creds_store_paths, StoreError,
};

fn cookie(name: &str) -> CookieRecord {
    CookieRecord {
        name: name.to_string(),
        value: "v".to_string(),
        domain: "forge.example.com".to_string(),
        host_only: true,
        path: "/".to_string(),
        expires_utc: None,
        secure: true,
        http_only: false,
        same_site: None,
    }
}

fn jar(names: &[&str]) -> CookieJar {
    CookieJar {
        saved_utc: Some("2024-01-01T00:00:00Z".to_string()),
        cookies: names.iter().map(|n| cookie(n)).collect(),
    }
}

fn entry(username: Option<&str>, password: Option<&str>) -> StoreEntry {
    StoreEntry {
        base_url: None,
        username: username.map(str::to_string),
        password: password.map(str::to_string),
        user_pass: None,
        auth_method: None,
        updated_utc: None,
        cookie_jar: None,
        extra: Vec::new(),
    }
}

#[test]
fn repair_drops_cookie_jars_and_keeps_creds() {
    let raw = r#"
{
  "forge.example.com": {
    "baseUrl": "https://forge.example.com",
    "username": "alice",
    "password": "secret",
    "updatedUtc": "2020-01-01T00:00:00Z",
    "cookieJar": { "cookies": [ { "name": "a" } ] }
  },
  "other": {
    "username": "bob",
    "password": "hunter2"
  }
"#;

    let repaired = repair_creds_store_from_raw(raw, true).unwrap();
    assert!(repaired.get("forge.example.com").is_some());
    assert!(repaired.get("other").is_some());
    assert!(repaired.get("forge.example.com").unwrap().cookie_jar.is_none());
    assert_eq!(
        repaired.get("forge.example.com").unwrap().base_url.as_deref(),
        Some("https://forge.example.com")
    );
    assert_eq!(
        repaired.get("other").unwrap().base_url.as_deref(),
        Some("https://other")
    );
}

#[test]
fn repair_stamps_entries_without_a_time() {
    let raw = r#"{ "a.example": { "username": "u", "password": "p" }, "b.example": { "username": "x" } "#;
    let repaired = repair_creds_store_at(raw, "NOW", true).unwrap();
    assert_eq!(repaired.len(), 1);
    let a = repaired.get("a.example").unwrap();
    assert_eq!(a.updated_utc.as_deref(), Some("NOW"));
    assert_eq!(a.user_pass.as_deref(), Some("u:p"));
    assert!(repaired.get("b.example").is_none());

    assert!(repair_invalid_store_text("not json at all", true).unwrap().is_none());
    let some = repair_invalid_store_text(raw, true).unwrap().unwrap();
    assert_eq!(some.len(), 1);
}

#[test]
fn store_paths_live_under_app_data() {
    let p = ui_creds_store_paths(Some("/home/u/.local/share"), None, '/').unwrap();
    assert_eq!(p.dir, "/home/u/.local/share/Cyborus/forgejo-cli/data");
    assert_eq!(p.path, "/home/u/.local/share/Cyborus/forgejo-cli/data/ui-creds.json");

    let k = keys_store_paths(Some(""), Some("C:\\Users\\u\\AppData\\Roaming"), '\\').unwrap();
    assert_eq!(k.dir, "C:\\Users\\u\\AppData\\Roaming\\Cyborus\\forgejo-cli\\data");
    assert_eq!(k.path, "C:\\Users\\u\\AppData\\Roaming\\Cyborus\\forgejo-cli\\data\\keys.json");

    let p = ui_creds_store_paths(Some("/data/"), None, '/').unwrap();
    assert_eq!(p.dir, "/data/Cyborus/forgejo-cli/data");

    assert!(matches!(app_data_base_dir(None, None), Err(StoreError::NoAppDataDir)));
    assert_eq!(
        StoreError::NoAppDataDir.message(),
        "unable to locate AppData directory"
    );
}

#[test]
fn credentials_round_trip_through_the_store() {
    let mut store = CredsStore::new();
    let key = store_key("forge.example.com", true).unwrap();
    assert_eq!(key.normalized, "https://forge.example.com");
    assert_eq!(key.host_key, "forge.example.com");

    assert!(store.set_ui_creds(&key, "alice", "secret", "T1".to_string()));
    assert!(!store.finish_update(false, false));
    let info = get_store_entry(&store, &key);
    assert_eq!(info.base_url, "https://forge.example.com");
    let creds = get_ui_creds(info).unwrap().unwrap();
    assert_eq!(creds.username, "alice");
    assert_eq!(creds.password, "secret");
    assert_eq!(creds.updated_utc.as_deref(), Some("T1"));
    assert_eq!(
        store.get("forge.example.com").unwrap().user_pass.as_deref(),
        Some("alice:secret")
    );

    // Saving cookies keeps the credentials; a new password login keeps the cookies.
    assert!(store.save_cookie_jar(&key, jar(&["session"])));
    assert!(store.set_ui_creds(&key, "alice", "changed", "T2".to_string()));
    let e = store.get("forge.example.com").unwrap();
    assert_eq!(e.password.as_deref(), Some("changed"));
    assert_eq!(e.cookie_jar.as_ref().unwrap().cookies.len(), 1);

    // Clearing cookies keeps the credentials.
    assert!(store.clear_cookie_jar(&key));
    let e = store.get("forge.example.com").unwrap();
    assert!(e.cookie_jar.is_none());
    assert_eq!(e.username.as_deref(), Some("alice"));

    // Deleting removes the entry.
    let (removed, changed) = store.delete_store_entry(&key);
    assert!(changed);
    assert_eq!(removed.unwrap().username.as_deref(), Some("alice"));
    assert!(store.get("forge.example.com").is_none());
    let (removed, changed) = store.delete_store_entry(&key);
    assert!(removed.is_none());
    assert!(!changed);
    assert!(get_ui_creds(get_store_entry(&store, &key)).unwrap().is_none());
}

#[test]
fn web_sessions_hold_no_password() {
    let mut store = CredsStore::new();
    let key = store_key("https://forge.example.com/", true).unwrap();
    assert!(store.set_web_cookie_jar(&key, jar(&["a", "b"]), "T".to_string()));
    let e = store.get("forge.example.com").unwrap();
    assert_eq!(e.auth_method.as_deref(), Some("web-cookie"));
    assert!(e.username.is_none());
    assert!(entry_has_auth(e));
    assert!(!entry_has_complete_creds(e));
    let err = get_ui_creds(get_store_entry(&store, &key)).unwrap_err();
    assert!(matches!(err, StoreError::WebSessionOnly(_)));
    assert_eq!(
        err.message(),
        "Stored web login for 'https://forge.example.com' has no username/password. Run `fj-ex auth login --host https://forge.example.com --web` to refresh it."
    );

    // Clearing the cookies of a browser session leaves nothing to log in with.
    assert!(store.clear_cookie_jar(&key));
    assert!(store.finish_update(true, false));
    assert!(store.get("forge.example.com").is_none());

    assert!(check_web_cookie_jar(&jar(&[])).is_err());
    assert!(check_web_cookie_jar(&jar(&["a"])).is_ok());
}

#[test]
fn saving_cookies_needs_an_entry() {
    let mut store = CredsStore::new();
    let key = store_key("forge.example.com", true).unwrap();
    assert!(!store.save_cookie_jar(&key, jar(&["a"])));
    assert!(store.is_empty());
}

#[test]
fn legacy_entries_under_the_base_url_are_found() {
    let mut store = CredsStore::new();
    store.insert(
        "https://forge.example.com".to_string(),
        entry(Some("bob"), Some("pw")),
    );
    let key = store_key("forge.example.com", true).unwrap();
    let info = get_store_entry(&store, &key);
    let e = info.entry.unwrap();
    assert_eq!(e.username.as_deref(), Some("bob"));
    assert_eq!(e.base_url.as_deref(), Some("https://forge.example.com"));

    // Setting credentials moves the entry to the host key.
    assert!(store.set_ui_creds(&key, "bob", "pw2", "T".to_string()));
    assert!(store.get("https://forge.example.com").is_none());
    assert!(store.get("forge.example.com").is_some());
}

#[test]
fn entries_without_auth_are_dropped() {
    let mut store = CredsStore::new();
    store.insert("a".to_string(), entry(Some("u"), Some("p")));
    store.insert("b".to_string(), entry(Some("u"), Some(" ")));
    store.insert("c".to_string(), entry(None, None));
    assert_eq!(store.remove_entries_without_auth(), 2);
    assert_eq!(store.len(), 1);
    assert!(store.get("a").is_some());
    let copy = store.duplicate();
    assert_eq!(copy.len(), 1);
    assert_eq!(copy.entries()[0].0, "a");

    let from = CredsStore::from_entries(vec![
        ("z".to_string(), entry(Some("1"), Some("1"))),
        ("y".to_string(), entry(Some("2"), Some("2"))),
        ("z".to_string(), entry(Some("3"), Some("3"))),
    ]);
    assert_eq!(from.len(), 2);
    assert_eq!(from.entries()[0].0, "y");
    assert_eq!(from.get("z").unwrap().username.as_deref(), Some("3"));
}

#[test]
fn blank_credentials_are_not_stored() {
    assert!(check_ui_creds("alice", "secret").is_ok());
    assert!(matches!(check_ui_creds("alice", "  "), Err(StoreError::BlankCredentials)));
    assert_eq!(
        StoreError::BlankCredentials.message(),
        "username/password must not be empty"
    );
    assert_eq!(default_cookie_path(), "/");
}

#[test]
fn store_file_rules() {
    assert_eq!(load_step(None, false, true), LoadStep::Empty);
    assert_eq!(load_step(Some("  \n"), false, true), LoadStep::Empty);
    assert_eq!(load_step(Some("{}"), true, false), LoadStep::Parsed);
    assert_eq!(load_step(Some("{"), false, true), LoadStep::Repair);
    assert_eq!(load_step(Some("{"), false, false), LoadStep::Invalid);
    assert!(read_needs_lock(false, 0));
    assert!(read_needs_lock(true, 1));
    assert!(!read_needs_lock(true, 0));

    assert_eq!(
        temp_file_name_at(Some("ui-creds.json"), 42, -7),
        "ui-creds.json.42.-7.tmp"
    );
    assert_eq!(temp_file_name_at(None, 1, 99), "ui-creds.json.1.99.tmp");
    let t = temp_store_file_name(Some("x.json"), 5);
    assert!(t.starts_with("x.json.5."));
    assert!(t.ends_with(".tmp"));

    assert_eq!(
        backup_path_at("/d/ui-creds.json", "20240101T000000Z"),
        "/d/ui-creds.json.bad.20240101T000000Z.json"
    );
    let b = backup_path("/d/ui-creds.json").unwrap();
    assert!(b.starts_with("/d/ui-creds.json.bad."));
    assert!(b.ends_with("Z.json"));
    assert_eq!(b.len(), "/d/ui-creds.json.bad.".len() + 16 + ".json".len());
}

#[test]
fn repaired_entries_from_captured_fields() {
    let e = entry_from_fields(
        "other",
        Some("bob".to_string()),
        Some("hunter2".to_string()),
        None,
        None,
        "NOW",
        true,
    )
    .unwrap();
    assert_eq!(e.base_url.as_deref(), Some("https://other"));
    assert_eq!(e.updated_utc.as_deref(), Some("NOW"));
    assert_eq!(e.user_pass.as_deref(), Some("bob:hunter2"));
    assert!(e.cookie_jar.is_none());
    let e = entry_from_fields(
        "x",
        Some("u".to_string()),
        Some("p".to_string()),
        Some("https://b".to_string()),
        Some("T".to_string()),
        "NOW",
        true,
    )
    .unwrap();
    assert_eq!(e.base_url.as_deref(), Some("https://b"));
    assert_eq!(e.updated_utc.as_deref(), Some("T"));
    assert!(entry_from_fields("x", Some("u".to_string()), None, None, None, "NOW", true).is_none());
    // A socket host is not a base URL where the platform has no sockets.
    let e = entry_from_fields(
        "http+unix:///run/f.sock",
        Some("u".to_string()),
        Some("p".to_string()),
        None,
        None,
        "NOW",
        false,
    )
    .unwrap();
    assert!(e.base_url.is_none());
}

#[test]
fn lock_modes_decide_what_an_update_does() {
    assert_eq!(lock_step(LockMode::Required, true), LockStep::Proceed);
    assert_eq!(lock_step(LockMode::Optional, true), LockStep::Proceed);
    assert_eq!(lock_step(LockMode::Required, false), LockStep::Fail);
    assert_eq!(lock_step(LockMode::Optional, false), LockStep::Skip);
}

#[test]
fn backup_stamp_has_compact_utc_format() {
    assert_eq!(
        fj_ex::store::file::backup_stamp_format(),
        "[year][month][day]T[hour][minute][second]Z"
    );
    let path = backup_path("/tmp/creds.json").unwrap();
    assert!(path.starts_with("/tmp/creds.json.bad."));
    assert!(path.ends_with("Z.json"));
    assert_eq!(path.len(), "/tmp/creds.json.bad.".len() + 16 + ".json".len());
}

#[test]
fn update_under_lock_follows_the_lock_mode() {
    let skipped = update_creds_store(
        LockMode::Optional,
        false,
        "locked",
        || -> Result<(CredsStore, bool), &str> { panic!("no load without the lock") },
        |s: CredsStore| -> Result<(CredsStore, u8, bool), &str> { Ok((s, 1, true)) },
    );
    assert!(matches!(skipped, Ok(None)));
    let failed = update_creds_store(
        LockMode::Required,
        false,
        "locked",
        || -> Result<(CredsStore, bool), &str> { panic!("no load without the lock") },
        |s: CredsStore| -> Result<(CredsStore, u8, bool), &str> { Ok((s, 1, true)) },
    );
    assert!(matches!(failed, Err("locked")));
    let load_failed = update_creds_store(
        LockMode::Required,
        true,
        "locked",
        || -> Result<(CredsStore, bool), &str> { Err("unreadable") },
        |s: CredsStore| -> Result<(CredsStore, u8, bool), &str> { Ok((s, 1, true)) },
    );
    assert!(matches!(load_failed, Err("unreadable")));
}

#[test]
fn update_under_lock_writes_only_what_changed() {
    let key = store_key("forge.example.com", true).unwrap();
    let done = update_creds_store(
        LockMode::Optional,
        true,
        "locked",
        || -> Result<(CredsStore, bool), &str> { Ok((CredsStore::new(), false)) },
        |mut s: CredsStore| -> Result<(CredsStore, &str, bool), &str> {
            let changed = s.set_ui_creds(&key, "alice", "secret", "T".to_string());
            Ok((s, "set", changed))
        },
    )
    .unwrap()
    .unwrap();
    assert_eq!(done.value, "set");
    assert!(done.changed && done.write);
    assert_eq!(done.store.len(), 1);

    let untouched = update_creds_store(
        LockMode::Required,
        true,
        "locked",
        || -> Result<(CredsStore, bool), &str> { Ok((CredsStore::new(), false)) },
        |s: CredsStore| -> Result<(CredsStore, (), bool), &str> { Ok((s, (), false)) },
    )
    .unwrap()
    .unwrap();
    assert!(!untouched.write);

    let repaired = update_creds_store(
        LockMode::Required,
        true,
        "locked",
        || -> Result<(CredsStore, bool), &str> { Ok((CredsStore::new(), true)) },
        |s: CredsStore| -> Result<(CredsStore, (), bool), &str> { Ok((s, (), false)) },
    )
    .unwrap()
    .unwrap();
    assert!(repaired.write);

    let refused = update_creds_store(
        LockMode::Required,
        true,
        "locked",
        || -> Result<(CredsStore, bool), &str> { Ok((CredsStore::new(), false)) },
        |_s: CredsStore| -> Result<(CredsStore, (), bool), &str> { Err("bad update") },
    );
    assert!(matches!(refused, Err("bad update")));
}
