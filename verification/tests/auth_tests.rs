use fj_ex::auth::{
    default_nuget_token_name, entry_display_username, entry_host_key, entry_label,
    group_logins_by_host, has_complete_creds, has_password, list_lines, listed_base_url,
    logout_message, nuget_env_lines, nuget_plan, nuget_token_name, plan_nuget_api_key,
    show_lines, status_step, trim_end_char_of, AuthError, StatusStep,
};
use fj_ex::store::creds::{CookieJar, CredsStore, StoreEntry};
use fj_ex::store::UiCreds;

fn entry(base_url: Option<&str>, username: Option<&str>, password: Option<&str>) -> StoreEntry {
    StoreEntry {
        base_url: base_url.map(str::to_string),
        username: username.map(str::to_string),
        password: password.map(str::to_string),
        user_pass: None,
        auth_method: None,
        updated_utc: None,
        cookie_jar: None,
        extra: Vec::new(),
    }
}

fn creds(username: &str) -> UiCreds {
    UiCreds {
        base_url: "https://forge.example.com".to_string(),
        username: username.to_string(),
        password: "secret".to_string(),
        updated_utc: None,
    }
}

#[test]
fn complete_creds_need_a_non_blank_username_and_password() {
    assert!(has_complete_creds(&entry(None, Some("alice"), Some("secret"))));
    assert!(!has_complete_creds(&entry(None, Some(" "), Some("secret"))));
    assert!(!has_complete_creds(&entry(None, Some("alice"), None)));
    assert!(has_password(&entry(None, None, Some(" "))));
    assert!(!has_password(&entry(None, None, Some(""))));
    assert!(!has_password(&entry(None, None, None)));
}

#[test]
fn logins_are_named_user_at_host() {
    assert_eq!(entry_display_username(&entry(None, Some("alice"), None)), "alice");
    assert_eq!(entry_display_username(&entry(None, None, None)), "web-session");
    assert_eq!(
        entry_label(&entry(None, None, None), "forge.example.com"),
        "web-session@forge.example.com"
    );
    assert_eq!(
        logout_message(Some(&entry(None, Some("alice"), None)), "forge.example.com"),
        "signed out of alice@forge.example.com"
    );
    assert_eq!(
        logout_message(None, "forge.example.com"),
        "already signed out of forge.example.com"
    );
}

#[test]
fn list_groups_logins_by_host_key_first_entry_wins() {
    let mut store = CredsStore::new();
    // Sorted by store key: "forge.example.com" < "https://forge.example.com" < "other".
    store.insert(
        "forge.example.com".to_string(),
        entry(Some("https://forge.example.com"), Some("alice"), Some("p")),
    );
    store.insert(
        "https://forge.example.com".to_string(),
        entry(None, Some("legacy"), Some("p")),
    );
    store.insert("other".to_string(), entry(None, None, None));
    assert_eq!(entry_host_key("https://forge.example.com", &entry(None, None, None)), "forge.example.com");

    let by_host = group_logins_by_host(&store);
    assert_eq!(by_host.len(), 2);
    assert_eq!(
        by_host.get("forge.example.com").unwrap().username.as_deref(),
        Some("alice")
    );
    assert!(by_host.get("other").is_some());
    assert_eq!(
        list_lines(&by_host),
        vec!["alice@forge.example.com", "web-session@other"]
    );
    assert_eq!(list_lines(&CredsStore::new()), vec!["No logins."]);
    assert_eq!(
        listed_base_url("other", by_host.get("other").unwrap()),
        "https://other"
    );
    assert_eq!(
        listed_base_url("forge.example.com", by_host.get("forge.example.com").unwrap()),
        "https://forge.example.com"
    );
}

#[test]
fn show_prints_the_stored_login() {
    let mut e = entry(None, Some("alice"), Some("secret"));
    e.updated_utc = Some("2024-01-01T00:00:00Z".to_string());
    e.cookie_jar = Some(CookieJar {
        saved_utc: None,
        cookies: Vec::new(),
    });
    let lines = show_lines("https://f.example", "f.example", "/d/ui-creds.json", &e, false);
    assert_eq!(
        lines,
        vec![
            "Host:      https://f.example",
            "HostKey:   f.example",
            "Username:  alice",
            "Auth:      password",
            "Updated:   2024-01-01T00:00:00Z",
            "Cookies:   0",
            "Store:     /d/ui-creds.json",
        ]
    );
    let e = entry(None, None, None);
    let lines = show_lines("https://f.example", "f.example", "/s", &e, true);
    assert_eq!(lines[2], "Username:  web-session");
    assert_eq!(lines[4], "Updated:   ?");
    assert_eq!(lines[7], "Password:  ");
}

#[test]
fn status_steps() {
    assert_eq!(status_step(true, true, true), StatusStep::Report);
    assert_eq!(status_step(true, false, true), StatusStep::Refuse);
    assert_eq!(status_step(false, true, false), StatusStep::Relogin);
    assert_eq!(
        AuthError::NotLoggedIn("https://f.example".to_string()).message(),
        "Not logged in to 'https://f.example' (cookie session invalid and --no-relogin specified). Run `fj-ex auth login --host https://f.example --web` for SSO/browser login."
    );
}

#[test]
fn nuget_plan_defaults_owner_to_username() {
    let plan = nuget_plan("https://forge.example.com/", Some(&creds(" alice ")), None, " key ", false).unwrap();
    assert_eq!(plan.username, "alice");
    assert_eq!(plan.owner, "alice");
    assert_eq!(plan.token_name, "key");
    assert_eq!(plan.scope, "write:package");
    assert_eq!(plan.tokens_path, "/users/alice/tokens");
    assert_eq!(
        plan.registry_url,
        "https://forge.example.com/api/packages/alice/nuget/index.json"
    );
    assert_eq!(
        nuget_env_lines(&plan, "abc123"),
        vec![
            "FORGEJO_NUGET_USERNAME=alice",
            "FORGEJO_NUGET_SOURCE=https://forge.example.com/api/packages/alice/nuget/index.json",
            "FORGEJO_NUGET_API_KEY=abc123",
        ]
    );
}

#[test]
fn nuget_plan_encodes_owner_and_reads_only_when_asked() {
    let plan = nuget_plan(
        "https://forge.example.com//",
        Some(&creds("alice")),
        Some("my org"),
        "k",
        true,
    )
    .unwrap();
    assert_eq!(plan.scope, "read:package");
    assert_eq!(
        plan.registry_url,
        "https://forge.example.com/api/packages/my%20org/nuget/index.json"
    );
}

#[test]
fn nuget_plan_encodes_utf8_bytes_in_upper_case_hex() {
    let plan = nuget_plan(
        "https://forge.example.com",
        Some(&creds("jos\u{e9}/x")),
        Some("a.b_c~d-e"),
        "k",
        false,
    )
    .unwrap();
    assert_eq!(plan.tokens_path, "/users/jos%C3%A9%2Fx/tokens");
    assert_eq!(
        plan.registry_url,
        "https://forge.example.com/api/packages/a.b_c~d-e/nuget/index.json"
    );
}

#[test]
fn nuget_plan_errors() {
    let base = "https://forge.example.com";
    assert!(matches!(
        nuget_plan(base, None, None, "k", false),
        Err(AuthError::NoStoredLogin(_))
    ));
    assert!(matches!(
        nuget_plan(base, Some(&creds("  ")), Some("org"), "k", false),
        Err(AuthError::MissingUsername(_))
    ));
    assert!(matches!(
        nuget_plan(base, Some(&creds("alice")), Some(" "), "k", false),
        Err(AuthError::EmptyOwner)
    ));
    assert!(matches!(
        nuget_plan(base, Some(&creds("alice")), None, " ", false),
        Err(AuthError::EmptyTokenName)
    ));
    assert_eq!(
        AuthError::NoStoredLogin(base.to_string()).message(),
        "No stored UI login for 'https://forge.example.com'. Run `fj-ex auth login` or `fj-ex auth login --web` first."
    );
    assert_eq!(
        AuthError::MissingUsername(base.to_string()).message(),
        "Stored UI creds for 'https://forge.example.com' are missing a username. Re-run `fj-ex auth login`."
    );
    assert_eq!(AuthError::EmptyOwner.message(), "--owner cannot be empty");
    assert_eq!(AuthError::EmptyTokenName.message(), "--token-name cannot be empty");
}

#[test]
fn nuget_token_names() {
    assert_eq!(nuget_token_name(1700000000000000000), "fj-ex-nuget-1700000000000000000");
    assert_eq!(nuget_token_name(-5), "fj-ex-nuget--5");
    let name = default_nuget_token_name();
    assert!(name.starts_with("fj-ex-nuget-"));
    assert!(name["fj-ex-nuget-".len()..].chars().all(|c| c.is_ascii_digit()));
    let plan = plan_nuget_api_key("https://f.example", Some(&creds("alice")), None, None, false).unwrap();
    assert!(plan.token_name.starts_with("fj-ex-nuget-"));
    let plan = plan_nuget_api_key("https://f.example", Some(&creds("alice")), None, Some(" t "), false).unwrap();
    assert_eq!(plan.token_name, "t");
}

#[test]
fn trailing_slashes_are_trimmed() {
    let v: Vec<char> = "a//".chars().collect();
    assert_eq!(trim_end_char_of(&v, '/'), vec!['a']);
    let v: Vec<char> = "//".chars().collect();
    assert!(trim_end_char_of(&v, '/').is_empty());
}
