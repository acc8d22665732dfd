use fj_ex::target::{
    base_url_of, fallback_host_url, host_key_of, infer_from_git, normalize_base_url,
    normalize_host_key, parse_unix_socket_url, remote_host_and_repo,
    remote_url_to_host_and_repo, resolve_target, select_remote_name, GitInfo, GitRemote,
    RemoteLookup, RepoArg, RepoArgError, TargetError,
};
use fj_ex::urls::ParsedUrl;

#[test]
fn normalize_base_url_accepts_host() {
    assert_eq!(
        normalize_base_url("forge.example.com", true).unwrap(),
        "https://forge.example.com"
    );
}

#[test]
fn normalize_base_url_strips_path() {
    assert_eq!(
        normalize_base_url("https://forge.example.com:3000/some/path", true).unwrap(),
        "https://forge.example.com:3000"
    );
}

#[test]
fn normalize_host_key_strips_path() {
    assert_eq!(
        normalize_host_key("forge.example.com:3000/some/path").unwrap(),
        "forge.example.com:3000"
    );
}

#[test]
fn repo_arg_parses_owner_name() {
    let r = RepoArg::from_str("alice/widgets").unwrap();
    assert_eq!(r.host, None);
    assert_eq!(r.owner, "alice");
    assert_eq!(r.name, "widgets");
}

#[test]
fn repo_arg_parses_host_owner_name() {
    let r = RepoArg::from_str("forge.example.com/alice/widgets.git").unwrap();
    assert_eq!(r.host.as_deref(), Some("forge.example.com"));
    assert_eq!(r.owner, "alice");
    assert_eq!(r.name, "widgets");
}

#[test]
fn remote_url_parses_https() {
    let (host, repo) = remote_url_to_host_and_repo("https://forge.example.com/alice/widgets.git")
        .unwrap()
        .unwrap();
    assert_eq!(host, "forge.example.com");
    assert_eq!(repo.as_owner_slash_name(), "alice/widgets");
}

#[test]
fn remote_url_preserves_https_port() {
    let (host, repo) =
        remote_url_to_host_and_repo("https://forge.example.com:2097/alice/widgets.git")
            .unwrap()
            .unwrap();
    assert_eq!(host, "forge.example.com:2097");
    assert_eq!(repo.as_owner_slash_name(), "alice/widgets");
}

#[test]
fn remote_url_parses_ssh_scp_style() {
    let (host, repo) = remote_url_to_host_and_repo("git@forge.example.com:alice/widgets.git")
        .unwrap()
        .unwrap();
    assert_eq!(host, "forge.example.com");
    assert_eq!(repo.as_owner_slash_name(), "alice/widgets");
}

#[test]
fn parse_unix_socket_url_works() {
    let result = parse_unix_socket_url("http+unix:///run/forgejo/http.sock");
    assert!(result.is_some());
    let (socket, base) = result.unwrap();
    assert_eq!(socket, "/run/forgejo/http.sock");
    assert_eq!(base, "http://localhost");
}

#[test]
fn parse_unix_socket_url_with_dynamic_path() {
    let test_path = "/tmp/test/socket.sock";
    let socket_url = format!("http+unix://{}", test_path);

    let result = parse_unix_socket_url(&socket_url);
    assert!(result.is_some());

    let (parsed_socket, parsed_base) = result.unwrap();
    assert_eq!(parsed_socket, test_path);
    assert_eq!(parsed_base, "http://localhost");
}

#[test]
fn parse_unix_socket_url_with_percent_encoding() {
    let result = parse_unix_socket_url("http+unix:///run/my%20socket/http.sock");
    assert!(result.is_some());
    let (socket, base) = result.unwrap();
    assert_eq!(socket, "/run/my socket/http.sock");
    assert_eq!(base, "http://localhost");
}

#[test]
fn unix_socket_path_decoding_edges() {
    let (socket, _) = parse_unix_socket_url("http+unix:///run/a%2fb%zz%4/c%C3%A9.sock").unwrap();
    assert_eq!(socket, "/run/a/b%zz%4/c\u{e9}.sock");
    assert!(parse_unix_socket_url("http+unix:///run/%ff.sock").is_none());
    assert!(parse_unix_socket_url("http+unix://%20").is_none());
}

#[test]
fn normalize_base_url_handles_unix_socket() {
    assert_eq!(
        normalize_base_url("http+unix:///run/forgejo/http.sock", true).unwrap(),
        "http+unix:///run/forgejo/http.sock"
    );
}

#[test]
fn normalize_base_url_rejects_unix_socket_on_non_unix() {
    assert!(normalize_base_url("http+unix:///run/forgejo/http.sock", false).is_err());
}

#[test]
fn unix_socket_urls_need_unix_sockets() {
    let e = normalize_base_url("http+unix:///run/forgejo/http.sock", false).unwrap_err();
    assert!(matches!(e, TargetError::UnixSocketUnsupported));
    assert_eq!(
        e.message(),
        "Unix socket URLs (http+unix://) are only supported on Unix platforms"
    );
    // Other base URLs do not depend on the platform.
    assert_eq!(
        normalize_base_url("forge.example.com", false).unwrap(),
        "https://forge.example.com"
    );
    assert!(matches!(
        resolve_target(Some("http+unix:///run/f.sock"), None, None, None, None, false),
        Err(TargetError::UnixSocketUnsupported)
    ));
}

#[test]
fn ipv6_remote_is_bracketed_once() {
    let (host, repo) = remote_url_to_host_and_repo("https://[::1]:2097/alice/widgets.git")
        .unwrap()
        .unwrap();
    assert_eq!(host, "[::1]:2097");
    assert_eq!(repo.as_owner_slash_name(), "alice/widgets");
    assert_eq!(normalize_base_url(&host, true).unwrap(), "https://[::1]:2097");
}

fn parsed(scheme: &str, host: Option<&str>, port: Option<u16>, path: &str) -> ParsedUrl {
    ParsedUrl {
        serialization: String::new(),
        scheme: scheme.to_string(),
        host: host.map(str::to_string),
        port,
        path: path.to_string(),
    }
}

#[test]
fn parsed_urls_give_base_urls_keys_and_remotes() {
    let u = parsed("https", Some("forge.example.com"), Some(3000), "/some/path");
    assert_eq!(base_url_of(&u).unwrap(), "https://forge.example.com:3000");
    assert_eq!(host_key_of(&u).unwrap(), "forge.example.com:3000");
    let no_host = parsed("https", None, None, "/");
    assert!(matches!(base_url_of(&no_host), Err(TargetError::UrlMissingHost)));
    assert!(matches!(host_key_of(&no_host), Err(TargetError::UrlMissingHost)));

    let (host, repo) = remote_host_and_repo(&parsed("https", Some("f.example"), Some(2097), "/alice/widgets.git"))
        .unwrap()
        .unwrap();
    assert_eq!(host, "f.example:2097");
    assert_eq!(repo.as_owner_slash_name(), "alice/widgets");
    let (host, _) = remote_host_and_repo(&parsed("https", Some("fe80::1"), Some(8443), "/a/b"))
        .unwrap()
        .unwrap();
    assert_eq!(host, "[fe80::1]:8443");
    let (host, _) = remote_host_and_repo(&parsed("https", Some("[fe80::1]"), Some(8443), "/a/b"))
        .unwrap()
        .unwrap();
    assert_eq!(host, "[fe80::1]:8443");
    let (host, _) = remote_host_and_repo(&parsed("ssh", Some("f.example"), Some(22), "/a/b"))
        .unwrap()
        .unwrap();
    assert_eq!(host, "f.example");
    assert!(remote_host_and_repo(&parsed("https", Some("f.example"), None, "/only"))
        .unwrap()
        .is_none());
    assert!(matches!(
        remote_host_and_repo(&parsed("https", Some("f.example"), None, "")),
        Err(TargetError::RemoteUrlCannotBeABase)
    ));
}

#[test]
fn normalize_host_key_preserves_unix_socket() {
    assert_eq!(
        normalize_host_key("http+unix:///run/forgejo/http.sock").unwrap(),
        "http+unix:///run/forgejo/http.sock"
    );
}

#[test]
fn parse_unix_socket_url_rejects_empty_path() {
    assert_eq!(parse_unix_socket_url("http+unix://"), None);
    assert_eq!(parse_unix_socket_url("http+unix://   "), None);
}

#[test]
fn normalize_base_url_rejects_malformed_unix_socket_url() {
    assert!(normalize_base_url("http+unix://", true).is_err());
    assert!(normalize_base_url("http+unix://   ", true).is_err());
}

// Further cases of the library's own.

#[test]
fn repo_arg_without_slash_is_rejected() {
    let err = RepoArg::from_str("widgets").unwrap_err();
    assert_eq!(err, RepoArgError::NoOwner);
    assert_eq!(err.message(), "repo name should be in the format [HOST/]OWNER/NAME");
}

#[test]
fn repo_arg_text_round_trips() {
    let a = RepoArg::from_str("forge.example.com/sub/alice/widgets").unwrap();
    assert_eq!(a.host.as_deref(), Some("forge.example.com/sub"));
    assert_eq!(a.to_string(), "forge.example.com/sub/alice/widgets");
    let b = RepoArg::from_str(&a.to_string()).unwrap();
    assert_eq!(b.host, a.host);
    assert_eq!(b.owner, a.owner);
    assert_eq!(b.name, a.name);
    let c = RepoArg { host: None, owner: "o".to_string(), name: "n".to_string() };
    assert_eq!(c.to_string(), "o/n");
}

#[test]
fn normalize_base_url_drops_query_and_fragment() {
    assert_eq!(
        normalize_base_url("  forge.example.com?x=1#frag  ", true).unwrap(),
        "https://forge.example.com"
    );
    assert!(matches!(normalize_base_url("   ", true), Err(TargetError::HostRequired)));
    assert!(matches!(normalize_base_url("/path", true), Err(TargetError::HostRequired)));
    assert!(matches!(normalize_base_url("https://", true), Err(TargetError::InvalidBaseUrl)));
    assert!(matches!(
        normalize_base_url("http+unix://", true),
        Err(TargetError::InvalidUnixSocketUrl(u)) if u == "http+unix://"
    ));
    assert_eq!(
        normalize_base_url("HTTP://Forge.Example.com:80/x", true).unwrap(),
        "https://HTTP:"
    );
    assert_eq!(
        normalize_base_url("http://Forge.Example.com:80/x", true).unwrap(),
        "http://forge.example.com"
    );
}

#[test]
fn normalize_host_key_reads_urls() {
    assert_eq!(normalize_host_key("https://forge.example.com:3000/x").unwrap(), "forge.example.com:3000");
    assert_eq!(normalize_host_key("ssh://git@forge.example.com/x").unwrap(), "forge.example.com");
    assert_eq!(normalize_host_key("https://forge.example.com").unwrap(), "forge.example.com");
    assert!(matches!(normalize_host_key(""), Err(TargetError::HostRequired)));
    assert_eq!(normalize_host_key("/x").unwrap(), "");
}

#[test]
fn unix_socket_prefix_is_stripped_repeatedly() {
    let (path, _) = parse_unix_socket_url("http+unix://http+unix:///s").unwrap();
    assert_eq!(path, "/s");
    assert_eq!(parse_unix_socket_url("https://x"), None);
}

#[test]
fn remote_url_edge_cases() {
    assert_eq!(remote_url_to_host_and_repo("https://forge.example.com/alice").unwrap().map(|x| x.0), None);
    let (host, repo) = remote_url_to_host_and_repo("ssh://git@forge.example.com:2222/alice/widgets.git")
        .unwrap()
        .unwrap();
    assert_eq!(host, "forge.example.com");
    assert_eq!(repo.owner(), "alice");
    assert_eq!(repo.name(), "widgets");
    assert!(matches!(remote_url_to_host_and_repo("not a url"), Err(TargetError::RemoteUrlUnparsable)));
    let (host, _) = remote_url_to_host_and_repo("http://[::1]:8080/a/b").unwrap().unwrap();
    assert_eq!(host, "[::1]:8080");
}

#[test]
fn fallback_host_reads_bare_hosts() {
    assert_eq!(fallback_host_url("forge.example.com").as_deref(), Some("https://forge.example.com/"));
    assert_eq!(fallback_host_url("https://a.example/").as_deref(), Some("https://a.example/"));
    assert_eq!(fallback_host_url(""), None);
}

fn git(names: &[&str], upstream: Option<&str>, remotes: &[(&str, RemoteLookup)]) -> GitInfo {
    GitInfo {
        remote_names: Some(names.iter().map(|s| s.to_string()).collect()),
        head_upstream: upstream.map(|s| s.to_string()),
        remotes: remotes
            .iter()
            .map(|(n, l)| GitRemote { name: n.to_string(), lookup: l.clone() })
            .collect(),
    }
}

#[test]
fn remote_selection_order() {
    let url = |s: &str| RemoteLookup::Url(s.to_string());
    let g = git(
        &["a", "b", "origin"],
        None,
        &[("a", url("https://one.example/x/y")), ("b", url("https://two.example/x/y")), ("origin", url("https://three.example/x/y"))],
    );
    assert_eq!(select_remote_name(&g, Some("zzz"), None).unwrap().as_deref(), Some("zzz"));
    assert_eq!(select_remote_name(&g, None, Some("two.example")).unwrap().as_deref(), Some("b"));
    assert_eq!(select_remote_name(&g, None, None).unwrap().as_deref(), Some("origin"));
    let g2 = git(&["a", "b"], Some("b"), &[]);
    assert_eq!(select_remote_name(&g2, None, None).unwrap().as_deref(), Some("b"));
    let g3 = git(&["a", "b"], None, &[]);
    assert_eq!(select_remote_name(&g3, None, None).unwrap().as_deref(), Some("a"));
    assert!(matches!(select_remote_name(&g3, None, Some("x.example")), Err(TargetError::GitLookupFailed(n)) if n == "a"));
    let unlisted = GitInfo { remote_names: None, head_upstream: None, remotes: vec![] };
    assert!(matches!(select_remote_name(&unlisted, Some("a"), None), Err(TargetError::GitRemotesUnlisted)));
}

#[test]
fn resolve_target_prefers_repo_host_then_host_then_git() {
    let g = git(&["origin"], None, &[("origin", RemoteLookup::Url("https://forge.example.com:2097/alice/widgets.git".to_string()))]);
    let inferred = infer_from_git(Some(&g), None, None, true).unwrap().unwrap();
    assert_eq!(inferred.0, "https://forge.example.com:2097");
    assert_eq!(inferred.1, "alice/widgets");

    let t = resolve_target(None, None, None, Some(&g), None, true).unwrap();
    assert_eq!(t.base_url, "https://forge.example.com:2097");
    assert_eq!(t.repo.as_deref(), Some("alice/widgets"));
    assert_eq!(t.owner.as_deref(), Some("alice"));
    assert_eq!(t.name.as_deref(), Some("widgets"));
    assert_eq!(t.unix_socket, None);

    let arg = RepoArg::from_str("other.example/bob/tool").unwrap();
    let t = resolve_target(Some("ignored.example"), Some(&arg), None, Some(&g), None, true).unwrap();
    assert_eq!(t.base_url, "https://other.example");
    assert_eq!(t.repo.as_deref(), Some("bob/tool"));

    let t = resolve_target(Some("http+unix:///run/f.sock"), None, None, None, None, true).unwrap();
    assert_eq!(t.base_url, "http+unix:///run/f.sock");
    assert_eq!(t.unix_socket.as_deref(), Some("/run/f.sock"));
    assert_eq!(t.repo, None);

    let t = resolve_target(None, None, None, None, Some("fallback.example"), true).unwrap();
    assert_eq!(t.base_url, "https://fallback.example");
    assert!(matches!(resolve_target(None, None, None, None, None, true), Err(TargetError::Unresolved)));
    assert!(matches!(
        resolve_target(None, None, Some("up"), Some(&g), None, true),
        Err(TargetError::GitRemoteNotFound(n)) if n == "up"
    ));
}
