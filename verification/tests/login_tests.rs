use fj_ex::cli::{LoginCommand, TargetArgs};
use fj_ex::login::{
    check_login_input, cookies_from_header, host_label_of, is_cookie_attribute,
    login_host_label, parse_cookie_header, password_candidate, resolve_otp, split_userpass,
    stdin_lines, username_candidate, web_login_target, web_target_of, LoginError,
};
use fj_ex::urls::ParsedUrl;

fn test_login_command() -> LoginCommand {
    LoginCommand {
        target: TargetArgs {
            host: None,
            repo: None,
            remote: None,
        },
        web: false,
        userpass: None,
        username: None,
        password: None,
        password_stdin: false,
        otp: None,
        otp_stdin: false,
    }
}

#[test]
fn otp_stdin_uses_second_line_when_password_stdin_is_enabled() {
    let mut args = test_login_command();
    args.password_stdin = true;
    args.otp_stdin = true;

    let lines = vec!["secret".to_string(), "123456".to_string()];

    assert_eq!(resolve_otp(&args, &lines, None).as_deref(), Some("123456"));
}

#[test]
fn explicit_otp_argument_wins_over_stdin() {
    let mut args = test_login_command();
    args.otp = Some("654321".to_string());
    args.otp_stdin = true;

    let lines = vec!["123456".to_string()];

    assert_eq!(resolve_otp(&args, &lines, None).as_deref(), Some("654321"));
}

#[test]
fn browser_cookie_header_is_imported_for_the_target_host() {
    let jar = parse_cookie_header(
        "https://forge.example.com",
        "Cookie: i_like_forgejo=session%3D1; _csrf=csrf-value=with-equals",
    )
    .unwrap();

    assert_eq!(jar.cookies.len(), 2);
    assert_eq!(jar.cookies[0].name, "i_like_forgejo");
    assert_eq!(jar.cookies[0].value, "session%3D1");
    assert_eq!(jar.cookies[0].domain, "forge.example.com");
    assert!(jar.cookies[0].host_only);
    assert!(jar.cookies[0].secure);
    assert_eq!(jar.cookies[1].value, "csrf-value=with-equals");
}

#[test]
fn empty_browser_cookie_header_is_rejected() {
    let error = parse_cookie_header("https://forge.example.com", "Cookie:").unwrap_err();
    assert!(error.message().contains("Cookie header was empty"));
}

#[test]
fn malformed_browser_cookie_header_does_not_echo_cookie_value() {
    let error = parse_cookie_header(
        "https://forge.example.com",
        "session-secret-without-an-equals-sign",
    )
    .unwrap_err();
    let message = error.message();

    assert!(message.contains("segment 1"));
    assert!(!message.contains("session-secret-without-an-equals-sign"));
}

#[test]
fn cookie_attributes_are_not_stored_as_request_cookies() {
    let jar = parse_cookie_header(
        "https://forge.example.com",
        "session=value; Path=/; Secure; HttpOnly; SameSite=Lax",
    )
    .unwrap();

    assert_eq!(jar.cookies.len(), 1);
    assert_eq!(jar.cookies[0].name, "session");
}

#[test]
fn cookie_header_edge_cases() {
    // Plain http targets get cookies that are not secure; the prefix is
    // matched in any case; the path is `/`.
    let jar = parse_cookie_header("http://forge.example.com:3000", "COOKIE:  a=1 ;; b = 2 ").unwrap();
    assert_eq!(jar.cookies.len(), 2);
    assert!(!jar.cookies[0].secure);
    assert_eq!(jar.cookies[0].domain, "forge.example.com");
    assert_eq!(jar.cookies[0].path, "/");
    assert_eq!(jar.cookies[1].name, "b");
    assert_eq!(jar.cookies[1].value, "2");
    assert!(jar.saved_utc.is_some());

    // The segment number counts empty segments too.
    let error = parse_cookie_header("https://forge.example.com", "a=1;; broken").unwrap_err();
    assert_eq!(
        error.message(),
        "Invalid browser Cookie header segment 3: expected name=value."
    );

    // An empty value is refused.
    let error = parse_cookie_header("https://forge.example.com", "a=").unwrap_err();
    assert!(matches!(error, LoginError::EmptyCookieNameOrValue));

    // Only attributes: no cookie.
    let error = parse_cookie_header("https://forge.example.com", "Path=/; Secure").unwrap_err();
    assert!(matches!(error, LoginError::EmptyCookieHeader));

    // The base URL must parse and have a host.
    let error = parse_cookie_header("not a url", "a=1").unwrap_err();
    assert!(matches!(error, LoginError::InvalidBaseUrl(_, _)));
    assert_eq!(
        error.message(),
        "Invalid Forgejo base URL 'not a url': relative URL without a base"
    );
}

#[test]
fn cookie_attribute_names_ignore_case() {
    assert!(is_cookie_attribute("Max-Age"));
    assert!(is_cookie_attribute("HTTPONLY"));
    assert!(is_cookie_attribute("domain"));
    assert!(!is_cookie_attribute("session"));
    assert!(!is_cookie_attribute("path "));
}

#[test]
fn otp_falls_back_to_stdin_then_environment() {
    let mut args = test_login_command();
    args.otp_stdin = true;
    let lines = vec![" 111222 ".to_string()];
    assert_eq!(resolve_otp(&args, &lines, Some("999")).as_deref(), Some("111222"));

    // With --password-stdin the passcode is the second line, missing here.
    args.password_stdin = true;
    assert_eq!(resolve_otp(&args, &lines, Some(" 999 ")).as_deref(), Some("999"));

    // Without --otp-stdin the lines are not looked at.
    let args = test_login_command();
    assert_eq!(resolve_otp(&args, &lines, None), None);

    // A blank passcode counts as none.
    let mut args = test_login_command();
    args.otp = Some("   ".to_string());
    assert_eq!(resolve_otp(&args, &lines, Some("999")), None);
}

#[test]
fn userpass_is_split_at_the_first_colon() {
    let (u, p) = split_userpass("alice:pa:ss").unwrap();
    assert_eq!(u, "alice");
    assert_eq!(p, "pa:ss");
    assert!(matches!(split_userpass("alice"), Err(LoginError::InvalidUserpass)));
    assert!(matches!(split_userpass(":secret"), Err(LoginError::InvalidUserpass)));
    assert!(matches!(split_userpass("alice:"), Err(LoginError::InvalidUserpass)));
    assert_eq!(
        LoginError::InvalidUserpass.message(),
        "Invalid --userpass format. Expected 'user:pass'."
    );
}

#[test]
fn username_and_password_sources() {
    assert_eq!(username_candidate(Some("alice"), Some("bob")).as_deref(), Some("alice"));
    assert_eq!(username_candidate(None, Some("bob")).as_deref(), Some("bob"));
    assert_eq!(username_candidate(Some("  "), Some("bob")), None);
    assert_eq!(username_candidate(None, None), None);

    let lines = vec!["from-stdin".to_string()];
    assert_eq!(
        password_candidate(Some("arg"), Some("env"), true, &lines).as_deref(),
        Some("arg")
    );
    assert_eq!(
        password_candidate(None, Some("env"), false, &lines).as_deref(),
        Some("env")
    );
    assert_eq!(
        password_candidate(None, None, true, &lines).as_deref(),
        Some("from-stdin")
    );
    assert_eq!(password_candidate(None, None, false, &lines), None);

    assert!(check_login_input("alice", "secret").is_ok());
    assert!(matches!(check_login_input(" ", "secret"), Err(LoginError::BlankCredentials)));
    assert_eq!(
        LoginError::BlankCredentials.message(),
        "Username/password must not be empty."
    );
}

#[test]
fn stdin_is_read_as_trimmed_lines() {
    assert_eq!(stdin_lines("secret\n123456\n"), vec!["secret", "123456"]);
    assert_eq!(stdin_lines(" a \r\n\nb"), vec!["a", "", "b"]);
    assert!(stdin_lines("").is_empty());
    assert_eq!(stdin_lines("\n"), vec![""]);
}

#[test]
fn web_login_needs_an_http_target_with_a_host() {
    let t = web_login_target("https://forge.example.com", false).unwrap();
    assert_eq!(t.login_url, "https://forge.example.com/user/login");
    assert_eq!(t.host, "forge.example.com");

    assert!(matches!(
        web_login_target("http+unix:///run/forgejo.sock", false),
        Err(LoginError::WebLoginNeedsHttp)
    ));
    assert!(matches!(
        web_login_target("https://forge.example.com", true),
        Err(LoginError::WebLoginNeedsHttp)
    ));
    assert!(matches!(
        web_login_target("ftp://forge.example.com", false),
        Err(LoginError::WebLoginNeedsHost)
    ));
    assert!(matches!(
        web_login_target("forge.example.com", false),
        Err(LoginError::InvalidBaseUrl(_, _))
    ));
    assert_eq!(
        LoginError::WebLoginNeedsHttp.message(),
        "--web requires an http:// or https:// Forgejo URL; Unix-socket targets cannot be opened in a browser."
    );
    assert_eq!(
        LoginError::BrowserSessionRejected("https://f.example".to_string()).message(),
        "The browser session was not accepted by 'https://f.example'. Copy the Cookie header after completing Forgejo/SSO login and run `fj-ex auth login --host https://f.example --web` again."
    );
}

#[test]
fn host_label_is_the_url_host() {
    assert_eq!(login_host_label("https://forge.example.com:3000"), "forge.example.com");
    assert_eq!(login_host_label("not a url"), "not a url");
}

fn parsed(scheme: &str, host: Option<&str>) -> ParsedUrl {
    ParsedUrl {
        serialization: String::new(),
        scheme: scheme.to_string(),
        host: host.map(str::to_string),
        port: None,
        path: "/".to_string(),
    }
}

#[test]
fn header_cookies_for_a_given_host() {
    let cs = cookies_from_header(
        "forge.example.com",
        true,
        "Cookie: i_like_forgejo=session%3D1; _csrf=csrf-value=with-equals",
    )
    .unwrap();
    assert_eq!(cs.len(), 2);
    assert_eq!(cs[0].name, "i_like_forgejo");
    assert_eq!(cs[0].domain, "forge.example.com");
    assert!(cs[0].secure);
    assert_eq!(cs[1].value, "csrf-value=with-equals");
    let cs = cookies_from_header("h", false, "a=1; Path=/").unwrap();
    assert_eq!(cs.len(), 1);
    assert!(!cs[0].secure);
    assert!(matches!(
        cookies_from_header("h", true, "Cookie:"),
        Err(LoginError::EmptyCookieHeader)
    ));
    assert!(matches!(
        cookies_from_header("h", true, "nope"),
        Err(LoginError::MalformedCookieSegment(1))
    ));
}

#[test]
fn parsed_base_urls_for_web_logins_and_labels() {
    let t = web_target_of("https://f.example", &parsed("https", Some("f.example"))).unwrap();
    assert_eq!(t.login_url, "https://f.example/user/login");
    assert_eq!(t.host, "f.example");
    assert!(matches!(
        web_target_of("ftp://f.example", &parsed("ftp", Some("f.example"))),
        Err(LoginError::WebLoginNeedsHost)
    ));
    assert!(matches!(
        web_target_of("https://", &parsed("https", None)),
        Err(LoginError::WebLoginNeedsHost)
    ));
    assert_eq!(host_label_of("https://f.example", &parsed("https", Some("f.example"))), "f.example");
    assert_eq!(host_label_of("file:///x", &parsed("file", None)), "file:///x");
}
