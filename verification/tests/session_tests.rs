use fj_ex::session::{
    after_login_form, check_session_after_login, check_two_factor_response, effective_socket,
    is_auth_challenge_url, is_login_url, is_two_factor_url, page_url, request_base_url,
    require_logged_in, session_cookie_jar, session_probe_ok, should_relogin, two_factor_passcode,
    AfterLoginForm, LoginResult, SessionError,
};
use fj_ex::session::{
    login_command_step, login_step, retry_step, LoginAction, LoginCommandAction,
    LoginCommandEvent, LoginEvent, LoginStage, RetryAction,
};
use fj_ex::store::creds::{CookieJar, StoreEntry};
use fj_ex::urls::parse_url_opt;

#[test]
fn login_and_two_factor_urls_are_auth_challenges() {
    let login = parse_url_opt("https://forge.example.com/user/login").unwrap();
    let two_factor = parse_url_opt("https://forge.example.com/user/two_factor").unwrap();
    let settings = parse_url_opt("https://forge.example.com/user/settings").unwrap();

    assert!(is_auth_challenge_url(&login));
    assert!(is_auth_challenge_url(&two_factor));
    assert!(!is_auth_challenge_url(&settings));
}

#[test]
fn challenge_pages_are_told_apart() {
    let login = parse_url_opt("https://forge.example.com/user/login?redirect_to=%2F").unwrap();
    let two_factor = parse_url_opt("https://forge.example.com/user/two_factor").unwrap();
    assert!(is_login_url(&login));
    assert!(!is_two_factor_url(&login));
    assert!(is_two_factor_url(&two_factor));
    assert!(!is_login_url(&two_factor));
}

#[test]
fn unix_socket_targets_are_requested_through_localhost() {
    assert_eq!(request_base_url("http+unix:///run/forgejo.sock"), "http://localhost");
    assert_eq!(request_base_url("https://forge.example.com"), "https://forge.example.com");
    assert_eq!(
        page_url("http+unix:///run/forgejo.sock", "/user/settings"),
        "http://localhost/user/settings"
    );
    assert_eq!(
        page_url("https://forge.example.com", "/user/login"),
        "https://forge.example.com/user/login"
    );
    assert_eq!(
        effective_socket("http+unix:///run/forgejo.sock", Some("/other.sock")).as_deref(),
        Some("/run/forgejo.sock")
    );
    assert_eq!(
        effective_socket("https://forge.example.com", Some("/other.sock")).as_deref(),
        Some("/other.sock")
    );
    assert_eq!(effective_socket("https://forge.example.com", None), None);
}

#[test]
fn probes_and_retries_follow_the_final_url() {
    let settings = parse_url_opt("https://forge.example.com/user/settings").unwrap();
    let login = parse_url_opt("https://forge.example.com/user/login").unwrap();
    assert!(session_probe_ok(&settings, 200));
    assert!(!session_probe_ok(&settings, 404));
    assert!(!session_probe_ok(&login, 200));
    assert!(should_relogin(true, &login));
    assert!(!should_relogin(false, &login));
    assert!(!should_relogin(true, &settings));
}

#[test]
fn login_form_outcomes() {
    let two_factor = parse_url_opt("https://forge.example.com/user/two_factor").unwrap();
    let home = parse_url_opt("https://forge.example.com/").unwrap();
    assert!(matches!(after_login_form(&two_factor, None), AfterLoginForm::TwoFactorRequired));
    match after_login_form(&two_factor, Some("123456")) {
        AfterLoginForm::SubmitPasscode(p) => assert_eq!(p, "123456"),
        other => panic!("unexpected step: {other:?}"),
    }
    assert!(matches!(after_login_form(&home, Some("123456")), AfterLoginForm::ValidateSession));
    assert!(require_logged_in(LoginResult::LoggedIn).is_ok());
    assert_eq!(
        require_logged_in(LoginResult::TwoFactorRequired),
        Err(SessionError::TwoFactorRequired)
    );
    assert!(check_session_after_login(true, false).is_ok());
    assert_eq!(check_session_after_login(false, false), Err(SessionError::LoginFailed));
    assert_eq!(
        check_session_after_login(false, true),
        Err(SessionError::LoginFailedAfterTwoFactor)
    );
}

#[test]
fn two_factor_passcodes() {
    assert_eq!(two_factor_passcode(" 123456 ").unwrap(), "123456");
    assert_eq!(two_factor_passcode("  "), Err(SessionError::EmptyPasscode));
    let two_factor = parse_url_opt("https://forge.example.com/user/two_factor").unwrap();
    let login = parse_url_opt("https://forge.example.com/user/login").unwrap();
    let home = parse_url_opt("https://forge.example.com/").unwrap();
    assert_eq!(check_two_factor_response(&two_factor), Err(SessionError::PasscodeRejected));
    assert_eq!(
        check_two_factor_response(&login),
        Err(SessionError::LoginFailedAfterTwoFactor)
    );
    assert!(check_two_factor_response(&home).is_ok());
}

#[test]
fn session_error_messages() {
    let base = "https://forge.example.com";
    assert_eq!(
        SessionError::EmptyPasscode.message("alice", base),
        "Two-factor passcode must not be empty."
    );
    assert_eq!(
        SessionError::PasscodeRejected.message("alice", base),
        "Two-factor passcode was rejected for 'https://forge.example.com'."
    );
    assert_eq!(
        SessionError::LoginFailedAfterTwoFactor.message("alice", base),
        "Login failed for 'https://forge.example.com' after two-factor validation."
    );
    assert_eq!(
        SessionError::TwoFactorRequired.message("alice", base),
        "Two-factor authentication is required for 'alice' on 'https://forge.example.com'. Run `fj-ex auth login --host https://forge.example.com` to refresh the stored UI cookies."
    );
    assert_eq!(
        SessionError::LoginFailed.message("alice", base),
        "Login failed for 'alice' on 'https://forge.example.com' (session validation returned to the login flow). If this Forgejo instance uses SSO, run `fj-ex auth login --host https://forge.example.com --web`."
    );
}

fn entry_with_jar() -> StoreEntry {
    StoreEntry {
        base_url: None,
        username: Some("alice".to_string()),
        password: Some("secret".to_string()),
        user_pass: None,
        auth_method: None,
        updated_utc: None,
        cookie_jar: Some(CookieJar {
            saved_utc: None,
            cookies: Vec::new(),
        }),
        extra: Vec::new(),
    }
}

#[test]
fn stored_cookies_are_dropped_when_a_login_is_forced() {
    assert!(session_cookie_jar(Some(entry_with_jar()), false).is_some());
    assert!(session_cookie_jar(Some(entry_with_jar()), true).is_none());
    assert!(session_cookie_jar(None, false).is_none());
}

#[test]
fn login_exchange_with_passcode() {
    let (st, a) = login_step(LoginStage::Start, &LoginEvent::Begin, Some(" 123456 "));
    assert!(matches!(st, LoginStage::AwaitLoginPage));
    assert!(matches!(a, LoginAction::ClearCookiesAndLoadLoginPage));
    let (st, a) = login_step(
        st,
        &LoginEvent::LoginPage { ok: true, csrf: Some("tok1".to_string()) },
        Some(" 123456 "),
    );
    match a {
        LoginAction::PostLoginForm { csrf } => assert_eq!(csrf.as_deref(), Some("tok1")),
        other => panic!("unexpected action: {other:?}"),
    }
    let tf = parse_url_opt("https://f.example/user/two_factor").unwrap();
    let (st, a) = login_step(st, &LoginEvent::FormResponse(tf), Some(" 123456 "));
    assert!(matches!(a, LoginAction::LoadTwoFactorPage));
    let (st, a) = login_step(
        st,
        &LoginEvent::TwoFactorPage { ok: true, csrf: Some("tok2".to_string()) },
        None,
    );
    match a {
        LoginAction::PostPasscode { passcode, csrf } => {
            assert_eq!(passcode, "123456");
            assert_eq!(csrf.as_deref(), Some("tok2"));
        }
        other => panic!("unexpected action: {other:?}"),
    }
    let home = parse_url_opt("https://f.example/").unwrap();
    let (st, a) = login_step(st, &LoginEvent::PasscodeResponse(home), None);
    assert!(matches!(st, LoginStage::AwaitProbe(true)));
    assert!(matches!(a, LoginAction::ProbeSession));
    let (st, a) = login_step(st, &LoginEvent::Probe { live: true }, None);
    assert!(matches!(st, LoginStage::Finished));
    assert!(matches!(a, LoginAction::Finish(LoginResult::LoggedIn)));
    let (_, a) = login_step(st, &LoginEvent::Probe { live: true }, None);
    assert!(matches!(a, LoginAction::Unexpected));
}

#[test]
fn login_exchange_without_tokens_and_failures() {
    let (_, a) = login_step(
        LoginStage::AwaitLoginPage,
        &LoginEvent::LoginPage { ok: true, csrf: None },
        None,
    );
    assert!(matches!(a, LoginAction::PostLoginForm { csrf: None }));
    let (_, a) = login_step(
        LoginStage::AwaitLoginPage,
        &LoginEvent::LoginPage { ok: false, csrf: None },
        None,
    );
    assert!(matches!(a, LoginAction::LoginPageUnavailable));
    // A two-factor page that did not load gives no token.
    let (_, a) = login_step(
        LoginStage::AwaitTwoFactorPage("42".to_string()),
        &LoginEvent::TwoFactorPage { ok: false, csrf: Some("stale".to_string()) },
        None,
    );
    assert!(matches!(a, LoginAction::PostPasscode { csrf: None, .. }));
    let tf = parse_url_opt("https://f.example/user/two_factor").unwrap();
    let (_, a) = login_step(LoginStage::AwaitFormResponse, &LoginEvent::FormResponse(tf.clone()), None);
    assert!(matches!(a, LoginAction::Finish(LoginResult::TwoFactorRequired)));
    let (_, a) = login_step(LoginStage::AwaitFormResponse, &LoginEvent::FormResponse(tf.clone()), Some(" "));
    assert!(matches!(a, LoginAction::Fail(SessionError::EmptyPasscode)));
    let (_, a) = login_step(LoginStage::AwaitPasscodeResponse, &LoginEvent::PasscodeResponse(tf), None);
    assert!(matches!(a, LoginAction::Fail(SessionError::PasscodeRejected)));
    let (_, a) = login_step(LoginStage::AwaitProbe(false), &LoginEvent::Probe { live: false }, None);
    assert!(matches!(a, LoginAction::Fail(SessionError::LoginFailed)));
    let (st, a) = login_step(LoginStage::Start, &LoginEvent::SubmitPasscode(" 42 ".to_string()), None);
    assert!(matches!(st, LoginStage::AwaitTwoFactorPage(ref p) if p == "42"));
    assert!(matches!(a, LoginAction::LoadTwoFactorPage));
}

#[test]
fn requests_are_repeated_once_after_a_new_login() {
    let login = parse_url_opt("https://f.example/user/login").unwrap();
    let page = parse_url_opt("https://f.example/repo").unwrap();
    assert_eq!(retry_step(false, true, &login), RetryAction::Relogin);
    assert_eq!(retry_step(true, true, &login), RetryAction::Finish { required: true });
    assert_eq!(retry_step(false, false, &login), RetryAction::Finish { required: false });
    assert_eq!(retry_step(false, true, &page), RetryAction::Finish { required: false });
}

#[test]
fn login_command_stores_creds_after_login() {
    assert_eq!(
        login_command_step(LoginCommandEvent::Login(LoginResult::TwoFactorRequired)),
        LoginCommandAction::PromptPasscode
    );
    assert_eq!(
        login_command_step(LoginCommandEvent::Login(LoginResult::LoggedIn)),
        LoginCommandAction::StoreCreds
    );
    assert_eq!(
        login_command_step(LoginCommandEvent::PasscodeAccepted),
        LoginCommandAction::StoreCreds
    );
    assert_eq!(
        login_command_step(LoginCommandEvent::CredsStored),
        LoginCommandAction::SaveCookies
    );
    assert_eq!(
        login_command_step(LoginCommandEvent::CookiesSaved),
        LoginCommandAction::Report
    );
}
