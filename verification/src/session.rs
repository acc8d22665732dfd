//! The decisions of a Forgejo web session: which base URL requests go to,
//! which pages are login challenges, and what a login step means.
use vstd::prelude::*;
use crate::store::creds::{opt_jar_view, CookieJar, StoreEntry};
use crate::target::{parse_unix_socket_url, spec_unix_socket_path};
use crate::text::{chars_of, has_prefix, push_str_chars, string_of, trim, trim_chars};
use crate::urls::{opt_view, ParsedUrl, UrlView};

verus! {

/// What a password login ended in.
#[derive(Debug, Clone, Copy, PartialEq, Eq, Structural)]
pub enum LoginResult {
    LoggedIn,
    TwoFactorRequired,
}

/// The base URL requests are sent to: `http://localhost` for a Unix-socket
/// target (the socket carries them), else the base URL itself.
pub open spec fn spec_request_base_url(base_url: Seq<char>) -> Seq<char> {
    if "http+unix://"@.is_prefix_of(base_url) {
        "http://localhost"@
    } else {
        base_url
    }
}

/// The base URL requests are sent to.
pub fn request_base_url(base_url: &str) -> (r: String)
    ensures
        r@ == spec_request_base_url(base_url@),
{
    let v = chars_of(base_url);
    if has_prefix(v.as_slice(), "http+unix://") {
        String::from_str("http://localhost")
    } else {
        String::from_str(base_url)
    }
}

/// `<request base>/<page>`, the address of a page of the web UI.
pub fn page_url(base_url: &str, page: &str) -> (r: String)
    ensures
        r@ == spec_request_base_url(base_url@) + page@,
{
    let mut v = chars_of(request_base_url(base_url).as_str());
    crate::text::push_str_chars(&mut v, page);
    string_of(v.as_slice())
}

/// The login form.
pub open spec fn spec_is_login_url(u: crate::urls::UrlView) -> bool {
    "/user/login"@.is_prefix_of(u.path)
}

/// The two-factor form.
pub open spec fn spec_is_two_factor_url(u: crate::urls::UrlView) -> bool {
    "/user/two_factor"@.is_prefix_of(u.path)
}

/// Whether a response ended on the login form.
pub fn is_login_url(url: &ParsedUrl) -> (b: bool)
    ensures
        b == spec_is_login_url(url@),
{
    let p = chars_of(url.path.as_str());
    has_prefix(p.as_slice(), "/user/login")
}

/// Whether a response ended on the two-factor form.
pub fn is_two_factor_url(url: &ParsedUrl) -> (b: bool)
    ensures
        b == spec_is_two_factor_url(url@),
{
    let p = chars_of(url.path.as_str());
    has_prefix(p.as_slice(), "/user/two_factor")
}

/// Whether a response ended on a login challenge (login or two-factor form).
pub fn is_auth_challenge_url(url: &ParsedUrl) -> (b: bool)
    ensures
        b == (spec_is_login_url(url@) || spec_is_two_factor_url(url@)),
{
    is_login_url(url) || is_two_factor_url(url)
}

/// A probe of `/user/settings` shows a live session when it was not sent to
/// a login challenge and did not fail with an HTTP error.
pub fn session_probe_ok(final_url: &ParsedUrl, status: u16) -> (b: bool)
    ensures
        b == (!(spec_is_login_url(final_url@) || spec_is_two_factor_url(final_url@)) && status < 400),
{
    !is_auth_challenge_url(final_url) && status < 400
}

/// A request that may re-login is repeated after a login when it ended on
/// a login challenge.
pub fn should_relogin(retry_on_logout: bool, final_url: &ParsedUrl) -> (b: bool)
    ensures
        b == (retry_on_logout && (spec_is_login_url(final_url@) || spec_is_two_factor_url(final_url@))),
{
    retry_on_logout && is_auth_challenge_url(final_url)
}

/// What follows posting the login form.
#[derive(Debug, Clone)]
pub enum AfterLoginForm {
    /// Forgejo asks for a passcode and none was given.
    TwoFactorRequired,
    /// Submit this passcode to the two-factor form.
    SubmitPasscode(String),
    /// Check that the session is live.
    ValidateSession,
}

/// Decides the step after posting the login form.
pub fn after_login_form(final_url: &ParsedUrl, otp: Option<&str>) -> (r: AfterLoginForm)
    ensures
        (spec_is_two_factor_url(final_url@) && otp is None) <==> r is TwoFactorRequired,
        !spec_is_two_factor_url(final_url@) <==> r is ValidateSession,
        match r {
            AfterLoginForm::SubmitPasscode(p) => spec_is_two_factor_url(final_url@) && otp is Some
                && p@ == otp->0@,
            _ => true,
        },
        (spec_is_two_factor_url(final_url@) && otp is Some) ==> r is SubmitPasscode,
{
    if is_two_factor_url(final_url) {
        match otp {
            Some(o) => AfterLoginForm::SubmitPasscode(String::from_str(o)),
            None => AfterLoginForm::TwoFactorRequired,
        }
    } else {
        AfterLoginForm::ValidateSession
    }
}

/// Errors of the session's decisions.
#[derive(Debug, Clone, Copy, PartialEq, Eq, Structural)]
pub enum SessionError {
    /// The passcode is blank.
    EmptyPasscode,
    /// The two-factor form came back: the passcode was rejected.
    PasscodeRejected,
    /// The login form came back after the passcode, or the session was not
    /// live after it.
    LoginFailedAfterTwoFactor,
    /// A passcode is needed and none was given.
    TwoFactorRequired,
    /// The session was not live after a password login.
    LoginFailed,
}

/// The message of a session error for a username and base URL.
pub open spec fn session_error_message(e: SessionError, username: Seq<char>, base_url: Seq<char>) -> Seq<char> {
    match e {
        SessionError::EmptyPasscode => "Two-factor passcode must not be empty."@,
        SessionError::PasscodeRejected => "Two-factor passcode was rejected for '"@ + base_url + "'."@,
        SessionError::LoginFailedAfterTwoFactor => "Login failed for '"@ + base_url
            + "' after two-factor validation."@,
        SessionError::TwoFactorRequired => "Two-factor authentication is required for '"@ + username
            + "' on '"@ + base_url + "'. Run `fj-ex auth login --host "@ + base_url
            + "` to refresh the stored UI cookies."@,
        SessionError::LoginFailed => "Login failed for '"@ + username + "' on '"@ + base_url
            + "' (session validation returned to the login flow). If this Forgejo instance uses SSO, run `fj-ex auth login --host "@
            + base_url + " --web`."@,
    }
}

impl SessionError {
    /// The error's message.
    pub fn message(&self, username: &str, base_url: &str) -> (r: String)
        ensures
            r@ == session_error_message(*self, username@, base_url@),
    {
        let mut v: Vec<char> = Vec::new();
        match self {
            SessionError::EmptyPasscode => {
                push_str_chars(&mut v, "Two-factor passcode must not be empty.");
            },
            SessionError::PasscodeRejected => {
                push_str_chars(&mut v, "Two-factor passcode was rejected for '");
                push_str_chars(&mut v, base_url);
                push_str_chars(&mut v, "'.");
            },
            SessionError::LoginFailedAfterTwoFactor => {
                push_str_chars(&mut v, "Login failed for '");
                push_str_chars(&mut v, base_url);
                push_str_chars(&mut v, "' after two-factor validation.");
            },
            SessionError::TwoFactorRequired => {
                push_str_chars(&mut v, "Two-factor authentication is required for '");
                push_str_chars(&mut v, username);
                push_str_chars(&mut v, "' on '");
                push_str_chars(&mut v, base_url);
                push_str_chars(&mut v, "'. Run `fj-ex auth login --host ");
                push_str_chars(&mut v, base_url);
                push_str_chars(&mut v, "` to refresh the stored UI cookies.");
            },
            SessionError::LoginFailed => {
                push_str_chars(&mut v, "Login failed for '");
                push_str_chars(&mut v, username);
                push_str_chars(&mut v, "' on '");
                push_str_chars(&mut v, base_url);
                push_str_chars(
                    &mut v,
                    "' (session validation returned to the login flow). If this Forgejo instance uses SSO, run `fj-ex auth login --host ",
                );
                push_str_chars(&mut v, base_url);
                push_str_chars(&mut v, " --web`.");
            },
        }
        assert(v@ =~= session_error_message(*self, username@, base_url@));
        string_of(v.as_slice())
    }
}

/// A login without a passcode must end logged in (`login_with_creds`).
pub fn require_logged_in(result: LoginResult) -> (r: Result<(), SessionError>)
    ensures
        result == LoginResult::LoggedIn ==> r is Ok,
        result == LoginResult::TwoFactorRequired ==> r == Err::<(), SessionError>(SessionError::TwoFactorRequired),
{
    match result {
        LoginResult::LoggedIn => Ok(()),
        LoginResult::TwoFactorRequired => Err(SessionError::TwoFactorRequired),
    }
}

/// After a login, the session must be live: a failure is reported as a
/// failed login, after the passcode where one was submitted.
pub fn check_session_after_login(session_ok: bool, after_two_factor: bool) -> (r: Result<(), SessionError>)
    ensures
        session_ok ==> r is Ok,
        !session_ok && after_two_factor ==> r == Err::<(), SessionError>(SessionError::LoginFailedAfterTwoFactor),
        !session_ok && !after_two_factor ==> r == Err::<(), SessionError>(SessionError::LoginFailed),
{
    if session_ok {
        Ok(())
    } else if after_two_factor {
        Err(SessionError::LoginFailedAfterTwoFactor)
    } else {
        Err(SessionError::LoginFailed)
    }
}

/// The socket a session talks through: the one a `http+unix://` base URL
/// names, else the one given.
pub open spec fn spec_effective_socket(base_url: Seq<char>, given: Option<Seq<char>>) -> Option<Seq<char>> {
    match spec_unix_socket_path(base_url) {
        Some(p) => Some(p),
        None => given,
    }
}

/// The socket a session talks through.
pub fn effective_socket(base_url: &str, given: Option<&str>) -> (r: Option<String>)
    ensures
        opt_view(r) == spec_effective_socket(
            base_url@,
            match given {
                Some(g) => Some(g@),
                None => None,
            },
        ),
{
    match parse_unix_socket_url(base_url) {
        Some((path, _)) => Some(path),
        None => match given {
            Some(g) => Some(String::from_str(g)),
            None => None,
        },
    }
}

/// The cookies a session from the store starts with: none when a new login
/// is forced, else those saved on the stored login.
pub fn session_cookie_jar(entry: Option<StoreEntry>, force_relogin: bool) -> (r: Option<CookieJar>)
    ensures
        opt_jar_view(r) == if force_relogin {
            None
        } else {
            match entry {
                Some(e) => e@.cookie_jar,
                None => None,
            }
        },
{
    if force_relogin {
        return None;
    }
    match entry {
        Some(e) => e.cookie_jar,
        None => None,
    }
}

/// The passcode to submit: trimmed, and not blank.
pub fn two_factor_passcode(passcode: &str) -> (r: Result<String, SessionError>)
    ensures
        match r {
            Ok(p) => trim(passcode@).len() > 0 && p@ == trim(passcode@),
            Err(e) => trim(passcode@).len() == 0 && e == SessionError::EmptyPasscode,
        },
{
    let v = chars_of(passcode);
    let t = trim_chars(v.as_slice());
    if t.len() == 0 {
        return Err(SessionError::EmptyPasscode);
    }
    Ok(string_of(t.as_slice()))
}

/// Reads the response to a submitted passcode: back on the two-factor form
/// means rejected, on the login form means failed; otherwise the session is
/// to be checked.
pub fn check_two_factor_response(final_url: &ParsedUrl) -> (r: Result<(), SessionError>)
    ensures
        spec_is_two_factor_url(final_url@) ==> r == Err::<(), SessionError>(SessionError::PasscodeRejected),
        !spec_is_two_factor_url(final_url@) && spec_is_login_url(final_url@) ==> r == Err::<(), SessionError>(
            SessionError::LoginFailedAfterTwoFactor,
        ),
        !spec_is_two_factor_url(final_url@) && !spec_is_login_url(final_url@) ==> r is Ok,
{
    if is_two_factor_url(final_url) {
        return Err(SessionError::PasscodeRejected);
    }
    if is_login_url(final_url) {
        return Err(SessionError::LoginFailedAfterTwoFactor);
    }
    Ok(())
}

// ---------------------------------------------------------------------
// The login exchange, step by step
// ---------------------------------------------------------------------

/// Where a password login stands.
#[derive(Debug, Clone)]
pub enum LoginStage {
    /// Nothing sent yet.
    Start,
    /// The login page was asked for.
    AwaitLoginPage,
    /// The login form was posted.
    AwaitFormResponse,
    /// The two-factor page was asked for, to post this passcode.
    AwaitTwoFactorPage(String),
    /// A passcode was posted.
    AwaitPasscodeResponse,
    /// The session is being probed (after a passcode, or not).
    AwaitProbe(bool),
    /// The exchange is over.
    Finished,
}

pub enum LoginStageView {
    Start,
    AwaitLoginPage,
    AwaitFormResponse,
    AwaitTwoFactorPage(Seq<char>),
    AwaitPasscodeResponse,
    AwaitProbe(bool),
    Finished,
}

impl View for LoginStage {
    type V = LoginStageView;

    open spec fn view(&self) -> LoginStageView {
        match self {
            LoginStage::Start => LoginStageView::Start,
            LoginStage::AwaitLoginPage => LoginStageView::AwaitLoginPage,
            LoginStage::AwaitFormResponse => LoginStageView::AwaitFormResponse,
            LoginStage::AwaitTwoFactorPage(p) => LoginStageView::AwaitTwoFactorPage(p@),
            LoginStage::AwaitPasscodeResponse => LoginStageView::AwaitPasscodeResponse,
            LoginStage::AwaitProbe(a) => LoginStageView::AwaitProbe(*a),
            LoginStage::Finished => LoginStageView::Finished,
        }
    }
}

/// What came back to the login exchange.
#[derive(Debug, Clone)]
pub enum LoginEvent {
    /// Start a login with username and password.
    Begin,
    /// Start by submitting a passcode (the two-factor form is open).
    SubmitPasscode(String),
    /// The login page loaded (`ok`: with HTTP 200), with the `_csrf` token it
    /// holds, if any.
    LoginPage { ok: bool, csrf: Option<String> },
    /// Where posting the login form ended.
    FormResponse(ParsedUrl),
    /// The two-factor page loaded (`ok`: with HTTP 200), with the `_csrf`
    /// token it holds, if any.
    TwoFactorPage { ok: bool, csrf: Option<String> },
    /// Where posting the passcode ended.
    PasscodeResponse(ParsedUrl),
    /// Whether the session probe found a live session.
    Probe { live: bool },
}

pub enum LoginEventView {
    Begin,
    SubmitPasscode(Seq<char>),
    LoginPage { ok: bool, csrf: Option<Seq<char>> },
    FormResponse(UrlView),
    TwoFactorPage { ok: bool, csrf: Option<Seq<char>> },
    PasscodeResponse(UrlView),
    Probe { live: bool },
}

impl View for LoginEvent {
    type V = LoginEventView;

    open spec fn view(&self) -> LoginEventView {
        match self {
            LoginEvent::Begin => LoginEventView::Begin,
            LoginEvent::SubmitPasscode(p) => LoginEventView::SubmitPasscode(p@),
            LoginEvent::LoginPage { ok, csrf } => LoginEventView::LoginPage { ok: *ok, csrf: opt_view(*csrf) },
            LoginEvent::FormResponse(u) => LoginEventView::FormResponse(u@),
            LoginEvent::TwoFactorPage { ok, csrf } => LoginEventView::TwoFactorPage { ok: *ok, csrf: opt_view(*csrf) },
            LoginEvent::PasscodeResponse(u) => LoginEventView::PasscodeResponse(u@),
            LoginEvent::Probe { live } => LoginEventView::Probe { live: *live },
        }
    }
}

/// What the login exchange does next.
#[derive(Debug, Clone)]
pub enum LoginAction {
    /// Forget every cookie of the session, then load the login page.
    ClearCookiesAndLoadLoginPage,
    /// Post the login form (username, password, `remember`), with `_csrf`
    /// where there is a token.
    PostLoginForm { csrf: Option<String> },
    /// Load the two-factor page (for its `_csrf` token).
    LoadTwoFactorPage,
    /// Post this passcode to the two-factor form, with `_csrf` where there is
    /// a token.
    PostPasscode { passcode: String, csrf: Option<String> },
    /// Probe `/user/settings`.
    ProbeSession,
    /// The exchange ended with this result.
    Finish(LoginResult),
    /// The login page did not load with HTTP 200.
    LoginPageUnavailable,
    /// The exchange failed.
    Fail(SessionError),
    /// An event that does not fit the stage.
    Unexpected,
}

pub enum LoginActionView {
    ClearCookiesAndLoadLoginPage,
    PostLoginForm { csrf: Option<Seq<char>> },
    LoadTwoFactorPage,
    PostPasscode { passcode: Seq<char>, csrf: Option<Seq<char>> },
    ProbeSession,
    Finish(LoginResult),
    LoginPageUnavailable,
    Fail(SessionError),
    Unexpected,
}

impl View for LoginAction {
    type V = LoginActionView;

    open spec fn view(&self) -> LoginActionView {
        match self {
            LoginAction::ClearCookiesAndLoadLoginPage => LoginActionView::ClearCookiesAndLoadLoginPage,
            LoginAction::PostLoginForm { csrf } => LoginActionView::PostLoginForm { csrf: opt_view(*csrf) },
            LoginAction::LoadTwoFactorPage => LoginActionView::LoadTwoFactorPage,
            LoginAction::PostPasscode { passcode, csrf } => LoginActionView::PostPasscode {
                passcode: passcode@,
                csrf: opt_view(*csrf),
            },
            LoginAction::ProbeSession => LoginActionView::ProbeSession,
            LoginAction::Finish(r) => LoginActionView::Finish(*r),
            LoginAction::LoginPageUnavailable => LoginActionView::LoginPageUnavailable,
            LoginAction::Fail(e) => LoginActionView::Fail(*e),
            LoginAction::Unexpected => LoginActionView::Unexpected,
        }
    }
}

/// Submitting a passcode: trimmed, and not blank; the two-factor page is
/// loaded first for its token.
pub open spec fn spec_passcode_step(p: Seq<char>) -> (LoginStageView, LoginActionView) {
    if trim(p).len() == 0 {
        (LoginStageView::Finished, LoginActionView::Fail(SessionError::EmptyPasscode))
    } else {
        (LoginStageView::AwaitTwoFactorPage(trim(p)), LoginActionView::LoadTwoFactorPage)
    }
}

/// One step of the login exchange: the cookies are cleared before the
/// login page is loaded; the login form carries the login page's `_csrf`
/// token; a passcode is posted only where the form led to the two-factor
/// page (or a passcode was submitted), after loading that page, with its
/// token where it loaded with HTTP 200; the login ends logged in only on a
/// live session.
pub open spec fn spec_login_step(stage: LoginStageView, e: LoginEventView, otp: Option<Seq<char>>) -> (LoginStageView, LoginActionView) {
    match (stage, e) {
        (LoginStageView::Start, LoginEventView::Begin) => (
            LoginStageView::AwaitLoginPage,
            LoginActionView::ClearCookiesAndLoadLoginPage,
        ),
        (LoginStageView::Start, LoginEventView::SubmitPasscode(p)) => spec_passcode_step(p),
        (LoginStageView::AwaitLoginPage, LoginEventView::LoginPage { ok, csrf }) => if ok {
            (LoginStageView::AwaitFormResponse, LoginActionView::PostLoginForm { csrf })
        } else {
            (LoginStageView::Finished, LoginActionView::LoginPageUnavailable)
        },
        (LoginStageView::AwaitFormResponse, LoginEventView::FormResponse(u)) => if spec_is_two_factor_url(u) {
            match otp {
                None => (LoginStageView::Finished, LoginActionView::Finish(LoginResult::TwoFactorRequired)),
                Some(o) => spec_passcode_step(o),
            }
        } else {
            (LoginStageView::AwaitProbe(false), LoginActionView::ProbeSession)
        },
        (LoginStageView::AwaitTwoFactorPage(p), LoginEventView::TwoFactorPage { ok, csrf }) => (
            LoginStageView::AwaitPasscodeResponse,
            LoginActionView::PostPasscode { passcode: p, csrf: if ok { csrf } else { None } },
        ),
        (LoginStageView::AwaitPasscodeResponse, LoginEventView::PasscodeResponse(u)) => if spec_is_two_factor_url(u) {
            (LoginStageView::Finished, LoginActionView::Fail(SessionError::PasscodeRejected))
        } else if spec_is_login_url(u) {
            (LoginStageView::Finished, LoginActionView::Fail(SessionError::LoginFailedAfterTwoFactor))
        } else {
            (LoginStageView::AwaitProbe(true), LoginActionView::ProbeSession)
        },
        (LoginStageView::AwaitProbe(after), LoginEventView::Probe { live }) => if live {
            (LoginStageView::Finished, LoginActionView::Finish(LoginResult::LoggedIn))
        } else if after {
            (LoginStageView::Finished, LoginActionView::Fail(SessionError::LoginFailedAfterTwoFactor))
        } else {
            (LoginStageView::Finished, LoginActionView::Fail(SessionError::LoginFailed))
        },
        _ => (LoginStageView::Finished, LoginActionView::Unexpected),
    }
}

pub open spec fn opt_text(o: Option<&str>) -> Option<Seq<char>> {
    match o {
        Some(s) => Some(s@),
        None => None,
    }
}

fn passcode_step(p: &str) -> (r: (LoginStage, LoginAction))
    ensures
        (r.0@, r.1@) == spec_passcode_step(p@),
{
    match two_factor_passcode(p) {
        Ok(t) => (LoginStage::AwaitTwoFactorPage(t), LoginAction::LoadTwoFactorPage),
        Err(e) => (LoginStage::Finished, LoginAction::Fail(e)),
    }
}

fn copy_token(t: &Option<String>) -> (r: Option<String>)
    ensures
        opt_view(r) == opt_view(*t),
{
    match t {
        Some(s) => Some(s.clone()),
        None => None,
    }
}

/// One step of the login exchange: from where it stands and what came back
/// to the next stage and what to do (`otp` is the passcode given up front).
pub fn login_step(stage: LoginStage, event: &LoginEvent, otp: Option<&str>) -> (r: (LoginStage, LoginAction))
    ensures
        (r.0@, r.1@) == spec_login_step(stage@, event@, opt_text(otp)),
{
    match (stage, event) {
        (LoginStage::Start, LoginEvent::Begin) => (
            LoginStage::AwaitLoginPage,
            LoginAction::ClearCookiesAndLoadLoginPage,
        ),
        (LoginStage::Start, LoginEvent::SubmitPasscode(p)) => passcode_step(p.as_str()),
        (LoginStage::AwaitLoginPage, LoginEvent::LoginPage { ok, csrf }) => if *ok {
            (LoginStage::AwaitFormResponse, LoginAction::PostLoginForm { csrf: copy_token(csrf) })
        } else {
            (LoginStage::Finished, LoginAction::LoginPageUnavailable)
        },
        (LoginStage::AwaitFormResponse, LoginEvent::FormResponse(u)) => if is_two_factor_url(u) {
            match otp {
                None => (LoginStage::Finished, LoginAction::Finish(LoginResult::TwoFactorRequired)),
                Some(o) => passcode_step(o),
            }
        } else {
            (LoginStage::AwaitProbe(false), LoginAction::ProbeSession)
        },
        (LoginStage::AwaitTwoFactorPage(p), LoginEvent::TwoFactorPage { ok, csrf }) => {
            let token = if *ok {
                copy_token(csrf)
            } else {
                None
            };
            (LoginStage::AwaitPasscodeResponse, LoginAction::PostPasscode { passcode: p, csrf: token })
        },
        (LoginStage::AwaitPasscodeResponse, LoginEvent::PasscodeResponse(u)) => match check_two_factor_response(u) {
            Err(e) => (LoginStage::Finished, LoginAction::Fail(e)),
            Ok(()) => (LoginStage::AwaitProbe(true), LoginAction::ProbeSession),
        },
        (LoginStage::AwaitProbe(after), LoginEvent::Probe { live }) => match check_session_after_login(*live, after) {
            Ok(()) => (LoginStage::Finished, LoginAction::Finish(LoginResult::LoggedIn)),
            Err(e) => (LoginStage::Finished, LoginAction::Fail(e)),
        },
        _ => (LoginStage::Finished, LoginAction::Unexpected),
    }
}

/// A login begins by clearing the session's cookies, before any request.
pub proof fn lemma_login_clears_cookies_first(otp: Option<Seq<char>>)
    ensures
        spec_login_step(LoginStageView::Start, LoginEventView::Begin, otp)
            == (LoginStageView::AwaitLoginPage, LoginActionView::ClearCookiesAndLoadLoginPage),
{
}

/// The login form carries exactly the `_csrf` token of the login page it was
/// loaded from.
pub proof fn lemma_login_form_carries_page_token(csrf: Option<Seq<char>>, otp: Option<Seq<char>>)
    ensures
        spec_login_step(LoginStageView::AwaitLoginPage, LoginEventView::LoginPage { ok: true, csrf }, otp).1
            == (LoginActionView::PostLoginForm { csrf }),
{
}

/// The exchange ends logged in only when the session probe found a live
/// session; a passcode is posted only after the two-factor page was loaded,
/// with that page's token when it loaded with HTTP 200 and none otherwise.
pub proof fn lemma_logged_in_only_on_live_session(stage: LoginStageView, e: LoginEventView, otp: Option<Seq<char>>)
    ensures
        spec_login_step(stage, e, otp).1 == LoginActionView::Finish(LoginResult::LoggedIn)
            ==> (stage is AwaitProbe && e == LoginEventView::Probe { live: true }),
        spec_login_step(stage, e, otp).1 is PostPasscode ==> (stage is AwaitTwoFactorPage
            && e is TwoFactorPage
            && spec_login_step(stage, e, otp).1->PostPasscode_passcode == stage->AwaitTwoFactorPage_0
            && spec_login_step(stage, e, otp).1->PostPasscode_csrf == (if e->TwoFactorPage_ok {
                e->TwoFactorPage_csrf
            } else {
                None
            })),
{
}

/// Every step after the end is refused: a finished exchange sends nothing.
pub proof fn lemma_finished_sends_nothing(e: LoginEventView, otp: Option<Seq<char>>)
    ensures
        spec_login_step(LoginStageView::Finished, e, otp) == (LoginStageView::Finished, LoginActionView::Unexpected),
{
}

// ---------------------------------------------------------------------
// A request that may log in again
// ---------------------------------------------------------------------

/// What follows a response to a request that may log in again.
#[derive(Debug, Clone, Copy, PartialEq, Eq, Structural)]
pub enum RetryAction {
    /// Log in again from the stored credentials and send the request anew.
    Relogin,
    /// Keep this response; save the session's cookies (`required`: the save
    /// must not be skipped).
    Finish { required: bool },
}

/// The step after a response: a first response that ended on a login
/// challenge (with retries allowed) leads to one new login; the response to
/// the repeated request is kept whatever it is.
pub open spec fn spec_retry_step(repeated: bool, retry_on_logout: bool, final_url: UrlView) -> RetryAction {
    if repeated {
        RetryAction::Finish { required: true }
    } else if retry_on_logout && (spec_is_login_url(final_url) || spec_is_two_factor_url(final_url)) {
        RetryAction::Relogin
    } else {
        RetryAction::Finish { required: false }
    }
}

/// The step after a response (`repeated`: the request was sent again after a
/// new login).
pub fn retry_step(repeated: bool, retry_on_logout: bool, final_url: &ParsedUrl) -> (r: RetryAction)
    ensures
        r == spec_retry_step(repeated, retry_on_logout, final_url@),
{
    if repeated {
        RetryAction::Finish { required: true }
    } else if should_relogin(retry_on_logout, final_url) {
        RetryAction::Relogin
    } else {
        RetryAction::Finish { required: false }
    }
}

/// A request is sent at most twice: after the repeated request no new login
/// follows.
pub proof fn lemma_request_repeated_at_most_once(retry_on_logout: bool, u: UrlView)
    ensures
        spec_retry_step(true, retry_on_logout, u) != RetryAction::Relogin,
{
}

// ---------------------------------------------------------------------
// The `auth login` command
// ---------------------------------------------------------------------

/// What came back to the `auth login` command.
#[derive(Debug, Clone, Copy, PartialEq, Eq, Structural)]
pub enum LoginCommandEvent {
    /// The password login ended.
    Login(LoginResult),
    /// The passcode asked for after the login was accepted.
    PasscodeAccepted,
    /// The username and password were stored.
    CredsStored,
    /// The session's cookies were saved.
    CookiesSaved,
}

/// What the `auth login` command does next.
#[derive(Debug, Clone, Copy, PartialEq, Eq, Structural)]
pub enum LoginCommandAction {
    /// Ask for a passcode and submit it.
    PromptPasscode,
    /// Store the username and password.
    StoreCreds,
    /// Save the session's cookies.
    SaveCookies,
    /// Print the login and the store path.
    Report,
}

/// The `auth login` command: a passcode is asked for when the login needs
/// one; the credentials are stored after a completed login, then the
/// cookies are saved, then the login is reported.
pub open spec fn spec_login_command_step(e: LoginCommandEvent) -> LoginCommandAction {
    match e {
        LoginCommandEvent::Login(LoginResult::TwoFactorRequired) => LoginCommandAction::PromptPasscode,
        LoginCommandEvent::Login(LoginResult::LoggedIn) => LoginCommandAction::StoreCreds,
        LoginCommandEvent::PasscodeAccepted => LoginCommandAction::StoreCreds,
        LoginCommandEvent::CredsStored => LoginCommandAction::SaveCookies,
        LoginCommandEvent::CookiesSaved => LoginCommandAction::Report,
    }
}

/// The next step of the `auth login` command.
pub fn login_command_step(e: LoginCommandEvent) -> (r: LoginCommandAction)
    ensures
        r == spec_login_command_step(e),
{
    match e {
        LoginCommandEvent::Login(LoginResult::TwoFactorRequired) => LoginCommandAction::PromptPasscode,
        LoginCommandEvent::Login(LoginResult::LoggedIn) => LoginCommandAction::StoreCreds,
        LoginCommandEvent::PasscodeAccepted => LoginCommandAction::StoreCreds,
        LoginCommandEvent::CredsStored => LoginCommandAction::SaveCookies,
        LoginCommandEvent::CookiesSaved => LoginCommandAction::Report,
    }
}

/// Credentials are stored only after a completed login: one that ended
/// logged in, or whose passcode was accepted.
pub proof fn lemma_creds_stored_only_after_login(e: LoginCommandEvent)
    ensures
        spec_login_command_step(e) == LoginCommandAction::StoreCreds ==> (
            e == LoginCommandEvent::Login(LoginResult::LoggedIn) || e == LoginCommandEvent::PasscodeAccepted),
{
}

} // verus!
