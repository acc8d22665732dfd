//! Logging in: the browser `Cookie` header import, the choice of username,
//! password and two-factor passcode, and the checks before a web login.
use vstd::prelude::*;
use crate::cli::LoginCommand;
use crate::clock::now_utc_rfc3339;
use crate::store::creds::{CookieJar, CookieRecord, CookieRecordView};
use crate::text::{
    ascii_lowercase, ascii_lowercase_chars, char_vec_views, chars_are, chars_of, find_char,
    first_index, has_prefix, is_blank, lemma_first_index_bounds, push_decimal, push_str_chars,
    slice_chars, split_all, split_all_of, string_of, trim, trim_chars, decimal,
};
use crate::urls::{opt_view, parse_url, url_parse, url_parsed, ParsedUrl, UrlView};

verus! {

/// Errors of the login helpers.
#[derive(Debug, Clone)]
pub enum LoginError {
    /// The base URL does not parse (the URL, and the parser's error).
    InvalidBaseUrl(String, String),
    /// The base URL has no host.
    BaseUrlWithoutHost(String),
    /// A `Cookie` header segment (counted from 1) has no `=`.
    MalformedCookieSegment(usize),
    /// A cookie with an empty name or value.
    EmptyCookieNameOrValue,
    /// No cookie in the header.
    EmptyCookieHeader,
    /// `--userpass` is not `user:pass`.
    InvalidUserpass,
    /// A blank username or password.
    BlankCredentials,
    /// A web login for a Unix-socket target.
    WebLoginNeedsHttp,
    /// A web login for a base URL that is not `http(s)://` with a host.
    WebLoginNeedsHost,
    /// The pasted browser session is not live on the base URL.
    BrowserSessionRejected(String),
}

pub enum LoginErrorView {
    InvalidBaseUrl(Seq<char>, Seq<char>),
    BaseUrlWithoutHost(Seq<char>),
    MalformedCookieSegment(nat),
    EmptyCookieNameOrValue,
    EmptyCookieHeader,
    InvalidUserpass,
    BlankCredentials,
    WebLoginNeedsHttp,
    WebLoginNeedsHost,
    BrowserSessionRejected(Seq<char>),
}

impl View for LoginError {
    type V = LoginErrorView;

    open spec fn view(&self) -> LoginErrorView {
        match self {
            LoginError::InvalidBaseUrl(u, e) => LoginErrorView::InvalidBaseUrl(u@, e@),
            LoginError::BaseUrlWithoutHost(u) => LoginErrorView::BaseUrlWithoutHost(u@),
            LoginError::MalformedCookieSegment(n) => LoginErrorView::MalformedCookieSegment(*n as nat),
            LoginError::EmptyCookieNameOrValue => LoginErrorView::EmptyCookieNameOrValue,
            LoginError::EmptyCookieHeader => LoginErrorView::EmptyCookieHeader,
            LoginError::InvalidUserpass => LoginErrorView::InvalidUserpass,
            LoginError::BlankCredentials => LoginErrorView::BlankCredentials,
            LoginError::WebLoginNeedsHttp => LoginErrorView::WebLoginNeedsHttp,
            LoginError::WebLoginNeedsHost => LoginErrorView::WebLoginNeedsHost,
            LoginError::BrowserSessionRejected(u) => LoginErrorView::BrowserSessionRejected(u@),
        }
    }
}

/// The message of a malformed-segment error.
pub open spec fn malformed_segment_message(n: nat) -> Seq<char> {
    "Invalid browser Cookie header segment "@ + decimal(n) + ": expected name=value."@
}

/// The message of a login error. None repeats a cookie's text.
pub open spec fn login_error_message(e: LoginErrorView) -> Seq<char> {
    match e {
        LoginErrorView::InvalidBaseUrl(u, e) => "Invalid Forgejo base URL '"@ + u + "': "@ + e,
        LoginErrorView::BaseUrlWithoutHost(u) => "Forgejo base URL has no host: "@ + u,
        LoginErrorView::MalformedCookieSegment(n) => malformed_segment_message(n),
        LoginErrorView::EmptyCookieNameOrValue => "Browser Cookie header contains an empty cookie name or value."@,
        LoginErrorView::EmptyCookieHeader => "Browser Cookie header was empty. Copy the Cookie request header after login."@,
        LoginErrorView::InvalidUserpass => "Invalid --userpass format. Expected 'user:pass'."@,
        LoginErrorView::BlankCredentials => "Username/password must not be empty."@,
        LoginErrorView::WebLoginNeedsHttp => "--web requires an http:// or https:// Forgejo URL; Unix-socket targets cannot be opened in a browser."@,
        LoginErrorView::WebLoginNeedsHost => "--web requires an http:// or https:// Forgejo URL with a host."@,
        LoginErrorView::BrowserSessionRejected(u) => "The browser session was not accepted by '"@ + u
            + "'. Copy the Cookie header after completing Forgejo/SSO login and run `fj-ex auth login --host "@
            + u + " --web` again."@,
    }
}

impl LoginError {
    /// The error's message.
    pub fn message(&self) -> (r: String)
        ensures
            r@ == login_error_message(self@),
    {
        let mut v: Vec<char> = Vec::new();
        match self {
            LoginError::InvalidBaseUrl(u, e) => {
                push_str_chars(&mut v, "Invalid Forgejo base URL '");
                push_str_chars(&mut v, u.as_str());
                push_str_chars(&mut v, "': ");
                push_str_chars(&mut v, e.as_str());
            },
            LoginError::BaseUrlWithoutHost(u) => {
                push_str_chars(&mut v, "Forgejo base URL has no host: ");
                push_str_chars(&mut v, u.as_str());
            },
            LoginError::MalformedCookieSegment(n) => {
                push_str_chars(&mut v, "Invalid browser Cookie header segment ");
                push_decimal(&mut v, *n as u128);
                push_str_chars(&mut v, ": expected name=value.");
            },
            LoginError::EmptyCookieNameOrValue => {
                push_str_chars(&mut v, "Browser Cookie header contains an empty cookie name or value.");
            },
            LoginError::EmptyCookieHeader => {
                push_str_chars(&mut v, "Browser Cookie header was empty. Copy the Cookie request header after login.");
            },
            LoginError::InvalidUserpass => {
                push_str_chars(&mut v, "Invalid --userpass format. Expected 'user:pass'.");
            },
            LoginError::BlankCredentials => {
                push_str_chars(&mut v, "Username/password must not be empty.");
            },
            LoginError::WebLoginNeedsHttp => {
                push_str_chars(&mut v, "--web requires an http:// or https:// Forgejo URL; Unix-socket targets cannot be opened in a browser.");
            },
            LoginError::WebLoginNeedsHost => {
                push_str_chars(&mut v, "--web requires an http:// or https:// Forgejo URL with a host.");
            },
            LoginError::BrowserSessionRejected(u) => {
                push_str_chars(&mut v, "The browser session was not accepted by '");
                push_str_chars(&mut v, u.as_str());
                push_str_chars(&mut v, "'. Copy the Cookie header after completing Forgejo/SSO login and run `fj-ex auth login --host ");
                push_str_chars(&mut v, u.as_str());
                push_str_chars(&mut v, " --web` again.");
            },
        }
        assert(v@ =~= login_error_message(self@));
        string_of(v.as_slice())
    }
}

/// The names of cookie attributes, which are not cookies.
pub open spec fn spec_is_cookie_attribute(name: Seq<char>) -> bool {
    let l = ascii_lowercase(name);
    l == "domain"@ || l == "expires"@ || l == "max-age"@ || l == "path"@ || l == "samesite"@ || l
        == "secure"@ || l == "httponly"@
}

/// Whether `name` is a cookie attribute (`Path`, `Secure`, …, in any case).
pub fn is_cookie_attribute(name: &str) -> (b: bool)
    ensures
        b == spec_is_cookie_attribute(name@),
{
    let v = chars_of(name);
    let l = ascii_lowercase_chars(v.as_slice());
    let s = l.as_slice();
    chars_are(s, "domain") || chars_are(s, "expires") || chars_are(s, "max-age") || chars_are(
        s,
        "path",
    ) || chars_are(s, "samesite") || chars_are(s, "secure") || chars_are(s, "httponly")
}

/// The header value: trimmed, without a leading `Cookie:` (in any case).
pub open spec fn cookie_header_value(header: Seq<char>) -> Seq<char> {
    let t = trim(header);
    if t.len() >= 7 && ascii_lowercase(t.subrange(0, 7)) == "cookie:"@ {
        trim(t.subrange(7, t.len() as int))
    } else {
        t
    }
}

/// What one segment of the header yields.
pub enum SegmentOutcome {
    Skip,
    Cookie(Seq<char>, Seq<char>),
    Fail(LoginErrorView),
}

/// How segment `index` (counted from 0) of the header is read: blank ones
/// and attributes are skipped; others must be `name=value` with neither
/// part empty (an attribute name again means skip).
pub open spec fn spec_cookie_segment(part: Seq<char>, index: nat) -> SegmentOutcome {
    let p = trim(part);
    if p.len() == 0 || spec_is_cookie_attribute(p) {
        SegmentOutcome::Skip
    } else {
        let k = first_index(p, '=');
        if k < 0 {
            SegmentOutcome::Fail(LoginErrorView::MalformedCookieSegment(index + 1))
        } else {
            let name = trim(p.subrange(0, k));
            let value = trim(p.subrange(k + 1, p.len() as int));
            if spec_is_cookie_attribute(name) {
                SegmentOutcome::Skip
            } else if name.len() == 0 || value.len() == 0 {
                SegmentOutcome::Fail(LoginErrorView::EmptyCookieNameOrValue)
            } else {
                SegmentOutcome::Cookie(name, value)
            }
        }
    }
}

/// A cookie imported from the header for `domain`.
pub open spec fn imported_cookie(name: Seq<char>, value: Seq<char>, domain: Seq<char>, secure: bool) -> CookieRecordView {
    CookieRecordView {
        name,
        value,
        domain,
        host_only: true,
        path: "/"@,
        expires_utc: None,
        secure,
        http_only: false,
        same_site: None,
    }
}

/// The cookies of the first `parts.len()` segments, or the first error.
pub open spec fn spec_cookies_of(parts: Seq<Seq<char>>, domain: Seq<char>, secure: bool) -> Result<Seq<CookieRecordView>, LoginErrorView>
    decreases parts.len(),
{
    if parts.len() == 0 {
        Ok(Seq::empty())
    } else {
        match spec_cookies_of(parts.drop_last(), domain, secure) {
            Err(e) => Err(e),
            Ok(cs) => match spec_cookie_segment(parts.last(), (parts.len() - 1) as nat) {
                SegmentOutcome::Skip => Ok(cs),
                SegmentOutcome::Fail(e) => Err(e),
                SegmentOutcome::Cookie(n, v) => Ok(cs.push(imported_cookie(n, v, domain, secure))),
            },
        }
    }
}

/// Every cookie read from header segments has a non-empty name and value,
/// a name that is no cookie attribute, and the given domain and security.
pub proof fn lemma_cookies_of_are_request_cookies(parts: Seq<Seq<char>>, domain: Seq<char>, secure: bool, i: int)
    requires
        spec_cookies_of(parts, domain, secure) is Ok,
        0 <= i < spec_cookies_of(parts, domain, secure)->Ok_0.len(),
    ensures
        ({
            let c = spec_cookies_of(parts, domain, secure)->Ok_0[i];
            &&& c.name.len() > 0
            &&& c.value.len() > 0
            &&& !spec_is_cookie_attribute(c.name)
            &&& c.domain == domain
            &&& c.secure == secure
            &&& c.host_only
            &&& c.path == "/"@
        }),
    decreases parts.len(),
{
    let cs = spec_cookies_of(parts.drop_last(), domain, secure);
    if i < cs->Ok_0.len() {
        lemma_cookies_of_are_request_cookies(parts.drop_last(), domain, secure, i);
    }
}

/// The cookies that a browser `Cookie` header imports for a base URL: each
/// for the base URL's host only, path `/`, secure exactly for `https`.
pub open spec fn spec_parse_cookie_header(base_url: Seq<char>, header: Seq<char>) -> Result<Seq<CookieRecordView>, LoginErrorView> {
    match url_parse(base_url) {
        Err(e) => Err(LoginErrorView::InvalidBaseUrl(base_url, e)),
        Ok(u) => match u.host {
            None => Err(LoginErrorView::BaseUrlWithoutHost(base_url)),
            Some(domain) => spec_cookies_from_header(domain, u.scheme == "https"@, header),
        },
    }
}

/// The cookies that a browser `Cookie` header imports for a host (`secure`
/// for an `https` base URL): an error when a segment is malformed or no
/// cookie is left.
pub open spec fn spec_cookies_from_header(domain: Seq<char>, secure: bool, header: Seq<char>) -> Result<Seq<CookieRecordView>, LoginErrorView> {
    match spec_cookies_of(split_all(cookie_header_value(header), ';'), domain, secure) {
        Err(e) => Err(e),
        Ok(cs) => if cs.len() == 0 {
            Err(LoginErrorView::EmptyCookieHeader)
        } else {
            Ok(cs)
        },
    }
}

/// A header import yields request cookies only: each with a non-empty name
/// and value, a name that is no cookie attribute (`Path`, `Secure`, ...),
/// for the base URL's host only, path `/`, and secure exactly for `https`.
pub proof fn lemma_imported_cookies_are_request_cookies(base_url: Seq<char>, header: Seq<char>, i: int)
    requires
        spec_parse_cookie_header(base_url, header) is Ok,
        0 <= i < spec_parse_cookie_header(base_url, header)->Ok_0.len(),
    ensures
        ({
            let u = url_parse(base_url)->Ok_0;
            let c = spec_parse_cookie_header(base_url, header)->Ok_0[i];
            &&& c.name.len() > 0
            &&& c.value.len() > 0
            &&& !spec_is_cookie_attribute(c.name)
            &&& u.host == Some(c.domain)
            &&& c.secure == (u.scheme == "https"@)
            &&& c.host_only
            &&& c.path == "/"@
        }),
{
    let u = url_parse(base_url)->Ok_0;
    lemma_cookies_of_are_request_cookies(
        split_all(cookie_header_value(header), ';'),
        u.host->0,
        u.scheme == "https"@,
        i,
    );
}

/// An error among the first segments is the error of the whole header.
proof fn lemma_cookies_error_stays(parts: Seq<Seq<char>>, n: int, domain: Seq<char>, secure: bool)
    requires
        0 <= n <= parts.len(),
        spec_cookies_of(parts.subrange(0, n), domain, secure) is Err,
    ensures
        spec_cookies_of(parts, domain, secure) == spec_cookies_of(parts.subrange(0, n), domain, secure),
    decreases parts.len() - n,
{
    if n < parts.len() {
        assert(parts.drop_last().subrange(0, n) =~= parts.subrange(0, n));
        lemma_cookies_error_stays(parts.drop_last(), n, domain, secure);
    } else {
        assert(parts.subrange(0, n) =~= parts);
    }
}

fn header_value(header: &str) -> (r: Vec<char>)
    ensures
        r@ == cookie_header_value(header@),
{
    let v = chars_of(header);
    let t = trim_chars(v.as_slice());
    if t.len() >= 7 {
        let head = slice_chars(t.as_slice(), 0, 7);
        let lower = ascii_lowercase_chars(head.as_slice());
        if chars_are(lower.as_slice(), "cookie:") {
            let rest = slice_chars(t.as_slice(), 7, t.len());
            return trim_chars(rest.as_slice());
        }
    }
    t
}

/// Reads one `name=value` segment.
fn cookie_segment(part: &[char], index: usize) -> (r: Result<Option<(Vec<char>, Vec<char>)>, LoginError>)
    requires
        index < usize::MAX,
    ensures
        match (r, spec_cookie_segment(part@, index as nat)) {
            (Ok(None), SegmentOutcome::Skip) => true,
            (Ok(Some((n, v))), SegmentOutcome::Cookie(sn, sv)) => n@ == sn && v@ == sv,
            (Err(e), SegmentOutcome::Fail(se)) => e@ == se,
            _ => false,
        },
{
    let p = trim_chars(part);
    if p.len() == 0 {
        return Ok(None);
    }
    let ptext = string_of(p.as_slice());
    if is_cookie_attribute(ptext.as_str()) {
        return Ok(None);
    }
    proof {
        lemma_first_index_bounds(p@, '=');
    }
    let k = match find_char(p.as_slice(), '=') {
        Some(k) => k,
        None => return Err(LoginError::MalformedCookieSegment(index + 1)),
    };
    let n0 = slice_chars(p.as_slice(), 0, k);
    let v0 = slice_chars(p.as_slice(), k + 1, p.len());
    let name = trim_chars(n0.as_slice());
    let value = trim_chars(v0.as_slice());
    let ntext = string_of(name.as_slice());
    if is_cookie_attribute(ntext.as_str()) {
        return Ok(None);
    }
    if name.len() == 0 || value.len() == 0 {
        return Err(LoginError::EmptyCookieNameOrValue);
    }
    Ok(Some((name, value)))
}

pub open spec fn record_views(v: Seq<CookieRecord>) -> Seq<CookieRecordView> {
    v.map_values(|c: CookieRecord| c@)
}

/// Imports the cookies of a browser `Cookie` header (as copied from the
/// browser's network panel) for the host of `base_url`. The jar's
/// `saved_utc` is the current time.
pub fn parse_cookie_header(base_url: &str, header: &str) -> (r: Result<CookieJar, LoginError>)
    ensures
        match r {
            Ok(j) => spec_parse_cookie_header(base_url@, header@) == Ok::<Seq<CookieRecordView>, LoginErrorView>(j@.cookies)
                && j@.saved_utc is Some,
            Err(e) => spec_parse_cookie_header(base_url@, header@) == Err::<Seq<CookieRecordView>, LoginErrorView>(e@),
        },
{
    let u = match parse_url(base_url) {
        Ok(u) => u,
        Err(e) => return Err(LoginError::InvalidBaseUrl(String::from_str(base_url), e)),
    };

    let domain = match &u.host {
        Some(h) => h,
        None => return Err(LoginError::BaseUrlWithoutHost(String::from_str(base_url))),
    };
    let sv = chars_of(u.scheme.as_str());
    let secure = chars_are(sv.as_slice(), "https");
    let cookies = match cookies_from_header(domain.as_str(), secure, header) {
        Ok(c) => c,
        Err(e) => return Err(e),
    };
    let saved = match now_utc_rfc3339() {
        Some(t) => t,
        None => String::new(),
    };
    Ok(CookieJar { saved_utc: Some(saved), cookies })
}

/// The cookies that a browser `Cookie` header imports for a host, each for
/// that host only, path `/`, and `secure` as given.
pub fn cookies_from_header(domain: &str, secure: bool, header: &str) -> (r: Result<Vec<CookieRecord>, LoginError>)
    ensures
        match r {
            Ok(cs) => spec_cookies_from_header(domain@, secure, header@) == Ok::<Seq<CookieRecordView>, LoginErrorView>(record_views(cs@)),
            Err(e) => spec_cookies_from_header(domain@, secure, header@) == Err::<Seq<CookieRecordView>, LoginErrorView>(e@),
        },
{
    let value = header_value(header);
    let parts = split_all_of(value.as_slice(), ';');
    let ghost ps = char_vec_views(parts@);
    let mut cookies: Vec<CookieRecord> = Vec::new();
    let mut i: usize = 0;
    assert(ps.subrange(0, 0) =~= Seq::<Seq<char>>::empty());
    assert(record_views(cookies@) =~= Seq::<CookieRecordView>::empty());
    #[verifier::loop_isolation(false)]
    while i < parts.len()
        invariant
            ps == char_vec_views(parts@),
            i <= parts.len(),
            spec_cookies_of(ps.subrange(0, i as int), domain@, secure) == Ok::<Seq<CookieRecordView>, LoginErrorView>(record_views(cookies@)),
        decreases parts.len() - i,
    {
        proof {
            assert(ps.subrange(0, i + 1).drop_last() =~= ps.subrange(0, i as int));
            assert(ps.subrange(0, i + 1).last() == parts@[i as int]@);
        }
        assert(i < usize::MAX);
        match cookie_segment(parts[i].as_slice(), i) {
            Err(e) => {
                proof {
                    lemma_cookies_error_stays(ps, i + 1, domain@, secure);
                }
                return Err(e);
            },
            Ok(None) => {},
            Ok(Some((name, val))) => {
                let c = CookieRecord {
                    name: string_of(name.as_slice()),
                    value: string_of(val.as_slice()),
                    domain: String::from_str(domain),
                    host_only: true,
                    path: String::from_str("/"),
                    expires_utc: None,
                    secure,
                    http_only: false,
                    same_site: None,
                };
                let ghost before = cookies@;
                cookies.push(c);
                assert(record_views(cookies@) =~= record_views(before).push(c@));
            },
        }
        i += 1;
    }
    assert(ps.subrange(0, i as int) =~= ps);
    if cookies.len() == 0 {
        return Err(LoginError::EmptyCookieHeader);
    }
    Ok(cookies)
}


pub open spec fn string_seq_views(s: Seq<String>) -> Seq<Seq<char>> {
    s.map_values(|x: String| x@)
}

pub open spec fn opt_str_view(o: Option<&str>) -> Option<Seq<char>> {
    match o {
        Some(s) => Some(s@),
        None => None,
    }
}

/// A text kept when it is not blank, trimmed.
pub open spec fn nonblank_trimmed(o: Option<Seq<char>>) -> Option<Seq<char>> {
    match o {
        Some(v) => if trim(v).len() > 0 {
            Some(trim(v))
        } else {
            None
        },
        None => None,
    }
}

/// How the two-factor passcode is chosen: `--otp`; else, with `--otp-stdin`,
/// the stdin line after the password (the first line without
/// `--password-stdin`); else `FJ_OTP`. Trimmed; a blank one counts as none.
pub open spec fn spec_resolve_otp(
    otp: Option<Seq<char>>,
    otp_stdin: bool,
    password_stdin: bool,
    lines: Seq<Seq<char>>,
    env_otp: Option<Seq<char>>,
) -> Option<Seq<char>> {
    let idx: int = if password_stdin {
        1
    } else {
        0
    };
    let raw = match otp {
        Some(o) => Some(o),
        None => {
            let from_stdin = if !otp_stdin {
                None
            } else if idx < lines.len() {
                Some(lines[idx])
            } else {
                None
            };
            match from_stdin {
                Some(x) => Some(x),
                None => env_otp,
            }
        },
    };
    nonblank_trimmed(raw)
}

/// `--otp` decides the passcode, whatever stdin and `FJ_OTP` hold: it is
/// taken trimmed, and a blank one means none.
pub proof fn lemma_otp_flag_wins(
    otp: Seq<char>,
    otp_stdin: bool,
    password_stdin: bool,
    lines: Seq<Seq<char>>,
    env_otp: Option<Seq<char>>,
)
    ensures
        trim(otp).len() > 0 ==> spec_resolve_otp(Some(otp), otp_stdin, password_stdin, lines, env_otp)
            == Some(trim(otp)),
        trim(otp).len() == 0 ==> spec_resolve_otp(Some(otp), otp_stdin, password_stdin, lines, env_otp)
            is None,
{
}

/// With `--otp-stdin`, the passcode is the stdin line after the password
/// (the first line without `--password-stdin`) where there is one, trimmed;
/// `FJ_OTP` is then not read.
pub proof fn lemma_stdin_passcode_line_wins(
    password_stdin: bool,
    lines: Seq<Seq<char>>,
    env_otp: Option<Seq<char>>,
)
    requires
        lines.len() > (if password_stdin { 1int } else { 0int }),
    ensures
        ({
            let line = lines[if password_stdin { 1int } else { 0int }];
            &&& trim(line).len() > 0 ==> spec_resolve_otp(None, true, password_stdin, lines, env_otp)
                == Some(trim(line))
            &&& trim(line).len() == 0 ==> spec_resolve_otp(None, true, password_stdin, lines, env_otp)
                is None
        }),
{
}

/// Without `--otp` and without a passcode line on stdin (no `--otp-stdin`,
/// or no line at its place), the passcode is `FJ_OTP`, trimmed, when it is
/// set and not blank, and none otherwise: whether `--otp-stdin` was given
/// does not matter.
pub proof fn lemma_env_otp_is_the_fallback(
    otp_stdin: bool,
    password_stdin: bool,
    lines: Seq<Seq<char>>,
    env_otp: Option<Seq<char>>,
)
    requires
        !otp_stdin || lines.len() <= (if password_stdin { 1int } else { 0int }),
    ensures
        match env_otp {
            Some(e) => if trim(e).len() > 0 {
                spec_resolve_otp(None, otp_stdin, password_stdin, lines, env_otp) == Some(trim(e))
            } else {
                spec_resolve_otp(None, otp_stdin, password_stdin, lines, env_otp) is None
            },
            None => spec_resolve_otp(None, otp_stdin, password_stdin, lines, env_otp) is None,
        },
        spec_resolve_otp(None, otp_stdin, password_stdin, lines, env_otp) == spec_resolve_otp(
            None,
            false,
            password_stdin,
            lines,
            env_otp,
        ),
{
}

/// The lines of a text as `str::lines` splits them (at `\n`, a final line
/// ending being optional), each trimmed.
pub open spec fn spec_stdin_lines(buf: Seq<char>) -> Seq<Seq<char>> {
    let parts = split_all(buf, '\n');
    let kept = if parts.len() > 0 && parts.last().len() == 0 {
        parts.drop_last()
    } else {
        parts
    };
    kept.map_values(|l: Seq<char>| trim(l))
}

/// The trimmed lines of what was read from stdin.
pub fn stdin_lines(buf: &str) -> (r: Vec<String>)
    ensures
        string_seq_views(r@) == spec_stdin_lines(buf@),
{
    let v = chars_of(buf);
    let parts = split_all_of(v.as_slice(), '\n');
    let ghost ps = split_all(buf@, '\n');
    assert(char_vec_views(parts@) == ps);
    let n: usize = if parts.len() > 0 && parts[parts.len() - 1].len() == 0 {
        assert(ps.last() == parts@[parts.len() - 1]@);
        parts.len() - 1
    } else {
        parts.len()
    };
    let ghost kept = if ps.len() > 0 && ps.last().len() == 0 {
        ps.drop_last()
    } else {
        ps
    };
    assert(kept.len() == n);
    let mut r: Vec<String> = Vec::new();
    let mut i: usize = 0;
    while i < n
        invariant
            n <= parts.len(),
            char_vec_views(parts@) == ps,
            kept.len() == n,
            forall|k: int| 0 <= k < n ==> #[trigger] kept[k] == ps[k],
            i <= n,
            r@.len() == i,
            forall|k: int| 0 <= k < i ==> #[trigger] r@[k]@ == trim(kept[k]),
        decreases n - i,
    {
        assert(parts@[i as int]@ == ps[i as int]);
        let t = trim_chars(parts[i].as_slice());
        r.push(string_of(t.as_slice()));
        i += 1;
    }
    assert(string_seq_views(r@) =~= spec_stdin_lines(buf@));
    r
}

fn nonblank_trimmed_of(s: &str) -> (r: Option<String>)
    ensures
        opt_view(r) == nonblank_trimmed(Some(s@)),
{
    let v = chars_of(s);
    let t = trim_chars(v.as_slice());
    if t.len() == 0 {
        None
    } else {
        Some(string_of(t.as_slice()))
    }
}

/// Chooses the two-factor passcode (`FJ_OTP`'s value is `env_otp`).
pub fn resolve_otp(args: &LoginCommand, stdin_lines: &[String], env_otp: Option<&str>) -> (r: Option<String>)
    ensures
        opt_view(r) == spec_resolve_otp(
            opt_view(args.otp),
            args.otp_stdin,
            args.password_stdin,
            string_seq_views(stdin_lines@),
            opt_str_view(env_otp),
        ),
{
    let ghost lines = string_seq_views(stdin_lines@);
    if let Some(o) = &args.otp {
        return nonblank_trimmed_of(o.as_str());
    }
    if args.otp_stdin {
        let idx: usize = if args.password_stdin {
            1
        } else {
            0
        };
        if idx < stdin_lines.len() {
            assert(lines[idx as int] == stdin_lines@[idx as int]@);
            return nonblank_trimmed_of(stdin_lines[idx].as_str());
        }
    }
    match env_otp {
        Some(e) => nonblank_trimmed_of(e),
        None => None,
    }
}

/// How `--userpass user:pass` splits: at the first `:`, which must be
/// neither first nor last.
pub open spec fn spec_split_userpass(s: Seq<char>) -> Option<(Seq<char>, Seq<char>)> {
    let k = first_index(s, ':');
    if k <= 0 || k >= s.len() - 1 {
        None
    } else {
        Some((s.subrange(0, k), s.subrange(k + 1, s.len() as int)))
    }
}

/// Splits `--userpass user:pass`.
pub fn split_userpass(userpass: &str) -> (r: Result<(String, String), LoginError>)
    ensures
        match r {
            Ok((u, p)) => spec_split_userpass(userpass@) == Some((u@, p@)),
            Err(e) => spec_split_userpass(userpass@) is None && e@ == LoginErrorView::InvalidUserpass,
        },
{
    let v = chars_of(userpass);
    proof {
        lemma_first_index_bounds(v@, ':');
    }
    let k = match find_char(v.as_slice(), ':') {
        Some(k) => k,
        None => return Err(LoginError::InvalidUserpass),
    };
    if k == 0 || k >= v.len() - 1 {
        return Err(LoginError::InvalidUserpass);
    }
    let u = slice_chars(v.as_slice(), 0, k);
    let p = slice_chars(v.as_slice(), k + 1, v.len());
    Ok((string_of(u.as_slice()), string_of(p.as_slice())))
}

/// The username given by `--username` or `FJ_USER`; `None` (prompt for it)
/// when it is missing or blank.
pub open spec fn spec_username_candidate(arg: Option<Seq<char>>, env: Option<Seq<char>>) -> Option<Seq<char>> {
    let u = match arg {
        Some(a) => a,
        None => match env {
            Some(e) => e,
            None => Seq::empty(),
        },
    };
    if trim(u).len() == 0 {
        None
    } else {
        Some(u)
    }
}

/// Chooses the username before any prompt.
pub fn username_candidate(arg: Option<&str>, env_user: Option<&str>) -> (r: Option<String>)
    ensures
        opt_view(r) == spec_username_candidate(opt_str_view(arg), opt_str_view(env_user)),
{
    let u = match arg {
        Some(a) => a,
        None => match env_user {
            Some(e) => e,
            None => "",
        },
    };
    proof {
        reveal_strlit("");
        assert(""@ =~= Seq::<char>::empty());
    }
    if is_blank(u) {
        None
    } else {
        Some(String::from_str(u))
    }
}

/// The password given by `--password` or `FJ_PASS`, else (with
/// `--password-stdin`) the first stdin line; `None` (prompt for it) when
/// still blank.
pub open spec fn spec_password_candidate(
    arg: Option<Seq<char>>,
    env: Option<Seq<char>>,
    password_stdin: bool,
    lines: Seq<Seq<char>>,
) -> Option<Seq<char>> {
    let p = match arg {
        Some(a) => a,
        None => match env {
            Some(e) => e,
            None => Seq::empty(),
        },
    };
    let p2 = if password_stdin && trim(p).len() == 0 {
        if lines.len() > 0 {
            lines[0]
        } else {
            Seq::empty()
        }
    } else {
        p
    };
    if trim(p2).len() == 0 {
        None
    } else {
        Some(p2)
    }
}

/// Chooses the password before any prompt.
pub fn password_candidate(arg: Option<&str>, env_pass: Option<&str>, password_stdin: bool, stdin_lines: &[String]) -> (r: Option<String>)
    ensures
        opt_view(r) == spec_password_candidate(
            opt_str_view(arg),
            opt_str_view(env_pass),
            password_stdin,
            string_seq_views(stdin_lines@),
        ),
{
    let p = match arg {
        Some(a) => a,
        None => match env_pass {
            Some(e) => e,
            None => "",
        },
    };
    proof {
        reveal_strlit("");
        assert(""@ =~= Seq::<char>::empty());
    }
    let p2: &str = if password_stdin && is_blank(p) {
        if stdin_lines.len() > 0 {
            assert(string_seq_views(stdin_lines@)[0] == stdin_lines@[0]@);
            stdin_lines[0].as_str()
        } else {
            ""
        }
    } else {
        p
    };
    if is_blank(p2) {
        None
    } else {
        Some(String::from_str(p2))
    }
}

/// Neither the username nor the password may be blank.
pub fn check_login_input(username: &str, password: &str) -> (r: Result<(), LoginError>)
    ensures
        r is Ok <==> trim(username@).len() > 0 && trim(password@).len() > 0,
        r matches Err(e) ==> e@ == LoginErrorView::BlankCredentials,
{
    if is_blank(username) || is_blank(password) {
        return Err(LoginError::BlankCredentials);
    }
    Ok(())
}

/// The login page of a web login and the host to name.
pub struct WebLoginTarget {
    pub login_url: String,
    pub host: String,
}

/// A web login needs an `http(s)://` base URL with a host (no Unix
/// socket); its login page is `<base>/user/login`.
pub open spec fn spec_web_login_target(base_url: Seq<char>, unix_socket: bool) -> Result<(Seq<char>, Seq<char>), LoginErrorView> {
    if unix_socket || "http+unix://"@.is_prefix_of(base_url) {
        Err(LoginErrorView::WebLoginNeedsHttp)
    } else {
        match url_parse(base_url) {
            Err(e) => Err(LoginErrorView::InvalidBaseUrl(base_url, e)),
            Ok(u) => spec_web_target_of(base_url, u),
        }
    }
}

/// The web login target of a parsed base URL: it must be `http(s)` with a
/// host.
pub open spec fn spec_web_target_of(base_url: Seq<char>, u: UrlView) -> Result<(Seq<char>, Seq<char>), LoginErrorView> {
    if !(u.scheme == "http"@ || u.scheme == "https"@) || u.host is None {
        Err(LoginErrorView::WebLoginNeedsHost)
    } else {
        Ok((base_url + "/user/login"@, u.host.unwrap()))
    }
}

pub open spec fn target_result(r: Result<WebLoginTarget, LoginError>) -> Result<(Seq<char>, Seq<char>), LoginErrorView> {
    match r {
        Ok(t) => Ok((t.login_url@, t.host@)),
        Err(e) => Err(e@),
    }
}

/// Checks the target of a web login and gives its login page.
pub fn web_login_target(base_url: &str, unix_socket: bool) -> (r: Result<WebLoginTarget, LoginError>)
    ensures
        target_result(r) == spec_web_login_target(base_url@, unix_socket),
{
    let v = chars_of(base_url);
    if unix_socket || has_prefix(v.as_slice(), "http+unix://") {
        return Err(LoginError::WebLoginNeedsHttp);
    }
    match parse_url(base_url) {
        Ok(u) => web_target_of(base_url, &u),
        Err(e) => Err(LoginError::InvalidBaseUrl(String::from_str(base_url), e)),
    }
}

/// The web login target of a base URL as parsed.
pub fn web_target_of(base_url: &str, u: &ParsedUrl) -> (r: Result<WebLoginTarget, LoginError>)
    ensures
        target_result(r) == spec_web_target_of(base_url@, u@),
{
    let sv = chars_of(u.scheme.as_str());
    let web = chars_are(sv.as_slice(), "http") || chars_are(sv.as_slice(), "https");
    let host = match &u.host {
        Some(h) => h.clone(),
        None => return Err(LoginError::WebLoginNeedsHost),
    };
    if !web {
        return Err(LoginError::WebLoginNeedsHost);
    }
    let mut login = chars_of(base_url);
    push_str_chars(&mut login, "/user/login");
    Ok(WebLoginTarget { login_url: string_of(login.as_slice()), host })
}

/// The host shown after a login: the base URL's host, or the base URL.
pub open spec fn spec_login_host_label(base_url: Seq<char>) -> Seq<char> {
    match url_parsed(base_url) {
        Some(u) => spec_host_label_of(base_url, u),
        None => base_url,
    }
}

/// The host shown after a login, of a parsed base URL.
pub open spec fn spec_host_label_of(base_url: Seq<char>, u: UrlView) -> Seq<char> {
    match u.host {
        Some(h) => h,
        None => base_url,
    }
}

/// The host shown after a login.
pub fn login_host_label(base_url: &str) -> (r: String)
    ensures
        r@ == spec_login_host_label(base_url@),
{
    match parse_url(base_url) {
        Ok(u) => host_label_of(base_url, &u),
        Err(_) => String::from_str(base_url),
    }
}

/// The host shown after a login, of a base URL as parsed.
pub fn host_label_of(base_url: &str, u: &ParsedUrl) -> (r: String)
    ensures
        r@ == spec_host_label_of(base_url@, u@),
{
    match &u.host {
        Some(h) => h.clone(),
        None => String::from_str(base_url),
    }
}

} // verus!
