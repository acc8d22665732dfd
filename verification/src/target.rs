//! Repository arguments and the Forgejo target: base URLs, host keys,
//! Unix-socket URLs, git remotes and their resolution.
use vstd::prelude::*;
use crate::text::{
    before_first, before_first_chars, char_vec_views, chars_are, chars_of, decimal, ends_with,
    find_char, first_index, has_prefix, has_suffix, lacks, last_index, lemma_first_index_bounds,
    lemma_last_index_bounds, lemma_last_index_join, push_all, push_decimal, push_str_chars,
    rfind_char, segments, segments_of, slice_chars, string_of, strip_all_prefix,
    strip_all_prefix_chars, strip_suffix, trim, trim_chars,
};
use crate::urls::{opt_view, parse_url_opt, percent_decode, percent_decoded, url_parsed, ParsedUrl, UrlView};

verus! {

/// `owner/name` of a repository.
#[derive(Clone, Debug)]
pub struct RepoName {
    owner: String,
    name: String,
}

impl View for RepoName {
    type V = (Seq<char>, Seq<char>);

    closed spec fn view(&self) -> (Seq<char>, Seq<char>) {
        (self.owner@, self.name@)
    }
}

/// `a/b`.
pub open spec fn slash_join(a: Seq<char>, b: Seq<char>) -> Seq<char> {
    a + seq!['/'] + b
}

impl RepoName {
    pub fn owner(&self) -> (r: &str)
        ensures
            r@ == self@.0,
    {
        self.owner.as_str()
    }

    pub fn name(&self) -> (r: &str)
        ensures
            r@ == self@.1,
    {
        self.name.as_str()
    }

    /// `owner/name`.
    pub fn as_owner_slash_name(&self) -> (r: String)
        ensures
            r@ == slash_join(self@.0, self@.1),
    {
        let mut v = chars_of(self.owner.as_str());
        v.push('/');
        push_str_chars(&mut v, self.name.as_str());
        string_of(v.as_slice())
    }

    /// The repository named by a repository argument (its host dropped).
    pub fn from_repo_arg(value: RepoArg) -> (r: RepoName)
        ensures
            r@ == (value@.owner, value@.name),
    {
        RepoName { owner: value.owner, name: value.name }
    }
}

/// A repository argument: `[HOST/]OWNER/NAME`.
#[derive(Debug, Clone)]
pub struct RepoArg {
    pub host: Option<String>,
    pub owner: String,
    pub name: String,
}

pub struct RepoArgView {
    pub host: Option<Seq<char>>,
    pub owner: Seq<char>,
    pub name: Seq<char>,
}

impl View for RepoArg {
    type V = RepoArgView;

    open spec fn view(&self) -> RepoArgView {
        RepoArgView { host: opt_view(self.host), owner: self.owner@, name: self.name@ }
    }
}

/// `.git`.
pub open spec fn dot_git() -> Seq<char> {
    seq!['.', 'g', 'i', 't']
}

/// How `[HOST/]OWNER/NAME` is read: the name follows the last `/` (without a
/// trailing `.git`), the owner follows the `/` before it, and anything before
/// that is the host. `None` when there is no `/`.
pub open spec fn spec_parse_repo_arg(s: Seq<char>) -> Option<RepoArgView> {
    let k = last_index(s, '/');
    if k < 0 {
        None
    } else {
        let head = s.subrange(0, k);
        let name = strip_suffix(s.subrange(k + 1, s.len() as int), dot_git());
        let k2 = last_index(head, '/');
        if k2 < 0 {
            Some(RepoArgView { host: None, owner: head, name })
        } else {
            Some(
                RepoArgView {
                    host: Some(head.subrange(0, k2)),
                    owner: head.subrange(k2 + 1, head.len() as int),
                    name,
                },
            )
        }
    }
}

/// The text of a repository argument.
pub open spec fn spec_repo_arg_text(a: RepoArgView) -> Seq<char> {
    match a.host {
        Some(h) => slash_join(slash_join(h, a.owner), a.name),
        None => slash_join(a.owner, a.name),
    }
}

/// Error of [`RepoArg::from_str`].
#[derive(Debug, Clone, Copy, PartialEq, Eq, Structural)]
pub enum RepoArgError {
    NoOwner,
}

impl RepoArgError {
    /// The error's message.
    pub fn message(&self) -> (r: String)
        ensures
            r@ == "repo name should be in the format [HOST/]OWNER/NAME"@,
    {
        String::from_str("repo name should be in the format [HOST/]OWNER/NAME")
    }
}

/// Removes a trailing `.git`.
fn strip_dot_git(v: &[char]) -> (r: Vec<char>)
    ensures
        r@ == strip_suffix(v@, dot_git()),
{
    proof {
        reveal_strlit(".git");
        assert(".git"@ =~= dot_git());
    }
    if has_suffix(v, ".git") {
        slice_chars(v, 0, v.len() - 4)
    } else {
        slice_chars(v, 0, v.len())
    }
}

impl RepoArg {
    /// Reads `[HOST/]OWNER/NAME`.
    pub fn from_str(s: &str) -> (r: Result<RepoArg, RepoArgError>)
        ensures
            match r {
                Ok(a) => spec_parse_repo_arg(s@) == Some(a@),
                Err(e) => spec_parse_repo_arg(s@) is None && e == RepoArgError::NoOwner,
            },
    {
        let v = chars_of(s);
        proof {
            lemma_last_index_bounds(v@, '/');
        }
        match rfind_char(v.as_slice(), '/') {
            None => Err(RepoArgError::NoOwner),
            Some(k) => {
                assert(k < v.len());
                let head = slice_chars(v.as_slice(), 0, k);
                let name0 = slice_chars(v.as_slice(), k + 1, v.len());
                let name = strip_dot_git(name0.as_slice());
                proof {
                    lemma_last_index_bounds(head@, '/');
                }
                match rfind_char(head.as_slice(), '/') {
                    None => Ok(
                        RepoArg {
                            host: None,
                            owner: string_of(head.as_slice()),
                            name: string_of(name.as_slice()),
                        },
                    ),
                    Some(k2) => {
                        let host = slice_chars(head.as_slice(), 0, k2);
                        let owner = slice_chars(head.as_slice(), k2 + 1, head.len());
                        Ok(
                            RepoArg {
                                host: Some(string_of(host.as_slice())),
                                owner: string_of(owner.as_slice()),
                                name: string_of(name.as_slice()),
                            },
                        )
                    },
                }
            },
        }
    }

    /// `[HOST/]OWNER/NAME`, as the argument is displayed.
    pub fn to_string(&self) -> (r: String)
        ensures
            r@ == spec_repo_arg_text(self@),
    {
        let mut v: Vec<char> = Vec::new();
        match &self.host {
            Some(h) => {
                push_str_chars(&mut v, h.as_str());
                v.push('/');
            },
            None => {},
        }
        push_str_chars(&mut v, self.owner.as_str());
        v.push('/');
        push_str_chars(&mut v, self.name.as_str());
        let r = string_of(v.as_slice());
        assert(r@ =~= spec_repo_arg_text(self@));
        r
    }
}

/// Reading back the text of a repository argument gives the same argument,
/// provided its owner and name hold no `/` and the name does not end in
/// `.git` (a host may hold `/`).
pub proof fn lemma_repo_arg_text_round_trip(a: RepoArgView)
    requires
        lacks(a.owner, '/'),
        lacks(a.name, '/'),
        !ends_with(a.name, dot_git()),
    ensures
        spec_parse_repo_arg(spec_repo_arg_text(a)) == Some(a),
{
    let head = match a.host {
        Some(h) => slash_join(h, a.owner),
        None => a.owner,
    };
    lemma_last_index_join(head, a.name, '/');
    let s = spec_repo_arg_text(a);
    assert(s.subrange(0, head.len() as int) =~= head);
    assert(s.subrange(head.len() as int + 1, s.len() as int) =~= a.name);
    match a.host {
        Some(h) => {
            lemma_last_index_join(h, a.owner, '/');
            assert(head.subrange(0, h.len() as int) =~= h);
            assert(head.subrange(h.len() as int + 1, head.len() as int) =~= a.owner);
        },
        None => {
            lemma_last_index_bounds(a.owner, '/');
        },
    }
}

/// A name written with a trailing `.git` is read without it, with a host
/// or without one: `[HOST/]OWNER/NAME.git` reads as `[HOST/]OWNER/NAME`
/// (only one `.git` is removed).
pub proof fn lemma_repo_arg_drops_dot_git(a: RepoArgView)
    requires
        lacks(a.owner, '/'),
        lacks(a.name, '/'),
    ensures
        spec_parse_repo_arg(spec_repo_arg_text(a) + dot_git()) == Some(a),
{
    let head = match a.host {
        Some(h) => slash_join(h, a.owner),
        None => a.owner,
    };
    let full = a.name + dot_git();
    assert(lacks(full, '/'));
    let s = spec_repo_arg_text(a) + dot_git();
    assert(s =~= head + seq!['/'] + full);
    lemma_last_index_join(head, full, '/');
    assert(s.subrange(0, head.len() as int) =~= head);
    assert(s.subrange(head.len() as int + 1, s.len() as int) =~= full);
    assert(full.subrange(full.len() - 4, full.len() as int) =~= dot_git());
    assert(full.subrange(0, full.len() - 4) =~= a.name);
    match a.host {
        Some(h) => {
            lemma_last_index_join(h, a.owner, '/');
            assert(head.subrange(0, h.len() as int) =~= h);
            assert(head.subrange(h.len() as int + 1, head.len() as int) =~= a.owner);
        },
        None => {
            lemma_last_index_bounds(a.owner, '/');
        },
    }
}



/// Errors of target resolution.
#[derive(Debug, Clone)]
pub enum TargetError {
    /// The host text is blank.
    HostRequired,
    /// An `http+unix://` URL on a platform without Unix sockets.
    UnixSocketUnsupported,
    /// An `http+unix://` URL without a socket path.
    InvalidUnixSocketUrl(String),
    /// An `http(s)://` base URL that does not parse.
    InvalidBaseUrl,
    /// A URL without a host.
    UrlMissingHost,
    /// An `http(s)://` or `ssh://` host URL that does not parse.
    InvalidHostUrl,
    /// A git remote URL that does not parse.
    RemoteUrlUnparsable,
    /// A git remote URL without a host.
    RemoteUrlMissingHost,
    /// A git remote URL without a path.
    RemoteUrlCannotBeABase,
    /// The git remotes could not be listed.
    GitRemotesUnlisted,
    /// A remote could not be looked up while matching the host (git's message).
    GitLookupFailed(String),
    /// The named remote does not exist.
    GitRemoteNotFound(String),
    /// The named remote has no URL.
    GitRemoteWithoutUrl(String),
    /// The repository inferred from git is not `OWNER/NAME`.
    InferredRepoInvalid(RepoArgError),
    /// No host could be found by any means.
    Unresolved,
}

/// The mathematical value of a [`TargetError`].
pub enum TargetErrorView {
    HostRequired,
    UnixSocketUnsupported,
    InvalidUnixSocketUrl(Seq<char>),
    InvalidBaseUrl,
    UrlMissingHost,
    InvalidHostUrl,
    RemoteUrlUnparsable,
    RemoteUrlMissingHost,
    RemoteUrlCannotBeABase,
    GitRemotesUnlisted,
    GitLookupFailed(Seq<char>),
    GitRemoteNotFound(Seq<char>),
    GitRemoteWithoutUrl(Seq<char>),
    InferredRepoInvalid(RepoArgError),
    Unresolved,
}

impl View for TargetError {
    type V = TargetErrorView;

    open spec fn view(&self) -> TargetErrorView {
        match self {
            TargetError::HostRequired => TargetErrorView::HostRequired,
            TargetError::UnixSocketUnsupported => TargetErrorView::UnixSocketUnsupported,
            TargetError::InvalidUnixSocketUrl(u) => TargetErrorView::InvalidUnixSocketUrl(u@),
            TargetError::InvalidBaseUrl => TargetErrorView::InvalidBaseUrl,
            TargetError::UrlMissingHost => TargetErrorView::UrlMissingHost,
            TargetError::InvalidHostUrl => TargetErrorView::InvalidHostUrl,
            TargetError::RemoteUrlUnparsable => TargetErrorView::RemoteUrlUnparsable,
            TargetError::RemoteUrlMissingHost => TargetErrorView::RemoteUrlMissingHost,
            TargetError::RemoteUrlCannotBeABase => TargetErrorView::RemoteUrlCannotBeABase,
            TargetError::GitRemotesUnlisted => TargetErrorView::GitRemotesUnlisted,
            TargetError::GitLookupFailed(m) => TargetErrorView::GitLookupFailed(m@),
            TargetError::GitRemoteNotFound(n) => TargetErrorView::GitRemoteNotFound(n@),
            TargetError::GitRemoteWithoutUrl(n) => TargetErrorView::GitRemoteWithoutUrl(n@),
            TargetError::InferredRepoInvalid(e) => TargetErrorView::InferredRepoInvalid(*e),
            TargetError::Unresolved => TargetErrorView::Unresolved,
        }
    }
}

/// The message of a target error.
pub open spec fn target_error_message(e: TargetErrorView) -> Seq<char> {
    match e {
        TargetErrorView::HostRequired => "host is required"@,
        TargetErrorView::UnixSocketUnsupported => "Unix socket URLs (http+unix://) are only supported on Unix platforms"@,
        TargetErrorView::InvalidUnixSocketUrl(u) => "Invalid Unix socket URL: '"@ + u
            + "'. Expected format: http+unix:///path/to/socket.sock"@,
        TargetErrorView::InvalidBaseUrl => "invalid base url"@,
        TargetErrorView::UrlMissingHost => "url is missing host"@,
        TargetErrorView::InvalidHostUrl => "invalid host url"@,
        TargetErrorView::RemoteUrlUnparsable => "unable to parse remote url"@,
        TargetErrorView::RemoteUrlMissingHost => "remote url missing host"@,
        TargetErrorView::RemoteUrlCannotBeABase => "remote url cannot be a base"@,
        TargetErrorView::GitRemotesUnlisted => "failed to list git remotes"@,
        TargetErrorView::GitLookupFailed(n) => "unable to find git remote '"@ + n + "'"@,
        TargetErrorView::GitRemoteNotFound(n) => "unable to find git remote '"@ + n + "'"@,
        TargetErrorView::GitRemoteWithoutUrl(n) => "git remote '"@ + n + "' has no url"@,
        TargetErrorView::InferredRepoInvalid(_) => "failed to parse inferred repo: repo name should be in the format [HOST/]OWNER/NAME"@,
        TargetErrorView::Unresolved => "unable to resolve Forgejo host. Pass --host, set FJ_FALLBACK_HOST, or run inside a git repo with a Forgejo remote."@,
    }
}

impl TargetError {
    /// The error's message.
    pub fn message(&self) -> (r: String)
        ensures
            r@ == target_error_message(self@),
    {
        let mut v: Vec<char> = Vec::new();
        match self {
            TargetError::HostRequired => push_str_chars(&mut v, "host is required"),
            TargetError::UnixSocketUnsupported => push_str_chars(
                &mut v,
                "Unix socket URLs (http+unix://) are only supported on Unix platforms",
            ),
            TargetError::InvalidUnixSocketUrl(u) => {
                push_str_chars(&mut v, "Invalid Unix socket URL: '");
                push_str_chars(&mut v, u.as_str());
                push_str_chars(&mut v, "'. Expected format: http+unix:///path/to/socket.sock");
            },
            TargetError::InvalidBaseUrl => push_str_chars(&mut v, "invalid base url"),
            TargetError::UrlMissingHost => push_str_chars(&mut v, "url is missing host"),
            TargetError::InvalidHostUrl => push_str_chars(&mut v, "invalid host url"),
            TargetError::RemoteUrlUnparsable => push_str_chars(&mut v, "unable to parse remote url"),
            TargetError::RemoteUrlMissingHost => push_str_chars(&mut v, "remote url missing host"),
            TargetError::RemoteUrlCannotBeABase => push_str_chars(&mut v, "remote url cannot be a base"),
            TargetError::GitRemotesUnlisted => push_str_chars(&mut v, "failed to list git remotes"),
            TargetError::GitLookupFailed(n) => {
                push_str_chars(&mut v, "unable to find git remote '");
                push_str_chars(&mut v, n.as_str());
                push_str_chars(&mut v, "'");
            },
            TargetError::GitRemoteNotFound(n) => {
                push_str_chars(&mut v, "unable to find git remote '");
                push_str_chars(&mut v, n.as_str());
                push_str_chars(&mut v, "'");
            },
            TargetError::GitRemoteWithoutUrl(n) => {
                push_str_chars(&mut v, "git remote '");
                push_str_chars(&mut v, n.as_str());
                push_str_chars(&mut v, "' has no url");
            },
            TargetError::InferredRepoInvalid(_) => push_str_chars(
                &mut v,
                "failed to parse inferred repo: repo name should be in the format [HOST/]OWNER/NAME",
            ),
            TargetError::Unresolved => push_str_chars(
                &mut v,
                "unable to resolve Forgejo host. Pass --host, set FJ_FALLBACK_HOST, or run inside a git repo with a Forgejo remote.",
            ),
        }
        assert(v@ =~= target_error_message(self@));
        string_of(v.as_slice())
    }
}

/// The value of a text result.
pub open spec fn text_result(r: Result<String, TargetError>) -> Result<Seq<char>, TargetErrorView> {
    match r {
        Ok(s) => Ok(s@),
        Err(e) => Err(e@),
    }
}

pub open spec fn unix_scheme() -> Seq<char> {
    "http+unix://"@
}

pub open spec fn http_scheme() -> Seq<char> {
    "http://"@
}

pub open spec fn https_scheme() -> Seq<char> {
    "https://"@
}

pub open spec fn ssh_scheme() -> Seq<char> {
    "ssh://"@
}

/// The base URL of every Unix-socket target.
pub open spec fn socket_base_url() -> Seq<char> {
    "http://localhost"@
}

/// The socket path of an `http+unix://` URL: the text after the scheme
/// (every leading copy of it removed), percent-decoded, and not blank.
pub open spec fn spec_unix_socket_path(s: Seq<char>) -> Option<Seq<char>> {
    if !unix_scheme().is_prefix_of(s) {
        None
    } else {
        match percent_decoded(strip_all_prefix(s, unix_scheme())) {
            None => None,
            Some(d) => if trim(d).len() == 0 {
                None
            } else {
                Some(d)
            },
        }
    }
}

/// Reads an `http+unix://` URL: the socket path and the base URL
/// (`http://localhost`) of requests sent through it.
pub fn parse_unix_socket_url(url: &str) -> (r: Option<(String, String)>)
    ensures
        match r {
            Some((path, base)) => spec_unix_socket_path(url@) == Some(path@) && base@
                == socket_base_url(),
            None => spec_unix_socket_path(url@) is None,
        },
{
    let v = chars_of(url);
    if !has_prefix(v.as_slice(), "http+unix://") {
        return None;
    }
    let rest = strip_all_prefix_chars(v.as_slice(), "http+unix://");
    let rest_text = string_of(rest.as_slice());
    let decoded = match percent_decode(rest_text.as_str()) {
        Some(d) => d,
        None => return None,
    };
    let dv = chars_of(decoded.as_str());
    let t = trim_chars(dv.as_slice());
    if t.len() == 0 {
        return None;
    }
    Some((decoded, String::from_str("http://localhost")))
}

/// `:port`, or nothing.
pub open spec fn port_part(port: Option<u16>) -> Seq<char> {
    match port {
        Some(p) => seq![':'] + decimal(p as nat),
        None => Seq::empty(),
    }
}

/// The text before the first `#`, then `?`, then `/`.
pub open spec fn host_part(t: Seq<char>) -> Seq<char> {
    before_first(before_first(before_first(t, '#'), '?'), '/')
}

/// The base URL of a parsed `http(s)://` URL: scheme, host and
/// non-default port.
pub open spec fn spec_base_url_of(u: UrlView) -> Result<Seq<char>, TargetErrorView> {
    match u.host {
        None => Err(TargetErrorView::UrlMissingHost),
        Some(h) => Ok(u.scheme + "://"@ + h + port_part(u.port)),
    }
}

/// How a host or base URL is normalized to a base URL; `unix` says whether
/// the platform has Unix sockets (without them an `http+unix://` URL is
/// refused).
pub open spec fn spec_normalize_base_url(s: Seq<char>, unix: bool) -> Result<Seq<char>, TargetErrorView> {
    let t = trim(s);
    if t.len() == 0 {
        Err(TargetErrorView::HostRequired)
    } else if unix_scheme().is_prefix_of(t) {
        if !unix {
            Err(TargetErrorView::UnixSocketUnsupported)
        } else if spec_unix_socket_path(t) is None {
            Err(TargetErrorView::InvalidUnixSocketUrl(t))
        } else {
            Ok(t)
        }
    } else if http_scheme().is_prefix_of(t) || https_scheme().is_prefix_of(t) {
        match url_parsed(t) {
            None => Err(TargetErrorView::InvalidBaseUrl),
            Some(u) => spec_base_url_of(u),
        }
    } else if host_part(t).len() == 0 {
        Err(TargetErrorView::HostRequired)
    } else {
        Ok(https_scheme() + host_part(t))
    }
}

/// Appends `:port` when there is a port.
fn push_port(dst: &mut Vec<char>, port: Option<u16>)
    ensures
        final(dst)@ == old(dst)@ + port_part(port),
{
    match port {
        Some(p) => {
            dst.push(':');
            push_decimal(dst, p as u128);
            assert(final(dst)@ =~= old(dst)@ + port_part(port));
        },
        None => {
            assert(dst@ =~= old(dst)@ + port_part(port));
        },
    }
}

/// The base URL of a parsed `http(s)://` URL.
pub fn base_url_of(u: &ParsedUrl) -> (r: Result<String, TargetError>)
    ensures
        text_result(r) == spec_base_url_of(u@),
{
    let host = match &u.host {
        Some(h) => h,
        None => return Err(TargetError::UrlMissingHost),
    };
    let mut out = chars_of(u.scheme.as_str());
    push_str_chars(&mut out, "://");
    push_str_chars(&mut out, host.as_str());
    push_port(&mut out, u.port);
    Ok(string_of(out.as_slice()))
}

/// Normalizes a host (`forge.example.com`), a base URL
/// (`https://forge.example.com:3000/path`) or a Unix-socket URL to the base
/// URL under which credentials are stored and requests are sent. A plain
/// host gets `https://` and loses any path, query or fragment; an
/// `http(s)://` URL keeps only scheme, host and non-default port; a valid
/// `http+unix://` URL is kept as given (trimmed) where the platform has Unix
/// sockets (`unix`), and refused where it has none.
pub fn normalize_base_url(host_or_url: &str, unix: bool) -> (r: Result<String, TargetError>)
    ensures
        text_result(r) == spec_normalize_base_url(host_or_url@, unix),
{
    let v = chars_of(host_or_url);
    let t = trim_chars(v.as_slice());
    if t.len() == 0 {
        return Err(TargetError::HostRequired);
    }
    let t_text = string_of(t.as_slice());
    if has_prefix(t.as_slice(), "http+unix://") {
        if !unix {
            return Err(TargetError::UnixSocketUnsupported);
        }
        if parse_unix_socket_url(t_text.as_str()).is_none() {
            return Err(TargetError::InvalidUnixSocketUrl(t_text));
        }
        return Ok(t_text);
    }
    if has_prefix(t.as_slice(), "http://") || has_prefix(t.as_slice(), "https://") {
        return match parse_url_opt(t_text.as_str()) {
            Some(u) => base_url_of(&u),
            None => Err(TargetError::InvalidBaseUrl),
        };
    }
    let no_frag = before_first_chars(t.as_slice(), '#');
    let no_query = before_first_chars(no_frag.as_slice(), '?');
    // The first `/`-segment holds no `/`, so no trailing `/` is left to trim.
    let host = before_first_chars(no_query.as_slice(), '/');
    if host.len() == 0 {
        return Err(TargetError::HostRequired);
    }
    let mut out = chars_of("https://");
    push_all(&mut out, host.as_slice());
    Ok(string_of(out.as_slice()))
}

/// The host key of a parsed URL: host and non-default port.
pub open spec fn spec_host_key_of(u: UrlView) -> Result<Seq<char>, TargetErrorView> {
    match u.host {
        None => Err(TargetErrorView::UrlMissingHost),
        Some(h) => Ok(h + port_part(u.port)),
    }
}

/// The host key of a parsed URL.
pub fn host_key_of(u: &ParsedUrl) -> (r: Result<String, TargetError>)
    ensures
        text_result(r) == spec_host_key_of(u@),
{
    let host = match &u.host {
        Some(h) => h,
        None => return Err(TargetError::UrlMissingHost),
    };
    let mut out = chars_of(host.as_str());
    push_port(&mut out, u.port);
    Ok(string_of(out.as_slice()))
}

/// How a host or URL is normalized to the key of the credential store.
pub open spec fn spec_normalize_host_key(s: Seq<char>) -> Result<Seq<char>, TargetErrorView> {
    let t = trim(s);
    if t.len() == 0 {
        Err(TargetErrorView::HostRequired)
    } else if unix_scheme().is_prefix_of(t) {
        Ok(t)
    } else if http_scheme().is_prefix_of(t) || https_scheme().is_prefix_of(t)
        || ssh_scheme().is_prefix_of(t) {
        match url_parsed(t) {
            None => Err(TargetErrorView::InvalidHostUrl),
            Some(u) => spec_host_key_of(u),
        }
    } else {
        Ok(trim(host_part(t)))
    }
}

/// Normalizes a host or URL to the key under which its credentials are
/// stored: `host[:port]`, or a Unix-socket URL as given.
pub fn normalize_host_key(host_or_url: &str) -> (r: Result<String, TargetError>)
    ensures
        text_result(r) == spec_normalize_host_key(host_or_url@),
{
    let v = chars_of(host_or_url);
    let t = trim_chars(v.as_slice());
    if t.len() == 0 {
        return Err(TargetError::HostRequired);
    }
    let t_text = string_of(t.as_slice());
    if has_prefix(t.as_slice(), "http+unix://") {
        return Ok(t_text);
    }
    if has_prefix(t.as_slice(), "http://") || has_prefix(t.as_slice(), "https://") || has_prefix(
        t.as_slice(),
        "ssh://",
    ) {
        return match parse_url_opt(t_text.as_str()) {
            Some(u) => host_key_of(&u),
            None => Err(TargetError::InvalidHostUrl),
        };
    }
    let no_frag = before_first_chars(t.as_slice(), '#');
    let no_query = before_first_chars(no_frag.as_slice(), '?');
    let host = before_first_chars(no_query.as_slice(), '/');
    let trimmed = trim_chars(host.as_slice());
    Ok(string_of(trimmed.as_slice()))
}


/// The URL that `FJ_FALLBACK_HOST` names: the text parsed as a URL, or else
/// with `https://` put in front.
pub open spec fn spec_fallback_host_url(raw: Seq<char>) -> Option<Seq<char>> {
    match url_parsed(raw) {
        Some(u) => Some(u.serialization),
        None => match url_parsed(https_scheme() + raw) {
            Some(u) => Some(u.serialization),
            None => None,
        },
    }
}

/// Reads the value of `FJ_FALLBACK_HOST` as a URL (serialized), trying it
/// as given and then with `https://` in front.
pub fn fallback_host_url(raw: &str) -> (r: Option<String>)
    ensures
        opt_view(r) == spec_fallback_host_url(raw@),
{
    match parse_url_opt(raw) {
        Some(u) => Some(u.serialization),
        None => {
            let mut v = chars_of("https://");
            push_str_chars(&mut v, raw);
            let with_scheme = string_of(v.as_slice());
            match parse_url_opt(with_scheme.as_str()) {
                Some(u) => Some(u.serialization),
                None => None,
            }
        },
    }
}

/// `t` with its first `:` replaced by `/`.
pub open spec fn replace_first_colon(t: Seq<char>) -> Seq<char> {
    let j = first_index(t, ':');
    if j < 0 {
        t
    } else {
        t.subrange(0, j) + seq!['/'] + t.subrange(j + 1, t.len() as int)
    }
}

/// An scp-style remote (`git@host:owner/repo.git`) rewritten as an `ssh://`
/// URL: the first `:` after the first `@` (or anywhere, when there is no
/// `@`) becomes `/`.
pub open spec fn scp_to_ssh_url(s: Seq<char>) -> Seq<char> {
    let k = first_index(s, '@');
    let a = if k < 0 {
        0
    } else {
        k
    };
    ssh_scheme() + s.subrange(0, a) + replace_first_colon(s.subrange(a, s.len() as int))
}

/// How a git remote URL is parsed: as a URL, or else in scp style.
pub open spec fn spec_ssh_url_parse(s: Seq<char>) -> Option<UrlView> {
    match url_parsed(s) {
        Some(u) => Some(u),
        None => url_parsed(scp_to_ssh_url(s)),
    }
}

/// Parses a git remote URL, accepting the scp style `user@host:path`.
pub fn ssh_url_parse(s: &str) -> (r: Option<crate::urls::ParsedUrl>)
    ensures
        crate::urls::opt_url_view(r) == spec_ssh_url_parse(s@),
{
    match parse_url_opt(s) {
        Some(u) => Some(u),
        None => {
            let v = chars_of(s);
            proof {
                lemma_first_index_bounds(v@, '@');
            }
            let a = match find_char(v.as_slice(), '@') {
                Some(k) => k,
                None => 0,
            };
            let mut out = chars_of("ssh://");
            let before = slice_chars(v.as_slice(), 0, a);
            push_all(&mut out, before.as_slice());
            let after = slice_chars(v.as_slice(), a, v.len());
            proof {
                lemma_first_index_bounds(after@, ':');
            }
            match find_char(after.as_slice(), ':') {
                Some(j) => {
                    let head = slice_chars(after.as_slice(), 0, j);
                    push_all(&mut out, head.as_slice());
                    out.push('/');
                    let tail = slice_chars(after.as_slice(), j + 1, after.len());
                    push_all(&mut out, tail.as_slice());
                },
                None => {
                    push_all(&mut out, after.as_slice());
                },
            }
            let text = string_of(out.as_slice());
            assert(text@ =~= scp_to_ssh_url(s@));
            parse_url_opt(text.as_str())
        },
    }
}

/// A host that holds a `:` and is not already in brackets (`url` gives
/// IPv6 hosts in brackets) is put in brackets before a port is added.
pub open spec fn needs_brackets(h: Seq<char>) -> bool {
    !lacks(h, ':') && !(h.len() > 0 && h[0] == '[')
}

/// The host of a remote, as the credential store keys it: for `http(s)`
/// remotes a non-default port is kept (`host:port`, or `[host]:port` when the
/// host holds a `:` and has no brackets yet).
pub open spec fn spec_remote_host(u: UrlView, h: Seq<char>) -> Seq<char> {
    if u.scheme == "http"@ || u.scheme == "https"@ {
        match u.port {
            Some(p) => if needs_brackets(h) {
                seq!['['] + h + seq![']', ':'] + decimal(p as nat)
            } else {
                h + seq![':'] + decimal(p as nat)
            },
            None => h,
        }
    } else {
        h
    }
}

/// How a parsed git remote URL yields its host and repository: the last two
/// non-empty path segments are owner and name (the name without `.git`);
/// `None` when there are fewer.
pub open spec fn spec_remote_host_and_repo(u: UrlView) -> Result<
    Option<(Seq<char>, (Seq<char>, Seq<char>))>,
    TargetErrorView,
> {
    match u.host {
        None => Err(TargetErrorView::RemoteUrlMissingHost),
        Some(h) => if u.path.len() == 0 || u.path[0] != '/' {
            Err(TargetErrorView::RemoteUrlCannotBeABase)
        } else {
            let segs = segments(u.path.drop_first());
            if segs.len() < 2 {
                Ok(None)
            } else {
                Ok(
                    Some(
                        (
                            spec_remote_host(u, h),
                            (segs[segs.len() - 2], strip_suffix(segs[segs.len() - 1], dot_git())),
                        ),
                    ),
                )
            }
        },
    }
}

/// How a git remote URL yields its host and repository.
pub open spec fn spec_remote_url_to_host_and_repo(s: Seq<char>) -> Result<
    Option<(Seq<char>, (Seq<char>, Seq<char>))>,
    TargetErrorView,
> {
    match spec_ssh_url_parse(s) {
        None => Err(TargetErrorView::RemoteUrlUnparsable),
        Some(u) => spec_remote_host_and_repo(u),
    }
}

/// An `http(s)` remote keeps its non-default port: its host is
/// `host:port`, where a host with `:` is in brackets exactly once.
pub proof fn lemma_remote_keeps_port(s: Seq<char>)
    requires
        spec_remote_url_to_host_and_repo(s) is Ok,
        spec_remote_url_to_host_and_repo(s)->Ok_0 is Some,
        ({
            let u = spec_ssh_url_parse(s)->0;
            &&& u.scheme == "http"@ || u.scheme == "https"@
            &&& u.port is Some
        }),
    ensures
        ({
            let u = spec_ssh_url_parse(s)->0;
            let h = u.host->0;
            let found = spec_remote_url_to_host_and_repo(s)->Ok_0->0;
            let host = found.0;
            &&& !needs_brackets(h) ==> host == h + seq![':'] + decimal(u.port->0 as nat)
            &&& needs_brackets(h) ==> host == seq!['['] + h + seq![']', ':'] + decimal(u.port->0 as nat)
        }),
{
}

/// The non-empty `/`-separated segments of `a/b`, where `b` is one non-empty
/// segment: those of `a`, then `b`.
proof fn lemma_segments_append(a: Seq<char>, b: Seq<char>)
    requires
        b.len() > 0,
        lacks(b, '/'),
    ensures
        segments(a + seq!['/'] + b) == segments(a).push(b),
{
    let t = a + seq!['/'] + b;
    lemma_last_index_join(a, b, '/');
    assert(t.subrange(0, a.len() as int) =~= a);
    assert(t.subrange(a.len() as int + 1, t.len() as int) =~= b);
    assert(segments(a) + seq![b] =~= segments(a).push(b));
}

/// The owner and name of a remote are its last two path segments, however
/// many segments come before them (a Forgejo served under a sub-path): for
/// a path `LEAD/OWNER/NAME` the owner is `OWNER` and the name is `NAME`
/// without a trailing `.git`.
pub proof fn lemma_remote_owner_name_are_last_segments(
    u: UrlView,
    lead: Seq<char>,
    owner: Seq<char>,
    name: Seq<char>,
)
    requires
        u.host is Some,
        lead.len() == 0 || lead[0] == '/',
        owner.len() > 0,
        name.len() > 0,
        lacks(owner, '/'),
        lacks(name, '/'),
        u.path == lead + seq!['/'] + owner + seq!['/'] + name,
    ensures
        spec_remote_host_and_repo(u) matches Ok(Some((_, (o, n)))) && o == owner && n == strip_suffix(
            name,
            dot_git(),
        ),
{
    let rest = u.path.drop_first();
    if lead.len() == 0 {
        assert(rest =~= owner + seq!['/'] + name);
        lemma_last_index_bounds(owner, '/');
        assert(segments(owner) == seq![owner]);
        lemma_segments_append(owner, name);
        assert(segments(rest) =~= seq![owner, name]);
    } else {
        let inner = lead.drop_first();
        assert(rest =~= inner + seq!['/'] + owner + seq!['/'] + name);
        lemma_segments_append(inner, owner);
        lemma_segments_append(inner + seq!['/'] + owner, name);
        let segs = segments(rest);
        assert(segs == segments(inner).push(owner).push(name));
        assert(segs[segs.len() - 2] == owner);
        assert(segs[segs.len() - 1] == name);
    }
}

/// The value of a remote reading.
pub open spec fn remote_result(r: Result<Option<(String, RepoName)>, TargetError>) -> Result<
    Option<(Seq<char>, (Seq<char>, Seq<char>))>,
    TargetErrorView,
> {
    match r {
        Ok(Some((h, n))) => Ok(Some((h@, n@))),
        Ok(None) => Ok(None),
        Err(e) => Err(e@),
    }
}

/// Reads the host and `owner/name` repository of a git remote URL
/// (`https://host[:port]/owner/name.git`, `ssh://…` or `git@host:owner/name`).
pub fn remote_url_to_host_and_repo(url_s: &str) -> (r: Result<Option<(String, RepoName)>, TargetError>)
    ensures
        remote_result(r) == spec_remote_url_to_host_and_repo(url_s@),
{
    match ssh_url_parse(url_s) {
        Some(u) => remote_host_and_repo(&u),
        None => Err(TargetError::RemoteUrlUnparsable),
    }
}

/// Reads the host and `owner/name` repository of a parsed git remote URL.
pub fn remote_host_and_repo(u: &ParsedUrl) -> (r: Result<Option<(String, RepoName)>, TargetError>)
    ensures
        remote_result(r) == spec_remote_host_and_repo(u@),
{
    let h = match &u.host {
        Some(h) => h,
        None => return Err(TargetError::RemoteUrlMissingHost),
    };
    let hv = chars_of(h.as_str());
    let sv = chars_of(u.scheme.as_str());
    let host = if chars_are(sv.as_slice(), "http") || chars_are(sv.as_slice(), "https") {
        match u.port {
            Some(p) => {
                let mut out: Vec<char> = Vec::new();
                let has_colon = find_char(hv.as_slice(), ':').is_some();
                proof {
                    lemma_first_index_bounds(hv@, ':');
                }
                let bracketed = hv.len() > 0 && hv[0] == '[';
                let wrap = has_colon && !bracketed;
                if wrap {
                    out.push('[');
                    push_all(&mut out, hv.as_slice());
                    out.push(']');
                    out.push(':');
                } else {
                    push_all(&mut out, hv.as_slice());
                    out.push(':');
                }
                push_decimal(&mut out, p as u128);
                proof {
                    assert(wrap == needs_brackets(hv@));
                    if wrap {
                        assert(out@ =~= seq!['['] + hv@ + seq![']', ':'] + decimal(p as nat));
                    } else {
                        assert(out@ =~= hv@ + seq![':'] + decimal(p as nat));
                    }
                }
                string_of(out.as_slice())
            },
            None => h.clone(),
        }
    } else {
        h.clone()
    };
    let path = chars_of(u.path.as_str());
    if path.len() == 0 || path[0] != '/' {
        return Err(TargetError::RemoteUrlCannotBeABase);
    }
    let rest = slice_chars(path.as_slice(), 1, path.len());
    assert(rest@ =~= path@.drop_first());
    let segs = segments_of(rest.as_slice());
    let n = segs.len();
    if n < 2 {
        return Ok(None);
    }
    assert(segs@[n - 2]@ == char_vec_views(segs@)[n - 2]);
    assert(segs@[n - 1]@ == char_vec_views(segs@)[n - 1]);
    let name = strip_dot_git(segs[n - 1].as_slice());
    let owner = string_of(segs[n - 2].as_slice());
    Ok(Some((host, RepoName { owner, name: string_of(name.as_slice()) })))
}


/// What looking up a git remote by name gave.
#[derive(Debug, Clone)]
pub enum RemoteLookup {
    /// No such remote (or it could not be read).
    Missing,
    /// The remote exists but has no (UTF-8) URL.
    NoUrl,
    /// The remote's URL.
    Url(String),
}

pub enum RemoteLookupView {
    Missing,
    NoUrl,
    Url(Seq<char>),
}

impl View for RemoteLookup {
    type V = RemoteLookupView;

    open spec fn view(&self) -> RemoteLookupView {
        match self {
            RemoteLookup::Missing => RemoteLookupView::Missing,
            RemoteLookup::NoUrl => RemoteLookupView::NoUrl,
            RemoteLookup::Url(u) => RemoteLookupView::Url(u@),
        }
    }
}

/// A remote name and what looking it up gave.
#[derive(Debug, Clone)]
pub struct GitRemote {
    pub name: String,
    pub lookup: RemoteLookup,
}

/// What the local git repository tells about its remotes: the names that
/// `git remote` lists (`None` when listing failed), the remote that the
/// checked-out branch tracks, and the lookup of every remote name that may
/// be asked for. A name without a lookup here counts as a missing remote.
#[derive(Debug, Clone)]
pub struct GitInfo {
    pub remote_names: Option<Vec<String>>,
    pub head_upstream: Option<String>,
    pub remotes: Vec<GitRemote>,
}

pub struct GitInfoView {
    pub remote_names: Option<Seq<Seq<char>>>,
    pub head_upstream: Option<Seq<char>>,
    pub remotes: Seq<(Seq<char>, RemoteLookupView)>,
}

pub open spec fn string_views(s: Seq<String>) -> Seq<Seq<char>> {
    s.map_values(|x: String| x@)
}

impl View for GitInfo {
    type V = GitInfoView;

    open spec fn view(&self) -> GitInfoView {
        GitInfoView {
            remote_names: match self.remote_names {
                Some(v) => Some(string_views(v@)),
                None => None,
            },
            head_upstream: opt_view(self.head_upstream),
            remotes: self.remotes@.map_values(|r: GitRemote| (r.name@, r.lookup@)),
        }
    }
}

/// The lookup recorded for a remote name (the first one), or `Missing`.
pub open spec fn spec_lookup(remotes: Seq<(Seq<char>, RemoteLookupView)>, name: Seq<char>) -> RemoteLookupView
    decreases remotes.len(),
{
    if remotes.len() == 0 {
        RemoteLookupView::Missing
    } else if remotes[0].0 == name {
        remotes[0].1
    } else {
        spec_lookup(remotes.drop_first(), name)
    }
}

fn clone_lookup(l: &RemoteLookup) -> (r: RemoteLookup)
    ensures
        r@ == l@,
{
    match l {
        RemoteLookup::Missing => RemoteLookup::Missing,
        RemoteLookup::NoUrl => RemoteLookup::NoUrl,
        RemoteLookup::Url(u) => RemoteLookup::Url(u.clone()),
    }
}

fn lookup_remote(git: &GitInfo, name: &str) -> (r: RemoteLookup)
    ensures
        r@ == spec_lookup(git@.remotes, name@),
{
    let ghost all = git@.remotes;
    let nv = chars_of(name);
    let mut i: usize = 0;
    assert(all.subrange(0, all.len() as int) =~= all);
    while i < git.remotes.len()
        invariant
            all == git@.remotes,
            nv@ == name@,
            i <= git.remotes.len() == all.len(),
            spec_lookup(all, name@) == spec_lookup(all.subrange(i as int, all.len() as int), name@),
        decreases git.remotes.len() - i,
    {
        let rv = chars_of(git.remotes[i].name.as_str());
        proof {
            assert(all[i as int] == (git.remotes@[i as int].name@, git.remotes@[i as int].lookup@));
            assert(all.subrange(i as int, all.len() as int)[0] == all[i as int]);
            assert(all.subrange(i as int, all.len() as int).drop_first() =~= all.subrange(i + 1, all.len() as int));
        }
        if crate::text::chars_eq(rv.as_slice(), nv.as_slice()) {
            return clone_lookup(&git.remotes[i].lookup);
        }
        i += 1;
    }
    RemoteLookup::Missing
}

/// The first remote whose URL has the hinted host key; `None` when none
/// has; an error for a remote that cannot be looked up before a match.
pub open spec fn spec_hint_scan(
    names: Seq<Seq<char>>,
    remotes: Seq<(Seq<char>, RemoteLookupView)>,
    key: Seq<char>,
) -> Option<Result<Seq<char>, TargetErrorView>>
    decreases names.len(),
{
    if names.len() == 0 {
        None
    } else {
        match spec_lookup(remotes, names[0]) {
            RemoteLookupView::Missing => Some(Err(TargetErrorView::GitLookupFailed(names[0]))),
            RemoteLookupView::NoUrl => spec_hint_scan(names.drop_first(), remotes, key),
            RemoteLookupView::Url(u) => match spec_remote_url_to_host_and_repo(u) {
                Ok(Some((h, _))) => if h == key {
                    Some(Ok(names[0]))
                } else {
                    spec_hint_scan(names.drop_first(), remotes, key)
                },
                _ => spec_hint_scan(names.drop_first(), remotes, key),
            },
        }
    }
}

/// How the remote to infer from is chosen: the one asked for; the only
/// one; the one the current branch tracks; the first whose host matches the
/// host hint; `origin`; the first.
pub open spec fn spec_select_remote_name(
    g: GitInfoView,
    preferred: Option<Seq<char>>,
    host_hint: Option<Seq<char>>,
) -> Result<Option<Seq<char>>, TargetErrorView> {
    match g.remote_names {
        None => Err(TargetErrorView::GitRemotesUnlisted),
        Some(names) => if preferred is Some {
            Ok(preferred)
        } else if names.len() == 1 {
            Ok(Some(names[0]))
        } else if g.head_upstream is Some {
            Ok(g.head_upstream)
        } else {
            let scanned = match host_hint {
                Some(h) => match spec_normalize_host_key(h) {
                    Ok(key) => spec_hint_scan(names, g.remotes, key),
                    Err(_) => None,
                },
                None => None,
            };
            match scanned {
                Some(Ok(n)) => Ok(Some(n)),
                Some(Err(e)) => Err(e),
                None => if names.contains("origin"@) {
                    Ok(Some("origin"@))
                } else if names.len() > 0 {
                    Ok(Some(names[0]))
                } else {
                    Ok(None)
                },
            }
        },
    }
}

pub open spec fn opt_text_result(r: Result<Option<String>, TargetError>) -> Result<Option<Seq<char>>, TargetErrorView> {
    match r {
        Ok(o) => Ok(opt_view(o)),
        Err(e) => Err(e@),
    }
}

fn hint_scan(git: &GitInfo, names: &Vec<String>, key: &String) -> (r: Option<Result<String, TargetError>>)
    ensures
        match r {
            None => spec_hint_scan(string_views(names@), git@.remotes, key@) is None,
            Some(x) => spec_hint_scan(string_views(names@), git@.remotes, key@) == Some(text_result(x)),
        },
{
    let ghost all = string_views(names@);
    let kv = chars_of(key.as_str());
    let mut i: usize = 0;
    assert(all.subrange(0, all.len() as int) =~= all);
    while i < names.len()
        invariant
            all == string_views(names@),
            kv@ == key@,
            i <= names.len(),
            spec_hint_scan(all, git@.remotes, key@) == spec_hint_scan(
                all.subrange(i as int, all.len() as int),
                git@.remotes,
                key@,
            ),
        decreases names.len() - i,
    {
        proof {
            assert(all.subrange(i as int, all.len() as int)[0] == names@[i as int]@);
            assert(all.subrange(i as int, all.len() as int).drop_first() =~= all.subrange(i + 1, all.len() as int));
        }
        match lookup_remote(git, names[i].as_str()) {
            RemoteLookup::Missing => {
                return Some(Err(TargetError::GitLookupFailed(names[i].clone())));
            },
            RemoteLookup::NoUrl => {},
            RemoteLookup::Url(u) => {
                match remote_url_to_host_and_repo(u.as_str()) {
                    Ok(Some((h, _))) => {
                        let hv = chars_of(h.as_str());
                        if crate::text::chars_eq(hv.as_slice(), kv.as_slice()) {
                            return Some(Ok(names[i].clone()));
                        }
                    },
                    _ => {},
                }
            },
        }
        i += 1;
    }
    proof {
        assert(all.subrange(all.len() as int, all.len() as int) =~= Seq::<Seq<char>>::empty());
    }
    None
}

/// Chooses the git remote to infer the target from.
#[verifier::loop_isolation(false)]
pub fn select_remote_name(git: &GitInfo, preferred: Option<&str>, host_hint: Option<&str>) -> (r: Result<Option<String>, TargetError>)
    ensures
        opt_text_result(r) == spec_select_remote_name(
            git@,
            match preferred {
                Some(p) => Some(p@),
                None => None,
            },
            match host_hint {
                Some(h) => Some(h@),
                None => None,
            },
        ),
{
    let names = match &git.remote_names {
        Some(n) => n,
        None => return Err(TargetError::GitRemotesUnlisted),
    };
    let ghost all = string_views(names@);
    if let Some(name) = preferred {
        return Ok(Some(String::from_str(name)));
    }
    if names.len() == 1 {
        return Ok(Some(names[0].clone()));
    }
    if let Some(up) = &git.head_upstream {
        return Ok(Some(up.clone()));
    }
    if let Some(h) = host_hint {
        if let Ok(key) = normalize_host_key(h) {
            match hint_scan(git, names, &key) {
                Some(Ok(n)) => return Ok(Some(n)),
                Some(Err(e)) => return Err(e),
                None => {},
            }
        }
    }
    let mut i: usize = 0;
    while i < names.len()
        invariant
            all == string_views(names@),
            i <= names.len(),
            forall|k: int| 0 <= k < i ==> all[k] != "origin"@,
        decreases names.len() - i,
    {
        let nv = chars_of(names[i].as_str());
        assert(all[i as int] == names@[i as int]@);
        if chars_are(nv.as_slice(), "origin") {
            assert(all[i as int] == "origin"@);
            assert(all.contains("origin"@));
            let o = String::from_str("origin");
            assert(o@ == "origin"@);
            return Ok(Some(o));
        }
        i += 1;
    }
    assert(!all.contains("origin"@));
    if names.len() > 0 {
        Ok(Some(names[0].clone()))
    } else {
        Ok(None)
    }
}


/// How the base URL and `owner/name` are inferred from the git remote.
pub open spec fn spec_infer_from_git(
    git: Option<GitInfoView>,
    remote: Option<Seq<char>>,
    host_hint: Option<Seq<char>>,
    unix: bool,
) -> Result<Option<(Seq<char>, Seq<char>)>, TargetErrorView> {
    match git {
        None => Ok(None),
        Some(g) => match spec_select_remote_name(g, remote, host_hint) {
            Err(e) => Err(e),
            Ok(None) => Ok(None),
            Ok(Some(name)) => match spec_lookup(g.remotes, name) {
                RemoteLookupView::Missing => Err(TargetErrorView::GitRemoteNotFound(name)),
                RemoteLookupView::NoUrl => Err(TargetErrorView::GitRemoteWithoutUrl(name)),
                RemoteLookupView::Url(u) => match spec_remote_url_to_host_and_repo(u) {
                    Err(e) => Err(e),
                    Ok(None) => Ok(None),
                    Ok(Some((h, (o, n)))) => match spec_normalize_base_url(h, unix) {
                        Err(e) => Err(e),
                        Ok(b) => Ok(Some((b, slash_join(o, n)))),
                    },
                },
            },
        },
    }
}

pub open spec fn opt_str_view(o: Option<&str>) -> Option<Seq<char>> {
    match o {
        Some(s) => Some(s@),
        None => None,
    }
}

pub open spec fn pair_result(r: Result<Option<(String, String)>, TargetError>) -> Result<Option<(Seq<char>, Seq<char>)>, TargetErrorView> {
    match r {
        Ok(Some((a, b))) => Ok(Some((a@, b@))),
        Ok(None) => Ok(None),
        Err(e) => Err(e@),
    }
}

/// Infers the base URL and `owner/name` from the local git repository
/// (`None` for `git` when there is no repository).
pub fn infer_from_git(git: Option<&GitInfo>, remote: Option<&str>, host_hint: Option<&str>, unix: bool) -> (r: Result<Option<(String, String)>, TargetError>)
    ensures
        pair_result(r) == spec_infer_from_git(
            match git {
                Some(g) => Some(g@),
                None => None,
            },
            opt_str_view(remote),
            opt_str_view(host_hint),
            unix,
        ),
{
    let g = match git {
        Some(g) => g,
        None => return Ok(None),
    };
    let name = match select_remote_name(g, remote, host_hint) {
        Ok(Some(n)) => n,
        Ok(None) => return Ok(None),
        Err(e) => return Err(e),
    };
    let url_s = match lookup_remote(g, name.as_str()) {
        RemoteLookup::Missing => return Err(TargetError::GitRemoteNotFound(name)),
        RemoteLookup::NoUrl => return Err(TargetError::GitRemoteWithoutUrl(name)),
        RemoteLookup::Url(u) => u,
    };
    let (host, repo) = match remote_url_to_host_and_repo(url_s.as_str()) {
        Ok(Some(x)) => x,
        Ok(None) => return Ok(None),
        Err(e) => return Err(e),
    };
    let base = match normalize_base_url(host.as_str(), unix) {
        Ok(b) => b,
        Err(e) => return Err(e),
    };
    Ok(Some((base, repo.as_owner_slash_name())))
}

/// The resolved Forgejo target.
#[derive(Clone, Debug)]
pub struct ResolvedTarget {
    pub base_url: String,
    pub repo: Option<String>,
    pub owner: Option<String>,
    pub name: Option<String>,
    /// The socket path of a Unix-socket target.
    pub unix_socket: Option<String>,
}

pub struct ResolvedTargetView {
    pub base_url: Seq<char>,
    pub repo: Option<Seq<char>>,
    pub owner: Option<Seq<char>>,
    pub name: Option<Seq<char>>,
    pub unix_socket: Option<Seq<char>>,
}

impl View for ResolvedTarget {
    type V = ResolvedTargetView;

    open spec fn view(&self) -> ResolvedTargetView {
        ResolvedTargetView {
            base_url: self.base_url@,
            repo: opt_view(self.repo),
            owner: opt_view(self.owner),
            name: opt_view(self.name),
            unix_socket: opt_view(self.unix_socket),
        }
    }
}

/// The state of target resolution between its steps.
pub struct Resolution {
    pub base: Option<Seq<char>>,
    pub socket: Option<Seq<char>>,
    pub raw_host: Option<Seq<char>>,
    pub repo: Option<(Seq<char>, Seq<char>)>,
}

/// Step one: the host of `--repo HOST/OWNER/NAME`, else `--host`.
pub open spec fn spec_resolve_explicit(host: Option<Seq<char>>, repo: Option<RepoArgView>, unix: bool) -> Result<Resolution, TargetErrorView> {
    let names = match repo {
        Some(r) => Some((r.owner, r.name)),
        None => None,
    };
    let raw = match repo {
        Some(r) => match r.host {
            Some(h) => Some(h),
            None => host,
        },
        None => host,
    };
    match raw {
        None => Ok(Resolution { base: None, socket: None, raw_host: None, repo: names }),
        Some(h) => match spec_normalize_base_url(h, unix) {
            Err(e) => Err(e),
            Ok(b) => Ok(
                Resolution { base: Some(b), socket: spec_unix_socket_path(b), raw_host: raw, repo: names },
            ),
        },
    }
}

/// Step two: what is still missing is taken from the git remote.
pub open spec fn spec_resolve_from_git(st: Resolution, git: Option<GitInfoView>, remote: Option<Seq<char>>, unix: bool) -> Result<Resolution, TargetErrorView> {
    if st.base is Some && st.repo is Some {
        Ok(st)
    } else {
        match spec_infer_from_git(git, remote, st.raw_host, unix) {
            Err(e) => Err(e),
            Ok(None) => Ok(st),
            Ok(Some((b, rn))) => {
                let base = if st.base is Some {
                    st.base
                } else {
                    Some(b)
                };
                if st.repo is Some {
                    Ok(Resolution { base, ..st })
                } else {
                    match spec_parse_repo_arg(rn) {
                        None => Err(TargetErrorView::InferredRepoInvalid(RepoArgError::NoOwner)),
                        Some(a) => Ok(Resolution { base, repo: Some((a.owner, a.name)), ..st }),
                    }
                }
            },
        }
    }
}

/// Step three: with still no base URL, `FJ_FALLBACK_HOST`.
pub open spec fn spec_resolve_fallback(st: Resolution, fallback: Option<Seq<char>>, unix: bool) -> Result<Resolution, TargetErrorView> {
    if st.base is Some {
        Ok(st)
    } else {
        let url = match fallback {
            Some(raw) => spec_fallback_host_url(raw),
            None => None,
        };
        match url {
            None => Ok(st),
            Some(u) => match spec_normalize_base_url(u, unix) {
                Err(e) => Err(e),
                Ok(b) => Ok(Resolution { base: Some(b), socket: spec_unix_socket_path(b), ..st }),
            },
        }
    }
}

/// How the target is resolved from `--host`, `--repo`, `--remote`, the
/// local git repository and `FJ_FALLBACK_HOST`.
pub open spec fn spec_resolve_target(
    host: Option<Seq<char>>,
    repo: Option<RepoArgView>,
    remote: Option<Seq<char>>,
    git: Option<GitInfoView>,
    fallback: Option<Seq<char>>,
    unix: bool,
) -> Result<ResolvedTargetView, TargetErrorView> {
    match spec_resolve_explicit(host, repo, unix) {
        Err(e) => Err(e),
        Ok(s1) => match spec_resolve_from_git(s1, git, remote, unix) {
            Err(e) => Err(e),
            Ok(s2) => match spec_resolve_fallback(s2, fallback, unix) {
                Err(e) => Err(e),
                Ok(s3) => match s3.base {
                    None => Err(TargetErrorView::Unresolved),
                    Some(b) => Ok(
                        ResolvedTargetView {
                            base_url: b,
                            repo: match s3.repo {
                                Some((o, n)) => Some(slash_join(o, n)),
                                None => None,
                            },
                            owner: match s3.repo {
                                Some((o, _)) => Some(o),
                                None => None,
                            },
                            name: match s3.repo {
                                Some((_, n)) => Some(n),
                                None => None,
                            },
                            unix_socket: s3.socket,
                        },
                    ),
                },
            },
        },
    }
}

/// The host given with the command: that of `--repo HOST/OWNER/NAME`, else
/// `--host`.
pub open spec fn explicit_host(host: Option<Seq<char>>, repo: Option<RepoArgView>) -> Option<Seq<char>> {
    match repo {
        Some(r) => match r.host {
            Some(h) => Some(h),
            None => host,
        },
        None => host,
    }
}

/// A host given with the command decides the base URL (and its socket):
/// the host of `--repo` first, else `--host`; git and `FJ_FALLBACK_HOST`
/// are not asked for it.
pub proof fn lemma_explicit_host_wins(
    host: Option<Seq<char>>,
    repo: Option<RepoArgView>,
    remote: Option<Seq<char>>,
    git: Option<GitInfoView>,
    fallback: Option<Seq<char>>,
    unix: bool,
)
    requires
        explicit_host(host, repo) is Some,
        spec_resolve_target(host, repo, remote, git, fallback, unix) is Ok,
    ensures
        spec_normalize_base_url(explicit_host(host, repo)->0, unix) is Ok,
        ({
            let b = spec_normalize_base_url(explicit_host(host, repo)->0, unix)->Ok_0;
            let t = spec_resolve_target(host, repo, remote, git, fallback, unix)->Ok_0;
            &&& t.base_url == b
            &&& t.unix_socket == spec_unix_socket_path(b)
        }),
{
}

/// A repository given with `--repo` is the one resolved.
pub proof fn lemma_explicit_repo_wins(
    host: Option<Seq<char>>,
    repo: Option<RepoArgView>,
    remote: Option<Seq<char>>,
    git: Option<GitInfoView>,
    fallback: Option<Seq<char>>,
    unix: bool,
)
    requires
        repo is Some,
        spec_resolve_target(host, repo, remote, git, fallback, unix) is Ok,
    ensures
        ({
            let r = repo->0;
            let t = spec_resolve_target(host, repo, remote, git, fallback, unix)->Ok_0;
            &&& t.owner == Some(r.owner)
            &&& t.name == Some(r.name)
            &&& t.repo == Some(slash_join(r.owner, r.name))
        }),
{
}

/// Without `--repo`, the repository is the one the selected git remote
/// names, also where `--host` already fixed the base URL: the owner and
/// name of the resolved target are those of the remote.
pub proof fn lemma_git_remote_supplies_repo(
    host: Option<Seq<char>>,
    remote: Option<Seq<char>>,
    git: Option<GitInfoView>,
    fallback: Option<Seq<char>>,
    unix: bool,
    owner: Seq<char>,
    name: Seq<char>,
)
    requires
        lacks(owner, '/'),
        lacks(name, '/'),
        !ends_with(name, dot_git()),
        spec_infer_from_git(git, remote, host, unix) matches Ok(Some((_, rn))) && rn == slash_join(owner, name),
        spec_resolve_target(host, None, remote, git, fallback, unix) is Ok,
    ensures
        ({
            let t = spec_resolve_target(host, None, remote, git, fallback, unix)->Ok_0;
            &&& t.owner == Some(owner)
            &&& t.name == Some(name)
            &&& t.repo == Some(slash_join(owner, name))
        }),
{
    lemma_repo_arg_text_round_trip(RepoArgView { host: None, owner, name });
}

/// Without a host given with the command, the selected git remote decides
/// the base URL when it names one.
pub proof fn lemma_git_remote_supplies_host(
    host: Option<Seq<char>>,
    repo: Option<RepoArgView>,
    remote: Option<Seq<char>>,
    git: Option<GitInfoView>,
    fallback: Option<Seq<char>>,
    unix: bool,
)
    requires
        explicit_host(host, repo) is None,
        spec_infer_from_git(git, remote, None, unix) matches Ok(Some(_)),
        spec_resolve_target(host, repo, remote, git, fallback, unix) is Ok,
    ensures
        ({
            let found = spec_infer_from_git(git, remote, None, unix)->Ok_0->0;
            spec_resolve_target(host, repo, remote, git, fallback, unix)->Ok_0.base_url == found.0
        }),
{
}

pub open spec fn target_result(r: Result<ResolvedTarget, TargetError>) -> Result<ResolvedTargetView, TargetErrorView> {
    match r {
        Ok(t) => Ok(t@),
        Err(e) => Err(e@),
    }
}

pub open spec fn repo_pair(o: Option<String>, n: Option<String>) -> Option<(Seq<char>, Seq<char>)> {
    match (o, n) {
        (Some(o), Some(n)) => Some((o@, n@)),
        _ => None,
    }
}

/// The base URL of a normalized host and, for a Unix-socket URL, its socket path.
fn base_and_socket(raw: &str, unix: bool) -> (r: Result<(String, Option<String>), TargetError>)
    ensures
        match r {
            Ok((b, s)) => spec_normalize_base_url(raw@, unix) == Ok::<Seq<char>, TargetErrorView>(b@)
                && opt_view(s) == spec_unix_socket_path(b@),
            Err(e) => spec_normalize_base_url(raw@, unix) == Err::<Seq<char>, TargetErrorView>(e@),
        },
{
    let normalized = match normalize_base_url(raw, unix) {
        Ok(b) => b,
        Err(e) => return Err(e),
    };
    let socket = match parse_unix_socket_url(normalized.as_str()) {
        Some((path, _)) => Some(path),
        None => None,
    };
    Ok((normalized, socket))
}

/// Resolves the Forgejo target: the host of `--repo HOST/OWNER/NAME`, else
/// `--host`; what is still missing from the git remote (`git` as read from
/// the local repository); with still no host, `FJ_FALLBACK_HOST`
/// (`fallback_host`, its value when it is set and valid Unicode). `unix`
/// says whether the platform has Unix sockets.
pub fn resolve_target(
    host: Option<&str>,
    repo: Option<&RepoArg>,
    remote: Option<&str>,
    git: Option<&GitInfo>,
    fallback_host: Option<&str>,
    unix: bool,
) -> (r: Result<ResolvedTarget, TargetError>)
    ensures
        target_result(r) == spec_resolve_target(
            opt_str_view(host),
            match repo {
                Some(a) => Some(a@),
                None => None,
            },
            opt_str_view(remote),
            match git {
                Some(g) => Some(g@),
                None => None,
            },
            opt_str_view(fallback_host),
            unix,
        ),
{
    let mut owner: Option<String> = None;
    let mut name: Option<String> = None;
    if let Some(a) = repo {
        owner = Some(a.owner.clone());
        name = Some(a.name.clone());
    }
    let mut base: Option<String> = None;
    let mut socket: Option<String> = None;
    let mut raw_host: Option<&str> = None;
    if let Some(a) = repo {
        if let Some(h) = &a.host {
            raw_host = Some(h.as_str());
            let (b, s) = match base_and_socket(h.as_str(), unix) {
                Ok(x) => x,
                Err(e) => return Err(e),
            };
            base = Some(b);
            socket = s;
        }
    }
    if base.is_none() {
        if let Some(h) = host {
            raw_host = Some(h);
            let (b, s) = match base_and_socket(h, unix) {
                Ok(x) => x,
                Err(e) => return Err(e),
            };
            base = Some(b);
            socket = s;
        }
    }
    let ghost s1 = Resolution {
        base: opt_view(base),
        socket: opt_view(socket),
        raw_host: opt_str_view(raw_host),
        repo: repo_pair(owner, name),
    };
    assert(spec_resolve_explicit(opt_str_view(host), match repo {
        Some(a) => Some(a@),
        None => None,
    }, unix) == Ok::<Resolution, TargetErrorView>(s1));
    if base.is_none() || owner.is_none() {
        match infer_from_git(git, remote, raw_host, unix) {
            Err(e) => return Err(e),
            Ok(None) => {},
            Ok(Some((b, rn))) => {
                if base.is_none() {
                    base = Some(b);
                }
                if owner.is_none() {
                    match RepoArg::from_str(rn.as_str()) {
                        Ok(a) => {
                            owner = Some(a.owner);
                            name = Some(a.name);
                        },
                        Err(e) => return Err(TargetError::InferredRepoInvalid(e)),
                    }
                }
            },
        }
    }
    let ghost s2 = Resolution {
        base: opt_view(base),
        socket: opt_view(socket),
        raw_host: opt_str_view(raw_host),
        repo: repo_pair(owner, name),
    };
    assert(spec_resolve_from_git(s1, match git {
        Some(g) => Some(g@),
        None => None,
    }, opt_str_view(remote), unix) == Ok::<Resolution, TargetErrorView>(s2));
    if base.is_none() {
        if let Some(raw) = fallback_host {
            if let Some(u) = fallback_host_url(raw) {
                let (b, s) = match base_and_socket(u.as_str(), unix) {
                    Ok(x) => x,
                    Err(e) => return Err(e),
                };
                base = Some(b);
                socket = s;
            }
        }
    }
    let ghost s3 = Resolution {
        base: opt_view(base),
        socket: opt_view(socket),
        raw_host: opt_str_view(raw_host),
        repo: repo_pair(owner, name),
    };
    assert(spec_resolve_fallback(s2, opt_str_view(fallback_host), unix) == Ok::<Resolution, TargetErrorView>(s3));
    let base_url = match base {
        Some(b) => b,
        None => return Err(TargetError::Unresolved),
    };
    let (repo_text, owner, name) = match (owner, name) {
        (Some(o), Some(n)) => {
            let mut v = chars_of(o.as_str());
            v.push('/');
            push_str_chars(&mut v, n.as_str());
            assert(v@ =~= slash_join(o@, n@));
            (Some(string_of(v.as_slice())), Some(o), Some(n))
        },
        _ => (None, None, None),
    };
    Ok(ResolvedTarget { base_url, repo: repo_text, owner, name, unix_socket: socket })
}

} // verus!
