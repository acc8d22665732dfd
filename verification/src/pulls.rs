//! The `pr` commands: the pull request model, the API paths, the head
//! filter of a list, and where a new pull request's body comes from.
use vstd::prelude::*;
use crate::cli::{spec_state_api_value, PullRequestState};
use crate::store::UiCreds;
use crate::text::{
    char_vec_views, chars_of, decimal, push_decimal, push_str_chars, split_all, split_all_of,
    string_of, trim,
};

verus! {

/// A branch end of a pull request.
#[derive(Debug, Clone)]
pub struct PullRef {
    /// The branch name (`ref` in the API).
    pub branch: String,
    pub sha: String,
}

/// A pull request as the Forgejo API returns it.
#[derive(Debug, Clone)]
pub struct PullRequest {
    pub number: u64,
    pub title: String,
    pub state: String,
    pub html_url: String,
    pub draft: bool,
    pub mergeable: Option<bool>,
    pub head: PullRef,
    pub base: PullRef,
}

/// Errors of the `pr` commands.
#[derive(Debug, Clone, Copy, PartialEq, Eq, Structural)]
pub enum PullsError {
    /// No repository was given or found.
    RepoUnresolved,
    /// Neither an API token nor a stored login is known for the host.
    NoApiAuth,
    /// The repository's default branch is blank.
    EmptyDefaultBranch,
    /// The checkout is on no branch.
    DetachedHead,
    /// The current branch has no (or a blank) name.
    UnnamedBranch,
}

/// The message of a `pr` error; `NoApiAuth` names the base URL.
pub open spec fn pulls_error_message(e: PullsError, base_url: Seq<char>) -> Seq<char> {
    match e {
        PullsError::RepoUnresolved => "Repo could not be resolved. Pass --repo owner/name or run inside a git repo with a Forgejo remote."@,
        PullsError::NoApiAuth => "No Forgejo API authentication found for '"@ + base_url
            + "'. Run `fj auth login` or `fj-ex auth login` first."@,
        PullsError::EmptyDefaultBranch => "Forgejo returned an empty default branch; pass --base explicitly."@,
        PullsError::DetachedHead => "Current Git checkout is detached; pass --head explicitly."@,
        PullsError::UnnamedBranch => "Current Git branch has no name; pass --head explicitly."@,
    }
}

impl PullsError {
    /// The error's message.
    pub fn message(&self, base_url: &str) -> (r: String)
        ensures
            r@ == pulls_error_message(*self, base_url@),
    {
        let mut v: Vec<char> = Vec::new();
        match self {
            PullsError::RepoUnresolved => {
                push_str_chars(&mut v, "Repo could not be resolved. Pass --repo owner/name or run inside a git repo with a Forgejo remote.");
            },
            PullsError::NoApiAuth => {
                push_str_chars(&mut v, "No Forgejo API authentication found for '");
                push_str_chars(&mut v, base_url);
                push_str_chars(&mut v, "'. Run `fj auth login` or `fj-ex auth login` first.");
            },
            PullsError::EmptyDefaultBranch => {
                push_str_chars(&mut v, "Forgejo returned an empty default branch; pass --base explicitly.");
            },
            PullsError::DetachedHead => {
                push_str_chars(&mut v, "Current Git checkout is detached; pass --head explicitly.");
            },
            PullsError::UnnamedBranch => {
                push_str_chars(&mut v, "Current Git branch has no name; pass --head explicitly.");
            },
        }
        assert(v@ =~= pulls_error_message(*self, base_url@));
        string_of(v.as_slice())
    }
}

/// The repository of a `pr` command: the resolved `owner/name`.
pub fn require_repo(repo: Option<&str>) -> (r: Result<String, PullsError>)
    ensures
        match repo {
            Some(s) => r is Ok && r->Ok_0@ == s@,
            None => r == Err::<String, PullsError>(PullsError::RepoUnresolved),
        },
{
    match repo {
        Some(s) => Ok(String::from_str(s)),
        None => Err(PullsError::RepoUnresolved),
    }
}

/// `/repos/<owner/name>`, the API path of a repository.
pub fn repo_path(repo: &str) -> (r: String)
    ensures
        r@ == "/repos/"@ + repo@,
{
    let mut v = chars_of("/repos/");
    push_str_chars(&mut v, repo);
    string_of(v.as_slice())
}

/// `/repos/<owner/name>/pulls`, the API path of a repository's pull requests.
pub fn pulls_path(repo: &str) -> (r: String)
    ensures
        r@ == "/repos/"@ + repo@ + "/pulls"@,
{
    let mut v = chars_of(repo_path(repo).as_str());
    push_str_chars(&mut v, "/pulls");
    string_of(v.as_slice())
}

/// The URL of one page of a pull request list.
pub open spec fn spec_list_pulls_url(pulls_url: Seq<char>, state: PullRequestState, page: nat, limit: nat) -> Seq<char> {
    pulls_url + "?state="@ + spec_state_api_value(state) + "&page="@ + decimal(page) + "&limit="@
        + decimal(limit)
}

/// `<pulls>?state=<state>&page=<page>&limit=<limit>`.
pub fn list_pulls_url(pulls_url: &str, state: PullRequestState, page: u32, limit: u32) -> (r: String)
    ensures
        r@ == spec_list_pulls_url(pulls_url@, state, page as nat, limit as nat),
{
    let mut v = chars_of(pulls_url);
    push_str_chars(&mut v, "?state=");
    push_str_chars(&mut v, state.as_api_value());
    push_str_chars(&mut v, "&page=");
    push_decimal(&mut v, page as u128);
    push_str_chars(&mut v, "&limit=");
    push_decimal(&mut v, limit as u128);
    string_of(v.as_slice())
}

/// `<pulls>/<number>`, the URL of one pull request.
pub fn pull_url(pulls_url: &str, number: u64) -> (r: String)
    ensures
        r@ == pulls_url@ + seq!['/'] + decimal(number as nat),
{
    let mut v = chars_of(pulls_url);
    v.push('/');
    push_decimal(&mut v, number as u128);
    string_of(v.as_slice())
}

/// The base branch of a new pull request when none is given: the
/// repository's default branch, which must not be blank.
pub fn default_base_branch(default_branch: String) -> (r: Result<String, PullsError>)
    ensures
        trim(default_branch@).len() == 0 <==> r is Err,
        r is Err ==> r == Err::<String, PullsError>(PullsError::EmptyDefaultBranch),
        r is Ok ==> r->Ok_0@ == default_branch@,
{
    if crate::text::is_blank(default_branch.as_str()) {
        Err(PullsError::EmptyDefaultBranch)
    } else {
        Ok(default_branch)
    }
}

/// The current branch of a checkout: none when the head is detached; its
/// name must not be blank.
pub fn current_branch_name(is_branch: bool, shorthand: Option<&str>) -> (r: Result<String, PullsError>)
    ensures
        !is_branch ==> r == Err::<String, PullsError>(PullsError::DetachedHead),
        is_branch ==> match shorthand {
            Some(s) => if trim(s@).len() > 0 {
                r is Ok && r->Ok_0@ == s@
            } else {
                r == Err::<String, PullsError>(PullsError::UnnamedBranch)
            },
            None => r == Err::<String, PullsError>(PullsError::UnnamedBranch),
        },
{
    if !is_branch {
        return Err(PullsError::DetachedHead);
    }
    match shorthand {
        Some(s) => if crate::text::is_blank(s) {
            Err(PullsError::UnnamedBranch)
        } else {
            Ok(String::from_str(s))
        },
        None => Err(PullsError::UnnamedBranch),
    }
}

/// Where the body of a new pull request is still to be read from.
#[derive(Debug, Clone, PartialEq, Eq)]
pub enum BodyToRead {
    /// Standard input (`--body-file -`).
    Stdin,
    /// The file at this path.
    File(String),
}

/// A path that equals the path `-` (component by component, as `Path`
/// compares on Unix): its first `/`-part is `-` and every later part is
/// empty or `.`.
pub open spec fn is_stdin_path(p: Seq<char>) -> bool {
    let parts = split_all(p, '/');
    &&& parts.len() > 0
    &&& parts[0] == seq!['-']
    &&& forall|i: int| 1 <= i < parts.len() ==> (#[trigger] parts[i]).len() == 0 || parts[i] == seq!['.']
}

/// Whether a path means stdin.
pub fn stdin_path(p: &str) -> (b: bool)
    ensures
        b == is_stdin_path(p@),
{
    let pv = chars_of(p);
    let parts = split_all_of(pv.as_slice(), '/');
    let ghost ps = split_all(p@, '/');
    assert(char_vec_views(parts@) == ps);
    assert(ps.len() == parts@.len());
    if parts.len() == 0 {
        return false;
    }
    assert(parts@[0]@ == ps[0]);
    if !(parts[0].len() == 1 && parts[0][0] == '-') {
        proof {
            if ps[0] == seq!['-'] {
                assert(ps[0].len() == 1 && ps[0][0] == '-');
            }
        }
        return false;
    }
    assert(ps[0] =~= seq!['-']);
    let mut i: usize = 1;
    while i < parts.len()
        invariant
            char_vec_views(parts@) == ps,
            ps == split_all(p@, '/'),
            ps.len() == parts@.len(),
            1 <= i <= parts.len(),
            forall|k: int| 1 <= k < i ==> (#[trigger] ps[k]).len() == 0 || ps[k] == seq!['.'],
        decreases parts.len() - i,
    {
        assert(parts@[i as int]@ == ps[i as int]);
        let part = &parts[i];
        let ok = part.len() == 0 || (part.len() == 1 && part[0] == '.');
        if !ok {
            proof {
                if ps[i as int] == seq!['.'] {
                    assert(ps[i as int].len() == 1 && ps[i as int][0] == '.');
                }
                assert(!((ps[i as int]).len() == 0 || ps[i as int] == seq!['.']));
                assert(!is_stdin_path(p@));
            }
            return false;
        }
        proof {
            if part.len() == 1 {
                assert(ps[i as int] =~= seq!['.']);
            }
        }
        i += 1;
    }
    true
}

/// The body of a new pull request: `--body` as given, empty without one,
/// or else where `--body-file` says it is to be read from (a path equal to
/// `-` for stdin). The two options exclude each other.
pub fn read_body(body: Option<String>, body_file: Option<&str>) -> (r: Result<String, BodyToRead>)
    requires
        !(body is Some && body_file is Some),
    ensures
        body is Some ==> r is Ok && r->Ok_0@ == body->0@,
        body is None && body_file is None ==> r is Ok && r->Ok_0@.len() == 0,
        match body_file {
            Some(p) => if is_stdin_path(p@) {
                r matches Err(BodyToRead::Stdin)
            } else {
                r matches Err(BodyToRead::File(f)) && f@ == p@
            },
            None => true,
        },
{
    match body {
        Some(b) => Ok(b),
        None => match body_file {
            None => Ok(String::new()),
            Some(p) => {
                if stdin_path(p) {
                    Err(BodyToRead::Stdin)
                } else {
                    Err(BodyToRead::File(String::from_str(p)))
                }
            },
        },
    }
}

/// The pull requests of `s` whose head branch is `head`, in order.
pub open spec fn with_head(s: Seq<PullRequest>, head: Seq<char>) -> Seq<PullRequest>
    decreases s.len(),
{
    if s.len() == 0 {
        Seq::empty()
    } else {
        let rest = with_head(s.drop_last(), head);
        if s.last().head.branch@ == head {
            rest.push(s.last())
        } else {
            rest
        }
    }
}

/// Keeps the pull requests whose head branch is `head` (`--head`); without
/// `--head`, keeps them all.
pub fn filter_by_head(pulls: Vec<PullRequest>, head: Option<&str>) -> (r: Vec<PullRequest>)
    ensures
        match head {
            Some(h) => r@ == with_head(pulls@, h@),
            None => r@ == pulls@,
        },
{
    let h = match head {
        Some(h) => h,
        None => return pulls,
    };
    let hv = chars_of(h);
    let ghost s = pulls@;
    let mut v = pulls;
    let mut kept: Vec<PullRequest> = Vec::new();
    let ghost mut c: int = 0;
    assert(s.subrange(0, 0) =~= Seq::<PullRequest>::empty());
    assert(s.subrange(0, s.len() as int) =~= s);
    while v.len() > 0
        invariant
            0 <= c <= s.len(),
            v@ == s.subrange(c, s.len() as int),
            kept@ == with_head(s.subrange(0, c), h@),
            hv@ == h@,
        decreases v.len(),
    {
        let ghost old_v = v@;
        let p = v.remove(0);
        proof {
            assert(p == s[c]);
            assert(v@ =~= s.subrange(c + 1, s.len() as int));
            assert(s.subrange(0, c + 1).drop_last() =~= s.subrange(0, c));
            assert(s.subrange(0, c + 1).last() == s[c]);
        }
        let bv = chars_of(p.head.branch.as_str());
        if crate::text::chars_eq(bv.as_slice(), hv.as_slice()) {
            kept.push(p);
        }
        proof {
            c = c + 1;
        }
    }
    assert(s.subrange(0, c) =~= s);
    kept
}

/// Every pull request kept by the head filter has that head branch, and
/// every one with that head branch is kept.
pub proof fn lemma_with_head_exact(s: Seq<PullRequest>, head: Seq<char>)
    ensures
        forall|i: int| 0 <= i < with_head(s, head).len() ==> (#[trigger] with_head(s, head)[i]).head.branch@ == head,
        forall|i: int| 0 <= i < s.len() && (#[trigger] s[i]).head.branch@ == head ==> with_head(s, head).contains(s[i]),
        with_head(s, head).len() <= s.len(),
    decreases s.len(),
{
    if s.len() > 0 {
        let p = s.drop_last();
        lemma_with_head_exact(p, head);
        let r = with_head(p, head);
        assert forall|i: int| 0 <= i < s.len() && (#[trigger] s[i]).head.branch@ == head implies with_head(s, head).contains(s[i]) by {
            if i < s.len() - 1 {
                assert(p[i] == s[i]);
                assert(r.contains(p[i]));
                let j = choose|j: int| 0 <= j < r.len() && r[j] == p[i];
                if s.last().head.branch@ == head {
                    assert(r.push(s.last())[j] == s[i]);
                }
            } else {
                assert(with_head(s, head)[with_head(s, head).len() - 1] == s[i]);
            }
        }
    }
}

/// The row of a pull request in `pr list`: number, state, title, head,
/// base and URL.
pub open spec fn spec_pull_row(p: PullRequest) -> Seq<Seq<char>> {
    seq![
        decimal(p.number as nat),
        p.state@,
        p.title@,
        p.head.branch@,
        p.base.branch@,
        p.html_url@,
    ]
}

pub open spec fn string_views(v: Seq<String>) -> Seq<Seq<char>> {
    v.map_values(|s: String| s@)
}

/// The row of a pull request in `pr list`.
pub fn pull_row(p: &PullRequest) -> (r: Vec<String>)
    ensures
        string_views(r@) == spec_pull_row(*p),
{
    let mut n: Vec<char> = Vec::new();
    push_decimal(&mut n, p.number as u128);
    let mut r: Vec<String> = Vec::new();
    r.push(string_of(n.as_slice()));
    r.push(p.state.clone());
    r.push(p.title.clone());
    r.push(p.head.branch.clone());
    r.push(p.base.branch.clone());
    r.push(p.html_url.clone());
    assert(string_views(r@) =~= spec_pull_row(*p));
    r
}

/// The headings of the `pr list` table.
pub fn pull_table_headings() -> (r: Vec<String>)
    ensures
        string_views(r@) == seq!["Number"@, "State"@, "Title"@, "Head"@, "Base"@, "URL"@],
{
    let mut r: Vec<String> = Vec::new();
    r.push(String::from_str("Number"));
    r.push(String::from_str("State"));
    r.push(String::from_str("Title"));
    r.push(String::from_str("Head"));
    r.push(String::from_str("Base"));
    r.push(String::from_str("URL"));
    assert(string_views(r@) =~= seq!["Number"@, "State"@, "Title"@, "Head"@, "Base"@, "URL"@]);
    r
}

/// How the API client of a `pr` command authenticates.
#[derive(Debug, Clone)]
pub enum ApiAuth {
    /// The stored Forgejo API token.
    Token(String),
    /// HTTP basic authentication with the stored UI login.
    Basic { username: String, password: String },
}

/// The authentication of a `pr` command: the API token where one is
/// stored, else the stored UI login, else an error.
pub fn api_auth(token: Option<String>, creds: Option<UiCreds>) -> (r: Result<ApiAuth, PullsError>)
    ensures
        match token {
            Some(t) => r matches Ok(ApiAuth::Token(x)) && x@ == t@,
            None => match creds {
                Some(c) => r matches Ok(ApiAuth::Basic { username, password }) && username@
                    == c.username@ && password@ == c.password@,
                None => r == Err::<ApiAuth, PullsError>(PullsError::NoApiAuth),
            },
        },
{
    match token {
        Some(t) => Ok(ApiAuth::Token(t)),
        None => match creds {
            Some(c) => Ok(ApiAuth::Basic { username: c.username, password: c.password }),
            None => Err(PullsError::NoApiAuth),
        },
    }
}

} // verus!
