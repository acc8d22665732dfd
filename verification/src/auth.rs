//! The `auth` commands: which stored logins are listed, what is shown of a
//! login, and the plan of a NuGet API key request.
use vstd::prelude::*;
use crate::clock::now_unix_timestamp_nanos;
use crate::store::creds::{
    entry_has_complete_creds, pair_views, spec_has_complete_creds, CredsStore, EntryView,
    StoreEntry,
};
use crate::store::{UiCreds, UiCredsView};
use crate::target::{normalize_host_key, spec_normalize_host_key};
use crate::text::{
    chars_of, push_decimal, push_signed_decimal, push_str_chars, signed_decimal, string_of, trim,
    trim_chars, decimal,
};
use crate::urls::{opt_view, percent_encode, percent_encoded};

verus! {

/// Errors of the `auth` commands.
#[derive(Debug, Clone)]
pub enum AuthError {
    /// No login is stored for the base URL.
    NoStoredLogin(String),
    /// The stored login of the base URL has a blank username.
    MissingUsername(String),
    /// `--owner` is blank.
    EmptyOwner,
    /// `--token-name` is blank.
    EmptyTokenName,
    /// The stored session is not live and `--no-relogin` was given.
    NotLoggedIn(String),
}

pub enum AuthErrorView {
    NoStoredLogin(Seq<char>),
    MissingUsername(Seq<char>),
    EmptyOwner,
    EmptyTokenName,
    NotLoggedIn(Seq<char>),
}

impl View for AuthError {
    type V = AuthErrorView;

    open spec fn view(&self) -> AuthErrorView {
        match self {
            AuthError::NoStoredLogin(u) => AuthErrorView::NoStoredLogin(u@),
            AuthError::MissingUsername(u) => AuthErrorView::MissingUsername(u@),
            AuthError::EmptyOwner => AuthErrorView::EmptyOwner,
            AuthError::EmptyTokenName => AuthErrorView::EmptyTokenName,
            AuthError::NotLoggedIn(u) => AuthErrorView::NotLoggedIn(u@),
        }
    }
}

/// The message of an `auth` error.
pub open spec fn auth_error_message(e: AuthErrorView) -> Seq<char> {
    match e {
        AuthErrorView::NoStoredLogin(u) => "No stored UI login for '"@ + u
            + "'. Run `fj-ex auth login` or `fj-ex auth login --web` first."@,
        AuthErrorView::MissingUsername(u) => "Stored UI creds for '"@ + u
            + "' are missing a username. Re-run `fj-ex auth login`."@,
        AuthErrorView::EmptyOwner => "--owner cannot be empty"@,
        AuthErrorView::EmptyTokenName => "--token-name cannot be empty"@,
        AuthErrorView::NotLoggedIn(u) => "Not logged in to '"@ + u
            + "' (cookie session invalid and --no-relogin specified). Run `fj-ex auth login --host "@
            + u + " --web` for SSO/browser login."@,
    }
}

impl AuthError {
    /// The error's message.
    pub fn message(&self) -> (r: String)
        ensures
            r@ == auth_error_message(self@),
    {
        let mut v: Vec<char> = Vec::new();
        match self {
            AuthError::NoStoredLogin(u) => {
                push_str_chars(&mut v, "No stored UI login for '");
                push_str_chars(&mut v, u.as_str());
                push_str_chars(&mut v, "'. Run `fj-ex auth login` or `fj-ex auth login --web` first.");
            },
            AuthError::MissingUsername(u) => {
                push_str_chars(&mut v, "Stored UI creds for '");
                push_str_chars(&mut v, u.as_str());
                push_str_chars(&mut v, "' are missing a username. Re-run `fj-ex auth login`.");
            },
            AuthError::EmptyOwner => {
                push_str_chars(&mut v, "--owner cannot be empty");
            },
            AuthError::EmptyTokenName => {
                push_str_chars(&mut v, "--token-name cannot be empty");
            },
            AuthError::NotLoggedIn(u) => {
                push_str_chars(&mut v, "Not logged in to '");
                push_str_chars(&mut v, u.as_str());
                push_str_chars(
                    &mut v,
                    "' (cookie session invalid and --no-relogin specified). Run `fj-ex auth login --host ",
                );
                push_str_chars(&mut v, u.as_str());
                push_str_chars(&mut v, " --web` for SSO/browser login.");
            },
        }
        assert(v@ =~= auth_error_message(self@));
        string_of(v.as_slice())
    }
}

/// Whether a stored login has a non-blank username and password.
pub fn has_complete_creds(entry: &StoreEntry) -> (b: bool)
    ensures
        b == spec_has_complete_creds(entry@),
{
    entry_has_complete_creds(entry)
}

/// The name shown for a login: its username, or `web-session` for a
/// browser session.
pub open spec fn display_username(username: Option<Seq<char>>) -> Seq<char> {
    match username {
        Some(u) => u,
        None => "web-session"@,
    }
}

/// `username@host_key`, the way a login is named on screen.
pub open spec fn login_label(username: Seq<char>, host_key: Seq<char>) -> Seq<char> {
    username + seq!['@'] + host_key
}

/// The name shown for a stored login.
pub fn entry_display_username(entry: &StoreEntry) -> (r: String)
    ensures
        r@ == display_username(opt_view(entry.username)),
{
    match &entry.username {
        Some(u) => u.clone(),
        None => String::from_str("web-session"),
    }
}

/// `username@host_key` for a stored login.
pub fn entry_label(entry: &StoreEntry, host_key: &str) -> (r: String)
    ensures
        r@ == login_label(display_username(opt_view(entry.username)), host_key@),
{
    let mut v = chars_of(entry_display_username(entry).as_str());
    v.push('@');
    push_str_chars(&mut v, host_key);
    string_of(v.as_slice())
}

/// What `auth logout` prints: the login that was removed, or that there
/// was none.
pub open spec fn spec_logout_message(removed: Option<EntryView>, host_key: Seq<char>) -> Seq<char> {
    match removed {
        Some(e) => "signed out of "@ + login_label(display_username(e.username), host_key),
        None => "already signed out of "@ + host_key,
    }
}

/// The line `auth logout` prints.
pub fn logout_message(removed: Option<&StoreEntry>, host_key: &str) -> (r: String)
    ensures
        r@ == spec_logout_message(
            match removed {
                Some(e) => Some(e@),
                None => None,
            },
            host_key@,
        ),
{
    let mut v: Vec<char> = Vec::new();
    match removed {
        Some(e) => {
            push_str_chars(&mut v, "signed out of ");
            push_str_chars(&mut v, entry_label(e, host_key).as_str());
        },
        None => {
            push_str_chars(&mut v, "already signed out of ");
            push_str_chars(&mut v, host_key);
        },
    }
    string_of(v.as_slice())
}

// ---------------------------------------------------------------------
// auth list
// ---------------------------------------------------------------------

/// The host key a stored login is listed under: that of its base URL (or,
/// without one, of its store key), or the store key where that does not
/// normalize.
pub open spec fn listed_host_key(key: Seq<char>, e: EntryView) -> Seq<char> {
    let base = match e.base_url {
        Some(b) => b,
        None => key,
    };
    match spec_normalize_host_key(base) {
        Ok(h) => h,
        Err(_) => key,
    }
}

/// The logins of a store, one per host key, walked in store order: the
/// first entry of a host key is the one listed.
pub open spec fn group_by_host(s: Seq<(Seq<char>, EntryView)>) -> Map<Seq<char>, EntryView>
    decreases s.len(),
{
    if s.len() == 0 {
        Map::empty()
    } else {
        let m = group_by_host(s.drop_last());
        let h = listed_host_key(s.last().0, s.last().1);
        if m.dom().contains(h) {
            m
        } else {
            m.insert(h, s.last().1)
        }
    }
}

/// The host key a stored login is listed under.
pub fn entry_host_key(key: &str, entry: &StoreEntry) -> (r: String)
    ensures
        r@ == listed_host_key(key@, entry@),
{
    let base: &str = match &entry.base_url {
        Some(b) => b.as_str(),
        None => key,
    };
    match normalize_host_key(base) {
        Ok(h) => h,
        Err(_) => String::from_str(key),
    }
}

/// The stored logins by host key (`auth list`): for each host key, the
/// first of its entries in store order.
pub fn group_logins_by_host(store: &CredsStore) -> (r: CredsStore)
    ensures
        r@ == group_by_host(store.ordered()),
{
    let entries = store.entries();
    let ghost s = store.ordered();
    let mut r = CredsStore::new();
    let mut i: usize = 0;
    assert(s.subrange(0, 0) =~= Seq::<(Seq<char>, EntryView)>::empty());
    while i < entries.len()
        invariant
            pair_views(entries@) == s,
            i <= entries.len(),
            r@ == group_by_host(s.subrange(0, i as int)),
        decreases entries.len() - i,
    {
        let key = &entries[i].0;
        let entry = &entries[i].1;
        assert(s[i as int] == (key@, entry@));
        assert(s.subrange(0, i + 1).drop_last() =~= s.subrange(0, i as int));
        assert(s.subrange(0, i + 1).last() == s[i as int]);
        let h = entry_host_key(key.as_str(), entry);
        let absent = r.get(h.as_str()).is_none();
        if absent {
            r.insert(h, entry.duplicate());
        }
        i += 1;
    }
    assert(s.subrange(0, i as int) =~= s);
    r
}

/// Every entry of a store is listed under its host key.
pub proof fn lemma_group_lists_every_host(s: Seq<(Seq<char>, EntryView)>, i: int)
    requires
        0 <= i < s.len(),
    ensures
        group_by_host(s).dom().contains(listed_host_key(s[i].0, s[i].1)),
    decreases s.len(),
{
    if i < s.len() - 1 {
        lemma_group_lists_every_host(s.drop_last(), i);
        assert(s.drop_last()[i] == s[i]);
    }
}

/// Only host keys of entries are listed.
pub proof fn lemma_group_lists_only_hosts(s: Seq<(Seq<char>, EntryView)>, h: Seq<char>)
    requires
        group_by_host(s).dom().contains(h),
    ensures
        exists|i: int| 0 <= i < s.len() && #[trigger] listed_host_key(s[i].0, s[i].1) == h,
    decreases s.len(),
{
    let m = group_by_host(s.drop_last());
    if m.dom().contains(h) {
        lemma_group_lists_only_hosts(s.drop_last(), h);
        let i = choose|i: int| 0 <= i < s.drop_last().len() && #[trigger] listed_host_key(
            s.drop_last()[i].0,
            s.drop_last()[i].1,
        ) == h;
        assert(s.drop_last()[i] == s[i]);
        assert(listed_host_key(s[i].0, s[i].1) == h);
    } else {
        assert(listed_host_key(s[s.len() - 1].0, s[s.len() - 1].1) == h);
    }
}

/// The entry listed under a host key is the first of the store's entries
/// with that host key.
pub proof fn lemma_group_first_wins(s: Seq<(Seq<char>, EntryView)>, i: int)
    requires
        0 <= i < s.len(),
        forall|j: int| 0 <= j < i ==> #[trigger] listed_host_key(s[j].0, s[j].1) != listed_host_key(
            s[i].0,
            s[i].1,
        ),
    ensures
        group_by_host(s)[listed_host_key(s[i].0, s[i].1)] == s[i].1,
    decreases s.len(),
{
    let h = listed_host_key(s[i].0, s[i].1);
    let p = s.drop_last();
    if i < s.len() - 1 {
        assert(p[i] == s[i]);
        assert forall|j: int| 0 <= j < i implies #[trigger] listed_host_key(p[j].0, p[j].1) != h by {
            assert(p[j] == s[j]);
            assert(listed_host_key(s[j].0, s[j].1) != h);
        }
        lemma_group_first_wins(p, i);
        lemma_group_lists_every_host(p, i);
    } else {
        if group_by_host(p).dom().contains(h) {
            lemma_group_lists_only_hosts(p, h);
            let j = choose|j: int| 0 <= j < p.len() && #[trigger] listed_host_key(p[j].0, p[j].1) == h;
            assert(p[j] == s[j]);
            assert(listed_host_key(s[j].0, s[j].1) != h);
        }
    }
}

// ---------------------------------------------------------------------
// auth list, show and status
// ---------------------------------------------------------------------

/// The lines `auth list` prints for logins grouped by host key, in host
/// key order.
pub open spec fn spec_list_lines(s: Seq<(Seq<char>, EntryView)>) -> Seq<Seq<char>> {
    if s.len() == 0 {
        seq!["No logins."@]
    } else {
        s.map_values(|p: (Seq<char>, EntryView)| login_label(display_username(p.1.username), p.0))
    }
}

pub open spec fn string_views(v: Seq<String>) -> Seq<Seq<char>> {
    v.map_values(|s: String| s@)
}

/// The lines `auth list` prints.
pub fn list_lines(by_host: &CredsStore) -> (r: Vec<String>)
    ensures
        string_views(r@) == spec_list_lines(by_host.ordered()),
{
    let entries = by_host.entries();
    let ghost s = by_host.ordered();
    let mut r: Vec<String> = Vec::new();
    if entries.len() == 0 {
        r.push(String::from_str("No logins."));
        assert(string_views(r@) =~= spec_list_lines(s));
        return r;
    }
    let mut i: usize = 0;
    assert(s.len() == entries@.len());
    assert(spec_list_lines(s).len() == s.len());
    while i < entries.len()
        invariant
            pair_views(entries@) == s,
            s.len() == entries@.len(),
            spec_list_lines(s).len() == s.len(),
            i <= entries.len(),
            r@.len() == i,
            string_views(r@) == spec_list_lines(s).subrange(0, i as int),
            s.len() > 0,
        decreases entries.len() - i,
    {
        assert(s[i as int] == (entries@[i as int].0@, entries@[i as int].1@));
        let line = entry_label(&entries[i].1, entries[i].0.as_str());
        assert(line@ == spec_list_lines(s)[i as int]);
        let ghost before = r@;
        r.push(line);
        assert(r@ == before.push(line));
        assert forall|k: int| 0 <= k < r@.len() implies #[trigger] string_views(r@)[k] == spec_list_lines(s).subrange(0, i + 1)[k] by {
            assert(string_views(r@)[k] == r@[k]@);
            if k < i {
                assert(r@[k] == before[k]);
                assert(string_views(before)[k] == before[k]@);
                assert(string_views(before)[k] == spec_list_lines(s).subrange(0, i as int)[k]);
                assert(spec_list_lines(s).subrange(0, i as int)[k] == spec_list_lines(s)[k]);
            } else {
                assert(k == i);
                assert(r@[k] == line);
            }
            assert(spec_list_lines(s).subrange(0, i + 1)[k] == spec_list_lines(s)[k]);
        }
        assert(string_views(r@) =~= spec_list_lines(s).subrange(0, i + 1));
        i += 1;
    }
    assert(spec_list_lines(s).subrange(0, i as int) =~= spec_list_lines(s));
    r
}

/// The base URL `auth list --json` reports for a login: the stored one, or
/// `https://` and the host key.
pub fn listed_base_url(host_key: &str, entry: &StoreEntry) -> (r: String)
    ensures
        r@ == match opt_view(entry.base_url) {
            Some(b) => b,
            None => "https://"@ + host_key@,
        },
{
    match &entry.base_url {
        Some(b) => b.clone(),
        None => {
            let mut v = chars_of("https://");
            push_str_chars(&mut v, host_key);
            string_of(v.as_slice())
        },
    }
}

/// Whether a stored login has a non-empty password (`hasPassword`).
pub fn has_password(entry: &StoreEntry) -> (b: bool)
    ensures
        b == match opt_view(entry.password) {
            Some(p) => p.len() > 0,
            None => false,
        },
{
    match &entry.password {
        Some(p) => p.unicode_len() > 0,
        None => false,
    }
}

/// The number of saved cookies of a stored login.
pub fn cookie_count(entry: &StoreEntry) -> (n: usize)
    ensures
        n == match entry.cookie_jar {
            Some(j) => j@.cookies.len(),
            None => 0,
        },
{
    match &entry.cookie_jar {
        Some(j) => j.cookies.len(),
        None => 0,
    }
}

/// The lines `auth show` prints for a stored login.
pub open spec fn spec_show_lines(
    base_url: Seq<char>,
    host_key: Seq<char>,
    store_path: Seq<char>,
    e: EntryView,
    show_password: bool,
) -> Seq<Seq<char>> {
    let lines = seq![
        "Host:      "@ + base_url,
        "HostKey:   "@ + host_key,
        "Username:  "@ + display_username(e.username),
        "Auth:      "@ + match e.auth_method {
            Some(m) => m,
            None => "password"@,
        },
        "Updated:   "@ + match e.updated_utc {
            Some(u) => u,
            None => "?"@,
        },
        "Cookies:   "@ + decimal(
            match e.cookie_jar {
                Some(j) => j.cookies.len(),
                None => 0,
            },
        ),
        "Store:     "@ + store_path,
    ];
    if show_password {
        lines.push(
            "Password:  "@ + match e.password {
                Some(p) => p,
                None => Seq::empty(),
            },
        )
    } else {
        lines
    }
}

fn labelled(label: &str, value: &str) -> (r: String)
    ensures
        r@ == label@ + value@,
{
    let mut v = chars_of(label);
    push_str_chars(&mut v, value);
    string_of(v.as_slice())
}

/// The lines `auth show` prints.
pub fn show_lines(base_url: &str, host_key: &str, store_path: &str, entry: &StoreEntry, show_password: bool) -> (r: Vec<String>)
    ensures
        string_views(r@) == spec_show_lines(base_url@, host_key@, store_path@, entry@, show_password),
{
    let mut r: Vec<String> = Vec::new();
    r.push(labelled("Host:      ", base_url));
    r.push(labelled("HostKey:   ", host_key));
    r.push(labelled("Username:  ", entry_display_username(entry).as_str()));
    let auth: &str = match &entry.auth_method {
        Some(m) => m.as_str(),
        None => "password",
    };
    r.push(labelled("Auth:      ", auth));
    let updated: &str = match &entry.updated_utc {
        Some(u) => u.as_str(),
        None => "?",
    };
    r.push(labelled("Updated:   ", updated));
    let mut c = chars_of("Cookies:   ");
    push_decimal(&mut c, cookie_count(entry) as u128);
    r.push(string_of(c.as_slice()));
    r.push(labelled("Store:     ", store_path));
    let ghost first = string_views(r@);
    assert(first =~= spec_show_lines(base_url@, host_key@, store_path@, entry@, false));
    if show_password {
        let pw: &str = match &entry.password {
            Some(p) => p.as_str(),
            None => "",
        };
        proof {
            reveal_strlit("");
        }
        let line = labelled("Password:  ", pw);
        let ghost before = r@;
        r.push(line);
        assert forall|k: int| 0 <= k < r@.len() implies #[trigger] string_views(r@)[k] == spec_show_lines(base_url@, host_key@, store_path@, entry@, true)[k] by {
            if k < 7 {
                assert(r@[k] == before[k]);
                assert(first[k] == before[k]@);
            }
        }
    }
    assert(string_views(r@) =~= spec_show_lines(base_url@, host_key@, store_path@, entry@, show_password));
    r
}

/// What `auth status` does after probing the stored session.
#[derive(Debug, Clone, Copy, PartialEq, Eq, Structural)]
pub enum StatusStep {
    /// The session is live: report it.
    Report,
    /// The session is not live and `--no-relogin` was given: fail.
    Refuse,
    /// The session is not live: log in again from the stored credentials.
    Relogin,
}

/// The step of `auth status` after the probe (a session without cookies is
/// not live).
pub fn status_step(has_cookie_jar: bool, probe_ok: bool, no_relogin: bool) -> (r: StatusStep)
    ensures
        (has_cookie_jar && probe_ok) ==> r == StatusStep::Report,
        !(has_cookie_jar && probe_ok) && no_relogin ==> r == StatusStep::Refuse,
        !(has_cookie_jar && probe_ok) && !no_relogin ==> r == StatusStep::Relogin,
{
    if has_cookie_jar && probe_ok {
        StatusStep::Report
    } else if no_relogin {
        StatusStep::Refuse
    } else {
        StatusStep::Relogin
    }
}

// ---------------------------------------------------------------------
// auth nuget-api-key
// ---------------------------------------------------------------------

/// `s` without its trailing `c`s (`trim_end_matches(c)`).
pub open spec fn trim_end_char(s: Seq<char>, c: char) -> Seq<char>
    decreases s.len(),
{
    if s.len() > 0 && s.last() == c {
        trim_end_char(s.drop_last(), c)
    } else {
        s
    }
}

/// `v` without its trailing `c`s.
pub fn trim_end_char_of(v: &[char], c: char) -> (r: Vec<char>)
    ensures
        r@ == trim_end_char(v@, c),
{
    let mut j: usize = v.len();
    assert(v@.subrange(0, j as int) =~= v@);
    while j > 0 && v[j - 1] == c
        invariant
            j <= v.len(),
            trim_end_char(v@.subrange(0, j as int), c) == trim_end_char(v@, c),
        decreases j,
    {
        assert(v@.subrange(0, j as int).drop_last() =~= v@.subrange(0, j - 1));
        j -= 1;
    }
    crate::text::slice_chars(v, 0, j)
}

/// The name of a new NuGet token at a time in nanoseconds.
pub open spec fn nuget_token_name_at(nanos: int) -> Seq<char> {
    "fj-ex-nuget-"@ + signed_decimal(nanos)
}

/// `fj-ex-nuget-<nanos>`.
pub fn nuget_token_name(nanos: i128) -> (r: String)
    ensures
        r@ == nuget_token_name_at(nanos as int),
{
    let mut v = chars_of("fj-ex-nuget-");
    push_signed_decimal(&mut v, nanos);
    string_of(v.as_slice())
}

/// The default name of a new NuGet token: `fj-ex-nuget-` and the current
/// Unix time in nanoseconds.
pub fn default_nuget_token_name() -> (r: String)
    ensures
        exists|t: int| i128::MIN <= t <= i128::MAX && r@ == #[trigger] nuget_token_name_at(t),
{
    let nanos = now_unix_timestamp_nanos();
    let r = nuget_token_name(nanos);
    assert(r@ == nuget_token_name_at(nanos as int));
    r
}

/// The token scope: `read:package` or `write:package`.
pub open spec fn nuget_scope(read_only: bool) -> Seq<char> {
    if read_only {
        "read:package"@
    } else {
        "write:package"@
    }
}

/// What `auth nuget-api-key` asks for and reports.
#[derive(Debug, Clone)]
pub struct NugetPlan {
    /// The stored username, trimmed.
    pub username: String,
    /// The package owner, trimmed.
    pub owner: String,
    /// The token name, trimmed.
    pub token_name: String,
    /// The token scope.
    pub scope: String,
    /// The API path the token is created at.
    pub tokens_path: String,
    /// The NuGet source URL.
    pub registry_url: String,
}

pub struct NugetPlanView {
    pub username: Seq<char>,
    pub owner: Seq<char>,
    pub token_name: Seq<char>,
    pub scope: Seq<char>,
    pub tokens_path: Seq<char>,
    pub registry_url: Seq<char>,
}

impl View for NugetPlan {
    type V = NugetPlanView;

    open spec fn view(&self) -> NugetPlanView {
        NugetPlanView {
            username: self.username@,
            owner: self.owner@,
            token_name: self.token_name@,
            scope: self.scope@,
            tokens_path: self.tokens_path@,
            registry_url: self.registry_url@,
        }
    }
}

/// The plan of a NuGet API key request: the stored login must exist and
/// have a username; the owner (by default the username) and the token name
/// must not be blank.
pub open spec fn spec_nuget_plan(
    base_url: Seq<char>,
    creds: Option<UiCredsView>,
    owner: Option<Seq<char>>,
    token_name: Seq<char>,
    read_only: bool,
) -> Result<NugetPlanView, AuthErrorView> {
    match creds {
        None => Err(AuthErrorView::NoStoredLogin(base_url)),
        Some(c) => {
            let username = trim(c.username);
            let owner = trim(
                match owner {
                    Some(o) => o,
                    None => username,
                },
            );
            let name = trim(token_name);
            if username.len() == 0 {
                Err(AuthErrorView::MissingUsername(base_url))
            } else if owner.len() == 0 {
                Err(AuthErrorView::EmptyOwner)
            } else if name.len() == 0 {
                Err(AuthErrorView::EmptyTokenName)
            } else {
                Ok(
                    NugetPlanView {
                        username,
                        owner,
                        token_name: name,
                        scope: nuget_scope(read_only),
                        tokens_path: "/users/"@ + percent_encoded(username) + "/tokens"@,
                        registry_url: trim_end_char(base_url, '/') + "/api/packages/"@
                            + percent_encoded(owner) + "/nuget/index.json"@,
                    },
                )
            }
        },
    }
}

pub open spec fn plan_result(r: Result<NugetPlan, AuthError>) -> Result<NugetPlanView, AuthErrorView> {
    match r {
        Ok(p) => Ok(p@),
        Err(e) => Err(e@),
    }
}

pub open spec fn opt_creds_view(c: Option<&UiCreds>) -> Option<UiCredsView> {
    match c {
        Some(c) => Some(c@),
        None => None,
    }
}

pub open spec fn opt_str_view(o: Option<&str>) -> Option<Seq<char>> {
    match o {
        Some(s) => Some(s@),
        None => None,
    }
}

/// The plan of a NuGet API key request for a given token name.
pub fn nuget_plan(
    base_url: &str,
    creds: Option<&UiCreds>,
    owner: Option<&str>,
    token_name: &str,
    read_only: bool,
) -> (r: Result<NugetPlan, AuthError>)
    ensures
        plan_result(r) == spec_nuget_plan(base_url@, opt_creds_view(creds), opt_str_view(owner), token_name@, read_only),
{
    let c = match creds {
        Some(c) => c,
        None => return Err(AuthError::NoStoredLogin(String::from_str(base_url))),
    };
    let uv = chars_of(c.username.as_str());
    let username_v = trim_chars(uv.as_slice());
    if username_v.len() == 0 {
        return Err(AuthError::MissingUsername(String::from_str(base_url)));
    }
    let username = string_of(username_v.as_slice());
    let ov = match owner {
        Some(o) => chars_of(o),
        None => chars_of(username.as_str()),
    };
    let owner_v = trim_chars(ov.as_slice());
    if owner_v.len() == 0 {
        return Err(AuthError::EmptyOwner);
    }
    let owner_s = string_of(owner_v.as_slice());
    let nv = chars_of(token_name);
    let name_v = trim_chars(nv.as_slice());
    if name_v.len() == 0 {
        return Err(AuthError::EmptyTokenName);
    }
    let scope = if read_only {
        String::from_str("read:package")
    } else {
        String::from_str("write:package")
    };
    let mut tp = chars_of("/users/");
    push_str_chars(&mut tp, percent_encode(username.as_str()).as_str());
    push_str_chars(&mut tp, "/tokens");
    let bv = chars_of(base_url);
    let mut reg = trim_end_char_of(bv.as_slice(), '/');
    push_str_chars(&mut reg, "/api/packages/");
    push_str_chars(&mut reg, percent_encode(owner_s.as_str()).as_str());
    push_str_chars(&mut reg, "/nuget/index.json");
    Ok(
        NugetPlan {
            username,
            owner: owner_s,
            token_name: string_of(name_v.as_slice()),
            scope,
            tokens_path: string_of(tp.as_slice()),
            registry_url: string_of(reg.as_slice()),
        },
    )
}

/// The plan of a NuGet API key request (`auth nuget-api-key`); without a
/// token name, the default name of the current time is used.
pub fn plan_nuget_api_key(
    base_url: &str,
    creds: Option<&UiCreds>,
    owner: Option<&str>,
    token_name: Option<&str>,
    read_only: bool,
) -> (r: Result<NugetPlan, AuthError>)
    ensures
        match token_name {
            Some(t) => plan_result(r) == spec_nuget_plan(
                base_url@,
                opt_creds_view(creds),
                opt_str_view(owner),
                t@,
                read_only,
            ),
            None => exists|t: int| i128::MIN <= t <= i128::MAX && plan_result(r) == spec_nuget_plan(
                base_url@,
                opt_creds_view(creds),
                opt_str_view(owner),
                #[trigger] nuget_token_name_at(t),
                read_only,
            ),
        },
{
    match token_name {
        Some(t) => nuget_plan(base_url, creds, owner, t, read_only),
        None => {
            let name = default_nuget_token_name();
            let ghost t = choose|t: int| i128::MIN <= t <= i128::MAX && name@ == #[trigger] nuget_token_name_at(t);
            let r = nuget_plan(base_url, creds, owner, name.as_str(), read_only);
            assert(plan_result(r) == spec_nuget_plan(base_url@, opt_creds_view(creds), opt_str_view(owner), nuget_token_name_at(t), read_only));
            r
        },
    }
}

/// The lines `auth nuget-api-key` prints: the environment for a NuGet
/// client.
pub open spec fn spec_nuget_env_lines(username: Seq<char>, registry_url: Seq<char>, api_key: Seq<char>) -> Seq<Seq<char>> {
    seq![
        "FORGEJO_NUGET_USERNAME="@ + username,
        "FORGEJO_NUGET_SOURCE="@ + registry_url,
        "FORGEJO_NUGET_API_KEY="@ + api_key,
    ]
}

/// The environment lines for a created token.
pub fn nuget_env_lines(plan: &NugetPlan, api_key: &str) -> (r: Vec<String>)
    ensures
        string_views(r@) == spec_nuget_env_lines(plan.username@, plan.registry_url@, api_key@),
{
    let mut r: Vec<String> = Vec::new();
    r.push(labelled("FORGEJO_NUGET_USERNAME=", plan.username.as_str()));
    r.push(labelled("FORGEJO_NUGET_SOURCE=", plan.registry_url.as_str()));
    r.push(labelled("FORGEJO_NUGET_API_KEY=", api_key));
    assert(string_views(r@) =~= spec_nuget_env_lines(plan.username@, plan.registry_url@, api_key@));
    r
}

} // verus!
