//! The credential store: where it lives, what it holds, and how each
//! operation changes it.
use vstd::prelude::*;
use crate::store::creds::{
    auth_only, has_text, entry_has_complete_creds, opt_entry_view, spec_creds_entry, spec_entry_has_auth,
    spec_find_store_entry, spec_has_complete_creds, spec_kept_jar, spec_set_jar, spec_web_entry,
    web_cookie_method, CookieJar, CookieJarView, CredsStore, EntryView, StoreEntry, StoreKey,
};
use crate::target::{
    normalize_base_url, normalize_host_key, spec_normalize_base_url, spec_normalize_host_key,
    TargetError, TargetErrorView,
};
use crate::text::{chars_of, is_blank, push_str_chars, string_of, trim};
use crate::urls::opt_view;

pub mod creds;
pub mod file;
pub mod repair;

verus! {

/// The directory of a store file and the file itself.
#[derive(Clone, Debug)]
pub struct StorePaths {
    pub dir: String,
    pub path: String,
}

/// Errors of the credential store.
#[derive(Debug, Clone)]
pub enum StoreError {
    /// Neither `APPDATA` nor the platform's data directory is known.
    NoAppDataDir,
    /// A blank username or password was to be stored.
    BlankCredentials,
    /// A browser session without cookies was to be stored.
    NoBrowserCookies,
    /// The base URL could not be normalized.
    Target(TargetError),
    /// The stored login (for this base URL) is a browser session only.
    WebSessionOnly(String),
    /// The stored entry (for this base URL) has no username.
    MissingUsername(String),
    /// The stored entry (for this base URL) has no password.
    MissingPassword(String),
}

pub enum StoreErrorView {
    NoAppDataDir,
    BlankCredentials,
    NoBrowserCookies,
    Target(TargetErrorView),
    WebSessionOnly(Seq<char>),
    MissingUsername(Seq<char>),
    MissingPassword(Seq<char>),
}

impl View for StoreError {
    type V = StoreErrorView;

    open spec fn view(&self) -> StoreErrorView {
        match self {
            StoreError::NoAppDataDir => StoreErrorView::NoAppDataDir,
            StoreError::BlankCredentials => StoreErrorView::BlankCredentials,
            StoreError::NoBrowserCookies => StoreErrorView::NoBrowserCookies,
            StoreError::Target(e) => StoreErrorView::Target(e@),
            StoreError::WebSessionOnly(b) => StoreErrorView::WebSessionOnly(b@),
            StoreError::MissingUsername(b) => StoreErrorView::MissingUsername(b@),
            StoreError::MissingPassword(b) => StoreErrorView::MissingPassword(b@),
        }
    }
}

/// The message of a store error.
pub open spec fn store_error_message(e: StoreErrorView) -> Seq<char> {
    match e {
        StoreErrorView::NoAppDataDir => "unable to locate AppData directory"@,
        StoreErrorView::BlankCredentials => "username/password must not be empty"@,
        StoreErrorView::NoBrowserCookies => "web login requires at least one browser cookie"@,
        StoreErrorView::Target(t) => crate::target::target_error_message(t),
        StoreErrorView::WebSessionOnly(b) => "Stored web login for '"@ + b
            + "' has no username/password. Run `fj-ex auth login --host "@ + b
            + " --web` to refresh it."@,
        StoreErrorView::MissingUsername(b) => "invalid creds store entry for '"@ + b
            + "' (missing username)"@,
        StoreErrorView::MissingPassword(b) => "invalid creds store entry for '"@ + b
            + "' (missing password)"@,
    }
}

impl StoreError {
    /// The error's message.
    pub fn message(&self) -> (r: String)
        ensures
            r@ == store_error_message(self@),
    {
        let mut v: Vec<char> = Vec::new();
        match self {
            StoreError::NoAppDataDir => push_str_chars(&mut v, "unable to locate AppData directory"),
            StoreError::BlankCredentials => push_str_chars(&mut v, "username/password must not be empty"),
            StoreError::NoBrowserCookies => push_str_chars(
                &mut v,
                "web login requires at least one browser cookie",
            ),
            StoreError::Target(t) => push_str_chars(&mut v, t.message().as_str()),
            StoreError::WebSessionOnly(b) => {
                push_str_chars(&mut v, "Stored web login for '");
                push_str_chars(&mut v, b.as_str());
                push_str_chars(&mut v, "' has no username/password. Run `fj-ex auth login --host ");
                push_str_chars(&mut v, b.as_str());
                push_str_chars(&mut v, " --web` to refresh it.");
            },
            StoreError::MissingUsername(b) => {
                push_str_chars(&mut v, "invalid creds store entry for '");
                push_str_chars(&mut v, b.as_str());
                push_str_chars(&mut v, "' (missing username)");
            },
            StoreError::MissingPassword(b) => {
                push_str_chars(&mut v, "invalid creds store entry for '");
                push_str_chars(&mut v, b.as_str());
                push_str_chars(&mut v, "' (missing password)");
            },
        }
        assert(v@ =~= store_error_message(self@));
        string_of(v.as_slice())
    }
}

/// `comp` appended to the path `base` as `PathBuf::push` does for a relative
/// component: a separator goes between them unless `base` is empty or
/// already ends in one (`/`, or the platform's `sep`).
pub open spec fn path_join(base: Seq<char>, comp: Seq<char>, sep: char) -> Seq<char> {
    if base.len() == 0 {
        comp
    } else if base.last() == sep || base.last() == '/' {
        base + comp
    } else {
        base.push(sep) + comp
    }
}

fn push_path(base: &mut Vec<char>, comp: &str, sep: char)
    ensures
        final(base)@ == path_join(old(base)@, comp@, sep),
{
    if base.len() == 0 {
        push_str_chars(base, comp);
        assert(final(base)@ =~= comp@);
    } else if base[base.len() - 1] == sep || base[base.len() - 1] == '/' {
        push_str_chars(base, comp);
    } else {
        base.push(sep);
        push_str_chars(base, comp);
    }
}

/// The base directory of application data: `APPDATA` when it is set and not
/// empty, else the platform's data directory.
pub open spec fn spec_app_data_base_dir(appdata: Option<Seq<char>>, data_dir: Option<Seq<char>>) -> Option<Seq<char>> {
    match appdata {
        Some(a) => if a.len() > 0 {
            Some(a)
        } else {
            data_dir
        },
        None => data_dir,
    }
}

pub open spec fn opt_str(o: Option<&str>) -> Option<Seq<char>> {
    match o {
        Some(s) => Some(s@),
        None => None,
    }
}

/// Chooses the base directory of application data.
pub fn app_data_base_dir(appdata: Option<&str>, data_dir: Option<&str>) -> (r: Result<String, StoreError>)
    ensures
        match r {
            Ok(d) => spec_app_data_base_dir(opt_str(appdata), opt_str(data_dir)) == Some(d@),
            Err(e) => spec_app_data_base_dir(opt_str(appdata), opt_str(data_dir)) is None && e
                == StoreError::NoAppDataDir,
        },
{
    if let Some(a) = appdata {
        if a.unicode_len() > 0 {
            return Ok(String::from_str(a));
        }
    }
    match data_dir {
        Some(d) => Ok(String::from_str(d)),
        None => Err(StoreError::NoAppDataDir),
    }
}

/// `<base>/Cyborus/forgejo-cli/data`.
pub open spec fn spec_store_dir(base: Seq<char>, sep: char) -> Seq<char> {
    path_join(path_join(path_join(base, "Cyborus"@, sep), "forgejo-cli"@, sep), "data"@, sep)
}

fn store_paths(app_data: Option<&str>, data_dir: Option<&str>, sep: char, file: &str) -> (r: Result<StorePaths, StoreError>)
    ensures
        match r {
            Ok(p) => spec_app_data_base_dir(opt_str(app_data), opt_str(data_dir)) matches Some(b) && p.dir@
                == spec_store_dir(b, sep) && p.path@ == path_join(spec_store_dir(b, sep), file@, sep),
            Err(e) => spec_app_data_base_dir(opt_str(app_data), opt_str(data_dir)) is None && e
                == StoreError::NoAppDataDir,
        },
{
    let base = match app_data_base_dir(app_data, data_dir) {
        Ok(b) => b,
        Err(e) => return Err(e),
    };
    let mut dir = chars_of(base.as_str());
    push_path(&mut dir, "Cyborus", sep);
    push_path(&mut dir, "forgejo-cli", sep);
    push_path(&mut dir, "data", sep);
    let mut path = dir.clone();
    push_path(&mut path, file, sep);
    Ok(StorePaths { dir: string_of(dir.as_slice()), path: string_of(path.as_slice()) })
}

/// Where `fj-ex` keeps UI credentials: `ui-creds.json` in
/// `<app data>/Cyborus/forgejo-cli/data` (`app_data` is `APPDATA`,
/// `data_dir` the platform's data directory, `sep` its path separator).
pub fn ui_creds_store_paths(app_data: Option<&str>, data_dir: Option<&str>, sep: char) -> (r: Result<StorePaths, StoreError>)
    ensures
        match r {
            Ok(p) => spec_app_data_base_dir(opt_str(app_data), opt_str(data_dir)) matches Some(b) && p.dir@
                == spec_store_dir(b, sep) && p.path@ == path_join(spec_store_dir(b, sep), "ui-creds.json"@, sep),
            Err(e) => spec_app_data_base_dir(opt_str(app_data), opt_str(data_dir)) is None && e
                == StoreError::NoAppDataDir,
        },
{
    store_paths(app_data, data_dir, sep, "ui-creds.json")
}

/// Where the `fj` CLI keeps its API keys: `keys.json` in the same directory.
pub fn keys_store_paths(app_data: Option<&str>, data_dir: Option<&str>, sep: char) -> (r: Result<StorePaths, StoreError>)
    ensures
        match r {
            Ok(p) => spec_app_data_base_dir(opt_str(app_data), opt_str(data_dir)) matches Some(b) && p.dir@
                == spec_store_dir(b, sep) && p.path@ == path_join(spec_store_dir(b, sep), "keys.json"@, sep),
            Err(e) => spec_app_data_base_dir(opt_str(app_data), opt_str(data_dir)) is None && e
                == StoreError::NoAppDataDir,
        },
{
    store_paths(app_data, data_dir, sep, "keys.json")
}


/// The keys of a base URL: normalized, then its host key.
pub open spec fn spec_store_key(base_url: Seq<char>, unix: bool) -> Result<(Seq<char>, Seq<char>), TargetErrorView> {
    match spec_normalize_base_url(base_url, unix) {
        Err(e) => Err(e),
        Ok(n) => match spec_normalize_host_key(n) {
            Err(e) => Err(e),
            Ok(k) => Ok((n, k)),
        },
    }
}

/// The keys under which the entry of a base URL is stored.
pub fn store_key(base_url: &str, unix: bool) -> (r: Result<StoreKey, StoreError>)
    ensures
        match r {
            Ok(k) => spec_store_key(base_url@, unix) == Ok::<(Seq<char>, Seq<char>), TargetErrorView>((k.normalized@, k.host_key@)),
            Err(e) => exists|t: TargetErrorView| spec_store_key(base_url@, unix) == Err::<(Seq<char>, Seq<char>), TargetErrorView>(t) && e@ == StoreErrorView::Target(t),
        },
{
    let normalized = match normalize_base_url(base_url, unix) {
        Ok(n) => n,
        Err(e) => return Err(StoreError::Target(e)),
    };
    let host_key = match normalize_host_key(normalized.as_str()) {
        Ok(k) => k,
        Err(e) => return Err(StoreError::Target(e)),
    };
    Ok(StoreKey { normalized, host_key })
}

/// A username and password may be stored only when neither is blank.
pub fn check_ui_creds(username: &str, password: &str) -> (r: Result<(), StoreError>)
    ensures
        r is Ok <==> (trim(username@).len() > 0 && trim(password@).len() > 0),
        r is Err ==> r == Err::<(), StoreError>(StoreError::BlankCredentials),
{
    if is_blank(username) || is_blank(password) {
        return Err(StoreError::BlankCredentials);
    }
    Ok(())
}

/// A browser session may be stored only with at least one cookie.
pub fn check_web_cookie_jar(jar: &CookieJar) -> (r: Result<(), StoreError>)
    ensures
        r is Ok <==> jar@.cookies.len() > 0,
        r is Err ==> r == Err::<(), StoreError>(StoreError::NoBrowserCookies),
{
    if jar.cookies.len() == 0 {
        return Err(StoreError::NoBrowserCookies);
    }
    Ok(())
}

/// The stored login of a base URL, if any.
#[derive(Clone, Debug)]
pub struct StoreEntryInfo {
    pub base_url: String,
    pub entry: Option<StoreEntry>,
}

/// Looks up the stored login of a base URL (`get_store_entry`).
pub fn get_store_entry(store: &CredsStore, key: &StoreKey) -> (r: StoreEntryInfo)
    ensures
        r.base_url@ == key.normalized@,
        opt_entry_view(r.entry) == spec_find_store_entry(store@, key.normalized@, key.host_key@),
{
    StoreEntryInfo { base_url: key.normalized.clone(), entry: store.find_store_entry(key) }
}

/// A stored username and password.
#[derive(Clone, Debug)]
pub struct UiCreds {
    pub base_url: String,
    pub username: String,
    pub password: String,
    pub updated_utc: Option<String>,
}

pub struct UiCredsView {
    pub base_url: Seq<char>,
    pub username: Seq<char>,
    pub password: Seq<char>,
    pub updated_utc: Option<Seq<char>>,
}

impl View for UiCreds {
    type V = UiCredsView;

    open spec fn view(&self) -> UiCredsView {
        UiCredsView {
            base_url: self.base_url@,
            username: self.username@,
            password: self.password@,
            updated_utc: opt_view(self.updated_utc),
        }
    }
}

/// The credentials of a stored login: none without an entry; an error for a
/// browser session only, or for an entry without username or password.
pub open spec fn spec_ui_creds(base_url: Seq<char>, entry: Option<EntryView>) -> Result<Option<UiCredsView>, StoreErrorView> {
    match entry {
        None => Ok(None),
        Some(e) => if !spec_has_complete_creds(e) && e.auth_method == Some(web_cookie_method())
            && e.cookie_jar is Some {
            Err(StoreErrorView::WebSessionOnly(base_url))
        } else {
            match (e.username, e.password) {
                (None, _) => Err(StoreErrorView::MissingUsername(base_url)),
                (Some(_), None) => Err(StoreErrorView::MissingPassword(base_url)),
                (Some(u), Some(p)) => Ok(
                    Some(UiCredsView { base_url, username: u, password: p, updated_utc: e.updated_utc }),
                ),
            }
        },
    }
}

pub open spec fn creds_result(r: Result<Option<UiCreds>, StoreError>) -> Result<Option<UiCredsView>, StoreErrorView> {
    match r {
        Ok(Some(c)) => Ok(Some(c@)),
        Ok(None) => Ok(None),
        Err(e) => Err(e@),
    }
}

/// The username and password of a stored login (`get_ui_creds`).
pub fn get_ui_creds(info: StoreEntryInfo) -> (r: Result<Option<UiCreds>, StoreError>)
    ensures
        creds_result(r) == spec_ui_creds(info.base_url@, opt_entry_view(info.entry)),
{
    let entry = match info.entry {
        Some(e) => e,
        None => return Ok(None),
    };
    let web = match &entry.auth_method {
        Some(m) => {
            let mv = chars_of(m.as_str());
            crate::text::chars_are(mv.as_slice(), "web-cookie")
        },
        None => false,
    };
    if !entry_has_complete_creds(&entry) && web && entry.cookie_jar.is_some() {
        return Err(StoreError::WebSessionOnly(info.base_url));
    }
    let username = match entry.username {
        Some(u) => u,
        None => return Err(StoreError::MissingUsername(info.base_url)),
    };
    let password = match entry.password {
        Some(p) => p,
        None => return Err(StoreError::MissingPassword(info.base_url)),
    };
    Ok(Some(UiCreds { base_url: info.base_url, username, password, updated_utc: entry.updated_utc }))
}

/// After a password login is stored (and the store cleaned for writing),
/// looking the base URL up gives back that username and password, and the
/// cookie jar the replaced entry had.
pub proof fn lemma_set_ui_creds_then_get(
    m: Map<Seq<char>, EntryView>,
    normalized: Seq<char>,
    host_key: Seq<char>,
    username: Seq<char>,
    password: Seq<char>,
    now: Seq<char>,
)
    requires
        trim(username).len() > 0,
        trim(password).len() > 0,
    ensures
        ({
            let e = spec_creds_entry(normalized, username, password, now, spec_kept_jar(m, normalized, host_key));
            let after = auth_only(m.remove(host_key).remove(normalized).insert(host_key, e));
            &&& spec_find_store_entry(after, normalized, host_key) == Some(e)
            &&& spec_ui_creds(normalized, Some(e)) == Ok::<Option<UiCredsView>, StoreErrorView>(
                Some(UiCredsView { base_url: normalized, username, password, updated_utc: Some(now) }),
            )
        }),
{
    let e = spec_creds_entry(normalized, username, password, now, spec_kept_jar(m, normalized, host_key));
    assert(spec_entry_has_auth(e));
}

/// Saving a session's cookies on a login that can log in (a non-blank
/// username and password, or a browser session holding at least one cookie)
/// keeps that login: afterwards the host key holds it with the saved jar and
/// the normalized base URL, every other field as it was; the entry under the
/// base URL itself (where it differs) is gone and all other entries stay.
pub proof fn lemma_save_cookie_jar_keeps_live_login(
    m: Map<Seq<char>, EntryView>,
    normalized: Seq<char>,
    host_key: Seq<char>,
    jar: CookieJarView,
)
    requires
        m.dom().contains(host_key) || m.dom().contains(normalized),
        ({
            let e = if m.dom().contains(host_key) {
                m[host_key]
            } else {
                m[normalized]
            };
            ||| has_text(e.username) && has_text(e.password)
            ||| e.auth_method == Some(web_cookie_method()) && (e.cookie_jar matches Some(j) && j.cookies.len() > 0)
        }),
    ensures
        ({
            let e = if m.dom().contains(host_key) {
                m[host_key]
            } else {
                m[normalized]
            };
            let (after, changed) = spec_set_jar(m, normalized, host_key, Some(jar));
            &&& changed
            &&& after.dom().contains(host_key)
            &&& after[host_key] == EntryView { base_url: Some(normalized), cookie_jar: Some(jar), ..e }
            &&& normalized != host_key ==> !after.dom().contains(normalized)
            &&& forall|k: Seq<char>|
                k != host_key && k != normalized ==> (#[trigger] after.dom().contains(k) <==> m.dom().contains(k))
                    && (m.dom().contains(k) ==> after[k] == m[k])
        }),
{
}

/// Saving cookies on a login that cannot log in (no complete credentials
/// and no browser session with a cookie) drops that login under both keys,
/// reports a change, and leaves every other entry as it was.
pub proof fn lemma_save_cookie_jar_drops_dead_login(
    m: Map<Seq<char>, EntryView>,
    normalized: Seq<char>,
    host_key: Seq<char>,
    jar: CookieJarView,
)
    requires
        m.dom().contains(host_key) || m.dom().contains(normalized),
        ({
            let e = if m.dom().contains(host_key) {
                m[host_key]
            } else {
                m[normalized]
            };
            &&& !(has_text(e.username) && has_text(e.password))
            &&& !(e.auth_method == Some(web_cookie_method()) && (e.cookie_jar matches Some(j) && j.cookies.len() > 0))
        }),
    ensures
        ({
            let (after, changed) = spec_set_jar(m, normalized, host_key, Some(jar));
            &&& changed
            &&& !after.dom().contains(host_key)
            &&& !after.dom().contains(normalized)
            &&& forall|k: Seq<char>|
                k != host_key && k != normalized ==> (#[trigger] after.dom().contains(k) <==> m.dom().contains(k))
                    && (m.dom().contains(k) ==> after[k] == m[k])
        }),
{
}

/// Clearing the cookies of a login keeps its credentials: the entry stays,
/// with the same username and password and no cookie jar.
pub proof fn lemma_clear_cookie_jar_keeps_creds(
    m: Map<Seq<char>, EntryView>,
    normalized: Seq<char>,
    host_key: Seq<char>,
)
    requires
        m.dom().contains(host_key),
        spec_has_complete_creds(m[host_key]),
    ensures
        ({
            let after = spec_set_jar(m, normalized, host_key, None).0;
            &&& after.dom().contains(host_key)
            &&& after[host_key].username == m[host_key].username
            &&& after[host_key].password == m[host_key].password
            &&& after[host_key].cookie_jar is None
            &&& spec_set_jar(m, normalized, host_key, None).1
        }),
{
}

/// A browser session is stored without a password: reading credentials
/// back fails with `WebSessionOnly`.
pub proof fn lemma_web_session_has_no_creds(
    m: Map<Seq<char>, EntryView>,
    normalized: Seq<char>,
    host_key: Seq<char>,
    jar: CookieJarView,
    now: Seq<char>,
)
    requires
        jar.cookies.len() > 0,
    ensures
        ({
            let e = spec_web_entry(normalized, jar, now);
            let after = auth_only(m.remove(host_key).remove(normalized).insert(host_key, e));
            &&& spec_find_store_entry(after, normalized, host_key) == Some(e)
            &&& spec_ui_creds(normalized, Some(e)) == Err::<Option<UiCredsView>, StoreErrorView>(
                StoreErrorView::WebSessionOnly(normalized),
            )
        }),
{
    let e = spec_web_entry(normalized, jar, now);
    assert(spec_entry_has_auth(e));
}

/// After a logout nothing is found for the base URL.
pub proof fn lemma_delete_then_find(m: Map<Seq<char>, EntryView>, normalized: Seq<char>, host_key: Seq<char>)
    ensures
        spec_find_store_entry(m.remove(host_key).remove(normalized), normalized, host_key) is None,
{
}

/// Saving cookies never creates an entry: without one, nothing changes.
pub proof fn lemma_save_cookie_jar_needs_entry(
    m: Map<Seq<char>, EntryView>,
    normalized: Seq<char>,
    host_key: Seq<char>,
    jar: Option<CookieJarView>,
)
    requires
        !m.dom().contains(host_key),
        !m.dom().contains(normalized),
    ensures
        spec_set_jar(m, normalized, host_key, jar) == (m, false),
{
    assert(m.remove(host_key).remove(normalized) =~= m);
}

/// Every entry that survives the clean-up before a write can log in.
pub proof fn lemma_written_entries_have_auth(m: Map<Seq<char>, EntryView>, k: Seq<char>)
    requires
        auth_only(m).dom().contains(k),
    ensures
        spec_entry_has_auth(auth_only(m)[k]),
{
}

} // verus!
