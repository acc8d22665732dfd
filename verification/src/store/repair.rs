//! Recovering the credentials from a store file that is not valid JSON,
//! with the patterns of the `regex` crate. Cookie jars are dropped.
use vstd::prelude::*;
use crate::clock::now_rfc3339;
use crate::store::creds::{user_pass, CredsStore, EntryView, StoreEntry};
use crate::target::{normalize_base_url, spec_normalize_base_url};
use crate::text::{chars_of, push_str_chars, slice_chars, string_of, trim};
use crate::urls::opt_view;

verus! {

/// Whether `regex::Regex::new` accepts a pattern.
pub uninterp spec fn regex_valid(pattern: Seq<char>) -> bool;

/// For each match of a pattern in a text, in order (`Regex::captures_iter`):
/// where the match starts (counted in characters) and the text of the named
/// group.
pub uninterp spec fn regex_captures_all(pattern: Seq<char>, haystack: Seq<char>, group: Seq<char>) -> Seq<(int, Option<Seq<char>>)>;

/// The text of the named group in the first match (`Regex::captures`).
pub uninterp spec fn regex_first_capture(pattern: Seq<char>, haystack: Seq<char>, group: Seq<char>) -> Option<Seq<char>>;

/// Compiles a pattern with `regex::Regex::new` and says whether it was
/// accepted (the contract names the answer).
#[verifier::external_body]
fn regex_compiles(pattern: &str) -> (r: bool)
    ensures
        r == regex_valid(pattern@),
{
    ::regex::Regex::new(pattern).is_ok()
}

/// The matches of a pattern, through `Regex::captures_iter`: each match's
/// start (its byte offset turned into a character count) and named group.
/// The contract names the result and states that every start lies within
/// the text.
#[verifier::external_body]
fn captures_all(pattern: &str, haystack: &str, group: &str) -> (r: Vec<(usize, Option<String>)>)
    requires
        regex_valid(pattern@),
    ensures
        r@.map_values(|p: (usize, Option<String>)| (p.0 as int, opt_view(p.1))) == regex_captures_all(pattern@, haystack@, group@),
        forall|i: int| 0 <= i < r@.len() ==> #[trigger] r@[i].0 <= haystack@.len(),
{
    let re = ::regex::Regex::new(pattern).unwrap();
    let mut out = Vec::new();
    for c in re.captures_iter(haystack) {
        let start = c.get(0).map_or(0, |m| m.start());
        out.push((haystack[..start].chars().count(), c.name(group).map(|m| m.as_str().to_string())));
    }
    out
}

/// The named group of the first match, through `Regex::captures`.
#[verifier::external_body]
fn first_capture(pattern: &str, haystack: &str, group: &str) -> (r: Option<String>)
    requires
        regex_valid(pattern@),
    ensures
        opt_view(r) == regex_first_capture(pattern@, haystack@, group@),
{
    let re = ::regex::Regex::new(pattern).unwrap();
    re.captures(haystack).and_then(|c| c.name(group).map(|m| m.as_str().to_string()))
}

pub open spec fn host_pattern() -> Seq<char> {
    "\"(?P<host>[^\"]+)\"\\s*:\\s*\\{"@
}

pub open spec fn user_pattern() -> Seq<char> {
    "\"username\"\\s*:\\s*\"(?P<u>[^\"]*)\""@
}

pub open spec fn pass_pattern() -> Seq<char> {
    "\"password\"\\s*:\\s*\"(?P<p>[^\"]*)\""@
}

pub open spec fn base_pattern() -> Seq<char> {
    "\"baseUrl\"\\s*:\\s*\"(?P<b>[^\"]+)\""@
}

pub open spec fn updated_pattern() -> Seq<char> {
    "\"updatedUtc\"\\s*:\\s*\"(?P<t>[^\"]+)\""@
}

/// The entry recovered from the captured fields of one host's object
/// (username, password, base URL, time stamp), if it has a username and a
/// password; without a base URL the host is normalized.
pub open spec fn spec_entry_from_fields(
    host: Seq<char>,
    u: Option<Seq<char>>,
    p: Option<Seq<char>>,
    b: Option<Seq<char>>,
    t: Option<Seq<char>>,
    now: Seq<char>,
    unix: bool,
) -> Option<EntryView> {
    match (u, p) {
        (Some(u), Some(p)) => Some(
            EntryView {
                base_url: match b {
                    Some(b) => Some(b),
                    None => match spec_normalize_base_url(host, unix) {
                        Ok(n) => Some(n),
                        Err(_) => None,
                    },
                },
                username: Some(u),
                password: Some(p),
                user_pass: Some(user_pass(u, p)),
                auth_method: None,
                updated_utc: match t {
                    Some(t) => Some(t),
                    None => Some(now),
                },
                cookie_jar: None,
                extra: Seq::empty(),
            },
        ),
        _ => None,
    }
}

/// The entry recovered from the text of one host's object.
pub open spec fn spec_repaired_entry(host: Seq<char>, slice: Seq<char>, now: Seq<char>, unix: bool) -> Option<EntryView> {
    spec_entry_from_fields(
        host,
        regex_first_capture(user_pattern(), slice, "u"@),
        regex_first_capture(pass_pattern(), slice, "p"@),
        regex_first_capture(base_pattern(), slice, "b"@),
        regex_first_capture(updated_pattern(), slice, "t"@),
        now,
        unix,
    )
}

pub open spec fn opt_entry(o: Option<StoreEntry>) -> Option<EntryView> {
    match o {
        Some(e) => Some(e@),
        None => None,
    }
}

/// The entry recovered from the captured fields of one host's object.
pub fn entry_from_fields(
    host: &str,
    u: Option<String>,
    p: Option<String>,
    b: Option<String>,
    t: Option<String>,
    now: &str,
    unix: bool,
) -> (r: Option<StoreEntry>)
    ensures
        opt_entry(r) == spec_entry_from_fields(host@, opt_view(u), opt_view(p), opt_view(b), opt_view(t), now@, unix),
{
    let (u, p) = match (u, p) {
        (Some(u), Some(p)) => (u, p),
        _ => return None,
    };
    let base_url = match b {
        Some(b) => Some(b),
        None => match normalize_base_url(host, unix) {
            Ok(n) => Some(n),
            Err(_) => None,
        },
    };
    let updated_utc = match t {
        Some(t) => Some(t),
        None => Some(String::from_str(now)),
    };
    let mut up = chars_of(u.as_str());
    up.push(':');
    push_str_chars(&mut up, p.as_str());
    assert(up@ =~= user_pass(u@, p@));
    let entry = StoreEntry {
        base_url,
        username: Some(u),
        password: Some(p),
        user_pass: Some(string_of(up.as_slice())),
        auth_method: None,
        updated_utc,
        cookie_jar: None,
        extra: Vec::new(),
    };
    assert(entry@.extra =~= Seq::<(Seq<char>, Seq<char>)>::empty());
    Some(entry)
}

/// The store recovered from the first `n` host objects of `raw`: each
/// `"host": {` starts one, which runs to the next one (or the end); later
/// hosts replace earlier ones of the same key.
pub open spec fn spec_repair_prefix(
    raw: Seq<char>,
    matches: Seq<(int, Option<Seq<char>>)>,
    n: int,
    now: Seq<char>,
    unix: bool,
) -> Map<Seq<char>, EntryView>
    decreases n,
{
    if n <= 0 {
        Map::empty()
    } else {
        let m = spec_repair_prefix(raw, matches, n - 1, now, unix);
        let i = n - 1;
        let start = matches[i].0;
        let end = if i + 1 < matches.len() {
            matches[i + 1].0
        } else {
            raw.len() as int
        };
        match matches[i].1 {
            None => m,
            Some(host) => if trim(host).len() == 0 || end <= start {
                m
            } else {
                match spec_repaired_entry(host, raw.subrange(start, end), now, unix) {
                    Some(e) => m.insert(host, e),
                    None => m,
                }
            },
        }
    }
}

/// The credentials recovered from an invalid store text, with `now` for
/// entries that have no time stamp. `None` when a pattern does not compile.
pub open spec fn spec_repair_creds_store(raw: Seq<char>, now: Seq<char>, unix: bool) -> Option<Map<Seq<char>, EntryView>> {
    if !(regex_valid(host_pattern()) && regex_valid(user_pattern()) && regex_valid(pass_pattern())
        && regex_valid(base_pattern()) && regex_valid(updated_pattern())) {
        None
    } else {
        let matches = regex_captures_all(host_pattern(), raw, "host"@);
        Some(spec_repair_prefix(raw, matches, matches.len() as int, now, unix))
    }
}

/// Every entry of a repaired prefix has a username and a password and no
/// cookie jar.
pub proof fn lemma_repair_prefix_keeps_creds_drops_jars(
    raw: Seq<char>,
    matches: Seq<(int, Option<Seq<char>>)>,
    n: int,
    now: Seq<char>,
    unix: bool,
    k: Seq<char>,
)
    requires
        spec_repair_prefix(raw, matches, n, now, unix).dom().contains(k),
    ensures
        spec_repair_prefix(raw, matches, n, now, unix)[k].cookie_jar is None,
        spec_repair_prefix(raw, matches, n, now, unix)[k].username is Some,
        spec_repair_prefix(raw, matches, n, now, unix)[k].password is Some,
    decreases n,
{
    if n > 0 {
        let m = spec_repair_prefix(raw, matches, n - 1, now, unix);
        if m.dom().contains(k) {
            lemma_repair_prefix_keeps_creds_drops_jars(raw, matches, n - 1, now, unix, k);
        }
    }
}

/// A repaired store keeps credentials and drops cookie jars: every entry
/// it recovers has a username and a password and no cookie jar.
pub proof fn lemma_repair_keeps_creds_drops_jars(raw: Seq<char>, now: Seq<char>, unix: bool, k: Seq<char>)
    requires
        spec_repair_creds_store(raw, now, unix) is Some,
        spec_repair_creds_store(raw, now, unix)->0.dom().contains(k),
    ensures
        spec_repair_creds_store(raw, now, unix)->0[k].cookie_jar is None,
        spec_repair_creds_store(raw, now, unix)->0[k].username is Some,
        spec_repair_creds_store(raw, now, unix)->0[k].password is Some,
{
    let matches = regex_captures_all(host_pattern(), raw, "host"@);
    lemma_repair_prefix_keeps_creds_drops_jars(raw, matches, matches.len() as int, now, unix, k);
}

/// A pattern of the repair was not accepted by the regex engine.
#[derive(Debug, Clone, Copy, PartialEq, Eq, Structural)]
pub enum RepairError {
    InvalidPattern,
}

fn capture_text(pattern: &str, haystack: &str, group: &str) -> (r: Option<String>)
    requires
        regex_valid(pattern@),
    ensures
        opt_view(r) == regex_first_capture(pattern@, haystack@, group@),
{
    first_capture(pattern, haystack, group)
}

/// Recovers the credentials of an invalid store text (`now` stamps the
/// entries without `updatedUtc`; `unix` says whether the platform has Unix
/// sockets, for the normalized base URLs).
pub fn repair_creds_store_at(raw: &str, now: &str, unix: bool) -> (r: Result<CredsStore, RepairError>)
    ensures
        match r {
            Ok(s) => spec_repair_creds_store(raw@, now@, unix) == Some(s@),
            Err(_) => spec_repair_creds_store(raw@, now@, unix) is None,
        },
{
    let host_re = "\"(?P<host>[^\"]+)\"\\s*:\\s*\\{";
    let user_re = "\"username\"\\s*:\\s*\"(?P<u>[^\"]*)\"";
    let pass_re = "\"password\"\\s*:\\s*\"(?P<p>[^\"]*)\"";
    let base_re = "\"baseUrl\"\\s*:\\s*\"(?P<b>[^\"]+)\"";
    let updated_re = "\"updatedUtc\"\\s*:\\s*\"(?P<t>[^\"]+)\"";
    if !(regex_compiles(host_re) && regex_compiles(user_re) && regex_compiles(pass_re)
        && regex_compiles(base_re) && regex_compiles(updated_re)) {
        return Err(RepairError::InvalidPattern);
    }
    let mut repaired = CredsStore::new();
    let matches = captures_all(host_re, raw, "host");
    let ghost ms = matches@.map_values(|p: (usize, Option<String>)| (p.0 as int, opt_view(p.1)));
    let rv = chars_of(raw);
    let mut i: usize = 0;
    assert(repaired@ =~= spec_repair_prefix(raw@, ms, 0, now@, unix));
    while i < matches.len()
        invariant
            regex_valid(user_pattern()) && regex_valid(pass_pattern()) && regex_valid(base_pattern())
                && regex_valid(updated_pattern()),
            ms == matches@.map_values(|p: (usize, Option<String>)| (p.0 as int, opt_view(p.1))),
            forall|k: int| 0 <= k < matches@.len() ==> #[trigger] matches@[k].0 <= raw@.len(),
            rv@ == raw@,
            user_re@ == user_pattern(),
            pass_re@ == pass_pattern(),
            base_re@ == base_pattern(),
            updated_re@ == updated_pattern(),
            i <= matches.len(),
            repaired@ == spec_repair_prefix(raw@, ms, i as int, now@, unix),
        decreases matches.len() - i,
    {
        let start = matches[i].0;
        let end = if i + 1 < matches.len() {
            matches[i + 1].0
        } else {
            rv.len()
        };
        assert(ms[i as int] == (matches@[i as int].0 as int, opt_view(matches@[i as int].1)));
        if i + 1 < matches.len() {
            assert(ms[i + 1].0 == matches@[i + 1].0 as int);
        }
        if let Some(host) = &matches[i].1 {
            if !crate::text::is_blank(host.as_str()) && start < end {
                let slice_v = slice_chars(rv.as_slice(), start, end);
                let slice = string_of(slice_v.as_slice());
                let u = capture_text(user_re, slice.as_str(), "u");
                let p = capture_text(pass_re, slice.as_str(), "p");
                let b = capture_text(base_re, slice.as_str(), "b");
                let t = capture_text(updated_re, slice.as_str(), "t");
                if let Some(entry) = entry_from_fields(host.as_str(), u, p, b, t, now, unix) {
                    repaired.insert(host.clone(), entry);
                }
            }
        }
        i += 1;
    }
    Ok(repaired)
}

/// Recovers the credentials of an invalid store text, dropping cookie jars
/// (`repair_creds_store_from_raw`); entries without `updatedUtc` get the
/// current time.
pub fn repair_creds_store_from_raw(raw: &str, unix: bool) -> (r: Result<CredsStore, RepairError>)
    ensures
        match r {
            Ok(s) => exists|now: Seq<char>| spec_repair_creds_store(raw@, now, unix) == Some(s@),
            Err(_) => forall|now: Seq<char>| spec_repair_creds_store(raw@, now, unix) is None,
        },
{
    let now = now_rfc3339();
    repair_creds_store_at(raw, now.as_str(), unix)
}

/// Repairs an invalid store text (`repair_invalid_store`): the recovered
/// store where it holds an entry, `None` where nothing was recovered (the
/// text then stays invalid).
pub fn repair_invalid_store_text(raw: &str, unix: bool) -> (r: Result<Option<CredsStore>, RepairError>)
    ensures
        match r {
            Ok(Some(s)) => s.ordered().len() > 0 && exists|now: Seq<char>| spec_repair_creds_store(raw@, now, unix) == Some(s@),
            Ok(None) => exists|now: Seq<char>| spec_repair_creds_store(raw@, now, unix) == Some(Map::<Seq<char>, EntryView>::empty()),
            Err(_) => forall|now: Seq<char>| spec_repair_creds_store(raw@, now, unix) is None,
        },
{
    let s = repair_creds_store_from_raw(raw, unix)?;
    if s.is_empty() {
        Ok(None)
    } else {
        Ok(Some(s))
    }
}

} // verus!
