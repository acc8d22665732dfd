//! Stored credentials: cookie jars, store entries and the credential store
//! itself, a map from host key to entry kept in key order.
use vstd::prelude::*;
use crate::text::{
    compare_chars, chars_of, lemma_seq_lt_irreflexive, lemma_seq_lt_transitive, seq_lt, trim,
};
use crate::urls::opt_view;

verus! {

/// The `authMethod` of an entry that holds only a browser session.
pub open spec fn web_cookie_method() -> Seq<char> {
    "web-cookie"@
}

/// One cookie of a saved session.
#[derive(Clone, Debug)]
pub struct CookieRecord {
    pub name: String,
    pub value: String,
    pub domain: String,
    pub host_only: bool,
    pub path: String,
    pub expires_utc: Option<String>,
    pub secure: bool,
    pub http_only: bool,
    pub same_site: Option<String>,
}

pub struct CookieRecordView {
    pub name: Seq<char>,
    pub value: Seq<char>,
    pub domain: Seq<char>,
    pub host_only: bool,
    pub path: Seq<char>,
    pub expires_utc: Option<Seq<char>>,
    pub secure: bool,
    pub http_only: bool,
    pub same_site: Option<Seq<char>>,
}

impl View for CookieRecord {
    type V = CookieRecordView;

    open spec fn view(&self) -> CookieRecordView {
        CookieRecordView {
            name: self.name@,
            value: self.value@,
            domain: self.domain@,
            host_only: self.host_only,
            path: self.path@,
            expires_utc: opt_view(self.expires_utc),
            secure: self.secure,
            http_only: self.http_only,
            same_site: opt_view(self.same_site),
        }
    }
}

fn copy_text(o: &Option<String>) -> (r: Option<String>)
    ensures
        opt_view(r) == opt_view(*o),
{
    match o {
        Some(s) => Some(s.clone()),
        None => None,
    }
}

impl CookieRecord {
    /// A copy of the cookie.
    pub fn duplicate(&self) -> (r: CookieRecord)
        ensures
            r@ == self@,
    {
        CookieRecord {
            name: self.name.clone(),
            value: self.value.clone(),
            domain: self.domain.clone(),
            host_only: self.host_only,
            path: self.path.clone(),
            expires_utc: copy_text(&self.expires_utc),
            secure: self.secure,
            http_only: self.http_only,
            same_site: copy_text(&self.same_site),
        }
    }
}

/// The path a cookie gets when the stored record has none.
pub fn default_cookie_path() -> (r: String)
    ensures
        r@ == "/"@,
{
    String::from_str("/")
}

/// A saved browser session.
#[derive(Clone, Debug)]
pub struct CookieJar {
    pub saved_utc: Option<String>,
    pub cookies: Vec<CookieRecord>,
}

pub struct CookieJarView {
    pub saved_utc: Option<Seq<char>>,
    pub cookies: Seq<CookieRecordView>,
}

impl View for CookieJar {
    type V = CookieJarView;

    open spec fn view(&self) -> CookieJarView {
        CookieJarView {
            saved_utc: opt_view(self.saved_utc),
            cookies: self.cookies@.map_values(|c: CookieRecord| c@),
        }
    }
}

impl CookieJar {
    /// A copy of the jar.
    pub fn duplicate(&self) -> (r: CookieJar)
        ensures
            r@ == self@,
    {
        let mut cookies: Vec<CookieRecord> = Vec::new();
        let mut i: usize = 0;
        while i < self.cookies.len()
            invariant
                i <= self.cookies.len(),
                cookies@.map_values(|c: CookieRecord| c@) == self.cookies@.subrange(0, i as int).map_values(|c: CookieRecord| c@),
            decreases self.cookies.len() - i,
        {
            let c = self.cookies[i].duplicate();
            cookies.push(c);
            proof {
                assert(self.cookies@.subrange(0, i + 1).map_values(|c: CookieRecord| c@)
                    =~= self.cookies@.subrange(0, i as int).map_values(|c: CookieRecord| c@).push(self.cookies@[i as int]@));
                assert(cookies@.map_values(|c: CookieRecord| c@)
                    =~= self.cookies@.subrange(0, i + 1).map_values(|c: CookieRecord| c@));
            }
            i += 1;
        }
        assert(self.cookies@.subrange(0, i as int) =~= self.cookies@);
        CookieJar { saved_utc: copy_text(&self.saved_utc), cookies }
    }
}

fn copy_jar(o: &Option<CookieJar>) -> (r: Option<CookieJar>)
    ensures
        opt_jar_view(r) == opt_jar_view(*o),
{
    match o {
        Some(j) => Some(j.duplicate()),
        None => None,
    }
}

pub open spec fn opt_jar_view(o: Option<CookieJar>) -> Option<CookieJarView> {
    match o {
        Some(j) => Some(j@),
        None => None,
    }
}

/// A stored login. `extra` keeps, as JSON text, the fields the store does
/// not know, so that they survive the next write.
#[derive(Clone, Debug)]
pub struct StoreEntry {
    pub base_url: Option<String>,
    pub username: Option<String>,
    pub password: Option<String>,
    pub user_pass: Option<String>,
    pub auth_method: Option<String>,
    pub updated_utc: Option<String>,
    pub cookie_jar: Option<CookieJar>,
    pub extra: Vec<(String, String)>,
}

pub struct EntryView {
    pub base_url: Option<Seq<char>>,
    pub username: Option<Seq<char>>,
    pub password: Option<Seq<char>>,
    pub user_pass: Option<Seq<char>>,
    pub auth_method: Option<Seq<char>>,
    pub updated_utc: Option<Seq<char>>,
    pub cookie_jar: Option<CookieJarView>,
    pub extra: Seq<(Seq<char>, Seq<char>)>,
}

impl View for StoreEntry {
    type V = EntryView;

    open spec fn view(&self) -> EntryView {
        EntryView {
            base_url: opt_view(self.base_url),
            username: opt_view(self.username),
            password: opt_view(self.password),
            user_pass: opt_view(self.user_pass),
            auth_method: opt_view(self.auth_method),
            updated_utc: opt_view(self.updated_utc),
            cookie_jar: opt_jar_view(self.cookie_jar),
            extra: self.extra@.map_values(|p: (String, String)| (p.0@, p.1@)),
        }
    }
}

impl StoreEntry {
    /// A copy of the entry.
    pub fn duplicate(&self) -> (r: StoreEntry)
        ensures
            r@ == self@,
    {
        let mut extra: Vec<(String, String)> = Vec::new();
        let mut i: usize = 0;
        while i < self.extra.len()
            invariant
                i <= self.extra.len(),
                extra@.map_values(|p: (String, String)| (p.0@, p.1@)) == self.extra@.subrange(0, i as int).map_values(|p: (String, String)| (p.0@, p.1@)),
            decreases self.extra.len() - i,
        {
            let k = self.extra[i].0.clone();
            let v = self.extra[i].1.clone();
            extra.push((k, v));
            proof {
                assert(self.extra@.subrange(0, i + 1).map_values(|p: (String, String)| (p.0@, p.1@))
                    =~= self.extra@.subrange(0, i as int).map_values(|p: (String, String)| (p.0@, p.1@)).push((self.extra@[i as int].0@, self.extra@[i as int].1@)));
                assert(extra@.map_values(|p: (String, String)| (p.0@, p.1@))
                    =~= self.extra@.subrange(0, i + 1).map_values(|p: (String, String)| (p.0@, p.1@)));
            }
            i += 1;
        }
        assert(self.extra@.subrange(0, i as int) =~= self.extra@);
        StoreEntry {
            base_url: copy_text(&self.base_url),
            username: copy_text(&self.username),
            password: copy_text(&self.password),
            user_pass: copy_text(&self.user_pass),
            auth_method: copy_text(&self.auth_method),
            updated_utc: copy_text(&self.updated_utc),
            cookie_jar: copy_jar(&self.cookie_jar),
            extra,
        }
    }
}

pub open spec fn opt_entry_view(o: Option<StoreEntry>) -> Option<EntryView> {
    match o {
        Some(e) => Some(e@),
        None => None,
    }
}

/// A text that is present and not blank.
pub open spec fn has_text(o: Option<Seq<char>>) -> bool {
    match o {
        Some(s) => trim(s).len() > 0,
        None => false,
    }
}

/// An entry with a non-blank username and password.
pub open spec fn spec_has_complete_creds(e: EntryView) -> bool {
    has_text(e.username) && has_text(e.password)
}

/// An entry that can log in: complete credentials, or a browser session
/// with at least one cookie.
pub open spec fn spec_entry_has_auth(e: EntryView) -> bool {
    spec_has_complete_creds(e) || (e.auth_method == Some(web_cookie_method()) && match e.cookie_jar {
        Some(j) => j.cookies.len() > 0,
        None => false,
    })
}

fn text_present(o: &Option<String>) -> (b: bool)
    ensures
        b == has_text(opt_view(*o)),
{
    match o {
        Some(s) => !crate::text::is_blank(s.as_str()),
        None => false,
    }
}

/// Whether the entry has a non-blank username and password.
pub fn entry_has_complete_creds(entry: &StoreEntry) -> (b: bool)
    ensures
        b == spec_has_complete_creds(entry@),
{
    text_present(&entry.username) && text_present(&entry.password)
}

/// Whether the entry can log in.
pub fn entry_has_auth(entry: &StoreEntry) -> (b: bool)
    ensures
        b == spec_entry_has_auth(entry@),
{
    if entry_has_complete_creds(entry) {
        return true;
    }
    let web = match &entry.auth_method {
        Some(m) => {
            let mv = chars_of(m.as_str());
            crate::text::chars_are(mv.as_slice(), "web-cookie")
        },
        None => false,
    };
    if !web {
        return false;
    }
    match &entry.cookie_jar {
        Some(j) => j.cookies.len() > 0,
        None => false,
    }
}

/// The entries of a store, in key order.
pub open spec fn sorted_keys(s: Seq<(Seq<char>, EntryView)>) -> bool {
    forall|i: int, j: int| 0 <= i < j < s.len() ==> seq_lt(s[i].0, s[j].0)
}

pub open spec fn store_has(s: Seq<(Seq<char>, EntryView)>, k: Seq<char>) -> bool {
    exists|i: int| 0 <= i < s.len() && s[i].0 == k
}

/// The entry stored under `k`.
pub open spec fn store_get(s: Seq<(Seq<char>, EntryView)>, k: Seq<char>) -> Option<EntryView> {
    if store_has(s, k) {
        Some(s[choose|i: int| 0 <= i < s.len() && s[i].0 == k].1)
    } else {
        None
    }
}

/// The store as a map from key to entry.
pub open spec fn store_map(s: Seq<(Seq<char>, EntryView)>) -> Map<Seq<char>, EntryView> {
    Map::new(|k: Seq<char>| store_has(s, k), |k: Seq<char>| store_get(s, k).unwrap())
}

/// In a store in key order, the entry at `i` is the one stored under its key.
pub proof fn lemma_store_get_at(s: Seq<(Seq<char>, EntryView)>, i: int)
    requires
        sorted_keys(s),
        0 <= i < s.len(),
    ensures
        store_get(s, s[i].0) == Some(s[i].1),
        store_map(s).dom().contains(s[i].0),
        store_map(s)[s[i].0] == s[i].1,
{
    assert(store_has(s, s[i].0));
    let j = choose|j: int| 0 <= j < s.len() && s[j].0 == s[i].0;
    if j != i {
        if j < i {
            assert(seq_lt(s[j].0, s[i].0));
        } else {
            assert(seq_lt(s[i].0, s[j].0));
        }
        lemma_seq_lt_irreflexive(s[i].0);
    }
}

/// Putting an entry at its place in key order adds it to the map.
pub proof fn lemma_insert_at(s: Seq<(Seq<char>, EntryView)>, p: int, k: Seq<char>, e: EntryView)
    requires
        sorted_keys(s),
        0 <= p <= s.len(),
        forall|i: int| 0 <= i < p ==> seq_lt(#[trigger] s[i].0, k),
        p < s.len() ==> seq_lt(k, s[p].0),
    ensures
        sorted_keys(s.insert(p, (k, e))),
        store_map(s.insert(p, (k, e))) == store_map(s).insert(k, e),
{
    let t = s.insert(p, (k, e));
    assert forall|i: int, j: int| 0 <= i < j < t.len() implies seq_lt(t[i].0, t[j].0) by {
        if j < p {
            assert(t[i] == s[i] && t[j] == s[j]);
        } else if j == p {
            assert(t[i] == s[i]);
        } else if i < p {
            assert(t[i] == s[i] && t[j] == s[j - 1]);
            assert(seq_lt(s[i].0, k));
            assert(seq_lt(k, s[p].0));
            lemma_seq_lt_transitive(s[i].0, k, s[p].0);
            if j - 1 > p {
                lemma_seq_lt_transitive(s[i].0, s[p].0, s[j - 1].0);
            }
        } else if i == p {
            assert(t[j] == s[j - 1]);
            if j - 1 > p {
                lemma_seq_lt_transitive(k, s[p].0, s[j - 1].0);
            }
        } else {
            assert(t[i] == s[i - 1] && t[j] == s[j - 1]);
        }
    }
    assert forall|q: Seq<char>| #[trigger] store_has(t, q) <==> q == k || store_has(s, q) by {
        if store_has(t, q) && q != k {
            let j = choose|j: int| 0 <= j < t.len() && t[j].0 == q;
            if j < p {
                assert(s[j].0 == q);
            } else {
                assert(s[j - 1].0 == q);
            }
        }
        if q == k {
            assert(t[p].0 == k);
        } else if store_has(s, q) {
            let i = choose|i: int| 0 <= i < s.len() && s[i].0 == q;
            if i < p {
                assert(t[i].0 == q);
            } else {
                assert(t[i + 1].0 == q);
            }
        }
    }
    assert forall|q: Seq<char>| #[trigger] store_has(t, q) implies store_get(t, q) == (if q == k {
        Some(e)
    } else {
        store_get(s, q)
    }) by {
        if q == k {
            lemma_store_get_at(t, p);
        } else {
            let i = choose|i: int| 0 <= i < s.len() && s[i].0 == q;
            lemma_store_get_at(s, i);
            if i < p {
                lemma_store_get_at(t, i);
            } else {
                lemma_store_get_at(t, i + 1);
            }
        }
    }
    assert(store_map(t) =~= store_map(s).insert(k, e));
}

/// Replacing the entry under its own key updates the map.
pub proof fn lemma_replace_at(s: Seq<(Seq<char>, EntryView)>, p: int, e: EntryView)
    requires
        sorted_keys(s),
        0 <= p < s.len(),
    ensures
        sorted_keys(s.update(p, (s[p].0, e))),
        store_map(s.update(p, (s[p].0, e))) == store_map(s).insert(s[p].0, e),
{
    let k = s[p].0;
    let t = s.update(p, (k, e));
    assert forall|i: int, j: int| 0 <= i < j < t.len() implies seq_lt(t[i].0, t[j].0) by {
        assert(t[i].0 == s[i].0 && t[j].0 == s[j].0);
    }
    assert forall|q: Seq<char>| #[trigger] store_has(t, q) <==> store_has(s, q) by {
        if store_has(t, q) {
            let j = choose|j: int| 0 <= j < t.len() && t[j].0 == q;
            assert(s[j].0 == q);
        }
        if store_has(s, q) {
            let j = choose|j: int| 0 <= j < s.len() && s[j].0 == q;
            assert(t[j].0 == q);
        }
    }
    assert forall|q: Seq<char>| #[trigger] store_has(t, q) implies store_get(t, q) == (if q == k {
        Some(e)
    } else {
        store_get(s, q)
    }) by {
        let i = choose|i: int| 0 <= i < s.len() && s[i].0 == q;
        lemma_store_get_at(s, i);
        lemma_store_get_at(t, i);
        if i != p {
            assert(t[i] == s[i]);
            if i < p {
                assert(seq_lt(s[i].0, s[p].0));
            } else {
                assert(seq_lt(s[p].0, s[i].0));
            }
            lemma_seq_lt_irreflexive(q);
        }
    }
    assert(store_map(t) =~= store_map(s).insert(k, e));
}

/// Removing the entry at `p` removes its key from the map.
pub proof fn lemma_remove_at(s: Seq<(Seq<char>, EntryView)>, p: int)
    requires
        sorted_keys(s),
        0 <= p < s.len(),
    ensures
        sorted_keys(s.remove(p)),
        store_map(s.remove(p)) == store_map(s).remove(s[p].0),
        store_get(s, s[p].0) == Some(s[p].1),
{
    let k = s[p].0;
    let t = s.remove(p);
    lemma_store_get_at(s, p);
    assert forall|i: int, j: int| 0 <= i < j < t.len() implies seq_lt(t[i].0, t[j].0) by {
        if j < p {
            assert(t[i] == s[i] && t[j] == s[j]);
        } else if i < p {
            assert(t[i] == s[i] && t[j] == s[j + 1]);
        } else {
            assert(t[i] == s[i + 1] && t[j] == s[j + 1]);
        }
    }
    assert forall|q: Seq<char>| #[trigger] store_has(t, q) <==> q != k && store_has(s, q) by {
        if store_has(t, q) {
            let j = choose|j: int| 0 <= j < t.len() && t[j].0 == q;
            if j < p {
                assert(s[j].0 == q);
                assert(seq_lt(s[j].0, k));
            } else {
                assert(s[j + 1].0 == q);
                assert(seq_lt(k, s[j + 1].0));
            }
            lemma_seq_lt_irreflexive(q);
        }
        if q != k && store_has(s, q) {
            let i = choose|i: int| 0 <= i < s.len() && s[i].0 == q;
            if i < p {
                assert(t[i].0 == q);
            } else {
                assert(i != p);
                assert(t[i - 1].0 == q);
            }
        }
    }
    assert forall|q: Seq<char>| #[trigger] store_has(t, q) implies store_get(t, q) == store_get(s, q) by {
        let i = choose|i: int| 0 <= i < s.len() && s[i].0 == q;
        lemma_store_get_at(s, i);
        if i < p {
            lemma_store_get_at(t, i);
        } else {
            lemma_store_get_at(t, i - 1);
        }
    }
    assert(store_map(t) =~= store_map(s).remove(k));
}

/// The entries that can log in.
pub open spec fn filter_auth(s: Seq<(Seq<char>, EntryView)>) -> Seq<(Seq<char>, EntryView)>
    decreases s.len(),
{
    if s.len() == 0 {
        s
    } else if spec_entry_has_auth(s.last().1) {
        filter_auth(s.drop_last()).push(s.last())
    } else {
        filter_auth(s.drop_last())
    }
}

/// The part of a map whose entries can log in.
pub open spec fn auth_only(m: Map<Seq<char>, EntryView>) -> Map<Seq<char>, EntryView> {
    Map::new(|k: Seq<char>| m.dom().contains(k) && spec_entry_has_auth(m[k]), |k: Seq<char>| m[k])
}

pub proof fn lemma_filter_auth(s: Seq<(Seq<char>, EntryView)>)
    requires
        sorted_keys(s),
    ensures
        forall|i: int| 0 <= i < filter_auth(s).len() ==> exists|j: int| 0 <= j < s.len() && #[trigger] filter_auth(s)[i] == s[j],
        sorted_keys(filter_auth(s)),
        store_map(filter_auth(s)) == auth_only(store_map(s)),
        filter_auth(s).len() <= s.len(),
    decreases s.len(),
{
    if s.len() == 0 {
        assert(store_map(s) =~= Map::<Seq<char>, EntryView>::empty());
        assert(auth_only(store_map(s)) =~= Map::<Seq<char>, EntryView>::empty());
    } else {
        let s0 = s.drop_last();
        let x = s.last();
        let n = s0.len() as int;
        assert(sorted_keys(s0)) by {
            assert forall|i: int, j: int| 0 <= i < j < s0.len() implies seq_lt(s0[i].0, s0[j].0) by {
                assert(s0[i] == s[i] && s0[j] == s[j]);
            }
        }
        lemma_filter_auth(s0);
        let f0 = filter_auth(s0);
        assert forall|i: int| 0 <= i < s0.len() implies seq_lt(#[trigger] s0[i].0, x.0) by {
            assert(s0[i] == s[i]);
        }
        assert(s =~= s0.insert(n, x));
        lemma_insert_at(s0, n, x.0, x.1);
        assert(!store_map(s0).dom().contains(x.0)) by {
            if store_has(s0, x.0) {
                let j = choose|j: int| 0 <= j < s0.len() && s0[j].0 == x.0;
                assert(seq_lt(s0[j].0, x.0));
                lemma_seq_lt_irreflexive(x.0);
            }
        }
        if spec_entry_has_auth(x.1) {
            assert forall|i: int| 0 <= i < f0.len() implies seq_lt(#[trigger] f0[i].0, x.0) by {
                let j = choose|j: int| 0 <= j < s0.len() && f0[i] == s0[j];
                assert(seq_lt(s0[j].0, x.0));
            }
            lemma_insert_at(f0, f0.len() as int, x.0, x.1);
            assert(f0.push(x) =~= f0.insert(f0.len() as int, x));
            assert forall|i: int| 0 <= i < filter_auth(s).len() implies exists|j: int| 0 <= j < s.len() && #[trigger] filter_auth(s)[i] == s[j] by {
                if i < f0.len() {
                    let j = choose|j: int| 0 <= j < s0.len() && f0[i] == s0[j];
                    assert(filter_auth(s)[i] == s[j]);
                } else {
                    assert(filter_auth(s)[i] == s[n]);
                }
            }
            assert(auth_only(store_map(s0).insert(x.0, x.1)) =~= auth_only(store_map(s0)).insert(x.0, x.1));
        } else {
            assert forall|i: int| 0 <= i < filter_auth(s).len() implies exists|j: int| 0 <= j < s.len() && #[trigger] filter_auth(s)[i] == s[j] by {
                let j = choose|j: int| 0 <= j < s0.len() && f0[i] == s0[j];
                assert(filter_auth(s)[i] == s[j]);
            }
            assert(auth_only(store_map(s0).insert(x.0, x.1)) =~= auth_only(store_map(s0)));
        }
    }
}

/// The map that inserting the pairs in order builds.
pub open spec fn map_of_pairs(s: Seq<(Seq<char>, EntryView)>) -> Map<Seq<char>, EntryView>
    decreases s.len(),
{
    if s.len() == 0 {
        Map::empty()
    } else {
        map_of_pairs(s.drop_last()).insert(s.last().0, s.last().1)
    }
}

/// The two keys an entry may be stored under: the normalized base URL
/// (older stores) and the host key.
#[derive(Clone, Debug)]
pub struct StoreKey {
    pub normalized: String,
    pub host_key: String,
}

/// The entry found under the host key, else under the base URL, with the
/// base URL filled in when it has none.
pub open spec fn spec_find_store_entry(m: Map<Seq<char>, EntryView>, normalized: Seq<char>, host_key: Seq<char>) -> Option<EntryView> {
    let found = if m.dom().contains(host_key) {
        Some(m[host_key])
    } else if m.dom().contains(normalized) {
        Some(m[normalized])
    } else {
        None
    };
    match found {
        Some(e) => if e.base_url is None {
            Some(EntryView { base_url: Some(normalized), ..e })
        } else {
            Some(e)
        },
        None => None,
    }
}

/// The entry taken by `take_store_entry`: the one under the host key, else
/// the one under the base URL.
pub open spec fn spec_taken_entry(m: Map<Seq<char>, EntryView>, normalized: Seq<char>, host_key: Seq<char>) -> Option<EntryView> {
    if m.dom().contains(host_key) {
        Some(m[host_key])
    } else if m.dom().contains(normalized) {
        Some(m[normalized])
    } else {
        None
    }
}

/// `username:password`.
pub open spec fn user_pass(username: Seq<char>, password: Seq<char>) -> Seq<char> {
    username + seq![':'] + password
}

/// The entry that storing a password login writes.
pub open spec fn spec_creds_entry(
    normalized: Seq<char>,
    username: Seq<char>,
    password: Seq<char>,
    now: Seq<char>,
    jar: Option<CookieJarView>,
) -> EntryView {
    EntryView {
        base_url: Some(normalized),
        username: Some(username),
        password: Some(password),
        user_pass: Some(user_pass(username, password)),
        auth_method: None,
        updated_utc: Some(now),
        cookie_jar: jar,
        extra: Seq::empty(),
    }
}

/// The entry that storing a browser session writes.
pub open spec fn spec_web_entry(normalized: Seq<char>, jar: CookieJarView, now: Seq<char>) -> EntryView {
    EntryView {
        base_url: Some(normalized),
        username: None,
        password: None,
        user_pass: None,
        auth_method: Some(web_cookie_method()),
        updated_utc: Some(now),
        cookie_jar: Some(jar),
        extra: Seq::empty(),
    }
}

/// The cookie jar of the taken entry, if any.
pub open spec fn spec_kept_jar(m: Map<Seq<char>, EntryView>, normalized: Seq<char>, host_key: Seq<char>) -> Option<CookieJarView> {
    match spec_taken_entry(m, normalized, host_key) {
        Some(e) => e.cookie_jar,
        None => None,
    }
}

/// How replacing the cookie jar of an entry (`None` clears it) changes the
/// store, and whether it counts as a change.
pub open spec fn spec_set_jar(
    m: Map<Seq<char>, EntryView>,
    normalized: Seq<char>,
    host_key: Seq<char>,
    jar: Option<CookieJarView>,
) -> (Map<Seq<char>, EntryView>, bool) {
    let rest = m.remove(host_key).remove(normalized);
    match spec_taken_entry(m, normalized, host_key) {
        None => (rest, false),
        Some(e) => if !spec_entry_has_auth(e) {
            (rest, true)
        } else {
            (rest.insert(host_key, EntryView { base_url: Some(normalized), cookie_jar: jar, ..e }), true)
        },
    }
}

/// The credential store: host key to entry, kept in key order (the order
/// of a `BTreeMap<String, _>`).
#[derive(Debug)]
pub struct CredsStore {
    entries: Vec<(String, StoreEntry)>,
}

pub open spec fn pair_views(v: Seq<(String, StoreEntry)>) -> Seq<(Seq<char>, EntryView)> {
    v.map_values(|p: (String, StoreEntry)| (p.0@, p.1@))
}

impl CredsStore {
    /// The entries in key order.
    pub closed spec fn ordered(&self) -> Seq<(Seq<char>, EntryView)> {
        pair_views(self.entries@)
    }

    #[verifier::type_invariant]
    spec fn keys_in_order(&self) -> bool {
        sorted_keys(self.ordered())
    }
}

impl View for CredsStore {
    type V = Map<Seq<char>, EntryView>;

    open spec fn view(&self) -> Map<Seq<char>, EntryView> {
        store_map(self.ordered())
    }
}

impl CredsStore {
    /// The empty store.
    pub fn new() -> (r: CredsStore)
        ensures
            r@ == Map::<Seq<char>, EntryView>::empty(),
            r.ordered().len() == 0,
    {
        let r = CredsStore { entries: Vec::new() };
        assert(r@ =~= Map::<Seq<char>, EntryView>::empty());
        r
    }

    /// The number of entries.
    pub fn len(&self) -> (n: usize)
        ensures
            n == self.ordered().len(),
    {
        self.entries.len()
    }

    /// Whether the store holds no entry.
    pub fn is_empty(&self) -> (b: bool)
        ensures
            b == (self.ordered().len() == 0),
            b == (self@ == Map::<Seq<char>, EntryView>::empty()),
    {
        proof {
            use_type_invariant(self);
            let s = self.ordered();
            if s.len() == 0 {
                assert(self@ =~= Map::<Seq<char>, EntryView>::empty());
            } else {
                assert(self@.dom().contains(s[0].0));
            }
        }
        self.entries.len() == 0
    }

    /// A copy of the store.
    pub fn duplicate(&self) -> (r: CredsStore)
        ensures
            r.ordered() == self.ordered(),
            r@ == self@,
    {
        proof {
            use_type_invariant(self);
        }
        let mut v: Vec<(String, StoreEntry)> = Vec::new();
        let mut i: usize = 0;
        while i < self.entries.len()
            invariant
                i <= self.entries.len(),
                v@.len() == i,
                pair_views(v@) == pair_views(self.entries@).subrange(0, i as int),
            decreases self.entries.len() - i,
        {
            let k = self.entries[i].0.clone();
            let e = self.entries[i].1.duplicate();
            let ghost before = v@;
            v.push((k, e));
            assert forall|j: int| 0 <= j < v@.len() implies #[trigger] pair_views(v@)[j] == pair_views(self.entries@).subrange(0, i + 1)[j] by {
                if j < i {
                    assert(v@[j] == before[j]);
                    assert(pair_views(before)[j] == pair_views(self.entries@).subrange(0, i as int)[j]);
                } else {
                    assert(v@[j] == (k, e));
                }
            }
            assert(pair_views(v@) =~= pair_views(self.entries@).subrange(0, i + 1));
            i += 1;
        }
        assert(pair_views(self.entries@).subrange(0, i as int) =~= pair_views(self.entries@));
        CredsStore { entries: v }
    }

    /// The position where `key` is or would go, and whether it is there.
    fn position(&self, key: &[char]) -> (r: (usize, bool))
        ensures
            r.0 <= self.ordered().len(),
            forall|i: int| 0 <= i < r.0 ==> seq_lt(#[trigger] self.ordered()[i].0, key@),
            r.1 ==> r.0 < self.ordered().len() && self.ordered()[r.0 as int].0 == key@,
            !r.1 ==> r.0 < self.ordered().len() ==> seq_lt(key@, self.ordered()[r.0 as int].0),
    {
        let ghost s = self.ordered();
        let mut i: usize = 0;
        while i < self.entries.len()
            invariant
                s == self.ordered(),
                s == pair_views(self.entries@),
                i <= self.entries.len(),
                forall|k: int| 0 <= k < i ==> seq_lt(#[trigger] s[k].0, key@),
            decreases self.entries.len() - i,
        {
            let kv = chars_of(self.entries[i].0.as_str());
            assert(s[i as int].0 == self.entries@[i as int].0@);
            let c = compare_chars(kv.as_slice(), key);
            if c == 0 {
                return (i, true);
            }
            if c > 0 {
                return (i, false);
            }
            i += 1;
        }
        (i, false)
    }

    /// No entry after `p` sorts before the key that sorts before entry `p`.
    proof fn lemma_absent(&self, key: Seq<char>, p: int)
        requires
            sorted_keys(self.ordered()),
            0 <= p <= self.ordered().len(),
            forall|i: int| 0 <= i < p ==> seq_lt(#[trigger] self.ordered()[i].0, key),
            p < self.ordered().len() ==> seq_lt(key, self.ordered()[p].0),
        ensures
            !store_has(self.ordered(), key),
    {
        let s = self.ordered();
        if store_has(s, key) {
            let j = choose|j: int| 0 <= j < s.len() && s[j].0 == key;
            if j < p {
                assert(seq_lt(s[j].0, key));
                lemma_seq_lt_irreflexive(key);
            } else {
                if j > p {
                    assert(seq_lt(s[p].0, s[j].0));
                    lemma_seq_lt_transitive(key, s[p].0, s[j].0);
                }
                lemma_seq_lt_irreflexive(key);
            }
        }
    }

    /// Stores `entry` under `key`, replacing what was there.
    pub fn insert(&mut self, key: String, entry: StoreEntry)
        ensures
            final(self)@ == old(self)@.insert(key@, entry@),
    {
        proof {
            use_type_invariant(&*self);
        }
        let ghost s = self.ordered();
        let kv = chars_of(key.as_str());
        let (p, found) = self.position(kv.as_slice());
        let mut v: Vec<(String, StoreEntry)> = Vec::new();
        std::mem::swap(&mut v, &mut self.entries);
        assert(pair_views(v@) == s);
        let ghost k = key@;
        let ghost ev = entry@;
        if found {
            v.set(p, (key, entry));
            proof {
                lemma_replace_at(s, p as int, ev);
                assert(pair_views(v@) =~= s.update(p as int, (s[p as int].0, ev)));
            }
        } else {
            v.insert(p, (key, entry));
            proof {
                lemma_insert_at(s, p as int, k, ev);
                assert(pair_views(v@) =~= s.insert(p as int, (k, ev)));
            }
        }
        self.entries = v;
    }

    /// Removes and returns the entry stored under `key`.
    pub fn remove(&mut self, key: &str) -> (r: Option<StoreEntry>)
        ensures
            final(self)@ == old(self)@.remove(key@),
            match r {
                Some(e) => old(self)@.dom().contains(key@) && old(self)@[key@] == e@,
                None => !old(self)@.dom().contains(key@),
            },
    {
        proof {
            use_type_invariant(&*self);
        }
        let ghost s = self.ordered();
        let kv = chars_of(key);
        let (p, found) = self.position(kv.as_slice());
        if !found {
            proof {
                self.lemma_absent(key@, p as int);
                assert(self@.remove(key@) =~= self@);
            }
            return None;
        }
        let mut v: Vec<(String, StoreEntry)> = Vec::new();
        std::mem::swap(&mut v, &mut self.entries);
        assert(pair_views(v@) == s);
        let (_, e) = v.remove(p);
        proof {
            lemma_remove_at(s, p as int);
            lemma_store_get_at(s, p as int);
            assert(pair_views(v@) =~= s.remove(p as int));
        }
        self.entries = v;
        Some(e)
    }

    /// Drops the entries that cannot log in; returns how many were dropped.
    pub fn remove_entries_without_auth(&mut self) -> (removed: usize)
        ensures
            final(self)@ == auth_only(old(self)@),
            removed == old(self).ordered().len() - final(self).ordered().len(),
            final(self).ordered() == filter_auth(old(self).ordered()),
    {
        proof {
            use_type_invariant(&*self);
        }
        let ghost s = self.ordered();
        let before = self.entries.len();
        let mut v: Vec<(String, StoreEntry)> = Vec::new();
        std::mem::swap(&mut v, &mut self.entries);
        assert(s.subrange(0, s.len() as int) =~= s);
        assert(s.subrange(0, 0) =~= Seq::<(Seq<char>, EntryView)>::empty());
        let mut kept: Vec<(String, StoreEntry)> = Vec::new();
        let ghost mut c: int = 0;
        while v.len() > 0
            invariant
                before == s.len(),
                0 <= c <= s.len(),
                pair_views(v@) == s.subrange(c, s.len() as int),
                pair_views(kept@) == filter_auth(s.subrange(0, c)),
            decreases v.len(),
        {
            let ghost old_v = v@;
            assert(pair_views(old_v).len() == old_v.len());
            assert(c < s.len());
            let (k, e) = v.remove(0);
            proof {
                assert(v@ =~= old_v.subrange(1, old_v.len() as int));
                assert(pair_views(old_v)[0] == s[c]);
                assert((k@, e@) == s[c]);
                assert forall|i: int| 0 <= i < v@.len() implies #[trigger] pair_views(v@)[i] == s.subrange(c + 1, s.len() as int)[i] by {
                    assert(pair_views(old_v)[i + 1] == s.subrange(c, s.len() as int)[i + 1]);
                }
                assert(pair_views(v@) =~= s.subrange(c + 1, s.len() as int));
                assert(s.subrange(0, c + 1).drop_last() =~= s.subrange(0, c));
            }
            if entry_has_auth(&e) {
                kept.push((k, e));
                proof {
                    assert(pair_views(kept@) =~= filter_auth(s.subrange(0, c + 1)));
                }
            } else {
                proof {
                    assert(filter_auth(s.subrange(0, c + 1)) == filter_auth(s.subrange(0, c)));
                }
            }
            proof {
                c = c + 1;
            }
        }
        proof {
            assert(s.subrange(c, s.len() as int).len() == 0);
            assert(s.subrange(0, c) =~= s);
            lemma_filter_auth(s);
        }
        self.entries = kept;
        before - self.entries.len()
    }

    /// The entries in key order, as stored.
    pub fn entries(&self) -> (r: &Vec<(String, StoreEntry)>)
        ensures
            pair_views(r@) == self.ordered(),
            sorted_keys(self.ordered()),
    {
        proof {
            use_type_invariant(self);
        }
        &self.entries
    }

    /// The store holding the given entries; of two with the same key the
    /// later one stays.
    pub fn from_entries(entries: Vec<(String, StoreEntry)>) -> (r: CredsStore)
        ensures
            r@ == map_of_pairs(pair_views(entries@)),
    {
        let ghost all = pair_views(entries@);
        let mut r = CredsStore::new();
        let mut v = entries;
        let ghost mut c: int = 0;
        assert(all.subrange(0, 0) =~= Seq::<(Seq<char>, EntryView)>::empty());
        assert(all.subrange(0, all.len() as int) =~= all);
        while v.len() > 0
            invariant
                0 <= c <= all.len(),
                pair_views(v@) == all.subrange(c, all.len() as int),
                r@ == map_of_pairs(all.subrange(0, c)),
            decreases v.len(),
        {
            let ghost old_v = v@;
            assert(pair_views(old_v).len() == old_v.len());
            let (k, e) = v.remove(0);
            proof {
                assert(v@ =~= old_v.subrange(1, old_v.len() as int));
                assert(pair_views(old_v)[0] == all[c]);
                assert forall|i: int| 0 <= i < v@.len() implies #[trigger] pair_views(v@)[i] == all.subrange(c + 1, all.len() as int)[i] by {
                    assert(pair_views(old_v)[i + 1] == all.subrange(c, all.len() as int)[i + 1]);
                }
                assert(pair_views(v@) =~= all.subrange(c + 1, all.len() as int));
                assert(all.subrange(0, c + 1).drop_last() =~= all.subrange(0, c));
            }
            r.insert(k, e);
            proof {
                c = c + 1;
            }
        }
        assert(all.subrange(0, c) =~= all);
        r
    }

    /// The entry for a base URL (`find_store_entry`).
    pub fn find_store_entry(&self, key: &StoreKey) -> (r: Option<StoreEntry>)
        ensures
            opt_entry_view(r) == spec_find_store_entry(self@, key.normalized@, key.host_key@),
    {
        let found = match self.get(key.host_key.as_str()) {
            Some(e) => Some(e),
            None => self.get(key.normalized.as_str()),
        };
        match found {
            Some(e) => {
                let mut c = e.duplicate();
                if c.base_url.is_none() {
                    c.base_url = Some(key.normalized.clone());
                }
                Some(c)
            },
            None => None,
        }
    }

    /// Removes the entry for a base URL from both of its keys and returns it
    /// (`take_store_entry`).
    pub fn take_store_entry(&mut self, key: &StoreKey) -> (r: Option<StoreEntry>)
        ensures
            final(self)@ == old(self)@.remove(key.host_key@).remove(key.normalized@),
            opt_entry_view(r) == spec_taken_entry(old(self)@, key.normalized@, key.host_key@),
    {
        let entry = self.remove(key.host_key.as_str());
        let legacy = self.remove(key.normalized.as_str());
        match entry {
            Some(e) => Some(e),
            None => legacy,
        }
    }

    /// Stores a password login for a base URL, keeping the cookie jar of the
    /// entry it replaces; always a change.
    pub fn set_ui_creds(&mut self, key: &StoreKey, username: &str, password: &str, now: String) -> (changed: bool)
        ensures
            final(self)@ == old(self)@.remove(key.host_key@).remove(key.normalized@).insert(
                key.host_key@,
                spec_creds_entry(
                    key.normalized@,
                    username@,
                    password@,
                    now@,
                    spec_kept_jar(old(self)@, key.normalized@, key.host_key@),
                ),
            ),
            changed,
    {
        let jar = match self.take_store_entry(key) {
            Some(e) => e.cookie_jar,
            None => None,
        };
        let mut up = chars_of(username);
        up.push(':');
        crate::text::push_str_chars(&mut up, password);
        assert(up@ =~= user_pass(username@, password@));
        let entry = StoreEntry {
            base_url: Some(key.normalized.clone()),
            username: Some(String::from_str(username)),
            password: Some(String::from_str(password)),
            user_pass: Some(crate::text::string_of(up.as_slice())),
            auth_method: None,
            updated_utc: Some(now),
            cookie_jar: jar,
            extra: Vec::new(),
        };
        assert(entry@.extra =~= Seq::<(Seq<char>, Seq<char>)>::empty());
        self.insert(key.host_key.clone(), entry);
        true
    }

    /// Stores a browser session for a base URL, dropping the entry it
    /// replaces; always a change.
    pub fn set_web_cookie_jar(&mut self, key: &StoreKey, jar: CookieJar, now: String) -> (changed: bool)
        ensures
            final(self)@ == old(self)@.remove(key.host_key@).remove(key.normalized@).insert(
                key.host_key@,
                spec_web_entry(key.normalized@, jar@, now@),
            ),
            changed,
    {
        let _ = self.take_store_entry(key);
        let entry = StoreEntry {
            base_url: Some(key.normalized.clone()),
            username: None,
            password: None,
            user_pass: None,
            auth_method: Some(String::from_str("web-cookie")),
            updated_utc: Some(now),
            cookie_jar: Some(jar),
            extra: Vec::new(),
        };
        assert(entry@.extra =~= Seq::<(Seq<char>, Seq<char>)>::empty());
        self.insert(key.host_key.clone(), entry);
        true
    }

    /// Replaces the cookie jar of the entry for a base URL: an entry that
    /// cannot log in is dropped instead.
    fn set_jar(&mut self, key: &StoreKey, jar: Option<CookieJar>) -> (changed: bool)
        ensures
            (final(self)@, changed) == spec_set_jar(old(self)@, key.normalized@, key.host_key@, opt_jar_view(jar)),
    {
        let mut entry = match self.take_store_entry(key) {
            Some(e) => e,
            None => return false,
        };
        if !entry_has_auth(&entry) {
            return true;
        }
        entry.base_url = Some(key.normalized.clone());
        entry.cookie_jar = jar;
        self.insert(key.host_key.clone(), entry);
        true
    }

    /// Forgets the saved cookies of the entry for a base URL, keeping its
    /// credentials (`clear_cookie_jar`).
    pub fn clear_cookie_jar(&mut self, key: &StoreKey) -> (changed: bool)
        ensures
            (final(self)@, changed) == spec_set_jar(old(self)@, key.normalized@, key.host_key@, None),
    {
        self.set_jar(key, None)
    }

    /// Saves the session's cookies on the entry for a base URL
    /// (`save_cookie_jar`); nothing is saved where there is no entry.
    pub fn save_cookie_jar(&mut self, key: &StoreKey, jar: CookieJar) -> (changed: bool)
        ensures
            (final(self)@, changed) == spec_set_jar(old(self)@, key.normalized@, key.host_key@, Some(jar@)),
    {
        self.set_jar(key, Some(jar))
    }

    /// Removes the entry for a base URL and returns it, with whether that
    /// changed the store (`delete_store_entry`).
    pub fn delete_store_entry(&mut self, key: &StoreKey) -> (r: (Option<StoreEntry>, bool))
        ensures
            final(self)@ == old(self)@.remove(key.host_key@).remove(key.normalized@),
            opt_entry_view(r.0) == spec_taken_entry(old(self)@, key.normalized@, key.host_key@),
            r.1 == r.0 is Some,
    {
        let removed = self.take_store_entry(key);
        let changed = removed.is_some();
        (removed, changed)
    }

    /// After an update: drops the entries that cannot log in and says
    /// whether the store must be written (it changed, was repaired, or lost
    /// entries).
    pub fn finish_update(&mut self, changed: bool, repaired: bool) -> (write: bool)
        ensures
            final(self)@ == auth_only(old(self)@),
            write == (changed || repaired || final(self).ordered().len() < old(self).ordered().len()),
    {
        let removed = self.remove_entries_without_auth();
        changed || repaired || removed > 0
    }

    /// The entry stored under `key`.
    pub fn get(&self, key: &str) -> (r: Option<&StoreEntry>)
        ensures
            match r {
                Some(e) => self@.dom().contains(key@) && self@[key@] == e@,
                None => !self@.dom().contains(key@),
            },
    {
        proof {
            use_type_invariant(self);
        }
        let kv = chars_of(key);
        let (p, found) = self.position(kv.as_slice());
        if found {
            proof {
                lemma_store_get_at(self.ordered(), p as int);
                assert(self.ordered()[p as int].1 == self.entries@[p as int].1@);
            }
            Some(&self.entries[p].1)
        } else {
            proof {
                self.lemma_absent(key@, p as int);
            }
            None
        }
    }
}

} // verus!
