//! Reading the `_csrf` token of a Forgejo form page.
use vstd::prelude::*;
use crate::text::{
    chars_of, find_char, first_index, lemma_first_index_bounds, slice_chars, string_of,
};

verus! {

/// Whether `pat` occurs in `s` at index `i`.
pub open spec fn occurs_at(s: Seq<char>, pat: Seq<char>, i: int) -> bool {
    0 <= i && i + pat.len() <= s.len() && s.subrange(i, i + pat.len()) == pat
}

/// The first index, from `i` on, where `pat` occurs in `s`, or -1.
pub open spec fn find_from(s: Seq<char>, pat: Seq<char>, i: int) -> int
    decreases s.len() + 1 - i,
{
    if i < 0 || i + pat.len() > s.len() {
        -1
    } else if occurs_at(s, pat, i) {
        i
    } else {
        find_from(s, pat, i + 1)
    }
}

/// The first index where `pat` occurs in `s`, or -1 (`str::find`).
pub open spec fn find_text(s: Seq<char>, pat: Seq<char>) -> int {
    find_from(s, pat, 0)
}

/// A found index lies in range and `pat` occurs there.
pub proof fn lemma_find_from_found(s: Seq<char>, pat: Seq<char>, i: int)
    ensures
        find_from(s, pat, i) >= 0 ==> i <= find_from(s, pat, i) && occurs_at(s, pat, find_from(s, pat, i)),
        find_from(s, pat, i) >= -1,
    decreases s.len() + 1 - i,
{
    if i < 0 || i + pat.len() > s.len() {
    } else if occurs_at(s, pat, i) {
    } else {
        lemma_find_from_found(s, pat, i + 1);
    }
}

/// Whether `pat` occurs in `v` at `i`.
fn occurs_at_chars(v: &[char], pat: &[char], i: usize) -> (b: bool)
    requires
        i + pat.len() <= v.len(),
    ensures
        b == occurs_at(v@, pat@, i as int),
{
    let mut j: usize = 0;
    while j < pat.len()
        invariant
            i + pat.len() <= v.len(),
            j <= pat.len(),
            v@.subrange(i as int, i + j) =~= pat@.subrange(0, j as int),
        decreases pat.len() - j,
    {
        if v[i + j] != pat[j] {
            proof {
                if occurs_at(v@, pat@, i as int) {
                    assert(v@.subrange(i as int, i + pat.len())[j as int] == pat@[j as int]);
                }
            }
            return false;
        }
        j += 1;
        assert(v@.subrange(i as int, i + j) =~= pat@.subrange(0, j as int));
    }
    assert(pat@.subrange(0, pat.len() as int) =~= pat@);
    true
}

/// Finds the first place where `pat` occurs in `v`.
pub fn find_text_chars(v: &[char], pat: &[char]) -> (r: Option<usize>)
    ensures
        match r {
            Some(k) => k == find_text(v@, pat@),
            None => find_text(v@, pat@) == -1,
        },
{
    if pat.len() > v.len() {
        return None;
    }
    let last = v.len() - pat.len();
    let mut i: usize = 0;
    loop
        invariant
            last == v.len() - pat.len(),
            i <= last,
            find_from(v@, pat@, 0) == find_from(v@, pat@, i as int),
        decreases last - i,
    {
        if occurs_at_chars(v, pat, i) {
            return Some(i);
        }
        if i == last {
            assert(find_from(v@, pat@, i + 1) == -1);
            return None;
        }
        i += 1;
    }
}

/// `name="_csrf" value="`: where a hidden form field holds the token.
pub open spec fn value_marker() -> Seq<char> {
    seq!['n', 'a', 'm', 'e', '=', '"', '_', 'c', 's', 'r', 'f', '"', ' ', 'v', 'a', 'l', 'u', 'e', '=', '"']
}

/// `name="_csrf" content="`: where a `<meta>` tag holds the token.
pub open spec fn content_marker() -> Seq<char> {
    seq![
        'n', 'a', 'm', 'e', '=', '"', '_', 'c', 's', 'r', 'f', '"', ' ', 'c', 'o', 'n', 't', 'e',
        'n', 't', '=', '"',
    ]
}

/// The token after the first `marker`: the text up to the next `"`, if
/// there is one and the text is not empty.
pub open spec fn token_after(html: Seq<char>, marker: Seq<char>) -> Option<Seq<char>> {
    let start = find_text(html, marker);
    if start < 0 {
        None
    } else {
        let rest = html.subrange(start + marker.len(), html.len() as int);
        let end = first_index(rest, '"');
        if end <= 0 {
            None
        } else {
            Some(rest.subrange(0, end))
        }
    }
}

/// The `_csrf` token of a page: after the first hidden field named
/// `_csrf`, else after the first `<meta name="_csrf">`.
pub open spec fn spec_csrf_from_html(html: Seq<char>) -> Option<Seq<char>> {
    match token_after(html, value_marker()) {
        Some(t) => Some(t),
        None => token_after(html, content_marker()),
    }
}

fn token_after_chars(html: &[char], marker: &[char]) -> (r: Option<String>)
    ensures
        match r {
            Some(t) => token_after(html@, marker@) == Some(t@),
            None => token_after(html@, marker@) is None,
        },
{
    match find_text_chars(html, marker) {
        None => None,
        Some(start) => {
            proof {
                lemma_find_from_found(html@, marker@, 0);
            }
            assert(start + marker.len() <= html.len());
            let rest = slice_chars(html, start + marker.len(), html.len());
            match find_char(rest.as_slice(), '"') {
                None => None,
                Some(end) => {
                    proof {
                        lemma_first_index_bounds(rest@, '"');
                    }
                    if end == 0 {
                        None
                    } else {
                        let token = slice_chars(rest.as_slice(), 0, end);
                        Some(string_of(token.as_slice()))
                    }
                },
            }
        },
    }
}

/// Reads the `_csrf` token of a Forgejo page (`get_csrf_from_login_html`).
pub fn get_csrf_from_login_html(html: &str) -> (r: Option<String>)
    ensures
        match r {
            Some(t) => spec_csrf_from_html(html@) == Some(t@),
            None => spec_csrf_from_html(html@) is None,
        },
{
    let v = chars_of(html);
    let value = chars_of("name=\"_csrf\" value=\"");
    let content = chars_of("name=\"_csrf\" content=\"");
    proof {
        reveal_strlit("name=\"_csrf\" value=\"");
        reveal_strlit("name=\"_csrf\" content=\"");
        assert(value@ =~= value_marker());
        assert(content@ =~= content_marker());
    }
    match token_after_chars(v.as_slice(), value.as_slice()) {
        Some(t) => Some(t),
        None => token_after_chars(v.as_slice(), content.as_slice()),
    }
}

} // verus!
