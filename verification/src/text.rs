//! Character-level helpers over `Seq<char>` with exact specifications.
use vstd::prelude::*;

verus! {

/// `String::push` appends one character.
pub assume_specification[ String::push ](s: &mut String, ch: char)
    ensures
        final(s)@ == old(s)@.push(ch),
;

/// Unicode `White_Space`, the set that `char::is_whitespace` and `str::trim` use.
pub open spec fn is_ws(c: char) -> bool {
    let u = c as u32;
    (0x09 <= u && u <= 0x0d) || u == 0x20 || u == 0x85 || u == 0xa0 || u == 0x1680 || (0x2000
        <= u && u <= 0x200a) || u == 0x2028 || u == 0x2029 || u == 0x202f || u == 0x205f || u
        == 0x3000
}

pub fn char_is_ws(c: char) -> (b: bool)
    ensures
        b == is_ws(c),
{
    let u = c as u32;
    (0x09 <= u && u <= 0x0d) || u == 0x20 || u == 0x85 || u == 0xa0 || u == 0x1680 || (0x2000
        <= u && u <= 0x200a) || u == 0x2028 || u == 0x2029 || u == 0x202f || u == 0x205f || u
        == 0x3000
}

/// Drops leading whitespace.
pub open spec fn trim_start(s: Seq<char>) -> Seq<char>
    decreases s.len(),
{
    if s.len() > 0 && is_ws(s[0]) {
        trim_start(s.drop_first())
    } else {
        s
    }
}

/// Drops trailing whitespace.
pub open spec fn trim_end(s: Seq<char>) -> Seq<char>
    decreases s.len(),
{
    if s.len() > 0 && is_ws(s.last()) {
        trim_end(s.drop_last())
    } else {
        s
    }
}

/// What `str::trim` returns.
pub open spec fn trim(s: Seq<char>) -> Seq<char> {
    trim_end(trim_start(s))
}

/// Copies the characters of a string slice.
pub fn chars_of(s: &str) -> (v: Vec<char>)
    ensures
        v@ == s@,
{
    let mut v: Vec<char> = Vec::new();
    let n = s.unicode_len();
    let mut i: usize = 0;
    while i < n
        invariant
            n == s@.len(),
            i <= n,
            v@ == s@.subrange(0, i as int),
        decreases n - i,
    {
        v.push(s.get_char(i));
        i += 1;
    }
    v
}

/// Builds a string from a run of characters.
pub fn string_of(v: &[char]) -> (s: String)
    ensures
        s@ == v@,
{
    let mut s = String::new();
    let mut i: usize = 0;
    while i < v.len()
        invariant
            i <= v.len(),
            s@ == v@.subrange(0, i as int),
        decreases v.len() - i,
    {
        s.push(v[i]);
        i += 1;
    }
    s
}


/// Index of the last occurrence of `c` in `s`, or -1.
pub open spec fn last_index(s: Seq<char>, c: char) -> int
    decreases s.len(),
{
    if s.len() == 0 {
        -1
    } else if s.last() == c {
        s.len() - 1
    } else {
        last_index(s.drop_last(), c)
    }
}

/// Index of the first occurrence of `c` in `s`, or -1.
pub open spec fn first_index(s: Seq<char>, c: char) -> int
    decreases s.len(),
{
    if s.len() == 0 {
        -1
    } else {
        let p = first_index(s.drop_last(), c);
        if p >= 0 {
            p
        } else if s.last() == c {
            s.len() - 1
        } else {
            -1
        }
    }
}

/// The text before the first `c` (all of `s` when there is none): what
/// `s.split(c).next()` yields.
pub open spec fn before_first(s: Seq<char>, c: char) -> Seq<char> {
    let k = first_index(s, c);
    if k < 0 {
        s
    } else {
        s.subrange(0, k)
    }
}

/// `s` ends with `suf`.
pub open spec fn ends_with(s: Seq<char>, suf: Seq<char>) -> bool {
    suf.len() <= s.len() && s.subrange(s.len() - suf.len(), s.len() as int) == suf
}

/// What `s.strip_suffix(suf).unwrap_or(s)` returns.
pub open spec fn strip_suffix(s: Seq<char>, suf: Seq<char>) -> Seq<char> {
    if ends_with(s, suf) {
        s.subrange(0, s.len() - suf.len())
    } else {
        s
    }
}

/// What `s.trim_start_matches(p)` returns: every leading copy of `p` removed.
pub open spec fn strip_all_prefix(s: Seq<char>, p: Seq<char>) -> Seq<char>
    decreases s.len(),
{
    if p.len() > 0 && p.is_prefix_of(s) {
        strip_all_prefix(s.subrange(p.len() as int, s.len() as int), p)
    } else {
        s
    }
}

/// `s` has no occurrence of `c`.
pub open spec fn lacks(s: Seq<char>, c: char) -> bool {
    forall|i: int| 0 <= i < s.len() ==> s[i] != c
}

pub proof fn lemma_last_index_bounds(s: Seq<char>, c: char)
    ensures
        -1 <= last_index(s, c) < s.len(),
        last_index(s, c) >= 0 ==> s[last_index(s, c)] == c,
        last_index(s, c) < 0 <==> lacks(s, c),
        forall|i: int| last_index(s, c) < i < s.len() ==> s[i] != c,
    decreases s.len(),
{
    if s.len() > 0 {
        lemma_last_index_bounds(s.drop_last(), c);
        assert forall|i: int| 0 <= i < s.len() - 1 implies s[i] == s.drop_last()[i] by {}
        if s.last() != c {
            assert(lacks(s.drop_last(), c) ==> lacks(s, c));
        }
    }
}

pub proof fn lemma_first_index_bounds(s: Seq<char>, c: char)
    ensures
        -1 <= first_index(s, c) < s.len(),
        first_index(s, c) >= 0 ==> s[first_index(s, c)] == c,
        first_index(s, c) < 0 <==> lacks(s, c),
        first_index(s, c) >= 0 ==> lacks(s.subrange(0, first_index(s, c)), c),
    decreases s.len(),
{
    if s.len() > 0 {
        lemma_first_index_bounds(s.drop_last(), c);
        assert forall|i: int| 0 <= i < s.len() - 1 implies s[i] == s.drop_last()[i] by {}
        let p = first_index(s.drop_last(), c);
        if p >= 0 {
            assert(s.subrange(0, p) =~= s.drop_last().subrange(0, p));
        } else if s.last() == c {
            assert(s.subrange(0, s.len() - 1) =~= s.drop_last());
        }
    }
}

/// `last_index` of a sequence split at a `c` that is followed by no other `c`.
pub proof fn lemma_last_index_join(a: Seq<char>, b: Seq<char>, c: char)
    requires
        lacks(b, c),
    ensures
        last_index(a + seq![c] + b, c) == a.len(),
    decreases b.len(),
{
    if b.len() == 0 {
        assert(a + seq![c] + b =~= a.push(c));
    } else {
        lemma_last_index_join(a, b.drop_last(), c);
        assert((a + seq![c] + b).drop_last() =~= a + seq![c] + b.drop_last());
    }
}

/// `first_index` when the sought character is absent from the front part.
pub proof fn lemma_first_index_join(a: Seq<char>, b: Seq<char>, c: char)
    requires
        lacks(a, c),
    ensures
        first_index(a + seq![c] + b, c) == a.len(),
    decreases b.len(),
{
    if b.len() == 0 {
        assert((a + seq![c] + b).drop_last() =~= a);
        lemma_first_index_bounds(a, c);
    } else {
        lemma_first_index_join(a, b.drop_last(), c);
        assert((a + seq![c] + b).drop_last() =~= a + seq![c] + b.drop_last());
    }
}

/// Finds the last `c` in `v`.
pub fn rfind_char(v: &[char], c: char) -> (r: Option<usize>)
    ensures
        match r {
            Some(k) => k == last_index(v@, c),
            None => last_index(v@, c) < 0,
        },
{
    let mut j: usize = v.len();
    assert(v@.subrange(0, j as int) =~= v@);
    while j > 0
        invariant
            j <= v.len(),
            last_index(v@, c) == last_index(v@.subrange(0, j as int), c),
        decreases j,
    {
        if v[j - 1] == c {
            proof {
                assert(v@.subrange(0, j as int).last() == c);
            }
            return Some(j - 1);
        }
        proof {
            assert(v@.subrange(0, j as int).drop_last() =~= v@.subrange(0, j - 1));
        }
        j -= 1;
    }
    proof {
        assert(v@.subrange(0, 0) =~= Seq::<char>::empty());
    }
    None
}

/// Finds the first `c` in `v`.
pub fn find_char(v: &[char], c: char) -> (r: Option<usize>)
    ensures
        match r {
            Some(k) => k == first_index(v@, c),
            None => first_index(v@, c) < 0,
        },
{
    let mut i: usize = 0;
    while i < v.len()
        invariant
            i <= v.len(),
            first_index(v@.subrange(0, i as int), c) < 0,
        decreases v.len() - i,
    {
        proof {
            assert(v@.subrange(0, i + 1).drop_last() =~= v@.subrange(0, i as int));
        }
        if v[i] == c {
            proof {
                lemma_first_index_bounds(v@.subrange(0, i as int), c);
                lemma_first_index_join(v@.subrange(0, i as int), v@.subrange(i + 1, v.len() as int), c);
                assert(v@.subrange(0, i as int) + seq![c] + v@.subrange(i + 1, v.len() as int) =~= v@);
            }
            return Some(i);
        }
        i += 1;
    }
    proof {
        assert(v@.subrange(0, v.len() as int) =~= v@);
    }
    None
}

/// The characters of `v` from `from` to `to`.
pub fn slice_chars(v: &[char], from: usize, to: usize) -> (r: Vec<char>)
    requires
        from <= to <= v.len(),
    ensures
        r@ == v@.subrange(from as int, to as int),
{
    let mut r: Vec<char> = Vec::new();
    let mut i: usize = from;
    while i < to
        invariant
            from <= i <= to <= v.len(),
            r@ == v@.subrange(from as int, i as int),
        decreases to - i,
    {
        r.push(v[i]);
        i += 1;
    }
    r
}

/// The bounds of `v` without leading and trailing whitespace.
pub fn trim_bounds(v: &[char]) -> (r: (usize, usize))
    ensures
        r.0 <= r.1 <= v.len(),
        v@.subrange(r.0 as int, r.1 as int) == trim(v@),
{
    let n = v.len();
    let mut i: usize = 0;
    assert(v@.subrange(0, n as int) =~= v@);
    while i < n && char_is_ws(v[i])
        invariant
            i <= n == v.len(),
            trim_start(v@) == trim_start(v@.subrange(i as int, n as int)),
        decreases n - i,
    {
        proof {
            assert(v@.subrange(i as int, n as int).drop_first() =~= v@.subrange(i + 1, n as int));
        }
        i += 1;
    }
    assert(trim_start(v@) == v@.subrange(i as int, n as int));
    let mut j: usize = n;
    while j > i && char_is_ws(v[j - 1])
        invariant
            i <= j <= n == v.len(),
            trim_start(v@) == v@.subrange(i as int, n as int),
            trim(v@) == trim_end(v@.subrange(i as int, j as int)),
        decreases j,
    {
        proof {
            assert(v@.subrange(i as int, j as int).drop_last() =~= v@.subrange(i as int, j - 1));
        }
        j -= 1;
    }
    (i, j)
}

/// `str::trim`, on characters.
pub fn trim_chars(v: &[char]) -> (r: Vec<char>)
    ensures
        r@ == trim(v@),
{
    let (i, j) = trim_bounds(v);
    slice_chars(v, i, j)
}

/// `s.trim().is_empty()`.
pub fn is_blank(s: &str) -> (b: bool)
    ensures
        b == (trim(s@).len() == 0),
{
    let v = chars_of(s);
    let (i, j) = trim_bounds(v.as_slice());
    i == j
}

/// `p` is a prefix of `v`.
pub fn has_prefix(v: &[char], p: &str) -> (b: bool)
    ensures
        b == p@.is_prefix_of(v@),
{
    let n = p.unicode_len();
    if n > v.len() {
        return false;
    }
    let mut i: usize = 0;
    while i < n
        invariant
            n == p@.len() <= v.len(),
            i <= n,
            forall|k: int| 0 <= k < i ==> v@[k] == p@[k],
        decreases n - i,
    {
        if v[i] != p.get_char(i) {
            return false;
        }
        i += 1;
    }
    assert(p@ =~= v@.subrange(0, n as int));
    true
}

/// `v` ends with `suf`.
pub fn has_suffix(v: &[char], suf: &str) -> (b: bool)
    ensures
        b == ends_with(v@, suf@),
{
    let n = suf.unicode_len();
    if n > v.len() {
        return false;
    }
    let off = v.len() - n;
    let mut i: usize = 0;
    while i < n
        invariant
            n == suf@.len(),
            off + n == v.len(),
            i <= n,
            forall|k: int| 0 <= k < i ==> v@[off + k] == suf@[k],
        decreases n - i,
    {
        if v[off + i] != suf.get_char(i) {
            assert(v@.subrange(off as int, v.len() as int)[i as int] != suf@[i as int]);
            return false;
        }
        i += 1;
    }
    assert(v@.subrange(off as int, v.len() as int) =~= suf@);
    true
}

/// Equality of two character runs.
pub fn chars_eq(a: &[char], b: &[char]) -> (r: bool)
    ensures
        r == (a@ == b@),
{
    if a.len() != b.len() {
        return false;
    }
    let mut i: usize = 0;
    while i < a.len()
        invariant
            a.len() == b.len(),
            i <= a.len(),
            forall|k: int| 0 <= k < i ==> a@[k] == b@[k],
        decreases a.len() - i,
    {
        if a[i] != b[i] {
            return false;
        }
        i += 1;
    }
    assert(a@ =~= b@);
    true
}

/// Appends the characters of `src` to `dst`.
pub fn push_all(dst: &mut Vec<char>, src: &[char])
    ensures
        final(dst)@ == old(dst)@ + src@,
{
    let mut i: usize = 0;
    while i < src.len()
        invariant
            i <= src.len(),
            dst@ == old(dst)@ + src@.subrange(0, i as int),
        decreases src.len() - i,
    {
        dst.push(src[i]);
        i += 1;
    }
    assert(src@.subrange(0, src.len() as int) =~= src@);
}

/// Appends the characters of `src` to `dst`.
pub fn push_str_chars(dst: &mut Vec<char>, src: &str)
    ensures
        final(dst)@ == old(dst)@ + src@,
{
    let v = chars_of(src);
    push_all(dst, v.as_slice());
}

/// The decimal digits of `n`.
pub open spec fn decimal(n: nat) -> Seq<char>
    decreases n,
{
    if n < 10 {
        seq![digit_char(n)]
    } else {
        decimal(n / 10).push(digit_char(n % 10))
    }
}

pub open spec fn digit_char(d: nat) -> char {
    if d == 0 { '0' }
    else if d == 1 { '1' }
    else if d == 2 { '2' }
    else if d == 3 { '3' }
    else if d == 4 { '4' }
    else if d == 5 { '5' }
    else if d == 6 { '6' }
    else if d == 7 { '7' }
    else if d == 8 { '8' }
    else { '9' }
}

fn digit(d: u128) -> (c: char)
    requires
        d < 10,
    ensures
        c == digit_char(d as nat),
{
    if d == 0 { '0' }
    else if d == 1 { '1' }
    else if d == 2 { '2' }
    else if d == 3 { '3' }
    else if d == 4 { '4' }
    else if d == 5 { '5' }
    else if d == 6 { '6' }
    else if d == 7 { '7' }
    else if d == 8 { '8' }
    else { '9' }
}

/// Appends the decimal digits of `n`.
pub fn push_decimal(dst: &mut Vec<char>, n: u128)
    ensures
        final(dst)@ == old(dst)@ + decimal(n as nat),
    decreases n,
{
    if n < 10 {
        dst.push(digit(n));
        assert(old(dst)@.push(digit_char(n as nat)) =~= old(dst)@ + seq![digit_char(n as nat)]);
    } else {
        push_decimal(dst, n / 10);
        dst.push(digit(n % 10));
        assert(old(dst)@ + decimal((n / 10) as nat) + seq![digit_char((n % 10) as nat)]
            =~= old(dst)@ + decimal(n as nat));
    }
}


/// Removes every leading copy of `p` (`str::trim_start_matches`).
pub fn strip_all_prefix_chars(v: &[char], p: &str) -> (r: Vec<char>)
    ensures
        r@ == strip_all_prefix(v@, p@),
{
    let n = p.unicode_len();
    let mut rest = slice_chars(v, 0, v.len());
    assert(rest@ =~= v@);
    if n == 0 {
        return rest;
    }
    while has_prefix(rest.as_slice(), p)
        invariant
            n == p@.len() > 0,
            strip_all_prefix(v@, p@) == strip_all_prefix(rest@, p@),
        decreases rest.len(),
    {
        rest = slice_chars(rest.as_slice(), n, rest.len());
    }
    rest
}

/// `s` cut before its first `c`, `s.split(c).next()`.
pub fn before_first_chars(v: &[char], c: char) -> (r: Vec<char>)
    ensures
        r@ == before_first(v@, c),
        lacks(r@, c),
{
    proof {
        lemma_first_index_bounds(v@, c);
    }
    match find_char(v, c) {
        Some(k) => slice_chars(v, 0, k),
        None => slice_chars(v, 0, v.len()),
    }
}


/// The views of a run of character vectors.
pub open spec fn char_vec_views(s: Seq<Vec<char>>) -> Seq<Seq<char>> {
    s.map_values(|x: Vec<char>| x@)
}

/// The non-empty `/`-separated segments of `t`, in order (what
/// `t.split('/').filter(|s| !s.is_empty())` yields).
pub open spec fn segments(t: Seq<char>) -> Seq<Seq<char>>
    decreases t.len(),
{
    let k = last_index(t, '/');
    if k < 0 {
        if t.len() == 0 {
            Seq::empty()
        } else {
            seq![t]
        }
    } else {
        proof {
            lemma_last_index_bounds(t, '/');
        }
        let rest = if k + 1 == t.len() {
            Seq::<Seq<char>>::empty()
        } else {
            seq![t.subrange(k + 1, t.len() as int)]
        };
        segments(t.subrange(0, k)) + rest
    }
}

/// The non-empty `/`-separated segments of `v`.
pub fn segments_of(v: &[char]) -> (r: Vec<Vec<char>>)
    ensures
        char_vec_views(r@) == segments(v@),
    decreases v.len(),
{
    proof {
        lemma_last_index_bounds(v@, '/');
    }
    match rfind_char(v, '/') {
        None => {
            let mut r: Vec<Vec<char>> = Vec::new();
            if v.len() > 0 {
                let whole = slice_chars(v, 0, v.len());
                r.push(whole);
                assert(r@[0]@ == v@);
                assert(char_vec_views(r@) =~= seq![v@]);
            } else {
                assert(char_vec_views(r@) =~= Seq::<Seq<char>>::empty());
            }
            r
        },
        Some(k) => {
            let head = slice_chars(v, 0, k);
            let mut r = segments_of(head.as_slice());
            let ghost before = r@;
            if k + 1 < v.len() {
                let last = slice_chars(v, k + 1, v.len());
                r.push(last);
                assert(char_vec_views(r@) =~= char_vec_views(before) + seq![
                    v@.subrange(k + 1, v.len() as int),
                ]);
            } else {
                assert(char_vec_views(r@) =~= char_vec_views(before) + Seq::<Seq<char>>::empty());
            }
            r
        },
    }
}

/// `v` is exactly the text `lit`.
pub fn chars_are(v: &[char], lit: &str) -> (b: bool)
    ensures
        b == (v@ == lit@),
{
    let w = chars_of(lit);
    chars_eq(v, w.as_slice())
}


/// `a` sorts before `b`: character by character by code point, a proper
/// prefix first. This is the order of `String`'s `Ord` (UTF-8 keeps the
/// code-point order).
pub open spec fn seq_lt(a: Seq<char>, b: Seq<char>) -> bool
    decreases a.len(),
{
    if a.len() == 0 {
        b.len() > 0
    } else if b.len() == 0 {
        false
    } else if a[0] != b[0] {
        (a[0] as int) < (b[0] as int)
    } else {
        seq_lt(a.drop_first(), b.drop_first())
    }
}

pub proof fn lemma_seq_lt_irreflexive(a: Seq<char>)
    ensures
        !seq_lt(a, a),
    decreases a.len(),
{
    if a.len() > 0 {
        lemma_seq_lt_irreflexive(a.drop_first());
    }
}

pub proof fn lemma_seq_lt_transitive(a: Seq<char>, b: Seq<char>, c: Seq<char>)
    requires
        seq_lt(a, b),
        seq_lt(b, c),
    ensures
        seq_lt(a, c),
    decreases a.len(),
{
    if a.len() > 0 && b.len() > 0 && c.len() > 0 {
        if a[0] == b[0] && b[0] == c[0] {
            lemma_seq_lt_transitive(a.drop_first(), b.drop_first(), c.drop_first());
        }
    }
}

pub proof fn lemma_seq_lt_total(a: Seq<char>, b: Seq<char>)
    requires
        a != b,
    ensures
        seq_lt(a, b) || seq_lt(b, a),
    decreases a.len(),
{
    if a.len() > 0 && b.len() > 0 && a[0] == b[0] {
        if a.drop_first() == b.drop_first() {
            assert(a =~= seq![a[0]] + a.drop_first());
            assert(b =~= seq![b[0]] + b.drop_first());
        } else {
            lemma_seq_lt_total(a.drop_first(), b.drop_first());
        }
    } else if a.len() == 0 && b.len() == 0 {
        assert(a =~= b);
    } else if a.len() > 0 && b.len() > 0 {
        assert((a[0] as int) != (b[0] as int));
    }
}

pub proof fn lemma_seq_lt_asymmetric(a: Seq<char>, b: Seq<char>)
    requires
        seq_lt(a, b),
    ensures
        !seq_lt(b, a),
{
    if seq_lt(b, a) {
        lemma_seq_lt_transitive(a, b, a);
        lemma_seq_lt_irreflexive(a);
    }
}

/// Compares two character runs: -1, 0 or 1.
pub fn compare_chars(a: &[char], b: &[char]) -> (r: i8)
    ensures
        r == 0 <==> a@ == b@,
        r < 0 <==> seq_lt(a@, b@),
        r > 0 <==> seq_lt(b@, a@),
        -1 <= r <= 1,
{
    let mut i: usize = 0;
    assert(a@.subrange(0, a.len() as int) =~= a@);
    assert(b@.subrange(0, b.len() as int) =~= b@);
    while i < a.len() && i < b.len() && a[i] == b[i]
        invariant
            i <= a.len(),
            i <= b.len(),
            a@.subrange(0, i as int) == b@.subrange(0, i as int),
            seq_lt(a@, b@) == seq_lt(a@.subrange(i as int, a.len() as int), b@.subrange(i as int, b.len() as int)),
            seq_lt(b@, a@) == seq_lt(b@.subrange(i as int, b.len() as int), a@.subrange(i as int, a.len() as int)),
        decreases a.len() - i,
    {
        proof {
            assert(a@.subrange(i as int, a.len() as int).drop_first() =~= a@.subrange(i + 1, a.len() as int));
            assert(b@.subrange(i as int, b.len() as int).drop_first() =~= b@.subrange(i + 1, b.len() as int));
            assert(a@.subrange(0, i + 1) =~= a@.subrange(0, i as int).push(a@[i as int]));
            assert(b@.subrange(0, i + 1) =~= b@.subrange(0, i as int).push(b@[i as int]));
        }
        i += 1;
    }
    proof {
        lemma_seq_lt_irreflexive(a@);
        if a@ != b@ {
            lemma_seq_lt_total(a@, b@);
        }
        if seq_lt(a@, b@) {
            lemma_seq_lt_asymmetric(a@, b@);
        }
    }
    let ghost sa = a@.subrange(i as int, a.len() as int);
    let ghost sb = b@.subrange(i as int, b.len() as int);
    if i < a.len() {
        assert(sa[0] == a@[i as int]);
    }
    if i < b.len() {
        assert(sb[0] == b@[i as int]);
    }
    if i == a.len() && i == b.len() {
        assert(a@ =~= a@.subrange(0, i as int));
        assert(b@ =~= b@.subrange(0, i as int));
        0
    } else if i == a.len() {
        -1
    } else if i == b.len() {
        1
    } else if a[i] < b[i] {
        -1
    } else {
        1
    }
}


/// A signed number in decimal, with `-` in front of a negative one.
pub open spec fn signed_decimal(n: int) -> Seq<char> {
    if n < 0 {
        seq!['-'] + decimal((-n) as nat)
    } else {
        decimal(n as nat)
    }
}

/// Appends `n` in decimal (`i128`'s `to_string`).
pub fn push_signed_decimal(dst: &mut Vec<char>, n: i128)
    ensures
        final(dst)@ == old(dst)@ + signed_decimal(n as int),
{
    if n < 0 {
        dst.push('-');
        let m: u128 = if n == i128::MIN {
            170141183460469231731687303715884105728u128
        } else {
            (-n) as u128
        };
        push_decimal(dst, m);
        assert(final(dst)@ =~= old(dst)@ + signed_decimal(n as int));
    } else {
        push_decimal(dst, n as u128);
    }
}


/// The `c`-separated parts of `t`, empty ones included (`t.split(c)`).
pub open spec fn split_all(t: Seq<char>, c: char) -> Seq<Seq<char>>
    decreases t.len(),
{
    let k = last_index(t, c);
    if k < 0 {
        seq![t]
    } else {
        proof {
            lemma_last_index_bounds(t, c);
        }
        split_all(t.subrange(0, k), c).push(t.subrange(k + 1, t.len() as int))
    }
}

/// The `c`-separated parts of `v`, empty ones included.
pub fn split_all_of(v: &[char], c: char) -> (r: Vec<Vec<char>>)
    ensures
        char_vec_views(r@) == split_all(v@, c),
    decreases v.len(),
{
    proof {
        lemma_last_index_bounds(v@, c);
    }
    match rfind_char(v, c) {
        None => {
            let mut r: Vec<Vec<char>> = Vec::new();
            let whole = slice_chars(v, 0, v.len());
            r.push(whole);
            assert(r@[0]@ == v@);
            assert(char_vec_views(r@) =~= seq![v@]);
            r
        },
        Some(k) => {
            let head = slice_chars(v, 0, k);
            let mut r = split_all_of(head.as_slice(), c);
            let ghost before = r@;
            let last = slice_chars(v, k + 1, v.len());
            r.push(last);
            assert(char_vec_views(r@) =~= char_vec_views(before).push(v@.subrange(k + 1, v.len() as int)));
            r
        },
    }
}

/// The ASCII lower case of a character (other characters unchanged).
pub open spec fn ascii_lower(c: char) -> char {
    if 'A' <= c && c <= 'Z' {
        ((c as int) + 32) as char
    } else {
        c
    }
}

/// `str::to_ascii_lowercase`.
pub open spec fn ascii_lowercase(s: Seq<char>) -> Seq<char> {
    s.map_values(|c: char| ascii_lower(c))
}

fn lower_char(c: char) -> (r: char)
    ensures
        r == ascii_lower(c),
{
    if 'A' <= c && c <= 'Z' {
        let b = c as u8;
        assert(b as int == c as int);
        (b + 32) as char
    } else {
        c
    }
}

/// The ASCII lower case of a run of characters.
pub fn ascii_lowercase_chars(v: &[char]) -> (r: Vec<char>)
    ensures
        r@ == ascii_lowercase(v@),
{
    let mut r: Vec<char> = Vec::new();
    let mut i: usize = 0;
    while i < v.len()
        invariant
            i <= v.len(),
            r@ == ascii_lowercase(v@.subrange(0, i as int)),
        decreases v.len() - i,
    {
        r.push(lower_char(v[i]));
        assert(ascii_lowercase(v@.subrange(0, i + 1)) =~= ascii_lowercase(v@.subrange(0, i as int)).push(ascii_lower(v@[i as int])));
        i += 1;
    }
    assert(v@.subrange(0, i as int) =~= v@);
    r
}

} // verus!
