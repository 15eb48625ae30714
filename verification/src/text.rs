//! Character-level string helpers with exact specifications.
//!
//! Strings are reasoned about through their character sequences (`s@`).
//! Every helper here states its result over those sequences.
use vstd::prelude::*;
use vstd::string::*;

verus! {

/// Unicode `White_Space`: the characters for which `char::is_whitespace` holds.
pub open spec fn is_ws(c: char) -> bool {
    ||| ('\u{9}' <= c && c <= '\u{d}')
    ||| c == ' '
    ||| c == '\u{85}'
    ||| c == '\u{a0}'
    ||| c == '\u{1680}'
    ||| ('\u{2000}' <= c && c <= '\u{200a}')
    ||| c == '\u{2028}'
    ||| c == '\u{2029}'
    ||| c == '\u{202f}'
    ||| c == '\u{205f}'
    ||| c == '\u{3000}'
}

/// Every character of `s` is whitespace (so `s.trim()` is empty).
pub open spec fn is_blank(s: Seq<char>) -> bool {
    forall|i: int| 0 <= i < s.len() ==> is_ws(#[trigger] s[i])
}

/// Index of the first non-whitespace character at or after `i` (or `s.len()`).
pub open spec fn ws_prefix_end(s: Seq<char>, i: int) -> int
    decreases s.len() - i,
{
    if i < 0 || i >= s.len() {
        if i < 0 { 0 } else { s.len() as int }
    } else if is_ws(s[i]) {
        ws_prefix_end(s, i + 1)
    } else {
        i
    }
}

/// One past the last non-whitespace character at or before `j - 1` (or 0).
pub open spec fn ws_suffix_start(s: Seq<char>, j: int) -> int
    decreases j,
{
    if j <= 0 || j > s.len() {
        if j <= 0 { 0 } else { s.len() as int }
    } else if is_ws(s[j - 1]) {
        ws_suffix_start(s, j - 1)
    } else {
        j
    }
}

/// `str::trim_start`.
pub open spec fn trim_start(s: Seq<char>) -> Seq<char> {
    s.skip(ws_prefix_end(s, 0))
}

/// `str::trim_end`.
pub open spec fn trim_end(s: Seq<char>) -> Seq<char> {
    s.take(ws_suffix_start(s, s.len() as int))
}

/// `str::trim`.
pub open spec fn trim(s: Seq<char>) -> Seq<char> {
    trim_end(trim_start(s))
}

/// `p` occurs in `s` starting at index `i`.
pub open spec fn occurs_at(s: Seq<char>, p: Seq<char>, i: int) -> bool {
    0 <= i && i + p.len() <= s.len() && s.subrange(i, i + p.len()) == p
}

/// First index at or after `i` where `p` occurs in `s`.
pub open spec fn find_from(s: Seq<char>, p: Seq<char>, i: int) -> Option<int>
    decreases s.len() + 1 - i,
{
    if i < 0 || i + p.len() > s.len() {
        None
    } else if occurs_at(s, p, i) {
        Some(i)
    } else {
        find_from(s, p, i + 1)
    }
}

/// `str::find` with a string pattern, as a character index.
pub open spec fn find(s: Seq<char>, p: Seq<char>) -> Option<int> {
    find_from(s, p, 0)
}

/// `str::contains` with a string pattern.
pub open spec fn contains(s: Seq<char>, p: Seq<char>) -> bool {
    find(s, p) is Some
}

/// Last index below `j` holding `c`.
pub open spec fn rfind_char_below(s: Seq<char>, c: char, j: int) -> Option<int>
    decreases j,
{
    if j <= 0 || j > s.len() {
        None
    } else if s[j - 1] == c {
        Some(j - 1)
    } else {
        rfind_char_below(s, c, j - 1)
    }
}

/// `str::rfind` with a character pattern, as a character index.
pub open spec fn rfind_char(s: Seq<char>, c: char) -> Option<int> {
    rfind_char_below(s, c, s.len() as int)
}

/// `str::starts_with` with a string pattern.
pub open spec fn starts_with(s: Seq<char>, p: Seq<char>) -> bool {
    p.len() <= s.len() && s.take(p.len() as int) == p
}

/// The first `n` characters (`chars().take(n)`).
pub open spec fn take_chars(s: Seq<char>, n: nat) -> Seq<char> {
    if n < s.len() { s.take(n as int) } else { s }
}

/// Decimal digit character.
pub open spec fn digit_char(d: nat) -> char {
    if d == 0 { '0' }
    else if d == 1 { '1' }
    else if d == 2 { '2' }
    else if d == 3 { '3' }
    else if d == 4 { '4' }
    else if d == 5 { '5' }
    else if d == 6 { '6' }
    else if d == 7 { '7' }
    else if d == 8 { '8' }
    else { '9' }
}

/// Decimal rendering of a natural number (`Display` for unsigned integers).
pub open spec fn decimal(n: nat) -> Seq<char>
    decreases n,
{
    if n < 10 {
        seq![digit_char(n)]
    } else {
        decimal(n / 10).push(digit_char(n % 10))
    }
}

/// Decimal rendering of an integer (`Display` for signed integers).
pub open spec fn signed_decimal(n: int) -> Seq<char> {
    if n < 0 {
        seq!['-'] + decimal((-n) as nat)
    } else {
        decimal(n as nat)
    }
}

/// `parts.join(sep)`.
pub open spec fn join(parts: Seq<Seq<char>>, sep: Seq<char>) -> Seq<char>
    decreases parts.len(),
{
    if parts.len() == 0 {
        Seq::empty()
    } else if parts.len() == 1 {
        parts[0]
    } else {
        join(parts.drop_last(), sep) + sep + parts.last()
    }
}

/// The views of a list of strings.
pub open spec fn views(v: Seq<String>) -> Seq<Seq<char>> {
    v.map_values(|s: String| s@)
}

/// Appends one character to a string (std `String::push`).
#[verifier::external_body]
pub(crate) fn push_char(s: &mut String, c: char)
    ensures
        final(s)@ == old(s)@.push(c),
{
    s.push(c);
}

/// The characters of a string slice, in order.
pub fn chars_of(s: &str) -> (v: Vec<char>)
    ensures
        v@ == s@,
{
    let mut v: Vec<char> = Vec::new();
    for c in it: s.chars()
        invariant
            v@ == it.seq().take(it.index() as int),
    {
        v.push(c);
    }
    v
}

/// The characters `v[from..to]` as a new string.
pub fn string_of_range(v: &[char], from: usize, to: usize) -> (s: String)
    requires
        from <= to <= v@.len(),
    ensures
        s@ == v@.subrange(from as int, to as int),
{
    let mut s = String::new();
    let mut i = from;
    while i < to
        invariant
            from <= i <= to <= v@.len(),
            s@ == v@.subrange(from as int, i as int),
        decreases to - i,
    {
        push_char(&mut s, v[i]);
        assert(v@.subrange(from as int, i + 1) == v@.subrange(from as int, i as int).push(v@[i as int]));
        i += 1;
    }
    s
}

/// The characters of `v` as a new string.
pub fn string_of(v: &[char]) -> (s: String)
    ensures
        s@ == v@,
{
    let s = string_of_range(v, 0, v.len());
    assert(v@.subrange(0, v@.len() as int) == v@);
    s
}

/// A fresh owned copy of a string slice.
pub fn owned(s: &str) -> (r: String)
    ensures
        r@ == s@,
{
    String::from_str(s)
}

/// Exec `char::is_whitespace`.
pub fn char_is_ws(c: char) -> (b: bool)
    ensures
        b == is_ws(c),
{
    ('\u{9}' <= c && c <= '\u{d}') || c == ' ' || c == '\u{85}' || c == '\u{a0}'
        || c == '\u{1680}' || ('\u{2000}' <= c && c <= '\u{200a}') || c == '\u{2028}'
        || c == '\u{2029}' || c == '\u{202f}' || c == '\u{205f}' || c == '\u{3000}'
}

/// Index of the first non-whitespace character at or after `i`.
pub fn ws_prefix_end_exec(v: &[char], i: usize) -> (r: usize)
    requires
        i <= v@.len(),
    ensures
        r as int == ws_prefix_end(v@, i as int),
        i <= r <= v@.len(),
{
    let mut k = i;
    while k < v.len() && char_is_ws(v[k])
        invariant
            i <= k <= v@.len(),
            ws_prefix_end(v@, k as int) == ws_prefix_end(v@, i as int),
        decreases v@.len() - k,
    {
        k += 1;
    }
    k
}

/// One past the last non-whitespace character below `j`.
pub fn ws_suffix_start_exec(v: &[char], j: usize) -> (r: usize)
    requires
        j <= v@.len(),
    ensures
        r as int == ws_suffix_start(v@, j as int),
        r <= j,
{
    let mut k = j;
    while k > 0 && char_is_ws(v[k - 1])
        invariant
            k <= j <= v@.len(),
            ws_suffix_start(v@, k as int) == ws_suffix_start(v@, j as int),
        decreases k,
    {
        k -= 1;
    }
    k
}

/// Every character is whitespace.
pub fn blank_exec(v: &[char]) -> (b: bool)
    ensures
        b == is_blank(v@),
{
    let mut i: usize = 0;
    while i < v.len()
        invariant
            i <= v@.len(),
            forall|k: int| 0 <= k < i ==> is_ws(#[trigger] v@[k]),
        decreases v@.len() - i,
    {
        if !char_is_ws(v[i]) {
            return false;
        }
        i += 1;
    }
    true
}

/// `ws_prefix_end` stops at the first non-whitespace character.
pub proof fn lemma_ws_prefix_end(s: Seq<char>, i: int)
    requires
        0 <= i <= s.len(),
    ensures
        i <= ws_prefix_end(s, i) <= s.len(),
        forall|k: int| i <= k < ws_prefix_end(s, i) ==> is_ws(#[trigger] s[k]),
        ws_prefix_end(s, i) < s.len() ==> !is_ws(s[ws_prefix_end(s, i)]),
    decreases s.len() - i,
{
    if i < s.len() && is_ws(s[i]) {
        lemma_ws_prefix_end(s, i + 1);
    }
}

/// `ws_suffix_start` stops after the last non-whitespace character.
pub proof fn lemma_ws_suffix_start(s: Seq<char>, j: int)
    requires
        0 <= j <= s.len(),
    ensures
        0 <= ws_suffix_start(s, j) <= j,
        forall|k: int| ws_suffix_start(s, j) <= k < j ==> is_ws(#[trigger] s[k]),
        ws_suffix_start(s, j) > 0 ==> !is_ws(s[ws_suffix_start(s, j) - 1]),
    decreases j,
{
    if j > 0 && is_ws(s[j - 1]) {
        lemma_ws_suffix_start(s, j - 1);
    }
}

/// The trimmed text is `s[a..b]` (or empty).
pub proof fn lemma_trim_bounds(s: Seq<char>)
    ensures
        ({
            let a = ws_prefix_end(s, 0);
            let b = ws_suffix_start(s, s.len() as int);
            &&& 0 <= a <= s.len()
            &&& 0 <= b <= s.len()
            &&& (a <= b ==> trim(s) == s.subrange(a, b))
            &&& (a > b ==> trim(s).len() == 0)
            &&& (trim(s).len() == 0 <==> is_blank(s))
        }),
{
    let a = ws_prefix_end(s, 0);
    let b = ws_suffix_start(s, s.len() as int);
    lemma_ws_prefix_end(s, 0);
    lemma_ws_suffix_start(s, s.len() as int);
    let t = s.skip(a);
    lemma_ws_suffix_start(t, t.len() as int);
    let bt = ws_suffix_start(t, t.len() as int);
    // the suffix scan of the skipped text ends where the scan of s ends
    assert(bt == if a <= b { b - a } else { 0 }) by {
        lemma_suffix_shift(s, a, s.len() as int);
    }
    if a <= b {
        assert(trim(s) =~= s.subrange(a, b));
    }
    if trim(s).len() == 0 {
        if a < s.len() {
            // s[a] is not whitespace, so b > a
            assert(b > a) by {
                if b <= a {
                    assert(is_ws(s[a]));
                }
            }
            assert(trim(s).len() == b - a);
        }
        assert(is_blank(s));
    }
    if is_blank(s) {
        if a < s.len() {
            assert(is_ws(s[a]));
        }
    }
}

/// Suffix scanning commutes with dropping a whitespace-free prefix boundary.
proof fn lemma_suffix_shift(s: Seq<char>, a: int, j: int)
    requires
        0 <= a <= j <= s.len(),
        forall|k: int| 0 <= k < a ==> is_ws(#[trigger] s[k]),
        a < s.len() ==> !is_ws(s[a]),
    ensures
        ws_suffix_start(s.skip(a), j - a) == if a <= ws_suffix_start(s, j) {
            ws_suffix_start(s, j) - a
        } else {
            0
        },
    decreases j,
{
    let t = s.skip(a);
    if j - a > 0 {
        assert(t[j - a - 1] == s[j - 1]);
        if is_ws(s[j - 1]) {
            lemma_suffix_shift(s, a, j - 1);
        }
    } else {
        // j == a
        lemma_ws_suffix_start(s, j);
        if ws_suffix_start(s, j) > 0 {
            assert(is_ws(s[ws_suffix_start(s, j) - 1]));
        }
    }
}

/// `str::trim` as a new string.
pub fn trim_exec(v: &[char]) -> (s: String)
    ensures
        s@ == trim(v@),
{
    let a = ws_prefix_end_exec(v, 0);
    let b = ws_suffix_start_exec(v, v.len());
    proof {
        lemma_trim_bounds(v@);
    }
    if a <= b {
        string_of_range(v, a, b)
    } else {
        String::new()
    }
}

/// `str::trim_start` as a character index into `v`.
pub fn trim_start_index(v: &[char]) -> (a: usize)
    ensures
        a as int == ws_prefix_end(v@, 0),
        trim_start(v@) == v@.skip(a as int),
        a <= v@.len(),
{
    ws_prefix_end_exec(v, 0)
}

/// `p` occurs in `v` at `i`.
pub fn occurs_at_exec(v: &[char], p: &[char], i: usize) -> (b: bool)
    ensures
        b == occurs_at(v@, p@, i as int),
{
    if i > v.len() || p.len() > v.len() - i {
        return false;
    }
    let vlen = v.len();
    let mut k: usize = 0;
    while k < p.len()
        invariant
            vlen == v@.len(),
            i <= v@.len(),
            i + p@.len() <= v@.len(),
            k <= p@.len(),
            forall|m: int| 0 <= m < k ==> v@[i + m] == p@[m],
        decreases p@.len() - k,
    {
        assert(i + k < vlen);
        if v[i + k] != p[k] {
            assert(v@.subrange(i as int, i + p@.len())[k as int] != p@[k as int]);
            return false;
        }
        k += 1;
    }
    assert(v@.subrange(i as int, i + p@.len()) =~= p@);
    true
}

/// First occurrence of `p` in `v` at or after `from`.
pub fn find_from_exec(v: &[char], p: &[char], from: usize) -> (r: Option<usize>)
    ensures
        r matches Some(k) ==> find_from(v@, p@, from as int) == Some(k as int),
        r is None ==> find_from(v@, p@, from as int) is None,
{
    let mut i = from;
    loop
        invariant
            from <= i,
            find_from(v@, p@, i as int) == find_from(v@, p@, from as int),
        decreases v@.len() + 1 - i,
    {
        if i > v.len() || p.len() > v.len() - i {
            return None;
        }
        if occurs_at_exec(v, p, i) {
            return Some(i);
        }
        if i == v.len() {
            assert(find_from(v@, p@, i + 1) is None);
            return None;
        }
        i += 1;
    }
}

/// `str::find` with a string pattern.
pub fn find_exec(v: &[char], p: &[char]) -> (r: Option<usize>)
    ensures
        r matches Some(k) ==> find(v@, p@) == Some(k as int),
        r is None ==> find(v@, p@) is None,
{
    find_from_exec(v, p, 0)
}

/// `str::rfind` with a character pattern.
pub fn rfind_char_exec(v: &[char], c: char) -> (r: Option<usize>)
    ensures
        r matches Some(k) ==> rfind_char(v@, c) == Some(k as int),
        r is None ==> rfind_char(v@, c) is None,
{
    let mut j = v.len();
    while j > 0
        invariant
            j <= v@.len(),
            rfind_char_below(v@, c, j as int) == rfind_char(v@, c),
        decreases j,
    {
        if v[j - 1] == c {
            return Some(j - 1);
        }
        j -= 1;
    }
    None
}

/// `str::starts_with` with a string pattern.
pub fn starts_with_exec(v: &[char], p: &[char]) -> (b: bool)
    ensures
        b == starts_with(v@, p@),
{
    let b = occurs_at_exec(v, p, 0);
    proof {
        if p@.len() <= v@.len() {
            assert(v@.subrange(0, p@.len() as int) == v@.take(p@.len() as int));
        }
    }
    b
}

/// Character-wise equality of two strings.
pub fn str_eq(a: &str, b: &str) -> (r: bool)
    ensures
        r == (a@ == b@),
{
    let va = chars_of(a);
    let vb = chars_of(b);
    if va.len() != vb.len() {
        return false;
    }
    let e = occurs_at_exec(va.as_slice(), vb.as_slice(), 0);
    proof {
        if e {
            assert(va@ =~= va@.subrange(0, vb@.len() as int));
        } else {
            if va@ == vb@ {
                assert(va@.subrange(0, vb@.len() as int) =~= vb@);
            }
        }
    }
    e
}

/// `str::contains` with a string pattern.
pub fn contains_exec(s: &str, p: &str) -> (b: bool)
    ensures
        b == contains(s@, p@),
{
    let v = chars_of(s);
    let q = chars_of(p);
    find_exec(v.as_slice(), q.as_slice()).is_some()
}

/// Decimal digit character.
pub fn digit_exec(d: u64) -> (c: char)
    requires
        d < 10,
    ensures
        c == digit_char(d as nat),
{
    if d == 0 { '0' }
    else if d == 1 { '1' }
    else if d == 2 { '2' }
    else if d == 3 { '3' }
    else if d == 4 { '4' }
    else if d == 5 { '5' }
    else if d == 6 { '6' }
    else if d == 7 { '7' }
    else if d == 8 { '8' }
    else { '9' }
}

/// Decimal rendering of an unsigned integer (`u64::to_string`).
pub fn u64_decimal(n: u64) -> (s: String)
    ensures
        s@ == decimal(n as nat),
    decreases n,
{
    if n < 10 {
        let mut s = String::new();
        push_char(&mut s, digit_exec(n));
        assert(s@ =~= seq![digit_char(n as nat)]);
        s
    } else {
        let mut s = u64_decimal(n / 10);
        push_char(&mut s, digit_exec(n % 10));
        s
    }
}

/// Decimal rendering of a signed integer (`i64::to_string`).
pub fn i64_decimal(n: i64) -> (s: String)
    ensures
        s@ == signed_decimal(n as int),
{
    if n < 0 {
        let m: u64 = if n == i64::MIN { 9223372036854775808u64 } else { (-n) as u64 };
        let d = u64_decimal(m);
        let mut s = String::new();
        push_char(&mut s, '-');
        s.append(d.as_str());
        s
    } else {
        u64_decimal(n as u64)
    }
}

/// The first `n` characters of `v` (`chars().take(n).collect()`).
pub fn take_chars_exec(v: &[char], n: usize) -> (s: String)
    ensures
        s@ == take_chars(v@, n as nat),
{
    if n < v.len() {
        let s = string_of_range(v, 0, n);
        assert(v@.subrange(0, n as int) == v@.take(n as int));
        s
    } else {
        string_of(v)
    }
}

/// `join` of one more part.
pub proof fn lemma_join_push(parts: Seq<Seq<char>>, sep: Seq<char>, x: Seq<char>)
    ensures
        join(parts.push(x), sep) == if parts.len() == 0 { x } else { join(parts, sep) + sep + x },
{
    assert(parts.push(x).drop_last() =~= parts);
}

/// `items.join(sep)` for a list of strings.
pub fn join_strings(items: &Vec<String>, sep: &str) -> (r: String)
    ensures
        r@ == join(views(items@), sep@),
{
    let mut r = String::new();
    let mut i: usize = 0;
    while i < items.len()
        invariant
            i <= items@.len(),
            r@ == join(views(items@.take(i as int)), sep@),
        decreases items@.len() - i,
    {
        proof {
            lemma_join_push(views(items@.take(i as int)), sep@, items@[i as int]@);
            assert(views(items@.take(i + 1)) =~= views(items@.take(i as int)).push(items@[i as int]@));
        }
        if i > 0 {
            r.append(sep);
        }
        r.append(items[i].as_str());
        i += 1;
    }
    assert(items@.take(items@.len() as int) =~= items@);
    r
}


/// An occurrence with none before it, from `i` on, is what `find_from` finds.
pub proof fn lemma_find_from_first(s: Seq<char>, p: Seq<char>, i: int, j: int)
    requires
        0 <= i <= j,
        occurs_at(s, p, j),
        forall|k: int| i <= k < j ==> !occurs_at(s, p, k),
    ensures
        find_from(s, p, i) == Some(j),
    decreases j - i,
{
    if i < j {
        assert(!occurs_at(s, p, i));
        lemma_find_from_first(s, p, i + 1, j);
    }
}

/// Leading whitespace is skipped by `trim_start`.
pub proof fn lemma_trim_start_ws(c: char, s: Seq<char>)
    requires
        is_ws(c),
    ensures
        trim_start(seq![c] + s) == trim_start(s),
{
    let t = seq![c] + s;
    lemma_ws_prefix_end_shift(c, s, 0);
    lemma_ws_prefix_end(s, 0);
    assert(t[0] == c);
    assert(ws_prefix_end(t, 0) == ws_prefix_end(t, 1));
    assert(t.skip(ws_prefix_end(s, 0) + 1) =~= s.skip(ws_prefix_end(s, 0)));
}

proof fn lemma_ws_prefix_end_shift(c: char, s: Seq<char>, i: int)
    requires
        is_ws(c),
        0 <= i <= s.len(),
    ensures
        ws_prefix_end(seq![c] + s, i + 1) == ws_prefix_end(s, i) + 1,
    decreases s.len() - i,
{
    let t = seq![c] + s;
    if i < s.len() {
        assert(t[i + 1] == s[i]);
        lemma_ws_prefix_end_shift(c, s, i + 1);
    }
}

/// Text that starts with a non-whitespace character is kept by `trim_start`.
pub proof fn lemma_trim_start_none(s: Seq<char>)
    requires
        s.len() > 0,
        !is_ws(s[0]),
    ensures
        trim_start(s) == s,
{
    assert(s.skip(0) =~= s);
}

/// A found occurrence is an occurrence, at or after the starting index.
pub proof fn lemma_find_from_some(s: Seq<char>, p: Seq<char>, i: int)
    requires
        find_from(s, p, i) is Some,
    ensures
        occurs_at(s, p, find_from(s, p, i).unwrap()),
        i <= find_from(s, p, i).unwrap(),
        forall|k: int| i <= k < find_from(s, p, i).unwrap() ==> !occurs_at(s, p, k),
    decreases s.len() + 1 - i,
{
    if i < 0 || i + p.len() > s.len() {
    } else if occurs_at(s, p, i) {
    } else {
        lemma_find_from_some(s, p, i + 1);
    }
}

/// Index just after the leading run of `c` starting at `i`.
pub open spec fn char_run_end(s: Seq<char>, c: char, i: int) -> int
    decreases s.len() - i,
{
    if i < 0 || i >= s.len() {
        if i < 0 { 0 } else { s.len() as int }
    } else if s[i] == c {
        char_run_end(s, c, i + 1)
    } else {
        i
    }
}

/// `str::trim_start_matches` with a character pattern.
pub open spec fn trim_start_char(s: Seq<char>, c: char) -> Seq<char> {
    s.skip(char_run_end(s, c, 0))
}

/// Exec [`char_run_end`] from 0.
pub fn char_run_end_exec(v: &[char], c: char) -> (r: usize)
    ensures
        r as int == char_run_end(v@, c, 0),
        r <= v@.len(),
{
    let mut k: usize = 0;
    while k < v.len() && v[k] == c
        invariant
            k <= v@.len(),
            char_run_end(v@, c, k as int) == char_run_end(v@, c, 0),
        decreases v@.len() - k,
    {
        k += 1;
    }
    k
}

/// Index just after the trailing run of `c` ending at `j` (scanning down).
pub open spec fn char_run_start(s: Seq<char>, c: char, j: int) -> int
    decreases j,
{
    if j <= 0 || j > s.len() {
        if j <= 0 { 0 } else { s.len() as int }
    } else if s[j - 1] == c {
        char_run_start(s, c, j - 1)
    } else {
        j
    }
}

/// `str::trim_end_matches` with a character pattern.
pub open spec fn trim_end_char(s: Seq<char>, c: char) -> Seq<char> {
    s.take(char_run_start(s, c, s.len() as int))
}

/// Exec [`char_run_start`] from the end.
pub fn char_run_start_exec(v: &[char], c: char) -> (r: usize)
    ensures
        r as int == char_run_start(v@, c, v@.len() as int),
        r <= v@.len(),
{
    let mut k: usize = v.len();
    while k > 0 && v[k - 1] == c
        invariant
            k <= v@.len(),
            char_run_start(v@, c, k as int) == char_run_start(v@, c, v@.len() as int),
        decreases k,
    {
        k -= 1;
    }
    k
}

/// The character is an ASCII decimal digit.
pub open spec fn is_digit(c: char) -> bool {
    '0' <= c && c <= '9'
}

/// The value of a decimal digit character.
pub open spec fn digit_value(c: char) -> nat {
    (c as int - '0' as int) as nat
}

/// The value of a string of decimal digits.
pub open spec fn digits_value(d: Seq<char>) -> nat
    decreases d.len(),
{
    if d.len() == 0 {
        0
    } else {
        digits_value(d.drop_last()) * 10 + digit_value(d.last())
    }
}

/// Every character is a decimal digit.
pub open spec fn all_digits(d: Seq<char>) -> bool {
    forall|i: int| 0 <= i < d.len() ==> is_digit(#[trigger] d[i])
}

/// `str::parse::<u64>`: an optional `+`, then one or more decimal digits
/// whose value fits in a `u64`.
pub open spec fn parse_u64_spec(s: Seq<char>) -> Option<u64> {
    let d = if s.len() > 0 && s[0] == '+' { s.drop_first() } else { s };
    if d.len() > 0 && all_digits(d) && digits_value(d) <= u64::MAX {
        Some(digits_value(d) as u64)
    } else {
        None
    }
}

proof fn lemma_digits_value_mono(d: Seq<char>, k: int)
    requires
        0 <= k <= d.len(),
        forall|i: int| 0 <= i < d.len() ==> is_digit(#[trigger] d[i]),
    ensures
        digits_value(d.take(k)) <= digits_value(d),
    decreases d.len() - k,
{
    if k < d.len() {
        lemma_digits_value_mono(d, k + 1);
        assert(d.take(k + 1).drop_last() =~= d.take(k));
    } else {
        assert(d.take(k) =~= d);
    }
}

/// Parses an unsigned decimal integer (`str::parse::<u64>`).
pub fn parse_u64(s: &str) -> (r: Option<u64>)
    ensures
        r == parse_u64_spec(s@),
{
    let v = chars_of(s);
    let start: usize = if v.len() > 0 && v[0] == '+' { 1 } else { 0 };
    let ghost d = if s@.len() > 0 && s@[0] == '+' { s@.drop_first() } else { s@ };
    assert(d =~= v@.skip(start as int));
    if start >= v.len() {
        return None;
    }
    let mut acc: u64 = 0;
    let mut i: usize = start;
    while i < v.len()
        invariant
            start <= i <= v@.len(),
            v@ == s@,
            d == (if s@.len() > 0 && s@[0] == '+' { s@.drop_first() } else { s@ }),
            d =~= v@.skip(start as int),
            forall|k: int| 0 <= k < i - start ==> is_digit(#[trigger] d[k]),
            acc as nat == digits_value(d.take(i - start)),
        decreases v@.len() - i,
    {
        let c = v[i];
        assert(d[i - start] == v@[i as int]);
        if !('0' <= c && c <= '9') {
            assert(!is_digit(d[i - start]));
            assert(!all_digits(d));
            return None;
        }
        let dv = (c as u32 - '0' as u32) as u64;
        assert(d.take(i - start + 1).drop_last() =~= d.take(i - start));
        if acc > (u64::MAX - dv) / 10 {
            proof {
                assert(digits_value(d.take(i - start + 1)) > u64::MAX) by (nonlinear_arith)
                    requires
                        acc > (u64::MAX - dv) / 10,
                        digits_value(d.take(i - start + 1)) == acc * 10 + dv,
                        dv <= 9,
                ;
                // the value of the whole digit string is at least this prefix's value
                if all_digits(d) {
                    lemma_digits_value_mono(d, i - start + 1);
                }
            }
            return None;
        }
        acc = acc * 10 + dv;
        i += 1;
    }
    assert(d.take(d.len() as int) =~= d);
    Some(acc)
}

/// A line without the `\r` of a `\r\n` ending.
pub open spec fn strip_cr(x: Seq<char>) -> Seq<char> {
    if x.len() > 0 && x.last() == '\r' { x.drop_last() } else { x }
}

/// The lines of `s[start..]` scanning from `i` (`str::lines`): split after
/// each `\n`, the `\n` (and a `\r` before it) removed; a last line without a
/// `\n` is kept as it is when it is not empty.
pub open spec fn lines_scan(s: Seq<char>, start: int, i: int) -> Seq<Seq<char>>
    decreases s.len() - i,
{
    if i < 0 || i >= s.len() {
        if 0 <= start < s.len() { seq![s.subrange(start, s.len() as int)] } else { Seq::empty() }
    } else if s[i] == '\n' {
        seq![strip_cr(s.subrange(start, i))] + lines_scan(s, i + 1, i + 1)
    } else {
        lines_scan(s, start, i + 1)
    }
}

/// `str::lines`.
pub open spec fn str_lines(s: Seq<char>) -> Seq<Seq<char>> {
    lines_scan(s, 0, 0)
}

/// The lines of a text (`str::lines`).
pub fn lines_of(s: &str) -> (r: Vec<String>)
    ensures
        views(r@) == str_lines(s@),
{
    let v = chars_of(s);
    let n = v.len();
    let mut out: Vec<String> = Vec::new();
    let mut start: usize = 0;
    let mut i: usize = 0;
    while i < n
        invariant
            n == v@.len(),
            v@ == s@,
            start <= i <= n,
            views(out@) + lines_scan(s@, start as int, i as int) == str_lines(s@),
        decreases n - i,
    {
        if v[i] == '\n' {
            let line = string_of_range(v.as_slice(), start, i);
            let line = if i > start && v[i - 1] == '\r' {
                assert(line@.drop_last() =~= v@.subrange(start as int, i - 1));
                string_of_range(v.as_slice(), start, i - 1)
            } else {
                line
            };
            let ghost before = views(out@);
            out.push(line);
            assert(views(out@) =~= before.push(line@));
            assert(views(out@) + lines_scan(s@, i + 1, i + 1) =~= before + lines_scan(s@, start as int, i as int));
            start = i + 1;
        }
        i += 1;
    }
    if start < n {
        let line = string_of_range(v.as_slice(), start, n);
        let ghost before = views(out@);
        out.push(line);
        assert(views(out@) =~= before.push(line@));
        assert(views(out@) =~= before + lines_scan(s@, start as int, i as int));
    } else {
        assert(views(out@) =~= views(out@) + lines_scan(s@, start as int, i as int));
    }
    out
}

/// The text from the first `open` to the last `close`, both included, when
/// the first `open` comes before the last `close`.
pub open spec fn delimited(s: Seq<char>, open: char, close: char) -> Option<Seq<char>> {
    match (find(s, seq![open]), rfind_char(s, close)) {
        (Some(a), Some(b)) => if a < b { Some(s.subrange(a, b + 1)) } else { None },
        _ => None,
    }
}

/// Exec [`delimited`].
pub fn delimited_span(s: &str, open: char, close: char) -> (r: Option<String>)
    ensures
        match delimited(s@, open, close) {
            Some(t) => r matches Some(u) && u@ == t,
            None => r is None,
        },
{
    let v = chars_of(s);
    let mut o: Vec<char> = Vec::new();
    o.push(open);
    assert(o@ =~= seq![open]);
    let a = find_exec(v.as_slice(), o.as_slice());
    let b = rfind_char_exec(v.as_slice(), close);
    match (a, b) {
        (Some(a), Some(b)) => {
            if a < b {
                proof {
                    rfind_char_bound(s@, close, s@.len() as int);
                }
                Some(string_of_range(v.as_slice(), a, b + 1))
            } else {
                None
            }
        },
        _ => None,
    }
}

/// A character found searching down from `j` lies below `j`.
pub proof fn rfind_char_bound(s: Seq<char>, c: char, j: int)
    requires
        rfind_char_below(s, c, j) is Some,
    ensures
        0 <= rfind_char_below(s, c, j).unwrap() < j,
        rfind_char_below(s, c, j).unwrap() < s.len(),
        s[rfind_char_below(s, c, j).unwrap()] == c,
    decreases j,
{
    if j <= 0 || j > s.len() {
    } else if s[j - 1] == c {
    } else {
        rfind_char_bound(s, c, j - 1);
    }
}
} // verus!
