//! Character-level helpers with the semantics of the standard string methods
//! that the protocol code relies on (`trim`, `split_once`, `split_whitespace`,
//! `eq_ignore_ascii_case`, `lines`).

use vstd::prelude::*;

verus! {

/// The Unicode `White_Space` property, which `char::is_whitespace` tests.
pub open spec fn is_white_space(c: char) -> bool {
    let v = c as u32;
    ||| (0x09 <= v && v <= 0x0d)
    ||| v == 0x20
    ||| v == 0x85
    ||| v == 0xa0
    ||| v == 0x1680
    ||| (0x2000 <= v && v <= 0x200a)
    ||| v == 0x2028
    ||| v == 0x2029
    ||| v == 0x202f
    ||| v == 0x205f
    ||| v == 0x3000
}

/// Whether `c` is Unicode white space.
pub fn is_whitespace_char(c: char) -> (r: bool)
    ensures
        r == is_white_space(c),
{
    let v = c as u32;
    (0x09 <= v && v <= 0x0d) || v == 0x20 || v == 0x85 || v == 0xa0 || v == 0x1680 || (0x2000
        <= v && v <= 0x200a) || v == 0x2028 || v == 0x2029 || v == 0x202f || v == 0x205f || v
        == 0x3000
}

/// Index of the first character at or after `i` that is not white space
/// (the length of `s` when there is none).
pub open spec fn skip_ws(s: Seq<char>, i: int) -> int
    decreases s.len() - i,
{
    if i < 0 || i >= s.len() {
        if i < 0 { 0 } else { s.len() as int }
    } else if is_white_space(s[i]) {
        skip_ws(s, i + 1)
    } else {
        i
    }
}

/// Index of the first white-space character at or after `i`
/// (the length of `s` when there is none).
pub open spec fn skip_non_ws(s: Seq<char>, i: int) -> int
    decreases s.len() - i,
{
    if i < 0 || i >= s.len() {
        if i < 0 { 0 } else { s.len() as int }
    } else if !is_white_space(s[i]) {
        skip_non_ws(s, i + 1)
    } else {
        i
    }
}

/// End of `s[lo..j]` once trailing white space is removed.
pub open spec fn trim_end_at(s: Seq<char>, lo: int, j: int) -> int
    decreases j - lo,
{
    if j <= lo {
        lo
    } else if is_white_space(s[j - 1]) {
        trim_end_at(s, lo, j - 1)
    } else {
        j
    }
}

/// `s` without leading and trailing white space (`str::trim`).
pub open spec fn trim(s: Seq<char>) -> Seq<char> {
    let lo = skip_ws(s, 0);
    s.subrange(lo, trim_end_at(s, lo, s.len() as int))
}

pub proof fn lemma_skip_ws_bounds(s: Seq<char>, i: int)
    requires
        0 <= i <= s.len(),
    ensures
        i <= skip_ws(s, i) <= s.len(),
        skip_ws(s, i) < s.len() ==> !is_white_space(s[skip_ws(s, i)]),
        forall|k: int| i <= k < skip_ws(s, i) ==> is_white_space(#[trigger] s[k]),
    decreases s.len() - i,
{
    if i < s.len() && is_white_space(s[i]) {
        lemma_skip_ws_bounds(s, i + 1);
    }
}

pub proof fn lemma_skip_non_ws_bounds(s: Seq<char>, i: int)
    requires
        0 <= i <= s.len(),
    ensures
        i <= skip_non_ws(s, i) <= s.len(),
        skip_non_ws(s, i) < s.len() ==> is_white_space(s[skip_non_ws(s, i)]),
        forall|k: int| i <= k < skip_non_ws(s, i) ==> !is_white_space(#[trigger] s[k]),
    decreases s.len() - i,
{
    if i < s.len() && !is_white_space(s[i]) {
        lemma_skip_non_ws_bounds(s, i + 1);
    }
}

/// `skip_ws` stops at the first character that is not white space.
pub proof fn lemma_skip_ws_stop(s: Seq<char>, i: int, k: int)
    requires
        0 <= i <= k <= s.len(),
        forall|j: int| i <= j < k ==> is_white_space(#[trigger] s[j]),
        k == s.len() || !is_white_space(s[k]),
    ensures
        skip_ws(s, i) == k,
    decreases k - i,
{
    if i < k {
        lemma_skip_ws_stop(s, i + 1, k);
    }
}

/// `skip_non_ws` stops at the first white-space character.
pub proof fn lemma_skip_non_ws_stop(s: Seq<char>, i: int, k: int)
    requires
        0 <= i <= k <= s.len(),
        forall|j: int| i <= j < k ==> !is_white_space(#[trigger] s[j]),
        k == s.len() || is_white_space(s[k]),
    ensures
        skip_non_ws(s, i) == k,
    decreases k - i,
{
    if i < k {
        lemma_skip_non_ws_stop(s, i + 1, k);
    }
}

/// `trim_end_at` stops after the last character that is not white space.
pub proof fn lemma_trim_end_stop(s: Seq<char>, lo: int, j: int, k: int)
    requires
        0 <= lo <= k <= j <= s.len(),
        forall|m: int| k <= m < j ==> is_white_space(#[trigger] s[m]),
        k == lo || !is_white_space(s[k - 1]),
    ensures
        trim_end_at(s, lo, j) == k,
    decreases j - k,
{
    if k < j {
        lemma_trim_end_stop(s, lo, j - 1, k);
    }
}

/// `find_char` stops at the first occurrence.
pub proof fn lemma_find_char_stop(s: Seq<char>, c: char, i: int, k: int)
    requires
        0 <= i <= k < s.len(),
        forall|j: int| i <= j < k ==> #[trigger] s[j] != c,
        s[k] == c,
    ensures
        find_char(s, c, i) == k,
    decreases k - i,
{
    if i < k {
        lemma_find_char_stop(s, c, i + 1, k);
    }
}

pub proof fn lemma_trim_end_bounds(s: Seq<char>, lo: int, j: int)
    requires
        0 <= lo <= j <= s.len(),
    ensures
        lo <= trim_end_at(s, lo, j) <= j,
    decreases j - lo,
{
    if j > lo && is_white_space(s[j - 1]) {
        lemma_trim_end_bounds(s, lo, j - 1);
    }
}

/// Advances from `i` over white space.
pub fn skip_whitespace_from(s: &[char], i: usize) -> (r: usize)
    requires
        i <= s@.len(),
    ensures
        r == skip_ws(s@, i as int),
{
    let mut k = i;
    while k < s.len() && is_whitespace_char(s[k])
        invariant
            i <= k <= s@.len(),
            skip_ws(s@, k as int) == skip_ws(s@, i as int),
        decreases s@.len() - k,
    {
        k = k + 1;
    }
    k
}

/// Advances from `i` over characters that are not white space.
pub fn skip_non_whitespace_from(s: &[char], i: usize) -> (r: usize)
    requires
        i <= s@.len(),
    ensures
        r == skip_non_ws(s@, i as int),
{
    let mut k = i;
    while k < s.len() && !is_whitespace_char(s[k])
        invariant
            i <= k <= s@.len(),
            skip_non_ws(s@, k as int) == skip_non_ws(s@, i as int),
        decreases s@.len() - k,
    {
        k = k + 1;
    }
    k
}

/// Copies `s[lo..hi]` into a new vector.
pub fn copy_range(s: &[char], lo: usize, hi: usize) -> (r: Vec<char>)
    requires
        lo <= hi <= s@.len(),
    ensures
        r@ == s@.subrange(lo as int, hi as int),
{
    let mut out: Vec<char> = Vec::new();
    let mut k = lo;
    while k < hi
        invariant
            lo <= k <= hi <= s@.len(),
            out@ == s@.subrange(lo as int, k as int),
        decreases hi - k,
    {
        out.push(s[k]);
        k = k + 1;
    }
    out
}

/// `str::trim`: removes leading and trailing white space.
pub fn trim_chars(s: &[char]) -> (r: Vec<char>)
    ensures
        r@ == trim(s@),
{
    let lo = skip_whitespace_from(s, 0);
    proof {
        lemma_skip_ws_bounds(s@, 0);
    }
    let mut hi = s.len();
    while hi > lo && is_whitespace_char(s[hi - 1])
        invariant
            lo <= hi <= s@.len(),
            lo == skip_ws(s@, 0),
            trim_end_at(s@, lo as int, hi as int) == trim_end_at(s@, lo as int, s@.len() as int),
        decreases hi,
    {
        hi = hi - 1;
    }
    copy_range(s, lo, hi)
}

/// Index of the first `c` in `s` at or after `i` (the length when absent).
pub open spec fn find_char(s: Seq<char>, c: char, i: int) -> int
    decreases s.len() - i,
{
    if i < 0 || i >= s.len() {
        if i < 0 { 0 } else { s.len() as int }
    } else if s[i] == c {
        i
    } else {
        find_char(s, c, i + 1)
    }
}

pub proof fn lemma_find_char_bounds(s: Seq<char>, c: char, i: int)
    requires
        0 <= i <= s.len(),
    ensures
        i <= find_char(s, c, i) <= s.len(),
        find_char(s, c, i) < s.len() ==> s[find_char(s, c, i)] == c,
        forall|k: int| i <= k < find_char(s, c, i) ==> #[trigger] s[k] != c,
    decreases s.len() - i,
{
    if i < s.len() && s[i] != c {
        lemma_find_char_bounds(s, c, i + 1);
    }
}

/// `str::split_once(c)`: the text before and after the first `c`.
pub open spec fn split_once(s: Seq<char>, c: char) -> Option<(Seq<char>, Seq<char>)> {
    let k = find_char(s, c, 0);
    if k < s.len() {
        Some((s.subrange(0, k), s.subrange(k + 1, s.len() as int)))
    } else {
        None
    }
}

/// Position of the first `c` in `s`.
pub fn find_char_from(s: &[char], c: char, i: usize) -> (r: usize)
    requires
        i <= s@.len(),
    ensures
        r == find_char(s@, c, i as int),
{
    let mut k = i;
    while k < s.len() && s[k] != c
        invariant
            i <= k <= s@.len(),
            find_char(s@, c, k as int) == find_char(s@, c, i as int),
        decreases s@.len() - k,
    {
        k = k + 1;
    }
    k
}

/// `str::split_once(c)`.
pub fn split_once_chars(s: &[char], c: char) -> (r: Option<(Vec<char>, Vec<char>)>)
    ensures
        match (r, split_once(s@, c)) {
            (Some((a, b)), Some((x, y))) => a@ == x && b@ == y,
            (None, None) => true,
            _ => false,
        },
{
    let k = find_char_from(s, c, 0);
    proof {
        lemma_find_char_bounds(s@, c, 0);
    }
    if k < s.len() {
        Some((copy_range(s, 0, k), copy_range(s, k + 1, s.len())))
    } else {
        None
    }
}

/// The second white-space separated token of `s`
/// (`s.split_whitespace().nth(1)`).
pub open spec fn second_token(s: Seq<char>) -> Option<Seq<char>> {
    let a0 = skip_ws(s, 0);
    let b0 = skip_non_ws(s, a0);
    let a1 = skip_ws(s, b0);
    if a1 < s.len() {
        Some(s.subrange(a1, skip_non_ws(s, a1)))
    } else {
        None
    }
}

/// `s.split_whitespace().nth(1)`.
pub fn second_token_chars(s: &[char]) -> (r: Option<Vec<char>>)
    ensures
        match (r, second_token(s@)) {
            (Some(a), Some(x)) => a@ == x,
            (None, None) => true,
            _ => false,
        },
{
    let a0 = skip_whitespace_from(s, 0);
    proof {
        lemma_skip_ws_bounds(s@, 0);
    }
    let b0 = skip_non_whitespace_from(s, a0);
    proof {
        lemma_skip_non_ws_bounds(s@, a0 as int);
    }
    let a1 = skip_whitespace_from(s, b0);
    proof {
        lemma_skip_ws_bounds(s@, b0 as int);
    }
    if a1 < s.len() {
        let b1 = skip_non_whitespace_from(s, a1);
        proof {
            lemma_skip_non_ws_bounds(s@, a1 as int);
        }
        Some(copy_range(s, a1, b1))
    } else {
        None
    }
}

/// The first white-space separated token of `s`
/// (`s.split_whitespace().next()`).
pub open spec fn first_token(s: Seq<char>) -> Option<Seq<char>> {
    let a0 = skip_ws(s, 0);
    if a0 < s.len() {
        Some(s.subrange(a0, skip_non_ws(s, a0)))
    } else {
        None
    }
}

/// `s.split_whitespace().next()`.
pub fn first_token_chars(s: &[char]) -> (r: Option<Vec<char>>)
    ensures
        match (r, first_token(s@)) {
            (Some(a), Some(x)) => a@ == x,
            (None, None) => true,
            _ => false,
        },
{
    let a0 = skip_whitespace_from(s, 0);
    proof {
        lemma_skip_ws_bounds(s@, 0);
    }
    if a0 < s.len() {
        let b0 = skip_non_whitespace_from(s, a0);
        proof {
            lemma_skip_non_ws_bounds(s@, a0 as int);
        }
        Some(copy_range(s, a0, b0))
    } else {
        None
    }
}

/// One line of `str::lines`: `s[i..e]` without a final `\r` when the line
/// ended with `\n` (`e` is the position of that `\n`).
pub open spec fn line_text(s: Seq<char>, i: int, e: int) -> Seq<char> {
    if e < s.len() && e > i && s[e - 1] == '\r' {
        s.subrange(i, e - 1)
    } else {
        s.subrange(i, e)
    }
}

/// `str::lines` on `s[i..]`: split after each `\n`, dropping the line ending
/// (`\n` or `\r\n`); no final empty line.
pub open spec fn lines_from(s: Seq<char>, i: int) -> Seq<Seq<char>>
    decreases s.len() - i,
{
    if i < 0 || i >= s.len() {
        Seq::empty()
    } else {
        let e = find_char(s, '\n', i);
        if e < s.len() {
            proof {
                lemma_find_char_bounds(s, '\n', i);
            }
            seq![line_text(s, i, e)] + lines_from(s, e + 1)
        } else {
            seq![s.subrange(i, s.len() as int)]
        }
    }
}

/// `str::lines`.
pub open spec fn lines(s: Seq<char>) -> Seq<Seq<char>> {
    lines_from(s, 0)
}

/// `str::lines`: the lines of `s` without their line endings.
pub fn lines_chars(s: &[char]) -> (r: Vec<Vec<char>>)
    ensures
        r@.map_values(|l: Vec<char>| l@) == lines(s@),
{
    let mut out: Vec<Vec<char>> = Vec::new();
    let mut i: usize = 0;
    while i < s.len()
        invariant
            i <= s@.len(),
            out@.map_values(|l: Vec<char>| l@) + lines_from(s@, i as int) == lines(s@),
        decreases s@.len() - i,
    {
        let ghost old_out = out@.map_values(|l: Vec<char>| l@);
        let e = find_char_from(s, '\n', i);
        proof {
            lemma_find_char_bounds(s@, '\n', i as int);
        }
        if e < s.len() {
            let end = if e > i && s[e - 1] == '\r' {
                e - 1
            } else {
                e
            };
            out.push(copy_range(s, i, end));
            assert(out@.map_values(|l: Vec<char>| l@) =~= old_out.push(line_text(s@, i as int, e as int)));
            assert(old_out.push(line_text(s@, i as int, e as int)) + lines_from(s@, e + 1) =~= old_out
                + (seq![line_text(s@, i as int, e as int)] + lines_from(s@, e + 1)));
            i = e + 1;
        } else {
            out.push(copy_range(s, i, s.len()));
            assert(out@.map_values(|l: Vec<char>| l@) =~= old_out.push(s@.subrange(i as int, s@.len() as int)));
            assert(lines_from(s@, s@.len() as int) =~= Seq::<Seq<char>>::empty());
            assert(old_out.push(s@.subrange(i as int, s@.len() as int)) + lines_from(s@, s@.len() as int) =~= old_out
                + seq![s@.subrange(i as int, s@.len() as int)]);
            i = s.len();
        }
    }
    assert(lines_from(s@, i as int) =~= Seq::<Seq<char>>::empty());
    assert(out@.map_values(|l: Vec<char>| l@) + lines_from(s@, i as int) =~= out@.map_values(|l: Vec<char>| l@));
    out
}

/// `s` starts with `prefix`.
pub open spec fn starts_with(s: Seq<char>, prefix: Seq<char>) -> bool {
    prefix.len() <= s.len() && s.subrange(0, prefix.len() as int) == prefix
}

/// `str::strip_prefix`: the rest of `s` after `prefix`, if `s` starts with it.
pub fn strip_prefix_chars(s: &[char], prefix: &[char]) -> (r: Option<Vec<char>>)
    ensures
        match r {
            Some(rest) => starts_with(s@, prefix@) && rest@ == s@.subrange(
                prefix@.len() as int,
                s@.len() as int,
            ),
            None => !starts_with(s@, prefix@),
        },
{
    if prefix.len() > s.len() {
        return None;
    }
    let mut i: usize = 0;
    while i < prefix.len()
        invariant
            prefix@.len() <= s@.len(),
            i <= prefix@.len(),
            forall|k: int| 0 <= k < i ==> s@[k] == prefix@[k],
        decreases prefix@.len() - i,
    {
        if s[i] != prefix[i] {
            assert(s@.subrange(0, prefix@.len() as int)[i as int] != prefix@[i as int]);
            return None;
        }
        i = i + 1;
    }
    assert(s@.subrange(0, prefix@.len() as int) =~= prefix@);
    Some(copy_range(s, prefix.len(), s.len()))
}

/// `char::to_ascii_lowercase`.
pub open spec fn ascii_lower(c: char) -> char {
    if 'A' <= c && c <= 'Z' {
        ((c as u32) + 32) as char
    } else {
        c
    }
}

/// `str::eq_ignore_ascii_case`.
pub open spec fn eq_ignore_ascii_case(a: Seq<char>, b: Seq<char>) -> bool {
    &&& a.len() == b.len()
    &&& forall|i: int| 0 <= i < a.len() ==> ascii_lower(#[trigger] a[i]) == ascii_lower(b[i])
}

/// `char::to_ascii_lowercase`.
pub fn to_ascii_lower(c: char) -> (r: char)
    ensures
        r == ascii_lower(c),
{
    if 'A' <= c && c <= 'Z' {
        let v: u8 = (c as u8) + 32;
        v as char
    } else {
        c
    }
}

/// `str::eq_ignore_ascii_case`.
pub fn eq_ignore_ascii_case_chars(a: &[char], b: &[char]) -> (r: bool)
    ensures
        r == eq_ignore_ascii_case(a@, b@),
{
    if a.len() != b.len() {
        return false;
    }
    let mut i: usize = 0;
    while i < a.len()
        invariant
            a@.len() == b@.len(),
            0 <= i <= a@.len(),
            forall|k: int| 0 <= k < i ==> ascii_lower(#[trigger] a@[k]) == ascii_lower(b@[k]),
        decreases a@.len() - i,
    {
        if to_ascii_lower(a[i]) != to_ascii_lower(b[i]) {
            return false;
        }
        i = i + 1;
    }
    true
}

/// Whether `s` and `lit` hold the same characters.
pub fn chars_equal(s: &[char], lit: &[char]) -> (r: bool)
    ensures
        r == (s@ == lit@),
{
    if s.len() != lit.len() {
        return false;
    }
    let mut i: usize = 0;
    while i < s.len()
        invariant
            s@.len() == lit@.len(),
            0 <= i <= s@.len(),
            forall|k: int| 0 <= k < i ==> s@[k] == lit@[k],
        decreases s@.len() - i,
    {
        if s[i] != lit[i] {
            return false;
        }
        i = i + 1;
    }
    assert(s@ =~= lit@);
    true
}

} // verus!
