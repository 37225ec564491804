//! Character classes and low-level text scanning: whitespace skipping,
//! identifier and text runs, substring search, and trimming. Each exec
//! scanner returns exactly what its spec counterpart denotes.

use vstd::prelude::*;

verus! {

/// Insignificant-whitespace characters of the grammar.
pub open spec fn is_ws(c: char) -> bool {
    c == ' ' || c == '\t' || c == '\r' || c == '\n'
}

/// Characters allowed inside a tag or attribute name.
pub open spec fn is_name_char(c: char) -> bool {
    ('a' <= c && c <= 'z') || ('A' <= c && c <= 'Z') || ('0' <= c && c <= '9') || c == '_'
        || c == '-'
}

/// Characters allowed to start a tag or attribute name.
pub open spec fn is_name_start(c: char) -> bool {
    ('a' <= c && c <= 'z') || ('A' <= c && c <= 'Z') || c == '_'
}

/// Decimal digit.
pub open spec fn is_digit(c: char) -> bool {
    '0' <= c && c <= '9'
}

/// Index of the first non-whitespace character at or after `i` (or the length).
pub open spec fn skip_ws(s: Seq<char>, i: int) -> int
    decreases s.len() - i,
{
    if 0 <= i && i < s.len() && is_ws(s[i]) {
        skip_ws(s, i + 1)
    } else {
        i
    }
}

pub proof fn lemma_skip_ws(s: Seq<char>, i: int)
    requires
        0 <= i <= s.len(),
    ensures
        i <= skip_ws(s, i) <= s.len(),
        forall|k: int| i <= k < skip_ws(s, i) ==> is_ws(s[k]),
        skip_ws(s, i) < s.len() ==> !is_ws(s[skip_ws(s, i)]),
    decreases s.len() - i,
{
    if i < s.len() && is_ws(s[i]) {
        lemma_skip_ws(s, i + 1);
    }
}

fn is_ws_exec(c: char) -> (r: bool)
    ensures
        r == is_ws(c),
{
    c == ' ' || c == '\t' || c == '\r' || c == '\n'
}

fn is_name_char_exec(c: char) -> (r: bool)
    ensures
        r == is_name_char(c),
{
    ('a' <= c && c <= 'z') || ('A' <= c && c <= 'Z') || ('0' <= c && c <= '9') || c == '_'
        || c == '-'
}

pub(crate) fn is_name_start_exec(c: char) -> (r: bool)
    ensures
        r == is_name_start(c),
{
    ('a' <= c && c <= 'z') || ('A' <= c && c <= 'Z') || c == '_'
}

pub(crate) fn is_digit_exec(c: char) -> (r: bool)
    ensures
        r == is_digit(c),
{
    '0' <= c && c <= '9'
}

/// Advance `i` past insignificant whitespace.
pub(crate) fn skip_ws_exec(s: &str, n: usize, i: usize) -> (r: usize)
    requires
        n == s@.len(),
        i <= n,
    ensures
        r == skip_ws(s@, i as int),
        i <= r <= n,
{
    let mut j = i;
    while j < n && is_ws_exec(s.get_char(j))
        invariant
            i <= j <= n,
            n == s@.len(),
            skip_ws(s@, i as int) == skip_ws(s@, j as int),
        decreases n - j,
    {
        j = j + 1;
    }
    proof {
        lemma_skip_ws(s@, j as int);
    }
    j
}

/// End of the run of name characters starting at `i`.
pub open spec fn name_end(s: Seq<char>, i: int) -> int
    decreases s.len() - i,
{
    if 0 <= i && i < s.len() && is_name_char(s[i]) {
        name_end(s, i + 1)
    } else {
        i
    }
}

pub proof fn lemma_name_end(s: Seq<char>, i: int)
    requires
        0 <= i <= s.len(),
    ensures
        i <= name_end(s, i) <= s.len(),
        forall|k: int| i <= k < name_end(s, i) ==> is_name_char(s[k]),
        name_end(s, i) < s.len() ==> !is_name_char(s[name_end(s, i)]),
    decreases s.len() - i,
{
    if i < s.len() && is_name_char(s[i]) {
        lemma_name_end(s, i + 1);
    }
}

/// Where a name run is known to stop, `name_end` finds exactly that spot.
pub proof fn lemma_name_end_at(s: Seq<char>, i: int, e: int)
    requires
        0 <= i <= e <= s.len(),
        forall|k: int| i <= k < e ==> is_name_char(s[k]),
        e < s.len() ==> !is_name_char(s[e]),
    ensures
        name_end(s, i) == e,
    decreases e - i,
{
    if i < e {
        lemma_name_end_at(s, i + 1, e);
    }
}

pub(crate) fn name_end_exec(s: &str, n: usize, i: usize) -> (r: usize)
    requires
        n == s@.len(),
        i <= n,
    ensures
        r == name_end(s@, i as int),
        i <= r <= n,
{
    let mut j = i;
    while j < n && is_name_char_exec(s.get_char(j))
        invariant
            i <= j <= n,
            n == s@.len(),
            name_end(s@, i as int) == name_end(s@, j as int),
        decreases n - j,
    {
        j = j + 1;
    }
    proof {
        lemma_name_end(s@, j as int);
    }
    j
}

/// End of the run of ordinary text characters (anything but `<`) starting at `i`.
pub open spec fn text_end(s: Seq<char>, i: int) -> int
    decreases s.len() - i,
{
    if 0 <= i && i < s.len() && s[i] != '<' {
        text_end(s, i + 1)
    } else {
        i
    }
}

pub proof fn lemma_text_end(s: Seq<char>, i: int)
    requires
        0 <= i <= s.len(),
    ensures
        i <= text_end(s, i) <= s.len(),
        forall|k: int| i <= k < text_end(s, i) ==> s[k] != '<',
        text_end(s, i) < s.len() ==> s[text_end(s, i)] == '<',
    decreases s.len() - i,
{
    if i < s.len() && s[i] != '<' {
        lemma_text_end(s, i + 1);
    }
}

/// Where a text run is known to stop, `text_end` finds exactly that spot.
pub proof fn lemma_text_end_at(s: Seq<char>, i: int, e: int)
    requires
        0 <= i <= e <= s.len(),
        forall|k: int| i <= k < e ==> s[k] != '<',
        e < s.len() ==> s[e] == '<',
    ensures
        text_end(s, i) == e,
    decreases e - i,
{
    if i < e {
        lemma_text_end_at(s, i + 1, e);
    }
}

pub(crate) fn text_end_exec(s: &str, n: usize, i: usize) -> (r: usize)
    requires
        n == s@.len(),
        i <= n,
    ensures
        r == text_end(s@, i as int),
        i <= r <= n,
{
    let mut j = i;
    while j < n && s.get_char(j) != '<'
        invariant
            i <= j <= n,
            n == s@.len(),
            text_end(s@, i as int) == text_end(s@, j as int),
        decreases n - j,
    {
        j = j + 1;
    }
    proof {
        lemma_text_end(s@, j as int);
    }
    j
}

/// Where a whitespace run is known to stop, `skip_ws` finds exactly that spot.
pub proof fn lemma_skip_ws_at(s: Seq<char>, i: int, e: int)
    requires
        0 <= i <= e <= s.len(),
        forall|k: int| i <= k < e ==> is_ws(s[k]),
        e < s.len() ==> !is_ws(s[e]),
    ensures
        skip_ws(s, i) == e,
    decreases e - i,
{
    if i < e {
        lemma_skip_ws_at(s, i + 1, e);
    }
}

/// Where a line is known to end, `line_end` finds exactly that spot.
pub proof fn lemma_line_end_at(s: Seq<char>, i: int, e: int)
    requires
        0 <= i <= e <= s.len(),
        forall|k: int| i <= k < e ==> s[k] != '\n',
        e < s.len() ==> s[e] == '\n',
    ensures
        line_end(s, i) == e,
    decreases e - i,
{
    if i < e {
        lemma_line_end_at(s, i + 1, e);
    }
}

/// Where a trailing whitespace run is known to begin, `ws_start_back`
/// finds exactly that spot.
pub proof fn lemma_ws_start_back_at(s: Seq<char>, b: int, j: int)
    requires
        0 <= b <= j <= s.len(),
        forall|k: int| b <= k < j ==> is_ws(s[k]),
        b > 0 ==> !is_ws(s[b - 1]),
    ensures
        ws_start_back(s, j) == b,
    decreases j - b,
{
    if b < j {
        lemma_ws_start_back_at(s, b, j - 1);
    }
}

/// The pattern `pat` occurs in `s` at position `i`.
pub open spec fn match_at(s: Seq<char>, i: int, pat: Seq<char>) -> bool {
    0 <= i && i + pat.len() <= s.len() && (forall|k: int|
        0 <= k < pat.len() ==> s[i + k] == pat[k])
}

/// Position of the first occurrence of `pat` at or after `i`, if any.
pub open spec fn find_pat(s: Seq<char>, i: int, pat: Seq<char>) -> Option<int>
    decreases s.len() - i,
{
    if i < 0 || i + pat.len() > s.len() {
        None
    } else if match_at(s, i, pat) {
        Some(i)
    } else {
        find_pat(s, i + 1, pat)
    }
}

pub proof fn lemma_find_pat(s: Seq<char>, i: int, pat: Seq<char>)
    requires
        0 <= i <= s.len(),
    ensures
        match find_pat(s, i, pat) {
            Some(j) => i <= j && j + pat.len() <= s.len() && match_at(s, j, pat) && (forall|k: int|
                i <= k < j ==> !match_at(s, k, pat)),
            None => forall|k: int| i <= k ==> !match_at(s, k, pat),
        },
    decreases s.len() - i,
{
    if i + pat.len() > s.len() {
        assert forall|k: int| i <= k implies !match_at(s, k, pat) by {}
    } else if match_at(s, i, pat) {
    } else {
        lemma_find_pat(s, i + 1, pat);
    }
}

/// Where the first occurrence of `pat` is known to sit, `find_pat`
/// finds exactly that spot.
pub proof fn lemma_find_pat_at(s: Seq<char>, i: int, e: int, pat: Seq<char>)
    requires
        0 <= i <= e,
        match_at(s, e, pat),
        forall|k: int| i <= k < e ==> !match_at(s, k, pat),
    ensures
        find_pat(s, i, pat) == Some(e),
    decreases e - i,
{
    if i < e {
        lemma_find_pat_at(s, i + 1, e, pat);
    }
}

pub(crate) fn match_at_exec(s: &str, n: usize, i: usize, pat: &str, m: usize) -> (r: bool)
    requires
        n == s@.len(),
        m == pat@.len(),
        i <= n,
    ensures
        r == match_at(s@, i as int, pat@),
{
    if m > n - i {
        return false;
    }
    let mut k: usize = 0;
    while k < m
        invariant
            0 <= k <= m,
            i + m <= n,
            n == s@.len(),
            m == pat@.len(),
            forall|q: int| 0 <= q < k ==> s@[i + q] == pat@[q],
        decreases m - k,
    {
        if s.get_char(i + k) != pat.get_char(k) {
            return false;
        }
        k = k + 1;
    }
    true
}

pub(crate) fn find_pat_exec(s: &str, n: usize, i: usize, pat: &str, m: usize) -> (r: Option<
    usize,
>)
    requires
        n == s@.len(),
        m == pat@.len(),
        i <= n,
    ensures
        match r {
            Some(j) => i <= j <= n && find_pat(s@, i as int, pat@) == Some(j as int),
            None => find_pat(s@, i as int, pat@) is None,
        },
{
    if m > n {
        return None;
    }
    let mut j = i;
    while j <= n - m
        invariant
            i <= j <= n,
            m <= n,
            m == pat@.len(),
            n == s@.len(),
            find_pat(s@, i as int, pat@) == find_pat(s@, j as int, pat@),
        decreases n - j,
    {
        if match_at_exec(s, n, j, pat, m) {
            return Some(j);
        }
        j = j + 1;
    }
    None
}

/// End of the leading whitespace run counted backwards from `j`:
/// the least `b <= j` with only whitespace in `[b, j)`, maximal such run.
pub open spec fn ws_start_back(s: Seq<char>, j: int) -> int
    decreases j,
{
    if 0 < j && j <= s.len() && is_ws(s[j - 1]) {
        ws_start_back(s, j - 1)
    } else {
        j
    }
}

pub proof fn lemma_ws_start_back(s: Seq<char>, j: int)
    requires
        0 <= j <= s.len(),
    ensures
        0 <= ws_start_back(s, j) <= j,
        forall|k: int| ws_start_back(s, j) <= k < j ==> is_ws(s[k]),
        ws_start_back(s, j) > 0 ==> !is_ws(s[ws_start_back(s, j) - 1]),
    decreases j,
{
    if 0 < j && is_ws(s[j - 1]) {
        lemma_ws_start_back(s, j - 1);
    }
}

/// `s` with leading and trailing whitespace removed.
pub open spec fn trim(s: Seq<char>) -> Seq<char> {
    if skip_ws(s, 0) == s.len() {
        Seq::empty()
    } else {
        s.subrange(skip_ws(s, 0), ws_start_back(s, s.len() as int))
    }
}

pub proof fn lemma_trim_bounds(s: Seq<char>)
    ensures
        skip_ws(s, 0) < s.len() ==> skip_ws(s, 0) < ws_start_back(s, s.len() as int),
{
    lemma_skip_ws(s, 0);
    lemma_ws_start_back(s, s.len() as int);
    let a = skip_ws(s, 0);
    let b = ws_start_back(s, s.len() as int);
    if a < s.len() && b <= a {
        assert(is_ws(s[a]));
        assert(!is_ws(s[a]));
    }
}

/// Copy `s[from..to]` with leading and trailing whitespace removed.
pub(crate) fn trim_substr(s: &str, n: usize, from: usize, to: usize) -> (r: String)
    requires
        n == s@.len(),
        from <= to <= n,
    ensures
        r@ == trim(s@.subrange(from as int, to as int)),
{
    let ghost sub = s@.subrange(from as int, to as int);
    let mut a = from;
    while a < to && is_ws_exec(s.get_char(a))
        invariant
            from <= a <= to <= n,
            n == s@.len(),
            sub == s@.subrange(from as int, to as int),
            skip_ws(sub, 0) == skip_ws(sub, a - from),
        decreases to - a,
    {
        proof {
            assert(sub[a - from] == s@[a as int]);
        }
        a = a + 1;
    }
    proof {
        lemma_skip_ws(sub, a - from);
        if (a as int - from as int) < sub.len() {
            assert(sub[a - from] == s@[a as int]);
        }
        assert(skip_ws(sub, 0) == a - from);
    }
    if a == to {
        proof {
            assert(skip_ws(sub, 0) == sub.len());
        }
        let r = String::new();
        proof {
            assert(r@ =~= trim(sub));
        }
        return r;
    }
    proof {
        assert(!is_ws(sub[a - from]));
    }
    let mut b = to;
    while b > a && is_ws_exec(s.get_char(b - 1))
        invariant
            from <= a < b <= to <= n,
            n == s@.len(),
            sub == s@.subrange(from as int, to as int),
            !is_ws(sub[a - from]),
            ws_start_back(sub, sub.len() as int) == ws_start_back(sub, b - from),
        decreases b,
    {
        proof {
            assert(sub[b - from - 1] == s@[b - 1]);
            if b - 1 == a {
                assert(false);
            }
        }
        b = b - 1;
    }
    proof {
        assert(sub[b - from - 1] == s@[b - 1]);
        assert(ws_start_back(sub, sub.len() as int) == b - from);
        lemma_trim_bounds(sub);
    }
    let r = String::from_str(s.substring_char(a, b));
    proof {
        assert(r@ =~= trim(sub));
    }
    r
}

/// End of the current line: index of the first `'\n'` at or after `i`,
/// or the length if the rest is a single line.
pub open spec fn line_end(s: Seq<char>, i: int) -> int
    decreases s.len() - i,
{
    if 0 <= i && i < s.len() && s[i] != '\n' {
        line_end(s, i + 1)
    } else {
        i
    }
}

pub proof fn lemma_line_end(s: Seq<char>, i: int)
    requires
        0 <= i <= s.len(),
    ensures
        i <= line_end(s, i) <= s.len(),
        forall|k: int| i <= k < line_end(s, i) ==> s[k] != '\n',
        line_end(s, i) < s.len() ==> s[line_end(s, i)] == '\n',
    decreases s.len() - i,
{
    if i < s.len() && s[i] != '\n' {
        lemma_line_end(s, i + 1);
    }
}

/// Captured text of a comment: every line trimmed of surrounding
/// whitespace, the line breaks themselves kept.
pub open spec fn comment_text(raw: Seq<char>) -> Seq<char>
    decreases raw.len(),
{
    let e = line_end(raw, 0);
    if e >= raw.len() {
        trim(raw)
    } else {
        proof {
            lemma_line_end(raw, 0);
        }
        trim(raw.take(e)) + seq!['\n'] + comment_text(raw.skip(e + 1))
    }
}

/// Copy `s[from..to]` as comment text, line by line.
pub(crate) fn comment_text_exec(s: &str, n: usize, from: usize, to: usize) -> (r: String)
    requires
        n == s@.len(),
        from <= to <= n,
    ensures
        r@ == comment_text(s@.subrange(from as int, to as int)),
    decreases to - from,
{
    let ghost sub = s@.subrange(from as int, to as int);
    let mut k = from;
    while k < to && s.get_char(k) != '\n'
        invariant
            from <= k <= to <= n,
            n == s@.len(),
            sub == s@.subrange(from as int, to as int),
            line_end(sub, 0) == line_end(sub, k - from),
        decreases to - k,
    {
        proof {
            assert(sub[k - from] == s@[k as int]);
        }
        k = k + 1;
    }
    proof {
        if k < to {
            assert(sub[k - from] == s@[k as int]);
        }
        assert(line_end(sub, 0) == k - from);
    }
    let head = trim_substr(s, n, from, k);
    if k == to {
        proof {
            assert(sub.take(sub.len() as int) =~= sub);
            assert(s@.subrange(from as int, k as int) =~= sub);
        }
        head
    } else {
        let tail = comment_text_exec(s, n, k + 1, to);
        let r = head.concat("\n").concat(tail.as_str());
        proof {
            reveal_strlit("\n");
            assert("\n"@ =~= seq!['\n']);
            assert(s@.subrange(from as int, k as int) =~= sub.take(k - from));
            assert(s@.subrange(k + 1, to as int) =~= sub.skip(k - from + 1));
            assert(r@ =~= trim(sub.take(k - from)) + seq!['\n'] + comment_text(
                sub.skip(k - from + 1),
            ));
        }
        r
    }
}

} // verus!

