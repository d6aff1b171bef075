//! Verified text utilities.
//!
//! Every kernel pseudo-file this library reads is line-oriented ASCII text,
//! so all parsing is done over character slices with exact contracts. The
//! spec functions here are the vocabulary the collector contracts are
//! written in: decimal values, whitespace trimming, prefix and substring
//! tests, and line decomposition.

use vstd::prelude::*;
use vstd::string::StringExecFns;

verus! {

/// A decimal digit.
pub open spec fn is_dec_digit(c: char) -> bool {
    '0' <= c && c <= '9'
}

/// Every character of `s` is a decimal digit.
pub open spec fn all_dec_digits(s: Seq<char>) -> bool {
    forall|i: int| 0 <= i < s.len() ==> is_dec_digit(#[trigger] s[i])
}

/// The value of `s` read as a decimal numeral (most significant first).
pub open spec fn dec_value(s: Seq<char>) -> int
    decreases s.len(),
{
    if s.len() == 0 {
        0
    } else {
        dec_value(s.drop_last()) * 10 + (s.last() as int - '0' as int)
    }
}

/// ASCII whitespace, the only kind that occurs in kernel pseudo-files.
pub open spec fn is_space(c: char) -> bool {
    c == ' ' || c == '\t' || c == '\n' || c == '\r'
}

/// Lower-case image of an ASCII letter; other characters map to themselves.
pub open spec fn lower_char(c: char) -> char {
    if 'A' <= c && c <= 'Z' {
        ((c as u8) + 32) as char
    } else {
        c
    }
}

/// `s`, lower-cased character by character.
pub open spec fn lower_seq(s: Seq<char>) -> Seq<char> {
    s.map_values(|c: char| lower_char(c))
}

/// `p` occurs in `s` starting at `i`.
pub open spec fn matches_at(s: Seq<char>, p: Seq<char>, i: int) -> bool {
    0 <= i && i + p.len() <= s.len() && s.subrange(i, i + p.len() as int) == p
}

/// `p` occurs somewhere in `s`.
pub open spec fn contains_seq(s: Seq<char>, p: Seq<char>) -> bool {
    exists|i: int| matches_at(s, p, i)
}

/// `s` with leading and trailing ASCII whitespace removed.
pub open spec fn trimmed(s: Seq<char>) -> Seq<char>
    decreases s.len(),
{
    if s.len() == 0 {
        s
    } else if is_space(s[0]) {
        trimmed(s.subrange(1, s.len() as int))
    } else if is_space(s.last()) {
        trimmed(s.drop_last())
    } else {
        s
    }
}

/// The characters of `s`, as an indexable vector.
pub fn chars_of(s: &str) -> (r: Vec<char>)
    ensures
        r@ == s@,
{
    let n: usize = s.unicode_len();
    let mut r: Vec<char> = Vec::new();
    let mut i: usize = 0;
    while i < n
        invariant
            n == s@.len(),
            i <= n,
            r@ == s@.subrange(0, i as int),
        decreases n - i,
    {
        r.push(s.get_char(i));
        i += 1;
        proof {
            assert(r@ =~= s@.subrange(0, i as int));
        }
    }
    proof {
        assert(r@ =~= s@);
    }
    r
}

/// Character-slice equality.
pub fn chars_eq(a: &[char], b: &[char]) -> (r: bool)
    ensures
        r == (a@ == b@),
{
    if a.len() != b.len() {
        proof {
            assert(a@ != b@);
        }
        return false;
    }
    let n: usize = a.len();
    let mut i: usize = 0;
    while i < n
        invariant
            n == a@.len() && n == b@.len(),
            i <= n,
            forall|j: int| 0 <= j < i ==> a@[j] == b@[j],
        decreases n - i,
    {
        if a[i] != b[i] {
            proof {
                assert(a@ != b@);
            }
            return false;
        }
        i += 1;
    }
    proof {
        assert(a@ =~= b@);
    }
    true
}

/// Does `p` occur in `s` starting exactly at index `at`?
pub fn has_at(s: &[char], p: &[char], at: usize) -> (r: bool)
    ensures
        r == matches_at(s@, p@, at as int),
{
    if p.len() > s.len() || at > s.len() - p.len() {
        return false;
    }
    let n: usize = p.len();
    let sn: usize = s.len();
    let mut i: usize = 0;
    while i < n
        invariant
            n == p@.len(),
            sn == s@.len(),
            at + n <= sn,
            i <= n,
            forall|j: int| 0 <= j < i ==> s@[at + j] == p@[j],
        decreases n - i,
    {
        if s[at + i] != p[i] {
            proof {
                assert(s@.subrange(at as int, at + p@.len() as int)[i as int] != p@[i as int]);
            }
            return false;
        }
        i += 1;
    }
    proof {
        assert(s@.subrange(at as int, at + p@.len() as int) =~= p@);
    }
    true
}

/// Does `s` start with `p`?
pub fn starts_with(s: &[char], p: &[char]) -> (r: bool)
    ensures
        r == matches_at(s@, p@, 0),
{
    has_at(s, p, 0)
}

/// Index of the first occurrence of `p` in `s`, if any.
pub fn find_sub(s: &[char], p: &[char]) -> (r: Option<usize>)
    ensures
        r matches Some(i) ==> matches_at(s@, p@, i as int) && forall|j: int|
            0 <= j < i ==> !matches_at(s@, p@, j),
        r is None ==> !contains_seq(s@, p@),
{
    if p.len() == 0 {
        proof {
            assert(s@.subrange(0, 0) =~= p@);
        }
        return Some(0);
    }
    if p.len() > s.len() {
        return None;
    }
    let last: usize = s.len() - p.len();
    let mut i: usize = 0;
    while i <= last
        invariant
            p@.len() <= s@.len(),
            last == s@.len() - p@.len(),
            i <= last + 1,
            last < usize::MAX,
            forall|j: int| 0 <= j < i ==> !matches_at(s@, p@, j),
        decreases last + 1 - i,
    {
        if has_at(s, p, i) {
            return Some(i);
        }
        i += 1;
    }
    proof {
        assert forall|j: int| !matches_at(s@, p@, j) by {
            if 0 <= j && j + p@.len() <= s@.len() {
                assert(j < i);
            }
        }
    }
    None
}

/// Does `p` occur anywhere in `s`?
pub fn contains(s: &[char], p: &[char]) -> (r: bool)
    ensures
        r == contains_seq(s@, p@),
{
    find_sub(s, p).is_some()
}

/// Index of the first occurrence of `c` at or after `from`, if any.
pub fn find_char_from(s: &[char], c: char, from: usize) -> (r: Option<usize>)
    ensures
        r matches Some(i) ==> from <= i < s@.len() && s@[i as int] == c && forall|j: int|
            from <= j < i ==> s@[j] != c,
        r is None ==> forall|j: int| from <= j < s@.len() ==> s@[j] != c,
{
    let n: usize = s.len();
    let mut i: usize = from;
    while i < n
        invariant
            n == s@.len(),
            from <= i || i == from,
            i >= from,
            i <= n || from > n,
            forall|j: int| from <= j < i ==> s@[j] != c,
        decreases n - i,
    {
        if s[i] == c {
            return Some(i);
        }
        i += 1;
    }
    None
}

/// Lower-case an ASCII letter, leaving every other character unchanged.
pub fn to_lower(c: char) -> (r: char)
    ensures
        r == lower_char(c),
{
    match c {
        'A' => 'a',
        'B' => 'b',
        'C' => 'c',
        'D' => 'd',
        'E' => 'e',
        'F' => 'f',
        'G' => 'g',
        'H' => 'h',
        'I' => 'i',
        'J' => 'j',
        'K' => 'k',
        'L' => 'l',
        'M' => 'm',
        'N' => 'n',
        'O' => 'o',
        'P' => 'p',
        'Q' => 'q',
        'R' => 'r',
        'S' => 's',
        'T' => 't',
        'U' => 'u',
        'V' => 'v',
        'W' => 'w',
        'X' => 'x',
        'Y' => 'y',
        'Z' => 'z',
        _ => c,
    }
}

/// `s`, lower-cased.
pub fn lower_all(s: &[char]) -> (r: Vec<char>)
    ensures
        r@ == lower_seq(s@),
{
    let n: usize = s.len();
    let mut r: Vec<char> = Vec::new();
    let mut i: usize = 0;
    while i < n
        invariant
            n == s@.len(),
            i <= n,
            r@.len() == i,
            forall|j: int| 0 <= j < i ==> r@[j] == lower_char(s@[j]),
        decreases n - i,
    {
        r.push(to_lower(s[i]));
        i += 1;
    }
    proof {
        assert(r@ =~= lower_seq(s@));
    }
    r
}

/// Trim bounds: the first index of the trimmed middle and the index one
/// past its end, so that `s[start..end]` is `trimmed(s)`.
pub fn trim_bounds(s: &[char]) -> (r: (usize, usize))
    ensures
        r.0 <= r.1 <= s@.len(),
        s@.subrange(r.0 as int, r.1 as int) == trimmed(s@),
{
    let n: usize = s.len();
    let mut start: usize = 0;
    let mut end: usize = n;
    proof {
        assert(s@.subrange(0, n as int) =~= s@);
    }
    while start < end && is_space_exec(s[start])
        invariant
            end <= n,
            n == s@.len(),
            start <= end,
            trimmed(s@) == trimmed(s@.subrange(start as int, end as int)),
            end == n,
        decreases end - start,
    {
        proof {
            lemma_trimmed_drop_first(s@.subrange(start as int, end as int));
            assert(s@.subrange(start as int, end as int).subrange(
                1,
                (end - start) as int,
            ) =~= s@.subrange(start as int + 1, end as int));
        }
        start += 1;
    }
    while start < end && is_space_exec(s[end - 1])
        invariant
            start <= end <= n,
            n == s@.len(),
            trimmed(s@) == trimmed(s@.subrange(start as int, end as int)),
            start == end || !is_space(s@[start as int]),
        decreases end,
    {
        proof {
            lemma_trimmed_drop_last(s@.subrange(start as int, end as int));
            assert(s@.subrange(start as int, end as int).drop_last() =~= s@.subrange(
                start as int,
                end as int - 1,
            ));
        }
        end -= 1;
    }
    proof {
        lemma_trimmed_fixed(s@.subrange(start as int, end as int));
    }
    (start, end)
}

/// Executable whitespace test.
pub fn is_space_exec(c: char) -> (r: bool)
    ensures
        r == is_space(c),
{
    c == ' ' || c == '\t' || c == '\n' || c == '\r'
}

proof fn lemma_trimmed_drop_first(s: Seq<char>)
    requires
        s.len() > 0,
        is_space(s[0]),
    ensures
        trimmed(s) == trimmed(s.subrange(1, s.len() as int)),
{
}

proof fn lemma_trimmed_drop_last(s: Seq<char>)
    requires
        s.len() > 0,
        !is_space(s[0]) || s.len() == 1,
        is_space(s.last()),
    ensures
        trimmed(s) == trimmed(s.drop_last()),
{
    if s.len() == 1 && is_space(s[0]) {
        assert(s.subrange(1, s.len() as int) =~= s.drop_last());
    }
}

proof fn lemma_trimmed_fixed(s: Seq<char>)
    requires
        s.len() == 0 || (!is_space(s[0]) && !is_space(s.last())),
    ensures
        trimmed(s) == s,
{
}

/// Index of the first newline in `s`, or `s.len()` if there is none.
pub open spec fn first_nl(s: Seq<char>) -> int
    decreases s.len(),
{
    if s.len() == 0 {
        0
    } else if s[0] == '\n' {
        0
    } else {
        1 + first_nl(s.drop_first())
    }
}

/// `s` decomposed at newlines, the terminator of each line dropped.
/// Text ending in a newline has no trailing empty line, as with the
/// line-oriented kernel pseudo-files this library reads.
pub open spec fn lines_spec(s: Seq<char>) -> Seq<Seq<char>>
    decreases s.len(),
{
    if s.len() == 0 {
        Seq::empty()
    } else {
        let i = if 0 <= first_nl(s) <= s.len() { first_nl(s) } else { s.len() as int };
        if i == s.len() {
            seq![s]
        } else {
            seq![s.subrange(0, i)] + lines_spec(s.subrange(i + 1, s.len() as int))
        }
    }
}

/// Index of the first occurrence of `c` in `s`, or `s.len()` if absent.
pub open spec fn first_idx_of(s: Seq<char>, c: char) -> int
    decreases s.len(),
{
    if s.len() == 0 {
        0
    } else if s[0] == c {
        0
    } else {
        1 + first_idx_of(s.drop_first(), c)
    }
}

/// `first_idx_of` is determined by a scan.
pub proof fn lemma_first_idx_is(s: Seq<char>, c: char, i: int)
    requires
        0 <= i <= s.len(),
        forall|j: int| 0 <= j < i ==> s[j] != c,
        i < s.len() ==> s[i] == c,
    ensures
        first_idx_of(s, c) == i,
    decreases s.len(),
{
    if s.len() > 0 && i > 0 {
        lemma_first_idx_is(s.drop_first(), c, i - 1);
    }
}

/// Split `s` at the first occurrence of `c`: the pieces before and after
/// it, or `None` if `c` does not occur.
pub fn split_once_at(s: &[char], c: char) -> (r: Option<(usize, usize)>)
    ensures
        r matches Some(p) ==> p.0 < s@.len() && p.1 == p.0 + 1 && s@[p.0 as int] == c
            && first_idx_of(s@, c) == p.0,
        r is None ==> first_idx_of(s@, c) >= s@.len(),
    {
    let n: usize = s.len();
    match find_char_from(s, c, 0) {
        Some(i) => {
            proof {
                lemma_first_idx_is(s@, c, i as int);
                assert(i < n);
            }
            Some((i, i + 1))
        }
        None => {
            proof {
                lemma_first_idx_is(s@, c, s@.len() as int);
            }
            None
        }
    }
}

/// Index of the first occurrence of `p` in `s`, or `s.len()` where it
/// does not occur.
pub open spec fn first_match_idx(s: Seq<char>, p: Seq<char>) -> int
    decreases s.len(),
{
    if matches_at(s, p, 0) {
        0
    } else if s.len() == 0 {
        0
    } else {
        1 + first_match_idx(s.drop_first(), p)
    }
}

/// An occurrence test shifts with the sequence.
proof fn lemma_matches_shift(s: Seq<char>, p: Seq<char>, j: int)
    requires
        1 <= j,
        s.len() >= 1,
    ensures
        matches_at(s, p, j) <==> matches_at(s.drop_first(), p, j - 1),
{
    if matches_at(s, p, j) {
        assert(s.drop_first().subrange(j - 1, j - 1 + p.len() as int) =~= s.subrange(
            j,
            j + p.len() as int,
        ));
    }
    if matches_at(s.drop_first(), p, j - 1) {
        assert(s.subrange(j, j + p.len() as int) =~= s.drop_first().subrange(
            j - 1,
            j - 1 + p.len() as int,
        ));
    }
}

/// `first_match_idx` is determined by a scan.
pub proof fn lemma_first_match_is(s: Seq<char>, p: Seq<char>, i: int)
    requires
        0 <= i <= s.len(),
        forall|j: int| 0 <= j < i ==> !matches_at(s, p, j),
        i < s.len() || matches_at(s, p, i) || i == s.len(),
        i == s.len() ==> forall|j: int| !matches_at(s, p, j),
        i < s.len() ==> matches_at(s, p, i),
    ensures
        first_match_idx(s, p) == i,
    decreases s.len(),
{
    if i == 0 && matches_at(s, p, 0) {
    } else if s.len() == 0 {
    } else {
        assert(!matches_at(s, p, 0));
        assert forall|j: int| 0 <= j < i - 1 implies !matches_at(s.drop_first(), p, j) by {
            lemma_matches_shift(s, p, j + 1);
        }
        if i < s.len() {
            lemma_matches_shift(s, p, i);
            lemma_first_match_is(s.drop_first(), p, i - 1);
        } else {
            assert forall|j: int| !matches_at(s.drop_first(), p, j) by {
                if j >= 1 - 1 {
                    lemma_matches_shift(s, p, j + 1);
                }
                if j < 0 {
                }
            }
            lemma_first_match_is(s.drop_first(), p, i - 1);
        }
    }
}

/// Index of the first occurrence of `p` in `s`, or `s.len()` if absent,
/// as `first_match_idx` states it.
pub fn find_first_match(s: &[char], p: &[char]) -> (r: usize)
    requires
        p@.len() > 0,
    ensures
        r == first_match_idx(s@, p@) || (r == s@.len() && first_match_idx(s@, p@) >= s@.len()),
        r <= s@.len(),
        r < s@.len() ==> matches_at(s@, p@, r as int) && r == first_match_idx(s@, p@),
        r == s@.len() ==> !contains_seq(s@, p@),
{
    match find_sub(s, p) {
        Some(i) => {
            proof {
                lemma_first_match_is(s@, p@, i as int);
            }
            i
        }
        None => {
            let n: usize = s.len();
            proof {
                assert forall|j: int| !matches_at(s@, p@, j) by {
                    if matches_at(s@, p@, j) {
                        assert(contains_seq(s@, p@));
                    }
                }
                lemma_first_match_is(s@, p@, n as int);
            }
            n
        }
    }
}

/// Index of the first whitespace character in `s`, or `s.len()`.
pub open spec fn first_space(s: Seq<char>) -> int
    decreases s.len(),
{
    if s.len() == 0 {
        0
    } else if is_space(s[0]) {
        0
    } else {
        1 + first_space(s.drop_first())
    }
}

/// `s` decomposed into maximal whitespace-free runs.
pub open spec fn tokens_spec(s: Seq<char>) -> Seq<Seq<char>>
    decreases s.len(),
{
    if s.len() == 0 {
        Seq::empty()
    } else if is_space(s[0]) {
        tokens_spec(s.drop_first())
    } else {
        let i = if 1 <= first_space(s) <= s.len() { first_space(s) } else { s.len() as int };
        seq![s.subrange(0, i)] + tokens_spec(s.subrange(i, s.len() as int))
    }
}

/// `first_nl` is determined by a scan: if nothing before `i` is a
/// newline and `i` is one (or the end), then `first_nl` is `i`.
proof fn lemma_first_nl_is(s: Seq<char>, i: int)
    requires
        0 <= i <= s.len(),
        forall|j: int| 0 <= j < i ==> s[j] != '\n',
        i < s.len() ==> s[i] == '\n',
    ensures
        first_nl(s) == i,
    decreases s.len(),
{
    if s.len() > 0 && i > 0 {
        lemma_first_nl_is(s.drop_first(), i - 1);
    }
}

proof fn lemma_first_space_is(s: Seq<char>, i: int)
    requires
        0 <= i <= s.len(),
        forall|j: int| 0 <= j < i ==> !is_space(s[j]),
        i < s.len() ==> is_space(s[i]),
    ensures
        first_space(s) == i,
    decreases s.len(),
{
    if s.len() > 0 && i > 0 {
        lemma_first_space_is(s.drop_first(), i - 1);
    }
}

/// Index of the first whitespace character at or after `from`, or
/// `s.len()` if the rest is solid.
fn find_space_from(s: &[char], from: usize) -> (r: usize)
    requires
        from <= s@.len(),
    ensures
        from <= r <= s@.len(),
        r < s@.len() ==> is_space(s@[r as int]),
        forall|j: int| from <= j < r ==> !is_space(s@[j]),
{
    let n: usize = s.len();
    let mut i: usize = from;
    while i < n
        invariant
            n == s@.len(),
            from <= i <= n,
            forall|j: int| from <= j < i ==> !is_space(s@[j]),
        decreases n - i,
    {
        if is_space_exec(s[i]) {
            return i;
        }
        i += 1;
    }
    i
}

/// The lines of `s[from..]`.
pub fn split_lines_from(s: &[char], from: usize) -> (r: Vec<Vec<char>>)
    requires
        from <= s@.len(),
    ensures
        r@.map_values(|l: Vec<char>| l@) == lines_spec(s@.skip(from as int)),
    decreases s@.len() - from,
{
    let ghost rest = s@.skip(from as int);
    let n: usize = s.len();
    let mut out: Vec<Vec<char>> = Vec::new();
    if from >= n {
        proof {
            assert(out@.map_values(|l: Vec<char>| l@) =~= lines_spec(rest));
        }
        return out;
    }
    let i = match find_char_from(s, '\n', from) {
        Some(i) => i,
        None => n,
    };
    proof {
        assert forall|j: int| 0 <= j < i - from implies rest[j] != '\n' by {
            assert(rest[j] == s@[from + j]);
        }
        lemma_first_nl_is(rest, i - from);
    }
    let head: Vec<char> = slice_to_vec_chars(s, from, i);
    out.push(head);
    if i == n {
        proof {
            assert(out@.map_values(|l: Vec<char>| l@) =~= seq![rest]);
            assert(rest =~= s@.subrange(from as int, n as int));
        }
        out
    } else {
        let mut tail = split_lines_from(s, i + 1);
        proof {
            assert(rest.subrange(0, i - from) =~= s@.subrange(from as int, i as int));
            assert(rest.subrange(i - from + 1, rest.len() as int) =~= s@.skip(i as int + 1));
        }
        out.append(&mut tail);
        proof {
            assert(out@.map_values(|l: Vec<char>| l@) =~= lines_spec(rest));
        }
        out
    }
}

/// The lines of `s`.
pub fn split_lines(s: &[char]) -> (r: Vec<Vec<char>>)
    ensures
        r@.map_values(|l: Vec<char>| l@) == lines_spec(s@),
{
    let r = split_lines_from(s, 0);
    proof {
        assert(s@.skip(0) =~= s@);
    }
    r
}

/// The whitespace-separated tokens of `s[from..]`.
pub fn split_tokens_from(s: &[char], from: usize) -> (r: Vec<Vec<char>>)
    requires
        from <= s@.len(),
    ensures
        r@.map_values(|t: Vec<char>| t@) == tokens_spec(s@.skip(from as int)),
    decreases s@.len() - from,
{
    let ghost rest = s@.skip(from as int);
    let n: usize = s.len();
    let mut out: Vec<Vec<char>> = Vec::new();
    if from >= n {
        proof {
            assert(out@.map_values(|t: Vec<char>| t@) =~= lines_spec(rest));
            assert(rest.len() == 0);
        }
        return out;
    }
    if is_space_exec(s[from]) {
        let r = split_tokens_from(s, from + 1);
        proof {
            assert(rest.drop_first() =~= s@.skip(from as int + 1));
        }
        return r;
    }
    let i = find_space_from(s, from);
    proof {
        assert forall|j: int| 0 <= j < i - from implies !is_space(rest[j]) by {
            assert(rest[j] == s@[from + j]);
        }
        lemma_first_space_is(rest, i - from);
    }
    let head: Vec<char> = slice_to_vec_chars(s, from, i);
    out.push(head);
    let mut tail = split_tokens_from(s, i);
    proof {
        assert(rest.subrange(0, i - from) =~= s@.subrange(from as int, i as int));
        assert(rest.subrange(i - from, rest.len() as int) =~= s@.skip(i as int));
    }
    out.append(&mut tail);
    proof {
        assert(out@.map_values(|t: Vec<char>| t@) =~= tokens_spec(rest));
    }
    out
}

/// The whitespace-separated tokens of `s[from..]`, as index spans
/// into `s`.
pub fn token_spans_from(s: &[char], from: usize) -> (r: Vec<(usize, usize)>)
    requires
        from <= s@.len(),
    ensures
        r@.map_values(|p: (usize, usize)| s@.subrange(p.0 as int, p.1 as int)) == tokens_spec(
            s@.skip(from as int),
        ),
        forall|k: int|
            0 <= k < r@.len() ==> from <= (#[trigger] r@[k]).0 && r@[k].0 <= r@[k].1 && r@[k].1
                <= s@.len(),
    decreases s@.len() - from,
{
    let ghost rest = s@.skip(from as int);
    let n: usize = s.len();
    let mut out: Vec<(usize, usize)> = Vec::new();
    if from >= n {
        proof {
            assert(out@.map_values(|p: (usize, usize)| s@.subrange(p.0 as int, p.1 as int))
                =~= tokens_spec(rest));
        }
        return out;
    }
    if is_space_exec(s[from]) {
        let r = token_spans_from(s, from + 1);
        proof {
            assert(rest.drop_first() =~= s@.skip(from as int + 1));
        }
        return r;
    }
    let i = find_space_from(s, from);
    proof {
        assert forall|j: int| 0 <= j < i - from implies !is_space(rest[j]) by {
            assert(rest[j] == s@[from + j]);
        }
        lemma_first_space_is(rest, i - from);
    }
    out.push((from, i));
    let mut tail = token_spans_from(s, i);
    proof {
        assert(rest.subrange(0, i - from) =~= s@.subrange(from as int, i as int));
        assert(rest.subrange(i - from, rest.len() as int) =~= s@.skip(i as int));
    }
    out.append(&mut tail);
    proof {
        assert(out@.map_values(|p: (usize, usize)| s@.subrange(p.0 as int, p.1 as int))
            =~= tokens_spec(rest));
    }
    out
}

/// The whitespace-separated tokens of `s`, as index spans into `s`.
pub fn token_spans(s: &[char]) -> (r: Vec<(usize, usize)>)
    ensures
        r@.map_values(|p: (usize, usize)| s@.subrange(p.0 as int, p.1 as int)) == tokens_spec(s@),
        forall|k: int|
            0 <= k < r@.len() ==> (#[trigger] r@[k]).0 <= r@[k].1 && r@[k].1 <= s@.len(),
{
    let r = token_spans_from(s, 0);
    proof {
        assert(s@.skip(0) =~= s@);
    }
    r
}

/// The whitespace-separated tokens of `s`.
pub fn split_tokens(s: &[char]) -> (r: Vec<Vec<char>>)
    ensures
        r@.map_values(|t: Vec<char>| t@) == tokens_spec(s@),
{
    let r = split_tokens_from(s, 0);
    proof {
        assert(s@.skip(0) =~= s@);
    }
    r
}

/// `s` decomposed at a separator character, the separator dropped, a
/// trailing empty piece dropped.
pub open spec fn sep_split_spec(s: Seq<char>, sep: char) -> Seq<Seq<char>>
    decreases s.len(),
{
    if s.len() == 0 {
        Seq::empty()
    } else {
        let i = if 0 <= first_idx_of(s, sep) <= s.len() {
            first_idx_of(s, sep)
        } else {
            s.len() as int
        };
        if i == s.len() {
            seq![s]
        } else {
            seq![s.subrange(0, i)] + sep_split_spec(s.subrange(i + 1, s.len() as int), sep)
        }
    }
}

/// The pieces of `s[from..]` between separators.
pub fn split_sep_from(s: &[char], sep: char, from: usize) -> (r: Vec<Vec<char>>)
    requires
        from <= s@.len(),
    ensures
        r@.map_values(|l: Vec<char>| l@) == sep_split_spec(s@.skip(from as int), sep),
    decreases s@.len() - from,
{
    let ghost rest = s@.skip(from as int);
    let n: usize = s.len();
    let mut out: Vec<Vec<char>> = Vec::new();
    if from >= n {
        proof {
            assert(out@.map_values(|l: Vec<char>| l@) =~= sep_split_spec(rest, sep));
        }
        return out;
    }
    let i = match find_char_from(s, sep, from) {
        Some(i) => i,
        None => n,
    };
    proof {
        assert forall|j: int| 0 <= j < i - from implies rest[j] != sep by {
            assert(rest[j] == s@[from + j]);
        }
        lemma_first_idx_is(rest, sep, i - from);
    }
    let head: Vec<char> = slice_to_vec_chars(s, from, i);
    out.push(head);
    if i == n {
        proof {
            assert(out@.map_values(|l: Vec<char>| l@) =~= seq![rest]);
            assert(rest =~= s@.subrange(from as int, n as int));
        }
        out
    } else {
        let mut tail = split_sep_from(s, sep, i + 1);
        proof {
            assert(rest.subrange(0, i - from) =~= s@.subrange(from as int, i as int));
            assert(rest.subrange(i - from + 1, rest.len() as int) =~= s@.skip(i as int + 1));
        }
        out.append(&mut tail);
        proof {
            assert(out@.map_values(|l: Vec<char>| l@) =~= sep_split_spec(rest, sep));
        }
        out
    }
}

/// The pieces of `s` between separators.
pub fn split_sep(s: &[char], sep: char) -> (r: Vec<Vec<char>>)
    ensures
        r@.map_values(|l: Vec<char>| l@) == sep_split_spec(s@, sep),
{
    let r = split_sep_from(s, sep, 0);
    proof {
        assert(s@.skip(0) =~= s@);
    }
    r
}

fn digit_str(d: u64) -> (r: &'static str)
    requires
        d < 10,
    ensures
        r@ == seq![digit_char_spec(d as int)],
{
    proof {
        reveal_strlit("0");
        reveal_strlit("1");
        reveal_strlit("2");
        reveal_strlit("3");
        reveal_strlit("4");
        reveal_strlit("5");
        reveal_strlit("6");
        reveal_strlit("7");
        reveal_strlit("8");
        reveal_strlit("9");
    }
    let r = match d {
        0 => "0",
        1 => "1",
        2 => "2",
        3 => "3",
        4 => "4",
        5 => "5",
        6 => "6",
        7 => "7",
        8 => "8",
        _ => "9",
    };
    proof {
        assert(r@ =~= seq![digit_char_spec(d as int)]);
    }
    r
}

/// Write `n` as its decimal numeral, as an owned string.
pub fn u64_to_string(n: u64) -> (r: String)
    ensures
        r@ == dec_chars(n as int),
    decreases n,
{
    if n < 10 {
        let r = digit_str(n).to_owned();
        proof {
            assert(r@ =~= dec_chars(n as int));
        }
        r
    } else {
        let mut r = u64_to_string(n / 10);
        r.append(digit_str(n % 10));
        proof {
            assert(r@ =~= dec_chars(n as int));
        }
        r
    }
}

/// `s` with every trailing occurrence of `c` removed.
pub open spec fn strip_trailing(s: Seq<char>, c: char) -> Seq<char>
    decreases s.len(),
{
    if s.len() > 0 && s.last() == c {
        strip_trailing(s.drop_last(), c)
    } else {
        s
    }
}

/// The length of `s` once trailing occurrences of `c` are dropped.
pub fn strip_trailing_end(s: &[char], c: char) -> (r: usize)
    ensures
        r <= s@.len(),
        s@.subrange(0, r as int) == strip_trailing(s@, c),
{
    let n: usize = s.len();
    let mut end: usize = n;
    proof {
        assert(s@.subrange(0, n as int) =~= s@);
    }
    while end > 0 && s[end - 1] == c
        invariant
            end <= n,
            n == s@.len(),
            strip_trailing(s@, c) == strip_trailing(s@.subrange(0, end as int), c),
        decreases end,
    {
        proof {
            assert(s@.subrange(0, end as int).drop_last() =~= s@.subrange(0, end as int - 1));
        }
        end -= 1;
    }
    end
}

/// Index of the first character of `s` that is one of three given
/// characters, or `s.len()` where none occurs.
pub open spec fn first_of3_idx(s: Seq<char>, a: char, b: char, c: char) -> int
    decreases s.len(),
{
    if s.len() == 0 {
        0
    } else if s[0] == a || s[0] == b || s[0] == c {
        0
    } else {
        1 + first_of3_idx(s.drop_first(), a, b, c)
    }
}

proof fn lemma_first_of3_is(s: Seq<char>, a: char, b: char, c: char, i: int)
    requires
        0 <= i <= s.len(),
        forall|j: int| 0 <= j < i ==> s[j] != a && s[j] != b && s[j] != c,
        i < s.len() ==> s[i] == a || s[i] == b || s[i] == c,
    ensures
        first_of3_idx(s, a, b, c) == i,
    decreases s.len(),
{
    if s.len() > 0 && i > 0 {
        lemma_first_of3_is(s.drop_first(), a, b, c, i - 1);
    }
}

/// Find the first of three characters, or `s.len()` where none occurs.
pub fn find_first_of3(s: &[char], a: char, b: char, c: char) -> (r: usize)
    ensures
        r == first_of3_idx(s@, a, b, c) || (r == s@.len() && first_of3_idx(s@, a, b, c)
            >= s@.len()),
        r <= s@.len(),
        r == first_of3_idx(s@, a, b, c),
{
    let n: usize = s.len();
    let mut i: usize = 0;
    while i < n
        invariant
            n == s@.len(),
            i <= n,
            forall|j: int| 0 <= j < i ==> s@[j] != a && s@[j] != b && s@[j] != c,
        decreases n - i,
    {
        if s[i] == a || s[i] == b || s[i] == c {
            proof {
                lemma_first_of3_is(s@, a, b, c, i as int);
            }
            return i;
        }
        i += 1;
    }
    proof {
        lemma_first_of3_is(s@, a, b, c, n as int);
    }
    n
}

/// The line decomposition of `s[from..]`, as index spans into `s`:
/// each span bounds one line, in order.
pub fn line_spans_from(s: &[char], from: usize) -> (r: Vec<(usize, usize)>)
    requires
        from <= s@.len(),
    ensures
        r@.map_values(|p: (usize, usize)| s@.subrange(p.0 as int, p.1 as int)) == lines_spec(
            s@.skip(from as int),
        ),
        forall|k: int|
            0 <= k < r@.len() ==> from <= (#[trigger] r@[k]).0 && r@[k].0 <= r@[k].1 && r@[k].1
                <= s@.len(),
    decreases s@.len() - from,
{
    let ghost rest = s@.skip(from as int);
    let n: usize = s.len();
    let mut out: Vec<(usize, usize)> = Vec::new();
    if from >= n {
        proof {
            assert(out@.map_values(|p: (usize, usize)| s@.subrange(p.0 as int, p.1 as int))
                =~= lines_spec(rest));
        }
        return out;
    }
    let i = match find_char_from(s, '\n', from) {
        Some(i) => i,
        None => n,
    };
    proof {
        assert forall|j: int| 0 <= j < i - from implies rest[j] != '\n' by {
            assert(rest[j] == s@[from + j]);
        }
        lemma_first_nl_is(rest, i - from);
    }
    out.push((from, i));
    if i == n {
        proof {
            assert(out@.map_values(|p: (usize, usize)| s@.subrange(p.0 as int, p.1 as int))
                =~= seq![rest]);
            assert(rest =~= s@.subrange(from as int, n as int));
        }
        out
    } else {
        let mut tail = line_spans_from(s, i + 1);
        proof {
            assert(rest.subrange(0, i - from) =~= s@.subrange(from as int, i as int));
            assert(rest.subrange(i - from + 1, rest.len() as int) =~= s@.skip(i as int + 1));
        }
        out.append(&mut tail);
        proof {
            assert(out@.map_values(|p: (usize, usize)| s@.subrange(p.0 as int, p.1 as int))
                =~= lines_spec(rest));
        }
        out
    }
}

/// The line decomposition of `s`, as index spans into `s`.
pub fn line_spans(s: &[char]) -> (r: Vec<(usize, usize)>)
    ensures
        r@.map_values(|p: (usize, usize)| s@.subrange(p.0 as int, p.1 as int)) == lines_spec(s@),
        forall|k: int|
            0 <= k < r@.len() ==> (#[trigger] r@[k]).0 <= r@[k].1 && r@[k].1 <= s@.len(),
{
    let r = line_spans_from(s, 0);
    proof {
        assert(s@.skip(0) =~= s@);
    }
    r
}

/// Copy `s[a..b]` into a fresh vector.
pub fn slice_to_vec_chars(s: &[char], a: usize, b: usize) -> (r: Vec<char>)
    requires
        a <= b <= s@.len(),
    ensures
        r@ == s@.subrange(a as int, b as int),
{
    let part: &[char] = &s[a..b];
    vstd::slice::slice_to_vec(part)
}

/// The trimmed copy of a string.
pub fn trim_str(s: &str) -> (r: String)
    ensures
        r@ == trimmed(s@),
{
    let cv = chars_of(s);
    let (a, b) = trim_bounds(cv.as_slice());
    s.substring_char(a, b).to_owned()
}

/// The trimmed copy of `s`.
pub fn trim_copy(s: &[char]) -> (r: Vec<char>)
    ensures
        r@ == trimmed(s@),
{
    let (a, b) = trim_bounds(s);
    slice_to_vec_chars(s, a, b)
}

/// The decimal numeral of `n`, most significant digit first, without
/// leading zeros.
pub open spec fn dec_chars(n: int) -> Seq<char>
    decreases n,
{
    if n < 10 {
        seq![digit_char_spec(n)]
    } else {
        dec_chars(n / 10).push(digit_char_spec(n % 10))
    }
}

/// The character of one decimal digit.
pub open spec fn digit_char_spec(d: int) -> char {
    if d == 0 {
        '0'
    } else if d == 1 {
        '1'
    } else if d == 2 {
        '2'
    } else if d == 3 {
        '3'
    } else if d == 4 {
        '4'
    } else if d == 5 {
        '5'
    } else if d == 6 {
        '6'
    } else if d == 7 {
        '7'
    } else if d == 8 {
        '8'
    } else {
        '9'
    }
}

fn digit_char(d: u64) -> (r: char)
    requires
        d < 10,
    ensures
        r == digit_char_spec(d as int),
{
    match d {
        0 => '0',
        1 => '1',
        2 => '2',
        3 => '3',
        4 => '4',
        5 => '5',
        6 => '6',
        7 => '7',
        8 => '8',
        _ => '9',
    }
}

/// Write `n` as its decimal numeral.
pub fn u64_to_chars(n: u64) -> (r: Vec<char>)
    ensures
        r@ == dec_chars(n as int),
    decreases n,
{
    if n < 10 {
        let mut r: Vec<char> = Vec::new();
        r.push(digit_char(n));
        proof {
            assert(r@ =~= dec_chars(n as int));
        }
        r
    } else {
        let mut r = u64_to_chars(n / 10);
        r.push(digit_char(n % 10));
        r
    }
}

/// Concatenate two character slices.
pub fn concat_chars(a: &[char], b: &[char]) -> (r: Vec<char>)
    ensures
        r@ == a@ + b@,
{
    let mut r = vstd::slice::slice_to_vec(a);
    let mut bv = vstd::slice::slice_to_vec(b);
    r.append(&mut bv);
    r
}

/// Concatenate three character slices.
pub fn concat3_chars(a: &[char], b: &[char], c: &[char]) -> (r: Vec<char>)
    ensures
        r@ == a@ + b@ + c@,
{
    let ab = concat_chars(a, b);
    concat_chars(ab.as_slice(), c)
}

/// Parse a whole character slice as a decimal `u64`, as the kernel's
/// numeric pseudo-file fields are written: `Some` exactly when the slice
/// is a non-empty run of digits whose value fits.
pub fn parse_u64(s: &[char]) -> (r: Option<u64>)
    ensures
        r is Some <==> s@.len() > 0 && all_dec_digits(s@) && dec_value(s@) <= u64::MAX,
        r matches Some(v) ==> v == dec_value(s@),
{
    let n: usize = s.len();
    if n == 0 {
        return None;
    }
    let mut acc: u64 = 0;
    let mut i: usize = 0;
    while i < n
        invariant
            n == s@.len(),
            i <= n,
            all_dec_digits(s@.subrange(0, i as int)),
            acc == dec_value(s@.subrange(0, i as int)),
        decreases n - i,
    {
        let c = s[i];
        if !('0' <= c && c <= '9') {
            return None;
        }
        let d: u64 = (c as u64) - ('0' as u64);
        if acc > (u64::MAX - d) / 10 {
            proof {
                lemma_dec_value_grows(s@, i as int);
                assert(s@.subrange(0, i as int + 1).drop_last() =~= s@.subrange(0, i as int));
                assert(dec_value(s@.subrange(0, i as int + 1)) > u64::MAX);
            }
            return None;
        }
        proof {
            assert(s@.subrange(0, i as int + 1).drop_last() =~= s@.subrange(0, i as int));
        }
        acc = acc * 10 + d;
        i += 1;
    }
    proof {
        assert(s@.subrange(0, n as int) =~= s@);
    }
    Some(acc)
}

/// The value of a possibly-signed decimal numeral: `None` unless the
/// slice is an optional minus sign followed by a non-empty run of digits
/// whose value fits an `i64`.
pub open spec fn signed_value_spec(s: Seq<char>) -> Option<i64> {
    if s.len() > 0 && s[0] == '-' {
        let d = s.drop_first();
        if d.len() > 0 && all_dec_digits(d) && -dec_value(d) >= i64::MIN {
            Some((-dec_value(d)) as i64)
        } else {
            None
        }
    } else {
        if s.len() > 0 && all_dec_digits(s) && dec_value(s) <= i64::MAX {
            Some(dec_value(s) as i64)
        } else {
            None
        }
    }
}

/// Parse a whole character slice as a decimal `i64`, as signed kernel
/// fields such as temperatures are written.
pub fn parse_i64(s: &[char]) -> (r: Option<i64>)
    ensures
        r == signed_value_spec(s@),
{
    let n: usize = s.len();
    if n == 0 {
        return None;
    }
    if s[0] == '-' {
        let rest = &s[1..n];
        proof {
            assert(rest@ =~= s@.drop_first());
        }
        match parse_u64(rest) {
            Some(v) => {
                if v <= 9223372036854775808u64 {
                    // |i64::MIN|
                    if v == 9223372036854775808u64 {
                        Some(i64::MIN)
                    } else {
                        Some(-(v as i64))
                    }
                } else {
                    None
                }
            }
            None => None,
        }
    } else {
        match parse_u64(s) {
            Some(v) => if v <= i64::MAX as u64 {
                Some(v as i64)
            } else {
                None
            },
            None => None,
        }
    }
}

/// Every digit appended to a numeral can only keep or grow its value.
proof fn lemma_dec_value_grows(s: Seq<char>, i: int)
    requires
        0 <= i < s.len(),
        all_dec_digits(s.subrange(0, i + 1)),
    ensures
        dec_value(s.subrange(0, i + 1)) >= dec_value(s.subrange(0, i)),
        dec_value(s) >= dec_value(s.subrange(0, i + 1)) || !all_dec_digits(s),
{
    assert(s.subrange(0, i + 1).drop_last() =~= s.subrange(0, i));
    assert(s.subrange(0, i + 1).last() == s[i]);
    assert(dec_value(s.subrange(0, i + 1)) == dec_value(s.subrange(0, i)) * 10 + (s[i] as int
        - '0' as int));
    assert(dec_value(s.subrange(0, i)) >= 0) by {
        lemma_dec_value_nonneg(s.subrange(0, i));
    }
    if all_dec_digits(s) {
        lemma_dec_value_prefix_le(s, i + 1);
    }
}

/// A numeral's value is never negative.
pub proof fn lemma_dec_value_nonneg(s: Seq<char>)
    requires
        all_dec_digits(s),
    ensures
        dec_value(s) >= 0,
    decreases s.len(),
{
    if s.len() > 0 {
        assert(all_dec_digits(s.drop_last())) by {
            assert(forall|j: int|
                0 <= j < s.drop_last().len() ==> s.drop_last()[j] == s[j]);
        }
        lemma_dec_value_nonneg(s.drop_last());
    }
}

/// A numeral is at least as large as any of its prefixes.
proof fn lemma_dec_value_prefix_le(s: Seq<char>, i: int)
    requires
        0 <= i <= s.len(),
        all_dec_digits(s),
    ensures
        dec_value(s.subrange(0, i)) <= dec_value(s),
    decreases s.len() - i,
{
    if i < s.len() {
        assert(s.subrange(0, i + 1).drop_last() =~= s.subrange(0, i));
        assert(all_dec_digits(s.subrange(0, i)));
        lemma_dec_value_nonneg(s.subrange(0, i));
        lemma_dec_value_prefix_le(s, i + 1);
    } else {
        assert(s.subrange(0, i) =~= s);
    }
}

} // verus!
