//! The syntax of the preprocessor directives understood in shader sources:
//! `#pragma once`, the directive that pulls in another file, and the
//! splitting of a source into lines.
use vstd::prelude::*;
use crate::text::occurs_at;

verus! {

/// White space as matched by `\s` in a Unicode regular expression
/// (the Unicode `White_Space` property).
pub open spec fn is_space_spec(c: char) -> bool {
    let u = c as u32;
    ||| 0x09 <= u && u <= 0x0d
    ||| u == 0x20
    ||| u == 0x85
    ||| u == 0xa0
    ||| u == 0x1680
    ||| 0x2000 <= u && u <= 0x200a
    ||| u == 0x2028
    ||| u == 0x2029
    ||| u == 0x202f
    ||| u == 0x205f
    ||| u == 0x3000
}

/// The first position at or after `i` that does not hold white space.
pub open spec fn skip_ws(s: Seq<char>, i: int) -> int
    decreases s.len() - i,
{
    if i < 0 || i >= s.len() {
        i
    } else if is_space_spec(s[i]) {
        skip_ws(s, i + 1)
    } else {
        i
    }
}

pub open spec fn pragma_word() -> Seq<char> {
    seq!['p', 'r', 'a', 'g', 'm', 'a']
}

pub open spec fn once_word() -> Seq<char> {
    seq!['o', 'n', 'c', 'e']
}

pub open spec fn inclusion_keyword() -> Seq<char> {
    seq!['i', 'n', 'c', 'l', 'u', 'd', 'e']
}

/// A `#pragma once` directive (`#`, white space, `pragma`, at least one
/// white space, `once`) starts at position `k` of `s`.
pub open spec fn once_at(s: Seq<char>, k: int) -> bool {
    &&& 0 <= k < s.len()
    &&& s[k] == '#'
    &&& occurs_at(s, pragma_word(), skip_ws(s, k + 1))
    &&& skip_ws(s, skip_ws(s, k + 1) + 6) > skip_ws(s, k + 1) + 6
    &&& occurs_at(s, once_word(), skip_ws(s, skip_ws(s, k + 1) + 6))
}

/// The leftmost `#pragma once` directive at or after `k`.
pub open spec fn find_once_from(s: Seq<char>, k: int) -> Option<int>
    decreases s.len() - k,
{
    if k < 0 || k >= s.len() {
        None
    } else if once_at(s, k) {
        Some(k)
    } else {
        find_once_from(s, k + 1)
    }
}

/// The start of the leftmost `#pragma once` directive of `s`.
pub open spec fn find_once(s: Seq<char>) -> Option<int> {
    find_once_from(s, 0)
}

pub open spec fn is_open_quote(c: char) -> bool {
    c == '<' || c == '"'
}

pub open spec fn is_close_quote(c: char) -> bool {
    c == '>' || c == '"'
}

/// The last position `j` with `e < j <= i` holding a closing quote.
pub open spec fn last_close_from(s: Seq<char>, i: int, e: int) -> Option<int>
    decreases i - e,
{
    if i <= e || i >= s.len() {
        None
    } else if is_close_quote(s[i]) {
        Some(i)
    } else {
        last_close_from(s, i - 1, e)
    }
}

/// Where the keyword of an inclusion must start, for a directive whose `#` is at `k`:
/// after white space and an optional `pragma` followed by white space.
pub open spec fn inclusion_keyword_pos(s: Seq<char>, k: int) -> int {
    let a = skip_ws(s, k + 1);
    if occurs_at(s, pragma_word(), a) {
        skip_ws(s, a + 6)
    } else {
        a
    }
}

/// An inclusion directive (`#`, white space, optionally `pragma` and white
/// space, the keyword, at least one white space, an opening `<` or `"`, the
/// file name, and a closing `>` or `"`) starting at `k`; the result holds the
/// positions of the opening and of the (last possible) closing quote.
pub open spec fn inclusion_at(s: Seq<char>, k: int) -> Option<(int, int)> {
    if !(0 <= k < s.len() && s[k] == '#') {
        None
    } else {
        let c = inclusion_keyword_pos(s, k);
        let e = skip_ws(s, c + 7);
        if occurs_at(s, inclusion_keyword(), c) && e > c + 7 && e < s.len() && is_open_quote(s[e]) {
            match last_close_from(s, s.len() - 1, e) {
                Some(f) => Some((e, f)),
                None => None,
            }
        } else {
            None
        }
    }
}

/// The leftmost inclusion directive at or after `k`: its start, opening and
/// closing quote.
pub open spec fn find_inclusion_from(s: Seq<char>, k: int) -> Option<(int, int, int)>
    decreases s.len() - k,
{
    if k < 0 || k >= s.len() {
        None
    } else {
        match inclusion_at(s, k) {
            Some((e, f)) => Some((k, e, f)),
            None => find_inclusion_from(s, k + 1),
        }
    }
}

/// The leftmost inclusion directive of the line `s`.
pub open spec fn find_inclusion(s: Seq<char>) -> Option<(int, int, int)> {
    find_inclusion_from(s, 0)
}

/// The position of the first line feed at or after `i` (or the length).
pub open spec fn next_newline(s: Seq<char>, i: int) -> int
    decreases s.len() - i,
{
    if i < 0 || i >= s.len() {
        s.len() as int
    } else if s[i] == '\n' {
        i
    } else {
        next_newline(s, i + 1)
    }
}

pub proof fn lemma_next_newline(s: Seq<char>, i: int)
    requires
        0 <= i <= s.len(),
    ensures
        i <= next_newline(s, i) <= s.len(),
        next_newline(s, i) < s.len() ==> s[next_newline(s, i)] == '\n',
        forall|j: int| i <= j < next_newline(s, i) ==> s[j] != '\n',
    decreases s.len() - i,
{
    if i < s.len() && s[i] != '\n' {
        lemma_next_newline(s, i + 1);
    }
}

/// The lines of `s` from position `i` on, as `str::lines` splits them: each
/// as the range of its characters, without the line feed and without a
/// carriage return that precedes it.
pub open spec fn line_spans_from(s: Seq<char>, i: int) -> Seq<(int, int)>
    decreases s.len() - i + 1,
{
    if i < 0 || i >= s.len() {
        seq![]
    } else {
        let e = next_newline(s, i);
        let ce = if e < s.len() && e > i && s[e - 1] == '\r' {
            e - 1
        } else {
            e
        };
        proof {
            lemma_next_newline(s, i);
        }
        seq![(i, ce)] + line_spans_from(s, e + 1)
    }
}

/// The lines of `s`.
pub open spec fn line_spans(s: Seq<char>) -> Seq<(int, int)> {
    line_spans_from(s, 0)
}

pub fn is_space(c: char) -> (r: bool)
    ensures
        r == is_space_spec(c),
{
    let u = c as u32;
    (0x09 <= u && u <= 0x0d) || u == 0x20 || u == 0x85 || u == 0xa0 || u == 0x1680 || (0x2000
        <= u && u <= 0x200a) || u == 0x2028 || u == 0x2029 || u == 0x202f || u == 0x205f || u
        == 0x3000
}

pub fn skip_spaces(s: &[char], i: usize) -> (r: usize)
    requires
        i <= s@.len(),
    ensures
        r as int == skip_ws(s@, i as int),
        i <= r <= s@.len(),
{
    let n = s.len();
    let mut j = i;
    while j < n && is_space(s[j])
        invariant
            n == s@.len(),
            i <= j <= n,
            skip_ws(s@, i as int) == skip_ws(s@, j as int),
        decreases n - j,
    {
        j = j + 1;
    }
    j
}

/// Whether a `#pragma once` directive starts at `k`.
fn once_at_exec(s: &[char], k: usize) -> (r: bool)
    requires
        k < s@.len(),
    ensures
        r == once_at(s@, k as int),
{
    if s[k] != '#' {
        return false;
    }
    let a = skip_spaces(s, k + 1);
    let pragma = vec!['p', 'r', 'a', 'g', 'm', 'a'];
    assert(pragma@ =~= pragma_word());
    if !crate::text::matches_at(s, pragma.as_slice(), a) {
        return false;
    }
    let b = skip_spaces(s, a + 6);
    if b <= a + 6 {
        return false;
    }
    let once = vec!['o', 'n', 'c', 'e'];
    assert(once@ =~= once_word());
    crate::text::matches_at(s, once.as_slice(), b)
}

/// The start of the leftmost `#pragma once` directive of `s`.
pub fn find_once_exec(s: &[char]) -> (r: Option<usize>)
    ensures
        r matches Some(k) ==> find_once(s@) == Some(k as int) && k < s@.len(),
        r is None ==> find_once(s@) is None,
{
    let n = s.len();
    let mut k: usize = 0;
    while k < n
        invariant
            n == s@.len(),
            k <= n,
            find_once(s@) == find_once_from(s@, k as int),
        decreases n - k,
    {
        if once_at_exec(s, k) {
            return Some(k);
        }
        k = k + 1;
    }
    None
}

fn last_close_exec(s: &[char], e: usize) -> (r: Option<usize>)
    requires
        e < s@.len(),
    ensures
        r matches Some(f) ==> last_close_from(s@, s@.len() - 1, e as int) == Some(f as int) && e
            < f && f < s@.len(),
        r is None ==> last_close_from(s@, s@.len() - 1, e as int) is None,
{
    let mut i: usize = s.len() - 1;
    loop
        invariant
            e <= i < s@.len(),
            last_close_from(s@, s@.len() - 1, e as int) == last_close_from(s@, i as int, e as int),
        decreases i - e,
    {
        if i == e {
            return None;
        }
        if s[i] == '>' || s[i] == '"' {
            return Some(i);
        }
        i = i - 1;
    }
}

/// The opening and closing quote of an inclusion directive starting at `k`.
fn inclusion_at_exec(s: &[char], k: usize) -> (r: Option<(usize, usize)>)
    requires
        k < s@.len(),
    ensures
        r matches Some((e, f)) ==> inclusion_at(s@, k as int) == Some((e as int, f as int)) && k
            < e && e < f && f < s@.len(),
        r is None ==> inclusion_at(s@, k as int) is None,
{
    if s[k] != '#' {
        return None;
    }
    let a = skip_spaces(s, k + 1);
    let pragma = vec!['p', 'r', 'a', 'g', 'm', 'a'];
    assert(pragma@ =~= pragma_word());
    let c = if crate::text::matches_at(s, pragma.as_slice(), a) {
        skip_spaces(s, a + 6)
    } else {
        a
    };
    let keyword = vec!['i', 'n', 'c', 'l', 'u', 'd', 'e'];
    assert(keyword@ =~= inclusion_keyword());
    if !crate::text::matches_at(s, keyword.as_slice(), c) {
        return None;
    }
    let e = skip_spaces(s, c + 7);
    if e <= c + 7 || e >= s.len() || !(s[e] == '<' || s[e] == '"') {
        return None;
    }
    match last_close_exec(s, e) {
        Some(f) => Some((e, f)),
        None => None,
    }
}

/// The start, opening quote and closing quote of the leftmost inclusion
/// directive of `s`.
pub fn find_inclusion_exec(s: &[char]) -> (r: Option<(usize, usize, usize)>)
    ensures
        r matches Some((k, e, f)) ==> find_inclusion(s@) == Some((k as int, e as int, f as int))
            && k < e && e < f && f < s@.len(),
        r is None ==> find_inclusion(s@) is None,
{
    let n = s.len();
    let mut k: usize = 0;
    while k < n
        invariant
            n == s@.len(),
            k <= n,
            find_inclusion(s@) == find_inclusion_from(s@, k as int),
        decreases n - k,
    {
        match inclusion_at_exec(s, k) {
            Some((e, f)) => {
                return Some((k, e, f));
            },
            None => {},
        }
        k = k + 1;
    }
    None
}

/// The position of the first line feed at or after `i` (or the length).
pub fn next_newline_exec(s: &[char], i: usize) -> (r: usize)
    requires
        i <= s@.len(),
    ensures
        r as int == next_newline(s@, i as int),
{
    let n = s.len();
    let mut j = i;
    while j < n && s[j] != '\n'
        invariant
            n == s@.len(),
            i <= j <= n,
            next_newline(s@, i as int) == next_newline(s@, j as int),
        decreases n - j,
    {
        j = j + 1;
    }
    j
}

} // verus!
