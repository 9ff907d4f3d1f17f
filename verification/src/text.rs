//! Text helpers: searching, comment detection, decimal numbers and the
//! substitution of file numbers in shader compiler messages.
use vstd::prelude::*;

verus! {

/// `p` occurs in `s` starting at position `k`.
pub open spec fn occurs_at(s: Seq<char>, p: Seq<char>, k: int) -> bool {
    &&& 0 <= k
    &&& k + p.len() <= s.len()
    &&& s.subrange(k, k + p.len()) == p
}

/// The last start position `<= k` at which `p` occurs in `s`.
pub open spec fn last_occurrence_upto(s: Seq<char>, p: Seq<char>, k: int) -> Option<int>
    decreases k + 1,
{
    if k < 0 {
        None
    } else if occurs_at(s, p, k) {
        Some(k)
    } else {
        last_occurrence_upto(s, p, k - 1)
    }
}

/// The start position of the last occurrence of `p` in `s` (as `str::rfind`).
pub open spec fn rfind(s: Seq<char>, p: Seq<char>) -> Option<int> {
    last_occurrence_upto(s, p, s.len() - p.len())
}

/// `s` starts with `p`.
pub open spec fn starts_with(s: Seq<char>, p: Seq<char>) -> bool {
    occurs_at(s, p, 0)
}

/// Whether the end of `prefix` lies inside a block opened by `start` and
/// closed by `end`: the last `start` is not followed by an `end` that begins
/// after it has been completed.
pub open spec fn in_block_spec(prefix: Seq<char>, start: Seq<char>, end: Seq<char>) -> bool {
    match (rfind(prefix, start), rfind(prefix, end)) {
        (Some(s), Some(e)) => s + start.len() > e,
        (Some(_), None) => true,
        (None, _) => false,
    }
}

/// The characters of a string slice.
pub(crate) fn chars_of(s: &str) -> (v: Vec<char>)
    ensures
        v@ == s@,
{
    broadcast use vstd::string::axiom_spec_iter;

    let mut v: Vec<char> = Vec::new();
    for c in it: s.chars()
        invariant
            it.seq() == s@,
            v@ == it.seq().take(it.index() as int),
    {
        v.push(c);
    }
    v
}

/// A string made of the given characters.
#[verifier::external_body]
pub(crate) fn string_of(v: &[char]) -> (s: String)
    ensures
        s@ == v@,
{
    v.iter().collect()
}

/// Whether `p` occurs in `s` at position `k`.
pub fn matches_at(s: &[char], p: &[char], k: usize) -> (r: bool)
    ensures
        r == occurs_at(s@, p@, k as int),
{
    if k > s.len() || p.len() > s.len() - k {
        return false;
    }
    let n = s.len();
    let mut j: usize = 0;
    while j < p.len()
        invariant
            n == s@.len(),
            k + p@.len() <= s@.len(),
            j <= p@.len(),
            forall|i: int| 0 <= i < j ==> s@[k + i] == p@[i],
        decreases p@.len() - j,
    {
        if s[k + j] != p[j] {
            assert(s@.subrange(k as int, k + p@.len())[j as int] != p@[j as int]);
            return false;
        }
        j = j + 1;
    }
    assert(s@.subrange(k as int, k + p@.len()) =~= p@);
    true
}

/// The start position of the last occurrence of `p` in `s`.
pub fn rfind_chars(s: &[char], p: &[char]) -> (r: Option<usize>)
    ensures
        r matches Some(k) ==> rfind(s@, p@) == Some(k as int),
        r is None ==> rfind(s@, p@) is None,
{
    if p.len() > s.len() {
        assert(rfind(s@, p@) is None) by {
            reveal_with_fuel(last_occurrence_upto, 2);
        }
        return None;
    }
    let mut k: usize = s.len() - p.len();
    loop
        invariant
            k + p@.len() <= s@.len(),
            rfind(s@, p@) == last_occurrence_upto(s@, p@, k as int),
        decreases k,
    {
        if matches_at(s, p, k) {
            return Some(k);
        }
        if k == 0 {
            assert(last_occurrence_upto(s@, p@, -1) is None);
            return None;
        }
        k = k - 1;
    }
}

/// Character-level form of [`in_block`].
pub fn in_block_chars(prefix: &[char], start: &[char], end: &[char]) -> (r: bool)
    ensures
        r == in_block_spec(prefix@, start@, end@),
{
    let start_opt = rfind_chars(prefix, start);
    let end_opt = rfind_chars(prefix, end);
    match (start_opt, end_opt) {
        (Some(s), Some(e)) => s as u128 + start.len() as u128 > e as u128,
        (Some(_), None) => true,
        (None, _) => false,
    }
}

/// Whether the end of `prefix` lies within a block delimited by `start` and
/// `end` (such as a comment opened by `/*` and closed by `*/`).
pub fn in_block(prefix: &str, start: &str, end: &str) -> (r: bool)
    requires
        start@ != end@,
    ensures
        r == in_block_spec(prefix@, start@, end@),
{
    let p = chars_of(prefix);
    let s = chars_of(start);
    let e = chars_of(end);
    in_block_chars(p.as_slice(), s.as_slice(), e.as_slice())
}

} // verus!

verus! {

/// The ASCII digit for `d < 10`.
pub open spec fn digit_char(d: nat) -> char {
    if d == 0 { '0' }
    else if d == 1 { '1' }
    else if d == 2 { '2' }
    else if d == 3 { '3' }
    else if d == 4 { '4' }
    else if d == 5 { '5' }
    else if d == 6 { '6' }
    else if d == 7 { '7' }
    else if d == 8 { '8' }
    else { '9' }
}

/// The decimal representation of `n`, without leading zeros.
pub open spec fn decimal(n: nat) -> Seq<char>
    decreases n,
{
    if n < 10 {
        seq![digit_char(n)]
    } else {
        decimal(n / 10).push(digit_char(n % 10))
    }
}

/// Every non-overlapping occurrence of `p` in `s`, found from left to right,
/// replaced by `t` (as `str::replace` does for a non-empty pattern).
pub open spec fn replace_all(s: Seq<char>, p: Seq<char>, t: Seq<char>) -> Seq<char>
    decreases s.len(),
{
    if p.len() == 0 || s.len() == 0 {
        s
    } else if starts_with(s, p) {
        t + replace_all(s.subrange(p.len() as int, s.len() as int), p, t)
    } else {
        seq![s[0]] + replace_all(s.drop_first(), p, t)
    }
}

fn digit(d: u128) -> (c: char)
    requires
        d < 10,
    ensures
        c == digit_char(d as nat),
{
    if d == 0 { '0' }
    else if d == 1 { '1' }
    else if d == 2 { '2' }
    else if d == 3 { '3' }
    else if d == 4 { '4' }
    else if d == 5 { '5' }
    else if d == 6 { '6' }
    else if d == 7 { '7' }
    else if d == 8 { '8' }
    else { '9' }
}

/// The decimal digits of `n`.
pub fn decimal_chars(n: u128) -> (v: Vec<char>)
    ensures
        v@ == decimal(n as nat),
    decreases n,
{
    if n < 10 {
        let mut v: Vec<char> = Vec::new();
        v.push(digit(n));
        assert(v@ =~= seq![digit_char(n as nat)]);
        v
    } else {
        let mut v = decimal_chars(n / 10);
        v.push(digit(n % 10));
        v
    }
}

/// Character-level form of `str::replace` for a non-empty pattern.
pub fn replace_chars(s: &[char], p: &[char], t: &[char]) -> (out: Vec<char>)
    requires
        p@.len() > 0,
    ensures
        out@ == replace_all(s@, p@, t@),
{
    let n = s.len();
    let mut out: Vec<char> = Vec::new();
    let mut i: usize = 0;
    assert(s@.subrange(0, n as int) =~= s@);
    assert(out@ + replace_all(s@, p@, t@) =~= replace_all(s@, p@, t@));
    while i < n
        invariant
            n == s@.len(),
            p@.len() > 0,
            i <= n,
            replace_all(s@, p@, t@) == out@ + replace_all(s@.subrange(i as int, n as int), p@, t@),
        decreases n - i,
    {
        let ghost rest = s@.subrange(i as int, n as int);
        if matches_at(s, p, i) {
            assert(starts_with(rest, p@)) by {
                assert(rest.subrange(0, p@.len() as int) =~= s@.subrange(i as int, i + p@.len()));
            }
            assert(rest.subrange(p@.len() as int, rest.len() as int) =~= s@.subrange(
                i + p@.len(),
                n as int,
            ));
            let mut j: usize = 0;
            let ghost out0 = out@;
            while j < t.len()
                invariant
                    j <= t@.len(),
                    out@ == out0 + t@.subrange(0, j as int),
                decreases t@.len() - j,
            {
                out.push(t[j]);
                j = j + 1;
                assert(out@ =~= out0 + t@.subrange(0, j as int));
            }
            assert(t@.subrange(0, t@.len() as int) =~= t@);
            assert(out0 + (t@ + replace_all(s@.subrange(i + p@.len(), n as int), p@, t@)) =~= out@
                + replace_all(s@.subrange(i + p@.len(), n as int), p@, t@));
            i = i + p.len();
        } else {
            assert(!starts_with(rest, p@)) by {
                if starts_with(rest, p@) {
                    assert(rest.subrange(0, p@.len() as int) =~= s@.subrange(
                        i as int,
                        i + p@.len(),
                    ));
                }
            }
            assert(rest.drop_first() =~= s@.subrange(i + 1, n as int));
            let ghost out0 = out@;
            out.push(s[i]);
            assert(out0 + (seq![s@[i as int]] + replace_all(s@.subrange(i + 1, n as int), p@, t@))
                =~= out@ + replace_all(s@.subrange(i + 1, n as int), p@, t@));
            i = i + 1;
        }
    }
    assert(out@ + replace_all(s@.subrange(n as int, n as int), p@, t@) =~= out@);
    out
}

/// The offset added to file numbers in `#line` directives, so that compiler
/// messages can be mapped back to file names.
pub const FILE_ID_OFFSET: usize = 101;

/// `err` with the number of each file of `lut`, below `k`, replaced by its name.
pub open spec fn substitute_file_ids(err: Seq<char>, lut: Seq<Seq<char>>, k: nat) -> Seq<char>
    decreases k,
{
    if k == 0 {
        err
    } else {
        replace_all(
            substitute_file_ids(err, lut, (k - 1) as nat),
            decimal((k - 1 + FILE_ID_OFFSET) as nat),
            lut[k - 1],
        )
    }
}

/// The views of a sequence of strings.
pub open spec fn string_views(v: Seq<String>) -> Seq<Seq<char>> {
    v.map_values(|s: String| s@)
}

/// Replaces the file numbers in a shader compiler message by the file names
/// they stand for.
pub fn process_error(err: String, lut: &[String]) -> (out: String)
    ensures
        out@ == substitute_file_ids(err@, string_views(lut@), lut@.len()),
{
    let mut cur = chars_of(err.as_str());
    let mut k: usize = 0;
    while k < lut.len()
        invariant
            k <= lut@.len(),
            cur@ == substitute_file_ids(err@, string_views(lut@), k as nat),
        decreases lut@.len() - k,
    {
        let key = decimal_chars(k as u128 + FILE_ID_OFFSET as u128);
        let file = chars_of(lut[k].as_str());
        assert(key@.len() > 0) by {
            reveal_with_fuel(decimal, 1);
        }
        cur = replace_chars(cur.as_slice(), key.as_slice(), file.as_slice());
        k = k + 1;
    }
    string_of(cur.as_slice())
}

} // verus!

verus! {

/// Whether two string slices hold the same characters.
pub fn str_eq(a: &str, b: &str) -> (r: bool)
    ensures
        r == (a@ == b@),
{
    let x = chars_of(a);
    let y = chars_of(b);
    if x.len() != y.len() {
        return false;
    }
    let r = matches_at(x.as_slice(), y.as_slice(), 0);
    assert(r ==> x@.subrange(0, y@.len() as int) =~= x@);
    assert(x@ == y@ ==> x@.subrange(0, y@.len() as int) =~= y@);
    r
}

/// `p` occurs somewhere in `s`.
pub open spec fn contains_seq(s: Seq<char>, p: Seq<char>) -> bool {
    exists|k: int| occurs_at(s, p, k)
}

/// Whether `p` occurs somewhere in `s`.
pub fn contains_chars(s: &[char], p: &[char]) -> (r: bool)
    ensures
        r == contains_seq(s@, p@),
{
    if p.len() > s.len() {
        return false;
    }
    let limit = s.len() - p.len();
    let mut k: usize = 0;
    while k < limit
        invariant
            limit == s@.len() - p@.len(),
            k <= limit,
            forall|j: int| 0 <= j < k ==> !occurs_at(s@, p@, j),
        decreases limit - k,
    {
        if matches_at(s, p, k) {
            return true;
        }
        k = k + 1;
    }
    matches_at(s, p, limit)
}

} // verus!
