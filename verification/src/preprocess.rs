//! Expansion of the file directives of a shader source: the files it pulls in
//! are spliced in place (at most once per file where the file says
//! `#pragma once`), cycles are refused, and `#line` directives keep the
//! compiler's messages pointing at the right file and line.
use vstd::prelude::*;
use vstd::slice::slice_subrange;
use crate::text::{in_block_spec, decimal, starts_with, string_views, FILE_ID_OFFSET};
use crate::directive::{find_once, find_inclusion, line_spans, line_spans_from, next_newline, lemma_next_newline, find_once_exec, next_newline_exec};
use crate::text::{in_block_chars, decimal_chars, chars_of, string_of};

verus! {

broadcast use vstd::seq_lib::group_seq_properties;

/// What the expansion of a file gave: its lines, a cycle through the named
/// file, or the name of a file whose source was not supplied.
pub enum Expansion {
    Lines(Seq<Seq<char>>),
    Cycle(Seq<char>),
    Missing(Seq<char>),
}

/// The expansion, with the set of files that declared `#pragma once` so far and
/// the table of file names afterwards.
pub struct ExpState {
    pub result: Expansion,
    pub once: Set<Seq<char>>,
    pub lut: Seq<Seq<char>>,
}

/// The fixed parameters of an expansion: the available sources (name and
/// text), the names that may occur on an expansion path, and the number
/// added to file indices.
pub struct Ctx {
    pub sources: Seq<(Seq<char>, Seq<char>)>,
    pub allowed: Set<Seq<char>>,
    pub offset: nat,
}

/// The first index at or after `i` at which `lut` holds `name`.
pub open spec fn position_from(lut: Seq<Seq<char>>, name: Seq<char>, i: int) -> Option<int>
    decreases lut.len() - i,
{
    if i < 0 || i >= lut.len() {
        None
    } else if lut[i] == name {
        Some(i)
    } else {
        position_from(lut, name, i + 1)
    }
}

/// The text of the first source at or after `i` with the given name.
pub open spec fn lookup_from(sources: Seq<(Seq<char>, Seq<char>)>, name: Seq<char>, i: int) -> Option<
    Seq<char>,
>
    decreases sources.len() - i,
{
    if i < 0 || i >= sources.len() {
        None
    } else if sources[i].0 == name {
        Some(sources[i].1)
    } else {
        lookup_from(sources, name, i + 1)
    }
}

/// The end of `prefix` lies inside a `//` comment or a `/* */` comment.
pub open spec fn commented(prefix: Seq<char>) -> bool {
    in_block_spec(prefix, seq!['/', '/'], seq!['\n']) || in_block_spec(
        prefix,
        seq!['/', '*'],
        seq!['*', '/'],
    )
}

pub open spec fn version_prefix() -> Seq<char> {
    seq!['#', 'v', 'e', 'r', 's', 'i', 'o', 'n']
}

/// `#line <k> <id>`
pub open spec fn line_directive(k: nat, id: nat) -> Seq<char> {
    seq!['#', 'l', 'i', 'n', 'e', ' '] + decimal(k) + seq![' '] + decimal(id)
}

pub proof fn lemma_difference_shrinks(allowed: Set<Seq<char>>, path: Set<Seq<char>>, name: Seq<char>)
    requires
        allowed.finite(),
        allowed.contains(name),
        !path.contains(name),
    ensures
        allowed.difference(path.insert(name)).len() < allowed.difference(path).len(),
{
    let d = allowed.difference(path);
    assert(allowed.difference(path.insert(name)) =~= d.remove(name));
    vstd::set::axiom_set_difference_finite(allowed, path);
    vstd::set::axiom_set_remove_len(d, name);
}

/// The expansion of the file `name`, whose text is `code`, reached along the
/// files of `path`.
pub open spec fn file_expansion(
    ctx: Ctx,
    code: Seq<char>,
    name: Seq<char>,
    path: Set<Seq<char>>,
    once: Set<Seq<char>>,
    lut: Seq<Seq<char>>,
) -> ExpState
    decreases ctx.allowed.difference(path).len(), 0nat,
{
    if !ctx.allowed.finite() || !ctx.allowed.contains(name) {
        ExpState { result: Expansion::Lines(seq![]), once, lut }
    } else {
        let pos = position_from(lut, name, 0);
        let id: nat = match pos {
            Some(p) => p as nat,
            None => lut.len(),
        };
        let lut1 = match pos {
            Some(_) => lut,
            None => lut.push(name),
        };
        let found = find_once(code);
        let once1 = if found is Some {
            once.insert(name)
        } else {
            once
        };
        let stop = match found {
            Some(p) => once.contains(name) && !commented(code.take(p)),
            None => false,
        };
        if stop {
            ExpState { result: Expansion::Lines(seq![]), once: once1, lut: lut1 }
        } else if path.contains(name) {
            ExpState { result: Expansion::Cycle(name), once: once1, lut: lut1 }
        } else {
            proof {
                lemma_difference_shrinks(ctx.allowed, path, name);
            }
            lines_expansion(
                ctx,
                code,
                line_spans(code),
                path.insert(name),
                id + ctx.offset,
                0,
                true,
                seq![],
                once1,
                lut1,
            )
        }
    }
}

/// The expansion of the lines of `code` from the `k`-th on, after `out` has
/// been produced; `need_ln` says whether a `#line` directive is due.
pub open spec fn lines_expansion(
    ctx: Ctx,
    code: Seq<char>,
    spans: Seq<(int, int)>,
    path: Set<Seq<char>>,
    id: nat,
    k: nat,
    need_ln: bool,
    out: Seq<Seq<char>>,
    once: Set<Seq<char>>,
    lut: Seq<Seq<char>>,
) -> ExpState
    decreases ctx.allowed.difference(path).len(), spans.len() - k + 1,
{
    if k >= spans.len() {
        ExpState { result: Expansion::Lines(out), once, lut }
    } else {
        let line = code.subrange(spans[k as int].0, spans[k as int].1);
        let inc = find_inclusion(line);
        if inc is Some && !commented(code.take(spans[k as int].0 + inc.unwrap().0)) {
            let fname = line.subrange(inc.unwrap().1 + 1, inc.unwrap().2);
            match lookup_from(ctx.sources, fname, 0) {
                None => ExpState { result: Expansion::Missing(fname), once, lut },
                Some(text) => {
                    let sub = file_expansion(ctx, text, fname, path, once, lut);
                    match sub.result {
                        Expansion::Lines(ls) => lines_expansion(
                            ctx,
                            code,
                            spans,
                            path,
                            id,
                            k + 1,
                            true,
                            out + ls,
                            sub.once,
                            sub.lut,
                        ),
                        _ => sub,
                    }
                },
            }
        } else {
            let directive = need_ln && !starts_with(line, version_prefix());
            let out1 = if directive {
                out.push(line_directive(k, id))
            } else {
                out
            };
            lines_expansion(
                ctx,
                code,
                spans,
                path,
                id,
                k + 1,
                need_ln && starts_with(line, version_prefix()),
                out1.push(line),
                once,
                lut,
            )
        }
    }
}

/// Line `k` of `code`, whose lines are delimited by `spans`.
pub open spec fn line_at(code: Seq<char>, spans: Seq<(int, int)>, k: int) -> Seq<char> {
    code.subrange(spans[k].0, spans[k].1)
}

/// The file that line `k` of `code` includes, if the line holds a file
/// directive outside a comment.
pub open spec fn inclusion_at(code: Seq<char>, spans: Seq<(int, int)>, k: int) -> Option<Seq<char>> {
    let line = line_at(code, spans, k);
    match find_inclusion(line) {
        Some(inc) => if commented(code.take(spans[k].0 + inc.0)) {
            None
        } else {
            Some(line.subrange(inc.1 + 1, inc.2))
        },
        None => None,
    }
}

/// After the file directive on line `k` is replaced by the lines of the file
/// it includes, the next line of the same file (when it is no directive and
/// no `#version` line) comes out right after them, preceded by
/// `#line <k + 1> <id>` so that the compiler counts its lines in this file
/// again; this holds whether or not a `#line` directive was due before the
/// inclusion.
pub proof fn lemma_line_directive_after_inclusion(
    ctx: Ctx,
    code: Seq<char>,
    spans: Seq<(int, int)>,
    path: Set<Seq<char>>,
    id: nat,
    k: nat,
    need_ln: bool,
    out: Seq<Seq<char>>,
    once: Set<Seq<char>>,
    lut: Seq<Seq<char>>,
    fname: Seq<char>,
    text: Seq<char>,
    included: Seq<Seq<char>>,
)
    requires
        k + 1 < spans.len(),
        inclusion_at(code, spans, k as int) == Some(fname),
        lookup_from(ctx.sources, fname, 0) == Some(text),
        file_expansion(ctx, text, fname, path, once, lut).result == Expansion::Lines(included),
        inclusion_at(code, spans, k + 1int) is None,
        !starts_with(line_at(code, spans, (k + 1) as int), version_prefix()),
    ensures
        lines_expansion(ctx, code, spans, path, id, k, need_ln, out, once, lut) == lines_expansion(
            ctx,
            code,
            spans,
            path,
            id,
            k + 2,
            false,
            out + included + seq![line_directive(k + 1, id), line_at(code, spans, (k + 1) as int)],
            file_expansion(ctx, text, fname, path, once, lut).once,
            file_expansion(ctx, text, fname, path, once, lut).lut,
        ),
{
    let sub = file_expansion(ctx, text, fname, path, once, lut);
    let line1 = line_at(code, spans, (k + 1) as int);
    assert(lines_expansion(ctx, code, spans, path, id, k, need_ln, out, once, lut)
        == lines_expansion(ctx, code, spans, path, id, k + 1, true, out + included, sub.once, sub.lut));
    assert((out + included).push(line_directive(k + 1, id)).push(line1) =~= out + included + seq![
        line_directive(k + 1, id),
        line1,
    ]);
    assert(lines_expansion(ctx, code, spans, path, id, k + 1, true, out + included, sub.once, sub.lut)
        == lines_expansion(
        ctx,
        code,
        spans,
        path,
        id,
        k + 2,
        false,
        (out + included).push(line_directive(k + 1, id)).push(line1),
        sub.once,
        sub.lut,
    ));
}

/// The lines joined by line feeds.
pub open spec fn join_lines(ls: Seq<Seq<char>>) -> Seq<char>
    decreases ls.len(),
{
    if ls.len() == 0 {
        seq![]
    } else if ls.len() == 1 {
        ls[0]
    } else {
        join_lines(ls.drop_last()) + seq!['\n'] + ls.last()
    }
}

/// The names of the given sources.
pub open spec fn source_names(sources: Seq<(Seq<char>, Seq<char>)>) -> Set<Seq<char>> {
    sources.map_values(|p: (Seq<char>, Seq<char>)| p.0).to_set()
}

/// The views of a sequence of (name, text) pairs.
pub open spec fn source_views(sources: Seq<(String, String)>) -> Seq<(Seq<char>, Seq<char>)> {
    sources.map_values(|p: (String, String)| (p.0@, p.1@))
}

/// The set of the views of a sequence of strings.
pub open spec fn names(v: Seq<String>) -> Set<Seq<char>> {
    string_views(v).to_set()
}

/// The expansion of the file `name` with text `code`, as the top of the tree.
pub open spec fn preprocess_state(
    code: Seq<char>,
    name: Seq<char>,
    lut: Seq<Seq<char>>,
    sources: Seq<(Seq<char>, Seq<char>)>,
    offset: nat,
) -> ExpState {
    let ctx = Ctx { sources, allowed: source_names(sources).insert(name), offset };
    file_expansion(ctx, code, name, Set::empty(), Set::empty(), lut)
}

/// The outcome of the expansion of a shader source.
pub enum PreprocessOutcome {
    /// The expanded source.
    Done(String),
    /// The expansion failed; the message says why.
    Failed(String),
    /// The source of the named file is needed and was not supplied.
    NeedsFile(String),
}

pub open spec fn cycle_message(name: Seq<char>) -> Seq<char> {
    "Cycle detected! File "@ + name + " has been included further down the tree"@
}

/// The outcome that the expansion of `code` owes.
pub open spec fn outcome_matches(r: PreprocessOutcome, st: ExpState) -> bool {
    match st.result {
        Expansion::Lines(ls) => r matches PreprocessOutcome::Done(s) && s@ == join_lines(ls),
        Expansion::Cycle(n) => r matches PreprocessOutcome::Failed(s) && s@ == cycle_message(n),
        Expansion::Missing(n) => r matches PreprocessOutcome::NeedsFile(s) && s@ == n,
    }
}

} // verus!

verus! {

/// The result of expanding one file.
enum Expanded {
    Lines(Vec<Vec<char>>),
    Cycle(String),
    Missing(String),
}

spec fn lines_view(v: Seq<Vec<char>>) -> Seq<Seq<char>> {
    v.map_values(|l: Vec<char>| l@)
}

spec fn expanded_view(r: Expanded) -> Expansion {
    match r {
        Expanded::Lines(v) => Expansion::Lines(lines_view(v@)),
        Expanded::Cycle(s) => Expansion::Cycle(s@),
        Expanded::Missing(s) => Expansion::Missing(s@),
    }
}

proof fn lemma_names_push(v: Seq<String>, s: String)
    ensures
        names(v.push(s)) == names(v).insert(s@),
{
    assert(string_views(v.push(s)) =~= string_views(v).push(s@));
    string_views(v).lemma_push_to_set_commute(s@);
}

fn contains_name(v: &Vec<String>, n: &String) -> (r: bool)
    ensures
        r == names(v@).contains(n@),
{
    let mut i: usize = 0;
    while i < v.len()
        invariant
            i <= v@.len(),
            forall|j: int| 0 <= j < i ==> v@[j]@ != n@,
        decreases v@.len() - i,
    {
        if v[i] == *n {
            assert(string_views(v@)[i as int] == n@);
            return true;
        }
        i = i + 1;
    }
    assert(!string_views(v@).contains(n@));
    false
}

fn position_exec(lut: &Vec<String>, name: &String) -> (r: Option<usize>)
    ensures
        r matches Some(p) ==> position_from(string_views(lut@), name@, 0) == Some(p as int),
        r is None ==> position_from(string_views(lut@), name@, 0) is None,
{
    let mut i: usize = 0;
    while i < lut.len()
        invariant
            i <= lut@.len(),
            position_from(string_views(lut@), name@, 0) == position_from(
                string_views(lut@),
                name@,
                i as int,
            ),
        decreases lut@.len() - i,
    {
        if lut[i] == *name {
            return Some(i);
        }
        i = i + 1;
    }
    None
}

fn lookup_exec(sources: &[(String, String)], name: &String) -> (r: Option<usize>)
    ensures
        r matches Some(i) ==> i < sources@.len() && sources@[i as int].0@ == name@
            && lookup_from(source_views(sources@), name@, 0) == Some(sources@[i as int].1@),
        r is None ==> lookup_from(source_views(sources@), name@, 0) is None,
{
    let mut i: usize = 0;
    while i < sources.len()
        invariant
            i <= sources@.len(),
            lookup_from(source_views(sources@), name@, 0) == lookup_from(
                source_views(sources@),
                name@,
                i as int,
            ),
        decreases sources@.len() - i,
    {
        if sources[i].0 == *name {
            return Some(i);
        }
        i = i + 1;
    }
    None
}

fn commented_exec(prefix: &[char]) -> (r: bool)
    ensures
        r == commented(prefix@),
{
    let a = vec!['/', '/'];
    let b = vec!['\n'];
    let c = vec!['/', '*'];
    let d = vec!['*', '/'];
    assert(a@ =~= seq!['/', '/']);
    assert(b@ =~= seq!['\n']);
    assert(c@ =~= seq!['/', '*']);
    assert(d@ =~= seq!['*', '/']);
    in_block_chars(prefix, a.as_slice(), b.as_slice()) || in_block_chars(
        prefix,
        c.as_slice(),
        d.as_slice(),
    )
}

fn append_chars(out: &mut Vec<char>, s: &[char])
    ensures
        final(out)@ == old(out)@ + s@,
{
    let ghost o = out@;
    let mut i: usize = 0;
    while i < s.len()
        invariant
            i <= s@.len(),
            out@ == o + s@.subrange(0, i as int),
        decreases s@.len() - i,
    {
        out.push(s[i]);
        i = i + 1;
        assert(out@ =~= o + s@.subrange(0, i as int));
    }
    assert(s@.subrange(0, s@.len() as int) =~= s@);
}

fn line_directive_exec(k: usize, id: u128) -> (v: Vec<char>)
    ensures
        v@ == line_directive(k as nat, id as nat),
{
    let mut v = vec!['#', 'l', 'i', 'n', 'e', ' '];
    let kd = decimal_chars(k as u128);
    append_chars(&mut v, kd.as_slice());
    v.push(' ');
    let idd = decimal_chars(id);
    append_chars(&mut v, idd.as_slice());
    assert(v@ =~= seq!['#', 'l', 'i', 'n', 'e', ' '] + decimal(k as nat) + seq![' '] + decimal(
        id as nat,
    ));
    v
}

proof fn lemma_spans_len(s: Seq<char>, i: int)
    requires
        0 <= i,
    ensures
        line_spans_from(s, i).len() <= if i <= s.len() {
            s.len() - i
        } else {
            0
        },
    decreases s.len() - i + 1,
{
    if i < s.len() {
        lemma_next_newline(s, i);
        lemma_spans_len(s, next_newline(s, i) + 1);
    }
}

} // verus!

verus! {

/// Expands the file `name`, whose characters are `code`, reached along the
/// files of `path`.
fn expand_file(
    sources: &[(String, String)],
    code: &[char],
    name: &String,
    path: &Vec<String>,
    once: &mut Vec<String>,
    lut: &mut Vec<String>,
    offset: usize,
    Ghost(ctx): Ghost<Ctx>,
) -> (r: Expanded)
    requires
        ctx.sources == source_views(sources@),
        ctx.offset == offset,
        ctx.allowed.finite(),
        ctx.allowed.contains(name@),
        forall|n: Seq<char>| source_names(ctx.sources).contains(n) ==> ctx.allowed.contains(n),
    ensures
        ({
            let st = file_expansion(
                ctx,
                code@,
                name@,
                names(path@),
                names(old(once)@),
                string_views(old(lut)@),
            );
            &&& expanded_view(r) == st.result
            &&& names(final(once)@) == st.once
            &&& string_views(final(lut)@) == st.lut
        }),
    decreases ctx.allowed.difference(names(path@)).len(),
{
    let ghost once0 = names(once@);
    let ghost lut0 = string_views(lut@);
    // register the file name
    let pos = position_exec(lut, name);
    let id: usize = match pos {
        Some(p) => p,
        None => {
            let l = lut.len();
            let ghost before = lut@;
            lut.push(name.clone());
            assert(string_views(lut@) =~= string_views(before).push(name@));
            l
        },
    };
    assert(string_views(lut@) == (match position_from(lut0, name@, 0) {
        Some(_) => lut0,
        None => lut0.push(name@),
    }));
    // respect `#pragma once`
    let found = find_once_exec(code);
    let mut stop = false;
    match found {
        Some(p) => {
            let already = contains_name(once, name);
            if !already {
                let ghost before = once@;
                once.push(name.clone());
                proof {
                    lemma_names_push(before, *name);
                }
            } else {
                assert(once0.insert(name@) =~= once0);
            }
            if already {
                let prefix = slice_subrange(code, 0, p);
                assert(prefix@ =~= code@.take(p as int));
                stop = !commented_exec(prefix);
            }
        },
        None => {},
    }
    assert(names(once@) == (if find_once(code@) is Some {
        once0.insert(name@)
    } else {
        once0
    }));
    assert(stop == (match find_once(code@) {
        Some(q) => once0.contains(name@) && !commented(code@.take(q)),
        None => false,
    }));
    if stop {
        let empty: Vec<Vec<char>> = Vec::new();
        assert(lines_view(empty@) =~= seq![]);
        return Expanded::Lines(empty);
    }
    // detect cycles
    if contains_name(path, name) {
        return Expanded::Cycle(name.clone());
    }
    let mut path2: Vec<String> = Vec::new();
    let mut j: usize = 0;
    while j < path.len()
        invariant
            j <= path@.len(),
            path2@ == path@.subrange(0, j as int),
        decreases path@.len() - j,
    {
        path2.push(path[j].clone());
        j = j + 1;
        assert(path2@ =~= path@.subrange(0, j as int));
    }
    assert(path@.subrange(0, path@.len() as int) =~= path@);
    proof {
        lemma_names_push(path2@, *name);
    }
    path2.push(name.clone());
    proof {
        lemma_difference_shrinks(ctx.allowed, names(path@), name@);
    }
    // process the lines
    let id_total: u128 = id as u128 + offset as u128;
    let n = code.len();
    let ghost spans = line_spans(code@);
    let ghost target = lines_expansion(
        ctx,
        code@,
        spans,
        names(path2@),
        id_total as nat,
        0,
        true,
        seq![],
        names(once@),
        string_views(lut@),
    );
    assert(target == file_expansion(ctx, code@, name@, names(path@), once0, lut0));
    let mut p: usize = 0;
    let mut k: usize = 0;
    let mut need_ln = true;
    let mut out: Vec<Vec<char>> = Vec::new();
    proof {
        lemma_spans_len(code@, 0);
        assert(spans.subrange(0, spans.len() as int) =~= spans);
        assert(lines_view(out@) =~= seq![]);
    }
    while p < n
        invariant
            n == code@.len(),
            p <= n,
            ctx.sources == source_views(sources@),
            ctx.offset == offset,
            ctx.allowed.finite(),
            forall|m: Seq<char>| source_names(ctx.sources).contains(m) ==> ctx.allowed.contains(m),
            ctx.allowed.difference(names(path2@)).len() < ctx.allowed.difference(
                names(path@),
            ).len(),
            spans == line_spans(code@),
            spans.len() <= n,
            k <= spans.len(),
            line_spans_from(code@, p as int) == spans.subrange(k as int, spans.len() as int),
            lines_expansion(
                ctx,
                code@,
                spans,
                names(path2@),
                id_total as nat,
                k as nat,
                need_ln,
                lines_view(out@),
                names(once@),
                string_views(lut@),
            ) == target,
            target == file_expansion(ctx, code@, name@, names(path@), once0, lut0),
            once0 == names(old(once)@),
            lut0 == string_views(old(lut)@),
        decreases n - p,
    {
        let e = next_newline_exec(code, p);
        let ce = if e < n && e > p && code[e - 1] == '\r' {
            e - 1
        } else {
            e
        };
        proof {
            lemma_next_newline(code@, p as int);
            assert(line_spans_from(code@, p as int) == seq![(p as int, ce as int)]
                + line_spans_from(code@, e + 1));
            assert(spans[k as int] == (p as int, ce as int)) by {
                assert(spans.subrange(k as int, spans.len() as int)[0] == spans[k as int]);
            }
            assert(spans.subrange(k + 1, spans.len() as int) =~= spans.subrange(
                k as int,
                spans.len() as int,
            ).drop_first());
        }
        let line = slice_subrange(code, p, ce);
        assert(line@ == code@.subrange(spans[k as int].0, spans[k as int].1));
        let inc = crate::directive::find_inclusion_exec(line);
        let mut handled = false;
        match inc {
            Some((m, eq, fq)) => {
                let prefix = slice_subrange(code, 0, p + m);
                assert(prefix@ =~= code@.take(p + m));
                if !commented_exec(prefix) {
                    let fname_chars = slice_subrange(line, eq + 1, fq);
                    let fname = string_of(fname_chars);
                    assert(fname@ == line@.subrange(eq + 1, fq as int));
                    match lookup_exec(sources, &fname) {
                        None => {
                            proof {
                                let line_s = code@.subrange(spans[k as int].0, spans[k as int].1);
                                assert(k < spans.len());
                                assert(find_inclusion(line_s) == Some((m as int, eq as int, fq as int)));
                                assert(!commented(code@.take(spans[k as int].0 + m)));
                                assert(lookup_from(ctx.sources, fname@, 0) is None);
                                assert(target.result == Expansion::Missing(fname@));
                            }
                            return Expanded::Missing(fname);
                        },
                        Some(idx) => {
                            proof {
                                let sv = source_views(sources@);
                                assert(sv[idx as int].0 == fname@);
                                assert(sv.map_values(|q: (Seq<char>, Seq<char>)| q.0)[idx as int]
                                    == fname@);
                                assert(source_names(ctx.sources).contains(fname@));
                            }
                            let text = chars_of(sources[idx].1.as_str());
                            let ghost st_k = lines_expansion(
                                ctx,
                                code@,
                                spans,
                                names(path2@),
                                id_total as nat,
                                k as nat,
                                need_ln,
                                lines_view(out@),
                                names(once@),
                                string_views(lut@),
                            );
                            let ghost sub_st = file_expansion(
                                ctx,
                                text@,
                                fname@,
                                names(path2@),
                                names(once@),
                                string_views(lut@),
                            );
                            proof {
                                let line_s = code@.subrange(spans[k as int].0, spans[k as int].1);
                                assert(k < spans.len());
                                assert(find_inclusion(line_s) == Some((m as int, eq as int, fq as int)));
                                assert(!commented(code@.take(spans[k as int].0 + m)));
                                assert(lookup_from(ctx.sources, fname@, 0) == Some(text@));
                                assert(st_k == (match sub_st.result {
                                    Expansion::Lines(ls) => lines_expansion(
                                        ctx,
                                        code@,
                                        spans,
                                        names(path2@),
                                        id_total as nat,
                                        (k + 1) as nat,
                                        true,
                                        lines_view(out@) + ls,
                                        sub_st.once,
                                        sub_st.lut,
                                    ),
                                    _ => sub_st,
                                }));
                                assert(st_k == target);
                            }
                            let sub = expand_file(
                                sources,
                                text.as_slice(),
                                &fname,
                                &path2,
                                once,
                                lut,
                                offset,
                                Ghost(ctx),
                            );
                            match sub {
                                Expanded::Lines(ls) => {
                                    let ghost out0 = out@;
                                    let mut ls = ls;
                                    out.append(&mut ls);
                                    assert(lines_view(out@) =~= lines_view(out0) + lines_view(
                                        out@.subrange(out0.len() as int, out@.len() as int),
                                    ));
                                    need_ln = true;
                                    handled = true;
                                },
                                Expanded::Cycle(s) => {
                                    assert(sub_st.result == Expansion::Cycle(s@));
                                    assert(target == sub_st);
                                    return Expanded::Cycle(s);
                                },
                                Expanded::Missing(s) => {
                                    return Expanded::Missing(s);
                                },
                            }
                        },
                    }
                }
            },
            None => {},
        }
        if !handled {
            let version = vec!['#', 'v', 'e', 'r', 's', 'i', 'o', 'n'];
            assert(version@ =~= version_prefix());
            let is_version = crate::text::matches_at(line, version.as_slice(), 0);
            if need_ln && !is_version {
                let ghost out0 = out@;
                out.push(line_directive_exec(k, id_total));
                assert(lines_view(out@) =~= lines_view(out0).push(line_directive(k as nat, id_total as nat)));
                need_ln = false;
            }
            let ghost out1 = out@;
            out.push(vstd::slice::slice_to_vec(line));
            assert(lines_view(out@) =~= lines_view(out1).push(line@));
        }
        p = if e < n {
            e + 1
        } else {
            n
        };
        k = k + 1;
    }
    proof {
        assert(line_spans_from(code@, p as int) =~= seq![]);
    }
    Expanded::Lines(out)
}

} // verus!

verus! {

fn join_lines_exec(ls: &Vec<Vec<char>>) -> (v: Vec<char>)
    ensures
        v@ == join_lines(lines_view(ls@)),
{
    let mut v: Vec<char> = Vec::new();
    let mut i: usize = 0;
    while i < ls.len()
        invariant
            i <= ls@.len(),
            v@ == join_lines(lines_view(ls@.subrange(0, i as int))),
        decreases ls@.len() - i,
    {
        let ghost prev = lines_view(ls@.subrange(0, i as int));
        if i > 0 {
            v.push('\n');
        }
        append_chars(&mut v, ls[i].as_slice());
        proof {
            let cur = lines_view(ls@.subrange(0, i + 1));
            assert(cur.drop_last() =~= prev);
            assert(cur.last() == ls@[i as int]@);
            if i == 0 {
                assert(v@ =~= join_lines(cur));
            } else {
                assert(v@ =~= join_lines(cur));
            }
        }
        i = i + 1;
    }
    assert(ls@.subrange(0, ls@.len() as int) =~= ls@);
    v
}

fn cycle_message_exec(name: &String) -> (s: String)
    ensures
        s@ == cycle_message(name@),
{
    let mut v = chars_of("Cycle detected! File ");
    let n = chars_of(name.as_str());
    append_chars(&mut v, n.as_slice());
    let tail = chars_of(" has been included further down the tree");
    append_chars(&mut v, tail.as_slice());
    string_of(v.as_slice())
}

/// Expands the file directives of the shader source `code`, named
/// `file_name`, and prefixes its lines with `#line` directives whose file
/// numbers are indices into `file_name_lut` plus `offset`; names of files
/// seen for the first time are appended to `file_name_lut`.
///
/// The text of each file that is pulled in is looked up by name in
/// `sources`; when a file is not found there, the outcome names it, so that
/// the caller can read it and try again with it added.
pub fn preprocess_with_offset(
    code: &str,
    file_name: &str,
    file_name_lut: &mut Vec<String>,
    sources: &[(String, String)],
    offset: usize,
) -> (r: PreprocessOutcome)
    ensures
        ({
            let st = preprocess_state(
                code@,
                file_name@,
                string_views(old(file_name_lut)@),
                source_views(sources@),
                offset as nat,
            );
            &&& outcome_matches(r, st)
            &&& string_views(final(file_name_lut)@) == st.lut
        }),
{
    let chars = chars_of(code);
    let name = file_name.to_owned();
    let path: Vec<String> = Vec::new();
    let mut once: Vec<String> = Vec::new();
    let ghost ctx = Ctx {
        sources: source_views(sources@),
        allowed: source_names(source_views(sources@)).insert(file_name@),
        offset: offset as nat,
    };
    proof {
        let sv = source_views(sources@);
        vstd::seq_lib::seq_to_set_is_finite(sv.map_values(|p: (Seq<char>, Seq<char>)| p.0));
        assert(names(path@) =~= Set::empty());
        assert(names(once@) =~= Set::empty());
    }
    let r = expand_file(
        sources,
        chars.as_slice(),
        &name,
        &path,
        &mut once,
        file_name_lut,
        offset,
        Ghost(ctx),
    );
    match r {
        Expanded::Lines(ls) => {
            let v = join_lines_exec(&ls);
            PreprocessOutcome::Done(string_of(v.as_slice()))
        },
        Expanded::Cycle(n) => PreprocessOutcome::Failed(cycle_message_exec(&n)),
        Expanded::Missing(n) => PreprocessOutcome::NeedsFile(n),
    }
}

/// Expands the file directives of the shader source `code`, numbering files
/// from [`FILE_ID_OFFSET`] on in the `#line` directives (the numbers that
/// [`process_error`](crate::text::process_error) maps back to file names).
pub fn preprocess(
    code: &str,
    file_name: &str,
    file_name_lut: &mut Vec<String>,
    sources: &[(String, String)],
) -> (r: PreprocessOutcome)
    ensures
        ({
            let st = preprocess_state(
                code@,
                file_name@,
                string_views(old(file_name_lut)@),
                source_views(sources@),
                FILE_ID_OFFSET as nat,
            );
            &&& outcome_matches(r, st)
            &&& string_views(final(file_name_lut)@) == st.lut
        }),
{
    preprocess_with_offset(code, file_name, file_name_lut, sources, FILE_ID_OFFSET)
}

} // verus!

verus! {

/// The lines of `code`.
pub open spec fn source_lines(code: Seq<char>) -> Seq<Seq<char>> {
    let spans = line_spans(code);
    Seq::new(spans.len(), |k: int| code.subrange(spans[k].0, spans[k].1))
}

/// The first line at or after `k` that does not start with `#version`
/// (the number of lines when there is none).
pub open spec fn first_body_line(ls: Seq<Seq<char>>, k: int) -> int
    decreases ls.len() - k,
{
    if k < 0 || k >= ls.len() {
        ls.len() as int
    } else if !starts_with(ls[k], version_prefix()) {
        k
    } else {
        first_body_line(ls, k + 1)
    }
}

/// The lines with a `#line` directive for file number `id` put before the
/// first line that does not start with `#version`.
pub open spec fn with_line_directive(ls: Seq<Seq<char>>, id: nat) -> Seq<Seq<char>> {
    let k0 = first_body_line(ls, 0);
    if k0 < ls.len() {
        ls.take(k0).push(line_directive(k0 as nat, id)) + ls.skip(k0)
    } else {
        ls
    }
}

/// Every file directive of `code` stands in a comment.
pub open spec fn no_active_inclusion(code: Seq<char>) -> bool {
    let spans = line_spans(code);
    forall|k: int|
        0 <= k < spans.len() ==> match #[trigger] find_inclusion(
            code.subrange(spans[k].0, spans[k].1),
        ) {
            Some(inc) => commented(code.take(spans[k].0 + inc.0)),
            None => true,
        }
}

/// The number a file is known by: its position in `lut`, or the next one.
pub open spec fn file_number(lut: Seq<Seq<char>>, name: Seq<char>) -> nat {
    match position_from(lut, name, 0) {
        Some(p) => p as nat,
        None => lut.len(),
    }
}

proof fn lemma_first_body_line(ls: Seq<Seq<char>>, k: int)
    requires
        0 <= k <= ls.len(),
    ensures
        k <= first_body_line(ls, k) <= ls.len(),
        forall|j: int| k <= j < first_body_line(ls, k) ==> starts_with(#[trigger] ls[j], version_prefix()),
        first_body_line(ls, k) < ls.len() ==> !starts_with(ls[first_body_line(ls, k)], version_prefix()),
    decreases ls.len() - k,
{
    if k < ls.len() && starts_with(ls[k], version_prefix()) {
        lemma_first_body_line(ls, k + 1);
    }
}

proof fn lemma_plain_lines(
    ctx: Ctx,
    code: Seq<char>,
    path: Set<Seq<char>>,
    id: nat,
    k: nat,
    need_ln: bool,
    out: Seq<Seq<char>>,
    once: Set<Seq<char>>,
    lut: Seq<Seq<char>>,
)
    requires
        no_active_inclusion(code),
        k <= line_spans(code).len(),
        need_ln == (k <= first_body_line(source_lines(code), 0)),
        out == with_line_directive(source_lines(code), id).take(
            if k <= first_body_line(source_lines(code), 0) {
                k as int
            } else {
                (k + 1) as int
            },
        ),
    ensures
        lines_expansion(ctx, code, line_spans(code), path, id, k, need_ln, out, once, lut).result
            == Expansion::Lines(with_line_directive(source_lines(code), id)),
    decreases line_spans(code).len() - k,
{
    let spans = line_spans(code);
    let ls = source_lines(code);
    let k0 = first_body_line(ls, 0);
    let w = with_line_directive(ls, id);
    lemma_first_body_line(ls, 0);
    if k0 < ls.len() {
        assert(w.len() == ls.len() + 1);
        assert forall|j: int| 0 <= j < k0 implies #[trigger] w[j] == ls[j] by {}
        assert(w[k0] == line_directive(k0 as nat, id));
        assert forall|j: int| k0 < j <= ls.len() implies #[trigger] w[j] == ls[j - 1] by {}
    } else {
        assert(w == ls);
    }
    if k >= spans.len() {
        assert(out =~= w);
    } else {
        let line = code.subrange(spans[k as int].0, spans[k as int].1);
        assert(line == ls[k as int]);
        let inc = find_inclusion(line);
        assert(!(inc is Some && !commented(code.take(spans[k as int].0 + inc.unwrap().0))));
        let directive = need_ln && !starts_with(line, version_prefix());
        let out1 = if directive {
            out.push(line_directive(k, id))
        } else {
            out
        };
        let next = need_ln && starts_with(line, version_prefix());
        let len2 = if k + 1 <= k0 {
            (k + 1) as int
        } else {
            (k + 2) as int
        };
        if (k as int) < k0 {
            assert(starts_with(ls[k as int], version_prefix()));
            assert(out1.push(line) =~= w.take(len2));
        } else if k as int == k0 {
            assert(out1.push(line) =~= w.take(len2));
        } else {
            assert(out1.push(line) =~= w.take(len2));
        }
        lemma_plain_lines(ctx, code, path, id, k + 1, next, out1.push(line), once, lut);
    }
}

/// A source whose file directives all stand in comments comes out line for
/// line, with one `#line` directive (naming line and file number) put before
/// its first line that does not start with `#version`; the file is given the
/// number it has in `lut`, or the next one.
pub proof fn lemma_plain_source(
    code: Seq<char>,
    name: Seq<char>,
    lut: Seq<Seq<char>>,
    sources: Seq<(Seq<char>, Seq<char>)>,
    offset: nat,
)
    requires
        no_active_inclusion(code),
    ensures
        preprocess_state(code, name, lut, sources, offset).result == Expansion::Lines(
            with_line_directive(source_lines(code), file_number(lut, name) + offset),
        ),
{
    let ctx = Ctx { sources, allowed: source_names(sources).insert(name), offset };
    vstd::seq_lib::seq_to_set_is_finite(sources.map_values(|p: (Seq<char>, Seq<char>)| p.0));
    assert(ctx.allowed.finite());
    lemma_first_body_line(source_lines(code), 0);
    assert(with_line_directive(source_lines(code), file_number(lut, name) + offset).take(0) =~= seq![]);
    let pos = position_from(lut, name, 0);
    let lut1 = match pos {
        Some(_) => lut,
        None => lut.push(name),
    };
    let found = find_once(code);
    let once1 = if found is Some {
        Set::<Seq<char>>::empty().insert(name)
    } else {
        Set::empty()
    };
    lemma_plain_lines(
        ctx,
        code,
        Set::empty().insert(name),
        file_number(lut, name) + offset,
        0,
        true,
        seq![],
        once1,
        lut1,
    );
}

} // verus!
