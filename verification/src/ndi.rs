//! NDI video sources: which of the sources found on the network serve the
//! names a pipeline asks for, and which connections are no longer needed.
use vstd::prelude::*;
use crate::text::{chars_of, contains_chars, contains_seq, str_eq, string_views};

verus! {

/// The first requested name, from the `j`-th on, that the source name
/// contains.
pub open spec fn first_pattern(name: Seq<char>, requested: Seq<Seq<char>>, j: int) -> Option<int>
    decreases requested.len() - j,
{
    if j < 0 || j >= requested.len() {
        None
    } else if contains_seq(name, requested[j]) {
        Some(j)
    } else {
        first_pattern(name, requested, j + 1)
    }
}

/// For the sources from the `i`-th on, in order, the pairs of the requested
/// name each serves (the first that its name contains) and the source.
pub open spec fn matches_from(names: Seq<Seq<char>>, requested: Seq<Seq<char>>, i: int) -> Seq<
    (int, int),
>
    decreases names.len() - i,
{
    if i < 0 || i >= names.len() {
        seq![]
    } else {
        match first_pattern(names[i], requested, 0) {
            Some(j) => seq![(j, i)] + matches_from(names, requested, i + 1),
            None => matches_from(names, requested, i + 1),
        }
    }
}

fn pattern_for(name: &str, requested: &[String]) -> (r: Option<usize>)
    ensures
        match first_pattern(name@, string_views(requested@), 0) {
            Some(j) => r matches Some(k) && k as int == j,
            None => r is None,
        },
{
    let n = chars_of(name);
    let mut j: usize = 0;
    while j < requested.len()
        invariant
            j <= requested@.len(),
            n@ == name@,
            first_pattern(name@, string_views(requested@), 0) == first_pattern(
                name@,
                string_views(requested@),
                j as int,
            ),
        decreases requested@.len() - j,
    {
        let p = chars_of(requested[j].as_str());
        assert(string_views(requested@)[j as int] == requested@[j as int]@);
        if contains_chars(n.as_slice(), p.as_slice()) {
            return Some(j);
        }
        j = j + 1;
    }
    None
}

/// Which sources to receive: for each source found whose name contains a
/// requested name, the position of the first such requested name and the
/// position of the source, in the order the sources were found.
pub fn match_sources(names: &[String], requested: &[String]) -> (r: Vec<(usize, usize)>)
    ensures
        r@.map_values(|p: (usize, usize)| (p.0 as int, p.1 as int)) == matches_from(
            string_views(names@),
            string_views(requested@),
            0,
        ),
{
    let ghost nv = string_views(names@);
    let ghost rv = string_views(requested@);
    let mut out: Vec<(usize, usize)> = Vec::new();
    let mut i: usize = 0;
    while i < names.len()
        invariant
            i <= names@.len(),
            nv == string_views(names@),
            rv == string_views(requested@),
            out@.map_values(|p: (usize, usize)| (p.0 as int, p.1 as int)) + matches_from(
                nv,
                rv,
                i as int,
            ) == matches_from(nv, rv, 0),
        decreases names@.len() - i,
    {
        let ghost before = out@;
        assert(nv[i as int] == names@[i as int]@);
        match pattern_for(names[i].as_str(), requested) {
            Some(j) => {
                out.push((j, i));
                assert(out@.map_values(|p: (usize, usize)| (p.0 as int, p.1 as int)) =~= before.map_values(
                    |p: (usize, usize)| (p.0 as int, p.1 as int),
                ).push((j as int, i as int)));
                assert(out@.map_values(|p: (usize, usize)| (p.0 as int, p.1 as int)) + matches_from(
                    nv,
                    rv,
                    i + 1,
                ) =~= before.map_values(|p: (usize, usize)| (p.0 as int, p.1 as int))
                    + matches_from(nv, rv, i as int));
            },
            None => {},
        }
        i = i + 1;
    }
    assert(out@.map_values(|p: (usize, usize)| (p.0 as int, p.1 as int)) + matches_from(
        nv,
        rv,
        i as int,
    ) =~= out@.map_values(|p: (usize, usize)| (p.0 as int, p.1 as int)));
    out
}

/// Which of the current connections (by the requested name they serve) to
/// end: those whose name is no longer served by any source found.
pub fn stale_connections(connected: &[String], served: &[String]) -> (r: Vec<bool>)
    ensures
        r@.len() == connected@.len(),
        forall|i: int|
            0 <= i < connected@.len() ==> r@[i] == !string_views(served@).contains(
                connected@[i]@,
            ),
{
    let mut r: Vec<bool> = Vec::new();
    let mut i: usize = 0;
    while i < connected.len()
        invariant
            i <= connected@.len(),
            r@.len() == i,
            forall|q: int|
                0 <= q < i ==> r@[q] == !string_views(served@).contains(connected@[q]@),
        decreases connected@.len() - i,
    {
        let mut found = false;
        let mut j: usize = 0;
        while j < served.len()
            invariant
                j <= served@.len(),
                i < connected@.len(),
                found == exists|k: int| 0 <= k < j && served@[k]@ == connected@[i as int]@,
            decreases served@.len() - j,
        {
            if str_eq(served[j].as_str(), connected[i].as_str()) {
                found = true;
            }
            j = j + 1;
        }
        proof {
            let sv = string_views(served@);
            if found {
                let k = choose|k: int| 0 <= k < served@.len() && served@[k]@ == connected@[i as int]@;
                assert(sv[k] == connected@[i as int]@);
            }
            if sv.contains(connected@[i as int]@) {
                let k = choose|k: int| 0 <= k < sv.len() && sv[k] == connected@[i as int]@;
                assert(served@[k]@ == connected@[i as int]@);
            }
        }
        r.push(!found);
        i = i + 1;
    }
    r
}

/// Whether a frame of the given size needs a new texture: its size differs
/// from the texture's.
pub fn needs_new_texture(texture_res: [u32; 3], frame_width: u32, frame_height: u32) -> (r: bool)
    ensures
        r == !(texture_res[0] == frame_width && texture_res[1] == frame_height && texture_res[2]
            == 0),
{
    !(texture_res[0] == frame_width && texture_res[1] == frame_height && texture_res[2] == 0)
}

} // verus!
