//! The texture cache: images loaded once are kept by path, so that
//! reloading a pipeline does not read and decode them again.
use vstd::prelude::*;
use crate::text::str_eq;

verus! {

/// A cached texture.
#[derive(Debug)]
pub struct CacheEntry<T> {
    pub tex: T,
}

impl<T> CacheEntry<T> {
    pub fn new(tex: T) -> (r: Self)
        ensures
            r.tex == tex,
    {
        CacheEntry { tex }
    }
}

/// Textures by the path they were loaded from.
#[derive(Debug)]
pub struct Cache<T> {
    entries: Vec<(String, CacheEntry<T>)>,
}

/// The map that a list of entries gives, later entries winning.
pub open spec fn entries_map<T>(s: Seq<(String, CacheEntry<T>)>) -> Map<Seq<char>, T>
    decreases s.len(),
{
    if s.len() == 0 {
        Map::empty()
    } else {
        entries_map(s.drop_last()).insert(s.last().0@, s.last().1.tex)
    }
}

/// No path occurs twice among the entries.
pub open spec fn distinct_paths<T>(s: Seq<(String, CacheEntry<T>)>) -> bool {
    forall|i: int, j: int| 0 <= i < j < s.len() ==> s[i].0@ != s[j].0@
}

proof fn lemma_entries_map_contains<T>(s: Seq<(String, CacheEntry<T>)>, k: Seq<char>)
    ensures
        entries_map(s).contains_key(k) <==> exists|i: int| 0 <= i < s.len() && s[i].0@ == k,
    decreases s.len(),
{
    if s.len() > 0 {
        lemma_entries_map_contains(s.drop_last(), k);
        if exists|i: int| 0 <= i < s.len() && s[i].0@ == k {
            let i = choose|i: int| 0 <= i < s.len() && s[i].0@ == k;
            if i < s.len() - 1 {
                assert(s.drop_last()[i] == s[i]);
            }
        }
        if exists|i: int| 0 <= i < s.drop_last().len() && s.drop_last()[i].0@ == k {
            let i = choose|i: int| 0 <= i < s.drop_last().len() && s.drop_last()[i].0@ == k;
            assert(s[i] == s.drop_last()[i]);
        }
    }
}

proof fn lemma_entries_map_update<T>(s: Seq<(String, CacheEntry<T>)>, i: int, e: (String, CacheEntry<T>))
    requires
        distinct_paths(s),
        0 <= i < s.len(),
        s[i].0@ == e.0@,
    ensures
        entries_map(s.update(i, e)) == entries_map(s).insert(e.0@, e.1.tex),
    decreases s.len(),
{
    let t = s.update(i, e);
    assert(t.drop_last() =~= if i == s.len() - 1 {
        s.drop_last()
    } else {
        s.drop_last().update(i, e)
    });
    if i == s.len() - 1 {
        assert(entries_map(t) =~= entries_map(s).insert(e.0@, e.1.tex));
    } else {
        lemma_entries_map_update(s.drop_last(), i, e);
        assert(s.last().0@ != e.0@);
        assert(entries_map(t) =~= entries_map(s).insert(e.0@, e.1.tex));
    }
}

impl<T> View for Cache<T> {
    type V = Map<Seq<char>, T>;

    /// The cached textures by path.
    closed spec fn view(&self) -> Map<Seq<char>, T> {
        entries_map(self.entries@)
    }
}

impl<T> Cache<T> {

    /// No path is cached twice.
    pub closed spec fn wf(&self) -> bool {
        distinct_paths(self.entries@)
    }

    /// An empty cache.
    pub fn new() -> (r: Self)
        ensures
            r.wf(),
            r@ == Map::<Seq<char>, T>::empty(),
    {
        Cache { entries: Vec::new() }
    }

    fn position(&self, path: &str) -> (r: Option<usize>)
        ensures
            r matches Some(i) ==> i < self.entries@.len() && self.entries@[i as int].0@ == path@,
            r is None ==> forall|i: int|
                0 <= i < self.entries@.len() ==> self.entries@[i].0@ != path@,
    {
        let mut i: usize = 0;
        while i < self.entries.len()
            invariant
                i <= self.entries@.len(),
                forall|j: int| 0 <= j < i ==> self.entries@[j].0@ != path@,
            decreases self.entries@.len() - i,
        {
            if str_eq(self.entries[i].0.as_str(), path) {
                return Some(i);
            }
            i = i + 1;
        }
        None
    }

    /// Keeps `tex` as the texture loaded from `path`, replacing any texture
    /// cached for that path before.
    pub fn store(&mut self, path: String, tex: T)
        requires
            old(self).wf(),
        ensures
            final(self).wf(),
            final(self)@ == old(self)@.insert(path@, tex),
    {
        match self.position(path.as_str()) {
            Some(i) => {
                proof {
                    lemma_entries_map_update(self.entries@, i as int, (path, CacheEntry { tex }));
                }
                let ghost before = self.entries@;
                self.entries.set(i, (path, CacheEntry::new(tex)));
                assert(self.entries@ == before.update(i as int, (path, CacheEntry { tex })));
                assert(distinct_paths(self.entries@)) by {
                    assert forall|a: int, b: int|
                        0 <= a < b < self.entries@.len() implies self.entries@[a].0@
                        != self.entries@[b].0@ by {
                        assert(before[a].0@ != before[b].0@);
                    }
                }
            },
            None => {
                let ghost before = self.entries@;
                self.entries.push((path, CacheEntry::new(tex)));
                assert(self.entries@.drop_last() =~= before);
            },
        }
    }

    /// The texture loaded from `path`, if it is cached.
    pub fn fetch(&self, path: &str) -> (r: Option<&T>)
        requires
            self.wf(),
        ensures
            match self@.get(path@) {
                Some(t) => r matches Some(x) && *x == t,
                None => r is None,
            },
    {
        proof {
            lemma_entries_map_contains(self.entries@, path@);
        }
        match self.position(path) {
            Some(i) => {
                proof {
                    let s = self.entries@;
                    let e = s[i as int];
                    lemma_entries_map_update(s, i as int, e);
                    assert(s.update(i as int, e) =~= s);
                }
                Some(&self.entries[i].1.tex)
            },
            None => None,
        }
    }
}

/// A texture stored under a path is what fetching that path gives, and
/// storing leaves every other path's texture as it was.
pub proof fn lemma_fetch_after_store<T>(before: Map<Seq<char>, T>, path: Seq<char>, tex: T, other: Seq<char>)
    requires
        other != path,
    ensures
        before.insert(path, tex).get(path) == Some(tex),
        before.insert(path, tex).get(other) == before.get(other),
{
}

} // verus!
