//! Interleaving of two channels into one buffer, and splitting it back.
use vstd::prelude::*;

verus! {

/// `a` and `b` taken in turns, starting with `a`; the rest of the longer one
/// follows at the end.
pub open spec fn interlace_spec<T>(a: Seq<T>, b: Seq<T>) -> Seq<T> {
    let m = if a.len() <= b.len() { a.len() as int } else { b.len() as int };
    Seq::new(
        a.len() + b.len(),
        |i: int|
            if i < 2 * m {
                if i % 2 == 0 {
                    a[i / 2]
                } else {
                    b[i / 2]
                }
            } else if a.len() > b.len() {
                a[i - m]
            } else {
                b[i - m]
            },
    )
}

/// The elements at even positions of `s`.
pub open spec fn evens<T>(s: Seq<T>) -> Seq<T> {
    Seq::new(((s.len() + 1) / 2) as nat, |i: int| s[2 * i])
}

/// The elements at odd positions of `s`.
pub open spec fn odds<T>(s: Seq<T>) -> Seq<T> {
    Seq::new((s.len() / 2) as nat, |i: int| s[2 * i + 1])
}

/// `out` holds clones of the elements of `s`, position by position.
pub open spec fn clones_of<T: Clone>(s: Seq<T>, out: Seq<T>) -> bool {
    &&& out.len() == s.len()
    &&& forall|i: int| 0 <= i < s.len() ==> cloned(s[i], #[trigger] out[i])
}

/// Interleaves two slices: `first[0], second[0], first[1], second[1], ...`,
/// followed by whatever is left of the longer one.
pub fn interlace<T: Clone>(first: &[T], second: &[T]) -> (out: Vec<T>)
    requires
        first@.len() + second@.len() <= usize::MAX,
    ensures
        clones_of(interlace_spec(first@, second@), out@),
{
    let ghost spec = interlace_spec(first@, second@);
    let m = if first.len() <= second.len() {
        first.len()
    } else {
        second.len()
    };
    let mut out: Vec<T> = Vec::with_capacity(first.len() + second.len());
    let mut i: usize = 0;
    while i < m
        invariant
            spec == interlace_spec(first@, second@),
            m as int == (if first@.len() <= second@.len() {
                first@.len() as int
            } else {
                second@.len() as int
            }),
            i <= m,
            out@.len() == 2 * i,
            forall|j: int| 0 <= j < 2 * i ==> cloned(spec[j], #[trigger] out@[j]),
        decreases m - i,
    {
        let x = first[i].clone();
        let y = second[i].clone();
        out.push(x);
        out.push(y);
        proof {
            assert(spec[2 * i] == first@[i as int]);
            assert(spec[2 * i + 1] == second@[i as int]);
        }
        i = i + 1;
    }
    let (rest, rest_len) = if first.len() > second.len() {
        (first, first.len())
    } else {
        (second, second.len())
    };
    let mut k: usize = m;
    while k < rest_len
        invariant
            spec == interlace_spec(first@, second@),
            m as int == (if first@.len() <= second@.len() {
                first@.len() as int
            } else {
                second@.len() as int
            }),
            rest_len == rest@.len(),
            rest@ == (if first@.len() > second@.len() {
                first@
            } else {
                second@
            }),
            m <= k <= rest_len,
            out@.len() == m + k,
            forall|j: int| 0 <= j < m + k ==> cloned(spec[j], #[trigger] out@[j]),
        decreases rest_len - k,
    {
        let x = rest[k].clone();
        out.push(x);
        proof {
            assert(spec[m + k] == rest@[k as int]);
        }
        k = k + 1;
    }
    out
}

/// Splits a slice into its elements at even and at odd positions.
pub fn deinterlace<T: Clone>(slice: &[T]) -> (res: (Vec<T>, Vec<T>))
    ensures
        clones_of(evens(slice@), res.0@),
        clones_of(odds(slice@), res.1@),
{
    let n = slice.len();
    let mut first: Vec<T> = Vec::new();
    let mut second: Vec<T> = Vec::new();
    let mut i: usize = 0;
    while i < n
        invariant
            n == slice@.len(),
            i <= n,
            first@.len() == (i + 1) / 2,
            second@.len() == i / 2,
            forall|j: int| 0 <= j < first@.len() ==> cloned(slice@[2 * j], #[trigger] first@[j]),
            forall|j: int|
                0 <= j < second@.len() ==> cloned(slice@[2 * j + 1], #[trigger] second@[j]),
        decreases n - i,
    {
        let x = slice[i].clone();
        if i % 2 == 0 {
            first.push(x);
        } else {
            second.push(x);
        }
        i = i + 1;
    }
    (first, second)
}

/// Splitting an interleaving of two sequences of equal length, or of which
/// the first is one element longer, gives back the two sequences.
pub proof fn lemma_deinterlace_interlace<T>(a: Seq<T>, b: Seq<T>)
    requires
        a.len() == b.len() || a.len() == b.len() + 1,
    ensures
        evens(interlace_spec(a, b)) == a,
        odds(interlace_spec(a, b)) == b,
{
    let s = interlace_spec(a, b);
    assert(evens(s) =~= a);
    assert(odds(s) =~= b);
}

/// Interleaving the elements at even positions of a sequence with those at
/// odd positions gives back the sequence.
pub proof fn lemma_interlace_deinterlace<T>(s: Seq<T>)
    ensures
        interlace_spec(evens(s), odds(s)) == s,
{
    let a = evens(s);
    let b = odds(s);
    let r = interlace_spec(a, b);
    assert forall|i: int| 0 <= i < s.len() implies r[i] == s[i] by {
        let m = b.len() as int;
        if i < 2 * m {
            if i % 2 == 0 {
                assert(2 * (i / 2) == i);
            } else {
                assert(2 * (i / 2) + 1 == i);
            }
        } else {
            assert(i == s.len() - 1 && i == 2 * m);
        }
    }
    assert(r =~= s);
}

/// Cloning gives back an equal value.
pub open spec fn clones_equal<T: Clone>() -> bool {
    forall|x: T, y: T| #[trigger] cloned(x, y) ==> x == y
}

/// Interleaving what splitting a slice gives back gives the slice, for
/// element types whose clones equal the values cloned: the results of
/// [`deinterlace`] and [`interlace`], related by their contracts.
pub proof fn lemma_deinterlace_then_interlace<T: Clone>(s: Seq<T>, a: Seq<T>, b: Seq<T>, r: Seq<T>)
    requires
        clones_equal::<T>(),
        clones_of(evens(s), a),
        clones_of(odds(s), b),
        clones_of(interlace_spec(a, b), r),
    ensures
        r == s,
{
    assert(a =~= evens(s)) by {
        assert forall|i: int| 0 <= i < a.len() implies a[i] == evens(s)[i] by {
            assert(cloned(evens(s)[i], a[i]));
        }
    }
    assert(b =~= odds(s)) by {
        assert forall|i: int| 0 <= i < b.len() implies b[i] == odds(s)[i] by {
            assert(cloned(odds(s)[i], b[i]));
        }
    }
    lemma_interlace_deinterlace(s);
    assert forall|i: int| 0 <= i < r.len() implies r[i] == interlace_spec(a, b)[i] by {
        assert(cloned(interlace_spec(a, b)[i], r[i]));
    }
    assert(r =~= s);
}

/// Splitting what interleaving two slices gives (of equal lengths, or the
/// first one longer by one) gives back the two slices, for element types
/// whose clones equal the values cloned.
pub proof fn lemma_interlace_then_deinterlace<T: Clone>(
    a: Seq<T>,
    b: Seq<T>,
    x: Seq<T>,
    p: Seq<T>,
    q: Seq<T>,
)
    requires
        clones_equal::<T>(),
        a.len() == b.len() || a.len() == b.len() + 1,
        clones_of(interlace_spec(a, b), x),
        clones_of(evens(x), p),
        clones_of(odds(x), q),
    ensures
        p == a,
        q == b,
{
    assert(x =~= interlace_spec(a, b)) by {
        assert forall|i: int| 0 <= i < x.len() implies x[i] == interlace_spec(a, b)[i] by {
            assert(cloned(interlace_spec(a, b)[i], x[i]));
        }
    }
    lemma_deinterlace_interlace(a, b);
    assert forall|i: int| 0 <= i < p.len() implies p[i] == evens(x)[i] by {
        assert(cloned(evens(x)[i], p[i]));
    }
    assert forall|i: int| 0 <= i < q.len() implies q[i] == odds(x)[i] by {
        assert(cloned(odds(x)[i], q[i]));
    }
    assert(p =~= a);
    assert(q =~= b);
}

/// Clones of `u32` values are equal to them.
pub proof fn lemma_u32_clones_equal()
    ensures
        clones_equal::<u32>(),
{
}

} // verus!
