//! A ring buffer of the latest samples, read oldest first.
use vstd::prelude::*;
use vstd::arithmetic::div_mod::{lemma_add_mod_noop, lemma_small_mod, lemma_mod_self_0};

verus! {

/// A fixed-size ring buffer holding the latest values pushed.
pub struct RingBuffer<T> {
    pub buffer: Vec<T>,
    pub index: usize,
    pub size: usize,
}

/// The last `n` elements of `s` (all of `s` when it is shorter).
pub open spec fn last_n<T>(s: Seq<T>, n: nat) -> Seq<T> {
    if s.len() <= n {
        s
    } else {
        s.subrange(s.len() - n, s.len() as int)
    }
}

impl<T: Copy> RingBuffer<T> {
    /// The buffer is consistent: it has `size` slots and the write position
    /// lies inside it (or the buffer is empty).
    pub open spec fn wf(&self) -> bool {
        &&& self.buffer@.len() == self.size
        &&& (self.size == 0 ==> self.index == 0)
        &&& (self.size > 0 ==> self.index < self.size)
    }

    /// The contents, oldest value first, freshest value last.
    pub open spec fn contents(&self) -> Seq<T> {
        Seq::new(self.size as nat, |i: int| self.buffer@[(self.index + i) % (self.size as int)])
    }
}

impl<T: Copy + Default> RingBuffer<T> {
    /// Creates a buffer of `size` slots, each holding the default value of `T`.
    pub fn new(size: usize) -> (rb: Self)
        ensures
            rb.wf(),
            rb.size == size,
            rb.index == 0,
            exists|d: T|
                call_ensures(T::default, (), d) && #[trigger] rb.buffer@ == Seq::new(
                    size as nat,
                    |i: int| d,
                ),
    {
        let d = T::default();
        let mut buffer: Vec<T> = Vec::with_capacity(size);
        let mut k: usize = 0;
        while k < size
            invariant
                k <= size,
                buffer@ == Seq::new(k as nat, |i: int| d),
            decreases size - k,
        {
            buffer.push(d);
            k = k + 1;
        }
        let rb = RingBuffer { buffer, index: 0, size };
        assert(rb.buffer@ == Seq::new(size as nat, |i: int| d));
        rb
    }
}

impl<T: Copy> RingBuffer<T> {
    /// Overwrites the oldest value with `val`, which becomes the freshest.
    pub fn push(&mut self, val: &T)
        requires
            old(self).wf(),
            old(self).size > 0,
        ensures
            final(self).wf(),
            final(self).size == old(self).size,
            final(self).buffer@ == old(self).buffer@.update(old(self).index as int, *val),
            final(self).index == (old(self).index + 1) % (old(self).size as int),
            final(self).contents() == old(self).contents().drop_first().push(*val),
    {
        let ghost old_rb = *self;
        let i = self.index;
        self.buffer.set(i, *val);
        self.index = (self.index + 1) % self.size;
        proof {
            let n = self.size as int;
            let idx = old_rb.index as int;
            lemma_small_mod(idx as nat, n as nat);
            assert forall|j: int| 0 <= j < n implies #[trigger] self.contents()[j]
                == old_rb.contents().drop_first().push(*val)[j] by {
                lemma_add_mod_noop(idx + 1, j, n);
                lemma_small_mod(j as nat, n as nat);
                assert(self.index as int == (idx + 1) % n);
                assert((self.index + j) % n == (idx + 1 + j) % n) by {
                    lemma_add_mod_noop(idx + 1, j, n);
                    lemma_small_mod(((idx + 1) % n) as nat, n as nat);
                };
                if j < n - 1 {
                    lemma_small_mod((j + 1) as nat, n as nat);
                    assert((idx + 1 + j) % n != idx) by {
                        if idx + 1 + j < n {
                            lemma_small_mod((idx + 1 + j) as nat, n as nat);
                        } else {
                            lemma_mod_self_0(n);
                            lemma_add_mod_noop(n, idx + 1 + j - n, n);
                            lemma_small_mod((idx + 1 + j - n) as nat, n as nat);
                        }
                    };
                } else {
                    lemma_mod_self_0(n);
                    lemma_add_mod_noop(n, idx, n);
                }
            }
            assert(self.contents() =~= old_rb.contents().drop_first().push(*val));
        }
    }

    /// Pushes every value of `val` in order.
    pub fn push_slice(&mut self, val: &[T])
        requires
            old(self).wf(),
            old(self).size > 0 || val@.len() == 0,
        ensures
            final(self).wf(),
            final(self).size == old(self).size,
            old(self).size > 0 ==> final(self).index == (old(self).index + val@.len()) % (old(
                self,
            ).size as int),
            final(self).contents() == last_n(
                old(self).contents() + val@,
                old(self).size as nat,
            ),
    {
        let ghost c0 = self.contents();
        let ghost n = self.size as nat;
        let ghost i0 = self.index as int;
        proof {
            if n > 0 {
                lemma_small_mod(i0 as nat, n);
            }
        }
        let mut k: usize = 0;
        assert(c0 + val@.subrange(0, 0) =~= c0);
        assert(c0.subrange(0, n as int) =~= c0);
        while k < val.len()
            invariant
                self.wf(),
                self.size == n,
                n > 0 || val@.len() == 0,
                c0.len() == n,
                n > 0 ==> self.index == (i0 + k) % (n as int),
                k <= val@.len(),
                self.contents() == (c0 + val@.subrange(0, k as int)).subrange(
                    k as int,
                    k + n,
                ),
            decreases val@.len() - k,
        {
            let ghost before = self.contents();
            self.push(&val[k]);
            proof {
                if n > 1 {
                    lemma_add_mod_noop(i0 + k, 1, n as int);
                    lemma_small_mod(1, n);
                } else {
                    assert(((i0 + k) % 1 + 1) % 1 == 0 && (i0 + k + 1) % 1 == 0);
                }
                let s0 = c0 + val@.subrange(0, k as int);
                let s1 = c0 + val@.subrange(0, k + 1);
                assert(c0.len() == n);
                assert(before == s0.subrange(k as int, k + n));
                assert forall|j: int| 0 <= j < n implies #[trigger] self.contents()[j]
                    == s1.subrange(k + 1, k + 1 + n)[j] by {
                    if j < n - 1 {
                        assert(self.contents()[j] == before[j + 1]);
                        assert(s0[k + 1 + j] == s1[k + 1 + j]);
                    } else {
                        assert(self.contents()[j] == val@[k as int]);
                        assert(s1[k + n] == val@[k as int]);
                    }
                }
                assert(self.contents() =~= s1.subrange(k + 1, k + 1 + n));
            }
            k = k + 1;
        }
        proof {
            assert(val@.subrange(0, val@.len() as int) =~= val@);
            let s = c0 + val@;
            if s.len() <= n {
                assert(val@.len() == 0);
                assert(s =~= c0);
                assert(s.subrange(0, n as int) =~= s);
            }
        }
    }

    /// Returns the value `i` places after the oldest one (wrapping around).
    pub fn get(&self, i: usize) -> (r: T)
        requires
            self.wf(),
            self.size > 0,
            self.index + i <= usize::MAX,
        ensures
            r == self.buffer@[(self.index + i) % (self.size as int)],
            r == self.contents()[(i as int) % (self.size as int)],
    {
        let idx = (self.index + i) % self.size;
        proof {
            let n = self.size as int;
            lemma_small_mod(self.index as nat, n as nat);
            lemma_add_mod_noop(self.index as int, i as int, n);
            lemma_add_mod_noop(self.index as int, (i as int) % n, n);
            lemma_small_mod(((i as int) % n) as nat, n as nat);
        }
        self.buffer[idx]
    }

    /// Fills `vec` with the buffer contents, oldest value first.
    pub fn get_vec(&self, vec: &mut [T])
        requires
            self.wf(),
            self.size > 0 || old(vec)@.len() == 0,
            self.index + old(vec)@.len() <= usize::MAX + 1,
        ensures
            final(vec)@.len() == old(vec)@.len(),
            forall|i: int|
                0 <= i < old(vec)@.len() ==> #[trigger] final(vec)@[i] == self.contents()[i
                    % (self.size as int)],
    {
        let len = vec.len();
        let mut i: usize = 0;
        while i < len
            invariant
                self.wf(),
                self.size > 0 || len == 0,
                len == vec@.len(),
                len == old(vec)@.len(),
                self.index + len <= usize::MAX + 1,
                i <= len,
                forall|j: int|
                    0 <= j < i ==> #[trigger] vec@[j] == self.contents()[j % (self.size as int)],
            decreases len - i,
        {
            vec[i] = self.get(i);
            i = i + 1;
        }
    }
}

} // verus!
