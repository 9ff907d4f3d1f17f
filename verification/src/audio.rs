//! Audio input: the channel layout of the input device, and the splitting of
//! interleaved samples into per-channel ring buffers.
use vstd::prelude::*;
use crate::ringbuffer::{RingBuffer, last_n};

verus! {

/// The channel layout of the audio input.
#[derive(Debug, Clone, Copy, PartialEq, Eq)]
pub enum Channels {
    Unsupported,
    Mono,
    Stereo,
}

impl Channels {
    /// The layout for a device with `count` channels: one is mono, two is
    /// stereo, any other number is not supported.
    pub fn from_count(count: usize) -> (r: Channels)
        ensures
            r == (if count == 1 {
                Channels::Mono
            } else if count == 2 {
                Channels::Stereo
            } else {
                Channels::Unsupported
            }),
    {
        if count == 1 {
            Channels::Mono
        } else if count == 2 {
            Channels::Stereo
        } else {
            Channels::Unsupported
        }
    }
}

/// The elements of `data` at `start`, `start + step`, `start + 2 * step`, ...
pub open spec fn strided<T>(data: Seq<T>, start: nat, step: nat) -> Seq<T>
    recommends
        step > 0,
{
    let n = if start < data.len() {
        ((data.len() - start - 1) / step as int + 1) as nat
    } else {
        0
    };
    Seq::new(n, |i: int| data[start + i * step])
}

/// Pushes the samples of one channel of interleaved audio data: those at
/// `start`, `start + step`, ... (`step` being the channel count).
pub fn push_channel<T: Copy>(rb: &mut RingBuffer<T>, data: &[T], start: usize, step: usize)
    requires
        old(rb).wf(),
        old(rb).size > 0,
        step > 0,
    ensures
        final(rb).wf(),
        final(rb).size == old(rb).size,
        final(rb).contents() == last_n(
            old(rb).contents() + strided(data@, start as nat, step as nat),
            old(rb).size as nat,
        ),
{
    let ghost all = strided(data@, start as nat, step as nat);
    let n: usize = if start < data.len() {
        (data.len() - start - 1) / step + 1
    } else {
        0
    };
    let mut picked: Vec<T> = Vec::new();
    let mut i = start;
    let mut k: usize = 0;
    while k < n
        invariant
            step > 0,
            all == strided(data@, start as nat, step as nat),
            n == all.len(),
            n > 0 ==> start < data@.len() && n - 1 == (data@.len() - start - 1) / step as int,
            k <= n,
            k < n ==> i == start + k * step,
            k < n ==> i < data@.len(),
            picked@ == all.subrange(0, k as int),
        decreases n - k,
    {
        picked.push(data[i]);
        assert(picked@ =~= all.subrange(0, k + 1));
        k = k + 1;
        assert(i + step == start + k * step) by (nonlinear_arith)
            requires
                i == start + (k - 1) * step,
        ;
        if k < n {
            assert(i + step < data@.len()) by (nonlinear_arith)
                requires
                    step > 0,
                    start < data@.len(),
                    k <= (data@.len() - start - 1) / step as int,
                    i + step == start + k * step,
            ;
            i = i + step;
        }
    }
    assert(picked@ =~= all);
    rb.push_slice(picked.as_slice());
}

} // verus!

verus! {

/// The position of the last of `names` that contains `wanted` at or before
/// position `i - 1`.
pub open spec fn last_match(names: Seq<Seq<char>>, wanted: Seq<char>, i: int) -> Option<int>
    decreases i,
{
    if i <= 0 {
        None
    } else if crate::text::contains_seq(names[i - 1], wanted) {
        Some(i - 1)
    } else {
        last_match(names, wanted, i - 1)
    }
}

/// The input device to use when the configuration names one: the last of
/// the devices whose name contains the configured name.
pub fn audio_device_index(names: &[String], wanted: &str) -> (r: Option<usize>)
    ensures
        match last_match(crate::text::string_views(names@), wanted@, names@.len() as int) {
            Some(i) => r matches Some(j) && j as int == i,
            None => r is None,
        },
{
    let w = crate::text::chars_of(wanted);
    let mut found: Option<usize> = None;
    let mut i: usize = 0;
    while i < names.len()
        invariant
            i <= names@.len(),
            w@ == wanted@,
            match last_match(crate::text::string_views(names@), wanted@, i as int) {
                Some(k) => found matches Some(j) && j as int == k,
                None => found is None,
            },
        decreases names@.len() - i,
    {
        let n = crate::text::chars_of(names[i].as_str());
        if crate::text::contains_chars(n.as_slice(), w.as_slice()) {
            found = Some(i);
        }
        assert(crate::text::string_views(names@)[i as int] == names@[i as int]@);
        i = i + 1;
    }
    found
}

} // verus!
