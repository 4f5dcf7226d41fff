//! Accumulates raw interleaved stereo samples and produces analysis frames
//! with hop-based overlap and buffer draining.

use vstd::prelude::*;
use vstd::arithmetic::div_mod::lemma_hoist_over_denominator;
use crate::channels::Channels;
use crate::spectrum::FRAME_LIMIT;

verus! {

/// The downmix of one left/right sample pair: their average, rounded down.
pub open spec fn mono_mix(left: i16, right: i16) -> i16 {
    (((left as int) + (right as int)) / 2) as i16
}

/// Streaming framer: buffers raw interleaved stereo samples and, once a full
/// frame is available, yields the mono/left/right channel buffers of the
/// frame, then drains the hop from the front of the buffer.
#[derive(Clone, Debug)]
pub struct Window {
    buffer: Vec<i16>,
    size: usize,
    rate: u32,
    hop: Option<usize>,
}

impl Window {
    /// The buffered raw interleaved samples, oldest first.
    pub closed spec fn spec_buffer(&self) -> Seq<i16> {
        self.buffer@
    }

    /// The frame size in samples per channel.
    pub closed spec fn spec_size(&self) -> usize {
        self.size
    }

    /// The sample rate in Hz.
    pub closed spec fn spec_rate(&self) -> u32 {
        self.rate
    }

    /// The configured hop, if any.
    pub closed spec fn spec_hop(&self) -> Option<usize> {
        self.hop
    }

    /// The per-frame advance in samples per channel: the hop when one is
    /// configured, the whole frame size otherwise.
    pub open spec fn spec_advance(&self) -> usize {
        match self.spec_hop() {
            Some(hop) => hop,
            None => self.spec_size(),
        }
    }

    /// The frame size is positive and small enough for the index arithmetic,
    /// and the hop never exceeds the frame size.
    pub open spec fn wf(&self) -> bool {
        &&& 1 <= self.spec_size() <= FRAME_LIMIT
        &&& self.spec_rate() >= 1
        &&& match self.spec_hop() {
            Some(hop) => hop <= self.spec_size(),
            None => true,
        }
    }

    /// Creates a framer for frames of `size` samples per channel at `rate`
    /// Hz, with no overlap and no buffered samples.
    pub fn new(size: usize, rate: u32) -> (r: Self)
        requires
            1 <= size <= FRAME_LIMIT,
            rate >= 1,
        ensures
            r.wf(),
            r.spec_buffer() == Seq::<i16>::empty(),
            r.spec_size() == size,
            r.spec_rate() == rate,
            r.spec_hop() is None,
    {
        Window { buffer: Vec::new(), size, rate, hop: None }
    }

    /// Sets the hop: consecutive frames overlap by `size - hop` samples.
    /// A hop past the frame size would drain samples that were never framed
    /// and is excluded.
    pub fn with_hop(self, hop: usize) -> (r: Self)
        requires
            hop <= self.spec_size(),
        ensures
            r.spec_buffer() == self.spec_buffer(),
            r.spec_size() == self.spec_size(),
            r.spec_rate() == self.spec_rate(),
            r.spec_hop() == Some(hop),
            self.wf() ==> r.wf(),
    {
        Window { hop: Some(hop), ..self }
    }

    /// The frame size in samples per channel.
    pub fn size(&self) -> (r: usize)
        ensures
            r == self.spec_size(),
    {
        self.size
    }

    /// The sample rate in Hz.
    pub fn rate(&self) -> (r: u32)
        ensures
            r == self.spec_rate(),
    {
        self.rate
    }

    /// The configured hop, if any.
    pub fn hop(&self) -> (r: Option<usize>)
        ensures
            r == self.spec_hop(),
    {
        self.hop
    }

    /// Appends raw interleaved stereo samples.  Never fails; the buffer
    /// grows until a frame is drained.
    pub fn push(&mut self, samples: &[i16])
        requires
            old(self).spec_buffer().len() + samples@.len() <= usize::MAX,
        ensures
            final(self).spec_buffer() == old(self).spec_buffer() + samples@,
            final(self).spec_size() == old(self).spec_size(),
            final(self).spec_rate() == old(self).spec_rate(),
            final(self).spec_hop() == old(self).spec_hop(),
    {
        self.buffer.extend_from_slice(samples);
    }

    /// Extracts the next frame.  With fewer than `2 * size` buffered
    /// interleaved samples there is no frame yet and the buffer is left
    /// untouched -- the caller retries after pushing more samples.
    /// Otherwise the first `2 * size` samples are split into the left
    /// (even positions) and right (odd positions) channels, the mono channel
    /// is their per-pair average, and `2 * advance` samples are drained from
    /// the front of the buffer to implement hop-based overlap.
    pub fn next(&mut self) -> (r: Result<Channels, ()>)
        requires
            old(self).wf(),
        ensures
            final(self).wf(),
            final(self).spec_size() == old(self).spec_size(),
            final(self).spec_rate() == old(self).spec_rate(),
            final(self).spec_hop() == old(self).spec_hop(),
            old(self).spec_buffer().len() < 2 * old(self).spec_size() ==> r is Err && final(self).spec_buffer() == old(self).spec_buffer(),
            old(self).spec_buffer().len() >= 2 * old(self).spec_size() ==> {
                &&& r is Ok
                &&& final(self).spec_buffer() == old(self).spec_buffer().skip(
                    2 * old(self).spec_advance() as int,
                )
                &&& r->Ok_0.spec_left() == Seq::new(
                    old(self).spec_size() as nat,
                    |i: int| old(self).spec_buffer()[2 * i],
                )
                &&& r->Ok_0.spec_right() == Seq::new(
                    old(self).spec_size() as nat,
                    |i: int| old(self).spec_buffer()[2 * i + 1],
                )
                &&& r->Ok_0.spec_mono() == Seq::new(
                    old(self).spec_size() as nat,
                    |i: int| mono_mix(
                        old(self).spec_buffer()[2 * i],
                        old(self).spec_buffer()[2 * i + 1],
                    ),
                )
            },
    {
        let n = self.size;
        if self.buffer.len() < n * 2 {
            return Err(());
        }
        let mut left: Vec<i16> = Vec::new();
        let mut right: Vec<i16> = Vec::new();
        let mut mono: Vec<i16> = Vec::new();
        let mut i: usize = 0;
        while i < n
            invariant
                i <= n,
                n == self.spec_size(),
                self == old(self),
                self.spec_buffer().len() >= 2 * n,
                n <= FRAME_LIMIT,
                left@ == Seq::new(i as nat, |j: int| self.spec_buffer()[2 * j]),
                right@ == Seq::new(i as nat, |j: int| self.spec_buffer()[2 * j + 1]),
                mono@ == Seq::new(
                    i as nat,
                    |j: int| mono_mix(self.spec_buffer()[2 * j], self.spec_buffer()[2 * j + 1]),
                ),
            decreases n - i,
        {
            let l = self.buffer[2 * i];
            let r = self.buffer[2 * i + 1];
            let sum: i32 = l as i32 + r as i32;
            let shifted: u32 = (sum + 65536) as u32;
            let m: i16 = ((shifted / 2) as i32 - 32768) as i16;
            proof {
                lemma_hoist_over_denominator(sum as int, 32768, 2nat);
                assert(m == mono_mix(l, r));
            }
            left.push(l);
            right.push(r);
            mono.push(m);
            proof {
                assert(left@ =~= Seq::new((i + 1) as nat, |j: int| self.spec_buffer()[2 * j]));
                assert(right@ =~= Seq::new((i + 1) as nat, |j: int| self.spec_buffer()[2 * j + 1]));
                assert(mono@ =~= Seq::new(
                    (i + 1) as nat,
                    |j: int| mono_mix(self.spec_buffer()[2 * j], self.spec_buffer()[2 * j + 1]),
                ));
            }
            i += 1;
        }
        let advance = match self.hop {
            Some(hop) => hop,
            None => n,
        };
        let rest = self.buffer.split_off(advance * 2);
        self.buffer = rest;
        proof {
            assert(self.spec_buffer() =~= old(self).spec_buffer().skip(
                2 * old(self).spec_advance() as int,
            ));
        }
        Ok(Channels::new(mono, left, right))
    }
}

} // verus!
