//! The three per-frame channel buffers produced by the framer.

use vstd::prelude::*;

verus! {

/// One analysis frame split into its three channel views: the downmixed
/// mono channel and the raw left and right channels.
#[derive(Clone, Debug)]
pub struct Channels {
    mono: Vec<i16>,
    left: Vec<i16>,
    right: Vec<i16>,
}

/// A borrowed view of one channel of a frame, tagged with which channel it
/// is.
#[derive(Debug)]
pub enum Channel<'a> {
    Mono(&'a Vec<i16>),
    Left(&'a Vec<i16>),
    Right(&'a Vec<i16>),
}

impl<'a> Channel<'a> {
    /// The samples of the channel, whichever channel it is.
    pub open spec fn spec_samples(&self) -> Seq<i16> {
        match self {
            Channel::Mono(data) => data@,
            Channel::Left(data) => data@,
            Channel::Right(data) => data@,
        }
    }

    /// The samples of the channel.
    pub fn samples(&self) -> (r: &Vec<i16>)
        ensures
            r@ == self.spec_samples(),
    {
        match self {
            Channel::Mono(data) => data,
            Channel::Left(data) => data,
            Channel::Right(data) => data,
        }
    }
}

impl Channels {
    /// The downmixed mono samples.
    pub closed spec fn spec_mono(&self) -> Seq<i16> {
        self.mono@
    }

    /// The left-channel samples.
    pub closed spec fn spec_left(&self) -> Seq<i16> {
        self.left@
    }

    /// The right-channel samples.
    pub closed spec fn spec_right(&self) -> Seq<i16> {
        self.right@
    }

    /// Bundles the three channel buffers of one frame.
    pub fn new(mono: Vec<i16>, left: Vec<i16>, right: Vec<i16>) -> (r: Self)
        ensures
            r.spec_mono() == mono@,
            r.spec_left() == left@,
            r.spec_right() == right@,
    {
        Channels { mono, left, right }
    }

    /// The mono channel.
    pub fn mono(&self) -> (r: Channel<'_>)
        ensures
            r.spec_samples() == self.spec_mono(),
    {
        Channel::Mono(&self.mono)
    }

    /// The left channel.
    pub fn left(&self) -> (r: Channel<'_>)
        ensures
            r.spec_samples() == self.spec_left(),
    {
        Channel::Left(&self.left)
    }

    /// The right channel.
    pub fn right(&self) -> (r: Channel<'_>)
        ensures
            r.spec_samples() == self.spec_right(),
    {
        Channel::Right(&self.right)
    }
}

} // verus!
