//! A pipe: a queue of octets with a read end and a write end.
//!
//! The two ends do not hold the queue. Whoever shares a pipe between threads
//! keeps its [`PipeData`] under a lock and hands it to the end that is used;
//! after a write that took an octet it wakes the readers that wait for data.

use std::collections::VecDeque;
use vstd::prelude::*;

verus! {

/// Which end of a pipe a handle is.
#[derive(Clone, Copy, Debug, PartialEq, Eq, Structural)]
pub enum PipeEnd {
    Read,
    Write,
}

/// The octets written to a pipe and not yet read, oldest first.
pub struct PipeData {
    pub buf: VecDeque<u8>,
}

/// One end of a pipe.
#[derive(Clone, Copy, Debug)]
pub struct Pipe {
    pub direction: PipeEnd,
}

impl View for PipeData {
    type V = Seq<u8>;

    /// The queued octets, oldest first.
    open spec fn view(&self) -> Seq<u8> {
        self.buf@
    }
}

impl PipeData {
    /// An empty queue.
    pub fn new() -> (data: PipeData)
        ensures
            data@ == Seq::<u8>::empty(),
    {
        PipeData { buf: VecDeque::new() }
    }
}

impl Pipe {
    /// Whether a read through this end takes an octet from `data`: it is the
    /// read end, and the queue is not empty.
    pub open spec fn spec_can_read(&self, data: &PipeData) -> bool {
        self.direction is Read && data@.len() > 0
    }

    /// Creates the two ends of a pipe: (read, write).
    pub fn create_pair() -> (pair: (Pipe, Pipe))
        ensures
            pair.0.direction is Read,
            pair.1.direction is Write,
    {
        (Pipe { direction: PipeEnd::Read }, Pipe { direction: PipeEnd::Write })
    }

    /// Whether a read through this end would get an octet.
    #[verifier::when_used_as_spec(spec_can_read)]
    pub fn can_read(&self, data: &PipeData) -> (r: bool)
        ensures
            r == self.spec_can_read(data),
    {
        match self.direction {
            PipeEnd::Read => data.buf.len() > 0,
            PipeEnd::Write => false,
        }
    }

    /// Reads the oldest octet into the front of `buf` and returns how many
    /// octets were read: one through the read end of a pipe that holds data,
    /// none otherwise. The offset is of no meaning to a pipe.
    pub fn read_at(&self, data: &mut PipeData, offset: usize, buf: &mut [u8]) -> (n: usize)
        requires
            self.spec_can_read(old(data)) ==> old(buf)@.len() > 0,
        ensures
            n == (if self.spec_can_read(old(data)) {
                1usize
            } else {
                0usize
            }),
            self.spec_can_read(old(data)) ==> {
                &&& final(buf)@ == old(buf)@.update(0, old(data)@[0])
                &&& final(data)@ == old(data)@.subrange(1, old(data)@.len() as int)
            },
            !self.spec_can_read(old(data)) ==> {
                &&& final(buf)@ == old(buf)@
                &&& final(data)@ == old(data)@
            },
    {
        match self.direction {
            PipeEnd::Read => match data.buf.pop_front() {
                Some(ch) => {
                    buf[0] = ch;
                    1
                },
                None => 0,
            },
            PipeEnd::Write => 0,
        }
    }

    /// Whether a write of `len` octets through this end puts an octet into
    /// the pipe: it is the write end, and there is something to write.
    pub open spec fn takes_octet(&self, len: nat) -> bool {
        self.direction is Write && len > 0
    }

    /// Writes the first octet of `buf` to the pipe and returns how many octets
    /// were written: one through the write end if `buf` is not empty, none
    /// otherwise. The offset is of no meaning to a pipe. After a write of one
    /// octet the readers that wait for data have to be woken.
    pub fn write_at(&self, data: &mut PipeData, offset: usize, buf: &[u8]) -> (n: usize)
        ensures
            n == (if self.takes_octet(buf@.len()) {
                1usize
            } else {
                0usize
            }),
            self.takes_octet(buf@.len()) ==> final(data)@ == old(data)@.push(buf@[0]),
            !self.takes_octet(buf@.len()) ==> final(data)@ == old(data)@,
    {
        match self.direction {
            PipeEnd::Write => {
                if buf.len() > 0 {
                    data.buf.push_back(buf[0]);
                    1
                } else {
                    0
                }
            },
            PipeEnd::Read => 0,
        }
    }
}

} // verus!
