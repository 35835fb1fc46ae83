//! Bounded first-in first-out buffer smoothing incoming segments.

use vstd::prelude::*;
use std::collections::VecDeque;
use crate::domain::stream::VideoSegment;
use crate::outside::{instant_now, nanos_elapsed};

verus! {

/// Holds up to `max_size` segments; remembers when the first one arrived.
/// `max_duration` is in nanoseconds.
pub struct SegmentBuffer {
    buffer: VecDeque<VideoSegment>,
    max_size: usize,
    max_duration: u64,
    first_segment_time: Option<std::time::Instant>,
}

impl SegmentBuffer {
    /// Never more segments than the buffer's size.
    #[verifier::type_invariant]
    spec fn bounded(&self) -> bool {
        self.buffer@.len() <= self.max_size
    }

    /// The buffered segments, oldest first.
    pub closed spec fn contents(&self) -> Seq<VideoSegment> {
        self.buffer@
    }

    pub closed spec fn capacity(&self) -> nat {
        self.max_size as nat
    }

    /// Time after the first segment beyond which the buffer counts as expired, in nanoseconds.
    pub closed spec fn max_age(&self) -> u64 {
        self.max_duration
    }

    /// A segment has arrived since the buffer was created or last cleared.
    pub closed spec fn started(&self) -> bool {
        self.first_segment_time is Some
    }

    pub fn new(max_size: usize, max_duration: u64) -> (b: Self)
        ensures
            b.contents().len() == 0,
            b.capacity() == max_size,
            b.max_age() == max_duration,
            !b.started(),
    {
        SegmentBuffer { buffer: VecDeque::with_capacity(max_size), max_size, max_duration, first_segment_time: None }
    }

    /// Appends a segment unless the buffer is full; true if it was added.
    pub fn push(&mut self, segment: VideoSegment) -> (added: bool)
        ensures
            added == (old(self).contents().len() < old(self).capacity()),
            added ==> final(self).contents() == old(self).contents().push(segment) && final(self).started(),
            !added ==> final(self).contents() == old(self).contents() && final(self).started() == old(self).started(),
            final(self).capacity() == old(self).capacity(),
            final(self).max_age() == old(self).max_age(),
            final(self).contents().len() <= final(self).capacity(),
    {
        proof {
            use_type_invariant(&*self);
        }
        if self.buffer.len() >= self.max_size {
            return false;
        }
        if self.first_segment_time.is_none() {
            self.first_segment_time = Some(instant_now());
        }
        let mut b = VecDeque::new();
        std::mem::swap(&mut b, &mut self.buffer);
        b.push_back(segment);
        self.buffer = b;
        true
    }

    /// Takes the oldest segment, if any.
    pub fn pop(&mut self) -> (seg: Option<VideoSegment>)
        ensures
            old(self).contents().len() == 0 ==> seg is None && final(self).contents() == old(self).contents(),
            old(self).contents().len() > 0 ==> seg == Some(old(self).contents()[0])
                && final(self).contents() == old(self).contents().drop_first(),
            final(self).capacity() == old(self).capacity(),
            final(self).max_age() == old(self).max_age(),
            final(self).started() == old(self).started(),
    {
        proof {
            use_type_invariant(&*self);
        }
        let mut b = VecDeque::new();
        std::mem::swap(&mut b, &mut self.buffer);
        let seg = b.pop_front();
        self.buffer = b;
        seg
    }

    /// Whether no more segments fit.
    pub fn is_full(&self) -> (b: bool)
        ensures
            b == (self.contents().len() >= self.capacity()),
    {
        self.buffer.len() >= self.max_size
    }

    /// Whether more than `max_duration` has passed since the first segment arrived
    /// (never, before any has).
    pub fn is_expired(&self) -> (b: bool)
        ensures
            !self.started() ==> !b,
            b ==> self.max_age() < u64::MAX,
    {
        match &self.first_segment_time {
            Some(first) => {
                let elapsed = nanos_elapsed(first);
                self.is_expired_after(elapsed)
            },
            None => false,
        }
    }

    /// Whether the buffer counts as expired when `elapsed` nanoseconds have passed
    /// since its first segment arrived.
    pub fn is_expired_after(&self, elapsed: u64) -> (b: bool)
        ensures
            b == (self.started() && elapsed > self.max_age()),
    {
        self.first_segment_time.is_some() && elapsed > self.max_duration
    }

    /// Number of buffered segments.
    pub fn len(&self) -> (n: usize)
        ensures
            n == self.contents().len(),
            n <= self.capacity(),
    {
        proof {
            use_type_invariant(self);
        }
        self.buffer.len()
    }

    /// Most segments the buffer holds.
    pub fn max_size(&self) -> (n: usize)
        ensures
            n == self.capacity(),
    {
        self.max_size
    }

    /// Empties the buffer and forgets when it started.
    pub fn clear(&mut self)
        ensures
            final(self).contents().len() == 0,
            !final(self).started(),
            final(self).capacity() == old(self).capacity(),
            final(self).max_age() == old(self).max_age(),
    {
        self.buffer = VecDeque::new();
        self.first_segment_time = None;
    }
}

/// Segments leave in the order they arrived: taking the oldest after an append
/// is the same as appending after taking the oldest, for a non-empty buffer.
pub proof fn lemma_fifo(contents: Seq<VideoSegment>, s: VideoSegment)
    requires
        contents.len() > 0,
    ensures
        contents.push(s)[0] == contents[0],
        contents.push(s).drop_first() == contents.drop_first().push(s),
{
    assert(contents.push(s).drop_first() =~= contents.drop_first().push(s));
}

} // verus!
