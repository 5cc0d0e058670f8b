//! The channel between the producers of frames and the interface.
//!
//! Producers put values in at one end and never wait; the interface takes
//! them out at the other end, in the order in which they were put in, and
//! never waits either. Once per tick it drains whatever is pending.

use polars_core::frame::DataFrame;
use std::collections::VecDeque;
use vstd::prelude::*;

verus! {

/// One stream of values from producers to one consumer.
pub struct Channel<T> {
    queue: VecDeque<T>,
    open: bool,
}

impl<T> Channel<T> {
    /// The values that were sent and not yet received, oldest first.
    pub closed spec fn view(&self) -> Seq<T> {
        self.queue@
    }

    /// Whether the consumer is still there.
    pub closed spec fn spec_is_open(&self) -> bool {
        self.open
    }

    /// An open channel with nothing pending.
    pub fn new() -> (channel: Channel<T>)
        ensures
            channel@ == Seq::<T>::empty(),
            channel.is_open(),
    {
        Channel { queue: VecDeque::new(), open: true }
    }

    /// Whether the consumer is still there.
    #[verifier::when_used_as_spec(spec_is_open)]
    pub fn is_open(&self) -> (open: bool)
        ensures
            open == self.spec_is_open(),
    {
        self.open
    }

    /// The number of pending values.
    pub fn len(&self) -> (len: usize)
        ensures
            len == self@.len(),
    {
        self.queue.len()
    }

    /// Whether nothing is pending.
    pub fn is_empty(&self) -> (empty: bool)
        ensures
            empty == (self@.len() == 0),
    {
        self.queue.len() == 0
    }

    /// Sends a value without waiting. Where the consumer is gone the value
    /// comes back as the error and nothing else happens: the producer may
    /// take that as its sign to stop.
    pub fn send(&mut self, value: T) -> (sent: Result<(), T>)
        ensures
            final(self).is_open() == old(self).is_open(),
            old(self).is_open() ==> sent == Ok::<(), T>(()) && final(self)@ == old(self)@.push(value),
            !old(self).is_open() ==> sent == Err::<(), T>(value) && final(self)@ == old(self)@,
    {
        if self.open {
            self.queue.push_back(value);
            Ok(())
        } else {
            Err(value)
        }
    }

    /// Takes the oldest pending value without waiting, or nothing where
    /// nothing is pending.
    pub fn try_receive(&mut self) -> (received: Option<T>)
        ensures
            final(self).is_open() == old(self).is_open(),
            received == if old(self)@.len() > 0 {
                Some(old(self)@[0])
            } else {
                None
            },
            final(self)@ == if old(self)@.len() > 0 {
                old(self)@.drop_first()
            } else {
                old(self)@
            },
    {
        let received = self.queue.pop_front();
        proof {
            if old(self)@.len() > 0 {
                assert(old(self)@.drop_first() == old(self)@.subrange(1, old(self)@.len() as int));
            }
        }
        received
    }

    /// Takes every pending value, oldest first, by receiving until nothing
    /// is pending. What is sent afterwards is for the next call.
    pub fn drain(&mut self) -> (values: Vec<T>)
        ensures
            values@ == old(self)@,
            final(self)@ == Seq::<T>::empty(),
            final(self).is_open() == old(self).is_open(),
    {
        let mut values = Vec::new();
        let ghost before = self@;
        loop
            invariant
                values@ + self@ == before,
                self.is_open() == old(self).is_open(),
            ensures
                self@.len() == 0,
            decreases self@.len(),
        {
            let ghost pending = self@;
            let ghost taken = values@;
            match self.try_receive() {
                Some(value) => {
                    values.push(value);
                    proof {
                        assert(values@ + self@ =~= taken + pending);
                    }
                },
                None => {
                    break ;
                },
            }
        }
        proof {
            assert(values@ =~= values@ + self@);
            assert(self@ =~= Seq::<T>::empty());
        }
        values
    }

    /// The consumer leaves: what is pending is dropped, and every later
    /// send fails.
    pub fn close(&mut self)
        ensures
            !final(self).is_open(),
            final(self)@ == Seq::<T>::empty(),
    {
        self.queue.clear();
        self.open = false;
    }
}

/// The channel that the producers share with the interface: one stream of
/// frames and one of error messages, each in its own order. Neither stream
/// holds up the other.
pub struct FrameChannel {
    pub frames: Channel<DataFrame>,
    pub errors: Channel<String>,
}

impl FrameChannel {
    /// An open channel with nothing pending in either stream.
    pub fn new() -> (channel: FrameChannel)
        ensures
            channel.frames@ == Seq::<DataFrame>::empty(),
            channel.errors@ == Seq::<String>::empty(),
            channel.frames.is_open(),
            channel.errors.is_open(),
    {
        FrameChannel { frames: Channel::new(), errors: Channel::new() }
    }

    /// The consumer leaves: both streams are closed, and what was pending
    /// is dropped.
    pub fn close(&mut self)
        ensures
            !final(self).frames.is_open(),
            !final(self).errors.is_open(),
            final(self).frames@ == Seq::<DataFrame>::empty(),
            final(self).errors@ == Seq::<String>::empty(),
    {
        self.frames.close();
        self.errors.close();
    }
}

/// What is pending after the values were sent in order on an open channel
/// on which `pending` was pending.
pub open spec fn sent_all<T>(pending: Seq<T>, values: Seq<T>) -> Seq<T>
    decreases values.len(),
{
    if values.len() == 0 {
        pending
    } else {
        sent_all(pending.push(values[0]), values.drop_first())
    }
}

/// Sends queue up behind what is pending, in the order of sending.
pub proof fn lemma_sent_all<T>(pending: Seq<T>, values: Seq<T>)
    ensures
        sent_all(pending, values) == pending + values,
    decreases values.len(),
{
    if values.len() == 0 {
        assert(pending + values =~= pending);
    } else {
        lemma_sent_all(pending.push(values[0]), values.drop_first());
        assert(pending.push(values[0]) + values.drop_first() =~= pending + values);
    }
}

/// Draining is exhaustive: after any number of sends on an empty channel,
/// one drain gives exactly the values sent, in the order of sending, and
/// leaves nothing for a second drain.
pub proof fn lemma_drain_after_sends<T>(values: Seq<T>)
    ensures
        sent_all(Seq::<T>::empty(), values) == values,
        sent_all(Seq::<T>::empty(), values).len() == values.len(),
{
    lemma_sent_all(Seq::<T>::empty(), values);
    assert(Seq::<T>::empty() + values =~= values);
}

} // verus!
