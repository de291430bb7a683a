//! Byte accounting for a body that streams past: a counter, and a wrapper
//! that owns a body and counts the data it yields without touching it.

use std::sync::atomic::{AtomicUsize, Ordering};
use std::sync::Arc;
use vstd::arithmetic::div_mod::lemma_add_mod_noop;
use vstd::prelude::*;

verus! {

/// `n` as a `usize` counts it: what is left of `n` after the counter has
/// gone round at `usize::MAX`.
pub open spec fn wrapped(n: nat) -> nat {
    n % (usize::MAX as nat + 1)
}

/// A count of bytes seen so far, shared by all its clones: what is added
/// through one handle is read through every other. A count that would pass
/// `usize::MAX` goes round.
///
/// The value is shared with other holders and can change between two reads,
/// so no contract speaks of it. What a run of polls adds up to is stated on
/// plain values, by [`count_after`].
#[derive(Debug, Clone)]
pub struct ByteCounter {
    shared: Arc<AtomicUsize>,
}

impl ByteCounter {
    /// A counter of its own, at zero.
    pub fn new() -> Self {
        ByteCounter { shared: Arc::new(AtomicUsize::new(0)) }
    }

    /// The bytes counted so far, through whichever handle.
    pub fn load(&self) -> usize {
        self.shared.load(Ordering::Relaxed)
    }

    /// Adds `amount` bytes to the count that all handles share.
    pub fn inc(&self, amount: usize) {
        self.shared.fetch_add(amount, Ordering::Relaxed);
    }
}

/// What one poll of a body stream came back with, as far as counting goes.
#[derive(Debug, Clone, Copy, PartialEq, Eq, Structural)]
pub enum Polled {
    /// Nothing is ready yet.
    Pending,
    /// A chunk of data of this many bytes.
    Data(usize),
    /// A frame that carries no data, such as trailers.
    Trailers,
    /// The stream reported an error in place of a frame.
    Failed,
    /// The stream has ended.
    Finished,
}

impl Polled {
    /// The bytes that this poll adds to the count: the length of a data
    /// chunk, and nothing for anything else.
    pub open spec fn bytes(self) -> nat {
        match self {
            Polled::Data(len) => len as nat,
            _ => 0,
        }
    }
}

/// The bytes that `polled` adds to the count.
pub fn counted(polled: &Polled) -> (n: usize)
    ensures
        n == polled.bytes(),
{
    match polled {
        Polled::Data(len) => *len,
        _ => 0,
    }
}

/// What a counter reads after the polls `events` were recorded, where it
/// read `start` before them and nothing else was added meanwhile.
pub open spec fn count_after(start: nat, events: Seq<Polled>) -> nat
    decreases events.len(),
{
    if events.len() == 0 {
        start
    } else {
        wrapped(count_after(start, events.drop_last()) + events.last().bytes())
    }
}

/// The bytes that the data chunks among `events` hold together.
pub open spec fn bytes_yielded(events: Seq<Polled>) -> nat
    decreases events.len(),
{
    if events.len() == 0 {
        0
    } else {
        bytes_yielded(events.drop_last()) + events.last().bytes()
    }
}

/// The lengths of `chunks` added up.
pub open spec fn total_len(chunks: Seq<Seq<u8>>) -> nat
    decreases chunks.len(),
{
    if chunks.len() == 0 {
        0
    } else {
        total_len(chunks.drop_last()) + chunks.last().len()
    }
}

/// The polls that yield `chunks` one after the other.
pub open spec fn data_events(chunks: Seq<Seq<u8>>) -> Seq<Polled> {
    Seq::new(chunks.len(), |i: int| Polled::Data(chunks[i].len() as usize))
}

/// A body together with the counter of the data bytes it has yielded.
#[derive(Debug)]
pub struct CountingBody<B> {
    inner: B,
    counter: ByteCounter,
}

impl<B> CountingBody<B> {
    /// The wrapped body.
    pub closed spec fn spec_inner(&self) -> &B {
        &self.inner
    }

    /// The counter.
    pub closed spec fn spec_counter(&self) -> &ByteCounter {
        &self.counter
    }

    /// Wraps `inner`; the bytes it yields from now on are added to `counter`.
    pub fn new(inner: B, counter: ByteCounter) -> (body: Self)
        ensures
            *body.inner() == inner,
            *body.counter() == counter,
    {
        CountingBody { inner, counter }
    }

    /// The counter.
    #[verifier::when_used_as_spec(spec_counter)]
    pub fn counter(&self) -> (counter: &ByteCounter)
        ensures
            counter == self.counter(),
    {
        &self.counter
    }

    /// The wrapped body.
    #[verifier::when_used_as_spec(spec_inner)]
    pub fn inner(&self) -> (inner: &B)
        ensures
            inner == self.inner(),
    {
        &self.inner
    }

    /// The wrapped body, to poll it. The counter cannot be reached this way.
    pub fn inner_mut(&mut self) -> (inner: &mut B)
        ensures
            *inner == *old(self).inner(),
            *final(self).inner() == *final(inner),
            *final(self).counter() == *old(self).counter(),
    {
        &mut self.inner
    }

    /// Takes note of what a poll of the wrapped body came back with: a data
    /// chunk adds its length to the shared count, anything else adds
    /// nothing. Tells the bytes that were added. The body itself is not
    /// touched, and the counter is the handle it was.
    pub fn record(&mut self, polled: &Polled) -> (added: usize)
        ensures
            added == polled.bytes(),
            *final(self).inner() == *old(self).inner(),
            *final(self).counter() == *old(self).counter(),
    {
        let added = counted(polled);
        self.counter.inc(added);
        added
    }

    /// Gives back the body and the counter.
    pub fn into_parts(self) -> (parts: (B, ByteCounter))
        ensures
            parts.0 == *self.inner(),
            parts.1 == *self.counter(),
    {
        (self.inner, self.counter)
    }
}

/// Counting never loses or invents a byte: after any run of polls a count
/// that started at zero stands at the bytes of the data chunks among them,
/// as a `usize` counts them.
pub proof fn lemma_count_is_bytes_yielded(events: Seq<Polled>)
    ensures
        count_after(0, events) == wrapped(bytes_yielded(events)),
        bytes_yielded(events) <= usize::MAX ==> count_after(0, events) == bytes_yielded(events),
    decreases events.len(),
{
    if events.len() > 0 {
        lemma_count_is_bytes_yielded(events.drop_last());
        lemma_add_mod_noop(
            bytes_yielded(events.drop_last()) as int,
            events.last().bytes() as int,
            usize::MAX + 1,
        );
        vstd::arithmetic::div_mod::lemma_small_mod(events.last().bytes(), (usize::MAX + 1) as nat);
    }
    if bytes_yielded(events) <= usize::MAX {
        vstd::arithmetic::div_mod::lemma_small_mod(bytes_yielded(events), (usize::MAX + 1) as nat);
    }
}

/// The count does not depend on where the chunk boundaries fall: however a
/// body is cut into chunks, the lengths of the chunks add up to its size.
pub proof fn lemma_chunks_add_up(chunks: Seq<Seq<u8>>)
    ensures
        total_len(chunks) == chunks.flatten().len(),
    decreases chunks.len(),
{
    chunks.lemma_flatten_and_flatten_alt_are_equivalent();
    if chunks.len() > 0 {
        lemma_chunks_add_up(chunks.drop_last());
        chunks.drop_last().lemma_flatten_and_flatten_alt_are_equivalent();
    }
}

/// A body of `N` bytes that arrives in any number of chunks, each of which
/// fits in memory, is counted as `N` bytes, whatever the number of chunks
/// and wherever they are cut. (Where `N` is more than a `usize` can store,
/// the count is what is left of `N` after going round.)
pub proof fn lemma_body_size_is_counted(chunks: Seq<Seq<u8>>)
    requires
        forall|i: int| 0 <= i < chunks.len() ==> (#[trigger] chunks[i]).len() <= usize::MAX,
    ensures
        count_after(0, data_events(chunks)) == wrapped(chunks.flatten().len()),
        chunks.flatten().len() <= usize::MAX ==> count_after(0, data_events(chunks))
            == chunks.flatten().len(),
    decreases chunks.len(),
{
    lemma_count_is_bytes_yielded(data_events(chunks));
    lemma_chunks_add_up(chunks);
    lemma_data_events_bytes(chunks);
}

proof fn lemma_data_events_bytes(chunks: Seq<Seq<u8>>)
    requires
        forall|i: int| 0 <= i < chunks.len() ==> (#[trigger] chunks[i]).len() <= usize::MAX,
    ensures
        bytes_yielded(data_events(chunks)) == total_len(chunks),
    decreases chunks.len(),
{
    if chunks.len() > 0 {
        lemma_data_events_bytes(chunks.drop_last());
        assert(data_events(chunks).drop_last() =~= data_events(chunks.drop_last()));
    }
}

} // verus!
